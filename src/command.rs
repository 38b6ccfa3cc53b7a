//! The decisions of one invocation: which operation runs, which status and
//! body source the flags select, and whether the profile is saved after.

use vstd::prelude::*;
use crate::error::ThecaError;
use crate::item::Status;

verus! {

/// The status chosen by the flags of `add`: started, else urgent, else none.
pub fn add_status(started: bool, urgent: bool) -> (r: Status)
    ensures
        r == (if started {
            Status::Started
        } else if urgent {
            Status::Urgent
        } else {
            Status::NoStatus
        }),
{
    if started {
        Status::Started
    } else if urgent {
        Status::Urgent
    } else {
        Status::NoStatus
    }
}

/// Where a body comes from.
#[derive(Clone, Debug, PartialEq, Eq)]
pub enum BodySource {
    /// Given on the command line.
    Text(String),
    /// Written in an external editor.
    Editor,
    /// Read from standard input.
    Input,
    /// No body given.
    Absent,
}

/// The body source chosen by the flags: an explicit non-empty text, else the
/// editor, else standard input, else none.
pub fn body_source(text: &str, editor: bool, input: bool) -> (r: BodySource)
    ensures
        text@.len() > 0 ==> (r matches BodySource::Text(t) && t@ == text@),
        text@.len() == 0 && editor ==> r is Editor,
        text@.len() == 0 && !editor && input ==> r is Input,
        text@.len() == 0 && !editor && !input ==> r is Absent,
{
    if !text.is_empty() {
        BodySource::Text(String::from_str(text))
    } else if editor {
        BodySource::Editor
    } else if input {
        BodySource::Input
    } else {
        BodySource::Absent
    }
}

/// The one change that an edit makes.
#[derive(Clone, Debug, PartialEq, Eq)]
pub enum EditChoice {
    /// Replace the title.
    Title,
    /// Replace the status.
    Status(Status),
    /// Replace the body from the source.
    Body(BodySource),
    /// Only refresh the timestamp.
    Nothing,
}

/// The change an edit makes: a non-empty title wins; else a status flag
/// (started, urgent, then none); else a body source; else nothing.
pub fn edit_choice(title: &str, started: bool, urgent: bool, none: bool, body: BodySource) -> (r:
    EditChoice)
    ensures
        title@.len() > 0 ==> r is Title,
        title@.len() == 0 && started ==> r == EditChoice::Status(Status::Started),
        title@.len() == 0 && !started && urgent ==> r == EditChoice::Status(Status::Urgent),
        title@.len() == 0 && !started && !urgent && none ==> r == EditChoice::Status(
            Status::NoStatus,
        ),
        title@.len() == 0 && !started && !urgent && !none ==> (if body is Absent {
            r is Nothing
        } else {
            r == EditChoice::Body(body)
        }),
{
    if !title.is_empty() {
        EditChoice::Title
    } else if started {
        EditChoice::Status(Status::Started)
    } else if urgent {
        EditChoice::Status(Status::Urgent)
    } else if none {
        EditChoice::Status(Status::NoStatus)
    } else {
        match body {
            BodySource::Absent => EditChoice::Nothing,
            b => EditChoice::Body(b),
        }
    }
}

/// The value of a setting: the given one, else the one from the environment.
pub fn with_fallback(given: String, fallback: Option<String>) -> (r: String)
    ensures
        r@ == (if given@.len() > 0 {
            given@
        } else {
            match fallback {
                Some(f) => f@,
                None => given@,
            }
        }),
{
    if !given.as_str().is_empty() {
        given
    } else {
        match fallback {
            Some(f) => f,
            None => given,
        }
    }
}

/// The editor to run: `$VISUAL`, else `$EDITOR`; fails when neither is set.
pub fn choose_editor(visual: Option<String>, editor: Option<String>) -> (r: Result<
    String,
    ThecaError,
>)
    ensures
        visual is Some ==> r == Ok::<String, ThecaError>(visual->0),
        visual is None && editor is Some ==> r == Ok::<String, ThecaError>(editor->0),
        visual is None && editor is None ==> (r matches Err(e) && e.is_generic(
            "Neither $VISUAL nor $EDITOR is set."@,
        )),
{
    match visual {
        Some(v) => Ok(v),
        None => match editor {
            Some(e) => Ok(e),
            None => Err(ThecaError::generic(String::from_str("Neither $VISUAL nor $EDITOR is set."))),
        },
    }
}

/// The operations of an invocation.
#[derive(Clone, Copy, Debug, PartialEq, Eq, Structural)]
pub enum Command {
    Add,
    Edit,
    Delete,
    Version,
    Search,
    View,
    Info,
    NewProfile,
    List,
}

/// The operation chosen by the command words, in this order: add, edit,
/// del, the version flag, search, a note id, info, new-profile; else a listing.
pub fn choose_command(
    add: bool,
    edit: bool,
    del: bool,
    version: bool,
    search: bool,
    has_id: bool,
    info: bool,
    new_profile: bool,
) -> (r: Command)
    ensures
        r == (if add {
            Command::Add
        } else if edit {
            Command::Edit
        } else if del {
            Command::Delete
        } else if version {
            Command::Version
        } else if search {
            Command::Search
        } else if has_id {
            Command::View
        } else if info {
            Command::Info
        } else if new_profile {
            Command::NewProfile
        } else {
            Command::List
        }),
{
    if add {
        Command::Add
    } else if edit {
        Command::Edit
    } else if del {
        Command::Delete
    } else if version {
        Command::Version
    } else if search {
        Command::Search
    } else if has_id {
        Command::View
    } else if info {
        Command::Info
    } else if new_profile {
        Command::NewProfile
    } else {
        Command::List
    }
}

/// Whether the profile is saved after the operation: after add, edit,
/// delete and new-profile.
pub fn saves_profile(c: Command) -> (r: bool)
    ensures
        r == (c is Add || c is Edit || c is Delete || c is NewProfile),
{
    match c {
        Command::Add | Command::Edit | Command::Delete | Command::NewProfile => true,
        _ => false,
    }
}

} // verus!

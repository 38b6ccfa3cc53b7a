//! Searching the notes of a profile with a regular expression.

use vstd::prelude::*;
use crate::error::ThecaError;
use crate::item::{ItemView, ThecaItem};
use crate::profile::{items_view, ThecaProfile};

verus! {

#[verifier::external_type_specification]
#[verifier::external_body]
pub struct ExRegex(regex::Regex);

/// The message of the error of `regex::Regex::new` on the pattern, or
/// `None` when it compiles.
pub uninterp spec fn regex_compile_error(pattern: Seq<char>) -> Option<Seq<char>>;

/// Whether `regex::Regex::new` accepts the pattern.
pub open spec fn regex_compiles(pattern: Seq<char>) -> bool {
    regex_compile_error(pattern) is None
}

/// Whether the regex compiled from `pattern` matches somewhere in `text`.
pub uninterp spec fn regex_finds(pattern: Seq<char>, text: Seq<char>) -> bool;

/// A compiled pattern together with its source text.
pub(crate) struct Matcher {
    source: String,
    re: regex::Regex,
}

impl Matcher {
    /// The source text that the pattern was compiled from.
    pub(crate) closed spec fn source(&self) -> Seq<char> {
        self.source@
    }

    /// Relies on `regex::Regex::new`: compiles the pattern; on failure
    /// gives the error's message (its `Display`).
    #[verifier::external_body]
    pub(crate) fn compile(pattern: &str) -> (r: Result<Matcher, String>)
        ensures
            r is Ok <==> regex_compile_error(pattern@) is None,
            r is Err ==> regex_compile_error(pattern@) == Some(r->Err_0@),
            r matches Ok(m) ==> m.source() == pattern@,
    {
        match regex::Regex::new(pattern) {
            Ok(re) => Ok(Matcher { source: pattern.to_string(), re }),
            Err(e) => Err(e.to_string()),
        }
    }

    /// Relies on `regex::Regex::is_match`: whether the compiled pattern
    /// matches somewhere in `text`.
    #[verifier::external_body]
    pub(crate) fn is_match(&self, text: &str) -> (r: bool)
        ensures
            r == regex_finds(self.source(), text@),
    {
        self.re.is_match(text)
    }
}

/// The notes whose flag is set, in their order.
pub open spec fn kept(notes: Seq<ItemView>, flags: Seq<bool>) -> Seq<ItemView>
    decreases notes.len(),
{
    if notes.len() == 0 {
        seq![]
    } else {
        let rest = kept(notes.drop_last(), flags.take(notes.len() - 1));
        if flags[notes.len() - 1] {
            rest.push(notes.last())
        } else {
            rest
        }
    }
}

/// The searched field of a note: its body or its title.
pub open spec fn searched_field(item: ItemView, search_body: bool) -> Seq<char> {
    if search_body { item.body } else { item.title }
}

/// For each note, whether the pattern matches its searched field.
pub open spec fn match_flags(notes: Seq<ItemView>, pattern: Seq<char>, search_body: bool) -> Seq<bool> {
    Seq::new(notes.len(), |i: int| regex_finds(pattern, searched_field(notes[i], search_body)))
}

/// Description of the failure of a search whose pattern does not compile.
pub open spec fn regex_error_desc(message: Seq<char>) -> Seq<char> {
    "Regex error: "@ + message
}

/// The failure of a search whose pattern does not compile, with the
/// compiler's message.
pub fn regex_failure(message: &str) -> (r: ThecaError)
    ensures
        r.is_generic(regex_error_desc(message@)),
{
    ThecaError::generic(String::from_str("Regex error: ").concat(message))
}

/// Copies of the notes whose flag is set, in their order.
pub fn select_items(notes: &Vec<ThecaItem>, flags: &Vec<bool>) -> (r: Vec<ThecaItem>)
    requires
        flags@.len() == notes@.len(),
    ensures
        items_view(r@) == kept(items_view(notes@), flags@),
{
    let ghost s = items_view(notes@);
    let mut out: Vec<ThecaItem> = Vec::new();
    let mut k: usize = 0;
    while k < notes.len()
        invariant
            k <= notes@.len(),
            flags@.len() == notes@.len(),
            s == items_view(notes@),
            items_view(out@) == kept(s.take(k as int), flags@.take(k as int)),
        decreases notes@.len() - k,
    {
        let ghost before = out@;
        proof {
            assert(s.take(k + 1).drop_last() =~= s.take(k as int));
            assert(flags@.take(k + 1).take(k as int) =~= flags@.take(k as int));
        }
        if flags[k] {
            out.push(notes[k].duplicate());
            assert(items_view(out@) =~= items_view(before).push(s[k as int]));
        }
        k = k + 1;
    }
    proof {
        assert(s.take(k as int) =~= s);
        assert(flags@.take(k as int) =~= flags@);
    }
    out
}

impl ThecaProfile {
    /// The notes whose title (or, with `search_body`, body) the pattern
    /// matches, in their order; fails when the pattern does not compile.
    pub fn search_items(&self, pattern: &str, search_body: bool) -> (r: Result<
        Vec<ThecaItem>,
        ThecaError,
    >)
        ensures
            r is Ok <==> regex_compiles(pattern@),
            r matches Ok(v) ==> items_view(v@) == kept(
                self@.notes,
                match_flags(self@.notes, pattern@, search_body),
            ),
            r matches Err(e) ==> e.is_generic(regex_error_desc(regex_compile_error(pattern@)->0)),
    {
        let m = match Matcher::compile(pattern) {
            Ok(m) => m,
            Err(message) => {
                return Err(regex_failure(message.as_str()));
            },
        };
        let mut flags: Vec<bool> = Vec::new();
        let mut k: usize = 0;
        while k < self.notes.len()
            invariant
                k <= self.notes@.len(),
                m.source() == pattern@,
                flags@ == match_flags(self@.notes, pattern@, search_body).take(k as int),
            decreases self.notes@.len() - k,
        {
            let item = &self.notes[k];
            let hit = if search_body {
                m.is_match(item.body.as_str())
            } else {
                m.is_match(item.title.as_str())
            };
            flags.push(hit);
            proof {
                assert(flags@ =~= match_flags(self@.notes, pattern@, search_body).take(k + 1));
            }
            k = k + 1;
        }
        proof {
            assert(flags@ =~= match_flags(self@.notes, pattern@, search_body));
        }
        Ok(select_items(&self.notes, &flags))
    }
}

} // verus!

//! A profile: the ordered collection of notes and the operations on it.

use vstd::prelude::*;
use crate::clock::{is_timestamp, utc_timestamp};
use crate::error::{ErrorKind, ThecaError};
use crate::item::{ItemView, Status, ThecaItem};
use crate::text::{decimal, strip_newlines, usize_text, without_newlines};

verus! {

/// A named collection of notes with its encryption flag.
#[derive(Clone, Debug)]
pub struct ThecaProfile {
    pub encrypted: bool,
    pub notes: Vec<ThecaItem>,
}

/// The mathematical value of a profile.
pub struct ProfileView {
    pub encrypted: bool,
    pub notes: Seq<ItemView>,
}

/// The values of a sequence of notes.
pub open spec fn items_view(s: Seq<ThecaItem>) -> Seq<ItemView> {
    s.map_values(|i: ThecaItem| i@)
}

impl View for ThecaProfile {
    type V = ProfileView;

    open spec fn view(&self) -> ProfileView {
        ProfileView { encrypted: self.encrypted, notes: items_view(self.notes@) }
    }
}

/// The id that the next added note gets: one more than the last note's, or 1.
pub open spec fn next_id(notes: Seq<ItemView>) -> nat {
    if notes.len() == 0 {
        1
    } else {
        notes.last().id + 1
    }
}

/// Whether the next id is representable.
pub open spec fn can_add(notes: Seq<ItemView>) -> bool {
    notes.len() == 0 || notes.last().id < usize::MAX
}

/// The notes after adding one with the given fields.
pub open spec fn added(
    notes: Seq<ItemView>,
    title: Seq<char>,
    status: Status,
    body: Seq<char>,
    touched: Seq<char>,
) -> Seq<ItemView> {
    notes.push(
        ItemView {
            id: next_id(notes),
            title: without_newlines(title),
            status,
            body,
            last_touched: touched,
        },
    )
}

/// `after` is `before` with one note added, whatever its title, status,
/// body and timestamp.
pub open spec fn is_add_step(before: Seq<ItemView>, after: Seq<ItemView>) -> bool {
    exists|title: Seq<char>, status: Status, body: Seq<char>, t: Seq<char>|
        after == #[trigger] added(before, title, status, body, t)
}

/// Whether some note has the id.
pub open spec fn has_id(notes: Seq<ItemView>, id: nat) -> bool {
    exists|i: int| 0 <= i < notes.len() && notes[i].id == id
}

/// `i` is the position of the first note with the id.
pub open spec fn is_first(notes: Seq<ItemView>, id: nat, i: int) -> bool {
    &&& 0 <= i < notes.len()
    &&& notes[i].id == id
    &&& forall|j: int| 0 <= j < i ==> notes[j].id != id
}

/// The position of the first note with the id (meaningful when there is one).
pub open spec fn first_index(notes: Seq<ItemView>, id: nat) -> int {
    choose|i: int| is_first(notes, id, i)
}

/// The notes after deleting the first one with the id, if any.
pub open spec fn deleted(notes: Seq<ItemView>, id: nat) -> Seq<ItemView> {
    if has_id(notes, id) {
        notes.remove(first_index(notes, id))
    } else {
        notes
    }
}

/// A change to one note, chosen before the edit.
#[derive(Clone, Debug)]
pub enum Change {
    /// A new title (newlines are removed).
    Title(String),
    /// A new status.
    Status(Status),
    /// A new body.
    Body(String),
    /// Nothing but the timestamp.
    Touch,
}

/// A note after a change at time `touched`.
pub open spec fn changed(item: ItemView, c: Change, touched: Seq<char>) -> ItemView {
    match c {
        Change::Title(t) => ItemView {
            id: item.id,
            title: without_newlines(t@),
            status: item.status,
            body: item.body,
            last_touched: touched,
        },
        Change::Status(s) => ItemView {
            id: item.id,
            title: item.title,
            status: s,
            body: item.body,
            last_touched: touched,
        },
        Change::Body(b) => ItemView {
            id: item.id,
            title: item.title,
            status: item.status,
            body: b@,
            last_touched: touched,
        },
        Change::Touch => ItemView {
            id: item.id,
            title: item.title,
            status: item.status,
            body: item.body,
            last_touched: touched,
        },
    }
}

/// The notes after applying a change to the first note with the id.
pub open spec fn edited(notes: Seq<ItemView>, id: nat, c: Change, touched: Seq<char>) -> Seq<
    ItemView,
> {
    let i = first_index(notes, id);
    notes.update(i, changed(notes[i], c, touched))
}

/// Description of the failure of an edit on a missing id.
pub open spec fn missing_note_desc(id: nat) -> Seq<char> {
    "note id#"@ + decimal(id) + " doesn't exist."@
}

/// Description of the failure of a clock reading.
pub open spec fn time_error_desc() -> Seq<char> {
    "Time parsing error"@
}

/// Number of notes with the status.
pub open spec fn count_status(notes: Seq<ItemView>, s: Status) -> nat
    decreases notes.len(),
{
    if notes.len() == 0 {
        0
    } else {
        count_status(notes.drop_last(), s) + if notes.last().status == s {
            1nat
        } else {
            0nat
        }
    }
}

/// Aggregate counts over a profile.
#[derive(Clone, Copy, Debug, PartialEq, Eq, Structural)]
pub struct ProfileStats {
    pub encrypted: bool,
    pub notes: usize,
    pub no_status: usize,
    pub started: usize,
    pub urgent: usize,
}

/// A position holding the first note with an id is `first_index`.
pub proof fn lemma_first_unique(notes: Seq<ItemView>, id: nat, i: int)
    requires
        is_first(notes, id, i),
    ensures
        has_id(notes, id),
        first_index(notes, id) == i,
{
    let k = first_index(notes, id);
    assert(is_first(notes, id, k));
    if k < i {
        assert(notes[k].id != id);
    } else if i < k {
        assert(notes[i].id != id);
    }
}

pub(crate) fn time_error(text: String) -> (r: ThecaError)
    ensures
        r.kind == ErrorKind::GenericError,
        r.desc@ == time_error_desc(),
        r.detail == Some(text),
{
    ThecaError {
        kind: ErrorKind::GenericError,
        desc: String::from_str("Time parsing error"),
        detail: Some(text),
    }
}

impl ThecaProfile {
    /// A profile with no notes.
    pub fn new_empty(encrypted: bool) -> (r: ThecaProfile)
        ensures
            r@.encrypted == encrypted,
            r@.notes == Seq::<ItemView>::empty(),
    {
        let r = ThecaProfile { encrypted, notes: Vec::new() };
        assert(r@.notes =~= Seq::<ItemView>::empty());
        r
    }

    /// Position of the first note with the id.
    pub fn position_of(&self, id: usize) -> (r: Option<usize>)
        ensures
            r is None <==> !has_id(self@.notes, id as nat),
            r matches Some(i) ==> is_first(self@.notes, id as nat, i as int)
                && first_index(self@.notes, id as nat) == i as int,
    {
        let mut k: usize = 0;
        while k < self.notes.len()
            invariant
                k <= self.notes@.len(),
                forall|j: int| 0 <= j < k ==> self@.notes[j].id != id as nat,
            decreases self.notes@.len() - k,
        {
            if self.notes[k].id == id {
                proof {
                    lemma_first_unique(self@.notes, id as nat, k as int);
                }
                return Some(k);
            }
            k = k + 1;
        }
        None
    }

    /// Whether another note can be added (its id is representable).
    pub fn can_add(&self) -> (r: bool)
        ensures
            r == can_add(self@.notes),
    {
        match self.notes.last() {
            Some(n) => n.id < usize::MAX,
            None => true,
        }
    }

    /// Appends a note with the next id, touched at `touched`.
    pub fn add_item_at(&mut self, title: &str, status: Status, body: String, touched: String)
        requires
            can_add(old(self)@.notes),
        ensures
            final(self)@.encrypted == old(self)@.encrypted,
            final(self)@.notes == added(old(self)@.notes, title@, status, body@, touched@),
            is_add_step(old(self)@.notes, final(self)@.notes),
    {
        let new_id: usize = match self.notes.last() {
            Some(n) => n.id,
            None => 0,
        };
        let item = ThecaItem {
            id: new_id + 1,
            title: strip_newlines(title),
            status,
            body,
            last_touched: touched,
        };
        let ghost before = self.notes@;
        self.notes.push(item);
        proof {
            assert(self@.notes =~= added(items_view(before), title@, status, body@, touched@));
        }
    }

    /// Appends a note with the next id, touched now.
    pub fn add_item(&mut self, title: &str, status: Status, body: String) -> (r: Result<
        (),
        ThecaError,
    >)
        requires
            can_add(old(self)@.notes),
        ensures
            r is Ok,
            final(self)@.encrypted == old(self)@.encrypted,
            exists|t: Seq<char>|
                is_timestamp(t) && final(self)@.notes == added(
                    old(self)@.notes,
                    title@,
                    status,
                    body@,
                    t,
                ),
            is_add_step(old(self)@.notes, final(self)@.notes),
    {
        match utc_timestamp() {
            Ok(t) => {
                self.add_item_at(title, status, body, t);
                Ok(())
            },
            Err(text) => Err(time_error(text)),
        }
    }

    /// Removes the first note with the id; tells whether there was one.
    pub fn delete_item(&mut self, id: usize) -> (r: bool)
        ensures
            r == has_id(old(self)@.notes, id as nat),
            final(self)@.encrypted == old(self)@.encrypted,
            final(self)@.notes == deleted(old(self)@.notes, id as nat),
    {
        match self.position_of(id) {
            Some(i) => {
                let ghost before = self.notes@;
                self.notes.remove(i);
                proof {
                    assert(self@.notes =~= items_view(before).remove(i as int));
                }
                true
            },
            None => false,
        }
    }

    /// Applies a change to the first note with the id, touched at
    /// `touched`; fails, changing nothing, when no note has the id.
    pub fn edit_item_at(&mut self, id: usize, change: Change, touched: String) -> (r: Result<
        (),
        ThecaError,
    >)
        ensures
            r is Ok <==> has_id(old(self)@.notes, id as nat),
            r is Ok ==> final(self)@.notes == edited(old(self)@.notes, id as nat, change, touched@)
                && final(self)@.encrypted == old(self)@.encrypted,
            r matches Err(e) ==> e.is_generic(missing_note_desc(id as nat)) && final(self)@ == old(
                self,
            )@,
    {
        match self.position_of(id) {
            None => Err(missing_note(id)),
            Some(i) => {
                let ghost before = self.notes@;
                let ghost c = change;
                let mut item = self.notes[i].duplicate();
                match change {
                    Change::Title(t) => {
                        item.title = strip_newlines(t.as_str());
                    },
                    Change::Status(s) => {
                        item.status = s;
                    },
                    Change::Body(b) => {
                        item.body = b;
                    },
                    Change::Touch => {},
                }
                item.last_touched = touched;
                self.notes.set(i, item);
                proof {
                    assert(self@.notes =~= edited(items_view(before), id as nat, c, touched@));
                }
                Ok(())
            },
        }
    }

    /// Applies a change to the first note with the id, touched now. Fails,
    /// changing nothing, when no note has the id.
    pub fn edit_item(&mut self, id: usize, change: Change) -> (r: Result<(), ThecaError>)
        ensures
            r is Ok <==> has_id(old(self)@.notes, id as nat),
            r is Ok ==> exists|t: Seq<char>|
                is_timestamp(t) && final(self)@.notes == edited(old(self)@.notes, id as nat, change, t),
            r is Ok ==> final(self)@.encrypted == old(self)@.encrypted,
            r matches Err(e) ==> e.is_generic(missing_note_desc(id as nat)),
            r is Err ==> final(self)@ == old(self)@,
    {
        if self.position_of(id).is_none() {
            return Err(missing_note(id));
        }
        match utc_timestamp() {
            Ok(t) => self.edit_item_at(id, change, t),
            Err(text) => Err(time_error(text)),
        }
    }

    /// Counts of notes by status, the total, and the encryption flag.
    pub fn stats(&self) -> (r: ProfileStats)
        ensures
            r.encrypted == self@.encrypted,
            r.notes == self@.notes.len(),
            r.no_status == count_status(self@.notes, Status::NoStatus),
            r.started == count_status(self@.notes, Status::Started),
            r.urgent == count_status(self@.notes, Status::Urgent),
    {
        let mut none: usize = 0;
        let mut started: usize = 0;
        let mut urgent: usize = 0;
        let mut k: usize = 0;
        while k < self.notes.len()
            invariant
                k <= self.notes@.len(),
                none == count_status(self@.notes.take(k as int), Status::NoStatus),
                started == count_status(self@.notes.take(k as int), Status::Started),
                urgent == count_status(self@.notes.take(k as int), Status::Urgent),
                none + started + urgent == k,
            decreases self.notes@.len() - k,
        {
            proof {
                assert(self@.notes.take(k + 1).drop_last() =~= self@.notes.take(k as int));
            }
            match self.notes[k].status {
                Status::NoStatus => none = none + 1,
                Status::Started => started = started + 1,
                Status::Urgent => urgent = urgent + 1,
            }
            k = k + 1;
        }
        proof {
            assert(self@.notes.take(k as int) =~= self@.notes);
        }
        ProfileStats {
            encrypted: self.encrypted,
            notes: self.notes.len(),
            no_status: none,
            started,
            urgent,
        }
    }
}

/// Profiles that follow one another by adds only, starting from an empty
/// one (as successive calls of `add_item` give): the `k`-th has `k` notes,
/// with the ids 1, 2, ..., k in order.
pub proof fn lemma_add_chain(states: Seq<Seq<ItemView>>)
    requires
        states.len() > 0,
        states[0].len() == 0,
        forall|k: int| 0 <= k < states.len() - 1 ==> #[trigger] is_add_step(states[k], states[k + 1]),
    ensures
        forall|k: int| 0 <= k < states.len() ==> #[trigger] states[k].len() == k,
        forall|k: int, i: int|
            0 <= k < states.len() && 0 <= i < states[k].len() ==> #[trigger] states[k][i].id == i + 1,
    decreases states.len(),
{
    let m = states.len() - 1;
    if m > 0 {
        let prev = states.drop_last();
        assert forall|k: int| 0 <= k < prev.len() - 1 implies #[trigger] is_add_step(prev[k], prev[k + 1]) by {
            assert(is_add_step(states[k], states[k + 1]));
        }
        lemma_add_chain(prev);
        let j = m - 1;
        assert(is_add_step(states[j], states[j + 1]));
        assert(j + 1 == m);
        let (title, status, body, t) = choose|title: Seq<char>, status: Status, body: Seq<char>, t: Seq<char>|
            states[m] == #[trigger] added(states[m - 1], title, status, body, t);
        assert(states[m - 1] == prev[m - 1]);
        assert(states[m - 1].len() == m - 1);
        if m > 1 {
            assert(states[m - 1][m - 2].id == m - 1);
        }
        assert forall|k: int, i: int|
            0 <= k < states.len() && 0 <= i < states[k].len() implies #[trigger] states[k][i].id == i + 1 by {
            if k < m {
                assert(states[k] == prev[k]);
            }
        }
        assert forall|k: int| 0 <= k < states.len() implies #[trigger] states[k].len() == k by {
            if k < m {
                assert(states[k] == prev[k]);
            }
        }
    }
}

/// When at most one note has an id, deleting it leaves no note with that
/// id, so a second deletion of it reports that nothing was removed.
pub proof fn lemma_delete_twice(notes: Seq<ItemView>, id: nat)
    requires
        forall|i: int, j: int|
            0 <= i < j < notes.len() && #[trigger] notes[i].id == id ==> #[trigger] notes[j].id
                != id,
    ensures
        !has_id(deleted(notes, id), id),
{
    if has_id(notes, id) {
        let i = choose|i: int| 0 <= i < notes.len() && notes[i].id == id;
        assert(is_first(notes, id, i));
        lemma_first_unique(notes, id, i);
        let rest = notes.remove(i);
        assert forall|k: int| 0 <= k < rest.len() implies rest[k].id != id by {
            if k < i {
                assert(rest[k] == notes[k]);
            } else {
                assert(rest[k] == notes[k + 1]);
            }
        }
    }
}

/// An edit that changes the title keeps the status and the body of the
/// note, sets its title, and refreshes its timestamp; other notes stay.
pub proof fn lemma_title_edit(notes: Seq<ItemView>, id: nat, title: String, touched: Seq<char>)
    requires
        has_id(notes, id),
    ensures
        ({
            let i = first_index(notes, id);
            let after = edited(notes, id, Change::Title(title), touched);
            &&& after.len() == notes.len()
            &&& after[i].id == notes[i].id
            &&& after[i].status == notes[i].status
            &&& after[i].body == notes[i].body
            &&& after[i].title == without_newlines(title@)
            &&& after[i].last_touched == touched
            &&& forall|j: int| 0 <= j < notes.len() && j != i ==> after[j] == notes[j]
        }),
{
    let i = choose|i: int| 0 <= i < notes.len() && notes[i].id == id;
    let k = first_index(notes, id);
    lemma_first_exists(notes, id, i);
    assert(is_first(notes, id, k));
}

proof fn lemma_first_exists(notes: Seq<ItemView>, id: nat, i: int)
    requires
        0 <= i < notes.len(),
        notes[i].id == id,
    ensures
        exists|k: int| is_first(notes, id, k),
    decreases i,
{
    if exists|j: int| 0 <= j < i && notes[j].id == id {
        let j = choose|j: int| 0 <= j < i && notes[j].id == id;
        lemma_first_exists(notes, id, j);
    } else {
        assert(is_first(notes, id, i));
    }
}

/// The failure of an edit on a missing id.
pub fn missing_note(id: usize) -> (r: ThecaError)
    ensures
        r.is_generic(missing_note_desc(id as nat)),
{
    let d = String::from_str("note id#").concat(usize_text(id).as_str()).concat(
        " doesn't exist.",
    );
    ThecaError::generic(d)
}

} // verus!

//! Read-only renderings of a profile: the listing and the view of one note.

use vstd::prelude::*;
use crate::error::ThecaError;
use crate::item::{status_text, ItemView, Status, ThecaItem};
use crate::layout::{header_text, layout, row_text, rule_text, LineFormat};
use crate::profile::{first_index, has_id, items_view, ThecaProfile};
use crate::text::{decimal, usize_text};

verus! {

/// The texts of a sequence of strings.
pub open spec fn texts(v: Seq<String>) -> Seq<Seq<char>> {
    v.map_values(|s: String| s@)
}

/// The label and value texts of a sequence of pairs.
pub open spec fn pair_texts(v: Seq<(String, String)>) -> Seq<(Seq<char>, Seq<char>)> {
    v.map_values(|p: (String, String)| (p.0@, p.1@))
}

/// How many notes a listing shows: the limit when it is positive and at
/// most the number of notes, else all of them.
pub open spec fn shown_count(len: nat, limit: nat) -> nat {
    if limit > 0 && limit <= len { limit } else { len }
}

/// The position of the `j`-th listed note among the first `n`.
pub open spec fn listed_index(n: nat, j: int, reverse: bool) -> int {
    if reverse { n - 1 - j } else { j }
}

/// The lines of a listing: nothing for an empty profile; else, in expanded
/// mode, the header and its rule, then one line per shown note, the first
/// `shown_count` notes in order or in reverse order, laid out for the shown
/// notes.
pub open spec fn listing(
    notes: Seq<ItemView>,
    limit: nat,
    reverse: bool,
    condensed: bool,
    console: nat,
) -> Seq<Seq<char>> {
    if notes.len() == 0 {
        seq![]
    } else {
        let n = shown_count(notes.len(), limit);
        let lf = layout(notes.take(n as int), condensed, console);
        let head: Seq<Seq<char>> = if condensed {
            seq![]
        } else {
            seq![header_text(lf), rule_text(lf)]
        };
        head + Seq::new(n, |j: int| row_text(notes[listed_index(n, j, reverse)], lf, false))
    }
}

/// Description of the failure of a view of a missing id.
pub open spec fn missing_view_desc(id: nat) -> Seq<char> {
    "Note #"@ + decimal(id) + " doesn't exist."@
}

/// One labelled entry of a note's view.
pub open spec fn entry(label: Seq<char>, value: Seq<char>, condensed: bool) -> (Seq<char>, Seq<char>) {
    if condensed {
        (label + ": "@, value + "\n"@)
    } else {
        (label + "\n"@ + Seq::new(label.len(), |i: int| '-') + "\n"@, value + "\n\n"@)
    }
}

/// The entries of a note's view: id, title, status when set, last touched,
/// body when not empty.
pub open spec fn view_entries(item: ItemView, condensed: bool) -> Seq<(Seq<char>, Seq<char>)> {
    let a = seq![
        entry("id"@, decimal(item.id), condensed),
        entry("title"@, item.title, condensed),
    ];
    let b = if item.status != Status::NoStatus {
        a.push(entry("status"@, status_text(item.status), condensed))
    } else {
        a
    };
    let c = b.push(entry("last touched"@, item.last_touched, condensed));
    if item.body.len() > 0 {
        c.push(entry("body"@, item.body, condensed))
    } else {
        c
    }
}

fn make_entry(label: &str, dashes: &str, value: &str, condensed: bool) -> (r: (String, String))
    requires
        dashes@ == Seq::new(label@.len(), |i: int| '-'),
    ensures
        (r.0@, r.1@) == entry(label@, value@, condensed),
{
    if condensed {
        (String::from_str(label).concat(": "), String::from_str(value).concat("\n"))
    } else {
        (
            String::from_str(label).concat("\n").concat(dashes).concat("\n"),
            String::from_str(value).concat("\n\n"),
        )
    }
}

/// Copies of the first `n` notes.
fn first_notes(notes: &Vec<ThecaItem>, n: usize) -> (r: Vec<ThecaItem>)
    requires
        n <= notes@.len(),
    ensures
        items_view(r@) == items_view(notes@).take(n as int),
{
    let mut out: Vec<ThecaItem> = Vec::new();
    let mut k: usize = 0;
    while k < n
        invariant
            k <= n,
            n <= notes@.len(),
            items_view(out@) == items_view(notes@).take(k as int),
        decreases n - k,
    {
        let ghost before = out@;
        out.push(notes[k].duplicate());
        assert(items_view(out@) =~= items_view(before).push(notes@[k as int]@));
        assert(items_view(notes@).take(k + 1) =~= items_view(notes@).take(k as int).push(
            notes@[k as int]@,
        ));
        k = k + 1;
    }
    out
}

impl ThecaProfile {
    /// The lines of a listing of the notes (see `listing`).
    pub fn list_items(&self, limit: usize, reverse: bool, condensed: bool, console_width: usize) -> (r:
        Vec<String>)
        ensures
            texts(r@) == listing(self@.notes, limit as nat, reverse, condensed, console_width as nat),
    {
        let mut lines: Vec<String> = Vec::new();
        if self.notes.len() == 0 {
            assert(texts(lines@) =~= seq![]);
            return lines;
        }
        let len = self.notes.len();
        let n: usize = if limit > 0 && limit <= len { limit } else { len };
        let shown = first_notes(&self.notes, n);
        let lf = LineFormat::new(&shown, condensed, console_width);
        if !condensed {
            lines.push(lf.header());
            lines.push(lf.rule());
        }
        let ghost head = texts(lines@);
        let mut j: usize = 0;
        while j < n
            invariant
                j <= n,
                n == shown_count(self@.notes.len(), limit as nat),
                n <= self.notes@.len(),
                lf == layout(self@.notes.take(n as int), condensed, console_width as nat),
                texts(lines@) == head + Seq::new(
                    j as nat,
                    |q: int| row_text(self@.notes[listed_index(n as nat, q, reverse)], lf, false),
                ),
            decreases n - j,
        {
            let i: usize = if reverse { n - 1 - j } else { j };
            let row = self.notes[i].row(&lf, false);
            let ghost before = lines@;
            lines.push(row);
            proof {
                assert(texts(lines@) =~= texts(before).push(row@));
                assert(head + Seq::new(
                    (j + 1) as nat,
                    |q: int| row_text(self@.notes[listed_index(n as nat, q, reverse)], lf, false),
                ) =~= head + Seq::new(
                    j as nat,
                    |q: int| row_text(self@.notes[listed_index(n as nat, q, reverse)], lf, false),
                ).push(row@));
            }
            j = j + 1;
        }
        proof {
            if condensed {
                assert(head =~= seq![]);
            } else {
                assert(head =~= seq![header_text(lf), rule_text(lf)]);
            }
            assert(texts(lines@) =~= listing(
                self@.notes,
                limit as nat,
                reverse,
                condensed,
                console_width as nat,
            ));
        }
        lines
    }

    /// The labelled entries of the view of the first note with the id
    /// (see `view_entries`); fails when no note has it.
    pub fn view_item(&self, id: usize, condensed: bool) -> (r: Result<
        Vec<(String, String)>,
        ThecaError,
    >)
        ensures
            r is Ok <==> has_id(self@.notes, id as nat),
            r matches Ok(v) ==> pair_texts(v@) == view_entries(
                self@.notes[first_index(self@.notes, id as nat)],
                condensed,
            ),
            r matches Err(e) ==> e.is_generic(missing_view_desc(id as nat)),
    {
        let pos = match self.position_of(id) {
            Some(p) => p,
            None => {
                let d = String::from_str("Note #").concat(usize_text(id).as_str()).concat(
                    " doesn't exist.",
                );
                return Err(ThecaError::generic(d));
            },
        };
        let item = &self.notes[pos];
        proof {
            reveal_strlit("id");
            reveal_strlit("--");
            reveal_strlit("title");
            reveal_strlit("-----");
            reveal_strlit("status");
            reveal_strlit("------");
            reveal_strlit("last touched");
            reveal_strlit("------------");
            reveal_strlit("body");
            reveal_strlit("----");
            assert("--"@ =~= Seq::new("id"@.len(), |i: int| '-'));
            assert("-----"@ =~= Seq::new("title"@.len(), |i: int| '-'));
            assert("------"@ =~= Seq::new("status"@.len(), |i: int| '-'));
            assert("------------"@ =~= Seq::new("last touched"@.len(), |i: int| '-'));
            assert("----"@ =~= Seq::new("body"@.len(), |i: int| '-'));
        }
        let mut out: Vec<(String, String)> = Vec::new();
        out.push(make_entry("id", "--", usize_text(item.id).as_str(), condensed));
        out.push(make_entry("title", "-----", item.title.as_str(), condensed));
        if item.status != Status::NoStatus {
            out.push(make_entry("status", "------", item.status.as_str(), condensed));
        }
        out.push(make_entry("last touched", "------------", item.last_touched.as_str(), condensed));
        if !item.body.as_str().is_empty() {
            out.push(make_entry("body", "----", item.body.as_str(), condensed));
        }
        proof {
            assert(pair_texts(out@) =~= view_entries(item@, condensed));
        }
        Ok(out)
    }
}

} // verus!

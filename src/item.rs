//! A single note and its status.

use vstd::prelude::*;

verus! {

/// The status of a note; stored as `""`, `"Started"` or `"Urgent"`.
#[derive(Clone, Copy, Debug, PartialEq, Eq, Structural)]
pub enum Status {
    NoStatus,
    Started,
    Urgent,
}

/// The stored text of a status.
pub open spec fn status_text(s: Status) -> Seq<char> {
    match s {
        Status::NoStatus => seq![],
        Status::Started => seq!['S', 't', 'a', 'r', 't', 'e', 'd'],
        Status::Urgent => seq!['U', 'r', 'g', 'e', 'n', 't'],
    }
}

impl Status {
    /// The stored text of this status.
    pub fn as_str(&self) -> (r: &'static str)
        ensures
            r@ == status_text(*self),
    {
        proof {
            reveal_strlit("Started");
            reveal_strlit("Urgent");
            reveal_strlit("");
        }
        match self {
            Status::NoStatus => "",
            Status::Started => "Started",
            Status::Urgent => "Urgent",
        }
    }

    /// Length of the stored text of this status.
    pub fn text_len(&self) -> (r: usize)
        ensures
            r as nat == status_text(*self).len(),
    {
        match self {
            Status::NoStatus => 0,
            Status::Started => 7,
            Status::Urgent => 6,
        }
    }
}

/// A note.
#[derive(Clone, Debug)]
pub struct ThecaItem {
    pub id: usize,
    pub title: String,
    pub status: Status,
    pub body: String,
    pub last_touched: String,
}

/// The mathematical value of a note.
pub struct ItemView {
    pub id: nat,
    pub title: Seq<char>,
    pub status: Status,
    pub body: Seq<char>,
    pub last_touched: Seq<char>,
}

impl View for ThecaItem {
    type V = ItemView;

    open spec fn view(&self) -> ItemView {
        ItemView {
            id: self.id as nat,
            title: self.title@,
            status: self.status,
            body: self.body@,
            last_touched: self.last_touched@,
        }
    }
}

impl ThecaItem {
    /// A copy of this note.
    pub fn duplicate(&self) -> (r: ThecaItem)
        ensures
            r@ == self@,
    {
        ThecaItem {
            id: self.id,
            title: self.title.clone(),
            status: self.status,
            body: self.body.clone(),
            last_touched: self.last_touched.clone(),
        }
    }
}

} // verus!

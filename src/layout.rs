//! Column layout of listings: the widths of the id, title, status and
//! last-touched columns, fitted to the terminal, and the text of each line.

use vstd::prelude::*;
use crate::item::{status_text, ItemView, Status, ThecaItem};
use crate::profile::items_view;
use crate::text::{
    byte_count, byte_len, decimal, decimal_width, repeat_text, repeated, spaces, usize_text,
};

verus! {

/// Terminal dimensions as reported by the terminal.
#[derive(Clone, Copy, Debug, PartialEq, Eq, Structural)]
pub struct Winsize {
    pub ws_row: u16,
    pub ws_col: u16,
}

/// Usable terminal width: the column count, or 0 (unknown) when either
/// dimension is 0.
pub fn console_width(ws: &Winsize) -> (r: usize)
    ensures
        r == (if ws.ws_col == 0 || ws.ws_row == 0 {
            0
        } else {
            ws.ws_col as usize
        }),
{
    if ws.ws_col == 0 || ws.ws_row == 0 {
        0
    } else {
        ws.ws_col as usize
    }
}

/// Column widths of a listing and the width of the gap between columns.
#[derive(Clone, Copy, Debug, PartialEq, Eq, Structural)]
pub struct LineFormat {
    pub colsep: usize,
    pub id_width: usize,
    pub title_width: usize,
    pub status_width: usize,
    pub touched_width: usize,
}

pub open spec fn max_nat(a: nat, b: nat) -> nat {
    if a >= b { a } else { b }
}

/// Length of the longest rendered id.
pub open spec fn max_id_width(s: Seq<ItemView>) -> nat
    decreases s.len(),
{
    if s.len() == 0 {
        0
    } else {
        max_nat(max_id_width(s.drop_last()), decimal(s.last().id).len())
    }
}

/// Byte length of the longest title.
pub open spec fn max_title_len(s: Seq<ItemView>) -> nat
    decreases s.len(),
{
    if s.len() == 0 {
        0
    } else {
        max_nat(max_title_len(s.drop_last()), byte_len(s.last().title))
    }
}

/// Length of the longest status text.
pub open spec fn max_status_len(s: Seq<ItemView>) -> nat
    decreases s.len(),
{
    if s.len() == 0 {
        0
    } else {
        max_nat(max_status_len(s.drop_last()), status_text(s.last().status).len())
    }
}

/// Whether some note has a non-empty body.
pub open spec fn any_body(s: Seq<ItemView>) -> bool {
    exists|i: int| 0 <= i < s.len() && s[i].body.len() > 0
}

/// Whether some note has a status.
pub open spec fn any_status(s: Seq<ItemView>) -> bool {
    exists|i: int| 0 <= i < s.len() && s[i].status != Status::NoStatus
}

pub open spec fn colsep_for(condensed: bool) -> nat {
    if condensed { 1 } else { 2 }
}

pub open spec fn touched_for(condensed: bool) -> nat {
    if condensed { 10 } else { 19 }
}

pub open spec fn id_col(s: Seq<ItemView>, condensed: bool) -> nat {
    if !condensed && max_id_width(s) < 2 { 2 } else { max_id_width(s) }
}

/// Title width before fitting to the terminal: the longest title, 4 more
/// when some note has a body, at least 5 in expanded mode.
pub open spec fn title_col(s: Seq<ItemView>, condensed: bool) -> nat {
    let t = if any_body(s) { max_title_len(s) + 4 } else { max_title_len(s) };
    if !condensed && t < 5 { 5 } else { t }
}

pub open spec fn status_col(s: Seq<ItemView>, condensed: bool) -> nat {
    if !any_status(s) { 0 } else if condensed { 1 } else { max_status_len(s) }
}

/// The width of a line before fitting to the terminal.
pub open spec fn natural_width(s: Seq<ItemView>, condensed: bool) -> nat {
    id_col(s, condensed) + title_col(s, condensed) + status_col(s, condensed) + touched_for(
        condensed,
    ) + 3 * colsep_for(condensed)
}

/// The title width after fitting: shrunk by the overflow when the terminal
/// width is known, the line is wider, and the title stays positive.
pub open spec fn fitted_title(s: Seq<ItemView>, condensed: bool, console: nat) -> nat {
    let w = natural_width(s, condensed);
    let t = title_col(s, condensed);
    if console > 0 && w > console && t > w - console {
        (t - (w - console)) as nat
    } else {
        t
    }
}

/// The layout of a listing of the notes.
pub open spec fn layout(s: Seq<ItemView>, condensed: bool, console: nat) -> LineFormat {
    LineFormat {
        colsep: colsep_for(condensed) as usize,
        id_width: id_col(s, condensed) as usize,
        title_width: fitted_title(s, condensed, console) as usize,
        status_width: status_col(s, condensed) as usize,
        touched_width: touched_for(condensed) as usize,
    }
}

/// The total width of a line of a layout.
pub open spec fn line_width_of(lf: LineFormat) -> nat {
    (lf.id_width + lf.title_width + lf.status_width + lf.touched_width + 3 * lf.colsep) as nat
}

/// The text of `v` padded with spaces, or cut, to `w` characters.
pub open spec fn fit(v: Seq<char>, w: nat) -> Seq<char> {
    if v.len() >= w {
        v.take(w as int)
    } else {
        v + spaces((w - v.len()) as nat)
    }
}

/// A field of width `w`: when `truncate` is asked and the value is too
/// long (in bytes) for a field wider than 3, its end becomes `...`.
pub open spec fn field_text(v: Seq<char>, w: nat, truncate: bool) -> Seq<char> {
    if byte_len(v) > w && w > 3 && truncate {
        fit(v, (w - 3) as nat) + "..."@
    } else {
        fit(v, w)
    }
}

/// The title as listed: marked when the note has a body that is not shown.
pub open spec fn shown_title(item: ItemView, body_shown: bool) -> Seq<char> {
    if item.body.len() > 0 && !body_shown {
        "(+) "@ + item.title
    } else {
        item.title
    }
}

/// A listing line of a note.
pub open spec fn row_text(item: ItemView, lf: LineFormat, body_shown: bool) -> Seq<char> {
    let sep = spaces(lf.colsep as nat);
    field_text(decimal(item.id), lf.id_width as nat, false) + sep + field_text(
        shown_title(item, body_shown),
        lf.title_width as nat,
        true,
    ) + sep + field_text(status_text(item.status), lf.status_width as nat, false) + sep
        + field_text(item.last_touched, lf.touched_width as nat, false)
}

/// The header line of a listing.
pub open spec fn header_text(lf: LineFormat) -> Seq<char> {
    let sep = spaces(lf.colsep as nat);
    field_text("id"@, lf.id_width as nat, false) + sep + field_text(
        "title"@,
        lf.title_width as nat,
        false,
    ) + sep + field_text("status"@, lf.status_width as nat, false) + sep + field_text(
        "last touched"@,
        lf.touched_width as nat,
        false,
    )
}

/// The rule under the header: one dash per column of a line.
pub open spec fn rule_text(lf: LineFormat) -> Seq<char> {
    repeated('-', line_width_of(lf))
}

/// In condensed mode the gap is 1 and, when some note has a status, the
/// status column is 1 wide whatever the statuses' lengths.
pub proof fn lemma_condensed_layout(s: Seq<ItemView>, console: nat)
    ensures
        layout(s, true, console).colsep == 1,
        any_status(s) ==> layout(s, true, console).status_width == 1,
        layout(s, true, console).touched_width == 10,
{
}

/// With an unknown terminal width (0) the title column is not shrunk,
/// however wide the line is.
pub proof fn lemma_unknown_width_keeps_title(s: Seq<ItemView>, condensed: bool)
    ensures
        fitted_title(s, condensed, 0) == title_col(s, condensed),
{
}

/// Pads with spaces or cuts `v` to `w` characters.
fn fit_text(v: &str, w: usize) -> (r: String)
    ensures
        r@ == fit(v@, w as nat),
{
    let n = v.unicode_len();
    if n >= w {
        String::from_str(v.substring_char(0, w))
    } else {
        proof {
            reveal_strlit(" ");
        }
        let pad = repeat_text(" ", w - n);
        proof {
            assert(pad@ =~= spaces((w - n) as nat));
        }
        String::from_str(v).concat(pad.as_str())
    }
}

/// Pads or cuts `value` to exactly `width` characters; with `truncate`,
/// a value longer than the width (in bytes) ends in `...` when the width
/// exceeds 3.
pub fn format_field(value: &String, width: usize, truncate: bool) -> (r: String)
    ensures
        r@ == field_text(value@, width as nat, truncate),
{
    if byte_count(value.as_str()) > width && width > 3 && truncate {
        fit_text(value.as_str(), width - 3).concat("...")
    } else {
        fit_text(value.as_str(), width)
    }
}

impl LineFormat {
    /// Column widths for listing `items` in condensed or expanded mode on a
    /// terminal `console_width` wide (0: unknown).
    pub fn new(items: &Vec<ThecaItem>, condensed: bool, console_width: usize) -> (r: LineFormat)
        ensures
            r == layout(items_view(items@), condensed, console_width as nat),
            line_width_of(r) <= usize::MAX,
    {
        let ghost s = items_view(items@);
        let mut id_w: usize = 0;
        let mut title_w: usize = 0;
        let mut status_w: usize = 0;
        let mut body_seen = false;
        let mut status_seen = false;
        let mut k: usize = 0;
        while k < items.len()
            invariant
                k <= items@.len(),
                s == items_view(items@),
                id_w == max_id_width(s.take(k as int)),
                title_w == max_title_len(s.take(k as int)),
                status_w == max_status_len(s.take(k as int)),
                id_w <= 20,
                title_w <= isize::MAX,
                status_w <= 7,
                body_seen == any_body(s.take(k as int)),
                status_seen == any_status(s.take(k as int)),
            decreases items@.len() - k,
        {
            proof {
                assert(s.take(k + 1).drop_last() =~= s.take(k as int));
                assert(s.take(k + 1).last() == s[k as int]);
                lemma_decimal_len_usize(items@[k as int].id as nat);
            }
            let item = &items[k];
            let w = decimal_width(item.id);
            if w > id_w {
                id_w = w;
            }
            let t = byte_count(item.title.as_str());
            if t > title_w {
                title_w = t;
            }
            let st = item.status.text_len();
            if st > status_w {
                status_w = st;
            }
            proof {
                let p = s.take(k as int);
                let q = s.take(k + 1);
                if any_body(q) && !any_body(p) {
                    let i = choose|i: int| 0 <= i < q.len() && q[i].body.len() > 0;
                    assert(i == k);
                }
                if any_body(p) {
                    let i = choose|i: int| 0 <= i < p.len() && p[i].body.len() > 0;
                    assert(q[i] == p[i]);
                }
                if any_status(q) && !any_status(p) {
                    let i = choose|i: int| 0 <= i < q.len() && q[i].status != Status::NoStatus;
                    assert(i == k);
                }
                if any_status(p) {
                    let i = choose|i: int| 0 <= i < p.len() && p[i].status != Status::NoStatus;
                    assert(q[i] == p[i]);
                }
                if item.body@.len() > 0 {
                    assert(q[k as int].body.len() > 0);
                }
                if item.status != Status::NoStatus {
                    assert(q[k as int].status != Status::NoStatus);
                }
            }
            if !item.body.as_str().is_empty() {
                body_seen = true;
            }
            match item.status {
                Status::NoStatus => {},
                _ => {
                    status_seen = true;
                },
            }
            k = k + 1;
        }
        proof {
            assert(s.take(k as int) =~= s);
        }
        let colsep: usize = if condensed { 1 } else { 2 };
        if id_w < 2 && !condensed {
            id_w = 2;
        }
        if body_seen {
            title_w = title_w + 4;
        }
        if title_w < 5 && !condensed {
            title_w = 5;
        }
        let status_width: usize = if !status_seen {
            0
        } else if condensed {
            1
        } else {
            status_w
        };
        let touched_width: usize = if condensed { 10 } else { 19 };
        let mut lf = LineFormat {
            colsep,
            id_width: id_w,
            title_width: title_w,
            status_width,
            touched_width,
        };
        let line_width = lf.line_width();
        if console_width > 0 && line_width > console_width && lf.title_width > line_width
            - console_width {
            lf.title_width = lf.title_width - (line_width - console_width);
        }
        lf
    }

    /// Total width of a line: the columns and the three gaps.
    pub fn line_width(&self) -> (r: usize)
        requires
            line_width_of(*self) <= usize::MAX,
        ensures
            r as nat == line_width_of(*self),
    {
        self.id_width + self.title_width + self.status_width + self.touched_width + 3
            * self.colsep
    }

    /// The header line of a listing with this layout.
    pub fn header(&self) -> (r: String)
        ensures
            r@ == header_text(*self),
    {
        proof {
            reveal_strlit(" ");
        }
        let sep = repeat_text(" ", self.colsep);
        proof {
            assert(sep@ =~= spaces(self.colsep as nat));
        }
        let id = format_field(&String::from_str("id"), self.id_width, false);
        let title = format_field(&String::from_str("title"), self.title_width, false);
        let status = format_field(&String::from_str("status"), self.status_width, false);
        let touched = format_field(
            &String::from_str("last touched"),
            self.touched_width,
            false,
        );
        id.concat(sep.as_str()).concat(title.as_str()).concat(sep.as_str()).concat(
            status.as_str(),
        ).concat(sep.as_str()).concat(touched.as_str())
    }

    /// The rule under the header.
    pub fn rule(&self) -> (r: String)
        requires
            line_width_of(*self) <= usize::MAX,
        ensures
            r@ == rule_text(*self),
    {
        proof {
            reveal_strlit("-");
        }
        repeat_text("-", self.line_width())
    }
}

proof fn lemma_decimal_len_usize(n: nat)
    requires
        n <= usize::MAX,
    ensures
        decimal(n).len() <= 20,
{
    reveal_with_fuel(crate::text::pow10, 21);
    assert(crate::text::pow10(20) == 100000000000000000000nat);
    lemma_decimal_len_pow(n, 20);
}

proof fn lemma_decimal_len_pow(n: nat, k: nat)
    requires
        k >= 1,
        n < crate::text::pow10(k),
    ensures
        decimal(n).len() <= k,
    decreases k,
{
    if n >= 10 {
        assert(k >= 2) by {
            if k == 1 {
                assert(crate::text::pow10(1) == 10 * crate::text::pow10(0));
            }
        };
        assert(crate::text::pow10(k) == 10 * crate::text::pow10((k - 1) as nat));
        lemma_decimal_len_pow(n / 10, (k - 1) as nat);
    }
}

impl ThecaItem {
    /// The listing line of this note; `body_shown` tells whether bodies are
    /// printed below the lines (then titles carry no body marker).
    pub fn row(&self, lf: &LineFormat, body_shown: bool) -> (r: String)
        ensures
            r@ == row_text(self@, *lf, body_shown),
    {
        proof {
            reveal_strlit(" ");
        }
        let sep = repeat_text(" ", lf.colsep);
        proof {
            assert(sep@ =~= spaces(lf.colsep as nat));
        }
        let id = format_field(&usize_text(self.id), lf.id_width, false);
        let title_str = if !self.body.as_str().is_empty() && !body_shown {
            String::from_str("(+) ").concat(self.title.as_str())
        } else {
            self.title.clone()
        };
        let title = format_field(&title_str, lf.title_width, true);
        let status = format_field(&String::from_str(self.status.as_str()), lf.status_width, false);
        let touched = format_field(&self.last_touched, lf.touched_width, false);
        id.concat(sep.as_str()).concat(title.as_str()).concat(sep.as_str()).concat(
            status.as_str(),
        ).concat(sep.as_str()).concat(touched.as_str())
    }
}

} // verus!

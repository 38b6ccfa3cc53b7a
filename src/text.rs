//! Text helpers shared by the other modules: decimal rendering of integers
//! and newline stripping.

use vstd::prelude::*;

verus! {

/// The character of a decimal digit.
pub open spec fn digit_char(d: nat) -> char {
    if d == 0 { '0' }
    else if d == 1 { '1' }
    else if d == 2 { '2' }
    else if d == 3 { '3' }
    else if d == 4 { '4' }
    else if d == 5 { '5' }
    else if d == 6 { '6' }
    else if d == 7 { '7' }
    else if d == 8 { '8' }
    else { '9' }
}

/// The decimal representation of `n`, without sign or leading zeros.
pub open spec fn decimal(n: nat) -> Seq<char>
    decreases n,
{
    if n < 10 {
        seq![digit_char(n)]
    } else {
        decimal(n / 10).push(digit_char(n % 10))
    }
}

/// Ten to the power `k`.
pub open spec fn pow10(k: nat) -> nat
    decreases k,
{
    if k == 0 { 1 } else { 10 * pow10((k - 1) as nat) }
}

/// `s` with every newline character removed.
pub open spec fn without_newlines(s: Seq<char>) -> Seq<char> {
    s.filter(|c: char| c != '\n')
}

/// The number of bytes of the UTF-8 encoding of `s`.
pub open spec fn byte_len(s: Seq<char>) -> nat {
    vstd::utf8::encode_utf8(s).len()
}

/// The one-character text of a decimal digit.
fn digit_text(d: usize) -> (r: &'static str)
    requires
        d < 10,
    ensures
        r@ == seq![digit_char(d as nat)],
{
    proof {
        reveal_strlit("0");
        reveal_strlit("1");
        reveal_strlit("2");
        reveal_strlit("3");
        reveal_strlit("4");
        reveal_strlit("5");
        reveal_strlit("6");
        reveal_strlit("7");
        reveal_strlit("8");
        reveal_strlit("9");
    }
    match d {
        0 => "0",
        1 => "1",
        2 => "2",
        3 => "3",
        4 => "4",
        5 => "5",
        6 => "6",
        7 => "7",
        8 => "8",
        _ => "9",
    }
}

/// The decimal text of `n`.
pub fn usize_text(n: usize) -> (r: String)
    ensures
        r@ == decimal(n as nat),
    decreases n,
{
    if n < 10 {
        String::from_str(digit_text(n))
    } else {
        let r = usize_text(n / 10).concat(digit_text(n % 10));
        assert(r@ =~= decimal(n as nat));
        r
    }
}

/// `s` without its newline characters.
pub fn strip_newlines(s: &str) -> (r: String)
    ensures
        r@ == without_newlines(s@),
{
    let n = s.unicode_len();
    let mut out = String::new();
    let mut k: usize = 0;
    while k < n
        invariant
            k <= n,
            n == s@.len(),
            out@ == without_newlines(s@.take(k as int)),
        decreases n - k,
    {
        let c = s.get_char(k);
        proof {
            reveal(Seq::filter);
            assert(s@.take(k + 1).drop_last() =~= s@.take(k as int));
            assert(s@.take(k + 1).last() == c);
        }
        if c != '\n' {
            let piece = s.substring_char(k, k + 1);
            out.append(piece);
            assert(piece@ =~= seq![c]);
        }
        k = k + 1;
    }
    assert(s@.take(n as int) =~= s@);
    out
}

/// Number of decimal digits of `n`.
pub fn decimal_width(n: usize) -> (r: usize)
    ensures
        r as nat == decimal(n as nat).len(),
{
    let mut m: usize = n;
    let mut count: usize = 1;
    proof {
        lemma_decimal_len_bound(n as nat);
    }
    while m >= 10
        invariant
            1 <= count,
            count + decimal(m as nat).len() == decimal(n as nat).len() + 1,
            decimal(n as nat).len() <= 1 + n as nat / 10,
        decreases m,
    {
        m = m / 10;
        count = count + 1;
    }
    count
}

proof fn lemma_decimal_len_bound(n: nat)
    ensures
        1 <= decimal(n).len() <= 1 + n / 10,
    decreases n,
{
    if n >= 10 {
        lemma_decimal_len_bound(n / 10);
    }
}

/// Relies on `str::len`: the length in bytes, which never exceeds
/// `isize::MAX` since no allocation does.
#[verifier::external_body]
pub(crate) fn byte_count(s: &str) -> (r: usize)
    ensures
        r as nat == byte_len(s@),
        r <= isize::MAX,
{
    s.len()
}

/// `n` spaces.
pub open spec fn spaces(n: nat) -> Seq<char> {
    Seq::new(n, |i: int| ' ')
}

/// `n` copies of a character.
pub open spec fn repeated(c: char, n: nat) -> Seq<char> {
    Seq::new(n, |i: int| c)
}

/// A string of `n` copies of `c`, where `c` is the only character of `unit`.
pub(crate) fn repeat_text(unit: &str, n: usize) -> (r: String)
    requires
        unit@.len() == 1,
    ensures
        r@ == repeated(unit@[0], n as nat),
{
    let mut s = String::new();
    let mut k: usize = 0;
    while k < n
        invariant
            k <= n,
            unit@.len() == 1,
            s@ == repeated(unit@[0], k as nat),
        decreases n - k,
    {
        s.append(unit);
        k = k + 1;
        assert(s@ =~= repeated(unit@[0], k as nat));
    }
    s
}

} // verus!

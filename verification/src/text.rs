//! Byte-level text helpers: whitespace tokenization, prefix and substring
//! tests, and decimal parsing. Driver output is consumed line by line as raw
//! bytes; every function here is specified against the line's byte sequence.

use vstd::prelude::*;

verus! {

pub const SPACE: u8 = 32;
pub const TAB: u8 = 9;
pub const CR: u8 = 13;
pub const DOT: u8 = 46;
pub const ZERO: u8 = 48;
pub const NINE: u8 = 57;

/// Whitespace as the field splitter understands it: the space byte and the
/// ASCII control range from horizontal tab through carriage return.
pub open spec fn is_ws(b: u8) -> bool {
    b == SPACE || (TAB <= b && b <= CR)
}

pub fn ws_byte(b: u8) -> (r: bool)
    ensures
        r == is_ws(b),
{
    b == SPACE || (TAB <= b && b <= CR)
}

/// An ASCII decimal digit.
pub open spec fn is_digit(b: u8) -> bool {
    ZERO <= b && b <= NINE
}

pub fn digit_byte(b: u8) -> (r: bool)
    ensures
        r == is_digit(b),
{
    ZERO <= b && b <= NINE
}

/// Numeric value of a digit byte.
pub open spec fn digit_val(b: u8) -> nat
    recommends
        is_digit(b),
{
    (b - ZERO) as nat
}

/// First position at or after `i` holding a non-whitespace byte (or the end).
pub open spec fn ws_end(s: Seq<u8>, i: int) -> int
    decreases s.len() - i
        when 0 <= i <= s.len()
{
    if i >= s.len() {
        i
    } else if is_ws(s[i]) {
        ws_end(s, i + 1)
    } else {
        i
    }
}

/// First position at or after `i` holding a whitespace byte (or the end).
pub open spec fn tok_end(s: Seq<u8>, i: int) -> int
    decreases s.len() - i
        when 0 <= i <= s.len()
{
    if i >= s.len() {
        i
    } else if is_ws(s[i]) {
        i
    } else {
        tok_end(s, i + 1)
    }
}

pub proof fn lemma_ws_end_bounds(s: Seq<u8>, i: int)
    requires
        0 <= i <= s.len(),
    ensures
        i <= ws_end(s, i) <= s.len(),
    decreases s.len() - i,
{
    if i < s.len() && is_ws(s[i]) {
        lemma_ws_end_bounds(s, i + 1);
    }
}

pub proof fn lemma_tok_end_bounds(s: Seq<u8>, i: int)
    requires
        0 <= i <= s.len(),
    ensures
        i <= tok_end(s, i) <= s.len(),
    decreases s.len() - i,
{
    if i < s.len() && !is_ws(s[i]) {
        lemma_tok_end_bounds(s, i + 1);
    }
}

/// Skip whitespace, starting at `i`.
pub fn scan_ws(s: &[u8], i: usize) -> (j: usize)
    requires
        i <= s@.len(),
    ensures
        j == ws_end(s@, i as int),
        i <= j <= s@.len(),
{
    proof {
        lemma_ws_end_bounds(s@, i as int);
    }
    let mut j = i;
    while j < s.len() && ws_byte(s[j])
        invariant
            i <= j <= s@.len(),
            ws_end(s@, i as int) == ws_end(s@, j as int),
        decreases s@.len() - j,
    {
        j = j + 1;
    }
    j
}

/// Skip one token (maximal run of non-whitespace), starting at `i`.
pub fn scan_token(s: &[u8], i: usize) -> (j: usize)
    requires
        i <= s@.len(),
    ensures
        j == tok_end(s@, i as int),
        i <= j <= s@.len(),
{
    proof {
        lemma_tok_end_bounds(s@, i as int);
    }
    let mut j = i;
    while j < s.len() && !ws_byte(s[j])
        invariant
            i <= j <= s@.len(),
            tok_end(s@, i as int) == tok_end(s@, j as int),
        decreases s@.len() - j,
    {
        j = j + 1;
    }
    j
}

/// Start of the `k`-th whitespace-separated field of `s`.
pub open spec fn field_start(s: Seq<u8>, k: nat) -> int
    decreases k,
{
    if k == 0 {
        ws_end(s, 0)
    } else {
        ws_end(s, tok_end(s, field_start(s, (k - 1) as nat)))
    }
}

/// Whether `s` has a `k`-th whitespace-separated field.
pub open spec fn has_field(s: Seq<u8>, k: nat) -> bool {
    field_start(s, k) < s.len()
}

/// The `k`-th whitespace-separated field of `s` (empty when absent).
pub open spec fn field(s: Seq<u8>, k: nat) -> Seq<u8> {
    s.subrange(field_start(s, k), tok_end(s, field_start(s, k)))
}

/// Whether the bytes of `s` from `i` (inclusive) to `j` (exclusive) equal `pat`.
pub fn range_eq(s: &[u8], i: usize, j: usize, pat: &[u8]) -> (r: bool)
    requires
        i <= j <= s@.len(),
    ensures
        r == (s@.subrange(i as int, j as int) == pat@),
{
    if j - i != pat.len() {
        proof {
            assert(s@.subrange(i as int, j as int).len() == j - i);
        }
        return false;
    }
    let mut k: usize = 0;
    while k < pat.len()
        invariant
            i <= j <= s@.len(),
            j - i == pat@.len(),
            k <= pat@.len(),
            forall|m: int| 0 <= m < k ==> s@[i + m] == pat@[m],
        decreases pat@.len() - k,
    {
        if s[i + k] != pat[k] {
            proof {
                assert(s@.subrange(i as int, j as int)[k as int] != pat@[k as int]);
            }
            return false;
        }
        k = k + 1;
    }
    proof {
        assert(s@.subrange(i as int, j as int) =~= pat@);
    }
    true
}

/// Whether `l` begins with `p`.
pub open spec fn starts_with(l: Seq<u8>, p: Seq<u8>) -> bool {
    p.len() <= l.len() && l.subrange(0, p.len() as int) == p
}

pub fn begins_with(s: &[u8], pat: &[u8]) -> (r: bool)
    ensures
        r == starts_with(s@, pat@),
{
    if pat.len() > s.len() {
        return false;
    }
    range_eq(s, 0, pat.len(), pat)
}

/// Whether `p` occurs in `l` starting at position `i`.
pub open spec fn occurs_at(l: Seq<u8>, p: Seq<u8>, i: int) -> bool {
    0 <= i && i + p.len() <= l.len() && l.subrange(i, i + p.len()) == p
}

/// Whether `p` occurs anywhere in `l`.
pub open spec fn contains_seq(l: Seq<u8>, p: Seq<u8>) -> bool {
    exists|i: int| occurs_at(l, p, i)
}

/// Substring search for a non-empty pattern.
pub fn contains_bytes(s: &[u8], pat: &[u8]) -> (r: bool)
    requires
        pat@.len() > 0,
    ensures
        r == contains_seq(s@, pat@),
{
    if pat.len() > s.len() {
        proof {
            assert(forall|i: int| !occurs_at(s@, pat@, i));
        }
        return false;
    }
    let mut i: usize = 0;
    while i <= s.len() - pat.len()
        invariant
            0 < pat@.len() <= s@.len(),
            i <= s@.len() - pat@.len() + 1,
            forall|m: int| 0 <= m < i ==> !occurs_at(s@, pat@, m),
        decreases s@.len() - i,
    {
        if range_eq(s, i, i + pat.len(), pat) {
            proof {
                assert(occurs_at(s@, pat@, i as int));
            }
            return true;
        }
        i = i + 1;
    }
    proof {
        assert(forall|m: int| occurs_at(s@, pat@, m) ==> 0 <= m <= s@.len() - pat@.len());
    }
    false
}

/// Value of a digit string, most significant digit first.
pub open spec fn dec_val(s: Seq<u8>) -> nat
    decreases s.len(),
{
    if s.len() == 0 {
        0
    } else {
        dec_val(s.drop_last()) * 10 + digit_val(s.last())
    }
}

/// Every byte of `s` is a decimal digit.
pub open spec fn all_digits(s: Seq<u8>) -> bool {
    forall|i: int| 0 <= i < s.len() ==> is_digit(s[i])
}

/// `s` is a non-empty digit string whose value fits in a u64.
pub open spec fn parses_as_u64(s: Seq<u8>) -> bool {
    s.len() > 0 && all_digits(s) && dec_val(s) <= u64::MAX
}

pub proof fn lemma_dec_val_step(s: Seq<u8>, i: int)
    requires
        0 <= i < s.len(),
    ensures
        dec_val(s.subrange(0, i + 1)) == dec_val(s.subrange(0, i)) * 10 + digit_val(s[i]),
{
    assert(s.subrange(0, i + 1).drop_last() =~= s.subrange(0, i));
    assert(s.subrange(0, i + 1).last() == s[i]);
}

pub proof fn lemma_dec_val_prefix_le(s: Seq<u8>, i: int)
    requires
        0 <= i <= s.len(),
    ensures
        dec_val(s.subrange(0, i)) <= dec_val(s),
    decreases s.len() - i,
{
    if i == s.len() {
        assert(s.subrange(0, i) =~= s);
    } else {
        lemma_dec_val_step(s, i);
        lemma_dec_val_prefix_le(s, i + 1);
    }
}

/// Parse the bytes from `i` (inclusive) to `j` (exclusive) as an unsigned
/// decimal integer.
pub fn parse_u64_range(s: &[u8], i: usize, j: usize) -> (r: Option<u64>)
    requires
        i <= j <= s@.len(),
    ensures
        match r {
            Some(v) => parses_as_u64(s@.subrange(i as int, j as int)) && v == dec_val(
                s@.subrange(i as int, j as int),
            ),
            None => !parses_as_u64(s@.subrange(i as int, j as int)),
        },
{
    let ghost t = s@.subrange(i as int, j as int);
    if i == j {
        return None;
    }
    let mut acc: u64 = 0;
    let mut k: usize = i;
    while k < j
        invariant
            i <= k <= j <= s@.len(),
            t == s@.subrange(i as int, j as int),
            all_digits(t.subrange(0, k - i)),
            acc == dec_val(t.subrange(0, k - i)),
        decreases j - k,
    {
        let b = s[k];
        if !digit_byte(b) {
            proof {
                assert(t[k - i] == s@[k as int]);
            }
            return None;
        }
        let d = b - ZERO;
        proof {
            lemma_dec_val_step(t, k - i);
        }
        if acc > (u64::MAX - (d as u64)) / 10 {
            proof {
                assert(dec_val(t.subrange(0, k - i + 1)) > u64::MAX);
                lemma_dec_val_prefix_le(t, k - i + 1);
            }
            return None;
        }
        acc = acc * 10 + (d as u64);
        k = k + 1;
        proof {
            assert(t.subrange(0, k - i).drop_last() =~= t.subrange(0, k - 1 - i));
        }
    }
    proof {
        assert(t.subrange(0, (j - i) as int) =~= t);
    }
    Some(acc)
}

} // verus!

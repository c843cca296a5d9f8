//! Character-level helpers shared by the parsers of this crate.

use vstd::prelude::*;

verus! {

/// Relies on `String::push`: the character is appended at the end.
#[verifier::external_body]
pub(crate) fn push_char(s: &mut String, c: char)
    ensures
        final(s)@ == old(s)@.push(c),
{
    s.push(c)
}

/// The characters of `s`, in order.
pub fn chars_of(s: &str) -> (r: Vec<char>)
    ensures
        r@ == s@,
{
    let mut r: Vec<char> = Vec::new();
    for c in it: s.chars()
        invariant
            r@ == it.seq().take(it.index() as int),
    {
        r.push(c);
    }
    r
}

/// The first index at or after `from` where `s` holds `c`, or `s.len()`.
pub open spec fn first_from(s: Seq<char>, from: int, c: char) -> int
    decreases s.len() - from,
{
    if from >= s.len() {
        s.len() as int
    } else if s[from] == c {
        from
    } else {
        first_from(s, from + 1, c)
    }
}

pub proof fn lemma_first_from_bounds(s: Seq<char>, from: int, c: char)
    requires
        0 <= from,
    ensures
        from <= first_from(s, from, c) <= s.len() || (from > s.len() && first_from(s, from, c)
            == s.len()),
        first_from(s, from, c) < s.len() ==> s[first_from(s, from, c)] == c,
        forall|j: int| from <= j < first_from(s, from, c) ==> s[j] != c,
    decreases s.len() - from,
{
    if from < s.len() && s[from] != c {
        lemma_first_from_bounds(s, from + 1, c);
    }
}

/// Finds `c` at or after `from`.
pub fn find_char(cs: &Vec<char>, from: usize, c: char) -> (r: usize)
    ensures
        r == first_from(cs@, from as int, c),
        from <= cs.len() ==> from <= r <= cs.len(),
        from > cs.len() ==> r == cs.len(),
{
    let mut i = from;
    if i > cs.len() {
        return cs.len();
    }
    while i < cs.len() && cs[i] != c
        invariant
            from <= i <= cs.len(),
            first_from(cs@, i as int, c) == first_from(cs@, from as int, c),
        decreases cs.len() - i,
    {
        i = i + 1;
    }
    i
}

/// Whether `s` begins with `p`.
pub open spec fn starts_with(s: Seq<char>, p: Seq<char>) -> bool {
    p.len() <= s.len() && s.take(p.len() as int) == p
}

/// Whether the characters of `cs` from `pos` to `end` begin with `p`.
pub fn has_prefix(cs: &Vec<char>, pos: usize, end: usize, p: &Vec<char>) -> (r: bool)
    requires
        pos <= end <= cs.len(),
    ensures
        r == starts_with(cs@.subrange(pos as int, end as int), p@),
{
    let ghost seg = cs@.subrange(pos as int, end as int);
    if p.len() > end - pos {
        return false;
    }
    let mut i: usize = 0;
    while i < p.len()
        invariant
            pos <= end <= cs.len(),
            p.len() <= end - pos,
            i <= p.len(),
            seg == cs@.subrange(pos as int, end as int),
            forall|j: int| 0 <= j < i ==> seg[j] == p@[j],
        decreases p.len() - i,
    {
        if cs[pos + i] != p[i] {
            assert(seg.take(p.len() as int)[i as int] != p@[i as int]);
            return false;
        }
        i = i + 1;
    }
    assert(seg.take(p.len() as int) =~= p@);
    true
}

/// The characters of `cs` from `lo` to `hi`, as a string.
pub fn string_of(cs: &Vec<char>, lo: usize, hi: usize) -> (r: String)
    requires
        lo <= hi <= cs.len(),
    ensures
        r@ == cs@.subrange(lo as int, hi as int),
{
    let mut r = String::new();
    let mut i = lo;
    while i < hi
        invariant
            lo <= i <= hi <= cs.len(),
            r@ == cs@.subrange(lo as int, i as int),
        decreases hi - i,
    {
        push_char(&mut r, cs[i]);
        assert(cs@.subrange(lo as int, i + 1) =~= cs@.subrange(lo as int, i as int).push(cs@[i as int]));
        i = i + 1;
    }
    r
}

pub open spec fn is_dec_digit(c: char) -> bool {
    '0' <= c && c <= '9'
}

pub open spec fn digit_value(c: char) -> nat {
    ((c as u32) - ('0' as u32)) as nat
}

/// The number written by a string of decimal digits.
pub open spec fn dec_value(s: Seq<char>) -> nat
    decreases s.len(),
{
    if s.len() == 0 {
        0
    } else {
        dec_value(s.drop_last()) * 10 + digit_value(s.last())
    }
}

/// What a decimal field denotes: a number when it is non-empty, all digits,
/// and fits in a `u64`.
pub open spec fn parse_u64_spec(s: Seq<char>) -> Option<u64> {
    if s.len() > 0 && (forall|i: int| 0 <= i < s.len() ==> is_dec_digit(#[trigger] s[i]))
        && dec_value(s) <= u64::MAX {
        Some(dec_value(s) as u64)
    } else {
        None
    }
}

/// Reads the decimal number in `cs[lo..hi]`.
pub fn parse_u64(cs: &Vec<char>, lo: usize, hi: usize) -> (r: Option<u64>)
    requires
        lo <= hi <= cs.len(),
    ensures
        r == parse_u64_spec(cs@.subrange(lo as int, hi as int)),
{
    let ghost s = cs@.subrange(lo as int, hi as int);
    if lo == hi {
        return None;
    }
    let mut acc: u64 = 0;
    let mut over = false;
    let mut i = lo;
    while i < hi
        invariant
            lo <= i <= hi <= cs.len(),
            s == cs@.subrange(lo as int, hi as int),
            forall|j: int| 0 <= j < i - lo ==> is_dec_digit(#[trigger] s[j]),
            !over ==> acc == dec_value(s.take(i - lo)),
            over ==> dec_value(s.take(i - lo)) > u64::MAX,
        decreases hi - i,
    {
        let c = cs[i];
        if !('0' <= c && c <= '9') {
            assert(s[i - lo] == c);
            return None;
        }
        let d = ((c as u32) - ('0' as u32)) as u64;
        let ghost prev = s.take(i - lo);
        let ghost next = s.take(i - lo + 1);
        assert(next.drop_last() =~= prev);
        assert(next.last() == c);
        assert(dec_value(next) == dec_value(prev) * 10 + d);
        if !over {
            if acc > (u64::MAX - d) / 10 {
                over = true;
                assert(dec_value(next) > u64::MAX) by (nonlinear_arith)
                    requires
                        acc > (u64::MAX - d) / 10,
                        dec_value(next) == acc * 10 + d,
                        d <= 9,
                ;
            } else {
                assert(acc * 10 + d <= u64::MAX) by (nonlinear_arith)
                    requires
                        acc <= (u64::MAX - d) / 10,
                        d <= 9,
                ;
                acc = acc * 10 + d;
            }
        } else {
            assert(dec_value(next) > u64::MAX) by (nonlinear_arith)
                requires
                    dec_value(prev) > u64::MAX,
                    dec_value(next) == dec_value(prev) * 10 + d,
            ;
        }
        i = i + 1;
    }
    assert(s.take(hi - lo) =~= s);
    if over {
        None
    } else {
        Some(acc)
    }
}

/// The decimal digits of a number, most significant first.
pub open spec fn dec_string(n: nat) -> Seq<char>
    decreases n,
{
    if n < 10 {
        seq![(('0' as u32) + n) as char]
    } else {
        dec_string(n / 10).push((('0' as u32) + (n % 10)) as char)
    }
}

/// Appends the decimal digits of `n` to `s`.
pub fn push_decimal(s: &mut String, n: u64)
    ensures
        final(s)@ == old(s)@ + dec_string(n as nat),
    decreases n,
{
    if n >= 10 {
        push_decimal(s, n / 10);
    }
    let d = (n % 10) as u32;
    let c = (('0' as u32) + d) as u8 as char;
    push_char(s, c);
    proof {
        if n >= 10 {
            assert(old(s)@ + dec_string(n as nat) =~= old(s)@ + dec_string((n / 10) as nat) + seq![c]);
        } else {
            assert(old(s)@ + dec_string(n as nat) =~= old(s)@.push(c));
        }
    }
}

pub proof fn lemma_dec_string_nonempty(n: nat)
    ensures
        dec_string(n).len() > 0,
    decreases n,
{
    if n >= 10 {
        lemma_dec_string_nonempty(n / 10);
    }
}

} // verus!

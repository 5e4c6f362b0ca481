//! Values read from the process configuration.

use vstd::prelude::*;
use crate::text::chars_of;

verus! {

/// Research attempts allowed when the setting is absent or unreadable.
pub const DEFAULT_MAX_ATTEMPTS: u32 = 3;

pub open spec fn is_digit(c: char) -> bool {
    '0' <= c && c <= '9'
}

/// The number that the decimal digits `d` spell.
pub open spec fn digits_value(d: Seq<char>) -> int
    decreases d.len(),
{
    if d.len() == 0 {
        0
    } else {
        digits_value(d.drop_last()) * 10 + (d.last() as int - '0' as int)
    }
}

pub open spec fn all_digits(d: Seq<char>) -> bool {
    forall|i: int| 0 <= i < d.len() ==> is_digit(d[i])
}

/// `s` without a leading `+`.
pub open spec fn unsigned_part(s: Seq<char>) -> Seq<char> {
    if s.len() > 0 && s[0] == '+' {
        s.drop_first()
    } else {
        s
    }
}

/// What `u32::from_str` accepts: an optional `+`, then one or more decimal
/// digits whose value fits in 32 bits.
pub open spec fn u32_of(s: Seq<char>) -> Option<u32> {
    let d = unsigned_part(s);
    if d.len() > 0 && all_digits(d) && digits_value(d) <= u32::MAX {
        Some(digits_value(d) as u32)
    } else {
        None
    }
}

proof fn lemma_digits_grow(d: Seq<char>, i: int)
    requires
        0 <= i <= d.len(),
        forall|j: int| 0 <= j < d.len() ==> is_digit(d[j]),
    ensures
        0 <= digits_value(d.subrange(0, i)) <= digits_value(d),
    decreases d.len(),
{
    if d.len() > 0 {
        let e = d.drop_last();
        if i == d.len() {
            assert(d.subrange(0, i) =~= d);
            lemma_digits_grow(e, e.len() as int);
            assert(e.subrange(0, e.len() as int) =~= e);
        } else {
            lemma_digits_grow(e, i);
            assert(e.subrange(0, i) =~= d.subrange(0, i));
            lemma_digits_grow(e, e.len() as int);
            assert(e.subrange(0, e.len() as int) =~= e);
        }
    }
}

/// Reads a decimal number as `u32::from_str` does.
pub fn parse_u32(s: &str) -> (r: Option<u32>)
    ensures
        r == u32_of(s@),
{
    let cs = chars_of(s);
    let start: usize = if cs.len() > 0 && cs[0] == '+' {
        1
    } else {
        0
    };
    let ghost d = unsigned_part(cs@);
    assert(d =~= cs@.subrange(start as int, cs@.len() as int));
    if start >= cs.len() {
        return None;
    }
    let mut value: u64 = 0;
    let mut i: usize = start;
    assert(d.subrange(0, 0) =~= Seq::<char>::empty());
    while i < cs.len()
        invariant
            cs@ == s@,
            d == unsigned_part(cs@),
            start <= i <= cs.len(),
            d == cs@.subrange(start as int, cs@.len() as int),
            forall|j: int| 0 <= j < i - start ==> is_digit(d[j]),
            value == digits_value(d.subrange(0, i - start)),
            value <= u32::MAX,
        decreases cs.len() - i,
    {
        let c = cs[i];
        if !('0' <= c && c <= '9') {
            assert(!is_digit(d[i - start]));
            return None;
        }
        let ghost k = i - start;
        assert(d.subrange(0, k + 1).drop_last() =~= d.subrange(0, k));
        assert(d.subrange(0, k + 1).last() == c);
        value = value * 10 + (c as u64 - '0' as u64);
        assert(value == digits_value(d.subrange(0, k + 1)));
        i = i + 1;
        if value > u32::MAX as u64 {
            proof {
                if all_digits(d) {
                    lemma_digits_grow(d, k + 1);
                }
            }
            return None;
        }
    }
    assert(d.subrange(0, d.len() as int) =~= d);
    Some(value as u32)
}

/// The research attempts allowed by the setting: its number where it reads
/// as one, else three.
pub fn max_attempts_setting(setting: Option<&str>) -> (r: u32)
    ensures
        r == match setting {
            Some(s) => match u32_of(s@) {
                Some(n) => n,
                None => DEFAULT_MAX_ATTEMPTS,
            },
            None => DEFAULT_MAX_ATTEMPTS,
        },
{
    match setting {
        Some(s) => match parse_u32(s) {
            Some(n) => n,
            None => DEFAULT_MAX_ATTEMPTS,
        },
        None => DEFAULT_MAX_ATTEMPTS,
    }
}

} // verus!

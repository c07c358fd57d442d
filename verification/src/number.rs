//! Decimal numbers in text.

use crate::text::chars;
use vstd::prelude::*;

verus! {

/// The characters `0` to `9`.
pub open spec fn is_digit(c: char) -> bool {
    '0' <= c <= '9'
}

/// One or more digits and nothing else.
pub open spec fn all_digits(s: Seq<char>) -> bool {
    &&& s.len() > 0
    &&& forall|i: int| 0 <= i < s.len() ==> is_digit(#[trigger] s[i])
}

/// The number that the digits of `s` write in base ten.
pub open spec fn decimal(s: Seq<char>) -> int
    decreases s.len(),
{
    if s.len() == 0 {
        0
    } else {
        decimal(s.drop_last()) * 10 + (s.last() as int - '0' as int)
    }
}

/// The number up to `max` that `s` writes: digits, after an optional `+`.
pub open spec fn unsigned(s: Seq<char>, max: int) -> Option<int> {
    let digits = if s.len() > 0 && s[0] == '+' {
        s.skip(1)
    } else {
        s
    };
    if all_digits(digits) && decimal(digits) <= max {
        Some(decimal(digits))
    } else {
        None
    }
}

/// The 64-bit signed number that `s` writes: digits, after an optional sign.
pub open spec fn signed(s: Seq<char>) -> Option<int> {
    if s.len() > 0 && s[0] == '-' {
        let digits = s.skip(1);
        if all_digits(digits) && -decimal(digits) >= i64::MIN {
            Some(-decimal(digits))
        } else {
            None
        }
    } else {
        unsigned(s, i64::MAX as int)
    }
}

/// Digits write a natural number, and more digits a number at least as large.
pub proof fn lemma_decimal_grows(s: Seq<char>, n: int)
    requires
        forall|i: int| 0 <= i < s.len() ==> is_digit(#[trigger] s[i]),
        0 <= n <= s.len(),
    ensures
        0 <= decimal(s.take(n)) <= decimal(s),
    decreases s.len(),
{
    if s.len() == 0 {
        assert(s.take(n) =~= s);
    } else if n == s.len() {
        assert(s.take(n) =~= s);
        let m = s.drop_last();
        assert forall|i: int| 0 <= i < m.len() implies is_digit(#[trigger] m[i]) by {
            assert(m[i] == s[i]);
        }
        lemma_decimal_grows(m, n - 1);
        assert(m.take(n - 1) =~= m);
        assert(is_digit(s[s.len() - 1]));
    } else {
        let m = s.drop_last();
        assert forall|i: int| 0 <= i < m.len() implies is_digit(#[trigger] m[i]) by {
            assert(m[i] == s[i]);
        }
        lemma_decimal_grows(m, n);
        assert(m.take(n) =~= s.take(n));
        assert(is_digit(s[s.len() - 1]));
    }
}

/// The number that the characters of `v` from `from` on write.
fn digits_from(v: &Vec<char>, from: usize) -> (n: Option<u64>)
    requires
        from <= v.len(),
    ensures
        match n {
            Some(x) => all_digits(v@.skip(from as int)) && decimal(v@.skip(from as int)) == x,
            None => !(all_digits(v@.skip(from as int)) && decimal(v@.skip(from as int)) <= u64::MAX),
        },
{
    let ghost s = v@.skip(from as int);
    if from == v.len() {
        return None;
    }
    let mut n: u64 = 0;
    let mut i: usize = from;
    while i < v.len()
        invariant
            from <= i <= v.len(),
            s == v@.skip(from as int),
            forall|j: int| 0 <= j < i - from ==> is_digit(#[trigger] s[j]),
            n == decimal(s.take(i - from)),
        decreases v.len() - i,
    {
        let c = v[i];
        assert(s[i - from] == c);
        let ghost k = i - from;
        if !('0' <= c && c <= '9') {
            assert(!is_digit(s[k]));
            return None;
        }
        let d: u64 = c as u64 - '0' as u64;
        proof {
            let p = s.take(k + 1);
            assert(p.drop_last() =~= s.take(k));
            assert(decimal(p) == n * 10 + d);
        }
        if n > (u64::MAX - d) / 10 {
            proof {
                assert(decimal(s.take(k + 1)) > u64::MAX);
                if all_digits(s) {
                    lemma_decimal_grows(s, k + 1);
                }
            }
            return None;
        }
        n = n * 10 + d;
        i += 1;
    }
    assert(s.take(i - from) =~= s);
    Some(n)
}

/// The 64-bit unsigned number that `s` writes.
pub fn parse_u64(s: &str) -> (n: Option<u64>)
    ensures
        match n {
            Some(x) => unsigned(s@, u64::MAX as int) == Some(x as int),
            None => unsigned(s@, u64::MAX as int) is None,
        },
{
    let v = chars(s);
    if v.len() > 0 && v[0] == '+' {
        digits_from(&v, 1)
    } else {
        assert(s@.skip(0) =~= s@);
        digits_from(&v, 0)
    }
}

/// The 32-bit unsigned number that `s` writes.
pub fn parse_u32(s: &str) -> (n: Option<u32>)
    ensures
        match n {
            Some(x) => unsigned(s@, u32::MAX as int) == Some(x as int),
            None => unsigned(s@, u32::MAX as int) is None,
        },
{
    match parse_u64(s) {
        Some(n) => if n <= u32::MAX as u64 {
            Some(n as u32)
        } else {
            None
        },
        None => None,
    }
}

/// The number of machine size that `s` writes.
pub fn parse_usize(s: &str) -> (n: Option<usize>)
    ensures
        match n {
            Some(x) => unsigned(s@, usize::MAX as int) == Some(x as int),
            None => unsigned(s@, usize::MAX as int) is None,
        },
{
    match parse_u64(s) {
        Some(n) => if n <= usize::MAX as u64 {
            Some(n as usize)
        } else {
            None
        },
        None => None,
    }
}

/// The 64-bit signed number that `s` writes.
pub fn parse_i64(s: &str) -> (n: Option<i64>)
    ensures
        match n {
            Some(x) => signed(s@) == Some(x as int),
            None => signed(s@) is None,
        },
{
    let v = chars(s);
    if v.len() > 0 && v[0] == '-' {
        match digits_from(&v, 1) {
            Some(m) => if m < 0x8000_0000_0000_0000 {
                Some(-(m as i64))
            } else if m == 0x8000_0000_0000_0000 {
                Some(i64::MIN)
            } else {
                None
            },
            None => None,
        }
    } else {
        match parse_u64(s) {
            Some(m) => if m <= i64::MAX as u64 {
                Some(m as i64)
            } else {
                None
            },
            None => None,
        }
    }
}

} // verus!

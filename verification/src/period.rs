//! Periods of time as a configuration writes them: a decimal number followed
//! by one of the units `ms`, `s`, `m` and `h`, read as milliseconds.
use vstd::prelude::*;
use crate::text::chars_of;

verus! {

/// A decimal digit.
pub open spec fn is_digit(c: char) -> bool {
    '0' <= c && c <= '9'
}

/// Every character is a decimal digit.
pub open spec fn all_digits(s: Seq<char>) -> bool {
    forall|i: int| 0 <= i < s.len() ==> is_digit(#[trigger] s[i])
}

/// The number that a text of decimal digits writes.
pub open spec fn digits_value(s: Seq<char>) -> nat
    decreases s.len(),
{
    if s.len() == 0 {
        0
    } else {
        digits_value(s.drop_last()) * 10 + ((s.last() as int) - ('0' as int)) as nat
    }
}

/// The unit that a text ends in: how many characters it takes and how many
/// milliseconds it stands for.
pub open spec fn unit_of(s: Seq<char>) -> Option<(nat, nat)> {
    let n = s.len() as int;
    if n >= 2 && s[n - 2] == 'm' && s[n - 1] == 's' {
        Some((2nat, 1nat))
    } else if n >= 1 && s[n - 1] == 's' {
        Some((1nat, 1_000nat))
    } else if n >= 1 && s[n - 1] == 'm' {
        Some((1nat, 60_000nat))
    } else if n >= 1 && s[n - 1] == 'h' {
        Some((1nat, 3_600_000nat))
    } else {
        None
    }
}

/// The milliseconds that a period text stands for: digits, then a unit, and
/// a value that fits 64 bits. Any other text stands for nothing.
pub open spec fn period_millis(s: Seq<char>) -> Option<u64> {
    match unit_of(s) {
        None => None,
        Some((n, factor)) => {
            let digits = s.subrange(0, s.len() - n);
            if digits.len() > 0 && all_digits(digits) && digits_value(digits) * factor
                <= u64::MAX {
                Some((digits_value(digits) * factor) as u64)
            } else {
                None
            }
        },
    }
}

/// A number is at least the number that any leading part of it writes.
pub proof fn digits_value_grows(s: Seq<char>, i: int)
    requires
        0 <= i <= s.len(),
        all_digits(s),
    ensures
        digits_value(s.subrange(0, i)) <= digits_value(s),
    decreases s.len() - i,
{
    if i == s.len() {
        assert(s.subrange(0, i) =~= s);
    } else {
        digits_value_grows(s, i + 1);
        let t = s.subrange(0, i + 1);
        assert(t.drop_last() =~= s.subrange(0, i));
        assert(is_digit(s[i]));
        assert(t.last() == s[i]);
    }
}

/// Reads a period such as `500ms`, `2s`, `5m` or `1h` as milliseconds.
pub fn parse_period(s: &str) -> (r: Option<u64>)
    ensures
        r == period_millis(s@),
{
    let v = chars_of(s);
    let n = v.len();
    if n == 0 {
        return None;
    }
    let last = v[n - 1];
    let unit_len: usize;
    let factor: u64;
    if n >= 2 && v[n - 2] == 'm' && last == 's' {
        unit_len = 2;
        factor = 1;
    } else if last == 's' {
        unit_len = 1;
        factor = 1_000;
    } else if last == 'm' {
        unit_len = 1;
        factor = 60_000;
    } else if last == 'h' {
        unit_len = 1;
        factor = 3_600_000;
    } else {
        return None;
    }
    let count: usize = n - unit_len;
    if count == 0 {
        assert(v@.subrange(0, 0).len() == 0);
        return None;
    }
    let ghost digits = v@.subrange(0, count as int);
    let mut acc: u64 = 0;
    let mut i: usize = 0;
    while i < count
        invariant
            i <= count <= v.len(),
            v@ == s@,
            count == v.len() - unit_len,
            unit_of(v@) == Some((unit_len as nat, factor as nat)),
            factor >= 1,
            digits == v@.subrange(0, count as int),
            all_digits(digits.subrange(0, i as int)),
            acc == digits_value(digits.subrange(0, i as int)),
        decreases count - i,
    {
        let c = v[i];
        if !(c >= '0' && c <= '9') {
            assert(!is_digit(digits[i as int]));
            return None;
        }
        let d: u64 = (c as u32 - '0' as u32) as u64;
        let ghost next = digits.subrange(0, i + 1);
        proof {
            assert(next.drop_last() =~= digits.subrange(0, i as int));
            assert(next.last() == c);
            assert(digits_value(next) == acc * 10 + d);
            assert(all_digits(next)) by {
                assert forall|j: int| 0 <= j < next.len() implies is_digit(#[trigger] next[j]) by {
                    if j < i {
                        assert(next[j] == digits.subrange(0, i as int)[j]);
                    }
                }
            }
            if all_digits(digits) {
                digits_value_grows(digits, i + 1);
                assert(digits_value(digits) * factor >= digits_value(next)) by (nonlinear_arith)
                    requires
                        digits_value(digits) >= digits_value(next),
                        factor >= 1,
                ;
            }
        }
        let scaled = match acc.checked_mul(10) {
            Some(x) => x,
            None => {
                return None;
            },
        };
        acc = match scaled.checked_add(d) {
            Some(x) => x,
            None => {
                return None;
            },
        };
        i += 1;
    }
    assert(digits.subrange(0, count as int) =~= digits);
    match acc.checked_mul(factor) {
        Some(x) => Some(x),
        None => None,
    }
}

} // verus!

//! Reading numbers and lines out of text.

use crate::chars::to_chars;
use vstd::prelude::*;
use vstd::string::*;

verus! {

/// Whether `c` is one of the ten decimal digits.
pub open spec fn is_digit(c: char) -> bool {
    0x30 <= c as u32 <= 0x39
}

/// The number that the digit `c` stands for.
pub open spec fn digit_value(c: char) -> int {
    c as u32 as int - 0x30
}

/// Whether the text is made of decimal digits only.
pub open spec fn all_digits(s: Seq<char>) -> bool {
    forall|i: int| 0 <= i < s.len() ==> is_digit(#[trigger] s[i])
}

/// The number that a text of decimal digits stands for.
pub open spec fn digits_value(s: Seq<char>) -> int
    decreases s.len(),
{
    if s.len() == 0 {
        0
    } else {
        digits_value(s.drop_last()) * 10 + digit_value(s.last())
    }
}

/// The integer that the text stands for, where it is one between `min`
/// and `max`: an optional sign (a minus only where `min` is negative),
/// then at least one digit and nothing else.
pub open spec fn parsed_int(s: Seq<char>, min: int, max: int) -> Option<int> {
    let negative = s.len() > 0 && s[0] == '-' && min < 0;
    let signed = s.len() > 0 && (s[0] == '+' || negative);
    let body = if signed {
        s.drop_first()
    } else {
        s
    };
    let value = if negative {
        -digits_value(body)
    } else {
        digits_value(body)
    };
    if body.len() > 0 && all_digits(body) && min <= value <= max {
        Some(value)
    } else {
        None
    }
}

/// The value of digits never falls when more digits follow.
pub proof fn lemma_digits_value_grows(s: Seq<char>, i: int)
    requires
        all_digits(s),
        0 <= i <= s.len(),
    ensures
        0 <= digits_value(s.take(i)) <= digits_value(s),
    decreases s.len() - i,
{
    lemma_digits_value_nonnegative(s.take(i));
    if i < s.len() {
        lemma_digits_value_grows(s, i + 1);
        assert(s.take(i + 1).drop_last() =~= s.take(i));
        assert(is_digit(s.take(i + 1).last()));
    } else {
        assert(s.take(i) =~= s);
    }
}

proof fn lemma_digits_value_nonnegative(s: Seq<char>)
    requires
        all_digits(s),
    ensures
        0 <= digits_value(s),
    decreases s.len(),
{
    if s.len() > 0 {
        assert(is_digit(s.last()));
        lemma_digits_value_nonnegative(s.drop_last());
    }
}

/// Reads the characters `v[from..]` as an integer between `min` and `max`.
fn parse_bounded(v: &Vec<char>, min: i128, max: i128) -> (r: Option<i128>)
    requires
        -0x1_0000_0000_0000_0000 <= min <= 0 <= max <= 0x1_0000_0000_0000_0000,
    ensures
        match r {
            Some(n) => parsed_int(v@, min as int, max as int) == Some(n as int),
            None => parsed_int(v@, min as int, max as int) is None,
        },
{
    let n = v.len();
    let negative = n > 0 && v[0] == '-' && min < 0;
    let signed = n > 0 && (v[0] == '+' || negative);
    let start: usize = if signed {
        1
    } else {
        0
    };
    let ghost body = if signed {
        v@.drop_first()
    } else {
        v@
    };
    assert(body =~= v@.skip(start as int));
    if start == n {
        return None;
    }
    let limit: i128 = if negative {
        -min
    } else {
        max
    };
    let mut acc: i128 = 0;
    let mut i: usize = start;
    while i < n
        invariant
            start <= i <= n,
            start < n,
            n == v.len(),
            body == v@.skip(start as int),
            negative == (v@.len() > 0 && v@[0] == '-' && min < 0),
            signed == (v@.len() > 0 && (v@[0] == '+' || negative)),
            body == (if signed {
                v@.drop_first()
            } else {
                v@
            }),
            limit == (if negative {
                -min
            } else {
                max as int
            }),
            min <= 0 <= max,
            0 <= limit <= 0x1_0000_0000_0000_0000,
            all_digits(body.take(i - start)),
            acc == digits_value(body.take(i - start)),
            0 <= acc <= limit,
        decreases n - i,
    {
        let c = v[i];
        let code: u32 = c as u32;
        proof {
            assert(body.take(i + 1 - start).drop_last() =~= body.take(i - start));
            assert(body.take(i + 1 - start).last() == c);
        }
        if code < 0x30 || code > 0x39 {
            assert(!is_digit(body[i - start]));
            return None;
        }
        let d: i128 = (code - 0x30) as i128;
        let next = acc * 10 + d;
        assert(all_digits(body.take(i + 1 - start))) by {
            assert forall|k: int| 0 <= k < i + 1 - start implies is_digit(
                #[trigger] body.take(i + 1 - start)[k],
            ) by {
                if k < i - start {
                    assert(body.take(i - start)[k] == body.take(i + 1 - start)[k]);
                }
            }
        }
        if next > limit {
            proof {
                if all_digits(body) {
                    lemma_digits_value_grows(body, i + 1 - start);
                }
            }
            return None;
        }
        acc = next;
        i += 1;
    }
    assert(body.take(n - start) =~= body);
    if negative {
        Some(-acc)
    } else {
        Some(acc)
    }
}

/// Reads a text as a signed 64-bit integer.
pub fn parse_i64(s: &str) -> (r: Option<i64>)
    ensures
        match r {
            Some(n) => parsed_int(s@, i64::MIN as int, i64::MAX as int) == Some(n as int),
            None => parsed_int(s@, i64::MIN as int, i64::MAX as int) is None,
        },
{
    let v = to_chars(s);
    match parse_bounded(&v, i64::MIN as i128, i64::MAX as i128) {
        Some(n) => Some(n as i64),
        None => None,
    }
}

/// Reads a text as an unsigned integer of the machine's word size.
pub fn parse_usize(s: &str) -> (r: Option<usize>)
    ensures
        match r {
            Some(n) => parsed_int(s@, 0, usize::MAX as int) == Some(n as int),
            None => parsed_int(s@, 0, usize::MAX as int) is None,
        },
{
    let v = to_chars(s);
    match parse_bounded(&v, 0, usize::MAX as i128) {
        Some(n) => Some(n as usize),
        None => None,
    }
}

/// Reads a text as an unsigned 64-bit integer.
pub fn parse_bounded_u64(s: &str) -> (r: Option<u64>)
    ensures
        match r {
            Some(n) => parsed_int(s@, 0, u64::MAX as int) == Some(n as int),
            None => parsed_int(s@, 0, u64::MAX as int) is None,
        },
{
    let v = to_chars(s);
    match parse_bounded(&v, 0, u64::MAX as i128) {
        Some(n) => Some(n as u64),
        None => None,
    }
}

} // verus!

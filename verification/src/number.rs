//! Decimal numbers as text: reading a signed vote and writing a pull-request
//! id.
use crate::text::{chars_of, string_from_chars};
use vstd::prelude::*;

verus! {

/// Whether `c` is one of the ten ASCII decimal digits.
pub open spec fn is_digit(c: char) -> bool {
    0x30 <= c as u32 <= 0x39
}

/// The number a decimal digit stands for.
pub open spec fn digit_value(c: char) -> int {
    c as u32 - 0x30
}

/// Whether `s` holds only ASCII decimal digits.
pub open spec fn all_digits(s: Seq<char>) -> bool {
    forall|i: int| 0 <= i < s.len() ==> is_digit(#[trigger] s[i])
}

/// The number that the digits of `s` write in base ten; 0 for no digits.
pub open spec fn decimal_value(s: Seq<char>) -> int
    decreases s.len(),
{
    if s.len() == 0 {
        0
    } else {
        decimal_value(s.drop_last()) * 10 + digit_value(s.last())
    }
}

/// What remains of `s` after one leading `+` or `-`.
pub open spec fn unsigned_part(s: Seq<char>) -> Seq<char> {
    if s.len() > 0 && (s[0] == '+' || s[0] == '-') {
        s.skip(1)
    } else {
        s
    }
}

/// The signed number that `s` writes: an optional sign followed by one or
/// more ASCII digits, whose value fits in an `i32`. Anything else is no
/// number.
pub open spec fn parse_i32(s: Seq<char>) -> Option<i32> {
    let digits = unsigned_part(s);
    let magnitude = decimal_value(digits);
    let value = if s.len() > 0 && s[0] == '-' {
        -magnitude
    } else {
        magnitude
    };
    if digits.len() > 0 && all_digits(digits) && i32::MIN <= value <= i32::MAX {
        Some(value as i32)
    } else {
        None
    }
}

/// Reads a signed decimal number.
pub fn parse_int(s: &str) -> (r: Option<i32>)
    ensures
        r == parse_i32(s@),
{
    let chars = chars_of(s);
    let n = chars.len();
    let negative = n > 0 && chars[0] == '-';
    let first: usize = if n > 0 && (chars[0] == '+' || chars[0] == '-') {
        1
    } else {
        0
    };
    let ghost digits = unsigned_part(chars@);
    proof {
        assert(chars@.skip(0) =~= chars@);
        assert(digits == chars@.skip(first as int));
        assert(digits.take(0) =~= Seq::<char>::empty());
    }
    if first == n {
        return None;
    }
    let limit: i64 = 2147483648;
    let mut magnitude: i64 = 0;
    let mut too_large = false;
    let mut i: usize = first;
    while i < n
        invariant
            first <= i <= n,
            n == chars@.len(),
            chars@ == s@,
            digits == unsigned_part(chars@),
            digits == chars@.skip(first as int),
            limit == 2147483648,
            all_digits(digits.take(i - first)),
            !too_large ==> magnitude == decimal_value(digits.take(i - first)) && 0 <= magnitude
                <= limit,
            too_large ==> decimal_value(digits.take(i - first)) > limit,
        decreases n - i,
    {
        let c = chars[i];
        let ghost before = digits.take(i - first);
        let ghost after = digits.take(i - first + 1);
        proof {
            assert(after.drop_last() =~= before);
            assert(after.last() == c);
        }
        let code: u32 = c as u32;
        if code < 0x30 || code > 0x39 {
            proof {
                assert(digits[i - first] == c);
                assert(!is_digit(digits[i - first]));
            }
            return None;
        }
        let d: i64 = (code - 0x30) as i64;
        proof {
            assert forall|j: int| 0 <= j < after.len() implies is_digit(#[trigger] after[j]) by {
                if j < before.len() {
                    assert(before[j] == after[j]);
                }
            }
        }
        if !too_large {
            let next: i64 = magnitude * 10 + d;
            if next > limit {
                too_large = true;
            } else {
                magnitude = next;
            }
        }
        i += 1;
    }
    proof {
        assert(digits.take(n - first) =~= digits);
    }
    if too_large {
        None
    } else if negative {
        Some((-magnitude) as i32)
    } else if magnitude == limit {
        None
    } else {
        Some(magnitude as i32)
    }
}

/// The character that writes the digit `d`.
pub open spec fn digit_char(d: int) -> char {
    if d == 0 {
        '0'
    } else if d == 1 {
        '1'
    } else if d == 2 {
        '2'
    } else if d == 3 {
        '3'
    } else if d == 4 {
        '4'
    } else if d == 5 {
        '5'
    } else if d == 6 {
        '6'
    } else if d == 7 {
        '7'
    } else if d == 8 {
        '8'
    } else {
        '9'
    }
}

/// `n` written in base ten, without leading zeros.
pub open spec fn decimal(n: nat) -> Seq<char>
    decreases n,
{
    if n < 10 {
        seq![digit_char(n as int)]
    } else {
        decimal(n / 10).push(digit_char((n % 10) as int))
    }
}

fn digit_of(d: u32) -> (c: char)
    requires
        d < 10,
    ensures
        c == digit_char(d as int),
{
    if d == 0 {
        '0'
    } else if d == 1 {
        '1'
    } else if d == 2 {
        '2'
    } else if d == 3 {
        '3'
    } else if d == 4 {
        '4'
    } else if d == 5 {
        '5'
    } else if d == 6 {
        '6'
    } else if d == 7 {
        '7'
    } else if d == 8 {
        '8'
    } else {
        '9'
    }
}

/// Writes `n` in base ten.
pub fn decimal_string(n: u32) -> (r: String)
    ensures
        r@ == decimal(n as nat),
{
    let mut low: Vec<char> = Vec::new();
    let mut rest: u32 = n;
    while rest >= 10
        invariant
            decimal(n as nat) == decimal(rest as nat) + low@.reverse(),
        decreases rest,
    {
        let ghost before = low@;
        low.push(digit_of(rest % 10));
        proof {
            assert(low@.reverse() =~= seq![digit_char((rest % 10) as int)] + before.reverse());
            assert(decimal(rest as nat) + before.reverse() =~= decimal((rest / 10) as nat)
                + low@.reverse());
        }
        rest = rest / 10;
    }
    let ghost before = low@;
    low.push(digit_of(rest));
    proof {
        assert(low@.reverse() =~= decimal(rest as nat) + before.reverse());
    }
    let mut digits: Vec<char> = Vec::new();
    let mut i: usize = low.len();
    while i > 0
        invariant
            i <= low@.len(),
            digits@ == low@.reverse().take(low@.len() - i),
        decreases i,
    {
        i -= 1;
        let ghost before = digits@;
        digits.push(low[i]);
        proof {
            assert(digits@ =~= low@.reverse().take(low@.len() - i));
        }
    }
    proof {
        assert(low@.reverse().take(low@.len() as int) =~= low@.reverse());
        assert(digits@.subrange(0, digits@.len() as int) =~= digits@);
    }
    string_from_chars(&digits, 0, digits.len())
}

} // verus!

//! Unsigned decimal numbers as text: what a run of digits denotes, and
//! reading a machine integer from it.

use crate::text::{decimal, digit_char};
use vstd::prelude::*;

verus! {

/// `c` is one of the ten decimal digits.
pub open spec fn is_digit(c: char) -> bool {
    '0' <= c && c <= '9'
}

/// The number that the digit `c` stands for.
pub open spec fn digit_value(c: char) -> nat {
    if is_digit(c) {
        (c as int - '0' as int) as nat
    } else {
        0
    }
}

/// Every character of `s` is a digit.
pub open spec fn all_digits(s: Seq<char>) -> bool {
    forall|i: int| 0 <= i < s.len() ==> is_digit(#[trigger] s[i])
}

/// The number that the digits `s` denote, most significant digit first.
pub open spec fn digits_value(s: Seq<char>) -> nat
    decreases s.len(),
{
    if s.len() == 0 {
        0
    } else {
        digits_value(s.drop_last()) * 10 + digit_value(s.last())
    }
}

/// Ten to the power `n`.
pub open spec fn pow10(n: nat) -> nat
    decreases n,
{
    if n == 0 {
        1
    } else {
        10 * pow10((n - 1) as nat)
    }
}

/// The digits of a number written as text: the text without a leading `+`.
pub open spec fn number_digits(text: Seq<char>) -> Seq<char> {
    if text.len() > 0 && text[0] == '+' {
        text.skip(1)
    } else {
        text
    }
}

/// `text` writes an unsigned number: one or more digits, after at most one `+`.
pub open spec fn is_number(text: Seq<char>) -> bool {
    number_digits(text).len() > 0 && all_digits(number_digits(text))
}

/// The number that `text` writes.
pub open spec fn number_value(text: Seq<char>) -> nat {
    digits_value(number_digits(text))
}

/// What reading `text` as a 32-bit number gives: its value when it writes a
/// number that fits, nothing otherwise.
pub open spec fn parsed_u32(text: Seq<char>) -> Option<u32> {
    if is_number(text) && number_value(text) <= u32::MAX {
        Some(number_value(text) as u32)
    } else {
        None
    }
}

/// A power of ten is positive.
pub proof fn pow10_positive(n: nat)
    ensures
        pow10(n) > 0,
    decreases n,
{
    if n > 0 {
        pow10_positive((n - 1) as nat);
    }
}

/// The power of a sum is the product of the powers.
pub proof fn pow10_sum(a: nat, b: nat)
    ensures
        pow10(a + b) == pow10(a) * pow10(b),
    decreases a,
{
    let y = pow10(b) as int;
    if a == 0 {
        assert(1 * y == y) by (nonlinear_arith);
    } else {
        pow10_sum((a - 1) as nat, b);
        let x = pow10((a - 1) as nat) as int;
        assert(pow10(a + b) == 10 * pow10((a + b - 1) as nat));
        assert(10 * (x * y) == (10 * x) * y) by (nonlinear_arith);
    }
}

/// The digits before any position denote no more than all of them.
pub proof fn digits_value_prefix(s: Seq<char>, k: int)
    requires
        0 <= k <= s.len(),
    ensures
        digits_value(s.take(k)) <= digits_value(s),
    decreases s.len(),
{
    if k == s.len() {
        assert(s.take(k) =~= s);
    } else {
        digits_value_prefix(s.drop_last(), k);
        assert(s.drop_last().take(k) =~= s.take(k));
    }
}

/// Digits written behind other digits shift these up by a power of ten.
pub proof fn digits_value_concat(a: Seq<char>, b: Seq<char>)
    ensures
        digits_value(a + b) == digits_value(a) * pow10(b.len()) + digits_value(b),
    decreases b.len(),
{
    let x = digits_value(a) as int;
    let q = pow10(b.len()) as int;
    if b.len() == 0 {
        assert(a + b =~= a);
        assert(x * q == x) by (nonlinear_arith)
            requires
                q == 1,
        ;
    } else {
        digits_value_concat(a, b.drop_last());
        assert((a + b).drop_last() =~= a + b.drop_last());
        assert((a + b).last() == b.last());
        let p = pow10((b.len() - 1) as nat) as int;
        assert(x * q == (x * p) * 10) by (nonlinear_arith)
            requires
                q == 10 * p,
        ;
    }
}

/// `n` digits denote a number below ten to the power `n`.
pub proof fn digits_value_bound(s: Seq<char>)
    ensures
        digits_value(s) < pow10(s.len()),
    decreases s.len(),
{
    if s.len() > 0 {
        digits_value_bound(s.drop_last());
    }
}

/// Digits denote zero exactly when each of them is `0`.
pub proof fn digits_value_zero(s: Seq<char>)
    requires
        all_digits(s),
    ensures
        digits_value(s) == 0 <==> (forall|i: int| 0 <= i < s.len() ==> s[i] == '0'),
    decreases s.len(),
{
    if s.len() > 0 {
        let shorter = s.drop_last();
        assert(all_digits(shorter)) by {
            assert forall|i: int| 0 <= i < shorter.len() implies is_digit(
                #[trigger] shorter[i],
            ) by {
                assert(shorter[i] == s[i]);
            }
        }
        digits_value_zero(shorter);
        assert(is_digit(s[s.len() - 1]));
        if digits_value(s) == 0 {
            assert forall|i: int| 0 <= i < s.len() implies s[i] == '0' by {
                if i < shorter.len() {
                    assert(shorter[i] == s[i]);
                }
            }
        } else {
            if forall|i: int| 0 <= i < s.len() ==> s[i] == '0' {
                assert forall|i: int| 0 <= i < shorter.len() implies shorter[i] == '0' by {
                    assert(shorter[i] == s[i]);
                }
                assert(s.last() == '0');
            }
        }
    }
}

/// The character of a digit stands for that digit.
pub proof fn digit_char_value(d: nat)
    requires
        d < 10,
    ensures
        is_digit(digit_char(d)),
        digit_value(digit_char(d)) == d,
{
}

/// The decimal notation of a number is made of digits and denotes that number.
pub proof fn decimal_denotes(n: nat)
    ensures
        decimal(n).len() > 0,
        all_digits(decimal(n)),
        digits_value(decimal(n)) == n,
    decreases n,
{
    if n < 10 {
        digit_char_value(n);
        assert(decimal(n).drop_last() =~= Seq::<char>::empty());
        assert(digits_value(Seq::<char>::empty()) == 0);
        assert(decimal(n).last() == digit_char(n));
    } else {
        decimal_denotes(n / 10);
        digit_char_value(n % 10);
        let head = decimal(n / 10);
        let whole = decimal(n);
        assert(whole.drop_last() =~= head);
        assert(whole.last() == digit_char(n % 10));
        assert forall|i: int| 0 <= i < whole.len() implies is_digit(#[trigger] whole[i]) by {
            if i < head.len() {
                assert(whole[i] == head[i]);
            }
        }
    }
}

/// The first position at or behind `from` that holds no digit.
pub(crate) fn scan_digits(text: &str, from: usize) -> (end: usize)
    requires
        from <= text@.len(),
    ensures
        from <= end <= text@.len(),
        all_digits(text@.subrange(from as int, end as int)),
        end == text@.len() || !is_digit(text@[end as int]),
{
    let len = text.unicode_len();
    let mut end = from;
    while end < len
        invariant
            from <= end <= len,
            len == text@.len(),
            all_digits(text@.subrange(from as int, end as int)),
        decreases len - end,
    {
        let c = text.get_char(end);
        if !(c >= '0' && c <= '9') {
            return end;
        }
        proof {
            let wider = text@.subrange(from as int, end as int + 1);
            assert forall|i: int| 0 <= i < wider.len() implies is_digit(#[trigger] wider[i]) by {
                if i < end - from {
                    assert(wider[i] == text@.subrange(from as int, end as int)[i]);
                }
            }
        }
        end = end + 1;
    }
    end
}

/// Reads `text` as a 32-bit number.
pub fn parse_u32(text: &str) -> (r: Option<u32>)
    ensures
        r == parsed_u32(text@),
{
    let len = text.unicode_len();
    let start: usize = if len > 0 && text.get_char(0) == '+' {
        1
    } else {
        0
    };
    let ghost digits = number_digits(text@);
    assert(digits =~= text@.subrange(start as int, len as int));
    if start == len {
        return None;
    }
    let end = scan_digits(text, start);
    if end < len {
        assert(!is_digit(digits[end - start]));
        return None;
    }
    let mut value: u64 = 0;
    let mut i: usize = start;
    while i < len
        invariant
            start <= i <= len,
            len == text@.len(),
            digits == number_digits(text@),
            digits == text@.subrange(start as int, len as int),
            all_digits(digits),
            value == digits_value(digits.take(i - start)),
            value <= u32::MAX,
        decreases len - i,
    {
        let c = text.get_char(i);
        assert(is_digit(digits[i - start]));
        let digit: u64 = (c as u32 - '0' as u32) as u64;
        assert(digit == digit_value(c));
        value = value * 10 + digit;
        proof {
            let wider = digits.take(i - start + 1);
            assert(wider.drop_last() =~= digits.take(i - start));
            assert(wider.last() == c);
            assert(value == digits_value(wider));
            digits_value_prefix(digits, i - start + 1);
        }
        if value > u32::MAX as u64 {
            return None;
        }
        i = i + 1;
    }
    assert(digits.take(len - start) =~= digits);
    Some(value as u32)
}

} // verus!

//! The similarity threshold: a decimal number strictly between 0 and 1,
//! given as text and handed to the tool in a normal form.
//!
//! A decimal number is written as an optional sign, digits, and optionally a
//! point followed by digits; at least one digit must be there. It denotes the
//! number `numerator / 10^scale`, where the numerator is what all its digits
//! denote together and the scale is the count of digits behind the point.

use crate::error::{BatchError, BatchErrorView};
use crate::number::{
    all_digits,
    digits_value,
    digits_value_bound,
    digits_value_concat,
    digits_value_zero,
    is_digit,
    pow10,
    pow10_positive,
    pow10_sum,
    scan_digits,
};
use vstd::prelude::*;

verus! {

/// The length of the sign that `text` starts with: 1 or 0.
pub open spec fn sign_length(text: Seq<char>) -> int {
    if text.len() > 0 && (text[0] == '+' || text[0] == '-') {
        1
    } else {
        0
    }
}

/// `text` starts with a minus sign.
pub open spec fn is_negative(text: Seq<char>) -> bool {
    text.len() > 0 && text[0] == '-'
}

/// `text` without its sign.
pub open spec fn unsigned_part(text: Seq<char>) -> Seq<char> {
    text.skip(sign_length(text))
}

/// The position of the first point in `body`, or its length when it holds none.
pub open spec fn point_position(body: Seq<char>) -> int
    decreases body.len(),
{
    if body.len() == 0 || body[0] == '.' {
        0
    } else {
        1 + point_position(body.drop_first())
    }
}

/// What stands between the sign and the first point.
pub open spec fn whole_part(text: Seq<char>) -> Seq<char> {
    unsigned_part(text).take(point_position(unsigned_part(text)))
}

/// What stands behind the first point.
pub open spec fn fraction_part(text: Seq<char>) -> Seq<char> {
    let body = unsigned_part(text);
    if point_position(body) < body.len() {
        body.skip(point_position(body) + 1)
    } else {
        Seq::empty()
    }
}

/// `text` writes a decimal number.
pub open spec fn is_decimal(text: Seq<char>) -> bool {
    &&& all_digits(whole_part(text))
    &&& all_digits(fraction_part(text))
    &&& whole_part(text).len() + fraction_part(text).len() > 0
}

/// What all digits of the decimal number `text` denote together.
pub open spec fn decimal_numerator(text: Seq<char>) -> nat {
    digits_value(whole_part(text) + fraction_part(text))
}

/// The count of digits behind the point of the decimal number `text`.
pub open spec fn decimal_scale(text: Seq<char>) -> nat {
    fraction_part(text).len()
}

/// `text` writes a number strictly between 0 and 1.
pub open spec fn is_threshold(text: Seq<char>) -> bool {
    &&& is_decimal(text)
    &&& !is_negative(text)
    &&& 0 < decimal_numerator(text) < pow10(decimal_scale(text))
}

/// `digits` without the zeros at its end.
pub open spec fn trim_zeros(digits: Seq<char>) -> Seq<char>
    decreases digits.len(),
{
    if digits.len() > 0 && digits.last() == '0' {
        trim_zeros(digits.drop_last())
    } else {
        digits
    }
}

/// The normal form of a threshold: `0.` and the digits behind the point up to
/// the last one that is not zero.
pub open spec fn threshold_text(text: Seq<char>) -> Seq<char> {
    "0."@ + trim_zeros(fraction_part(text))
}

/// The first point of `body` stands at `p` when `p` holds a point (or is the
/// length of `body`) and no position before it does.
pub proof fn point_position_is(body: Seq<char>, p: int)
    requires
        0 <= p <= body.len(),
        forall|j: int| 0 <= j < p ==> body[j] != '.',
        p == body.len() || body[p] == '.',
    ensures
        point_position(body) == p,
    decreases body.len(),
{
    if body.len() > 0 && body[0] != '.' {
        point_position_is(body.drop_first(), p - 1);
    }
}

/// The first point of `body` stands at `point_position(body)`.
pub proof fn point_position_holds(body: Seq<char>)
    ensures
        0 <= point_position(body) <= body.len(),
        forall|j: int| 0 <= j < point_position(body) ==> body[j] != '.',
        point_position(body) == body.len() || body[point_position(body)] == '.',
    decreases body.len(),
{
    if body.len() > 0 && body[0] != '.' {
        let rest = body.drop_first();
        point_position_holds(rest);
        assert forall|j: int| 0 <= j < point_position(body) implies body[j] != '.' by {
            if j > 0 {
                assert(body[j] == rest[j - 1]);
            }
        }
    }
}

/// The zeros at the end of `digits` start at `k` when every position from `k`
/// on holds a zero and the one before `k` does not.
pub proof fn trim_zeros_is(digits: Seq<char>, k: int)
    requires
        0 <= k <= digits.len(),
        forall|j: int| k <= j < digits.len() ==> digits[j] == '0',
        k == 0 || digits[k - 1] != '0',
    ensures
        trim_zeros(digits) == digits.take(k),
    decreases digits.len(),
{
    if digits.len() > 0 && digits.last() == '0' {
        trim_zeros_is(digits.drop_last(), k);
        assert(digits.drop_last().take(k) =~= digits.take(k));
    } else {
        assert(digits.take(k) =~= digits);
    }
}

/// What `trim_zeros` leaves is the start of the digits; only zeros follow it,
/// and it does not end in a zero.
pub proof fn trim_zeros_holds(digits: Seq<char>)
    ensures
        trim_zeros(digits).len() <= digits.len(),
        trim_zeros(digits) == digits.take(trim_zeros(digits).len() as int),
        forall|j: int| trim_zeros(digits).len() <= j < digits.len() ==> digits[j] == '0',
        trim_zeros(digits).len() == 0 || trim_zeros(digits).last() != '0',
    decreases digits.len(),
{
    if digits.len() > 0 && digits.last() == '0' {
        let shorter = digits.drop_last();
        trim_zeros_holds(shorter);
        let kept = trim_zeros(digits).len() as int;
        assert(shorter.take(kept) =~= digits.take(kept));
        assert forall|j: int| kept <= j < digits.len() implies digits[j] == '0' by {
            if j < shorter.len() {
                assert(shorter[j] == digits[j]);
            }
        }
    } else {
        assert(digits.take(digits.len() as int) =~= digits);
    }
}

/// The normal form of a threshold writes a threshold, is its own normal form,
/// and denotes the same number as the text it was made from: the two
/// fractions `numerator / 10^scale` are equal.
pub proof fn threshold_text_is_normal(text: Seq<char>)
    requires
        is_threshold(text),
    ensures
        is_threshold(threshold_text(text)),
        threshold_text(threshold_text(text)) == threshold_text(text),
        decimal_numerator(threshold_text(text)) * pow10(decimal_scale(text)) == decimal_numerator(
            text,
        ) * pow10(decimal_scale(threshold_text(text))),
{
    let whole = whole_part(text);
    let fraction = fraction_part(text);
    let kept = trim_zeros(fraction);
    let normal = threshold_text(text);
    let zeros = fraction.skip(kept.len() as int);
    trim_zeros_holds(fraction);
    assert(fraction =~= kept + zeros);
    assert(all_digits(kept)) by {
        assert forall|i: int| 0 <= i < kept.len() implies is_digit(#[trigger] kept[i]) by {
            assert(kept[i] == fraction[i]);
        }
    }
    assert(all_digits(zeros)) by {
        assert forall|i: int| 0 <= i < zeros.len() implies is_digit(#[trigger] zeros[i]) by {
            assert(zeros[i] == fraction[kept.len() + i]);
        }
    }
    assert forall|i: int| 0 <= i < zeros.len() implies zeros[i] == '0' by {
        assert(zeros[i] == fraction[kept.len() + i]);
    }
    let high = digits_value(whole) as int;
    let low = digits_value(fraction) as int;
    let value = digits_value(kept) as int;
    let scale = pow10(fraction.len()) as int;
    let kept_scale = pow10(kept.len()) as int;
    let zero_scale = pow10(zeros.len()) as int;
    digits_value_zero(zeros);
    digits_value_concat(kept, zeros);
    digits_value_concat(whole, fraction);
    digits_value_bound(kept);
    pow10_positive(fraction.len());
    pow10_positive(zeros.len());
    pow10_sum(kept.len(), zeros.len());
    assert(low == value * zero_scale);
    assert(high == 0) by {
        if high >= 1 {
            assert(high * scale >= scale) by (nonlinear_arith)
                requires
                    high >= 1,
                    scale > 0,
            ;
        }
    }
    assert(high * scale == 0) by (nonlinear_arith)
        requires
            high == 0,
    ;
    assert(value > 0) by {
        if value == 0 {
            assert(value * zero_scale == 0) by (nonlinear_arith)
                requires
                    value == 0,
            ;
        }
    }
    assert(kept.len() > 0);

    reveal_strlit("0.");
    assert(normal.len() == 2 + kept.len());
    assert(normal[0] == '0' && normal[1] == '.');
    assert(unsigned_part(normal) =~= normal);
    point_position_is(normal, 1);
    let normal_whole = whole_part(normal);
    assert(normal_whole =~= seq!['0']);
    assert(fraction_part(normal) =~= kept);
    digits_value_zero(normal_whole);
    digits_value_concat(normal_whole, kept);
    assert(digits_value(normal_whole) * kept_scale == 0) by (nonlinear_arith)
        requires
            digits_value(normal_whole) == 0,
    ;
    assert(decimal_numerator(normal) == value);
    assert(trim_zeros(kept) == kept);
    assert(value * (kept_scale * zero_scale) == (value * zero_scale) * kept_scale)
        by (nonlinear_arith);
}

/// Tells whether every position of `text` from `from` up to `to` holds a zero.
fn only_zeros(text: &str, from: usize, to: usize) -> (b: bool)
    requires
        from <= to <= text@.len(),
    ensures
        b == (forall|j: int| from <= j < to ==> text@[j] == '0'),
{
    let mut i = from;
    while i < to
        invariant
            from <= i <= to,
            to <= text@.len(),
            forall|j: int| from <= j < i ==> text@[j] == '0',
        decreases to - i,
    {
        if text.get_char(i) != '0' {
            return false;
        }
        i = i + 1;
    }
    true
}

/// The position behind the last character between `from` and `to` that is
/// not a zero, or `from` when there is none.
fn trimmed_end(text: &str, from: usize, to: usize) -> (end: usize)
    requires
        from <= to <= text@.len(),
    ensures
        from <= end <= to,
        forall|j: int| end <= j < to ==> text@[j] == '0',
        end == from || text@[end - 1] != '0',
{
    let mut end = to;
    while end > from && text.get_char(end - 1) == '0'
        invariant
            from <= end <= to,
            to <= text@.len(),
            forall|j: int| end <= j < to ==> text@[j] == '0',
        decreases end,
    {
        end = end - 1;
    }
    end
}

/// The normal form of `text` when it writes a threshold.
fn normal_form(text: &str) -> (r: Option<String>)
    ensures
        is_threshold(text@) ==> (r matches Some(s) && s@ == threshold_text(text@)),
        !is_threshold(text@) ==> r is None,
{
    let len = text.unicode_len();
    let negative = len > 0 && text.get_char(0) == '-';
    let signed = negative || (len > 0 && text.get_char(0) == '+');
    let body_start: usize = if signed {
        1
    } else {
        0
    };
    let ghost body = unsigned_part(text@);
    let whole_end = scan_digits(text, body_start);
    let ghost k = whole_end - body_start;
    proof {
        point_position_holds(body);
        assert forall|j: int| 0 <= j < k implies is_digit(body[j]) by {
            assert(body[j] == text@.subrange(body_start as int, whole_end as int)[j]);
        }
    }
    if whole_end < len && text.get_char(whole_end) != '.' {
        proof {
            let p = point_position(body);
            assert(!is_digit(body[k]));
            if p <= k {
                assert(body[p] == '.');
                assert(is_digit(body[p]) || p == k);
            }
            assert(whole_part(text@)[k] == body[k]);
        }
        return None;
    }
    proof {
        assert forall|j: int| 0 <= j < k implies body[j] != '.' by {
            assert(is_digit(body[j]));
        }
        point_position_is(body, k);
    }
    let fraction_start: usize = if whole_end < len {
        whole_end + 1
    } else {
        len
    };
    let ghost whole = whole_part(text@);
    let ghost fraction = fraction_part(text@);
    assert(whole =~= text@.subrange(body_start as int, whole_end as int));
    assert(fraction =~= text@.subrange(fraction_start as int, len as int));
    let fraction_end = scan_digits(text, fraction_start);
    if fraction_end < len {
        assert(fraction[fraction_end - fraction_start] == text@[fraction_end as int]);
        return None;
    }
    let whole_zero = only_zeros(text, body_start, whole_end);
    let end = trimmed_end(text, fraction_start, len);
    proof {
        let scale = pow10(fraction.len()) as int;
        let high = digits_value(whole) as int;
        let low = digits_value(fraction) as int;
        digits_value_concat(whole, fraction);
        digits_value_bound(fraction);
        digits_value_zero(whole);
        digits_value_zero(fraction);
        pow10_positive(fraction.len());
        trim_zeros_is(fraction, end - fraction_start);
        assert(decimal_numerator(text@) == high * scale + low);
        if whole_zero {
            assert forall|i: int| 0 <= i < whole.len() implies whole[i] == '0' by {
                assert(whole[i] == text@[body_start + i]);
            }
            assert(high == 0);
            assert(high * scale == 0) by (nonlinear_arith)
                requires
                    high == 0,
            ;
        } else {
            let j = choose|j: int| body_start <= j < whole_end && text@[j] != '0';
            assert(whole[j - body_start] == text@[j]);
            assert(high >= 1);
            assert(high * scale >= scale) by (nonlinear_arith)
                requires
                    high >= 1,
                    scale > 0,
            ;
        }
        if end == fraction_start {
            assert forall|i: int| 0 <= i < fraction.len() implies fraction[i] == '0' by {
                assert(fraction[i] == text@[fraction_start + i]);
            }
            assert(low == 0);
        } else {
            assert(fraction[end - 1 - fraction_start] == text@[end - 1]);
            assert(low > 0);
        }
    }
    if negative || !whole_zero || end == fraction_start {
        return None;
    }
    let mut normal = String::from_str("0.");
    let kept = text.substring_char(fraction_start, end);
    normal.append(kept);
    assert(kept@ =~= fraction.take(end - fraction_start));
    Some(normal)
}

/// Accepts `text` when it writes a number strictly between 0 and 1, and gives
/// its normal form; any other text is refused with an error that carries it.
pub fn validate_threshold(text: &String) -> (r: Result<String, BatchError>)
    ensures
        is_threshold(text@) ==> (r matches Ok(s) && s@ == threshold_text(text@)),
        !is_threshold(text@) ==> (r matches Err(e) && e@ == (BatchErrorView::InvalidParameter {
            value: text@,
        })),
{
    match normal_form(text.as_str()) {
        Some(normal) => Ok(normal),
        None => Err(BatchError::InvalidParameter { value: text.clone() }),
    }
}

} // verus!

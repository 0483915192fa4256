//! Numbers in decimal digits, as layout files hold them.

use vstd::prelude::*;

verus! {

/// Whether `byte` is an ASCII digit.
pub open spec fn is_digit(byte: u8) -> bool {
    0x30 <= byte <= 0x39
}

/// The number in decimal digits, without leading zeros.
pub open spec fn decimal_bytes(value: nat) -> Seq<u8>
    decreases value,
{
    if value < 10 {
        seq![(0x30 + value) as u8]
    } else {
        decimal_bytes(value / 10).push((0x30 + value % 10) as u8)
    }
}

/// The number that the digits stand for.
pub open spec fn value_of(digits: Seq<u8>) -> nat
    decreases digits.len(),
{
    if digits.len() == 0 {
        0
    } else {
        value_of(digits.drop_last()) * 10 + (digits.last() - 0x30) as nat
    }
}

/// Whether the bytes are the digits of a number as it is written: digits
/// only, at least one, and no zero before another digit.
pub open spec fn canonical(digits: Seq<u8>) -> bool {
    &&& digits.len() >= 1
    &&& forall|i: int| 0 <= i < digits.len() ==> is_digit(#[trigger] digits[i])
    &&& digits.len() >= 2 ==> digits[0] != 0x30
}

/// Where the digits that start at `at` end: at the first byte that is no
/// digit, or at the end of the text.
pub open spec fn digits_end(text: Seq<u8>, at: int) -> int
    decreases text.len() - at,
{
    if 0 <= at < text.len() && is_digit(text[at]) {
        digits_end(text, at + 1)
    } else {
        at
    }
}

/// The number that is written at `at`, and where it ends; `None` where no
/// number is written there as numbers are written, or one above `limit`.
pub open spec fn number_at(text: Seq<u8>, at: int, limit: nat) -> Option<(nat, int)> {
    let end = digits_end(text, at);
    let digits = text.subrange(at, end);
    if 0 <= at < end && canonical(digits) && value_of(digits) <= limit {
        Some((value_of(digits), end))
    } else {
        None
    }
}

/// The digits that start at `at` are digits up to where they end, which is
/// within the text, and no digit follows them.
pub proof fn lemma_digits_end(text: Seq<u8>, at: int)
    requires
        0 <= at <= text.len(),
    ensures
        at <= digits_end(text, at) <= text.len(),
        forall|i: int| at <= i < digits_end(text, at) ==> is_digit(#[trigger] text[i]),
        digits_end(text, at) < text.len() ==> !is_digit(text[digits_end(text, at)]),
    decreases text.len() - at,
{
    if at < text.len() && is_digit(text[at]) {
        lemma_digits_end(text, at + 1);
    }
}

/// Digits that are followed by no digit end where they end.
pub proof fn lemma_digits_end_is(text: Seq<u8>, at: int, end: int)
    requires
        0 <= at <= end <= text.len(),
        forall|i: int| at <= i < end ==> is_digit(#[trigger] text[i]),
        end < text.len() ==> !is_digit(text[end]),
    ensures
        digits_end(text, at) == end,
    decreases end - at,
{
    if at < end {
        lemma_digits_end_is(text, at + 1, end);
    }
}

/// A number as it is written is canonical, and stands for the number.
pub proof fn lemma_decimal_bytes(value: nat)
    ensures
        canonical(decimal_bytes(value)),
        value_of(decimal_bytes(value)) == value,
        value >= 1 ==> decimal_bytes(value)[0] != 0x30,
    decreases value,
{
    let digits = decimal_bytes(value);
    if value < 10 {
        assert(digits.drop_last() =~= Seq::<u8>::empty());
        assert(value_of(digits.drop_last()) == 0);
    } else {
        lemma_decimal_bytes(value / 10);
        let init = decimal_bytes(value / 10);
        assert(digits.drop_last() =~= init);
        assert(digits[0] == init[0]);
        assert forall|i: int| 0 <= i < digits.len() implies is_digit(#[trigger] digits[i]) by {
            if i < init.len() {
                assert(digits[i] == init[i]);
            }
        }
    }
}

/// Digits that do not start with a zero stand for a number that is not
/// zero.
pub proof fn lemma_value_positive(digits: Seq<u8>)
    requires
        digits.len() >= 1,
        forall|i: int| 0 <= i < digits.len() ==> is_digit(#[trigger] digits[i]),
        digits[0] != 0x30,
    ensures
        value_of(digits) >= 1,
    decreases digits.len(),
{
    if digits.len() >= 2 {
        let init = digits.drop_last();
        assert(init[0] == digits[0]);
        assert forall|i: int| 0 <= i < init.len() implies is_digit(#[trigger] init[i]) by {
            assert(init[i] == digits[i]);
        }
        lemma_value_positive(init);
    } else {
        assert(digits.drop_last() =~= Seq::<u8>::empty());
        assert(value_of(digits.drop_last()) == 0);
        assert(is_digit(digits[0]));
    }
}

/// Canonical digits are the number that they stand for as it is written.
pub proof fn lemma_canonical(digits: Seq<u8>)
    requires
        canonical(digits),
    ensures
        decimal_bytes(value_of(digits)) == digits,
    decreases digits.len(),
{
    let init = digits.drop_last();
    let last = digits.last();
    assert(is_digit(last));
    if digits.len() == 1 {
        assert(init =~= Seq::<u8>::empty());
        assert(value_of(init) == 0);
        assert(decimal_bytes(value_of(digits)) =~= digits);
    } else {
        assert(init[0] == digits[0]);
        assert forall|i: int| 0 <= i < init.len() implies is_digit(#[trigger] init[i]) by {
            assert(init[i] == digits[i]);
        }
        lemma_value_positive(init);
        lemma_canonical(init);
        let value = value_of(digits);
        assert(value == value_of(init) * 10 + (last - 0x30));
        assert(value / 10 == value_of(init) && value % 10 == (last - 0x30)) by (nonlinear_arith)
            requires
                value == value_of(init) * 10 + (last - 0x30),
                0 <= last - 0x30 < 10,
        ;
        assert(decimal_bytes(value) =~= digits);
    }
}

/// Where a number is read, the bytes that were read are the number as it
/// is written, and no digit follows them.
pub proof fn lemma_number_read(text: Seq<u8>, at: int, limit: nat)
    requires
        number_at(text, at, limit) is Some,
    ensures
        ({
            let (value, end) = number_at(text, at, limit).unwrap();
            &&& at < end <= text.len()
            &&& value <= limit
            &&& text.subrange(at, end) == decimal_bytes(value)
            &&& end < text.len() ==> !is_digit(text[end])
        }),
{
    lemma_digits_end(text, at);
    lemma_canonical(text.subrange(at, digits_end(text, at)));
}

/// A number that is written at `at`, is followed by no digit and is not
/// above the limit is read there.
pub proof fn lemma_number_written(text: Seq<u8>, at: int, value: nat, limit: nat)
    requires
        0 <= at,
        at + decimal_bytes(value).len() <= text.len(),
        text.subrange(at, at + decimal_bytes(value).len()) == decimal_bytes(value),
        at + decimal_bytes(value).len() < text.len() ==> !is_digit(
            text[at + decimal_bytes(value).len()],
        ),
        value <= limit,
    ensures
        number_at(text, at, limit) == Some((value, at + decimal_bytes(value).len())),
{
    let digits = decimal_bytes(value);
    let end = at + digits.len();
    lemma_decimal_bytes(value);
    assert forall|i: int| at <= i < end implies is_digit(#[trigger] text[i]) by {
        assert(text[i] == text.subrange(at, end)[i - at]);
    }
    lemma_digits_end_is(text, at, end);
}

/// Reads the number that is written at `at`.
pub fn read_number(text: &Vec<u8>, at: usize, limit: usize) -> (r: Option<(usize, usize)>)
    ensures
        r matches Some((value, end)) ==> number_at(text@, at as int, limit as nat) == Some(
            (value as nat, end as int),
        ),
        r is None ==> number_at(text@, at as int, limit as nat) is None,
{
    if at >= text.len() {
        return None;
    }
    let first = text[at];
    if !(0x30 <= first && first <= 0x39) {
        return None;
    }
    let mut end: usize = at;
    let mut value: usize = 0;
    let mut fits = true;
    proof {
        assert(text@.subrange(at as int, at as int) =~= Seq::<u8>::empty());
    }
    while end < text.len() && 0x30 <= text[end] && text[end] <= 0x39
        invariant
            at <= end <= text.len(),
            forall|i: int| at <= i < end ==> is_digit(#[trigger] text@[i]),
            digits_end(text@, end as int) == digits_end(text@, at as int),
            fits ==> value == value_of(text@.subrange(at as int, end as int)) && value <= limit,
            !fits ==> value_of(text@.subrange(at as int, digits_end(text@, at as int))) > limit,
        decreases text.len() - end,
    {
        let digit = (text[end] - 0x30) as usize;
        proof {
            let longer = text@.subrange(at as int, end as int + 1);
            assert(longer.drop_last() =~= text@.subrange(at as int, end as int));
            assert(longer.last() == text@[end as int]);
            if !fits {
            } else {
                lemma_digits_end(text@, end as int + 1);
                lemma_value_grows(text@, at as int, end as int + 1, digits_end(text@, at as int));
            }
        }
        if fits {
            if digit > limit || value > (limit - digit) / 10 {
                proof {
                    assert(value * 10 + digit > limit) by (nonlinear_arith)
                        requires
                            digit > limit || value > (limit - digit) / 10,
                            0 <= digit < 10,
                            0 <= value,
                    ;
                }
                fits = false;
            } else {
                assert(value * 10 + digit <= limit) by (nonlinear_arith)
                    requires
                        value <= (limit - digit) / 10,
                        digit <= limit,
                        0 <= digit,
                ;
                value = value * 10 + digit;
            }
        }
        end += 1;
    }
    proof {
        lemma_digits_end(text@, end as int);
        lemma_digits_end_is(text@, end as int, end as int);
    }
    if !fits {
        return None;
    }
    if end - at >= 2 && first == 0x30 {
        assert(text@.subrange(at as int, end as int)[0] == 0x30);
        return None;
    }
    proof {
        let digits = text@.subrange(at as int, end as int);
        assert forall|i: int| 0 <= i < digits.len() implies is_digit(#[trigger] digits[i]) by {
            assert(digits[i] == text@[at + i]);
        }
        if digits.len() >= 2 {
            assert(digits[0] == first);
        }
    }
    Some((value, end))
}

/// More digits do not stand for less.
pub proof fn lemma_value_grows(text: Seq<u8>, at: int, shorter: int, longer: int)
    requires
        0 <= at <= shorter <= longer <= text.len(),
        forall|i: int| at <= i < longer ==> is_digit(#[trigger] text[i]),
    ensures
        value_of(text.subrange(at, shorter)) <= value_of(text.subrange(at, longer)),
    decreases longer - shorter,
{
    if shorter < longer {
        lemma_value_grows(text, at, shorter, longer - 1);
        let all = text.subrange(at, longer);
        assert(all.drop_last() =~= text.subrange(at, longer - 1));
        assert(is_digit(text[longer - 1]));
        assert(all.last() == text[longer - 1]);
    }
}

/// Appends the number in decimal digits.
pub fn write_number(out: &mut Vec<u8>, value: usize)
    ensures
        final(out)@ == old(out)@ + decimal_bytes(value as nat),
    decreases value,
{
    if value >= 10 {
        write_number(out, value / 10);
    }
    out.push(0x30 + (value % 10) as u8);
    assert(out@ =~= old(out)@ + decimal_bytes(value as nat));
}

} // verus!

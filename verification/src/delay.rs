//! Reading the debounce delay.

use vstd::prelude::*;
use crate::text::chars_of;

verus! {

/// A delay as it was given.
#[derive(Clone, Copy, Debug, PartialEq, Eq, Structural)]
pub enum Delay {
    /// So many milliseconds.
    Millis(u64),
    /// The text gives seconds, perhaps with a fraction.
    Seconds,
}

/// Why a delay is refused.
#[derive(Clone, Copy, Debug, PartialEq, Eq, Structural)]
pub enum DelayError {
    /// The milliseconds are no number that fits.
    NotANumber,
    /// A delay in seconds comes to a thousand milliseconds or more.
    TooLong,
}

/// Whether the character is a decimal digit.
pub open spec fn is_digit(c: char) -> bool {
    '0' <= c && c <= '9'
}

/// Whether the text holds decimal digits only.
pub open spec fn all_digits(text: Seq<char>) -> bool {
    forall|i: int| 0 <= i < text.len() ==> is_digit(#[trigger] text[i])
}

/// The number that the digits write.
pub open spec fn decimal_value(digits: Seq<char>) -> int
    decreases digits.len(),
{
    if digits.len() == 0 {
        0
    } else {
        decimal_value(digits.drop_last()) * 10 + (digits.last() as u32 - '0' as u32)
    }
}

/// The text without a sign `+` in front.
pub open spec fn unsigned(text: Seq<char>) -> Seq<char> {
    if text.len() > 0 && text[0] == '+' {
        text.skip(1)
    } else {
        text
    }
}

/// The number that the text writes: digits, after a `+` or not, that come
/// to no more than the largest number of 64 bits.
pub open spec fn number(text: Seq<char>) -> Option<u64> {
    let digits = unsigned(text);
    if digits.len() > 0 && all_digits(digits) && decimal_value(digits) <= u64::MAX {
        Some(decimal_value(digits) as u64)
    } else {
        None
    }
}

/// Whether the text ends in `ms`.
pub open spec fn ends_in_ms(text: Seq<char>) -> bool {
    text.len() >= 2 && text[text.len() - 2] == 'm' && text[text.len() - 1] == 's'
}

/// The text without any `ms` at its end.
pub open spec fn without_ms(text: Seq<char>) -> Seq<char>
    decreases text.len(),
{
    if ends_in_ms(text) {
        without_ms(text.take(text.len() - 2))
    } else {
        text
    }
}

/// The delay that the text gives.
pub open spec fn delay_of(text: Seq<char>) -> Result<Delay, DelayError> {
    if ends_in_ms(text) {
        match number(without_ms(text)) {
            Some(millis) => Ok(Delay::Millis(millis)),
            None => Err(DelayError::NotANumber),
        }
    } else {
        Ok(Delay::Seconds)
    }
}

/// More digits write no smaller number.
pub proof fn lemma_value_grows(digits: Seq<char>, upto: int)
    requires
        0 <= upto <= digits.len(),
        all_digits(digits),
    ensures
        0 <= decimal_value(digits.take(upto)) <= decimal_value(digits),
    decreases digits.len() - upto,
{
    lemma_value_is_natural(digits.take(upto));
    if upto < digits.len() {
        assert(digits.take(upto + 1).drop_last() == digits.take(upto));
        assert(is_digit(digits[upto]));
        lemma_value_grows(digits, upto + 1);
    } else {
        assert(digits.take(upto) == digits);
    }
}

/// Digits write no negative number.
pub proof fn lemma_value_is_natural(digits: Seq<char>)
    requires
        all_digits(digits),
    ensures
        decimal_value(digits) >= 0,
    decreases digits.len(),
{
    if digits.len() > 0 {
        assert(is_digit(digits.last()));
        lemma_value_is_natural(digits.drop_last());
    }
}

/// Reads digits, after a `+` or not, as a number of 64 bits.
pub fn parse_number(text: &Vec<char>) -> (value: Option<u64>)
    ensures
        value == number(text@),
{
    let start: usize = if text.len() > 0 && text[0] == '+' {
        1
    } else {
        0
    };
    if start == text.len() {
        return None;
    }
    let ghost digits = unsigned(text@);
    proof {
        assert(digits == text@.skip(start as int));
    }
    let mut value: u64 = 0;
    let mut i: usize = start;
    while i < text.len()
        invariant
            start <= i <= text.len(),
            digits == text@.skip(start as int),
            digits == unsigned(text@),
            digits.len() > 0,
            all_digits(digits.take(i - start)),
            value == decimal_value(digits.take(i - start)),
        decreases text.len() - i,
    {
        let c = text[i];
        proof {
            assert(digits[i - start] == c);
            assert(digits.take(i - start + 1).drop_last() == digits.take(i - start));
        }
        if !('0' <= c && c <= '9') {
            proof {
                assert(!is_digit(digits[i - start]));
            }
            return None;
        }
        let d = (c as u32 - '0' as u32) as u64;
        if value > (u64::MAX - d) / 10 {
            proof {
                assert(decimal_value(digits.take(i - start + 1)) > u64::MAX);
                if all_digits(digits) {
                    lemma_value_grows(digits, i - start + 1);
                }
            }
            return None;
        }
        value = value * 10 + d;
        i += 1;
        proof {
            assert forall|k: int| 0 <= k < i - start implies is_digit(
                #[trigger] digits.take(i - start)[k],
            ) by {
                if k < i - start - 1 {
                    assert(digits.take(i - start - 1)[k] == digits[k]);
                }
            }
        }
    }
    proof {
        assert(digits.take(i - start) == digits);
    }
    Some(value)
}

/// Reads a delay. A text that ends in `ms` gives milliseconds, which are
/// read here; any other text gives seconds, which are left to the caller.
pub fn parse_delay(text: &str) -> (delay: Result<Delay, DelayError>)
    ensures
        delay == delay_of(text@),
{
    let mut chars = chars_of(text);
    let n = chars.len();
    if !(n >= 2 && chars[n - 2] == 'm' && chars[n - 1] == 's') {
        return Ok(Delay::Seconds);
    }
    while chars.len() >= 2 && chars[chars.len() - 2] == 'm' && chars[chars.len() - 1] == 's'
        invariant
            without_ms(chars@) == without_ms(text@),
        decreases chars.len(),
    {
        let keep = chars.len() - 2;
        chars.truncate(keep);
    }
    match parse_number(&chars) {
        Some(millis) => Ok(Delay::Millis(millis)),
        None => Err(DelayError::NotANumber),
    }
}

/// Checks a delay that was given in seconds. `millis` is the delay in
/// milliseconds, rounded: it must stay below a thousand.
pub fn seconds_delay(millis: u64) -> (delay: Result<u64, DelayError>)
    ensures
        delay == if millis >= 1000 {
            Err::<u64, DelayError>(DelayError::TooLong)
        } else {
            Ok::<u64, DelayError>(millis)
        },
{
    if millis >= 1000 {
        Err(DelayError::TooLong)
    } else {
        Ok(millis)
    }
}

} // verus!

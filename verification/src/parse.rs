//! Reading an unsigned decimal number from text.
//!
//! The text is read as bytes, left to right. One leading plus sign is
//! skipped when more follows. Every byte after that must be a decimal digit,
//! and the number read so far must stay within the given maximum. The first
//! byte that breaks either rule decides the failure. No blanks, no minus
//! sign, no separators.

use vstd::prelude::*;
use vstd::string::StringSliceAdditionalSpecFns;
use crate::error::ParseFailure;

verus! {

/// The byte of the plus sign.
pub const PLUS: u8 = 0x2b;

/// The byte of the digit zero.
pub const ZERO: u8 = 0x30;

/// The byte of the digit nine.
pub const NINE: u8 = 0x39;

/// Whether `byte` is a decimal digit.
pub open spec fn is_digit(byte: u8) -> bool {
    ZERO <= byte <= NINE
}

/// The number that a digit byte stands for.
pub open spec fn digit_value(byte: u8) -> nat
    recommends
        is_digit(byte),
{
    (byte - ZERO) as nat
}

/// Whether every byte of `text` is a decimal digit.
pub open spec fn all_digits(text: Seq<u8>) -> bool {
    forall|i: int| 0 <= i < text.len() ==> is_digit(#[trigger] text[i])
}

/// The number that a string of digits denotes, most significant digit first.
/// The empty string denotes zero.
pub open spec fn decimal_value(digits: Seq<u8>) -> nat
    recommends
        all_digits(digits),
    decreases digits.len(),
{
    if digits.len() == 0 {
        0
    } else {
        10 * decimal_value(digits.drop_last()) + digit_value(digits.last())
    }
}

/// What reading `digits` from left to right gives: the number they denote,
/// or the failure at the first byte that is no digit or takes the number
/// above `max`. At one byte, not being a digit is noticed first.
pub open spec fn read_digits(digits: Seq<u8>, max: nat) -> Result<nat, ParseFailure>
    decreases digits.len(),
{
    if digits.len() == 0 {
        Ok(0)
    } else {
        match read_digits(digits.drop_last(), max) {
            Err(failure) => Err(failure),
            Ok(value) => if !is_digit(digits.last()) {
                Err(ParseFailure::InvalidDigit)
            } else if 10 * value + digit_value(digits.last()) > max {
                Err(ParseFailure::Overflow)
            } else {
                Ok(10 * value + digit_value(digits.last()))
            },
        }
    }
}

/// The part of `text` that must consist of digits: all of it, or what
/// follows one leading plus sign.
pub open spec fn digits_of(text: Seq<u8>) -> Seq<u8> {
    if text.len() > 0 && text[0] == PLUS {
        text.subrange(1, text.len() as int)
    } else {
        text
    }
}

/// What reading `text` as an unsigned decimal number of at most `max` gives.
pub open spec fn read_unsigned(text: Seq<u8>, max: nat) -> Result<nat, ParseFailure> {
    if text.len() == 0 {
        Err(ParseFailure::Empty)
    } else if digits_of(text).len() == 0 {
        Err(ParseFailure::InvalidDigit)
    } else {
        read_digits(digits_of(text), max)
    }
}

/// Whether `text` is an unsigned decimal numeral: at most one plus sign in
/// front, then at least one digit, and nothing else.
pub open spec fn is_numeral(text: Seq<u8>) -> bool {
    digits_of(text).len() > 0 && all_digits(digits_of(text))
}

/// The number that a numeral denotes.
pub open spec fn numeral_value(text: Seq<u8>) -> nat
    recommends
        is_numeral(text),
{
    decimal_value(digits_of(text))
}

/// Reading digits succeeds exactly on strings of digits whose number is
/// within the maximum, and then gives that number. It fails with an overflow
/// on strings of digits whose number is above the maximum, and reports an
/// invalid digit only where there is one.
pub proof fn lemma_read_digits_meaning(digits: Seq<u8>, max: nat)
    ensures
        read_digits(digits, max) is Ok <==> all_digits(digits) && decimal_value(digits) <= max,
        read_digits(digits, max) matches Ok(value) ==> value == decimal_value(digits),
        all_digits(digits) && decimal_value(digits) > max ==> read_digits(digits, max) == Err::<
            nat,
            ParseFailure,
        >(ParseFailure::Overflow),
        read_digits(digits, max) == Err::<nat, ParseFailure>(ParseFailure::InvalidDigit)
            ==> !all_digits(digits),
        read_digits(digits, max) != Err::<nat, ParseFailure>(ParseFailure::Empty),
    decreases digits.len(),
{
    if digits.len() > 0 {
        let front = digits.drop_last();
        lemma_read_digits_meaning(front, max);
        if all_digits(digits) {
            assert forall|i: int| 0 <= i < front.len() implies is_digit(#[trigger] front[i]) by {
                assert(front[i] == digits[i]);
            }
        }
        if all_digits(front) && is_digit(digits.last()) {
            assert forall|i: int| 0 <= i < digits.len() implies is_digit(#[trigger] digits[i]) by {
                if i < front.len() {
                    assert(front[i] == digits[i]);
                }
            }
        }
    }
}

/// Reading succeeds exactly on numerals whose number is within the maximum,
/// and then gives that number. Text without a byte is reported as empty and
/// nothing else is; a numeral fails only by being too large.
pub proof fn lemma_read_unsigned_meaning(text: Seq<u8>, max: nat)
    ensures
        read_unsigned(text, max) is Ok <==> is_numeral(text) && numeral_value(text) <= max,
        read_unsigned(text, max) matches Ok(value) ==> value == numeral_value(text),
        read_unsigned(text, max) == Err::<nat, ParseFailure>(ParseFailure::Empty) <==> text.len()
            == 0,
        is_numeral(text) && numeral_value(text) > max ==> read_unsigned(text, max) == Err::<
            nat,
            ParseFailure,
        >(ParseFailure::Overflow),
        read_unsigned(text, max) == Err::<nat, ParseFailure>(ParseFailure::InvalidDigit)
            ==> !is_numeral(text),
{
    lemma_read_digits_meaning(digits_of(text), max);
}

/// A failure stays: once a prefix has failed, the whole string fails the
/// same way.
pub proof fn lemma_failure_stays(digits: Seq<u8>, cut: int, max: nat)
    requires
        0 <= cut <= digits.len(),
        read_digits(digits.subrange(0, cut), max) is Err,
    ensures
        read_digits(digits, max) == read_digits(digits.subrange(0, cut), max),
    decreases digits.len() - cut,
{
    if cut == digits.len() {
        assert(digits.subrange(0, cut) == digits);
    } else {
        let front = digits.drop_last();
        assert(front.subrange(0, cut) == digits.subrange(0, cut));
        lemma_failure_stays(front, cut, max);
    }
}

/// Reads `text` as an unsigned decimal number of at most `max`. It succeeds
/// exactly on numerals whose number is within `max`, and fails with what
/// [`read_unsigned`] says of the first byte that cannot be accepted.
pub fn parse_unsigned(text: &str, max: u64) -> (result: Result<u64, ParseFailure>)
    ensures
        (match read_unsigned(text.spec_bytes(), max as nat) {
            Ok(value) => result == Ok::<u64, ParseFailure>(value as u64) && value <= max,
            Err(failure) => result == Err::<u64, ParseFailure>(failure),
        }),
        result is Ok <==> is_numeral(text.spec_bytes()) && numeral_value(text.spec_bytes()) <= max,
        result matches Ok(value) ==> value == numeral_value(text.spec_bytes()),
{
    proof {
        lemma_read_unsigned_meaning(text.spec_bytes(), max as nat);
    }
    let bytes = text.as_bytes();
    let len = bytes.len();
    if len == 0 {
        return Err(ParseFailure::Empty);
    }
    let start: usize = if bytes[0] == PLUS {
        1
    } else {
        0
    };
    if start == len {
        return Err(ParseFailure::InvalidDigit);
    }
    let ghost digits = digits_of(bytes@);
    assert(digits == bytes@.subrange(start as int, len as int));
    let mut value: u64 = 0;
    let mut at: usize = start;
    while at < len
        invariant
            start <= at <= len,
            start < len == bytes@.len(),
            bytes@ == text.spec_bytes(),
            digits == digits_of(bytes@),
            digits == bytes@.subrange(start as int, len as int),
            read_digits(digits.subrange(0, at - start), max as nat) == Ok::<nat, ParseFailure>(
                value as nat,
            ),
            value <= max,
        decreases len - at,
    {
        let byte = bytes[at];
        let ghost prefix = digits.subrange(0, at - start + 1);
        proof {
            assert(prefix.drop_last() == digits.subrange(0, at - start));
            assert(prefix.last() == byte);
        }
        if byte < ZERO || byte > NINE {
            proof {
                lemma_failure_stays(digits, at - start + 1, max as nat);
                lemma_read_unsigned_meaning(text.spec_bytes(), max as nat);
            }
            return Err(ParseFailure::InvalidDigit);
        }
        let next: u128 = 10 * (value as u128) + ((byte - ZERO) as u128);
        if next > max as u128 {
            proof {
                lemma_failure_stays(digits, at - start + 1, max as nat);
                lemma_read_unsigned_meaning(text.spec_bytes(), max as nat);
            }
            return Err(ParseFailure::Overflow);
        }
        value = next as u64;
        at = at + 1;
    }
    proof {
        assert(digits.subrange(0, len - start) == digits);
    }
    Ok(value)
}

/// Reads `text` as an unsigned decimal number that fits 32 bits.
pub fn parse_u32(text: &str) -> (result: Result<u32, ParseFailure>)
    ensures
        (match read_unsigned(text.spec_bytes(), u32::MAX as nat) {
            Ok(value) => result == Ok::<u32, ParseFailure>(value as u32) && value <= u32::MAX,
            Err(failure) => result == Err::<u32, ParseFailure>(failure),
        }),
        result is Ok <==> is_numeral(text.spec_bytes()) && numeral_value(text.spec_bytes())
            <= u32::MAX,
        result matches Ok(value) ==> value == numeral_value(text.spec_bytes()),
{
    match parse_unsigned(text, u32::MAX as u64) {
        Ok(value) => Ok(value as u32),
        Err(failure) => Err(failure),
    }
}

/// Reads `text` as an unsigned decimal number that fits 64 bits.
pub fn parse_u64(text: &str) -> (result: Result<u64, ParseFailure>)
    ensures
        (match read_unsigned(text.spec_bytes(), u64::MAX as nat) {
            Ok(value) => result == Ok::<u64, ParseFailure>(value as u64) && value <= u64::MAX,
            Err(failure) => result == Err::<u64, ParseFailure>(failure),
        }),
        result is Ok <==> is_numeral(text.spec_bytes()) && numeral_value(text.spec_bytes())
            <= u64::MAX,
        result matches Ok(value) ==> value == numeral_value(text.spec_bytes()),
{
    parse_unsigned(text, u64::MAX)
}

} // verus!

//! Numbers typed into a form.
//!
//! A whole number is a run of decimal digits. An amount is a run of digits
//! that may be followed by a decimal point and one to three further digits;
//! it is read in thousandths, so `"1.5"` is `1_500`. Nothing else is
//! accepted: no sign, no exponent, no surrounding white space.

use vstd::prelude::*;
use crate::text::{chars_of, pieces, split, texts, Separator};

verus! {

/// Why a text is not a number.
#[derive(Debug, Clone, Copy, PartialEq, Eq, Structural)]
pub enum ParseError {
    /// The text is empty.
    Empty,
    /// The text is not made of digits, with at most one decimal point
    /// between digits.
    InvalidCharacter,
    /// The number does not fit.
    TooLarge,
    /// More than three digits follow the decimal point.
    TooPrecise,
}

/// The character is a decimal digit.
pub open spec fn is_digit(c: char) -> bool {
    0x30 <= c as u32 <= 0x39
}

/// The value of a decimal digit.
pub open spec fn digit_value(c: char) -> nat {
    (c as u32 - 0x30) as nat
}

/// Every character of `s` is a decimal digit.
pub open spec fn all_digits(s: Seq<char>) -> bool {
    forall|i: int| 0 <= i < s.len() ==> is_digit(#[trigger] s[i])
}

/// The number that the digits of `s` write in base ten.
pub open spec fn digits_value(s: Seq<char>) -> nat
    decreases s.len(),
{
    if s.len() == 0 {
        0
    } else {
        10 * digits_value(s.drop_last()) + digit_value(s.last())
    }
}

/// What a text means as a whole number.
pub open spec fn whole_number(s: Seq<char>) -> Result<u32, ParseError> {
    if s.len() == 0 {
        Err(ParseError::Empty)
    } else if !all_digits(s) {
        Err(ParseError::InvalidCharacter)
    } else if digits_value(s) > u32::MAX {
        Err(ParseError::TooLarge)
    } else {
        Ok(digits_value(s) as u32)
    }
}

/// The thousandths that one to three digits after the decimal point write.
pub open spec fn fraction_value(s: Seq<char>) -> nat {
    if s.len() == 1 {
        100 * digits_value(s)
    } else if s.len() == 2 {
        10 * digits_value(s)
    } else {
        digits_value(s)
    }
}

/// What a text means as an amount in thousandths.
pub open spec fn amount(s: Seq<char>) -> Result<u64, ParseError> {
    let parts = pieces(s, Separator::Point);
    if s.len() == 0 {
        Err(ParseError::Empty)
    } else if parts.len() > 2 || parts[0].len() == 0 || !all_digits(parts[0]) {
        Err(ParseError::InvalidCharacter)
    } else if parts.len() == 2 && (parts[1].len() == 0 || !all_digits(parts[1])) {
        Err(ParseError::InvalidCharacter)
    } else if parts.len() == 2 && parts[1].len() > 3 {
        Err(ParseError::TooPrecise)
    } else {
        let thousandths = 1000 * digits_value(parts[0]) + if parts.len() == 2 {
            fraction_value(parts[1])
        } else {
            0
        };
        if thousandths > u64::MAX {
            Err(ParseError::TooLarge)
        } else {
            Ok(thousandths as u64)
        }
    }
}

/// What a run of characters is as a number.
pub enum Digits {
    /// Some character is not a digit.
    NotDigits,
    /// The digits write a number above `u64::MAX`.
    TooLarge,
    /// The digits write this number.
    Value(u64),
}

/// One more digit never lowers the value.
proof fn lemma_digits_value_grows(s: Seq<char>)
    requires
        s.len() > 0,
    ensures
        digits_value(s) >= digits_value(s.drop_last()),
{
}

/// Reads a run of characters as a number in base ten.
pub fn read_digits(chars: &Vec<char>) -> (result: Digits)
    ensures
        result == if !all_digits(chars@) {
            Digits::NotDigits
        } else if digits_value(chars@) > u64::MAX {
            Digits::TooLarge
        } else {
            Digits::Value(digits_value(chars@) as u64)
        },
{
    let mut value: u64 = 0;
    let mut fits: bool = true;
    let mut k: usize = 0;
    assert(chars@.take(0) =~= Seq::<char>::empty());
    while k < chars.len()
        invariant
            k <= chars.len(),
            all_digits(chars@.take(k as int)),
            fits ==> value == digits_value(chars@.take(k as int)),
            !fits ==> digits_value(chars@.take(k as int)) > u64::MAX,
        decreases chars.len() - k,
    {
        let c: char = chars[k];
        let code: u32 = c as u32;
        if code < 0x30 || code > 0x39 {
            assert(!is_digit(chars@[k as int]));
            return Digits::NotDigits;
        }
        let digit: u64 = (code - 0x30) as u64;
        proof {
            let longer = chars@.take(k + 1);
            assert(longer.drop_last() =~= chars@.take(k as int));
            assert(longer.last() == c);
            lemma_digits_value_grows(longer);
            assert forall|i: int| 0 <= i < longer.len() implies is_digit(#[trigger] longer[i]) by {
                if i < k {
                    assert(chars@.take(k as int)[i] == longer[i]);
                }
            }
        }
        if fits {
            if value > (u64::MAX - digit) / 10 {
                fits = false;
            } else {
                value = value * 10 + digit;
            }
        }
        k = k + 1;
    }
    assert(chars@.take(k as int) =~= chars@);
    if fits {
        Digits::Value(value)
    } else {
        Digits::TooLarge
    }
}

/// Reads a text as a whole number.
pub fn parse_whole_number(text: &str) -> (result: Result<u32, ParseError>)
    ensures
        result == whole_number(text@),
{
    let chars = chars_of(text);
    if chars.len() == 0 {
        return Err(ParseError::Empty);
    }
    match read_digits(&chars) {
        Digits::NotDigits => Err(ParseError::InvalidCharacter),
        Digits::TooLarge => Err(ParseError::TooLarge),
        Digits::Value(value) => {
            if value > 0xFFFF_FFFF {
                Err(ParseError::TooLarge)
            } else {
                Ok(value as u32)
            }
        },
    }
}

/// Three digits write less than a thousand.
proof fn lemma_short_digits_are_small(s: Seq<char>)
    requires
        all_digits(s),
        s.len() <= 3,
    ensures
        s.len() == 0 ==> digits_value(s) == 0,
        s.len() == 1 ==> digits_value(s) <= 9,
        s.len() == 2 ==> digits_value(s) <= 99,
        s.len() == 3 ==> digits_value(s) <= 999,
    decreases s.len(),
{
    if s.len() > 0 {
        assert(is_digit(s[s.len() - 1]));
        assert forall|i: int| 0 <= i < s.drop_last().len() implies is_digit(
            #[trigger] s.drop_last()[i],
        ) by {
            assert(s.drop_last()[i] == s[i]);
        }
        lemma_short_digits_are_small(s.drop_last());
    }
}

/// Reads a text as an amount in thousandths: `"95"` is `95_000`, `"1.5"`
/// is `1_500`.
pub fn parse_amount(text: &str) -> (result: Result<u64, ParseError>)
    ensures
        result == amount(text@),
{
    let parts = split(text, Separator::Point);
    assert(texts(parts@).len() == parts.len());
    proof {
        lemma_pieces_of_empty(text@, Separator::Point);
    }
    if parts.len() == 1 && parts[0].as_str().is_empty() {
        return Err(ParseError::Empty);
    }
    assert(texts(parts@)[0] == parts[0]@);
    if parts.len() > 2 {
        return Err(ParseError::InvalidCharacter);
    }
    let whole_chars = chars_of(parts[0].as_str());
    if whole_chars.len() == 0 {
        return Err(ParseError::InvalidCharacter);
    }
    let whole = read_digits(&whole_chars);
    if let Digits::NotDigits = whole {
        return Err(ParseError::InvalidCharacter);
    }
    let mut fraction: u64 = 0;
    if parts.len() == 2 {
        assert(texts(parts@)[1] == parts[1]@);
        let fraction_chars = chars_of(parts[1].as_str());
        if fraction_chars.len() == 0 {
            return Err(ParseError::InvalidCharacter);
        }
        match read_digits(&fraction_chars) {
            Digits::NotDigits => {
                return Err(ParseError::InvalidCharacter);
            },
            Digits::TooLarge => {
                proof {
                    if fraction_chars.len() <= 3 {
                        lemma_short_digits_are_small(fraction_chars@);
                    }
                }
                return Err(ParseError::TooPrecise);
            },
            Digits::Value(digits) => {
                if fraction_chars.len() > 3 {
                    return Err(ParseError::TooPrecise);
                }
                proof {
                    lemma_short_digits_are_small(fraction_chars@);
                }
                fraction = if fraction_chars.len() == 1 {
                    100 * digits
                } else if fraction_chars.len() == 2 {
                    10 * digits
                } else {
                    digits
                };
            },
        }
    }
    match whole {
        Digits::NotDigits => Err(ParseError::InvalidCharacter),
        Digits::TooLarge => Err(ParseError::TooLarge),
        Digits::Value(units) => {
            if units > (u64::MAX - fraction) / 1000 {
                Err(ParseError::TooLarge)
            } else {
                Ok(units * 1000 + fraction)
            }
        },
    }
}

/// A text has at least one piece, and only the empty text has the one
/// empty piece.
pub proof fn lemma_pieces_of_empty(s: Seq<char>, separator: Separator)
    ensures
        pieces(s, separator).len() >= 1,
        (pieces(s, separator).len() == 1 && pieces(s, separator)[0].len() == 0) <==> s.len() == 0,
    decreases s.len(),
{
    if s.len() > 0 {
        lemma_pieces_of_empty(s.drop_last(), separator);
    }
}

} // verus!

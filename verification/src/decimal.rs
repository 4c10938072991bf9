//! Decimal numbers in strings.

use vstd::prelude::*;
use vstd::string::{StrSliceExecFns, StringExecFns};

verus! {

/// Whether `letter` is one of the digits `0` to `9`.
pub open spec fn is_digit(letter: char) -> bool {
    '0' <= letter <= '9'
}

/// The value of a digit.
pub open spec fn digit_value(letter: char) -> nat {
    (letter as u32 - '0' as u32) as nat
}

/// The digit with the value `value`, which is below 10.
pub open spec fn digit_of(value: nat) -> char {
    if value == 0 {
        '0'
    } else if value == 1 {
        '1'
    } else if value == 2 {
        '2'
    } else if value == 3 {
        '3'
    } else if value == 4 {
        '4'
    } else if value == 5 {
        '5'
    } else if value == 6 {
        '6'
    } else if value == 7 {
        '7'
    } else if value == 8 {
        '8'
    } else {
        '9'
    }
}

/// Whether `text` holds digits only.
pub open spec fn all_digits(text: Seq<char>) -> bool {
    forall|place: int| 0 <= place < text.len() ==> is_digit(#[trigger] text[place])
}

/// The number that a row of digits stands for.
pub open spec fn digits_value(digits: Seq<char>) -> nat
    decreases digits.len(),
{
    if digits.len() == 0 {
        0
    } else {
        digits_value(digits.drop_last()) * 10 + digit_value(digits.last())
    }
}

/// The digits of `text`: what stands behind an optional `+`.
pub open spec fn unsigned_part(text: Seq<char>) -> Seq<char> {
    if text.len() > 0 && text[0] == '+' {
        text.drop_first()
    } else {
        text
    }
}

/// The number that `text` stands for: an optional `+`, then one digit or more,
/// whose value fits the machine word. Any other text stands for none.
pub open spec fn spec_parse(text: Seq<char>) -> Option<usize> {
    let digits = unsigned_part(text);
    if digits.len() > 0 && all_digits(digits) && digits_value(digits) <= usize::MAX {
        Some(digits_value(digits) as usize)
    } else {
        None
    }
}

/// The decimal digits of `number`, without leading zeros.
pub open spec fn spec_decimal(number: nat) -> Seq<char>
    decreases number,
{
    if number < 10 {
        seq![digit_of(number)]
    } else {
        spec_decimal(number / 10).push(digit_of(number % 10))
    }
}

/// The value of a row of digits grows with each digit.
pub proof fn lemma_digits_value_grows(digits: Seq<char>, fewer: int)
    requires
        0 <= fewer <= digits.len(),
    ensures
        digits_value(digits.take(fewer)) <= digits_value(digits),
    decreases digits.len() - fewer,
{
    if fewer < digits.len() {
        lemma_digits_value_grows(digits, fewer + 1);
        assert(digits.take(fewer + 1).drop_last() =~= digits.take(fewer));
    } else {
        assert(digits.take(fewer) =~= digits);
    }
}

/// The decimal digits of a number are digits, and stand for the number.
pub proof fn lemma_decimal(number: nat)
    ensures
        spec_decimal(number).len() > 0,
        all_digits(spec_decimal(number)),
        digits_value(spec_decimal(number)) == number,
        spec_decimal(number)[0] != '+',
    decreases number,
{
    let digits = spec_decimal(number);
    if number < 10 {
        assert(digits.drop_last() =~= Seq::<char>::empty());
        assert(digits.last() == digit_of(number));
        assert(digits_value(digits.drop_last()) == 0);
    } else {
        lemma_decimal(number / 10);
        assert(digits.drop_last() =~= spec_decimal(number / 10));
        assert(digits.last() == digit_of(number % 10));
    }
}

/// A number that fits the machine word is read back from its decimal digits.
pub proof fn lemma_parse_decimal(number: usize)
    ensures
        spec_parse(spec_decimal(number as nat)) == Some(number),
{
    lemma_decimal(number as nat);
}

/// The text `0` stands for the number 0.
pub proof fn lemma_parse_zero()
    ensures
        spec_parse(seq!['0']) == Some(0usize),
{
    let digits = seq!['0'];
    assert(unsigned_part(digits) == digits);
    assert(digits.drop_last() =~= Seq::<char>::empty());
    assert(digits_value(digits.drop_last()) == 0);
    assert(digits.last() == '0');
}

/// Parse a decimal number.
pub fn parse(text: &str) -> (number: Option<usize>)
    ensures
        number == spec_parse(text@),
{
    let len: usize = text.unicode_len();
    let start: usize = if len > 0 && text.get_char(0) == '+' {
        1
    } else {
        0
    };
    if start == len {
        return None;
    }
    let ghost digits = unsigned_part(text@);
    assert(digits =~= text@.skip(start as int));
    let mut value: usize = 0;
    let mut place: usize = start;
    while place < len
        invariant
            start <= place <= len,
            len == text@.len(),
            digits == text@.skip(start as int),
            digits == unsigned_part(text@),
            all_digits(digits.take(place - start)),
            value == digits_value(digits.take(place - start)),
        decreases len - place,
    {
        let letter: char = text.get_char(place);
        let ghost seen = digits.take(place - start + 1);
        proof {
            assert(seen.drop_last() =~= digits.take(place - start));
            assert(seen.last() == letter);
        }
        if !('0' <= letter && letter <= '9') {
            assert(!all_digits(digits)) by {
                assert(digits[place - start] == letter);
            }
            return None;
        }
        let digit: usize = (letter as u32 - '0' as u32) as usize;
        if value > (usize::MAX - digit) / 10 {
            proof {
                assert(digits_value(seen) > usize::MAX);
                lemma_digits_value_grows(digits, place - start + 1);
            }
            return None;
        }
        value = value * 10 + digit;
        place += 1;
        assert(all_digits(seen)) by {
            assert forall|at: int| 0 <= at < seen.len() implies is_digit(#[trigger] seen[at]) by {
                if at < seen.len() - 1 {
                    assert(seen[at] == digits.take(place - 1 - start)[at]);
                }
            }
        }
    }
    assert(digits.take(len - start) =~= digits);
    Some(value)
}

/// The string of one digit.
fn digit_str(value: usize) -> (digit: &'static str)
    requires
        value < 10,
    ensures
        digit@ == seq![digit_of(value as nat)],
{
    proof {
        reveal_strlit("0");
        reveal_strlit("1");
        reveal_strlit("2");
        reveal_strlit("3");
        reveal_strlit("4");
        reveal_strlit("5");
        reveal_strlit("6");
        reveal_strlit("7");
        reveal_strlit("8");
        reveal_strlit("9");
    }
    let digit = match value {
        0 => "0",
        1 => "1",
        2 => "2",
        3 => "3",
        4 => "4",
        5 => "5",
        6 => "6",
        7 => "7",
        8 => "8",
        _ => "9",
    };
    assert(digit@ =~= seq![digit_of(value as nat)]);
    digit
}

/// Write a number in decimal digits.
pub fn to_decimal(number: usize) -> (text: String)
    ensures
        text@ == spec_decimal(number as nat),
    decreases number,
{
    if number < 10 {
        digit_str(number).to_owned()
    } else {
        let mut text = to_decimal(number / 10);
        text.append(digit_str(number % 10));
        assert(text@ =~= spec_decimal(number as nat));
        text
    }
}

} // verus!

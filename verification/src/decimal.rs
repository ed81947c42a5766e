//! Unsigned decimal numbers as text: an optional `+`, then one or more ASCII
//! digits, with a value that fits the machine word.

use vstd::prelude::*;

verus! {

/// `c` is one of the ASCII digits `0` to `9`.
pub open spec fn is_digit(c: char) -> bool {
    '0' <= c <= '9'
}

/// The number that an ASCII digit stands for.
pub open spec fn digit_value(c: char) -> nat
    recommends
        is_digit(c),
{
    (c as nat - '0' as nat) as nat
}

/// The number that a run of digits stands for, most significant digit first.
pub open spec fn digits_value(digits: Seq<char>) -> nat
    decreases digits.len(),
{
    if digits.len() == 0 {
        0
    } else {
        10 * digits_value(digits.drop_last()) + digit_value(digits.last())
    }
}

/// The text without its leading `+`, if it has one.
pub open spec fn unsigned_digits(text: Seq<char>) -> Seq<char> {
    if text.len() > 0 && text[0] == '+' {
        text.skip(1)
    } else {
        text
    }
}

/// The text is a decimal number: after an optional `+`, at least one
/// character, and digits only.
pub open spec fn is_decimal(text: Seq<char>) -> bool {
    &&& unsigned_digits(text).len() > 0
    &&& forall|i: int|
        0 <= i < unsigned_digits(text).len() ==> is_digit(#[trigger] unsigned_digits(text)[i])
}

/// What parsing `text` as a `usize` gives: its value where it is a decimal
/// number no larger than `usize::MAX`, nothing otherwise.
pub open spec fn parsed(text: Seq<char>) -> Option<usize> {
    if is_decimal(text) && digits_value(unsigned_digits(text)) <= usize::MAX {
        Some(digits_value(unsigned_digits(text)) as usize)
    } else {
        None
    }
}

/// A run of digits is worth at least as much as any of its prefixes.
proof fn lemma_prefix_value(digits: Seq<char>, taken: int)
    requires
        0 <= taken <= digits.len(),
    ensures
        digits_value(digits.take(taken)) <= digits_value(digits),
    decreases digits.len() - taken,
{
    if taken == digits.len() {
        assert(digits.take(taken) =~= digits);
    } else {
        lemma_prefix_value(digits, taken + 1);
        assert(digits.take(taken + 1).drop_last() =~= digits.take(taken));
    }
}

/// Text with a character outside ASCII is no decimal number.
proof fn lemma_decimal_is_ascii(text: Seq<char>)
    requires
        is_decimal(text),
    ensures
        vstd::utf8::is_ascii_chars(text),
{
    let digits = unsigned_digits(text);
    assert forall|i: int| 0 <= i < text.len() implies '\0' <= #[trigger] text[i] <= '\u{7f}' by {
        if digits.len() == text.len() {
            assert(is_digit(digits[i]));
        } else if i > 0 {
            assert(is_digit(digits[i - 1]));
        }
    }
}

/// Parses an unsigned decimal number, as `str::parse::<usize>` does: an
/// optional `+`, then digits only; nothing when the text is empty, holds any
/// other character, or names a number above `usize::MAX`.
pub fn parse_usize(text: &str) -> (value: Option<usize>)
    ensures
        value == parsed(text@),
{
    if !text.is_ascii() {
        proof {
            if is_decimal(text@) {
                lemma_decimal_is_ascii(text@);
            }
        }
        return None;
    }
    let bytes = text.as_bytes();
    let len = bytes.len();
    let start: usize = if len > 0 && bytes[0] == 43u8 {
        1
    } else {
        0
    };
    let ghost digits = unsigned_digits(text@);
    if start == len {
        return None;
    }
    let mut value: usize = 0;
    let mut index: usize = start;
    assert(digits.take(0) =~= Seq::<char>::empty());
    while index < len
        invariant
            start <= index <= len,
            len == bytes@.len(),
            digits.len() == len - start,
            vstd::utf8::is_ascii_chars(digits),
            forall|i: int|
                0 <= i < digits.len() ==> #[trigger] digits[i] as u8 == bytes@[start + i],
            forall|i: int| 0 <= i < index - start ==> is_digit(#[trigger] digits[i]),
            value == digits_value(digits.take(index - start)),
            digits == unsigned_digits(text@),
            digits.len() > 0,
        decreases len - index,
    {
        let byte = bytes[index];
        assert(digits[index - start] as u8 == byte);
        if byte < 48u8 || byte > 57u8 {
            return None;
        }
        let digit: usize = (byte - 48u8) as usize;
        proof {
            let next = digits.take(index - start + 1);
            assert(next.drop_last() =~= digits.take(index - start));
            assert(digits_value(next) == 10 * value + digit);
            lemma_prefix_value(digits, index - start + 1);
        }
        let tens = match value.checked_mul(10) {
            Some(tens) => tens,
            None => {
                return None;
            },
        };
        value = match tens.checked_add(digit) {
            Some(sum) => sum,
            None => {
                return None;
            },
        };
        index += 1;
    }
    assert(digits.take(digits.len() as int) =~= digits);
    Some(value)
}

} // verus!

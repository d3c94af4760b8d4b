//! Reading an unsigned decimal number.

use vstd::prelude::*;
use vstd::string::*;

verus! {

/// The byte of the ASCII character `+`.
const PLUS: u8 = 43;

/// The byte of the ASCII character `0`.
const ZERO: u8 = 48;

/// The byte of the ASCII character `9`.
const NINE: u8 = 57;

/// `c` is one of the ASCII digits `0` to `9`.
pub open spec fn is_digit(c: char) -> bool {
    '0' <= c <= '9'
}

/// What a digit counts for; zero for any other character.
pub open spec fn digit_value(c: char) -> nat {
    if is_digit(c) {
        (c as int - '0' as int) as nat
    } else {
        0
    }
}

/// Every character of `text` is a digit.
pub open spec fn all_digits(text: Seq<char>) -> bool {
    forall|i: int| 0 <= i < text.len() ==> is_digit(#[trigger] text[i])
}

/// The number that a row of digits writes in base ten.
pub open spec fn decimal_value(digits: Seq<char>) -> nat
    decreases digits.len(),
{
    if digits.len() == 0 {
        0
    } else {
        10 * decimal_value(digits.drop_last()) + digit_value(digits.last())
    }
}

/// `text` without the one `+` that may lead it.
pub open spec fn unsigned_part(text: Seq<char>) -> Seq<char> {
    if text.len() > 0 && text[0] == '+' {
        text.skip(1)
    } else {
        text
    }
}

/// The number that `text` writes: an optional `+`, then at least one digit
/// and nothing but digits, the value no larger than `u32::MAX`. Anything
/// else writes no number.
pub open spec fn parsed_u32(text: Seq<char>) -> Option<u32> {
    let digits = unsigned_part(text);
    if digits.len() > 0 && all_digits(digits) && decimal_value(digits) <= u32::MAX {
        Some(decimal_value(digits) as u32)
    } else {
        None
    }
}

/// The first digits of a row never write more than the whole row.
pub proof fn lemma_decimal_value_grows(digits: Seq<char>, n: int)
    requires
        0 <= n <= digits.len(),
    ensures
        decimal_value(digits.take(n)) <= decimal_value(digits),
    decreases digits.len() - n,
{
    if n == digits.len() {
        assert(digits.take(n) =~= digits);
    } else {
        lemma_decimal_value_grows(digits.drop_last(), n);
        assert(digits.drop_last().take(n) =~= digits.take(n));
    }
}

/// Reads `text` as an unsigned decimal number of 32 bits.
pub fn parse_u32(text: &str) -> (value: Option<u32>)
    ensures
        value == parsed_u32(text@),
{
    let ghost digits = unsigned_part(text@);
    if !text.is_ascii() {
        proof {
            let at = choose|i: int| 0 <= i < text@.len() && !('\0' <= #[trigger] text@[i] <= '\u{7f}');
            if text@[0] == '+' {
                assert(digits[at - 1] == text@[at]);
            } else {
                assert(digits[at] == text@[at]);
            }
        }
        return None;
    }
    proof {
        vstd::utf8::is_ascii_chars_encode_utf8(text@);
    }
    let bytes = text.as_bytes();
    let len = bytes.len();
    let start: usize = if len > 0 && bytes[0] == PLUS {
        1
    } else {
        0
    };
    if start == len {
        return None;
    }
    assert(digits =~= text@.skip(start as int));
    let mut total: u64 = 0;
    let mut i: usize = start;
    while i < len
        invariant
            len == text@.len(),
            bytes@.len() == len,
            forall|k: int| 0 <= k < len ==> text@[k] as u8 == #[trigger] bytes@[k],
            forall|k: int| 0 <= k < len ==> '\0' <= #[trigger] text@[k] <= '\u{7f}',
            digits == unsigned_part(text@),
            digits == text@.skip(start as int),
            start <= i <= len,
            all_digits(digits.take(i - start)),
            total == decimal_value(digits.take(i - start)),
            total <= u32::MAX,
        decreases len - i,
    {
        let byte = bytes[i];
        let ghost seen = digits.take(i - start + 1);
        assert(seen.drop_last() =~= digits.take(i - start));
        assert(seen.last() == text@[i as int]);
        if byte < ZERO || byte > NINE {
            assert(!is_digit(digits[i - start]));
            return None;
        }
        total = total * 10 + (byte - ZERO) as u64;
        assert(total == decimal_value(seen));
        if total > u32::MAX as u64 {
            proof {
                lemma_decimal_value_grows(digits, i - start + 1);
            }
            return None;
        }
        i = i + 1;
    }
    assert(digits.take(i - start) =~= digits);
    Some(total as u32)
}

} // verus!

//! Colours as 24-bit integers, and their hexadecimal notation.

use vstd::prelude::*;

verus! {

/// The largest colour: eight bits each of red, green and blue.
pub const MAX_COLOR: u32 = 0xFF_FFFF;

/// The most digits a colour is written with.
pub const MAX_DIGITS: usize = 6;

/// Why a text is not a colour.
#[derive(Clone, Copy, Debug, PartialEq, Eq, Structural)]
pub enum ParseError {
    /// The text holds nothing.
    EmptyColor,
    /// The text holds something other than one to six hexadecimal digits.
    InvalidHex,
}

/// What a hexadecimal digit is worth, in either case.
pub open spec fn hex_digit(c: char) -> Option<u32> {
    if '0' <= c && c <= '9' {
        Some((c as u32 - '0' as u32) as u32)
    } else if 'a' <= c && c <= 'f' {
        Some((c as u32 - 'a' as u32 + 10) as u32)
    } else if 'A' <= c && c <= 'F' {
        Some((c as u32 - 'A' as u32 + 10) as u32)
    } else {
        None
    }
}

/// Every character of `s` is a hexadecimal digit.
pub open spec fn is_hex(s: Seq<char>) -> bool {
    forall|i: int| 0 <= i < s.len() ==> hex_digit(#[trigger] s[i]) is Some
}

/// `s` read as a number in base 16, most significant digit first.
pub open spec fn hex_value(s: Seq<char>) -> nat
    decreases s.len(),
{
    if s.len() == 0 {
        0
    } else {
        16 * hex_value(s.drop_last()) + hex_digit(s.last()).unwrap() as nat
    }
}

/// Sixteen to the power `n`.
pub open spec fn pow16(n: nat) -> nat
    decreases n,
{
    if n == 0 {
        1
    } else {
        16 * pow16((n - 1) as nat)
    }
}

/// `s` is how a colour is written: one to six hexadecimal digits.
pub open spec fn is_color_text(s: Seq<char>) -> bool {
    1 <= s.len() <= MAX_DIGITS && is_hex(s)
}

/// What `parse_color` makes of `raw`.
pub open spec fn parse_color_spec(raw: Seq<char>) -> Result<u32, ParseError> {
    if raw.len() == 0 {
        Err(ParseError::EmptyColor)
    } else if is_color_text(raw) {
        Ok(hex_value(raw) as u32)
    } else {
        Err(ParseError::InvalidHex)
    }
}

/// The colour that is shown for `color`: black cannot be shown and becomes the
/// darkest blue.
pub open spec fn displayable(color: u32) -> u32 {
    if color == 0 {
        1
    } else {
        color
    }
}

/// A number written with `n` hexadecimal digits is below sixteen to the `n`.
pub proof fn lemma_hex_value_bound(s: Seq<char>)
    requires
        is_hex(s),
    ensures
        hex_value(s) < pow16(s.len()),
    decreases s.len(),
{
    if s.len() > 0 {
        lemma_hex_value_bound(s.drop_last());
    }
}

/// Six digits reach exactly the 24-bit colours.
pub proof fn lemma_six_digits_fit()
    ensures
        pow16(MAX_DIGITS as nat) == MAX_COLOR + 1,
{
    reveal_with_fuel(pow16, 7);
}

/// A colour text denotes a 24-bit colour.
pub proof fn lemma_color_text_in_range(s: Seq<char>)
    requires
        is_color_text(s),
    ensures
        hex_value(s) <= MAX_COLOR,
{
    lemma_hex_value_bound(s);
    lemma_pow16_monotonic(s.len(), MAX_DIGITS as nat);
    lemma_six_digits_fit();
}

/// Sixteen to the `n` grows with `n`.
pub proof fn lemma_pow16_monotonic(m: nat, n: nat)
    requires
        m <= n,
    ensures
        pow16(m) <= pow16(n),
    decreases n,
{
    if m < n {
        lemma_pow16_monotonic(m, (n - 1) as nat);
    }
}

/// The worth of `c` as a hexadecimal digit, if it is one.
pub fn to_hex_digit(c: char) -> (d: Option<u32>)
    ensures
        d == hex_digit(c),
{
    if '0' <= c && c <= '9' {
        Some(c as u32 - '0' as u32)
    } else if 'a' <= c && c <= 'f' {
        Some(c as u32 - 'a' as u32 + 10)
    } else if 'A' <= c && c <= 'F' {
        Some(c as u32 - 'A' as u32 + 10)
    } else {
        None
    }
}

/// Reads a colour from one to six hexadecimal digits, in either case.
pub fn parse_color(raw: &str) -> (r: Result<u32, ParseError>)
    ensures
        r == parse_color_spec(raw@),
        r matches Ok(color) ==> color <= MAX_COLOR,
{
    let mut value: u32 = 0;
    let mut count: usize = 0;
    for c in it: raw.chars()
        invariant
            it.seq() == raw@,
            count == it.index(),
            count <= MAX_DIGITS,
            is_hex(raw@.take(count as int)),
            value == hex_value(raw@.take(count as int)),
    {
        let ghost seen = raw@.take(count as int);
        let ghost grown = raw@.take(count + 1);
        assert(grown.drop_last() == seen);
        match to_hex_digit(c) {
            None => {
                return Err(ParseError::InvalidHex);
            },
            Some(d) => {
                if count == MAX_DIGITS {
                    return Err(ParseError::InvalidHex);
                }
                proof {
                    lemma_hex_value_bound(seen);
                    lemma_pow16_monotonic(count as nat, 5);
                    reveal_with_fuel(pow16, 6);
                }
                value = value * 16 + d;
                count = count + 1;
            },
        }
    }
    assert(raw@.take(count as int) == raw@);
    if count == 0 {
        Err(ParseError::EmptyColor)
    } else {
        proof {
            lemma_color_text_in_range(raw@);
        }
        Ok(value)
    }
}

/// Replaces black, which cannot be shown, by the darkest blue.
pub fn displayable_color(color: u32) -> (shown: u32)
    ensures
        shown == displayable(color),
{
    if color == 0 {
        1
    } else {
        color
    }
}

} // verus!

//! Unsigned numbers as decimal text.

use vstd::prelude::*;

verus! {

/// `String::push` appends one character to the text.
pub assume_specification[ String::push ](text: &mut String, c: char)
    ensures
        final(text)@ == old(text)@.push(c),
;

/// The character of a decimal digit.
pub open spec fn digit(d: nat) -> char
    recommends
        d < 10,
{
    (('0' as u8) + d) as char
}

/// A number in decimal: its digits from the most significant to the least,
/// without leading zeros, and `0` for zero.
pub open spec fn decimal_text(n: nat) -> Seq<char>
    decreases n,
{
    if n < 10 {
        seq![digit(n)]
    } else {
        decimal_text(n / 10).push(digit(n % 10))
    }
}

fn digit_char(d: u8) -> (c: char)
    requires
        d < 10,
    ensures
        c == digit(d as nat),
{
    (48u8 + d) as char
}

/// Writes a number in decimal.
pub fn decimal(n: u128) -> (text: String)
    ensures
        text@ == decimal_text(n as nat),
    decreases n,
{
    if n < 10 {
        let mut text = String::new();
        text.push(digit_char(n as u8));
        text
    } else {
        let mut text = decimal(n / 10);
        text.push(digit_char((n % 10) as u8));
        text
    }
}

} // verus!

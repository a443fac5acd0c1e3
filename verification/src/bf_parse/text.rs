//! Numbers as text: the decimal forms in which the machine's state is shown.

use vstd::prelude::*;

verus! {

/// `String::push` of std: the string afterwards is the string before with
/// `symbol` added at its end.
pub assume_specification[ String::push ](text: &mut String, symbol: char)
    ensures
        final(text)@ == old(text)@.push(symbol),
;

/// The character for the decimal digit `d`.
pub open spec fn digit(d: int) -> char {
    (48 + d) as char
}

/// `n` in decimal, without leading zeros.
pub open spec fn decimal(n: nat) -> Seq<char>
    decreases n,
{
    if n < 10 {
        seq![digit(n as int)]
    } else {
        decimal(n / 10).push(digit((n % 10) as int))
    }
}

/// A number below 1000 in exactly three decimal digits, with zeros in front
/// where needed.
pub open spec fn padded3(n: int) -> Seq<char> {
    seq![digit(n / 100), digit(n / 10 % 10), digit(n % 10)]
}

/// A number below 100000 in exactly five decimal digits, with zeros in front
/// where needed.
pub open spec fn padded5(n: int) -> Seq<char> {
    seq![
        digit(n / 10000),
        digit(n / 1000 % 10),
        digit(n / 100 % 10),
        digit(n / 10 % 10),
        digit(n % 10),
    ]
}

/// The numbers of `items` in decimal, each but the last followed by a comma
/// and a space.
pub open spec fn listed(items: Seq<int>) -> Seq<char>
    decreases items.len(),
{
    if items.len() == 0 {
        Seq::empty()
    } else if items.len() == 1 {
        decimal(items[0] as nat)
    } else {
        listed(items.drop_last()) + ", "@ + decimal(items.last() as nat)
    }
}

/// The character for a decimal digit.
fn digit_char(d: u8) -> (symbol: char)
    requires
        d < 10,
    ensures
        symbol == digit(d as int),
{
    (48 + d) as char
}

/// Appends `n` in decimal, without leading zeros.
pub fn push_decimal(text: &mut String, n: u16)
    ensures
        final(text)@ == old(text)@ + decimal(n as nat),
    decreases n,
{
    if n >= 10 {
        push_decimal(text, n / 10);
    }
    text.push(digit_char((n % 10) as u8));
}

/// Appends a byte in three decimal digits.
pub fn push_padded3(text: &mut String, n: u8)
    ensures
        final(text)@ == old(text)@ + padded3(n as int),
{
    text.push(digit_char(n / 100));
    text.push(digit_char(n / 10 % 10));
    text.push(digit_char(n % 10));
}

/// Appends a 16-bit number in five decimal digits.
pub fn push_padded5(text: &mut String, n: u16)
    ensures
        final(text)@ == old(text)@ + padded5(n as int),
{
    text.push(digit_char((n / 10000) as u8));
    text.push(digit_char((n / 1000 % 10) as u8));
    text.push(digit_char((n / 100 % 10) as u8));
    text.push(digit_char((n / 10 % 10) as u8));
    text.push(digit_char((n % 10) as u8));
}

} // verus!

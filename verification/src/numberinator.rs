//! A named counter, and the line of text that describes it.

use vstd::prelude::*;

verus! {

/// The character for one decimal digit.
pub open spec fn digit(d: int) -> char
    recommends
        0 <= d < 10,
{
    if d == 0 {
        '0'
    } else if d == 1 {
        '1'
    } else if d == 2 {
        '2'
    } else if d == 3 {
        '3'
    } else if d == 4 {
        '4'
    } else if d == 5 {
        '5'
    } else if d == 6 {
        '6'
    } else if d == 7 {
        '7'
    } else if d == 8 {
        '8'
    } else {
        '9'
    }
}

/// The decimal digits of a natural number, most significant first, without
/// leading zeros.
pub open spec fn decimal_nat(n: nat) -> Seq<char>
    decreases n,
{
    if n < 10 {
        seq![digit(n as int)]
    } else {
        decimal_nat(n / 10).push(digit((n % 10) as int))
    }
}

/// An integer written in decimal, with a leading `-` when it is negative.
pub open spec fn decimal(n: int) -> Seq<char> {
    if n < 0 {
        seq!['-'] + decimal_nat((-n) as nat)
    } else {
        decimal_nat(n as nat)
    }
}

/// The line that describes a counter with the given number and name.
pub open spec fn display_text(number: int, name: Seq<char>) -> Seq<char> {
    "Number: "@ + decimal(number) + ", Name: "@ + name
}

/// A number that can be stepped upwards, and a name that goes with it.
pub struct Numberinator {
    pub number: i32,
    pub name: String,
}

fn digit_text(d: u32) -> (text: &'static str)
    requires
        d < 10,
    ensures
        text@ == seq![digit(d as int)],
{
    proof {
        reveal_strlit("0");
        reveal_strlit("1");
        reveal_strlit("2");
        reveal_strlit("3");
        reveal_strlit("4");
        reveal_strlit("5");
        reveal_strlit("6");
        reveal_strlit("7");
        reveal_strlit("8");
        reveal_strlit("9");
    }
    let text = if d == 0 {
        "0"
    } else if d == 1 {
        "1"
    } else if d == 2 {
        "2"
    } else if d == 3 {
        "3"
    } else if d == 4 {
        "4"
    } else if d == 5 {
        "5"
    } else if d == 6 {
        "6"
    } else if d == 7 {
        "7"
    } else if d == 8 {
        "8"
    } else {
        "9"
    };
    assert(text@ =~= seq![digit(d as int)]);
    text
}

fn append_decimal(text: &mut String, magnitude: u32)
    ensures
        final(text)@ == old(text)@ + decimal_nat(magnitude as nat),
    decreases magnitude,
{
    if magnitude >= 10 {
        append_decimal(text, magnitude / 10);
    }
    text.append(digit_text(magnitude % 10));
    assert(final(text)@ =~= old(text)@ + decimal_nat(magnitude as nat));
}

fn decimal_string(n: i32) -> (text: String)
    ensures
        text@ == decimal(n as int),
{
    let mut text = String::new();
    if n < 0 {
        proof {
            reveal_strlit("-");
        }
        text.append("-");
        assert(text@ =~= seq!['-']);
        let magnitude: u32 = (-(n as i64)) as u32;
        append_decimal(&mut text, magnitude);
    } else {
        append_decimal(&mut text, n as u32);
        assert(text@ =~= decimal(n as int));
    }
    text
}

impl Numberinator {
    /// A counter that starts at `number` and is called `name`.
    pub fn new(number: i32, name: String) -> (made: Self)
        ensures
            made.number == number,
            made.name == name,
    {
        Numberinator { number, name }
    }

    /// The line that describes this counter: its number in decimal, then its name.
    pub fn display(&self) -> (line: String)
        ensures
            line@ == display_text(self.number as int, self.name@),
    {
        let mut line = String::from_str("Number: ");
        let number = decimal_string(self.number);
        line.append(number.as_str());
        line.append(", Name: ");
        line.append(self.name.as_str());
        line
    }

    /// Steps the number up by one and leaves the name as it is.
    pub fn increment(&mut self)
        requires
            old(self).number < i32::MAX,
        ensures
            final(self).number == old(self).number + 1,
            final(self).name == old(self).name,
    {
        self.number += 1;
    }
}

} // verus!

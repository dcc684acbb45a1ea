//! The command vocabulary and its textual form.

use vstd::prelude::*;
use vstd::string::*;

verus! {

/// The character of a decimal digit.
pub open spec fn digit_char(d: int) -> char
    recommends
        0 <= d <= 9,
{
    if d == 0 {
        '0'
    } else if d == 1 {
        '1'
    } else if d == 2 {
        '2'
    } else if d == 3 {
        '3'
    } else if d == 4 {
        '4'
    } else if d == 5 {
        '5'
    } else if d == 6 {
        '6'
    } else if d == 7 {
        '7'
    } else if d == 8 {
        '8'
    } else {
        '9'
    }
}

/// The decimal digits of a natural number, most significant first, without
/// leading zeros.
pub open spec fn digits(n: nat) -> Seq<char>
    decreases n,
{
    if n < 10 {
        seq![digit_char(n as int)]
    } else {
        digits(n / 10).push(digit_char((n % 10) as int))
    }
}

/// The decimal form of an integer: a minus sign for a negative one, then the
/// digits of its magnitude.
pub open spec fn decimal(v: int) -> Seq<char> {
    if v < 0 {
        seq!['-'] + digits((-v) as nat)
    } else {
        digits(v as nat)
    }
}

/// The text of one decimal digit.
fn digit_str(d: u32) -> (s: &'static str)
    requires
        d <= 9,
    ensures
        s@ == seq![digit_char(d as int)],
{
    proof {
        reveal_strlit("0");
        reveal_strlit("1");
        reveal_strlit("2");
        reveal_strlit("3");
        reveal_strlit("4");
        reveal_strlit("5");
        reveal_strlit("6");
        reveal_strlit("7");
        reveal_strlit("8");
        reveal_strlit("9");
    }
    let s = match d {
        0 => "0",
        1 => "1",
        2 => "2",
        3 => "3",
        4 => "4",
        5 => "5",
        6 => "6",
        7 => "7",
        8 => "8",
        _ => "9",
    };
    assert(s@ =~= seq![digit_char(d as int)]);
    s
}

/// Appends the decimal digits of `n` to `out`.
fn push_digits(out: &mut String, n: u32)
    ensures
        final(out)@ == old(out)@ + digits(n as nat),
    decreases n,
{
    if n >= 10 {
        push_digits(out, n / 10);
    }
    out.append(digit_str(n % 10));
    assert(out@ =~= old(out)@ + digits(n as nat));
}

/// Appends the decimal form of `v` to `out`.
pub fn push_decimal(out: &mut String, v: i32)
    ensures
        final(out)@ == old(out)@ + decimal(v as int),
{
    if v < 0 {
        proof {
            reveal_strlit("-");
        }
        out.append("-");
        let magnitude: u32 = (-(v as i64)) as u32;
        push_digits(out, magnitude);
        assert(out@ =~= old(out)@ + decimal(v as int));
    } else {
        push_digits(out, v as u32);
    }
}

/// One command for one hero.
#[derive(Debug, Clone, Copy, PartialEq, Eq, Structural)]
pub enum Action {
    /// Walk toward a point.
    Move { x: i32, y: i32 },
    /// Push everything near the hero toward a point.
    Wind { x: i32, y: i32 },
    /// Send the entity `id` toward a point.
    Control { id: i32, x: i32, y: i32 },
    /// Shield the entity `id`.
    Shield { id: i32 },
    /// Do nothing.
    Wait,
}

impl Action {
    /// The line that orders this action.
    pub open spec fn text(self) -> Seq<char> {
        match self {
            Action::Move { x, y } => "MOVE "@ + decimal(x as int) + " "@ + decimal(y as int),
            Action::Wind { x, y } => "SPELL WIND "@ + decimal(x as int) + " "@ + decimal(y as int),
            Action::Control { id, x, y } => "SPELL CONTROL "@ + decimal(id as int) + " "@ + decimal(
                x as int,
            ) + " "@ + decimal(y as int),
            Action::Shield { id } => "SPELL SHIELD "@ + decimal(id as int),
            Action::Wait => "WAIT"@,
        }
    }

    /// Writes the line that orders this action.
    pub fn command(&self) -> (line: String)
        ensures
            line@ == self.text(),
    {
        let mut line = String::new();
        match *self {
            Action::Move { x, y } => {
                line.append("MOVE ");
                push_decimal(&mut line, x);
                line.append(" ");
                push_decimal(&mut line, y);
            },
            Action::Wind { x, y } => {
                line.append("SPELL WIND ");
                push_decimal(&mut line, x);
                line.append(" ");
                push_decimal(&mut line, y);
            },
            Action::Control { id, x, y } => {
                line.append("SPELL CONTROL ");
                push_decimal(&mut line, id);
                line.append(" ");
                push_decimal(&mut line, x);
                line.append(" ");
                push_decimal(&mut line, y);
            },
            Action::Shield { id } => {
                line.append("SPELL SHIELD ");
                push_decimal(&mut line, id);
            },
            Action::Wait => {
                line.append("WAIT");
            },
        }
        assert(line@ =~= self.text());
        line
    }
}

} // verus!

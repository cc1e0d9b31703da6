//! A multiplication problem and the line of text that shows it.

use vstd::prelude::*;
use vstd::string::*;

verus! {

/// One problem of a worksheet: `multiplier x multiplicand`.
#[derive(Clone, Copy, Debug, PartialEq, Eq, Structural)]
pub struct Problem {
    /// The operand drawn afresh for each problem.
    pub multiplier: u8,
    /// The table the problem practises.
    pub multiplicand: u8,
}

/// The character of one decimal digit.
pub open spec fn digit_char(d: int) -> char
    recommends
        0 <= d < 10,
{
    if d == 0 {
        '0'
    } else if d == 1 {
        '1'
    } else if d == 2 {
        '2'
    } else if d == 3 {
        '3'
    } else if d == 4 {
        '4'
    } else if d == 5 {
        '5'
    } else if d == 6 {
        '6'
    } else if d == 7 {
        '7'
    } else if d == 8 {
        '8'
    } else {
        '9'
    }
}

/// The decimal numeral of `n`, without leading zeros.
pub open spec fn decimal(n: nat) -> Seq<char>
    decreases n,
{
    if n < 10 {
        seq![digit_char(n as int)]
    } else {
        decimal(n / 10).push(digit_char((n % 10) as int))
    }
}

/// The text between the two operands.
pub open spec fn times_sign() -> Seq<char> {
    seq![' ', 'x', ' ']
}

/// The text after the operands: the blank the pupil fills in.
pub open spec fn answer_blank() -> Seq<char> {
    seq![' ', '=', ' ', '_', '_', '_']
}

/// The line that shows a problem, such as `7 x 3 = ___`.
pub open spec fn problem_text(multiplier: u8, multiplicand: u8) -> Seq<char> {
    decimal(multiplier as nat) + times_sign() + decimal(multiplicand as nat) + answer_blank()
}

fn digit_str(d: u8) -> (s: &'static str)
    requires
        d < 10,
    ensures
        s@ == seq![digit_char(d as int)],
{
    proof {
        reveal_strlit("0");
        reveal_strlit("1");
        reveal_strlit("2");
        reveal_strlit("3");
        reveal_strlit("4");
        reveal_strlit("5");
        reveal_strlit("6");
        reveal_strlit("7");
        reveal_strlit("8");
        reveal_strlit("9");
    }
    let s = match d {
        0 => "0",
        1 => "1",
        2 => "2",
        3 => "3",
        4 => "4",
        5 => "5",
        6 => "6",
        7 => "7",
        8 => "8",
        _ => "9",
    };
    assert(s@ =~= seq![digit_char(d as int)]);
    s
}

/// Appends the decimal numeral of `n` to `out`.
pub fn push_decimal(out: &mut String, n: u64)
    ensures
        final(out)@ == old(out)@ + decimal(n as nat),
    decreases n,
{
    if n >= 10 {
        push_decimal(out, n / 10);
    }
    out.append(digit_str((n % 10) as u8));
    assert(out@ =~= old(out)@ + decimal(n as nat));
}

impl Problem {
    /// The line of text for this problem.
    pub open spec fn spec_text(self) -> Seq<char> {
        problem_text(self.multiplier, self.multiplicand)
    }

    /// Writes the problem as `<multiplier> x <multiplicand> = ___`, both
    /// operands in decimal.
    pub fn text(&self) -> (line: String)
        ensures
            line@ == self.spec_text(),
    {
        let mut line = String::new();
        push_decimal(&mut line, self.multiplier as u64);
        proof {
            reveal_strlit(" x ");
            reveal_strlit(" = ___");
        }
        line.append(" x ");
        push_decimal(&mut line, self.multiplicand as u64);
        line.append(" = ___");
        assert(line@ =~= self.spec_text());
        line
    }
}

} // verus!

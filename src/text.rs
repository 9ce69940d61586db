use vstd::prelude::*;
use vstd::string::StringExecFns;
use crate::gene::{Coefficient, Gene, Side};

verus! {

/// The decimal digit for `d`, which is below ten.
pub open spec fn digit_char(d: int) -> char {
    if d == 0 {
        '0'
    } else if d == 1 {
        '1'
    } else if d == 2 {
        '2'
    } else if d == 3 {
        '3'
    } else if d == 4 {
        '4'
    } else if d == 5 {
        '5'
    } else if d == 6 {
        '6'
    } else if d == 7 {
        '7'
    } else if d == 8 {
        '8'
    } else {
        '9'
    }
}

/// The decimal digits of `n`, most significant first, without leading zeros.
pub open spec fn digits_text(n: nat) -> Seq<char>
    decreases n,
{
    if n < 10 {
        seq![digit_char(n as int)]
    } else {
        digits_text(n / 10) + seq![digit_char((n % 10) as int)]
    }
}

/// `n` written in decimal, with a minus sign when negative.
pub open spec fn decimal_text(n: int) -> Seq<char> {
    if n < 0 {
        seq!['-'] + digits_text((-n) as nat)
    } else {
        digits_text(n as nat)
    }
}

pub open spec fn side_text(side: Side) -> Seq<char> {
    match side {
        Side::Left => "Left"@,
        Side::Right => "Right"@,
    }
}

pub open spec fn coefficient_text(coefficient: Coefficient) -> Seq<char> {
    match coefficient {
        Coefficient::Excitatory => "Excitatory"@,
        Coefficient::Inhibitory => "Inhibitory"@,
    }
}

/// A gene written out field by field.
pub open spec fn gene_text(gene: Gene) -> Seq<char> {
    "Gene { sensor_side: "@ + side_text(gene.sensor_side) + ", coefficient: "@
        + coefficient_text(gene.coefficient) + ", engine_connection: "@ + side_text(
        gene.engine_connection,
    ) + " }"@
}

fn digit_str(d: u64) -> (r: &'static str)
    requires
        d < 10,
    ensures
        r@ == seq![digit_char(d as int)],
{
    proof {
        reveal_strlit("0");
        reveal_strlit("1");
        reveal_strlit("2");
        reveal_strlit("3");
        reveal_strlit("4");
        reveal_strlit("5");
        reveal_strlit("6");
        reveal_strlit("7");
        reveal_strlit("8");
        reveal_strlit("9");
    }
    if d == 0 {
        "0"
    } else if d == 1 {
        "1"
    } else if d == 2 {
        "2"
    } else if d == 3 {
        "3"
    } else if d == 4 {
        "4"
    } else if d == 5 {
        "5"
    } else if d == 6 {
        "6"
    } else if d == 7 {
        "7"
    } else if d == 8 {
        "8"
    } else {
        "9"
    }
}

fn digits(n: u64) -> (r: String)
    ensures
        r@ == digits_text(n as nat),
    decreases n,
{
    if n < 10 {
        String::from_str(digit_str(n))
    } else {
        let head = digits(n / 10);
        head.concat(digit_str(n % 10))
    }
}

/// `n` written in decimal.
pub fn decimal(n: i64) -> (r: String)
    ensures
        r@ == decimal_text(n as int),
{
    if n < 0 {
        let magnitude = (0 - (n as i128)) as u64;
        let sign = String::from_str("-");
        proof {
            reveal_strlit("-");
        }
        let tail = digits(magnitude);
        sign.concat(tail.as_str())
    } else {
        digits(n as u64)
    }
}

pub fn side_name(side: Side) -> (r: &'static str)
    ensures
        r@ == side_text(side),
{
    match side {
        Side::Left => "Left",
        Side::Right => "Right",
    }
}

pub fn coefficient_name(coefficient: Coefficient) -> (r: &'static str)
    ensures
        r@ == coefficient_text(coefficient),
{
    match coefficient {
        Coefficient::Excitatory => "Excitatory",
        Coefficient::Inhibitory => "Inhibitory",
    }
}

/// `gene` written out field by field.
pub fn describe_gene(gene: &Gene) -> (r: String)
    ensures
        r@ == gene_text(*gene),
{
    let text = String::from_str("Gene { sensor_side: ");
    let text = text.concat(side_name(gene.sensor_side));
    let text = text.concat(", coefficient: ");
    let text = text.concat(coefficient_name(gene.coefficient));
    let text = text.concat(", engine_connection: ");
    let text = text.concat(side_name(gene.engine_connection));
    text.concat(" }")
}

} // verus!

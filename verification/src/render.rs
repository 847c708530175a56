use vstd::prelude::*;
use vstd::string::StringExecFns;

use crate::assemble::OutputEntry;

verus! {

/// The character for one decimal digit.
pub open spec fn digit_char(d: int) -> char {
    if d == 0 {
        '0'
    } else if d == 1 {
        '1'
    } else if d == 2 {
        '2'
    } else if d == 3 {
        '3'
    } else if d == 4 {
        '4'
    } else if d == 5 {
        '5'
    } else if d == 6 {
        '6'
    } else if d == 7 {
        '7'
    } else if d == 8 {
        '8'
    } else {
        '9'
    }
}

/// The decimal rendering of a non-negative integer, most significant
/// digit first, without leading zeros (except for zero itself).
pub open spec fn dec_str(n: int) -> Seq<char>
    decreases n,
{
    if n < 10 {
        seq![digit_char(n)]
    } else {
        dec_str(n / 10) + seq![digit_char(n % 10)]
    }
}

/// The one-character string for a decimal digit.
fn digit_to_str(d: usize) -> (r: &'static str)
    requires
        d < 10,
    ensures
        r@ == seq![digit_char(d as int)],
{
    proof {
        reveal_strlit("0");
        reveal_strlit("1");
        reveal_strlit("2");
        reveal_strlit("3");
        reveal_strlit("4");
        reveal_strlit("5");
        reveal_strlit("6");
        reveal_strlit("7");
        reveal_strlit("8");
        reveal_strlit("9");
    }
    let r = match d {
        0 => "0",
        1 => "1",
        2 => "2",
        3 => "3",
        4 => "4",
        5 => "5",
        6 => "6",
        7 => "7",
        8 => "8",
        _ => "9",
    };
    proof {
        assert(r@ =~= seq![digit_char(d as int)]);
    }
    r
}

/// Renders a number in decimal.
pub fn usize_to_string(n: usize) -> (r: String)
    ensures
        r@ == dec_str(n as int),
    decreases n,
{
    if n < 10 {
        digit_to_str(n).to_owned()
    } else {
        let mut s = usize_to_string(n / 10);
        s.append(digit_to_str(n % 10));
        proof {
            assert(s@ =~= dec_str(n as int));
        }
        s
    }
}

/// What the formatter prints for one output entry: the line text,
/// prefixed with its 1-based line number when numbering is enabled.
pub open spec fn render_spec(e: OutputEntry, number: bool) -> Seq<char> {
    if number {
        dec_str(e.index + 1) + ": "@ + e.text@
    } else {
        e.text@
    }
}

/// Renders one output entry, purely presentational: either the bare
/// text or `<index+1>: <text>`.
pub fn render(entry: &OutputEntry, number: bool) -> (r: String)
    requires
        entry.index < usize::MAX,
    ensures
        r@ == render_spec(*entry, number),
{
    if number {
        let mut s = usize_to_string(entry.index + 1);
        s.append(": ");
        s.append(entry.text.as_str());
        s
    } else {
        entry.text.clone()
    }
}

} // verus!

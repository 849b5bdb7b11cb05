//! Numbers as text, and the file name of a screenshot.

use vstd::prelude::*;
use vstd::string::StringExecFns;
use crate::text::{decimal, digit_char};

verus! {

/// A decimal digit as a text of one character.
fn digit_str(d: u128) -> (s: &'static str)
    requires
        d < 10,
    ensures
        s@ == seq![digit_char(d as nat)],
{
    proof {
        reveal_strlit("0");
        reveal_strlit("1");
        reveal_strlit("2");
        reveal_strlit("3");
        reveal_strlit("4");
        reveal_strlit("5");
        reveal_strlit("6");
        reveal_strlit("7");
        reveal_strlit("8");
        reveal_strlit("9");
    }
    let s = match d {
        0 => "0",
        1 => "1",
        2 => "2",
        3 => "3",
        4 => "4",
        5 => "5",
        6 => "6",
        7 => "7",
        8 => "8",
        _ => "9",
    };
    assert(s@ =~= seq![digit_char(d as nat)]);
    s
}

/// Writes a number in decimal at the end of a text.
pub fn append_decimal(out: &mut String, n: u128)
    ensures
        final(out)@ == old(out)@ + decimal(n as nat),
    decreases n,
{
    if n >= 10 {
        append_decimal(out, n / 10);
    }
    out.append(digit_str(n % 10));
    assert(out@ =~= old(out)@ + decimal(n as nat));
}

/// The start of a screenshot's file name.
pub const SCREENSHOT_PREFIX: &'static str = "./screenshot-";

/// The end of a screenshot's file name.
pub const SCREENSHOT_SUFFIX: &'static str = ".png";

/// The file that a screenshot taken at `time` is saved to: the time is part
/// of the name, so that no screenshot overwrites an earlier one.
pub fn screenshot_path(time: u128) -> (path: String)
    ensures
        path@ == SCREENSHOT_PREFIX@ + decimal(time as nat) + SCREENSHOT_SUFFIX@,
{
    let mut path = SCREENSHOT_PREFIX.to_owned();
    append_decimal(&mut path, time);
    path.append(SCREENSHOT_SUFFIX);
    path
}

} // verus!

//! Terminal color decoration: truecolor escape sequences around a string,
//! with the exact rendered characters pinned down.

use vstd::prelude::*;
use vstd::string::*;

use crate::text::{dec_str, push_u8_dec};

verus! {

/// An RGB color for terminal output.
#[derive(Debug, Clone, Copy)]
pub struct Color {
    pub red: u8,
    pub green: u8,
    pub blue: u8,
}

impl Color {
    pub fn new(r: u8, g: u8, b: u8) -> (c: Color)
        ensures
            c.red == r,
            c.green == g,
            c.blue == b,
    {
        Color { red: r, green: g, blue: b }
    }

    /// The green used for success messages.
    pub fn success() -> (c: Color)
        ensures
            c.red == 166,
            c.green == 227,
            c.blue == 161,
    {
        Color { red: 166, green: 227, blue: 161 }
    }

    /// The yellow used for warnings.
    pub fn warning() -> (c: Color)
        ensures
            c.red == 249,
            c.green == 226,
            c.blue == 175,
    {
        Color { red: 249, green: 226, blue: 175 }
    }

    /// The red used for errors.
    pub fn error() -> (c: Color)
        ensures
            c.red == 243,
            c.green == 139,
            c.blue == 168,
    {
        Color { red: 243, green: 139, blue: 168 }
    }
}

/// The decimal `red;green;blue` core of an escape sequence.
pub open spec fn spec_rgb(c: Color) -> Seq<char> {
    dec_str(c.red as int) + ";"@ + dec_str(c.green as int) + ";"@ + dec_str(c.blue as int)
}

/// `input` wrapped in a foreground truecolor escape and a reset.
pub open spec fn spec_colorize(c: Color, input: Seq<char>) -> Seq<char> {
    "\x1b[38;2;"@ + spec_rgb(c) + "m"@ + input + "\x1b[0m"@
}

/// `input` wrapped in a background truecolor escape and a reset.
pub open spec fn spec_bg_colorize(c: Color, input: Seq<char>) -> Seq<char> {
    "\x1b[48;2;"@ + spec_rgb(c) + "m"@ + input + "\x1b[0m"@
}

/// Wraps `input` in the escape sequence that sets the foreground to
/// `color`, followed by a reset.
pub fn colorize(color: Color, input: &str) -> (r: String)
    ensures
        r@ == spec_colorize(color, input@),
{
    let mut s = String::from_str("\x1b[38;2;");
    push_u8_dec(&mut s, color.red);
    s.append(";");
    push_u8_dec(&mut s, color.green);
    s.append(";");
    push_u8_dec(&mut s, color.blue);
    s.append("m");
    s.append(input);
    s.append("\x1b[0m");
    proof {
        assert(s@ =~= spec_colorize(color, input@));
    }
    s
}

/// Wraps `input` in the escape sequence that sets the background to
/// `color`, followed by a reset.
pub fn bg_colorize(color: Color, input: &str) -> (r: String)
    ensures
        r@ == spec_bg_colorize(color, input@),
{
    let mut s = String::from_str("\x1b[48;2;");
    push_u8_dec(&mut s, color.red);
    s.append(";");
    push_u8_dec(&mut s, color.green);
    s.append(";");
    push_u8_dec(&mut s, color.blue);
    s.append("m");
    s.append(input);
    s.append("\x1b[0m");
    proof {
        assert(s@ =~= spec_bg_colorize(color, input@));
    }
    s
}

} // verus!

//! Text styling: colour names, the style descriptor, and painting text with
//! ANSI escape sequences.
use crate::strings::{lower_of, lowercase, opt_view, same_text};
use ansi_term::{Colour, Style};
use vstd::prelude::*;

verus! {

/// A foreground colour.
#[derive(Clone, Copy, PartialEq, Eq, Structural, Debug)]
pub enum Color {
    Black,
    Red,
    Green,
    Yellow,
    Blue,
    Purple,
    Cyan,
    White,
}

/// What a component asks of the styling: a foreground colour, if any, and
/// whether the text is bold.
#[derive(Clone, Copy, PartialEq, Eq, Structural, Debug)]
pub struct TextStyle {
    pub fg: Option<Color>,
    pub bold: bool,
}

/// The colour a lower-case name stands for.
pub open spec fn colour_named(s: Seq<char>) -> Option<Color> {
    if s == "black"@ {
        Some(Color::Black)
    } else if s == "red"@ {
        Some(Color::Red)
    } else if s == "green"@ {
        Some(Color::Green)
    } else if s == "yellow"@ {
        Some(Color::Yellow)
    } else if s == "blue"@ {
        Some(Color::Blue)
    } else if s == "purple"@ || s == "magenta"@ {
        Some(Color::Purple)
    } else if s == "cyan"@ {
        Some(Color::Cyan)
    } else if s == "white"@ {
        Some(Color::White)
    } else {
        None
    }
}

/// The colour that `name` stands for, compared without regard to case.
pub open spec fn colour_of_name(name: Seq<char>) -> Option<Color> {
    colour_named(lower_of(name))
}

/// The style for an optional colour name and a bold flag; a name that is
/// no colour leaves the colour out.
pub open spec fn resolved_style(color: Option<Seq<char>>, bold: bool) -> TextStyle {
    TextStyle {
        fg: match color {
            Some(n) => colour_of_name(n),
            None => None,
        },
        bold,
    }
}

/// The last digit of the ANSI foreground code of `c` (`3` comes before it).
pub open spec fn fg_digit(c: Color) -> char {
    match c {
        Color::Black => '0',
        Color::Red => '1',
        Color::Green => '2',
        Color::Yellow => '3',
        Color::Blue => '4',
        Color::Purple => '5',
        Color::Cyan => '6',
        Color::White => '7',
    }
}

/// The escape sequence that starts text in style `st`.
pub open spec fn ansi_prefix(st: TextStyle) -> Seq<char> {
    seq!['\x1b', '['] + (if st.bold {
        seq!['1']
    } else {
        Seq::empty()
    }) + match st.fg {
        Some(c) => (if st.bold {
            seq![';']
        } else {
            Seq::empty()
        }) + seq!['3', fg_digit(c)],
        None => Seq::empty(),
    } + seq!['m']
}

/// `text` in style `st`: unchanged for the plain style, else between the
/// style's escape sequence and the reset sequence.
pub open spec fn painted(st: TextStyle, text: Seq<char>) -> Seq<char> {
    if st.fg is None && !st.bold {
        text
    } else {
        ansi_prefix(st) + text + seq!['\x1b', '[', '0', 'm']
    }
}

/// Relies on ansi_term's `Style::paint` and the `Display` of its result:
/// the style's prefix (`ESC [`, `1` for bold, `;` between codes, `3x` for
/// the colour, `m`), the text, and the reset `ESC [0m`; nothing around the
/// text for the plain style.
#[verifier::external_body]
pub(crate) fn paint(st: TextStyle, text: &str) -> (r: String)
    ensures
        r@ == painted(st, text@),
{
    let fg = st.fg.map(|c| match c {
        Color::Black => Colour::Black,
        Color::Red => Colour::Red,
        Color::Green => Colour::Green,
        Color::Yellow => Colour::Yellow,
        Color::Blue => Colour::Blue,
        Color::Purple => Colour::Purple,
        Color::Cyan => Colour::Cyan,
        Color::White => Colour::White,
    });
    Style { foreground: fg, is_bold: st.bold, ..Style::default() }.paint(text).to_string()
}

/// The colour that a lower-case name stands for: `black`, `red`, `green`,
/// `yellow`, `blue`, `purple` or `magenta`, `cyan`, `white`.
pub fn colour_from_lowercase(s: &str) -> (r: Option<Color>)
    ensures
        r == colour_named(s@),
{
    if same_text(s, "black") {
        Some(Color::Black)
    } else if same_text(s, "red") {
        Some(Color::Red)
    } else if same_text(s, "green") {
        Some(Color::Green)
    } else if same_text(s, "yellow") {
        Some(Color::Yellow)
    } else if same_text(s, "blue") {
        Some(Color::Blue)
    } else if same_text(s, "purple") || same_text(s, "magenta") {
        Some(Color::Purple)
    } else if same_text(s, "cyan") {
        Some(Color::Cyan)
    } else if same_text(s, "white") {
        Some(Color::White)
    } else {
        None
    }
}

/// The colour that `name` stands for, in any case; `None` for a name that
/// is no colour.
pub fn parse_colour(name: &str) -> (r: Option<Color>)
    ensures
        r == colour_of_name(name@),
{
    let lower = lowercase(name);
    colour_from_lowercase(lower.as_str())
}

/// The style for an optional colour name and a bold flag.
pub fn style_for(color: &Option<String>, bold: bool) -> (r: TextStyle)
    ensures
        r == resolved_style(opt_view(*color), bold),
{
    let fg = match color {
        Some(n) => parse_colour(n.as_str()),
        None => None,
    };
    TextStyle { fg, bold }
}

} // verus!

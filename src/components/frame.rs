//! Border glyph sets, chosen by a style name.
use crate::layout::{pad, padded};
use crate::strings::{char_string, concat3, opt_view, rule, rule_line, same_text, views};
use crate::style::{paint, painted, TextStyle};
use vstd::prelude::*;

verus! {

/// The glyphs of a frame: four corners, the horizontal and the vertical edge.
#[derive(Clone, Copy, PartialEq, Eq, Structural, Debug)]
pub struct Border {
    pub top_left: char,
    pub top_right: char,
    pub bottom_left: char,
    pub bottom_right: char,
    pub horizontal: char,
    pub vertical: char,
}

pub open spec fn rounded_border() -> Border {
    Border {
        top_left: '╭',
        top_right: '╮',
        bottom_left: '╰',
        bottom_right: '╯',
        horizontal: '─',
        vertical: '│',
    }
}

pub open spec fn square_border() -> Border {
    Border {
        top_left: '┌',
        top_right: '┐',
        bottom_left: '└',
        bottom_right: '┘',
        horizontal: '─',
        vertical: '│',
    }
}

pub open spec fn ascii_border() -> Border {
    Border {
        top_left: '+',
        top_right: '+',
        bottom_left: '+',
        bottom_right: '+',
        horizontal: '-',
        vertical: '|',
    }
}

/// The glyphs for a style name: `rounded`, `square` or `+`; any other name
/// gets the square glyphs.
pub open spec fn border_for(style: Seq<char>) -> Border {
    if style == "rounded"@ {
        rounded_border()
    } else if style == "+"@ {
        ascii_border()
    } else {
        square_border()
    }
}

/// The glyphs for the style name `style`; never fails.
pub fn get_border(style: &str) -> (r: Border)
    ensures
        r == border_for(style@),
{
    if same_text(style, "rounded") {
        Border {
            top_left: '╭',
            top_right: '╮',
            bottom_left: '╰',
            bottom_right: '╯',
            horizontal: '─',
            vertical: '│',
        }
    } else if same_text(style, "+") {
        Border {
            top_left: '+',
            top_right: '+',
            bottom_left: '+',
            bottom_right: '+',
            horizontal: '-',
            vertical: '|',
        }
    } else {
        Border {
            top_left: '┌',
            top_right: '┐',
            bottom_left: '└',
            bottom_right: '┘',
            horizontal: '─',
            vertical: '│',
        }
    }
}

/// The frame style named by an optional setting; without one, a name that
/// selects the square glyphs.
pub open spec fn style_name(style: Option<Seq<char>>) -> Seq<char> {
    match style {
        Some(s) => s,
        None => "plain"@,
    }
}

/// The glyphs for an optional style setting.
pub fn border_of(style: &Option<String>) -> (r: Border)
    ensures
        r == border_for(style_name(opt_view(*style))),
{
    match style {
        Some(s) => get_border(s.as_str()),
        None => get_border("plain"),
    }
}

/// A prompt frame: a top rule `width` wide between corners, the text padded
/// to `width` columns and styled between two vertical edges, and a bottom
/// rule.
pub open spec fn prompt_lines(b: Border, st: TextStyle, text: Seq<char>, width: usize) -> Seq<
    Seq<char>,
> {
    seq![
        rule(b.top_left, b.horizontal, width as nat, b.top_right),
        seq![b.vertical] + painted(st, padded(text, width as nat)) + seq![b.vertical],
        rule(b.bottom_left, b.horizontal, width as nat, b.bottom_right),
    ]
}

/// The lines of a prompt frame around `text`.
pub fn prompt_frame(b: Border, st: TextStyle, text: &str, width: usize) -> (r: Vec<String>)
    ensures
        views(r@) == prompt_lines(b, st, text@, width),
{
    let top = rule_line(b.top_left, b.horizontal, width, b.top_right);
    let body = paint(st, pad(text, width).as_str());
    let edge = char_string(b.vertical);
    let middle = concat3(edge.as_str(), body.as_str(), edge.as_str());
    let bottom = rule_line(b.bottom_left, b.horizontal, width, b.bottom_right);
    let out = vec![top, middle, bottom];
    assert(views(out@) =~= prompt_lines(b, st, text@, width));
    out
}

} // verus!

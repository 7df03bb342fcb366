//! A framed callout for information, warnings and tips.
use crate::components::frame::{border_for, get_border};
use crate::layout::{pad, padded};
use crate::strings::{char_string, concat3, minus, opt_view, owned, rule, rule_line, same_text, views};
use crate::style::{paint, painted, resolved_style, style_for};
use vstd::prelude::*;

verus! {

/// A one-line callout in a frame: an optional icon, the text, an optional
/// colour and boldness, and a frame style.
pub struct Note {
    text: String,
    icon: Option<String>,
    color: Option<String>,
    bold: bool,
    style: String,
    width: usize,
}

/// The settings of a `Note`.
pub struct NoteModel {
    pub text: Seq<char>,
    pub icon: Option<Seq<char>>,
    pub color: Option<Seq<char>>,
    pub bold: bool,
    pub style: Seq<char>,
    pub width: usize,
}

impl View for Note {
    type V = NoteModel;

    closed spec fn view(&self) -> NoteModel {
        NoteModel {
            text: self.text@,
            icon: opt_view(self.icon),
            color: opt_view(self.color),
            bold: self.bold,
            style: self.style@,
            width: self.width,
        }
    }
}

/// The settings after choosing a kind: `info` (an information sign, blue),
/// `warning` (a warning sign, yellow, bold) or `tip` (a light bulb, green);
/// any other kind changes nothing.
pub open spec fn with_kind(m: NoteModel, kind: Seq<char>) -> NoteModel {
    if kind == "info"@ {
        NoteModel { icon: Some("\u{2139}\u{fe0f}"@), color: Some("blue"@), ..m }
    } else if kind == "warning"@ {
        NoteModel { icon: Some("\u{26a0}\u{fe0f}"@), color: Some("yellow"@), bold: true, ..m }
    } else if kind == "tip"@ {
        NoteModel { icon: Some("\u{1f4a1}"@), color: Some("green"@), ..m }
    } else {
        m
    }
}

/// The text of the note, after its icon and a space where it has one.
pub open spec fn note_content(m: NoteModel) -> Seq<char> {
    match m.icon {
        Some(i) => i + seq![' '] + m.text,
        None => m.text,
    }
}

/// The rendered note, `width` columns wide: a top rule, the content padded
/// to `width - 4` columns and styled, between a vertical edge and a space
/// on each side, and a bottom rule.
pub open spec fn note_lines(m: NoteModel) -> Seq<Seq<char>> {
    let b = border_for(m.style);
    let run = minus(m.width, 2) as nat;
    let body = painted(resolved_style(m.color, m.bold), padded(note_content(m), minus(m.width, 4) as nat));
    seq![
        rule(b.top_left, b.horizontal, run, b.top_right),
        seq![b.vertical, ' '] + body + seq![' ', b.vertical],
        rule(b.bottom_left, b.horizontal, run, b.bottom_right),
    ]
}

impl Note {
    /// A note with the given text: rounded frame, 50 columns, no icon, no
    /// colour, not bold.
    pub fn new(text: &str) -> (r: Self)
        ensures
            r@ == (NoteModel {
                text: text@,
                icon: None,
                color: None,
                bold: false,
                style: "rounded"@,
                width: 50,
            }),
    {
        Note {
            text: owned(text),
            icon: None,
            color: None,
            bold: false,
            style: owned("rounded"),
            width: 50,
        }
    }

    /// Applies the icon, colour and boldness of a kind of note.
    pub fn kind(self, kind: &str) -> (r: Self)
        ensures
            r@ == with_kind(self@, kind@),
    {
        if same_text(kind, "info") {
            Note { icon: Some(owned("\u{2139}\u{fe0f}")), color: Some(owned("blue")), ..self }
        } else if same_text(kind, "warning") {
            Note {
                icon: Some(owned("\u{26a0}\u{fe0f}")),
                color: Some(owned("yellow")),
                bold: true,
                ..self
            }
        } else if same_text(kind, "tip") {
            Note { icon: Some(owned("\u{1f4a1}")), color: Some(owned("green")), ..self }
        } else {
            self
        }
    }

    /// Sets the icon.
    pub fn icon(self, icon: &str) -> (r: Self)
        ensures
            r@ == (NoteModel { icon: Some(icon@), ..self@ }),
    {
        Note { icon: Some(owned(icon)), ..self }
    }

    /// Sets the colour by name.
    pub fn color(self, color: &str) -> (r: Self)
        ensures
            r@ == (NoteModel { color: Some(color@), ..self@ }),
    {
        Note { color: Some(owned(color)), ..self }
    }

    /// Sets whether the text is bold.
    pub fn bold(self, bold: bool) -> (r: Self)
        ensures
            r@ == (NoteModel { bold, ..self@ }),
    {
        Note { bold, ..self }
    }

    /// Sets the frame style: `rounded`, `square` or `+`.
    pub fn style(self, style: &str) -> (r: Self)
        ensures
            r@ == (NoteModel { style: style@, ..self@ }),
    {
        Note { style: owned(style), ..self }
    }

    /// Sets the width of the note, frame included.
    pub fn width(self, width: usize) -> (r: Self)
        ensures
            r@ == (NoteModel { width, ..self@ }),
    {
        Note { width, ..self }
    }

    /// The lines of the note, top to bottom.
    pub fn render(&self) -> (r: Vec<String>)
        ensures
            views(r@) == note_lines(self@),
    {
        let b = get_border(self.style.as_str());
        let content = match &self.icon {
            Some(icon) => {
                let space = char_string(' ');
                concat3(icon.as_str(), space.as_str(), self.text.as_str())
            },
            None => owned(self.text.as_str()),
        };
        let st = style_for(&self.color, self.bold);
        let body = paint(st, pad(content.as_str(), self.width.saturating_sub(4)).as_str());
        let run = self.width.saturating_sub(2);
        let top = rule_line(b.top_left, b.horizontal, run, b.top_right);
        let mut left = char_string(b.vertical);
        left.append(" ");
        let mut right = char_string(' ');
        let edge = char_string(b.vertical);
        right.append(edge.as_str());
        proof {
            reveal_strlit(" ");
        }
        assert(content@ == note_content(self@));
        assert(left@ =~= seq![b.vertical, ' ']);
        assert(right@ =~= seq![' ', b.vertical]);
        let middle = concat3(left.as_str(), body.as_str(), right.as_str());
        let bottom = rule_line(b.bottom_left, b.horizontal, run, b.bottom_right);
        let out = vec![top, middle, bottom];
        assert(views(out@) =~= note_lines(self@));
        out
    }
}

} // verus!

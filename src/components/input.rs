//! A question with a free-text answer, in a frame.
use crate::components::frame::{border_for, border_of, prompt_frame, prompt_lines, style_name};
use crate::layout::{trim, trimmed};
use crate::strings::{opt_view, owned, views};
use crate::style::{resolved_style, style_for};
use vstd::prelude::*;

verus! {

/// A question with a free-text answer: its label, the answer an empty reply
/// gives, whether the reply is masked, the styling and the frame.
pub struct Input {
    label: String,
    default: Option<String>,
    color: Option<String>,
    bold: bool,
    mask: bool,
    style: Option<String>,
    width: usize,
}

/// The settings of an `Input`.
pub struct InputModel {
    pub label: Seq<char>,
    pub default: Option<Seq<char>>,
    pub color: Option<Seq<char>>,
    pub bold: bool,
    pub mask: bool,
    pub style: Option<Seq<char>>,
    pub width: usize,
}

impl View for Input {
    type V = InputModel;

    closed spec fn view(&self) -> InputModel {
        InputModel {
            label: self.label@,
            default: opt_view(self.default),
            color: opt_view(self.color),
            bold: self.bold,
            mask: self.mask,
            style: opt_view(self.style),
            width: self.width,
        }
    }
}

/// The answer for a reply: a masked reply as it came, another one trimmed;
/// an empty one gives the default, or the empty string.
pub open spec fn input_answer(m: InputModel, reply: Seq<char>) -> Seq<char> {
    let v = if m.mask {
        reply
    } else {
        trimmed(reply)
    };
    if v.len() == 0 {
        match m.default {
            Some(d) => d,
            None => Seq::empty(),
        }
    } else {
        v
    }
}

/// The question's frame around the label.
pub open spec fn input_lines(m: InputModel) -> Seq<Seq<char>> {
    prompt_lines(border_for(style_name(m.style)), resolved_style(m.color, m.bold), m.label, m.width)
}

impl Input {
    /// A question with the given label: no default, no colour, not bold,
    /// not masked, rounded frame, 40 columns.
    pub fn new(label: &str) -> (r: Self)
        ensures
            r@ == (InputModel {
                label: label@,
                default: None,
                color: None,
                bold: false,
                mask: false,
                style: Some("rounded"@),
                width: 40,
            }),
    {
        Input {
            label: owned(label),
            default: None,
            color: None,
            bold: false,
            mask: false,
            style: Some(owned("rounded")),
            width: 40,
        }
    }

    /// Sets the answer of an empty reply.
    pub fn default(self, value: &str) -> (r: Self)
        ensures
            r@ == (InputModel { default: Some(value@), ..self@ }),
    {
        Input { default: Some(owned(value)), ..self }
    }

    /// Sets the colour of the label by name.
    pub fn color(self, color: &str) -> (r: Self)
        ensures
            r@ == (InputModel { color: Some(color@), ..self@ }),
    {
        Input { color: Some(owned(color)), ..self }
    }

    /// Sets whether the label is bold.
    pub fn bold(self, bold: bool) -> (r: Self)
        ensures
            r@ == (InputModel { bold, ..self@ }),
    {
        Input { bold, ..self }
    }

    /// Sets whether the reply is read without echo.
    pub fn mask(self, mask: bool) -> (r: Self)
        ensures
            r@ == (InputModel { mask, ..self@ }),
    {
        Input { mask, ..self }
    }

    /// Sets the frame style.
    pub fn style(self, style: &str) -> (r: Self)
        ensures
            r@ == (InputModel { style: Some(style@), ..self@ }),
    {
        Input { style: Some(owned(style)), ..self }
    }

    /// Sets the width inside the frame.
    pub fn width(self, width: usize) -> (r: Self)
        ensures
            r@ == (InputModel { width, ..self@ }),
    {
        Input { width, ..self }
    }

    /// Whether the reply is read without echo.
    pub fn is_masked(&self) -> (r: bool)
        ensures
            r == self@.mask,
    {
        self.mask
    }

    /// The lines of the question's frame, top to bottom.
    pub fn render(&self) -> (r: Vec<String>)
        ensures
            views(r@) == input_lines(self@),
    {
        let b = border_of(&self.style);
        let st = style_for(&self.color, self.bold);
        prompt_frame(b, st, self.label.as_str(), self.width)
    }

    /// The answer for a reply as it was read.
    pub fn answer(&self, reply: &str) -> (r: String)
        ensures
            r@ == input_answer(self@, reply@),
    {
        let v = if self.mask {
            owned(reply)
        } else {
            trim(reply)
        };
        if v.unicode_len() == 0 {
            match &self.default {
                Some(d) => owned(d.as_str()),
                None => String::new(),
            }
        } else {
            v
        }
    }
}

} // verus!

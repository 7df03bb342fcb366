//! A yes/no question in a frame.
use crate::components::frame::{border_for, border_of, prompt_frame, prompt_lines, style_name};
use crate::layout::{trim, trimmed};
use crate::strings::{concat3, lower_of, lowercase, opt_view, owned, same_text, views};
use crate::style::{resolved_style, style_for};
use vstd::prelude::*;

verus! {

/// A yes/no question: its label, the answer an empty reply gives, the
/// styling of the label and the frame.
pub struct Confirm {
    label: String,
    default: Option<bool>,
    color: Option<String>,
    bold: bool,
    style: Option<String>,
    width: usize,
}

/// The settings of a `Confirm`.
pub struct ConfirmModel {
    pub label: Seq<char>,
    pub default: Option<bool>,
    pub color: Option<Seq<char>>,
    pub bold: bool,
    pub style: Option<Seq<char>>,
    pub width: usize,
}

impl View for Confirm {
    type V = ConfirmModel;

    closed spec fn view(&self) -> ConfirmModel {
        ConfirmModel {
            label: self.label@,
            default: self.default,
            color: opt_view(self.color),
            bold: self.bold,
            style: opt_view(self.style),
            width: self.width,
        }
    }
}

/// The answer of an empty reply, or of no reply at all: the default, else no.
pub open spec fn fallback(m: ConfirmModel) -> bool {
    match m.default {
        Some(d) => d,
        None => false,
    }
}

/// What a trimmed, lower-case reply means: `y` or `yes` is yes, `n` or `no`
/// is no, an empty reply is the fallback; anything else is no answer, and
/// the question is asked again.
pub open spec fn decision(m: ConfirmModel, s: Seq<char>) -> Option<bool> {
    if s == "y"@ || s == "yes"@ {
        Some(true)
    } else if s == "n"@ || s == "no"@ {
        Some(false)
    } else if s.len() == 0 {
        Some(fallback(m))
    } else {
        None
    }
}

/// The question's frame: the label followed by ` (y/n)`.
pub open spec fn confirm_lines(m: ConfirmModel) -> Seq<Seq<char>> {
    prompt_lines(
        border_for(style_name(m.style)),
        resolved_style(m.color, m.bold),
        m.label + " (y/n)"@,
        m.width,
    )
}

impl Confirm {
    /// A question with the given label: no default, no colour, not bold,
    /// rounded frame, 40 columns.
    pub fn new(label: &str) -> (r: Self)
        ensures
            r@ == (ConfirmModel {
                label: label@,
                default: None,
                color: None,
                bold: false,
                style: Some("rounded"@),
                width: 40,
            }),
    {
        Confirm {
            label: owned(label),
            default: None,
            color: None,
            bold: false,
            style: Some(owned("rounded")),
            width: 40,
        }
    }

    /// Sets the answer of an empty reply.
    pub fn default(self, value: bool) -> (r: Self)
        ensures
            r@ == (ConfirmModel { default: Some(value), ..self@ }),
    {
        Confirm { default: Some(value), ..self }
    }

    /// Sets the colour of the label by name.
    pub fn color(self, color: &str) -> (r: Self)
        ensures
            r@ == (ConfirmModel { color: Some(color@), ..self@ }),
    {
        Confirm { color: Some(owned(color)), ..self }
    }

    /// Sets whether the label is bold.
    pub fn bold(self, bold: bool) -> (r: Self)
        ensures
            r@ == (ConfirmModel { bold, ..self@ }),
    {
        Confirm { bold, ..self }
    }

    /// Sets the frame style.
    pub fn style(self, style: &str) -> (r: Self)
        ensures
            r@ == (ConfirmModel { style: Some(style@), ..self@ }),
    {
        Confirm { style: Some(owned(style)), ..self }
    }

    /// Sets the width inside the frame.
    pub fn width(self, width: usize) -> (r: Self)
        ensures
            r@ == (ConfirmModel { width, ..self@ }),
    {
        Confirm { width, ..self }
    }

    /// The lines of the question's frame, top to bottom.
    pub fn render(&self) -> (r: Vec<String>)
        ensures
            views(r@) == confirm_lines(self@),
    {
        let b = border_of(&self.style);
        let st = style_for(&self.color, self.bold);
        let empty = String::new();
        let text = concat3(self.label.as_str(), " (y/n)", empty.as_str());
        assert(text@ =~= self@.label + " (y/n)"@);
        prompt_frame(b, st, text.as_str(), self.width)
    }

    /// What a reply that is already trimmed and in lower case means.
    pub fn decide(&self, reply: &str) -> (r: Option<bool>)
        ensures
            r == decision(self@, reply@),
    {
        if same_text(reply, "y") || same_text(reply, "yes") {
            Some(true)
        } else if same_text(reply, "n") || same_text(reply, "no") {
            Some(false)
        } else if reply.unicode_len() == 0 {
            Some(
                match self.default {
                    Some(d) => d,
                    None => false,
                },
            )
        } else {
            None
        }
    }

    /// What a reply means, compared without regard to surrounding white
    /// space or case; `None` for a reply that is no answer. With no reply
    /// at all (the input has ended) the fallback holds.
    pub fn answer(&self, reply: Option<&str>) -> (r: Option<bool>)
        ensures
            r == match reply {
                Some(s) => decision(self@, lower_of(trimmed(s@))),
                None => Some(fallback(self@)),
            },
    {
        match reply {
            Some(s) => {
                let t = trim(s);
                let lower = lowercase(t.as_str());
                self.decide(lower.as_str())
            },
            None => Some(
                match self.default {
                    Some(d) => d,
                    None => false,
                },
            ),
        }
    }
}

} // verus!

//! A short bracketed label, styled.
use crate::strings::{concat3, opt_view, owned, same_text};
use crate::style::{paint, painted, resolved_style, style_for};
use vstd::prelude::*;

verus! {

/// Text in square brackets, with an optional colour and boldness.
pub struct Label {
    text: String,
    color: Option<String>,
    bold: bool,
}

/// The settings of a `Label`.
pub struct LabelModel {
    pub text: Seq<char>,
    pub color: Option<Seq<char>>,
    pub bold: bool,
}

impl View for Label {
    type V = LabelModel;

    closed spec fn view(&self) -> LabelModel {
        LabelModel { text: self.text@, color: opt_view(self.color), bold: self.bold }
    }
}

/// The settings after a preset: `info` (blue, bold), `success` (green) or
/// `error` (red, bold); any other name changes nothing.
pub open spec fn with_preset(m: LabelModel, name: Seq<char>) -> LabelModel {
    if name == "info"@ {
        LabelModel { color: Some("blue"@), bold: true, ..m }
    } else if name == "success"@ {
        LabelModel { color: Some("green"@), ..m }
    } else if name == "error"@ {
        LabelModel { color: Some("red"@), bold: true, ..m }
    } else {
        m
    }
}

/// The label as shown: `[`, the text, `]`, styled.
pub open spec fn label_text(m: LabelModel) -> Seq<char> {
    painted(resolved_style(m.color, m.bold), seq!['['] + m.text + seq![']'])
}

impl Label {
    /// A label with the given text, no colour, not bold.
    pub fn new(text: &str) -> (r: Self)
        ensures
            r@ == (LabelModel { text: text@, color: None, bold: false }),
    {
        Label { text: owned(text), color: None, bold: false }
    }

    /// Sets the colour by name; a name that is no colour leaves the text
    /// uncoloured.
    pub fn color(self, color: &str) -> (r: Self)
        ensures
            r@ == (LabelModel { color: Some(color@), ..self@ }),
    {
        Label { color: Some(owned(color)), ..self }
    }

    /// Sets whether the text is bold.
    pub fn bold(self, bold: bool) -> (r: Self)
        ensures
            r@ == (LabelModel { bold, ..self@ }),
    {
        Label { bold, ..self }
    }

    /// Applies a preset colour and boldness.
    pub fn style(self, style: &str) -> (r: Self)
        ensures
            r@ == with_preset(self@, style@),
    {
        if same_text(style, "info") {
            self.color("blue").bold(true)
        } else if same_text(style, "success") {
            self.color("green")
        } else if same_text(style, "error") {
            self.color("red").bold(true)
        } else {
            self
        }
    }

    /// The label as shown, escape sequences included.
    pub fn inline(&self) -> (r: String)
        ensures
            r@ == label_text(self@),
    {
        let st = style_for(&self.color, self.bold);
        let open = crate::strings::char_string('[');
        let close = crate::strings::char_string(']');
        let text = concat3(open.as_str(), self.text.as_str(), close.as_str());
        paint(st, text.as_str())
    }
}

} // verus!

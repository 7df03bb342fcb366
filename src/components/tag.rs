//! A short tag between a pair of brackets, styled.
use crate::strings::{concat3, opt_view, owned};
use crate::style::{paint, painted, resolved_style, style_for};
use vstd::prelude::*;

verus! {

/// Text between an opening and a closing bracket, with an optional colour
/// and boldness.
pub struct Tag {
    text: String,
    wrapper: (String, String),
    color: Option<String>,
    bold: bool,
}

/// The settings of a `Tag`.
pub struct TagModel {
    pub text: Seq<char>,
    pub open: Seq<char>,
    pub close: Seq<char>,
    pub color: Option<Seq<char>>,
    pub bold: bool,
}

impl View for Tag {
    type V = TagModel;

    closed spec fn view(&self) -> TagModel {
        TagModel {
            text: self.text@,
            open: self.wrapper.0@,
            close: self.wrapper.1@,
            color: opt_view(self.color),
            bold: self.bold,
        }
    }
}

/// The tag as shown: the brackets around the text, styled.
pub open spec fn tag_text(m: TagModel) -> Seq<char> {
    painted(resolved_style(m.color, m.bold), m.open + m.text + m.close)
}

impl Tag {
    /// A tag in square brackets, no colour, not bold.
    pub fn new(text: &str) -> (r: Self)
        ensures
            r@ == (TagModel {
                text: text@,
                open: "["@,
                close: "]"@,
                color: None,
                bold: false,
            }),
    {
        Tag { text: owned(text), wrapper: (owned("["), owned("]")), color: None, bold: false }
    }

    /// Puts the tag in parentheses.
    pub fn rounded(self) -> (r: Self)
        ensures
            r@ == (TagModel { open: "("@, close: ")"@, ..self@ }),
    {
        Tag { wrapper: (owned("("), owned(")")), ..self }
    }

    /// Puts the tag in curly braces.
    pub fn curly(self) -> (r: Self)
        ensures
            r@ == (TagModel { open: "{"@, close: "}"@, ..self@ }),
    {
        Tag { wrapper: (owned("{"), owned("}")), ..self }
    }

    /// Sets the colour by name; a name that is no colour leaves the text
    /// uncoloured.
    pub fn color(self, color: &str) -> (r: Self)
        ensures
            r@ == (TagModel { color: Some(color@), ..self@ }),
    {
        Tag { color: Some(owned(color)), ..self }
    }

    /// Sets whether the text is bold.
    pub fn bold(self, bold: bool) -> (r: Self)
        ensures
            r@ == (TagModel { bold, ..self@ }),
    {
        Tag { bold, ..self }
    }

    /// The tag as shown, escape sequences included.
    pub fn inline(&self) -> (r: String)
        ensures
            r@ == tag_text(self@),
    {
        let st = style_for(&self.color, self.bold);
        let text = concat3(self.wrapper.0.as_str(), self.text.as_str(), self.wrapper.1.as_str());
        paint(st, text.as_str())
    }
}

} // verus!

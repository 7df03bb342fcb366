//! A titled block of text under a rule.
use crate::layout::{framed, push_framed, split_lines, text_lines, wrap_text, wrapped};
use crate::strings::{concat3, owned, repeat_char, repeated, views};
use vstd::prelude::*;

verus! {

/// A title, a rule of a chosen char, and the content padded to the width,
/// split at its line breaks or wrapped to the width.
pub struct Section {
    title: String,
    content: String,
    width: usize,
    style: char,
    wrap: bool,
}

/// The settings of a `Section`.
pub struct SectionModel {
    pub title: Seq<char>,
    pub content: Seq<char>,
    pub width: usize,
    pub style: char,
    pub wrap: bool,
}

impl View for Section {
    type V = SectionModel;

    closed spec fn view(&self) -> SectionModel {
        SectionModel {
            title: self.title@,
            content: self.content@,
            width: self.width,
            style: self.style,
            wrap: self.wrap,
        }
    }
}

/// The content lines: wrapped to the width, or split at line breaks.
pub open spec fn section_body(m: SectionModel) -> Seq<Seq<char>> {
    if m.wrap {
        wrapped(m.content, m.width as nat)
    } else {
        text_lines(m.content)
    }
}

/// The rendered section: the title and a colon, a rule of `width` style
/// chars, then each content line padded to `width` columns.
pub open spec fn section_lines(m: SectionModel) -> Seq<Seq<char>> {
    seq![m.title + seq![':'], repeated(m.style, m.width as nat)] + framed(
        section_body(m),
        Seq::empty(),
        m.width as nat,
        Seq::empty(),
    )
}

impl Section {
    /// A section with the given title, no content, 50 columns wide, a `─`
    /// rule and no wrapping.
    pub fn new(title: &str) -> (r: Self)
        ensures
            r@ == (SectionModel {
                title: title@,
                content: Seq::empty(),
                width: 50,
                style: '─',
                wrap: false,
            }),
    {
        Section { title: owned(title), content: String::new(), width: 50, style: '─', wrap: false }
    }

    /// Sets the content.
    pub fn content(self, text: &str) -> (r: Self)
        ensures
            r@ == (SectionModel { content: text@, ..self@ }),
    {
        Section { content: owned(text), ..self }
    }

    /// Sets the width of the rule and of the content lines.
    pub fn width(self, width: usize) -> (r: Self)
        ensures
            r@ == (SectionModel { width, ..self@ }),
    {
        Section { width, ..self }
    }

    /// Sets the char of the rule.
    pub fn style(self, style: char) -> (r: Self)
        ensures
            r@ == (SectionModel { style, ..self@ }),
    {
        Section { style, ..self }
    }

    /// Sets whether the content is wrapped to the width.
    pub fn wrap(self, wrap: bool) -> (r: Self)
        ensures
            r@ == (SectionModel { wrap, ..self@ }),
    {
        Section { wrap, ..self }
    }

    /// The lines of the section, top to bottom.
    pub fn render(&self) -> (r: Vec<String>)
        ensures
            views(r@) == section_lines(self@),
    {
        let empty = String::new();
        let colon = crate::strings::char_string(':');
        let head = concat3(self.title.as_str(), colon.as_str(), empty.as_str());
        let bar = repeat_char(self.style, self.width);
        let mut out: Vec<String> = vec![head, bar];
        assert(views(out@) =~= seq![self@.title + seq![':'], repeated(self@.style, self@.width as nat)]);
        let ls = if self.wrap {
            wrap_text(self.content.as_str(), self.width)
        } else {
            split_lines(self.content.as_str())
        };
        push_framed(&mut out, &ls, empty.as_str(), self.width, empty.as_str());
        assert(views(out@) =~= section_lines(self@));
        out
    }
}

} // verus!

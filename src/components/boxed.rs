//! A titled box with rounded corners.
use crate::layout::{framed, pad, push_framed, split_lines, text_lines};
use crate::strings::{concat3, minus, owned, rule, rule_line, views};
use vstd::prelude::*;

verus! {

/// A box with a title row, a divider, and one row per line of content.
pub struct Boxed {
    title: String,
    content: String,
    width: usize,
}

/// The settings of a `Boxed`.
pub struct BoxedModel {
    pub title: Seq<char>,
    pub content: Seq<char>,
    pub width: usize,
}

impl View for Boxed {
    type V = BoxedModel;

    closed spec fn view(&self) -> BoxedModel {
        BoxedModel { title: self.title@, content: self.content@, width: self.width }
    }
}

/// The rendered box: a top rule `width` wide between corners, the title
/// row, a divider rule, a row for each content line, a bottom rule. A row
/// is `│ `, the text padded to `width - 2` columns, ` │`.
pub open spec fn boxed_lines(m: BoxedModel) -> Seq<Seq<char>> {
    let inner = minus(m.width, 2) as nat;
    seq![
        rule('╭', '─', m.width as nat, '╮'),
        "│ "@ + crate::layout::padded(m.title, inner) + " │"@,
        rule('├', '─', m.width as nat, '┤'),
    ] + framed(text_lines(m.content), "│ "@, inner, " │"@) + seq![rule('╰', '─', m.width as nat, '╯')]
}

impl Boxed {
    /// A box with the given title, no content, 50 columns wide.
    pub fn new(title: &str) -> (r: Self)
        ensures
            r@ == (BoxedModel { title: title@, content: Seq::empty(), width: 50 }),
    {
        Boxed { title: owned(title), content: String::new(), width: 50 }
    }

    /// Sets the content; each of its lines becomes a row.
    pub fn content(self, text: &str) -> (r: Self)
        ensures
            r@ == (BoxedModel { content: text@, ..self@ }),
    {
        Boxed { content: owned(text), ..self }
    }

    /// Sets the width of the rules between the corners.
    pub fn width(self, width: usize) -> (r: Self)
        ensures
            r@ == (BoxedModel { width, ..self@ }),
    {
        Boxed { width, ..self }
    }

    /// The lines of the box, top to bottom.
    pub fn render(&self) -> (r: Vec<String>)
        ensures
            views(r@) == boxed_lines(self@),
    {
        let inner = self.width.saturating_sub(2);
        let top = rule_line('╭', '─', self.width, '╮');
        let title = pad(self.title.as_str(), inner);
        let head = concat3("│ ", title.as_str(), " │");
        let divider = rule_line('├', '─', self.width, '┤');
        let mut out: Vec<String> = vec![top, head, divider];
        assert(views(out@) =~= seq![top@, head@, divider@]);
        let ls = split_lines(self.content.as_str());
        push_framed(&mut out, &ls, "│ ", inner, " │");
        let bottom = rule_line('╰', '─', self.width, '╯');
        let ghost before = views(out@);
        out.push(bottom);
        assert(views(out@) =~= before.push(bottom@));
        assert(views(out@) =~= boxed_lines(self@));
        out
    }
}

} // verus!

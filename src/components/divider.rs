//! A horizontal rule.
use crate::strings::{repeat_char, repeated};
use vstd::prelude::*;

verus! {

/// A rule of one char repeated across a width.
pub struct Divider {
    width: usize,
    style: char,
}

/// The settings of a `Divider`.
pub struct DividerModel {
    pub width: usize,
    pub style: char,
}

impl View for Divider {
    type V = DividerModel;

    closed spec fn view(&self) -> DividerModel {
        DividerModel { width: self.width, style: self.style }
    }
}

impl Divider {
    /// A rule of `─` chars, `width` long.
    pub fn new(width: usize) -> (r: Self)
        ensures
            r@ == (DividerModel { width, style: '─' }),
    {
        Divider { width, style: '─' }
    }

    /// Sets the char of the rule.
    pub fn style(self, style: char) -> (r: Self)
        ensures
            r@ == (DividerModel { style, ..self@ }),
    {
        Divider { style, ..self }
    }

    /// The rule: `width` copies of the style char.
    pub fn render(&self) -> (r: String)
        ensures
            r@ == repeated(self@.style, self@.width as nat),
    {
        repeat_char(self.style, self.width)
    }
}

} // verus!

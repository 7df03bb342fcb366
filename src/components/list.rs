//! A bulleted or numbered list, optionally wrapped.
use crate::layout::{clamped, display_width, width, wrap_text, wrapped};
use crate::strings::{char_string, concat3, minus, owned, repeat_char, spaces, views};
use vstd::prelude::*;

verus! {

/// Items, each after a bullet or its number, wrapped to a width when one is
/// set; a wrapped item's further lines are indented as wide as its prefix.
pub struct List {
    items: Vec<String>,
    bullet: Option<String>,
    width: Option<usize>,
}

/// The settings of a `List`; no bullet means numbered.
pub struct ListModel {
    pub items: Seq<Seq<char>>,
    pub bullet: Option<Seq<char>>,
    pub width: Option<usize>,
}

impl View for List {
    type V = ListModel;

    closed spec fn view(&self) -> ListModel {
        ListModel {
            items: views(self.items@),
            bullet: crate::strings::opt_view(self.bullet),
            width: self.width,
        }
    }
}

pub open spec fn digit_char(d: nat) -> char {
    if d == 0 {
        '0'
    } else if d == 1 {
        '1'
    } else if d == 2 {
        '2'
    } else if d == 3 {
        '3'
    } else if d == 4 {
        '4'
    } else if d == 5 {
        '5'
    } else if d == 6 {
        '6'
    } else if d == 7 {
        '7'
    } else if d == 8 {
        '8'
    } else {
        '9'
    }
}

/// The decimal digits of `n`.
pub open spec fn decimal(n: nat) -> Seq<char>
    decreases n,
{
    if n < 10 {
        seq![digit_char(n)]
    } else {
        decimal(n / 10) + seq![digit_char(n % 10)]
    }
}

/// The prefix of item `i`: the bullet and a space, or the item's number
/// (counting from 1), a dot and a space.
pub open spec fn item_prefix(m: ListModel, i: int) -> Seq<char> {
    match m.bullet {
        Some(b) => b + seq![' '],
        None => decimal((i + 1) as nat) + seq!['.', ' '],
    }
}

/// The lines of item `i`: wrapped to the width less the prefix's columns
/// where a width is set, else the item whole. The first line follows the
/// prefix; the others follow as many spaces as the prefix has columns.
pub open spec fn item_lines(m: ListModel, i: int) -> Seq<Seq<char>> {
    let p = item_prefix(m, i);
    let pw = clamped(display_width(p));
    let ls = match m.width {
        Some(w) => wrapped(m.items[i], minus(w, pw) as nat),
        None => seq![m.items[i]],
    };
    Seq::new(
        ls.len(),
        |j: int|
            if j == 0 {
                p + ls[j]
            } else {
                spaces(pw as nat) + ls[j]
            },
    )
}

/// The lines of the first `k` items.
pub open spec fn list_lines_upto(m: ListModel, k: nat) -> Seq<Seq<char>>
    decreases k,
{
    if k == 0 {
        Seq::empty()
    } else {
        list_lines_upto(m, (k - 1) as nat) + item_lines(m, k - 1)
    }
}

/// The rendered list.
pub open spec fn list_lines(m: ListModel) -> Seq<Seq<char>> {
    list_lines_upto(m, m.items.len())
}

fn digit(d: usize) -> (c: char)
    requires
        d < 10,
    ensures
        c == digit_char(d as nat),
{
    if d == 0 {
        '0'
    } else if d == 1 {
        '1'
    } else if d == 2 {
        '2'
    } else if d == 3 {
        '3'
    } else if d == 4 {
        '4'
    } else if d == 5 {
        '5'
    } else if d == 6 {
        '6'
    } else if d == 7 {
        '7'
    } else if d == 8 {
        '8'
    } else {
        '9'
    }
}

/// The decimal digits of `n`.
pub fn decimal_string(n: usize) -> (r: String)
    ensures
        r@ == decimal(n as nat),
    decreases n,
{
    if n < 10 {
        char_string(digit(n))
    } else {
        let mut r = decimal_string(n / 10);
        let last = char_string(digit(n % 10));
        r.append(last.as_str());
        r
    }
}

impl List {
    /// A list of the given items, after `•` bullets, not wrapped.
    pub fn new(items: Vec<&str>) -> (r: Self)
        ensures
            r@ == (ListModel {
                items: items@.map_values(|s: &str| s@),
                bullet: Some("•"@),
                width: None,
            }),
    {
        let mut owned_items: Vec<String> = Vec::new();
        let mut i: usize = 0;
        while i < items.len()
            invariant
                i <= items.len(),
                views(owned_items@) == items@.map_values(|s: &str| s@).subrange(0, i as int),
            decreases items.len() - i,
        {
            let ghost prev = views(owned_items@);
            owned_items.push(owned(items[i]));
            assert(views(owned_items@) =~= prev.push(items@[i as int]@));
            assert(items@.map_values(|s: &str| s@).subrange(0, i + 1) =~= prev.push(
                items@[i as int]@,
            ));
            i += 1;
        }
        assert(items@.map_values(|s: &str| s@).subrange(0, i as int) =~= items@.map_values(
            |s: &str| s@,
        ));
        List { items: owned_items, bullet: Some(owned("•")), width: None }
    }

    /// Sets the bullet; the list is no longer numbered.
    pub fn bullet(self, symbol: &str) -> (r: Self)
        ensures
            r@ == (ListModel { bullet: Some(symbol@), ..self@ }),
    {
        List { bullet: Some(owned(symbol)), ..self }
    }

    /// Numbers the items from 1 instead of bullets.
    pub fn numbered(self) -> (r: Self)
        ensures
            r@ == (ListModel { bullet: None, ..self@ }),
    {
        List { bullet: None, ..self }
    }

    /// Sets the width to wrap items at, prefix included.
    pub fn width(self, width: usize) -> (r: Self)
        ensures
            r@ == (ListModel { width: Some(width), ..self@ }),
    {
        List { width: Some(width), ..self }
    }

    /// The prefix of item `i`.
    fn prefix(&self, i: usize) -> (r: String)
        requires
            i < self.items@.len(),
        ensures
            r@ == item_prefix(self@, i as int),
    {
        match &self.bullet {
            Some(b) => {
                let space = char_string(' ');
                concat3(b.as_str(), space.as_str(), String::new().as_str())
            },
            None => {
                let count = self.items.len();
                assert(i + 1 <= count);
                let num = decimal_string(i + 1);
                let dot = char_string('.');
                let space = char_string(' ');
                concat3(num.as_str(), dot.as_str(), space.as_str())
            },
        }
    }

    /// The lines of the list, top to bottom.
    pub fn render(&self) -> (r: Vec<String>)
        ensures
            views(r@) == list_lines(self@),
    {
        let ghost m = self@;
        let mut out: Vec<String> = Vec::new();
        let mut i: usize = 0;
        while i < self.items.len()
            invariant
                m == self@,
                m.items.len() == self.items@.len(),
                i <= self.items.len(),
                views(out@) == list_lines_upto(m, i as nat),
            decreases self.items.len() - i,
        {
            let p = self.prefix(i);
            let pw = width(p.as_str());
            let ls = match self.width {
                Some(w) => wrap_text(self.items[i].as_str(), w.saturating_sub(pw)),
                None => vec![owned(self.items[i].as_str())],
            };
            let indent = repeat_char(' ', pw);
            let ghost want = item_lines(m, i as int);
            let ghost before = views(out@);
            assert(views(ls@) =~= match m.width {
                Some(w) => wrapped(m.items[i as int], minus(w, pw) as nat),
                None => seq![m.items[i as int]],
            });
            let mut j: usize = 0;
            while j < ls.len()
                invariant
                    j <= ls.len(),
                    want == item_lines(m, i as int),
                    want.len() == ls@.len(),
                    forall|k: int|
                        0 <= k < ls@.len() ==> #[trigger] want[k] == (if k == 0 {
                            p@ + ls@[k]@
                        } else {
                            indent@ + ls@[k]@
                        }),
                    views(out@) == before + want.subrange(0, j as int),
                decreases ls.len() - j,
            {
                let empty = String::new();
                let line = if j == 0 {
                    concat3(p.as_str(), ls[j].as_str(), empty.as_str())
                } else {
                    concat3(indent.as_str(), ls[j].as_str(), empty.as_str())
                };
                let ghost prev = views(out@);
                out.push(line);
                assert(views(out@) =~= prev.push(line@));
                assert(want.subrange(0, j + 1) =~= want.subrange(0, j as int).push(want[j as int]));
                j += 1;
            }
            assert(want.subrange(0, j as int) =~= want);
            i += 1;
        }
        out
    }
}

} // verus!

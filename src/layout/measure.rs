//! Display width and padding.
use crate::strings::{concat3, minus, push_repeated, spaces, views};
use crate::unicode::{
    clusters, columns, columns_of, grapheme_clusters, is_printable_ascii, is_printable_ascii_char,
};
use vstd::prelude::*;

verus! {

/// A code point in the symbol and pictograph ranges that terminals draw two
/// columns wide.
pub open spec fn is_emoji_char(c: char) -> bool {
    (0x1F300 <= c as u32 && c as u32 <= 0x1FAFF) || (0x2600 <= c as u32 && c as u32 <= 0x26FF)
}

/// The columns of cluster `g` whose Unicode width is `c`: `c`, except that
/// a single emoji-range code point of width 1 counts two.
pub open spec fn adjusted(g: Seq<char>, c: usize) -> usize {
    if g.len() == 1 && is_emoji_char(g[0]) && c == 1 {
        2
    } else {
        c
    }
}

/// The columns of one grapheme cluster.
pub open spec fn cluster_width(g: Seq<char>) -> nat {
    adjusted(g, columns_of(g)) as nat
}

/// The summed widths of a run of clusters.
pub open spec fn clusters_width(gs: Seq<Seq<char>>) -> nat
    decreases gs.len(),
{
    if gs.len() == 0 {
        0
    } else {
        clusters_width(gs.drop_last()) + cluster_width(gs.last())
    }
}

/// The number of terminal columns that `s` occupies.
pub open spec fn display_width(s: Seq<char>) -> nat {
    clusters_width(grapheme_clusters(s))
}

/// `n`, or `usize::MAX` where `n` does not fit.
pub open spec fn clamped(n: nat) -> usize {
    if n <= usize::MAX {
        n as usize
    } else {
        usize::MAX
    }
}

/// `s` followed by as many spaces as it takes to reach `w` columns.
pub open spec fn padded(s: Seq<char>, w: nat) -> Seq<char> {
    s + spaces(if display_width(s) < w { (w - display_width(s)) as nat } else { 0 })
}

/// Each line of `ls` padded to `inner` columns, between `left` and `right`.
pub open spec fn framed(ls: Seq<Seq<char>>, left: Seq<char>, inner: nat, right: Seq<char>) -> Seq<
    Seq<char>,
> {
    ls.map_values(|l: Seq<char>| left + padded(l, inner) + right)
}

/// Padding keeps the text as it is at the front and adds only spaces: as
/// many as its display width falls short of `w`, none when it is as wide.
pub proof fn lemma_pad_keeps_text(s: Seq<char>, w: nat)
    ensures
        padded(s, w).subrange(0, s.len() as int) == s,
        padded(s, w).len() == s.len() + if display_width(s) < w {
            w - display_width(s)
        } else {
            0
        },
        forall|k: int| s.len() <= k < padded(s, w).len() ==> #[trigger] padded(s, w)[k] == ' ',
{
    assert(padded(s, w).subrange(0, s.len() as int) =~= s);
}

/// Whether the cluster `g` is a single emoji-range code point.
pub fn is_emoji(g: &str) -> (r: bool)
    ensures
        r == (g@.len() == 1 && is_emoji_char(g@[0])),
{
    if g.unicode_len() != 1 {
        return false;
    }
    let code = g.get_char(0) as u32;
    (0x1F300 <= code && code <= 0x1FAFF) || (0x2600 <= code && code <= 0x26FF)
}

/// The columns of cluster `g` whose Unicode width is `columns`.
pub fn adjusted_width(g: &str, columns: usize) -> (r: usize)
    ensures
        r == adjusted(g@, columns),
{
    if is_emoji(g) && columns == 1 {
        2
    } else {
        columns
    }
}

/// The display width of `text`: the sum of its grapheme clusters' widths.
/// Printable ASCII text is as wide as it is long.
pub fn width(text: &str) -> (r: usize)
    ensures
        r == clamped(display_width(text@)),
        is_printable_ascii(text@) ==> r == text@.len(),
{
    let gs = clusters(text);
    let ghost gv = gs@.map_values(|g: String| g@);
    let mut total: usize = 0;
    let mut i: usize = 0;
    while i < gs.len()
        invariant
            i <= gs.len(),
            gv == grapheme_clusters(text@),
            gv.len() == gs@.len(),
            forall|k: int| 0 <= k < gs@.len() ==> gv[k] == (#[trigger] gs@[k])@,
            total == clamped(clusters_width(gv.subrange(0, i as int))),
            is_printable_ascii(text@) ==> gs@.len() == text@.len() && forall|k: int|
                0 <= k < gs@.len() ==> (#[trigger] gs@[k])@ == seq![text@[k]],
            is_printable_ascii(text@) ==> total == i,
        decreases gs.len() - i,
    {
        let g = gs[i].as_str();
        let w = adjusted_width(g, columns(g));
        proof {
            assert(gv.subrange(0, i + 1).drop_last() == gv.subrange(0, i as int));
            assert(w == cluster_width(gv[i as int]));
            if is_printable_ascii(text@) {
                assert(is_printable_ascii_char(text@[i as int]));
                assert(g@ == seq![text@[i as int]]);
            }
        }
        total = total.saturating_add(w);
        i += 1;
    }
    assert(gv.subrange(0, i as int) == gv);
    total
}

/// `text` followed by spaces up to `target` columns; text already as wide
/// as `target` is left as it is.
pub fn pad(text: &str, target: usize) -> (r: String)
    ensures
        r@ == padded(text@, target as nat),
{
    pad_from(text, width(text), target)
}

/// `text`, `used` columns wide, followed by spaces up to `target` columns.
pub fn pad_from(text: &str, used: usize, target: usize) -> (r: String)
    ensures
        r@ == text@ + spaces(minus(target, used) as nat),
{
    let mut r = String::from_str(text);
    push_repeated(&mut r, ' ', target.saturating_sub(used));
    r
}

/// Appends to `out` each line of `ls` padded to `inner` columns, between
/// `left` and `right`.
pub fn push_framed(out: &mut Vec<String>, ls: &Vec<String>, left: &str, inner: usize, right: &str)
    ensures
        views(final(out)@) == views(old(out)@) + framed(views(ls@), left@, inner as nat, right@),
{
    let ghost want = framed(views(ls@), left@, inner as nat, right@);
    let mut i: usize = 0;
    while i < ls.len()
        invariant
            i <= ls.len(),
            want == framed(views(ls@), left@, inner as nat, right@),
            views(out@) == views(old(out)@) + want.subrange(0, i as int),
        decreases ls.len() - i,
    {
        let body = pad(ls[i].as_str(), inner);
        let line = concat3(left, body.as_str(), right);
        let ghost prev = views(out@);
        out.push(line);
        assert(views(out@) =~= prev.push(line@));
        assert(want.subrange(0, i + 1) =~= want.subrange(0, i as int).push(want[i as int]));
        i += 1;
    }
    assert(want.subrange(0, i as int) =~= want);
}

} // verus!

//! What the layout engine takes from the Unicode crates: grapheme clusters
//! and the column count of a string.
use unicode_segmentation::UnicodeSegmentation;
use unicode_width::UnicodeWidthStr;
use vstd::prelude::*;

verus! {

/// A char in `' '..='~'`: printable ASCII.
pub open spec fn is_printable_ascii_char(c: char) -> bool {
    0x20 <= c as u32 && c as u32 <= 0x7e
}

pub open spec fn is_printable_ascii(s: Seq<char>) -> bool {
    forall|i: int| 0 <= i < s.len() ==> is_printable_ascii_char(#[trigger] s[i])
}

/// The extended grapheme clusters of `s`, in order.
pub uninterp spec fn grapheme_clusters(s: Seq<char>) -> Seq<Seq<char>>;

/// The number of terminal columns that the Unicode width tables give `s`.
pub uninterp spec fn columns_of(s: Seq<char>) -> usize;

/// Relies on `UnicodeSegmentation::graphemes(s, true)` for the extended
/// grapheme clusters of `s`. Its source gives every printable ASCII char the
/// category `Any`, and two such chars always break (rule GB999), so each is a
/// cluster of its own.
#[verifier::external_body]
pub(crate) fn clusters(s: &str) -> (r: Vec<String>)
    ensures
        r@.map_values(|g: String| g@) == grapheme_clusters(s@),
        is_printable_ascii(s@) ==> r@.len() == s@.len() && forall|i: int|
            0 <= i < r@.len() ==> (#[trigger] r@[i])@ == seq![s@[i]],
{
    s.graphemes(true).map(String::from).collect()
}

/// Relies on `UnicodeWidthStr::width` for the column count of `s`. Its source
/// counts one column for a printable ASCII char that nothing follows.
#[verifier::external_body]
pub(crate) fn columns(s: &str) -> (r: usize)
    ensures
        r == columns_of(s@),
        s@.len() == 1 && is_printable_ascii_char(s@[0]) ==> r == 1,
{
    UnicodeWidthStr::width(s)
}

} // verus!

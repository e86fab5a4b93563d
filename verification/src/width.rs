//! Display widths of text in terminal columns, as `unicode-width` gives them.

use vstd::prelude::*;

verus! {

/// The columns that the text `s` takes, as `UnicodeWidthStr::width` counts
/// them (grapheme clusters and emoji presentation included).
pub uninterp spec fn text_width(s: Seq<char>) -> usize;

/// The columns that the character `c` takes, as
/// `UnicodeWidthChar::width` gives them; nothing for control characters.
pub uninterp spec fn char_width(c: char) -> Option<usize>;

/// `UnicodeWidthStr::width`. Claimed: the result is `text_width` of `s`.
#[verifier::external_body]
pub(crate) fn str_width(s: &str) -> (w: usize)
    ensures
        w == text_width(s@),
{
    unicode_width::UnicodeWidthStr::width(s)
}

/// `UnicodeWidthChar::width`. Claimed: the result is `char_width` of `c`.
#[verifier::external_body]
pub(crate) fn width_of_char(c: char) -> (w: Option<usize>)
    ensures
        w == char_width(c),
{
    unicode_width::UnicodeWidthChar::width(c)
}

} // verus!

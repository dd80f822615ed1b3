//! Display widths, measured by the `unicode-width` crate.

use unicode_width::{UnicodeWidthChar, UnicodeWidthStr};
use vstd::prelude::*;

verus! {

/// Columns that `c` takes on a terminal, as `UnicodeWidthChar::width` gives them: `None` for a
/// control character.
pub uninterp spec fn char_columns(c: char) -> Option<usize>;

/// Columns that the text `s` takes on a terminal, as `UnicodeWidthStr::width` gives them. This
/// need not be the sum of the columns of its characters.
pub uninterp spec fn str_columns(s: Seq<char>) -> usize;

/// Calls `UnicodeWidthChar::width` on `c`. Nothing is proved of the result: it is only given the
/// name [`char_columns`], which stands for a table lookup that depends on `c` alone.
#[verifier::external_body]
pub(crate) fn char_width(c: char) -> (w: Option<usize>)
    ensures
        w == char_columns(c),
{
    UnicodeWidthChar::width(c)
}

/// Calls `UnicodeWidthStr::width` on `s`. Nothing is proved of the result: it is only given the
/// name [`str_columns`], which stands for a walk over the characters of `s` that depends on them
/// alone.
#[verifier::external_body]
pub(crate) fn str_width(s: &str) -> (w: usize)
    ensures
        w == str_columns(s@),
{
    UnicodeWidthStr::width(s)
}

} // verus!

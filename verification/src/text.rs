//! How much room a text takes on a terminal.

use vstd::prelude::*;

verus! {

/// The columns that a text takes on a terminal.
pub uninterp spec fn display_width(text: Seq<char>) -> nat;

/// The lines into which a text is broken to fit a number of columns.
pub uninterp spec fn wrapped(text: Seq<char>, width: nat) -> Seq<Seq<char>>;

/// Calls `unicode_width::UnicodeWidthStr::width` on the text. The columns
/// it counts are a matter of that crate's tables; this library only gives
/// the count a name.
#[verifier::external_body]
pub(crate) fn text_width(text: &str) -> (width: usize)
    ensures
        width == display_width(text@),
{
    unicode_width::UnicodeWidthStr::width(text)
}

/// Calls `textwrap::wrap` with the text and the width alone, so with that
/// crate's usual options, and hands back the lines as owned strings. Where
/// the lines break is that crate's matter; this library only gives the
/// lines a name.
#[verifier::external_body]
pub(crate) fn wrap_text(text: &str, width: usize) -> (lines: Vec<String>)
    ensures
        lines@.len() == wrapped(text@, width as nat).len(),
        forall|i: int| 0 <= i < lines@.len() ==> (#[trigger] lines@[i])@ == wrapped(text@, width as nat)[i],
{
    textwrap::wrap(text, width).into_iter().map(|line| line.into_owned()).collect()
}

} // verus!

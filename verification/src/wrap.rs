//! Word wrapping, which `textwrap` does.

use vstd::prelude::*;
use textwrap::word_splitters::NoHyphenation;
use textwrap::Options;
use crate::text::texts_of;

verus! {

/// The lines into which `textwrap::wrap` breaks `text` at `width` columns
/// when it may split no word at a hyphen.
pub uninterp spec fn wrapped_lines(text: Seq<char>, width: nat) -> Seq<Seq<char>>;

/// `textwrap::wrap` with `Options::with_word_splitter(width, NoHyphenation)`:
/// the lines it returns, each as a string of its own. What they are is a
/// matter of the text and the width alone.
#[verifier::external_body]
pub(crate) fn wrap_text(text: &str, width: usize) -> (lines: Vec<String>)
    ensures
        texts_of(lines@) == wrapped_lines(text@, width as nat),
{
    let options = Options::with_word_splitter(width, NoHyphenation);
    textwrap::wrap(text, options).into_iter().map(|line| line.into_owned()).collect()
}

} // verus!

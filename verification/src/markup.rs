//! The markup stripper: headings and emphasis marks out, toggle offsets in
//! their place.
//!
//! A heading starts at a `#` and ends with its line; it is bold. A backtick
//! starts or ends a bold span. Both leave the text, and each leaves an
//! offset into the stripped text at which bold toggles.

use vstd::prelude::*;
use crate::text::{as_ints, chars_of, string_of};

verus! {

/// Where the stripper stands with respect to a heading.
#[derive(Clone, Copy, Debug, PartialEq, Eq, Structural)]
pub enum HeadingState {
    /// In no heading.
    Outside,
    /// In a heading, right behind a `#`.
    Prefix,
    /// In a heading, behind its marker.
    Body,
}

/// What one character does: the state it leaves, whether bold toggles at it,
/// and whether it stays in the text.
pub struct Step {
    pub state: HeadingState,
    pub toggles: bool,
    pub keeps: bool,
}

/// What the character `c` does in `state`.
///
/// A `#` opens a heading unless one is open, and leaves the text. A space
/// right behind a `#` leaves the text. A line feed closes an open heading
/// and stays. A backtick toggles and leaves the text.
pub open spec fn step_of(state: HeadingState, c: char) -> Step {
    if c == '#' {
        Step { state: HeadingState::Prefix, toggles: state == HeadingState::Outside, keeps: false }
    } else if state == HeadingState::Outside {
        Step { state: HeadingState::Outside, toggles: c == '`', keeps: c != '`' }
    } else if c == '\n' {
        Step { state: HeadingState::Outside, toggles: true, keeps: true }
    } else if c == '`' {
        Step { state: HeadingState::Body, toggles: true, keeps: false }
    } else {
        Step {
            state: HeadingState::Body,
            toggles: false,
            keeps: !(c == ' ' && state == HeadingState::Prefix),
        }
    }
}

/// A text half stripped: the state, the text kept, and the offsets into it
/// at which bold toggles.
pub struct Stripped {
    pub state: HeadingState,
    pub plain: Seq<char>,
    pub toggles: Seq<int>,
}

/// The first `n` characters of `text`, stripped. A toggle lies at the length
/// that the kept text has when the toggling character comes.
pub open spec fn strip_prefix(text: Seq<char>, n: nat) -> Stripped
    decreases n,
{
    if n == 0 {
        Stripped { state: HeadingState::Outside, plain: Seq::empty(), toggles: Seq::empty() }
    } else {
        let before = strip_prefix(text, (n - 1) as nat);
        let step = step_of(before.state, text[n - 1]);
        Stripped {
            state: step.state,
            plain: if step.keeps {
                before.plain.push(text[n - 1])
            } else {
                before.plain
            },
            toggles: if step.toggles {
                before.toggles.push(before.plain.len() as int)
            } else {
                before.toggles
            },
        }
    }
}

/// `text` without its markup.
pub open spec fn stripped_text(text: Seq<char>) -> Seq<char> {
    strip_prefix(text, text.len()).plain
}

/// The offsets into the stripped text at which bold toggles.
pub open spec fn toggle_offsets(text: Seq<char>) -> Seq<int> {
    strip_prefix(text, text.len()).toggles
}

/// Whether `offsets` never fall, and lie between 0 and `end`.
pub open spec fn ascending_within(offsets: Seq<int>, end: int) -> bool {
    &&& forall|i: int| 0 <= i < offsets.len() ==> 0 <= #[trigger] offsets[i] <= end
    &&& forall|i: int, j: int| 0 <= i <= j < offsets.len() ==> offsets[i] <= offsets[j]
}

/// Whether `text` holds neither a `#` nor a backtick.
pub open spec fn has_no_marks(text: Seq<char>) -> bool {
    forall|i: int| 0 <= i < text.len() ==> #[trigger] text[i] != '#' && text[i] != '`'
}

/// At every point of the stripping, the toggle offsets never fall and lie
/// within the text kept, which holds no mark and is no longer than what was
/// read.
pub proof fn lemma_strip_prefix(text: Seq<char>, n: nat)
    requires
        n <= text.len(),
    ensures
        ascending_within(strip_prefix(text, n).toggles, strip_prefix(text, n).plain.len() as int),
        has_no_marks(strip_prefix(text, n).plain),
        strip_prefix(text, n).plain.len() <= n,
    decreases n,
{
    if n > 0 {
        lemma_strip_prefix(text, (n - 1) as nat);
    }
}

/// The toggle offsets of a text never fall and lie within the stripped
/// text, which holds no mark and is no longer than the text.
pub proof fn lemma_stripped(text: Seq<char>)
    ensures
        ascending_within(toggle_offsets(text), stripped_text(text).len() as int),
        has_no_marks(stripped_text(text)),
        stripped_text(text).len() <= text.len(),
{
    lemma_strip_prefix(text, text.len());
}

/// A text without marks is its own stripped text and toggles nowhere.
pub proof fn lemma_plain_text_unchanged(text: Seq<char>)
    requires
        has_no_marks(text),
    ensures
        stripped_text(text) == text,
        toggle_offsets(text) == Seq::<int>::empty(),
{
    lemma_plain_prefix_unchanged(text, text.len());
}

proof fn lemma_plain_prefix_unchanged(text: Seq<char>, n: nat)
    requires
        has_no_marks(text),
        n <= text.len(),
    ensures
        strip_prefix(text, n).state == HeadingState::Outside,
        strip_prefix(text, n).plain == text.take(n as int),
        strip_prefix(text, n).toggles == Seq::<int>::empty(),
    decreases n,
{
    if n > 0 {
        lemma_plain_prefix_unchanged(text, (n - 1) as nat);
    }
}

/// Tells what the character `c` does in `state`.
pub fn step(state: HeadingState, c: char) -> (step: Step)
    ensures
        step == step_of(state, c),
{
    if c == '#' {
        Step { state: HeadingState::Prefix, toggles: state == HeadingState::Outside, keeps: false }
    } else if state == HeadingState::Outside {
        Step { state: HeadingState::Outside, toggles: c == '`', keeps: c != '`' }
    } else if c == '\n' {
        Step { state: HeadingState::Outside, toggles: true, keeps: true }
    } else if c == '`' {
        Step { state: HeadingState::Body, toggles: true, keeps: false }
    } else {
        Step {
            state: HeadingState::Body,
            toggles: false,
            keeps: !(c == ' ' && state == HeadingState::Prefix),
        }
    }
}

/// Strips the markup from `text` and collects the toggle offsets.
pub fn strip_chars(text: &[char]) -> (stripped: (Vec<char>, Vec<usize>))
    ensures
        stripped.0@ == stripped_text(text@),
        as_ints(stripped.1@) == toggle_offsets(text@),
{
    let mut bold_toggle_locs: Vec<usize> = Vec::new();
    let mut plain: Vec<char> = Vec::new();
    let mut state = HeadingState::Outside;
    let mut i: usize = 0;
    while i < text.len()
        invariant
            i <= text.len(),
            state == strip_prefix(text@, i as nat).state,
            plain@ == strip_prefix(text@, i as nat).plain,
            as_ints(bold_toggle_locs@) == strip_prefix(text@, i as nat).toggles,
        decreases text.len() - i,
    {
        let step = step(state, text[i]);
        if step.toggles {
            bold_toggle_locs.push(plain.len());
        }
        if step.keeps {
            plain.push(text[i]);
        }
        state = step.state;
        i += 1;
    }
    (plain, bold_toggle_locs)
}

/// Returns `text` without its markup, and the offsets into the returned
/// text at which bold toggles. The offsets never fall.
pub fn strip_markup_and_extract_bold_positions(text: &str) -> (stripped: (String, Vec<usize>))
    ensures
        stripped.0@ == stripped_text(text@),
        as_ints(stripped.1@) == toggle_offsets(text@),
        ascending_within(as_ints(stripped.1@), stripped.0@.len() as int),
        has_no_marks(stripped.0@),
{
    let chars = chars_of(text);
    let (plain, bold_toggle_locs) = strip_chars(chars.as_slice());
    proof {
        lemma_stripped(text@);
    }
    (string_of(plain.as_slice()), bold_toggle_locs)
}

} // verus!

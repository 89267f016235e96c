//! The help text: the user guide of a reference document, with the table of
//! keyboard shortcuts set in columns, wrapped to a width and styled.

use vstd::prelude::*;
use crossterm::style::StyledContent;
use crate::error::HelpError;
use crate::markup::{strip_chars, stripped_text, toggle_offsets};
use crate::style::{styled_lines, styled_view, stylize_wrapped_lines, Segment};
use crate::table::{
    blank_line, find_shortcuts_block, justified_shortcuts, justify_block, shortcuts_intro,
};
use crate::text::{
    append, chars_of, contains_pattern, find, first_occurrence, lemma_some_first_occurrence,
    occurs_at, parts_around, replace, replaced, split_once, string_of,
};
use crate::wrap::{wrap_text, wrapped_lines};

verus! {

/// The heading of the user guide.
pub open spec fn guide_heading() -> Seq<char> {
    "## User guide"@
}

/// The heading that follows the user guide.
pub open spec fn next_heading() -> Seq<char> {
    "## Similar projects"@
}

/// The blank line and the bar with which the table in the guide starts.
pub open spec fn table_start() -> Seq<char> {
    "\n\n|"@
}

/// The user guide of a document: from its heading up to the heading that
/// follows it.
pub open spec fn user_guide(document: Seq<char>) -> Result<Seq<char>, HelpError> {
    match first_occurrence(document, guide_heading()) {
        None => Err(HelpError::GuideStartMissing),
        Some(start) => match first_occurrence(document, next_heading()) {
            None => Err(HelpError::GuideEndMissing),
            Some(end) => if end < start {
                Err(HelpError::GuideEndBeforeStart)
            } else {
                Ok(document.subrange(start, end))
            },
        },
    }
}

/// The guide before its table and after it. The table starts at the first
/// bar behind a blank line and ends at the next blank line.
pub open spec fn guide_around_table(guide: Seq<char>) -> Result<
    (Seq<char>, Seq<char>),
    HelpError,
> {
    match parts_around(guide, table_start()) {
        None => Err(HelpError::GuideTableMissing),
        Some((before, rest)) => match parts_around(rest, blank_line()) {
            None => Err(HelpError::GuideTableEndMissing),
            Some((_, after)) => Ok((before, after)),
        },
    }
}

/// `text` with an emphasis mark in place of each tag that opens or closes
/// the name of a key.
pub open spec fn with_keys_marked(text: Seq<char>) -> Seq<char> {
    replaced(replaced(text, "<kbd>"@, "`"@), "</kbd>"@, "`"@)
}

/// The help text of a document in its markup: the guide with the table of
/// keyboard shortcuts set in columns in place of its own table, and the
/// names of keys in emphasis marks.
pub open spec fn help_markup(document: Seq<char>) -> Result<Seq<char>, HelpError> {
    match user_guide(document) {
        Err(e) => Err(e),
        Ok(guide) => match guide_around_table(guide) {
            Err(e) => Err(e),
            Ok((before, after)) => match justified_shortcuts(document) {
                Err(e) => Err(e),
                Ok(table) => Ok(with_keys_marked(before + blank_line() + table + after)),
            },
        },
    }
}

/// The help text of a document at a width: its markup stripped, the plain
/// text wrapped, and the wrapped lines styled at the toggle offsets.
pub open spec fn rendered_help(document: Seq<char>, width: nat) -> Result<
    Seq<Seq<Segment>>,
    HelpError,
> {
    match help_markup(document) {
        Err(e) => Err(e),
        Ok(markup) => Ok(
            styled_lines(wrapped_lines(stripped_text(markup), width), toggle_offsets(markup)),
        ),
    }
}

/// Whether `rendering` is the help text of `document` at `width`, or the
/// error that tells what the document lacks.
pub open spec fn is_rendering(
    document: Seq<char>,
    width: nat,
    rendering: Result<Vec<Vec<StyledContent<String>>>, HelpError>,
) -> bool {
    match rendering {
        Ok(lines) => rendered_help(document, width) == Ok::<Seq<Seq<Segment>>, HelpError>(
            styled_view(lines@),
        ),
        Err(e) => rendered_help(document, width) == Err::<Seq<Seq<Segment>>, HelpError>(e),
    }
}

/// Rendering is a function of the document and the width: two renderings
/// of one document at one width fail alike or are the same lines.
pub proof fn lemma_rendering_repeats(
    document: Seq<char>,
    width: nat,
    first: Result<Vec<Vec<StyledContent<String>>>, HelpError>,
    second: Result<Vec<Vec<StyledContent<String>>>, HelpError>,
)
    requires
        is_rendering(document, width, first),
        is_rendering(document, width, second),
    ensures
        match (first, second) {
            (Ok(a), Ok(b)) => styled_view(a@) == styled_view(b@),
            (Err(a), Err(b)) => a == b,
            _ => false,
        },
{
}

/// What stands in a part of a text stands in the text.
pub proof fn lemma_occurs_in_whole(
    whole: Seq<char>,
    from: int,
    to: int,
    pattern: Seq<char>,
    i: int,
)
    requires
        0 <= from <= to <= whole.len(),
        occurs_at(whole.subrange(from, to), pattern, i),
    ensures
        occurs_at(whole, pattern, from + i),
{
    let part = whole.subrange(from, to);
    assert(whole.subrange(from + i, from + i + pattern.len()) == part.subrange(
        i,
        i + pattern.len(),
    ));
}

/// A document that lacks one of the marks by which the help text is cut
/// out of it has no rendering: not the heading of the user guide, not the
/// heading that follows it, not a table start or a blank line, not the
/// sentence that introduces the keyboard shortcuts.
pub proof fn lemma_missing_mark_fails(document: Seq<char>, width: nat)
    requires
        !contains_pattern(document, guide_heading()) || !contains_pattern(
            document,
            next_heading(),
        ) || !contains_pattern(document, table_start()) || !contains_pattern(
            document,
            blank_line(),
        ) || !contains_pattern(document, shortcuts_intro()),
    ensures
        help_markup(document) is Err,
        rendered_help(document, width) is Err,
{
    if user_guide(document) is Ok {
        let start = first_occurrence(document, guide_heading()).unwrap();
        let end = first_occurrence(document, next_heading()).unwrap();
        let w1 = choose|i: int| occurs_at(document, guide_heading(), i);
        lemma_some_first_occurrence(document, guide_heading(), w1);
        let w2 = choose|i: int| occurs_at(document, next_heading(), i);
        lemma_some_first_occurrence(document, next_heading(), w2);
        let guide = document.subrange(start, end);
        if contains_pattern(guide, table_start()) {
            let i = choose|i: int| occurs_at(guide, table_start(), i);
            lemma_occurs_in_whole(document, start, end, table_start(), i);
            reveal_strlit("\n\n|");
            reveal_strlit("\n\n");
            assert(document.subrange(start + i, start + i + 2) == document.subrange(
                start + i,
                start + i + 3,
            ).subrange(0, 2));
            assert(table_start().subrange(0, 2) == blank_line());
            assert(occurs_at(document, blank_line(), start + i));
        }
    }
}

/// Cuts the user guide out of a document.
pub fn find_user_guide<'a>(document: &'a [char]) -> (guide: Result<&'a [char], HelpError>)
    ensures
        match guide {
            Ok(text) => user_guide(document@) == Ok::<Seq<char>, HelpError>(text@),
            Err(e) => user_guide(document@) == Err::<Seq<char>, HelpError>(e),
        },
{
    let heading = chars_of("## User guide");
    let following = chars_of("## Similar projects");
    let start = match find(document, heading.as_slice()) {
        Some(start) => start,
        None => {
            return Err(HelpError::GuideStartMissing);
        },
    };
    let end = match find(document, following.as_slice()) {
        Some(end) => end,
        None => {
            return Err(HelpError::GuideEndMissing);
        },
    };
    if end < start {
        return Err(HelpError::GuideEndBeforeStart);
    }
    Ok(&document[start..end])
}

/// Cuts the table out of the user guide: returns what stands before it and
/// what stands after it.
pub fn split_guide<'a>(guide: &'a [char]) -> (parts: Result<(&'a [char], &'a [char]), HelpError>)
    ensures
        match parts {
            Ok((before, after)) => guide_around_table(guide@) == Ok::<
                (Seq<char>, Seq<char>),
                HelpError,
            >((before@, after@)),
            Err(e) => guide_around_table(guide@) == Err::<(Seq<char>, Seq<char>), HelpError>(e),
        },
{
    let start = chars_of("\n\n|");
    let blank = chars_of("\n\n");
    match split_once(guide, start.as_slice()) {
        None => Err(HelpError::GuideTableMissing),
        Some((before, rest)) => match split_once(rest, blank.as_slice()) {
            None => Err(HelpError::GuideTableEndMissing),
            Some((_, after)) => Ok((before, after)),
        },
    }
}

/// Puts an emphasis mark in place of each tag around the name of a key.
pub fn mark_keys(text: &[char]) -> (marked: Vec<char>)
    ensures
        marked@ == with_keys_marked(text@),
{
    let open = chars_of("<kbd>");
    let close = chars_of("</kbd>");
    let mark = chars_of("`");
    let opened = replace(text, open.as_slice(), mark.as_slice());
    replace(opened.as_slice(), close.as_slice(), mark.as_slice())
}

/// Writes the help text of a document in its markup.
pub fn compose_help_markup(document: &[char]) -> (markup: Result<Vec<char>, HelpError>)
    ensures
        match markup {
            Ok(text) => help_markup(document@) == Ok::<Seq<char>, HelpError>(text@),
            Err(e) => help_markup(document@) == Err::<Seq<char>, HelpError>(e),
        },
{
    let guide = match find_user_guide(document) {
        Ok(guide) => guide,
        Err(e) => {
            return Err(e);
        },
    };
    let (before, after) = match split_guide(guide) {
        Ok(parts) => parts,
        Err(e) => {
            return Err(e);
        },
    };
    let block = match find_shortcuts_block(document) {
        Ok(block) => block,
        Err(e) => {
            return Err(e);
        },
    };
    let table = match justify_block(block) {
        Ok(table) => table,
        Err(e) => {
            return Err(e);
        },
    };
    let blank = chars_of("\n\n");
    let mut text: Vec<char> = Vec::new();
    append(&mut text, before);
    append(&mut text, blank.as_slice());
    append(&mut text, table.as_slice());
    append(&mut text, after);
    Ok(mark_keys(text.as_slice()))
}

/// Word-wraps the help text of `readme` to `width` columns and styles it.
///
/// Returns the lines of the help text, each as the segments of one weight
/// it is made of. Fails where the document lacks the headings around its
/// user guide, a table in it, or a well-formed table of keyboard shortcuts.
pub fn get_formatted_help_text(readme: &str, width: usize) -> (rendering: Result<
    Vec<Vec<StyledContent<String>>>,
    HelpError,
>)
    ensures
        is_rendering(readme@, width as nat, rendering),
        rendering is Err <==> help_markup(readme@) is Err,
{
    let document = chars_of(readme);
    let markup = match compose_help_markup(document.as_slice()) {
        Ok(markup) => markup,
        Err(e) => {
            return Err(e);
        },
    };
    let (plain, bold_toggle_locs) = strip_chars(markup.as_slice());
    let plain = string_of(plain.as_slice());
    let lines = wrap_text(plain.as_str(), width);
    Ok(stylize_wrapped_lines(lines, bold_toggle_locs))
}

} // verus!

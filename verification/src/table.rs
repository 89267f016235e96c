//! The table of keyboard shortcuts, with its first column padded to one
//! width.
//!
//! A row is `| action | shortcut |`. The first row is the header and is set
//! in emphasis marks; the row of dashes under it is left out. The padding
//! makes up for the emphasis marks, which are stripped later.

use vstd::prelude::*;
use crate::error::HelpError;
use crate::text::{
    append, cells_of, chars_of, count, count_of, lemma_count_add, lemma_utf8_length_add,
    len_utf8, lines, lines_of, occurs_at, parts_around, slices_view, split, split_once,
    starts_with, string_of, trim, trimmed, trimmed_end, trimmed_start, utf8_length,
};

verus! {

/// The sentence's end that introduces the table of keyboard shortcuts.
pub open spec fn shortcuts_intro() -> Seq<char> {
    "keyboard shortcuts:\n\n"@
}

/// The blank line that ends a block.
pub open spec fn blank_line() -> Seq<char> {
    "\n\n"@
}

/// The rows of the table of keyboard shortcuts, as the document has them:
/// what stands between the introducing sentence and the next blank line.
pub open spec fn shortcuts_block(document: Seq<char>) -> Result<Seq<char>, HelpError> {
    match parts_around(document, shortcuts_intro()) {
        None => Err(HelpError::ShortcutsMissing),
        Some((_, after)) => match parts_around(after, blank_line()) {
            None => Err(HelpError::ShortcutsEndMissing),
            Some((block, _)) => Ok(block),
        },
    }
}

/// The cell at `index` of a row, empty where the row has none there. Cell 0
/// is what stands before the first bar.
pub open spec fn cell(row: Seq<char>, index: int) -> Seq<char> {
    let cells = cells_of(row, '|');
    if 0 <= index < cells.len() {
        cells[index]
    } else {
        Seq::empty()
    }
}

/// Whether a row has an action and a shortcut.
pub open spec fn is_complete(row: Seq<char>) -> bool {
    cells_of(row, '|').len() >= 3
}

/// The action of a row.
pub open spec fn action_of(row: Seq<char>) -> Seq<char> {
    trimmed(cell(row, 1))
}

/// The shortcut of a row.
pub open spec fn shortcut_of(row: Seq<char>) -> Seq<char> {
    trimmed(cell(row, 2))
}

/// How the action begins in the row of dashes under a header.
pub open spec fn divider_mark() -> Seq<char> {
    ":--"@
}

/// Whether a row is the row of dashes under the header.
pub open spec fn is_divider(row: Seq<char>) -> bool {
    occurs_at(action_of(row), divider_mark(), 0)
}

/// The greatest length in bytes of an action cell, as it stands between
/// its bars, among the first `n` rows.
pub open spec fn widest_action(rows: Seq<Seq<char>>, n: nat) -> nat
    decreases n,
{
    if n == 0 {
        0
    } else {
        let before = widest_action(rows, (n - 1) as nat);
        let here = utf8_length(cell(rows[n - 1], 1));
        if here > before {
            here
        } else {
            before
        }
    }
}

/// The width of the first column: that of the widest action cell, the row
/// of dashes counted in; 10 where there is no row.
pub open spec fn first_column_width(rows: Seq<Seq<char>>) -> nat {
    if rows.len() == 0 {
        10
    } else {
        widest_action(rows, rows.len())
    }
}

/// A cell between emphasis marks.
pub open spec fn emphasized(cell: Seq<char>) -> Seq<char> {
    seq!['`'] + cell + seq!['`']
}

/// `n` spaces.
pub open spec fn spaces(n: nat) -> Seq<char> {
    Seq::new(n, |i: int| ' ')
}

/// The number of spaces after an action: what the action lacks to the
/// column's width, two more, and one for each emphasis mark in it.
pub open spec fn padding(width: nat, action: Seq<char>) -> int {
    width + count_of(action, '`') + 2 - utf8_length(action)
}

/// A row as it is set: action, padding, shortcut, line feed. The header's
/// cells stand between emphasis marks. The row of dashes is not set.
pub open spec fn justified_row(row: Seq<char>, header: bool, width: nat) -> Seq<char> {
    if is_divider(row) {
        Seq::empty()
    } else {
        let action = if header {
            emphasized(action_of(row))
        } else {
            action_of(row)
        };
        let shortcut = if header {
            emphasized(shortcut_of(row))
        } else {
            shortcut_of(row)
        };
        action + spaces(padding(width, action) as nat) + shortcut + seq!['\n']
    }
}

/// The first `n` rows as they are set; the first of all is the header.
pub open spec fn justified_rows(rows: Seq<Seq<char>>, width: nat, n: nat) -> Seq<char>
    decreases n,
{
    if n == 0 {
        Seq::empty()
    } else {
        justified_rows(rows, width, (n - 1) as nat) + justified_row(rows[n - 1], n == 1, width)
    }
}

/// The table as it is set: its rows and a line feed after them. A table
/// with an incomplete row is not set.
pub open spec fn justified_table(block: Seq<char>) -> Result<Seq<char>, HelpError> {
    let rows = lines_of(block);
    if exists|i: int| 0 <= i < rows.len() && !is_complete(#[trigger] rows[i]) {
        Err(HelpError::RowIncomplete)
    } else {
        Ok(justified_rows(rows, first_column_width(rows), rows.len()) + seq!['\n'])
    }
}

/// The table of keyboard shortcuts of a document, as it is set.
pub open spec fn justified_shortcuts(document: Seq<char>) -> Result<Seq<char>, HelpError> {
    match shortcuts_block(document) {
        Err(e) => Err(e),
        Ok(block) => justified_table(block),
    }
}

/// Trimming makes a text no longer.
pub proof fn lemma_trimmed_no_longer(text: Seq<char>)
    ensures
        utf8_length(trimmed(text)) <= utf8_length(text),
{
    lemma_trimmed_start_no_longer(text);
    lemma_trimmed_end_no_longer(trimmed_start(text));
}

proof fn lemma_trimmed_start_no_longer(text: Seq<char>)
    ensures
        utf8_length(trimmed_start(text)) <= utf8_length(text),
    decreases text.len(),
{
    if text.len() > 0 {
        lemma_trimmed_start_no_longer(text.drop_first());
        lemma_utf8_length_add(seq![text.first()], text.drop_first());
        assert(seq![text.first()] + text.drop_first() == text);
    }
}

proof fn lemma_trimmed_end_no_longer(text: Seq<char>)
    ensures
        utf8_length(trimmed_end(text)) <= utf8_length(text),
    decreases text.len(),
{
    if text.len() > 0 {
        lemma_trimmed_end_no_longer(text.drop_last());
    }
}

/// The column is as wide as each action cell among the rows counted, the
/// row of dashes among them though it is not set.
pub proof fn lemma_widest_action_bounds(rows: Seq<Seq<char>>, n: nat, i: int)
    requires
        0 <= i < n,
    ensures
        utf8_length(cell(rows[i], 1)) <= widest_action(rows, n),
    decreases n,
{
    if i < n - 1 {
        lemma_widest_action_bounds(rows, (n - 1) as nat, i);
    }
}

/// The row of dashes is left out of the table, and yet the column is at
/// least as wide as its action cell.
pub proof fn lemma_divider_counts(rows: Seq<Seq<char>>, i: int, header: bool)
    requires
        0 <= i < rows.len(),
        is_divider(rows[i]),
    ensures
        justified_row(rows[i], header, first_column_width(rows)) == Seq::<char>::empty(),
        utf8_length(cell(rows[i], 1)) <= first_column_width(rows),
{
    lemma_widest_action_bounds(rows, rows.len(), i);
}

/// What an emphasized cell adds: two marks and two bytes.
pub proof fn lemma_emphasized(cell: Seq<char>)
    ensures
        utf8_length(emphasized(cell)) == utf8_length(cell) + 2,
        count_of(emphasized(cell), '`') == count_of(cell, '`') + 2,
{
    let mark = seq!['`'];
    assert(utf8_length(mark) == 1) by {
        assert(utf8_length(mark.drop_last()) == 0);
    }
    assert(count_of(mark, '`') == 1) by {
        assert(count_of(mark.drop_last(), '`') == 0);
    }
    lemma_utf8_length_add(mark, cell);
    lemma_utf8_length_add(mark + cell, mark);
    lemma_count_add(mark, cell, '`');
    lemma_count_add(mark + cell, mark, '`');
}

/// The shortcuts stand in one column: an action and its padding take the
/// column's width and two more, once the emphasis marks are gone.
pub proof fn lemma_shortcuts_align(width: nat, action: Seq<char>)
    ensures
        utf8_length(action) - count_of(action, '`') + padding(width, action) == width + 2,
{
}

/// Every action that is set is followed by two spaces at least.
pub proof fn lemma_padding_at_least_two(rows: Seq<Seq<char>>, i: int, header: bool)
    requires
        0 <= i < rows.len(),
    ensures
        padding(
            first_column_width(rows),
            if header {
                emphasized(action_of(rows[i]))
            } else {
                action_of(rows[i])
            },
        ) >= 2,
{
    lemma_widest_action_bounds(rows, rows.len(), i);
    lemma_trimmed_no_longer(cell(rows[i], 1));
    lemma_emphasized(action_of(rows[i]));
}

/// Sets a cell between emphasis marks.
fn emphasize(cell: &[char]) -> (marked: Vec<char>)
    ensures
        marked@ == emphasized(cell@),
{
    let mut marked: Vec<char> = Vec::new();
    marked.push('`');
    append(&mut marked, cell);
    marked.push('`');
    marked
}

/// Measures the first column of `rows`.
fn measure_first_column(rows: &Vec<&[char]>) -> (width: u128)
    ensures
        width == first_column_width(slices_view(rows@)),
        width <= 0x4_0000_0000_0000_0000,
{
    if rows.len() == 0 {
        return 10;
    }
    let ghost texts = slices_view(rows@);
    let mut width: u128 = 0;
    let mut i: usize = 0;
    while i < rows.len()
        invariant
            i <= rows.len(),
            texts == slices_view(rows@),
            width == widest_action(texts, i as nat),
            width <= 0x4_0000_0000_0000_0000,
        decreases rows.len() - i,
    {
        let cells = split(rows[i], '|');
        if cells.len() > 1 {
            let here = len_utf8(cells[1]);
            if here > width {
                width = here;
            }
        }
        i += 1;
    }
    width
}

/// Sets one complete row that is no row of dashes at the end of `table`.
fn push_row(table: &mut Vec<char>, action: &[char], shortcut: &[char], width: u128)
    requires
        width <= 0x4_0000_0000_0000_0000,
        padding(width as nat, action@) >= 0,
    ensures
        final(table)@ == old(table)@ + (action@ + spaces(padding(width as nat, action@) as nat)
            + shortcut@ + seq!['\n']),
{
    append(table, action);
    let marks = count(action, '`');
    let length = len_utf8(action);
    let pad: u128 = width + marks as u128 + 2 - length;
    let mut k: u128 = 0;
    while k < pad
        invariant
            k <= pad,
            table@ == old(table)@ + action@ + spaces(k as nat),
        decreases pad - k,
    {
        table.push(' ');
        k += 1;
    }
    append(table, shortcut);
    table.push('\n');
}

/// Sets a block of table rows: pads the actions to one column, marks the
/// first row as header and leaves out the row of dashes.
pub fn justify_block(block: &[char]) -> (table: Result<Vec<char>, HelpError>)
    ensures
        match table {
            Ok(set) => justified_table(block@) == Ok::<Seq<char>, HelpError>(set@),
            Err(e) => justified_table(block@) == Err::<Seq<char>, HelpError>(e),
        },
{
    let rows = lines(block);
    let ghost texts = lines_of(block@);
    let width = measure_first_column(&rows);
    let mark = chars_of(":--");
    let mut table: Vec<char> = Vec::new();
    let mut i: usize = 0;
    while i < rows.len()
        invariant
            i <= rows.len(),
            texts == slices_view(rows@),
            texts == lines_of(block@),
            mark@ == divider_mark(),
            width == first_column_width(texts),
            width <= 0x4_0000_0000_0000_0000,
            forall|k: int| 0 <= k < i ==> is_complete(#[trigger] texts[k]),
            table@ == justified_rows(texts, width as nat, i as nat),
        decreases rows.len() - i,
    {
        let cells = split(rows[i], '|');
        if cells.len() < 3 {
            return Err(HelpError::RowIncomplete);
        }
        let action = trim(cells[1]);
        let shortcut = trim(cells[2]);
        if !starts_with(action, mark.as_slice()) {
            proof {
                lemma_padding_at_least_two(texts, i as int, i == 0);
            }
            if i == 0 {
                let action = emphasize(action);
                let shortcut = emphasize(shortcut);
                push_row(&mut table, action.as_slice(), shortcut.as_slice(), width);
            } else {
                push_row(&mut table, action, shortcut, width);
            }
        }
        i += 1;
    }
    table.push('\n');
    assert(table@ == justified_rows(texts, width as nat, texts.len()) + seq!['\n']);
    Ok(table)
}

/// Cuts the rows of the table of keyboard shortcuts out of a document.
pub fn find_shortcuts_block<'a>(document: &'a [char]) -> (block: Result<&'a [char], HelpError>)
    ensures
        match block {
            Ok(rows) => shortcuts_block(document@) == Ok::<Seq<char>, HelpError>(rows@),
            Err(e) => shortcuts_block(document@) == Err::<Seq<char>, HelpError>(e),
        },
{
    let intro = chars_of("keyboard shortcuts:\n\n");
    let blank = chars_of("\n\n");
    match split_once(document, intro.as_slice()) {
        None => Err(HelpError::ShortcutsMissing),
        Some((_, after)) => match split_once(after, blank.as_slice()) {
            None => Err(HelpError::ShortcutsEndMissing),
            Some((block, _)) => Ok(block),
        },
    }
}

/// Sets a table of keyboard shortcuts, given as its rows: pads the actions
/// to one column, marks the first row as header and leaves out the row of
/// dashes. Fails where a row has fewer than two columns.
pub fn justify_table(block: &str) -> (table: Result<String, HelpError>)
    ensures
        match table {
            Ok(set) => justified_table(block@) == Ok::<Seq<char>, HelpError>(set@),
            Err(e) => justified_table(block@) == Err::<Seq<char>, HelpError>(e),
        },
{
    let block = chars_of(block);
    match justify_block(block.as_slice()) {
        Ok(set) => Ok(string_of(set.as_slice())),
        Err(e) => Err(e),
    }
}

/// Sets the table of keyboard shortcuts of a document. Fails where the
/// document has no such table or no end of it, or a row of it has fewer than
/// two columns.
pub fn get_justified_keyboard_shortcuts_table(readme: &str) -> (table: Result<String, HelpError>)
    ensures
        match table {
            Ok(set) => justified_shortcuts(readme@) == Ok::<Seq<char>, HelpError>(set@),
            Err(e) => justified_shortcuts(readme@) == Err::<Seq<char>, HelpError>(e),
        },
{
    let document = chars_of(readme);
    let block = match find_shortcuts_block(document.as_slice()) {
        Ok(block) => block,
        Err(e) => {
            return Err(e);
        },
    };
    match justify_block(block) {
        Ok(set) => Ok(string_of(set.as_slice())),
        Err(e) => Err(e),
    }
}

} // verus!

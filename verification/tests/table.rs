use help_text::{get_justified_keyboard_shortcuts_table, justify_table, HelpError};

#[test]
fn justify_pads_to_the_widest_action_cell() {
    let block = "| Action | Key |\n| Quit | q |\n| Go up one level | h |";
    // the widest cell is " Go up one level ", 17 bytes
    let expected = "`Action`             `Key`\n\
                    Quit               q\n\
                    Go up one level    h\n\
                    \n";
    assert_eq!(justify_table(block), Ok(expected.to_string()));
}

#[test]
fn justify_drops_the_divider_row_but_counts_its_width() {
    let block = "| Action | Key |\n|:-----------------|:--|\n| Quit | q |";
    // the widest cell is that of the divider row, 18 bytes
    let expected = format!(
        "`Action`{}`Key`\nQuit{}q\n\n",
        " ".repeat(18 + 2 + 2 - 8),
        " ".repeat(18 + 2 - 4)
    );
    assert_eq!(justify_table(block), Ok(expected));
}

#[test]
fn justify_divider_narrower_than_the_actions() {
    let block = "| Action | Key |\n|:--|:--|\n| Quit | q |";
    assert_eq!(
        justify_table(block),
        Ok("`Action`    `Key`\nQuit      q\n\n".to_string())
    );
}

#[test]
fn justify_divider_in_the_first_row_leaves_no_header() {
    let block = "|:--|:--|\n| Quit | q |";
    assert_eq!(justify_table(block), Ok("Quit    q\n\n".to_string()));
}

#[test]
fn justify_counts_emphasis_marks_in_an_action() {
    let block = "| Action | Key |\n| `x` | y |";
    // 8 + 2 marks + 2 - 3 bytes
    assert_eq!(
        justify_table(block),
        Ok(format!("`Action`    `Key`\n`x`{}y\n\n", " ".repeat(9)))
    );
}

#[test]
fn justify_measures_in_bytes() {
    let block = "| \u{e9} | x |";
    assert_eq!(
        justify_table(block),
        Ok("`\u{e9}`    `x`\n\n".to_string())
    );
}

#[test]
fn justify_no_rows() {
    assert_eq!(justify_table(""), Ok("\n".to_string()));
}

#[test]
fn justify_trims_cells_and_ignores_further_columns() {
    let block = "|  a\t|   b   | c | d";
    // the cell "  a\t" has 4 bytes: 4 + 2 marks + 2 - 3
    assert_eq!(
        justify_table(block),
        Ok(format!("`a`{}`b`\n\n", " ".repeat(5)))
    );
}

#[test]
fn justify_takes_carriage_returns_with_the_line_feed() {
    let block = "| a | b |\r\n| c | d |";
    assert_eq!(justify_table(block), Ok("`a`    `b`\nc    d\n\n".to_string()));
}

#[test]
fn justify_refuses_a_row_with_one_bar() {
    assert_eq!(
        justify_table("| a | b |\n| c"),
        Err(HelpError::RowIncomplete)
    );
}

#[test]
fn justify_refuses_an_empty_row() {
    assert_eq!(justify_table("\n| a | b |"), Err(HelpError::RowIncomplete));
}

#[test]
fn shortcuts_table_of_a_document() {
    let readme = "With the following keyboard shortcuts:\n\n\
                  | Action | Key |\n|:--|:--|\n| Quit | q |\n\nThe end.\n";
    assert_eq!(
        get_justified_keyboard_shortcuts_table(readme),
        Ok("`Action`    `Key`\nQuit      q\n\n".to_string())
    );
}

#[test]
fn shortcuts_table_needs_its_introduction() {
    let readme = "| Action | Key |\n| Quit | q |\n\nThe end.\n";
    assert_eq!(
        get_justified_keyboard_shortcuts_table(readme),
        Err(HelpError::ShortcutsMissing)
    );
}

#[test]
fn shortcuts_table_needs_its_end() {
    let readme = "keyboard shortcuts:\n\n| Action | Key |\n| Quit | q |\n";
    assert_eq!(
        get_justified_keyboard_shortcuts_table(readme),
        Err(HelpError::ShortcutsEndMissing)
    );
}

#[test]
fn shortcuts_table_with_a_bad_row() {
    let readme = "keyboard shortcuts:\n\n| Action | Key |\nQuit\n\n";
    assert_eq!(
        get_justified_keyboard_shortcuts_table(readme),
        Err(HelpError::RowIncomplete)
    );
}

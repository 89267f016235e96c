use crossterm::style::{StyledContent, Stylize};
use help_text::{get_formatted_help_text, HelpError};

const README: &str = "# Tool\n\nA tool.\n\n## User guide\n\n\
Press <kbd>q</kbd> to quit. The keyboard shortcuts:\n\n\
| Action | Shortcut |\n|:---|:---|\n| Quit | `q` |\n\n\
More text.\n\n## Similar projects\n\nNone.\n";

fn plain(text: &str) -> StyledContent<String> {
    text.to_string().stylize()
}

fn bold(text: &str) -> StyledContent<String> {
    text.to_string().bold()
}

#[test]
fn test_user_guide_found() {
    // this fails if the document is incorrectly formatted
    get_formatted_help_text(README, 100).unwrap();
}

#[test]
fn help_text_of_a_document() {
    let lines = get_formatted_help_text(README, 100).unwrap();
    let expected = vec![
        vec![plain(""), bold("User guide")],
        vec![],
        vec![
            plain("Press "),
            bold("q"),
            plain(" to quit. The keyboard shortcuts:"),
        ],
        vec![],
        vec![plain(""), bold("Action"), plain("    "), bold("Shortcut")],
        vec![plain("Quit      "), bold("q")],
        vec![],
        vec![plain("More text.")],
        vec![],
        vec![],
    ];
    assert_eq!(lines, expected);
}

#[test]
fn help_text_wraps_at_the_width() {
    let lines = get_formatted_help_text(README, 12).unwrap();
    let spelled: Vec<String> = lines
        .iter()
        .map(|line| line.iter().map(|s| s.content().as_str()).collect())
        .collect();
    assert_eq!(
        spelled,
        vec![
            "User guide",
            "",
            "Press q to",
            "quit. The",
            "keyboard",
            "shortcuts:",
            "",
            "Action",
            "Shortcut",
            "Quit      q",
            "",
            "More text.",
            "",
            "",
        ]
    );
    assert_eq!(lines[0], vec![plain(""), bold("User guide")]);
    assert_eq!(lines[2], vec![plain("Press "), bold("q"), plain(" to")]);
    assert_eq!(lines[7], vec![plain(""), bold("Action")]);
}

#[test]
fn help_text_twice_is_the_same() {
    let first = get_formatted_help_text(README, 40);
    let second = get_formatted_help_text(README, 40);
    assert_eq!(first, second);
    assert!(first.is_ok());
}

#[test]
fn help_text_needs_the_guide_heading() {
    let readme = README.replace("## User guide", "## Guide");
    assert_eq!(
        get_formatted_help_text(&readme, 80),
        Err(HelpError::GuideStartMissing)
    );
}

#[test]
fn help_text_needs_the_following_heading() {
    let readme = README.replace("## Similar projects", "## Others");
    assert_eq!(
        get_formatted_help_text(&readme, 80),
        Err(HelpError::GuideEndMissing)
    );
}

#[test]
fn help_text_needs_the_headings_in_order() {
    let readme = "## Similar projects\n\n## User guide\n\n| a | b |\n\n";
    assert_eq!(
        get_formatted_help_text(readme, 80),
        Err(HelpError::GuideEndBeforeStart)
    );
}

#[test]
fn help_text_needs_a_table_in_the_guide() {
    let readme = "## User guide\n\nNo table here.\n\n## Similar projects\n\n\
                  keyboard shortcuts:\n\n| a | b |\n\n";
    assert_eq!(
        get_formatted_help_text(readme, 80),
        Err(HelpError::GuideTableMissing)
    );
}

#[test]
fn help_text_needs_the_table_to_end_in_the_guide() {
    let readme = "## User guide\n\n| a | b |\n## Similar projects\n\n";
    assert_eq!(
        get_formatted_help_text(readme, 80),
        Err(HelpError::GuideTableEndMissing)
    );
}

#[test]
fn help_text_needs_the_introduction_of_the_shortcuts() {
    let readme = README.replace("keyboard shortcuts:", "shortcuts:");
    assert_eq!(
        get_formatted_help_text(&readme, 80),
        Err(HelpError::ShortcutsMissing)
    );
}

#[test]
fn help_text_needs_complete_rows() {
    let readme = README.replace("| Quit | `q` |", "| Quit");
    assert_eq!(
        get_formatted_help_text(&readme, 80),
        Err(HelpError::RowIncomplete)
    );
}

#[test]
fn help_text_of_an_empty_document() {
    assert_eq!(
        get_formatted_help_text("", 80),
        Err(HelpError::GuideStartMissing)
    );
}

#[test]
fn error_messages() {
    assert_eq!(
        HelpError::GuideStartMissing.message(),
        "Could not find user guide in README"
    );
    assert_eq!(
        HelpError::GuideEndMissing.message(),
        "Could not find end of user guide in README"
    );
    assert_eq!(
        HelpError::GuideTableMissing.message(),
        "Could not find keyboard shortcuts table in readme"
    );
    assert_eq!(
        HelpError::GuideTableEndMissing.message(),
        "Could not find end of keyboard shortcuts table in readme"
    );
    assert_eq!(
        HelpError::ShortcutsMissing.message(),
        "Couldn't find table of keyboard shortcuts in README"
    );
    assert_eq!(
        HelpError::ShortcutsEndMissing.message(),
        "Couldn't find end of keyboard shortcuts table in README"
    );
    assert_ne!(
        HelpError::GuideEndBeforeStart.message(),
        HelpError::RowIncomplete.message()
    );
}

const GUIDE: &str = "\
    # Help window\n\n\
    The text of the help window of a terminal program, cut from this document.\n\n\
    ## User guide\n\n\
    The help window shows this guide, wrapped to the width of the terminal.\x20\
    Headings are bold, and so are `words between backticks` and the names of keys,\x20\
    such as <kbd>Esc</kbd>.\n\n\
    The window answers to the following keyboard shortcuts:\n\n\
    | Action | Shortcut |\n\
    |:---|:---|\n\
    | Scroll down | <kbd>\u{2193}</kbd> or <kbd>j</kbd> |\n\
    | Scroll up | <kbd>\u{2191}</kbd> or <kbd>k</kbd> |\n\
    | Close the help window | <kbd>Esc</kbd> or <kbd>q</kbd> |\n\n\
    The guide is wrapped anew whenever the terminal is resized.\n\n\
    ## Similar projects\n\n\
    Other terminal programs show their help in a pager.\n\
";

#[test]
fn help_text_of_a_guide_with_keys() {
    let lines = get_formatted_help_text(GUIDE, 200).unwrap();
    let expected = vec![
        vec![plain(""), bold("User guide")],
        vec![],
        vec![
            plain(
                "The help window shows this guide, wrapped to the width of the terminal. \
                 Headings are bold, and so are ",
            ),
            bold("words between backticks"),
            plain(" and the names of keys, such as "),
            bold("Esc"),
            plain("."),
        ],
        vec![],
        vec![plain("The window answers to the following keyboard shortcuts:")],
        vec![],
        vec![
            plain(""),
            bold("Action"),
            plain(&" ".repeat(23 + 2 + 2 - 8)),
            bold("Shortcut"),
        ],
        vec![
            plain(&format!("Scroll down{}", " ".repeat(23 + 2 - 11))),
            bold("\u{2193}"),
            plain(" or "),
            bold("j"),
        ],
        vec![
            plain(&format!("Scroll up{}", " ".repeat(23 + 2 - 9))),
            bold("\u{2191}"),
            plain(" or "),
            bold("k"),
        ],
        vec![
            plain(&format!("Close the help window{}", " ".repeat(23 + 2 - 21))),
            bold("Esc"),
            plain(" or "),
            bold("q"),
        ],
        vec![],
        vec![plain("The guide is wrapped anew whenever the terminal is resized.")],
        vec![],
        vec![],
    ];
    assert_eq!(lines, expected);
}

#[test]
fn help_text_of_a_guide_with_keys_at_any_width() {
    for width in [0, 1, 10, 40, 80] {
        assert!(get_formatted_help_text(GUIDE, width).is_ok());
    }
}

#[test]
fn help_text_span_over_a_wrap_is_plain_on_the_next_line() {
    // "words between" ends the third line at this width, and the span goes on
    let lines = get_formatted_help_text(GUIDE, 115).unwrap();
    assert_eq!(
        lines[2],
        vec![
            plain(
                "The help window shows this guide, wrapped to the width of the terminal. \
                 Headings are bold, and so are ",
            ),
            bold("words between"),
        ]
    );
    assert_eq!(lines[3][0], plain("backticks"));
}

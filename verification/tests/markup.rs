use help_text::markup::{step, HeadingState};
use help_text::strip_markup_and_extract_bold_positions;

#[test]
fn test_strip_markup() {
    let input = "## foo bar\n\nlorem ipsum `dolor` sit amet";
    let (output, locs) = strip_markup_and_extract_bold_positions(input);
    assert_eq!(output, "foo bar\n\nlorem ipsum dolor sit amet");
    assert_eq!(locs, vec![0, 7, 21, 26]);
}

#[test]
fn strip_leaves_plain_text_alone() {
    let input = "nothing to see here\nat all";
    let (output, locs) = strip_markup_and_extract_bold_positions(input);
    assert_eq!(output, input);
    assert_eq!(locs, Vec::<usize>::new());
}

#[test]
fn strip_empty_text() {
    let (output, locs) = strip_markup_and_extract_bold_positions("");
    assert_eq!(output, "");
    assert_eq!(locs, Vec::<usize>::new());
}

#[test]
fn strip_swallows_one_space_after_the_marker() {
    let (output, locs) = strip_markup_and_extract_bold_positions("#  two spaces\n");
    assert_eq!(output, " two spaces\n");
    assert_eq!(locs, vec![0, 11]);
}

#[test]
fn strip_heading_without_space() {
    let (output, locs) = strip_markup_and_extract_bold_positions("###title\nbody");
    assert_eq!(output, "title\nbody");
    assert_eq!(locs, vec![0, 5]);
}

#[test]
fn strip_heading_without_line_end_stays_open() {
    let (output, locs) = strip_markup_and_extract_bold_positions("# open");
    assert_eq!(output, "open");
    assert_eq!(locs, vec![0]);
}

#[test]
fn strip_marker_inside_a_heading_opens_no_second_span() {
    let (output, locs) = strip_markup_and_extract_bold_positions("# a # b\nc");
    assert_eq!(output, "a b\nc");
    assert_eq!(locs, vec![0, 3]);
}

#[test]
fn strip_marker_in_running_text_opens_a_heading() {
    let (output, locs) = strip_markup_and_extract_bold_positions("ab # cd\nef");
    assert_eq!(output, "ab cd\nef");
    assert_eq!(locs, vec![3, 5]);
}

#[test]
fn strip_emphasis_inside_a_heading() {
    let (output, locs) = strip_markup_and_extract_bold_positions("# a `b` c\n");
    assert_eq!(output, "a b c\n");
    assert_eq!(locs, vec![0, 2, 3, 5]);
}

#[test]
fn strip_adjacent_marks_give_equal_offsets() {
    let (output, locs) = strip_markup_and_extract_bold_positions("a``b");
    assert_eq!(output, "ab");
    assert_eq!(locs, vec![1, 1]);
}

#[test]
fn strip_offsets_never_fall_and_stay_within_the_text() {
    let input = "# One\n`two` ## three `four`\n\nfive `six`";
    let (output, locs) = strip_markup_and_extract_bold_positions(input);
    let length = output.chars().count();
    for pair in locs.windows(2) {
        assert!(pair[0] <= pair[1]);
    }
    for loc in &locs {
        assert!(*loc <= length);
    }
    assert!(!output.contains('#'));
    assert!(!output.contains('`'));
}

#[test]
fn strip_counts_characters_not_bytes() {
    let (output, locs) = strip_markup_and_extract_bold_positions("\u{e9}\u{e9} `x`");
    assert_eq!(output, "\u{e9}\u{e9} x");
    assert_eq!(locs, vec![3, 4]);
}

#[test]
fn step_opens_a_heading_at_the_first_marker_only() {
    let first = step(HeadingState::Outside, '#');
    assert_eq!(first.state, HeadingState::Prefix);
    assert!(first.toggles);
    assert!(!first.keeps);
    let second = step(HeadingState::Prefix, '#');
    assert_eq!(second.state, HeadingState::Prefix);
    assert!(!second.toggles);
    assert!(!second.keeps);
}

#[test]
fn step_closes_a_heading_at_the_line_feed() {
    let from_prefix = step(HeadingState::Prefix, '\n');
    assert_eq!(from_prefix.state, HeadingState::Outside);
    assert!(from_prefix.toggles);
    assert!(from_prefix.keeps);
    let from_body = step(HeadingState::Body, '\n');
    assert_eq!(from_body.state, HeadingState::Outside);
    assert!(from_body.toggles);
    assert!(from_body.keeps);
    let outside = step(HeadingState::Outside, '\n');
    assert_eq!(outside.state, HeadingState::Outside);
    assert!(!outside.toggles);
    assert!(outside.keeps);
}

#[test]
fn step_keeps_a_space_in_the_heading_body() {
    let after_marker = step(HeadingState::Prefix, ' ');
    assert_eq!(after_marker.state, HeadingState::Body);
    assert!(!after_marker.keeps);
    let in_body = step(HeadingState::Body, ' ');
    assert_eq!(in_body.state, HeadingState::Body);
    assert!(in_body.keeps);
}

use help_text::text::{
    chars_of, count, find, len_utf8, lines, matches_at, replace, split, split_once, starts_with,
    string_of, trim,
};

fn chars(text: &str) -> Vec<char> {
    text.chars().collect()
}

fn strings(slices: Vec<&[char]>) -> Vec<String> {
    slices.into_iter().map(|s| s.iter().collect()).collect()
}

#[test]
fn chars_and_back() {
    let text = "a\u{e9}\u{4e16}\u{1f600}z";
    assert_eq!(chars_of(text), chars(text));
    assert_eq!(string_of(&chars(text)), text);
    assert_eq!(chars_of(""), Vec::<char>::new());
}

#[test]
fn find_first_occurrence() {
    let text = chars("abcabc");
    assert_eq!(find(&text, &chars("bc")), Some(1));
    assert_eq!(find(&text, &chars("abc")), Some(0));
    assert_eq!(find(&text, &chars("c")), Some(2));
    assert_eq!(find(&text, &chars("cb")), None);
    assert_eq!(find(&text, &chars("abcabca")), None);
    assert_eq!(find(&text, &chars("")), Some(0));
    assert_eq!(find(&chars(""), &chars("")), Some(0));
    assert_eq!(find(&chars(""), &chars("a")), None);
    assert_eq!(find(&chars("aab"), &chars("ab")), Some(1));
}

#[test]
fn find_counts_characters() {
    assert_eq!(find(&chars("\u{e9}\u{e9}x"), &chars("x")), Some(2));
}

#[test]
fn matches_and_starts() {
    let text = chars("hello");
    assert!(matches_at(&text, &chars("llo"), 2));
    assert!(!matches_at(&text, &chars("llo"), 3));
    assert!(!matches_at(&text, &chars("llo"), 9));
    assert!(matches_at(&text, &chars(""), 5));
    assert!(!matches_at(&text, &chars(""), 6));
    assert!(starts_with(&text, &chars("he")));
    assert!(!starts_with(&text, &chars("el")));
    assert!(!starts_with(&text, &chars("hello!")));
}

#[test]
fn split_once_at_the_first() {
    let text = chars("a--b--c");
    let (before, after) = split_once(&text, &chars("--")).unwrap();
    assert_eq!(before, &chars("a")[..]);
    assert_eq!(after, &chars("b--c")[..]);
    assert!(split_once(&text, &chars("+")).is_none());
    let (before, after) = split_once(&text, &chars("c")).unwrap();
    assert_eq!(before, &chars("a--b--")[..]);
    assert_eq!(after, &chars("")[..]);
}

#[test]
fn split_at_each_separator() {
    assert_eq!(strings(split(&chars("|a|b|"), '|')), vec!["", "a", "b", ""]);
    assert_eq!(strings(split(&chars("ab"), '|')), vec!["ab"]);
    assert_eq!(strings(split(&chars(""), '|')), vec![""]);
    assert_eq!(strings(split(&chars("||"), '|')), vec!["", "", ""]);
}

#[test]
fn lines_as_std_has_them() {
    for text in [
        "",
        "a",
        "a\n",
        "a\nb",
        "a\n\nb\n",
        "\n",
        "\n\n",
        "a\r\nb\r\n",
        "a\rb\n",
        "a\r",
        "\r\n",
        "a\r\r\nb",
    ] {
        let expected: Vec<String> = text.lines().map(|l| l.to_string()).collect();
        assert_eq!(strings(lines(&chars(text))), expected, "{:?}", text);
    }
}

#[test]
fn trim_as_std_does() {
    for text in [
        "",
        " ",
        "a",
        "  a b  ",
        "\t\na\u{a0}",
        "\u{3000}x\u{2028}",
        "x \u{e9} ",
        " \u{200b} ",
    ] {
        let trimmed: String = trim(&chars(text)).iter().collect();
        assert_eq!(trimmed, text.trim(), "{:?}", text);
    }
}

#[test]
fn trim_takes_white_space_as_std_has_it() {
    // one character between two letters is trimmed from neither end; at an
    // end it is trimmed if and only if std counts it as white space
    let mut white = 0;
    for code in 0..=0x10FFFFu32 {
        if let Some(c) = char::from_u32(code) {
            let text = [c, 'x'];
            let kept = trim(&text).len() == 2;
            assert_eq!(kept, !c.is_whitespace(), "{:?}", c);
            let listed = matches!(
                code,
                0x09..=0x0D
                    | 0x20
                    | 0x85
                    | 0xA0
                    | 0x1680
                    | 0x2000..=0x200A
                    | 0x2028
                    | 0x2029
                    | 0x202F
                    | 0x205F
                    | 0x3000
            );
            assert_eq!(listed, c.is_whitespace(), "{:?}", c);
            if listed {
                white += 1;
            }
        }
    }
    assert_eq!(white, 25);
}

#[test]
fn lengths_in_bytes() {
    for text in ["", "abc", "\u{7f}\u{80}", "\u{7ff}\u{800}", "\u{ffff}\u{10000}", "\u{10ffff}"] {
        assert_eq!(len_utf8(&chars(text)), text.len() as u128, "{:?}", text);
    }
}

#[test]
fn counts() {
    assert_eq!(count(&chars("`a` `b`"), '`'), 4);
    assert_eq!(count(&chars("abc"), '`'), 0);
    assert_eq!(count(&chars(""), '`'), 0);
}

#[test]
fn replace_as_std_does() {
    for (text, pattern, with) in [
        ("<kbd>q</kbd>", "<kbd>", "`"),
        ("<kbd>q</kbd>", "</kbd>", "`"),
        ("aaa", "aa", "b"),
        ("abab", "ab", "abab"),
        ("", "a", "b"),
        ("xyz", "a", "b"),
        ("a-b-c", "-", ""),
    ] {
        let replaced: String = replace(&chars(text), &chars(pattern), &chars(with))
            .iter()
            .collect();
        assert_eq!(replaced, text.replace(pattern, with), "{:?}", text);
    }
}

//! Character sequences: conversion from and to strings, search, splitting
//! and trimming, each with its meaning as a function on `Seq<char>`.

use vstd::prelude::*;

verus! {

/// `String::push` appends one character to the end of the string.
pub assume_specification[ String::push ](s: &mut String, ch: char)
    ensures
        final(s)@ == old(s)@.push(ch),
;

/// The characters of `s`, in order.
pub fn chars_of(s: &str) -> (chars: Vec<char>)
    ensures
        chars@ == s@,
{
    let mut chars: Vec<char> = Vec::new();
    for c in it: s.chars()
        invariant
            it.seq() == s@,
            chars@ == s@.take(it.index() as int),
    {
        chars.push(c);
    }
    chars
}

/// The string made of `chars`, in order.
pub fn string_of(chars: &[char]) -> (s: String)
    ensures
        s@ == chars@,
{
    let mut s = String::new();
    let mut i: usize = 0;
    while i < chars.len()
        invariant
            i <= chars.len(),
            s@ == chars@.take(i as int),
        decreases chars.len() - i,
    {
        s.push(chars[i]);
        i += 1;
    }
    s
}

/// Whether `c` has the Unicode property White_Space: the controls from tab
/// to carriage return, the space, next line, the no-break space, the ogham
/// space mark, the spaces from en quad to hair space, the line and the
/// paragraph separator, the narrow no-break space, the medium mathematical
/// space and the ideographic space.
pub open spec fn is_white_space(c: char) -> bool {
    let code = c as u32;
    ||| 0x0009 <= code <= 0x000D
    ||| code == 0x0020
    ||| code == 0x0085
    ||| code == 0x00A0
    ||| code == 0x1680
    ||| 0x2000 <= code <= 0x200A
    ||| code == 0x2028
    ||| code == 0x2029
    ||| code == 0x202F
    ||| code == 0x205F
    ||| code == 0x3000
}

/// `char::is_whitespace` tells whether the character has the Unicode
/// property White_Space.
pub assume_specification[ char::is_whitespace ](c: char) -> (b: bool)
    ensures
        b == is_white_space(c),
;

/// Whether `pattern` stands in `text` at index `i`.
pub open spec fn occurs_at(text: Seq<char>, pattern: Seq<char>, i: int) -> bool {
    0 <= i && i + pattern.len() <= text.len() && text.subrange(i, i + pattern.len()) == pattern
}

/// Whether `pattern` stands anywhere in `text`.
pub open spec fn contains_pattern(text: Seq<char>, pattern: Seq<char>) -> bool {
    exists|i: int| occurs_at(text, pattern, i)
}

/// Whether `i` is the first index at which `pattern` stands in `text`.
pub open spec fn is_first_occurrence(text: Seq<char>, pattern: Seq<char>, i: int) -> bool {
    occurs_at(text, pattern, i) && forall|j: int| 0 <= j < i ==> !occurs_at(text, pattern, j)
}

/// The first index at which `pattern` stands in `text`, if it stands there
/// at all.
pub open spec fn first_occurrence(text: Seq<char>, pattern: Seq<char>) -> Option<int> {
    if contains_pattern(text, pattern) {
        Some(choose|i: int| is_first_occurrence(text, pattern, i))
    } else {
        None
    }
}

/// A pattern has one first occurrence at most, and `first_occurrence` is it.
pub proof fn lemma_first_occurrence(text: Seq<char>, pattern: Seq<char>, i: int)
    requires
        is_first_occurrence(text, pattern, i),
    ensures
        first_occurrence(text, pattern) == Some(i),
{
}

/// The text before the first occurrence of `pattern` and the text after
/// it, if there is one.
pub open spec fn parts_around(text: Seq<char>, pattern: Seq<char>) -> Option<
    (Seq<char>, Seq<char>),
> {
    match first_occurrence(text, pattern) {
        Some(i) => Some((text.take(i), text.skip(i + pattern.len()))),
        None => None,
    }
}

/// Tells whether `pattern` stands in `text` at index `i`.
pub fn matches_at(text: &[char], pattern: &[char], i: usize) -> (found: bool)
    ensures
        found == occurs_at(text@, pattern@, i as int),
{
    if pattern.len() > text.len() || i > text.len() - pattern.len() {
        return false;
    }
    let mut k: usize = 0;
    while k < pattern.len()
        invariant
            k <= pattern.len(),
            i + pattern.len() <= text.len(),
            forall|t: int| 0 <= t < k ==> text[i + t] == pattern[t],
        decreases pattern.len() - k,
    {
        if text[i + k] != pattern[k] {
            return false;
        }
        k += 1;
    }
    assert(text@.subrange(i as int, i + pattern.len()) =~= pattern@);
    true
}

/// Tells whether `text` begins with `pattern`.
pub fn starts_with(text: &[char], pattern: &[char]) -> (found: bool)
    ensures
        found == occurs_at(text@, pattern@, 0),
{
    matches_at(text, pattern, 0)
}

/// Finds the first index at which `pattern` stands in `text`.
pub fn find(text: &[char], pattern: &[char]) -> (found: Option<usize>)
    ensures
        match found {
            Some(i) => is_first_occurrence(text@, pattern@, i as int) && first_occurrence(
                text@,
                pattern@,
            ) == Some(i as int),
            None => first_occurrence(text@, pattern@) is None,
        },
{
    let mut i: usize = 0;
    while i < text.len()
        invariant
            i <= text.len(),
            forall|j: int| 0 <= j < i ==> !occurs_at(text@, pattern@, j),
        decreases text.len() - i,
    {
        if matches_at(text, pattern, i) {
            proof {
                lemma_first_occurrence(text@, pattern@, i as int);
            }
            return Some(i);
        }
        i += 1;
    }
    if matches_at(text, pattern, i) {
        proof {
            lemma_first_occurrence(text@, pattern@, i as int);
        }
        return Some(i);
    }
    assert forall|j: int| !occurs_at(text@, pattern@, j) by {}
    None
}

/// Splits `text` at the first occurrence of `pattern`, which belongs to
/// neither part.
pub fn split_once<'a>(text: &'a [char], pattern: &[char]) -> (parts: Option<
    (&'a [char], &'a [char]),
>)
    ensures
        match parts {
            Some((before, after)) => parts_around(text@, pattern@) == Some((before@, after@)),
            None => parts_around(text@, pattern@) is None,
        },
{
    match find(text, pattern) {
        Some(i) => {
            let end: usize = text.len();
            let before = &text[0..i];
            let after = &text[i + pattern.len()..end];
            Some((before, after))
        },
        None => None,
    }
}

/// Where a pattern occurs, it has a first occurrence.
pub proof fn lemma_some_first_occurrence(text: Seq<char>, pattern: Seq<char>, i: int)
    requires
        occurs_at(text, pattern, i),
    ensures
        exists|k: int| is_first_occurrence(text, pattern, k),
        first_occurrence(text, pattern) is Some,
        is_first_occurrence(text, pattern, first_occurrence(text, pattern).unwrap()),
    decreases i,
{
    if exists|j: int| 0 <= j < i && occurs_at(text, pattern, j) {
        let j = choose|j: int| 0 <= j < i && occurs_at(text, pattern, j);
        lemma_some_first_occurrence(text, pattern, j);
    } else {
        assert(is_first_occurrence(text, pattern, i));
    }
}

/// A text half split: the pieces closed so far and the running piece.
pub struct Pieces {
    pub closed: Seq<Seq<char>>,
    pub running: Seq<char>,
}

/// The first `n` characters of `text`, split at each `separator`.
pub open spec fn scan_pieces(text: Seq<char>, separator: char, n: nat) -> Pieces
    decreases n,
{
    if n == 0 {
        Pieces { closed: Seq::empty(), running: Seq::empty() }
    } else {
        let before = scan_pieces(text, separator, (n - 1) as nat);
        if text[n - 1] == separator {
            Pieces { closed: before.closed.push(before.running), running: Seq::empty() }
        } else {
            Pieces { closed: before.closed, running: before.running.push(text[n - 1]) }
        }
    }
}

/// The pieces of `text` between its separators: one more than it has
/// separators, empty ones among them.
pub open spec fn cells_of(text: Seq<char>, separator: char) -> Seq<Seq<char>> {
    let pieces = scan_pieces(text, separator, text.len());
    pieces.closed.push(pieces.running)
}

/// A line without the carriage return that ends it, if one does.
pub open spec fn without_carriage_return(line: Seq<char>) -> Seq<char> {
    if line.len() > 0 && line.last() == '\r' {
        line.drop_last()
    } else {
        line
    }
}

/// The lines of `text`. A line ends at a line feed, or at a carriage return
/// that a line feed follows; the last line needs no ending, and is no line
/// if it is empty.
pub open spec fn lines_of(text: Seq<char>) -> Seq<Seq<char>> {
    let pieces = scan_pieces(text, '\n', text.len());
    let ended = Seq::new(
        pieces.closed.len(),
        |i: int| without_carriage_return(pieces.closed[i]),
    );
    if pieces.running.len() > 0 {
        ended.push(pieces.running)
    } else {
        ended
    }
}

/// The texts of a list of slices.
pub open spec fn slices_view(slices: Seq<&[char]>) -> Seq<Seq<char>> {
    Seq::new(slices.len(), |i: int| slices[i]@)
}

/// Splits `text` at each `separator`.
pub fn split<'a>(text: &'a [char], separator: char) -> (cells: Vec<&'a [char]>)
    ensures
        slices_view(cells@) == cells_of(text@, separator),
{
    let mut cells: Vec<&'a [char]> = Vec::new();
    let mut start: usize = 0;
    let mut i: usize = 0;
    while i < text.len()
        invariant
            start <= i <= text.len(),
            scan_pieces(text@, separator, i as nat).closed == slices_view(cells@),
            scan_pieces(text@, separator, i as nat).running == text@.subrange(
                start as int,
                i as int,
            ),
        decreases text.len() - i,
    {
        if text[i] == separator {
            cells.push(&text[start..i]);
            start = i + 1;
        }
        i += 1;
    }
    cells.push(&text[start..i]);
    cells
}

/// Splits `text` into its lines.
pub fn lines<'a>(text: &'a [char]) -> (rows: Vec<&'a [char]>)
    ensures
        slices_view(rows@) == lines_of(text@),
{
    let mut rows: Vec<&'a [char]> = Vec::new();
    let mut start: usize = 0;
    let mut i: usize = 0;
    while i < text.len()
        invariant
            start <= i <= text.len(),
            scan_pieces(text@, '\n', i as nat).closed.len() == rows.len(),
            forall|k: int|
                0 <= k < rows.len() ==> (#[trigger] rows[k])@ == without_carriage_return(
                    scan_pieces(text@, '\n', i as nat).closed[k],
                ),
            scan_pieces(text@, '\n', i as nat).running == text@.subrange(start as int, i as int),
        decreases text.len() - i,
    {
        if text[i] == '\n' {
            if start < i && text[i - 1] == '\r' {
                rows.push(&text[start..i - 1]);
            } else {
                rows.push(&text[start..i]);
            }
            start = i + 1;
        }
        i += 1;
    }
    if start < i {
        rows.push(&text[start..i]);
    }
    rows
}

/// `text` without the white space it begins with.
pub open spec fn trimmed_start(text: Seq<char>) -> Seq<char>
    decreases text.len(),
{
    if text.len() > 0 && is_white_space(text.first()) {
        trimmed_start(text.drop_first())
    } else {
        text
    }
}

/// `text` without the white space it ends with.
pub open spec fn trimmed_end(text: Seq<char>) -> Seq<char>
    decreases text.len(),
{
    if text.len() > 0 && is_white_space(text.last()) {
        trimmed_end(text.drop_last())
    } else {
        text
    }
}

/// `text` without the white space at either end.
pub open spec fn trimmed(text: Seq<char>) -> Seq<char> {
    trimmed_end(trimmed_start(text))
}

/// Dropping leading white space one character at a time.
proof fn lemma_trimmed_start_skip(text: Seq<char>, k: int)
    requires
        0 <= k <= text.len(),
        forall|j: int| 0 <= j < k ==> is_white_space(text[j]),
    ensures
        trimmed_start(text) == trimmed_start(text.skip(k)),
    decreases k,
{
    if k > 0 {
        lemma_trimmed_start_skip(text.drop_first(), k - 1);
        assert(text.drop_first().skip(k - 1) == text.skip(k));
    } else {
        assert(text.skip(0) == text);
    }
}

/// Dropping trailing white space one character at a time.
proof fn lemma_trimmed_end_take(text: Seq<char>, k: int)
    requires
        0 <= k <= text.len(),
        forall|j: int| k <= j < text.len() ==> is_white_space(text[j]),
    ensures
        trimmed_end(text) == trimmed_end(text.take(k)),
    decreases text.len() - k,
{
    if k < text.len() {
        lemma_trimmed_end_take(text.drop_last(), k);
        assert(text.drop_last().take(k) == text.take(k));
    } else {
        assert(text.take(k) == text);
    }
}

/// Removes the white space at either end of `text`.
pub fn trim<'a>(text: &'a [char]) -> (inner: &'a [char])
    ensures
        inner@ == trimmed(text@),
{
    let mut lo: usize = 0;
    while lo < text.len() && text[lo].is_whitespace()
        invariant
            lo <= text.len(),
            forall|j: int| 0 <= j < lo ==> is_white_space(text[j]),
        decreases text.len() - lo,
    {
        lo += 1;
    }
    let mut hi: usize = text.len();
    while hi > lo && text[hi - 1].is_whitespace()
        invariant
            lo <= hi <= text.len(),
            forall|j: int| hi <= j < text.len() ==> is_white_space(text[j]),
        decreases hi,
    {
        hi -= 1;
    }
    proof {
        let rest = text@.skip(lo as int);
        lemma_trimmed_start_skip(text@, lo as int);
        lemma_trimmed_end_take(rest, hi - lo);
    }
    &text[lo..hi]
}

/// The number of bytes that `c` takes in UTF-8.
pub open spec fn utf8_width(c: char) -> nat {
    if (c as u32) < 0x80 {
        1
    } else if (c as u32) < 0x800 {
        2
    } else if (c as u32) < 0x1_0000 {
        3
    } else {
        4
    }
}

/// The number of bytes that `text` takes in UTF-8.
pub open spec fn utf8_length(text: Seq<char>) -> nat
    decreases text.len(),
{
    if text.len() == 0 {
        0
    } else {
        utf8_length(text.drop_last()) + utf8_width(text.last())
    }
}

/// How often `c` stands in `text`.
pub open spec fn count_of(text: Seq<char>, c: char) -> nat
    decreases text.len(),
{
    if text.len() == 0 {
        0
    } else {
        count_of(text.drop_last(), c) + if text.last() == c {
            1nat
        } else {
            0nat
        }
    }
}

/// The length in bytes of two texts in a row is the sum of their lengths.
pub proof fn lemma_utf8_length_add(a: Seq<char>, b: Seq<char>)
    ensures
        utf8_length(a + b) == utf8_length(a) + utf8_length(b),
    decreases b.len(),
{
    if b.len() == 0 {
    } else {
        lemma_utf8_length_add(a, b.drop_last());
        assert((a + b).drop_last() == a + b.drop_last());
    }
}

/// The count of a character in two texts in a row is the sum of the counts.
pub proof fn lemma_count_add(a: Seq<char>, b: Seq<char>, c: char)
    ensures
        count_of(a + b, c) == count_of(a, c) + count_of(b, c),
    decreases b.len(),
{
    if b.len() == 0 {
    } else {
        lemma_count_add(a, b.drop_last(), c);
        assert((a + b).drop_last() == a + b.drop_last());
    }
}

/// The length in bytes is the length of the UTF-8 encoding.
pub proof fn lemma_utf8_length_is_encoded_length(text: Seq<char>)
    ensures
        utf8_length(text) == vstd::utf8::encode_utf8(text).len(),
    decreases text.len(),
{
    if text.len() > 0 {
        let c = text.first();
        lemma_utf8_length_is_encoded_length(text.drop_first());
        lemma_utf8_length_add(seq![c], text.drop_first());
        assert(seq![c] + text.drop_first() == text);
        assert(utf8_length(seq![c]) == utf8_width(c)) by {
            assert(utf8_length(seq![c].drop_last()) == 0);
        }
        vstd::utf8::char_is_scalar(c);
    }
}

/// Counts the bytes that `c` takes in UTF-8.
pub fn char_len_utf8(c: char) -> (width: u128)
    ensures
        width == utf8_width(c),
{
    let code: u32 = c as u32;
    if code < 0x80 {
        1
    } else if code < 0x800 {
        2
    } else if code < 0x1_0000 {
        3
    } else {
        4
    }
}

/// Counts the bytes that `text` takes in UTF-8.
pub fn len_utf8(text: &[char]) -> (length: u128)
    ensures
        length == utf8_length(text@),
        length <= 4 * text@.len(),
        length <= 4 * usize::MAX,
{
    let mut length: u128 = 0;
    let mut i: usize = 0;
    while i < text.len()
        invariant
            i <= text.len(),
            length == utf8_length(text@.take(i as int)),
            length <= 4 * i,
        decreases text.len() - i,
    {
        assert(text@.take(i + 1).drop_last() == text@.take(i as int));
        length += char_len_utf8(text[i]);
        i += 1;
    }
    assert(text@.take(i as int) == text@);
    length
}

/// Counts how often `c` stands in `text`.
pub fn count(text: &[char], c: char) -> (times: usize)
    ensures
        times == count_of(text@, c),
{
    let mut times: usize = 0;
    let mut i: usize = 0;
    while i < text.len()
        invariant
            i <= text.len(),
            times == count_of(text@.take(i as int), c),
            times <= i,
        decreases text.len() - i,
    {
        assert(text@.take(i + 1).drop_last() == text@.take(i as int));
        if text[i] == c {
            times += 1;
        }
        i += 1;
    }
    assert(text@.take(i as int) == text@);
    times
}

/// `text` with `with` in place of each occurrence of `pattern`, taken from
/// the left and not overlapping. An empty pattern occurs nowhere.
pub open spec fn replaced(text: Seq<char>, pattern: Seq<char>, with: Seq<char>) -> Seq<char>
    decreases text.len(),
{
    if text.len() == 0 || pattern.len() == 0 {
        text
    } else if occurs_at(text, pattern, 0) {
        with + replaced(text.skip(pattern.len() as int), pattern, with)
    } else {
        seq![text[0]] + replaced(text.skip(1), pattern, with)
    }
}

/// Puts `with` in place of each occurrence of `pattern` in `text`. With an
/// empty pattern the text stays as it is.
pub fn replace(text: &[char], pattern: &[char], with: &[char]) -> (result: Vec<char>)
    ensures
        result@ == replaced(text@, pattern@, with@),
{
    let mut result: Vec<char> = Vec::new();
    if pattern.len() == 0 {
        append(&mut result, text);
        return result;
    }
    let mut i: usize = 0;
    assert(text@.skip(0) == text@);
    while i < text.len()
        invariant
            i <= text.len(),
            pattern@.len() > 0,
            result@ + replaced(text@.skip(i as int), pattern@, with@) == replaced(
                text@,
                pattern@,
                with@,
            ),
        decreases text.len() - i,
    {
        let ghost rest = text@.skip(i as int);
        if matches_at(text, pattern, i) {
            assert(rest.subrange(0, pattern@.len() as int) == text@.subrange(
                i as int,
                i + pattern@.len(),
            ));
            assert(rest.skip(pattern@.len() as int) == text@.skip(i + pattern@.len()));
            append(&mut result, with);
            i += pattern.len();
        } else {
            assert(!occurs_at(rest, pattern@, 0)) by {
                if occurs_at(rest, pattern@, 0) {
                    assert(rest.subrange(0, pattern@.len() as int) == text@.subrange(
                        i as int,
                        i + pattern@.len(),
                    ));
                }
            }
            assert(rest.skip(1) == text@.skip(i + 1));
            result.push(text[i]);
            i += 1;
        }
    }
    result
}

/// Appends the characters of `more` to `text`.
pub fn append(text: &mut Vec<char>, more: &[char])
    ensures
        final(text)@ == old(text)@ + more@,
{
    let mut i: usize = 0;
    while i < more.len()
        invariant
            i <= more.len(),
            text@ == old(text)@ + more@.take(i as int),
        decreases more.len() - i,
    {
        text.push(more[i]);
        i += 1;
    }
}

/// Offsets as mathematical integers.
pub open spec fn as_ints(offsets: Seq<usize>) -> Seq<int> {
    Seq::new(offsets.len(), |i: int| offsets[i] as int)
}

/// The texts of a list of strings.
pub open spec fn texts_of(strings: Seq<String>) -> Seq<Seq<char>> {
    Seq::new(strings.len(), |i: int| strings[i]@)
}

} // verus!

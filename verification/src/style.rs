//! The stylizer: wrapped lines and toggle offsets in, styled segments out.
//!
//! A cursor walks the wrapped lines character by character. It counts the
//! characters it has passed, one more for each line break, and it points at
//! the next toggle offset that is still pending. Where the count meets that
//! offset the running segment is closed and the weight flips.
//!
//! Bold never lasts over a line break. A span that is open at a line's end
//! ends there, and the offsets that lie further on stay pending for the
//! lines to come. Only an offset that lies at the break itself is passed
//! with it: that is where a heading closes.

use vstd::prelude::*;
use crossterm::style::StyledContent;
use crossterm::style::Stylize;
use crate::text::{as_ints, chars_of, texts_of};

verus! {

#[verifier::external_type_specification]
#[verifier::external_body]
#[verifier::reject_recursive_types(D)]
pub struct ExStyledContent<D: std::fmt::Display>(StyledContent<D>);

/// The text that a styled content carries.
pub uninterp spec fn styled_text(content: StyledContent<String>) -> Seq<char>;

/// Whether a styled content has the bold attribute set.
pub uninterp spec fn styled_bold(content: StyledContent<String>) -> bool;

/// `Stylize::stylize` on a `String`: the text with the default style, which
/// sets no attribute.
#[verifier::external_body]
pub(crate) fn plain_content(text: String) -> (content: StyledContent<String>)
    ensures
        styled_text(content) == text@,
        !styled_bold(content),
{
    text.stylize()
}

/// `Stylize::bold` on a `String`: the text with the default style and the
/// bold attribute set on it.
#[verifier::external_body]
pub(crate) fn bold_content(text: String) -> (content: StyledContent<String>)
    ensures
        styled_text(content) == text@,
        styled_bold(content),
{
    text.bold()
}

/// A run of text of one weight.
pub struct Segment {
    pub text: Seq<char>,
    pub bold: bool,
}

/// The segment that a styled content stands for.
pub open spec fn segment_of(content: StyledContent<String>) -> Segment {
    Segment { text: styled_text(content), bold: styled_bold(content) }
}

/// The segments of one styled line.
pub open spec fn segments_of(line: Seq<StyledContent<String>>) -> Seq<Segment> {
    Seq::new(line.len(), |j: int| segment_of(line[j]))
}

/// The segments of styled lines.
pub open spec fn styled_view(lines: Seq<Vec<StyledContent<String>>>) -> Seq<Seq<Segment>> {
    Seq::new(lines.len(), |i: int| segments_of(lines[i]@))
}

/// Where the stylizer stands: the characters passed so far, the index of the
/// pending toggle, and the current weight.
pub struct Cursor {
    pub position: int,
    pub next: int,
    pub bold: bool,
}

impl Cursor {
    /// The cursor before the first character of the first line.
    pub open spec fn start() -> Cursor {
        Cursor { position: 0, next: 0, bold: false }
    }

    /// Whether the pending toggle lies at the cursor's position.
    pub open spec fn at_toggle(self, toggles: Seq<int>) -> bool {
        0 <= self.next < toggles.len() && toggles[self.next] == self.position
    }

    /// The cursor after it has passed one character. A toggle that lay at
    /// the character has flipped the weight and is no longer pending.
    pub open spec fn after_char(self, toggles: Seq<int>) -> Cursor {
        if self.at_toggle(toggles) {
            Cursor { position: self.position + 1, next: self.next + 1, bold: !self.bold }
        } else {
            Cursor { position: self.position + 1, next: self.next, bold: self.bold }
        }
    }

    /// The cursor after a line break. A span that is still bold ends with
    /// the line. A toggle that lies at the break closes that span and is
    /// passed; any other stays pending for the lines that follow.
    pub open spec fn after_line_break(self, toggles: Seq<int>) -> Cursor {
        Cursor {
            position: self.position + 1,
            next: if self.bold && self.at_toggle(toggles) {
                self.next + 1
            } else {
                self.next
            },
            bold: false,
        }
    }
}

/// A line half read: the segments closed so far, the text of the running
/// segment, and the cursor.
pub struct LineScan {
    pub closed: Seq<Segment>,
    pub running: Seq<char>,
    pub cursor: Cursor,
}

/// The scan of the first `n` characters of `line`, begun with cursor `from`.
pub open spec fn scan_line(line: Seq<char>, toggles: Seq<int>, from: Cursor, n: nat) -> LineScan
    decreases n,
{
    if n == 0 {
        LineScan { closed: Seq::empty(), running: Seq::empty(), cursor: from }
    } else {
        let before = scan_line(line, toggles, from, (n - 1) as nat);
        let c = line[n - 1];
        if before.cursor.at_toggle(toggles) {
            LineScan {
                closed: before.closed.push(
                    Segment { text: before.running, bold: before.cursor.bold },
                ),
                running: seq![c],
                cursor: before.cursor.after_char(toggles),
            }
        } else {
            LineScan {
                closed: before.closed,
                running: before.running.push(c),
                cursor: before.cursor.after_char(toggles),
            }
        }
    }
}

/// The segments of a line once it is read to its end: the running segment
/// is closed unless it is empty.
pub open spec fn line_segments(line: Seq<char>, toggles: Seq<int>, from: Cursor) -> Seq<Segment> {
    let scan = scan_line(line, toggles, from, line.len());
    if scan.running.len() > 0 {
        scan.closed.push(Segment { text: scan.running, bold: scan.cursor.bold })
    } else {
        scan.closed
    }
}

/// The cursor at the start of the line that follows `line`.
pub open spec fn cursor_after_line(line: Seq<char>, toggles: Seq<int>, from: Cursor) -> Cursor {
    scan_line(line, toggles, from, line.len()).cursor.after_line_break(toggles)
}

/// The cursor at the start of line `i`.
pub open spec fn cursor_at_line(lines: Seq<Seq<char>>, toggles: Seq<int>, i: nat) -> Cursor
    decreases i,
{
    if i == 0 {
        Cursor::start()
    } else {
        cursor_after_line(
            lines[i - 1],
            toggles,
            cursor_at_line(lines, toggles, (i - 1) as nat),
        )
    }
}

/// The styled lines: each line's segments, read with the cursor that the
/// lines before it have left.
pub open spec fn styled_lines(lines: Seq<Seq<char>>, toggles: Seq<int>) -> Seq<Seq<Segment>> {
    Seq::new(
        lines.len(),
        |i: int| line_segments(lines[i], toggles, cursor_at_line(lines, toggles, i as nat)),
    )
}

/// The text of a line's segments, one after the other, whatever their weight.
pub open spec fn joined_text(segments: Seq<Segment>) -> Seq<char>
    decreases segments.len(),
{
    if segments.len() == 0 {
        Seq::empty()
    } else {
        joined_text(segments.drop_last()) + segments.last().text
    }
}

/// Lines as one text, with a line break between each two of them.
pub open spec fn joined_lines(lines: Seq<Seq<char>>) -> Seq<char>
    decreases lines.len(),
{
    if lines.len() == 0 {
        Seq::empty()
    } else if lines.len() == 1 {
        lines[0]
    } else {
        joined_lines(lines.drop_last()) + seq!['\n'] + lines.last()
    }
}

/// Whether the weights of `segments` alternate, the first one plain.
pub open spec fn alternates_from_plain(segments: Seq<Segment>) -> bool {
    forall|k: int| 0 <= k < segments.len() ==> (#[trigger] segments[k]).bold == (k % 2 == 1)
}

/// A scan loses no character and sets none: the closed segments and the
/// running one spell the part of the line that was read.
pub proof fn lemma_scan_spells_prefix(line: Seq<char>, toggles: Seq<int>, from: Cursor, n: nat)
    requires
        n <= line.len(),
    ensures
        joined_text(scan_line(line, toggles, from, n).closed) + scan_line(
            line,
            toggles,
            from,
            n,
        ).running == line.take(n as int),
    decreases n,
{
    if n > 0 {
        let before = scan_line(line, toggles, from, (n - 1) as nat);
        lemma_scan_spells_prefix(line, toggles, from, (n - 1) as nat);
        assert(line.take(n as int) == line.take(n - 1).push(line[n - 1]));
        if before.cursor.at_toggle(toggles) {
            let closed = before.closed.push(
                Segment { text: before.running, bold: before.cursor.bold },
            );
            assert(closed.drop_last() == before.closed);
        }
    }
}

/// The segments of a line spell the line.
pub proof fn lemma_segments_spell_line(line: Seq<char>, toggles: Seq<int>, from: Cursor)
    ensures
        joined_text(line_segments(line, toggles, from)) == line,
{
    let scan = scan_line(line, toggles, from, line.len());
    lemma_scan_spells_prefix(line, toggles, from, line.len());
    if scan.running.len() > 0 {
        let all = scan.closed.push(Segment { text: scan.running, bold: scan.cursor.bold });
        assert(all.drop_last() == scan.closed);
    }
}

/// Read from a plain start, a scan's closed segments alternate in weight,
/// and the running segment goes on alternating.
pub proof fn lemma_scan_alternates(line: Seq<char>, toggles: Seq<int>, from: Cursor, n: nat)
    requires
        !from.bold,
    ensures
        alternates_from_plain(scan_line(line, toggles, from, n).closed),
        scan_line(line, toggles, from, n).cursor.bold == (scan_line(
            line,
            toggles,
            from,
            n,
        ).closed.len() % 2 == 1),
    decreases n,
{
    if n > 0 {
        lemma_scan_alternates(line, toggles, from, (n - 1) as nat);
    }
}

/// Every line starts plain: bold does not last over a line break.
pub proof fn lemma_line_starts_plain(lines: Seq<Seq<char>>, toggles: Seq<int>, i: nat)
    ensures
        !cursor_at_line(lines, toggles, i).bold,
{
}

/// Round trip: the styled lines have a line for each wrapped line, each
/// spelling its line, so that joined by line breaks they spell the wrapped
/// text.
pub proof fn lemma_styled_lines_spell_text(lines: Seq<Seq<char>>, toggles: Seq<int>)
    ensures
        styled_lines(lines, toggles).len() == lines.len(),
        forall|i: int|
            0 <= i < lines.len() ==> joined_text(#[trigger] styled_lines(lines, toggles)[i])
                == lines[i],
        joined_lines(
            Seq::new(lines.len(), |i: int| joined_text(styled_lines(lines, toggles)[i])),
        ) == joined_lines(lines),
{
    let styled = styled_lines(lines, toggles);
    assert forall|i: int| 0 <= i < lines.len() implies joined_text(#[trigger] styled[i])
        == lines[i] by {
        lemma_segments_spell_line(lines[i], toggles, cursor_at_line(lines, toggles, i as nat));
    }
    assert(Seq::new(lines.len(), |i: int| joined_text(styled[i])) == lines);
}

/// In every styled line the weights alternate and the first segment is
/// plain, wherever the toggles lie.
pub proof fn lemma_styled_lines_alternate(lines: Seq<Seq<char>>, toggles: Seq<int>)
    ensures
        forall|i: int|
            0 <= i < lines.len() ==> alternates_from_plain(
                #[trigger] styled_lines(lines, toggles)[i],
            ),
{
    assert forall|i: int| 0 <= i < lines.len() implies alternates_from_plain(
        #[trigger] styled_lines(lines, toggles)[i],
    ) by {
        let from = cursor_at_line(lines, toggles, i as nat);
        lemma_line_starts_plain(lines, toggles, i as nat);
        lemma_scan_alternates(lines[i], toggles, from, lines[i].len());
    }
}

/// Two to the power of 64: no line is longer, and no list of lines.
pub open spec fn limit() -> int {
    0x1_0000_0000_0000_0000
}

/// The cursor as the stylizer runs it. Its position is kept in 128 bits, so
/// that it can count any lines that fit in memory.
pub struct ToggleCursor {
    position: u128,
    next: usize,
    bold: bool,
}

impl View for ToggleCursor {
    type V = Cursor;

    closed spec fn view(&self) -> Cursor {
        Cursor { position: self.position as int, next: self.next as int, bold: self.bold }
    }
}

impl ToggleCursor {
    /// The cursor before the first character of the first line.
    pub fn new() -> (cursor: ToggleCursor)
        ensures
            cursor@ == Cursor::start(),
    {
        ToggleCursor { position: 0, next: 0, bold: false }
    }

    /// The number of characters and line breaks passed.
    pub fn position(&self) -> (position: u128)
        ensures
            position == self@.position,
    {
        self.position
    }

    /// Whether the text at the cursor is bold.
    pub fn is_bold(&self) -> (bold: bool)
        ensures
            bold == self@.bold,
    {
        self.bold
    }

    /// Tells whether the pending toggle lies at the cursor's position.
    pub fn at_toggle(&self, toggles: &[usize]) -> (found: bool)
        ensures
            found == self@.at_toggle(as_ints(toggles@)),
    {
        self.next < toggles.len() && toggles[self.next] as u128 == self.position
    }

    /// Passes one character, and the toggle that lies at it if one does.
    pub fn pass_char(&mut self, toggles: &[usize])
        requires
            old(self)@.position < u128::MAX,
        ensures
            final(self)@ == old(self)@.after_char(as_ints(toggles@)),
    {
        if self.next < toggles.len() && toggles[self.next] as u128 == self.position {
            self.bold = !self.bold;
            self.next += 1;
        }
        self.position += 1;
    }

    /// Passes a line break, which ends a bold span. The pending toggle is
    /// passed with it only where it lies at the break and the span was open.
    pub fn pass_line_break(&mut self, toggles: &[usize])
        requires
            old(self)@.position < u128::MAX,
        ensures
            final(self)@ == old(self)@.after_line_break(as_ints(toggles@)),
    {
        if self.bold && self.next < toggles.len() && toggles[self.next] as u128
            == self.position {
            self.next += 1;
        }
        self.bold = false;
        self.position += 1;
    }
}

/// A chunk of text as the terminal layer takes it, bold or plain.
fn styled(text: String, bold: bool) -> (content: StyledContent<String>)
    ensures
        segment_of(content) == (Segment { text: text@, bold }),
{
    if bold {
        bold_content(text)
    } else {
        plain_content(text)
    }
}

/// Applies the weights to wrapped lines: bold toggles at each offset of
/// `bold_toggle_locs`, counted over the lines' characters with one more for
/// each line break, and is off again at every line's end.
pub fn stylize_wrapped_lines(lines: Vec<String>, bold_toggle_locs: Vec<usize>) -> (stylized:
    Vec<Vec<StyledContent<String>>>)
    ensures
        styled_view(stylized@) == styled_lines(texts_of(lines@), as_ints(bold_toggle_locs@)),
        stylized.len() == lines.len(),
        forall|i: int|
            0 <= i < lines.len() ==> joined_text(segments_of(#[trigger] stylized[i]@))
                == lines[i]@,
        forall|i: int|
            0 <= i < lines.len() ==> alternates_from_plain(segments_of(#[trigger] stylized[i]@)),
{
    let ghost texts = texts_of(lines@);
    let ghost toggles = as_ints(bold_toggle_locs@);
    proof {
        lemma_styled_lines_spell_text(texts, toggles);
        lemma_styled_lines_alternate(texts, toggles);
    }
    let mut cursor = ToggleCursor::new();
    let mut res: Vec<Vec<StyledContent<String>>> = Vec::new();
    let mut i: usize = 0;
    while i < lines.len()
        invariant
            i <= lines.len(),
            texts == texts_of(lines@),
            toggles == as_ints(bold_toggle_locs@),
            cursor@.position <= i * limit(),
            cursor@ == cursor_at_line(texts, toggles, i as nat),
            res.len() == i,
            forall|k: int|
                0 <= k < i ==> segments_of(#[trigger] res[k]@) == line_segments(
                    texts[k],
                    toggles,
                    cursor_at_line(texts, toggles, k as nat),
                ),
        decreases lines.len() - i,
    {
        let chars = chars_of(lines[i].as_str());
        let ghost from = cursor@;
        let ghost line = texts[i as int];
        let mut line_chunks: Vec<StyledContent<String>> = Vec::new();
        let mut cur_chunk = String::new();
        let mut j: usize = 0;
        while j < chars.len()
            invariant
                j <= chars.len(),
                i < lines.len(),
                chars@ == line,
                toggles == as_ints(bold_toggle_locs@),
                cursor@.position <= i * limit() + j,
                scan_line(line, toggles, from, j as nat).closed == segments_of(line_chunks@),
                scan_line(line, toggles, from, j as nat).running == cur_chunk@,
                scan_line(line, toggles, from, j as nat).cursor == cursor@,
            decreases chars.len() - j,
        {
            if cursor.at_toggle(bold_toggle_locs.as_slice()) {
                let chunk = styled(cur_chunk, cursor.is_bold());
                line_chunks.push(chunk);
                cur_chunk = String::new();
            }
            cur_chunk.push(chars[j]);
            cursor.pass_char(bold_toggle_locs.as_slice());
            j += 1;
        }
        if !cur_chunk.as_str().is_empty() {
            let chunk = styled(cur_chunk, cursor.is_bold());
            line_chunks.push(chunk);
        }
        cursor.pass_line_break(bold_toggle_locs.as_slice());
        res.push(line_chunks);
        i += 1;
    }
    assert forall|i: int| 0 <= i < lines.len() implies joined_text(
        segments_of(#[trigger] res[i]@),
    ) == lines[i]@ && alternates_from_plain(segments_of(res[i]@)) by {
        assert(segments_of(res[i]@) == styled_lines(texts, toggles)[i]);
    }
    res
}

} // verus!

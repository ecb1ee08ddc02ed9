//! Text as a sequence of lines.
//!
//! A text is a `Seq<char>`; a line is a stretch of it that holds no newline.
//! [`segments`] cuts a text at every newline, [`joined`] puts newlines back
//! between lines, and [`lines_of`] reads a text the way a line reader does:
//! a newline at the very end closes the last line instead of opening a new one.

use vstd::prelude::*;
use vstd::utf8::{decode_utf8, encode_utf8, encode_utf8_decode_utf8, valid_utf8};

verus! {

/// `String::push` appends the given character to the end of the string and
/// changes nothing else.
pub assume_specification[ String::push ](text: &mut String, ch: char)
    ensures
        final(text)@ == old(text)@.push(ch),
;

/// `String::from_utf8` turns the bytes into a string when they are valid
/// UTF-8, and fails when they are not. The string it gives holds exactly the
/// bytes it was given; the error, which would hand the bytes back, is dropped.
#[verifier::external_body]
fn string_from_utf8(bytes: Vec<u8>) -> (text: Option<String>)
    ensures
        text is Some <==> valid_utf8(bytes@),
        text matches Some(found) ==> encode_utf8(found@) == bytes@,
{
    match String::from_utf8(bytes) {
        Ok(found) => Some(found),
        Err(_) => None,
    }
}

/// The text that the bytes spell in UTF-8, if they spell one.
pub open spec fn decoded(bytes: Seq<u8>) -> Option<Seq<char>> {
    if valid_utf8(bytes) {
        Some(decode_utf8(bytes))
    } else {
        None
    }
}

/// A line holds no newline.
pub open spec fn is_line(line: Seq<char>) -> bool {
    forall|i: int| 0 <= i < line.len() ==> line[i] != '\n'
}

/// Every element is a line.
pub open spec fn all_lines(lines: Seq<Seq<char>>) -> bool {
    forall|i: int| 0 <= i < lines.len() ==> is_line(#[trigger] lines[i])
}

/// The stretches of `text` between its newlines, in order. There is always at
/// least one: the empty text has one empty segment, and a text that ends in a
/// newline has an empty last segment.
pub open spec fn segments(text: Seq<char>) -> Seq<Seq<char>>
    decreases text.len(),
{
    if text.len() == 0 {
        seq![Seq::empty()]
    } else {
        let before = segments(text.drop_last());
        if text.last() == '\n' {
            before.push(Seq::empty())
        } else {
            before.drop_last().push(before.last().push(text.last()))
        }
    }
}

/// The lines with one newline between each two neighbours, and none at either
/// end.
pub open spec fn joined(lines: Seq<Seq<char>>) -> Seq<char>
    decreases lines.len(),
{
    if lines.len() == 0 {
        Seq::empty()
    } else if lines.len() == 1 {
        lines[0]
    } else {
        joined(lines.drop_last()) + seq!['\n'] + lines.last()
    }
}

/// The lines of a text. The empty text has none; a newline at the very end of
/// the text ends the last line and starts no further one.
pub open spec fn lines_of(text: Seq<char>) -> Seq<Seq<char>> {
    if text.len() == 0 {
        Seq::empty()
    } else if text.last() == '\n' {
        segments(text.drop_last())
    } else {
        segments(text)
    }
}

/// Every segment of a text is a line.
pub proof fn lemma_segments_are_lines(text: Seq<char>)
    ensures
        all_lines(segments(text)),
    decreases text.len(),
{
    if text.len() > 0 {
        lemma_segments_are_lines(text.drop_last());
    }
}

/// Every line of a text is a line.
pub proof fn lemma_lines_of_are_lines(text: Seq<char>)
    ensures
        all_lines(lines_of(text)),
{
    if text.len() > 0 {
        lemma_segments_are_lines(text.drop_last());
    }
}

/// Joining the segments of a text gives the text back.
pub proof fn lemma_joined_segments(text: Seq<char>)
    ensures
        joined(segments(text)) == text,
    decreases text.len(),
{
    if text.len() > 0 {
        let shorter = text.drop_last();
        let before = segments(shorter);
        lemma_joined_segments(shorter);
        if text.last() == '\n' {
            assert(before.push(Seq::empty()).drop_last() == before);
        } else if before.len() > 1 {
            let grown = before.last().push(text.last());
            assert(before.drop_last().push(grown).drop_last() == before.drop_last());
            assert(joined(before.drop_last()) + seq!['\n'] + grown == (joined(
                before.drop_last(),
            ) + seq!['\n'] + before.last()).push(text.last()));
        }
    }
}

proof fn lemma_segments_of_added_line(text: Seq<char>, line: Seq<char>)
    requires
        is_line(line),
    ensures
        segments(text + seq!['\n'] + line) == segments(text).push(line),
    decreases line.len(),
{
    let whole = text + seq!['\n'] + line;
    if line.len() == 0 {
        assert(whole.drop_last() == text);
        assert(line == Seq::<char>::empty());
    } else {
        let shorter = line.drop_last();
        lemma_segments_of_added_line(text, shorter);
        assert(whole.drop_last() == text + seq!['\n'] + shorter);
        assert(shorter.push(line.last()) == line);
    }
}

proof fn lemma_segments_of_line(line: Seq<char>)
    requires
        is_line(line),
    ensures
        segments(line) == seq![line],
    decreases line.len(),
{
    if line.len() == 0 {
        assert(line == Seq::<char>::empty());
    } else {
        let shorter = line.drop_last();
        lemma_segments_of_line(shorter);
        assert(seq![shorter].drop_last().push(shorter.push(line.last())) == seq![line]) by {
            assert(shorter.push(line.last()) == line);
        }
    }
}

/// Cutting joined lines at the newlines gives the lines back, as long as
/// there is at least one.
pub proof fn lemma_segments_of_joined(lines: Seq<Seq<char>>)
    requires
        lines.len() >= 1,
        all_lines(lines),
    ensures
        segments(joined(lines)) == lines,
    decreases lines.len(),
{
    if lines.len() == 1 {
        lemma_segments_of_line(lines[0]);
    } else {
        let before = lines.drop_last();
        lemma_segments_of_joined(before);
        lemma_segments_of_added_line(joined(before), lines.last());
    }
}

/// Reading joined lines line by line gives the lines back, unless the last
/// of them is empty: an empty last line cannot be told from no line.
pub proof fn lemma_lines_of_joined(lines: Seq<Seq<char>>)
    requires
        all_lines(lines),
        lines.len() > 0 ==> lines.last().len() > 0,
    ensures
        lines_of(joined(lines)) == lines,
{
    if lines.len() > 0 {
        lemma_segments_of_joined(lines);
    }
}

/// Reads bytes as UTF-8 text. Bytes that are not valid UTF-8 give no text.
pub fn decode_text(bytes: Vec<u8>) -> (text: Option<String>)
    ensures
        text.deep_view() == decoded(bytes@),
{
    let text = string_from_utf8(bytes);
    proof {
        if text is Some {
            encode_utf8_decode_utf8(text->0@);
        }
    }
    text
}

/// Whether two texts hold the same characters.
pub fn same_text(left: &str, right: &str) -> (same: bool)
    ensures
        same == (left@ == right@),
{
    let left_owned: String = left.to_owned();
    let right_owned: String = right.to_owned();
    left_owned == right_owned
}

/// Reads `text` line by line.
pub fn split_lines(text: &str) -> (lines: Vec<String>)
    ensures
        lines.deep_view() == lines_of(text@),
{
    broadcast use vstd::string::group_string_axioms;

    let mut lines: Vec<String> = Vec::new();
    let mut current = String::new();
    let chars = text.chars();
    for ch in it: chars
        invariant
            it.seq() == text@,
            segments(text@.take(it.index())) == lines.deep_view().push(current@),
    {
        assert(text@.take(it.index() + 1).drop_last() == text@.take(it.index()));
        if ch == '\n' {
            lines.push(current);
            current = String::new();
        } else {
            current.push(ch);
        }
    }
    let ghost done = lines.deep_view();
    proof {
        assert(text@.take(text@.len() as int) == text@);
        assert(done.push(current@).last() == current@);
        assert(done.push(current@).drop_last() == done);
    }
    if !current.as_str().is_empty() {
        lines.push(current);
    }
    lines
}

/// Puts one newline between each two neighbouring lines.
pub fn join_lines(lines: &Vec<String>) -> (text: String)
    ensures
        text@ == joined(lines.deep_view()),
{
    let mut text = String::new();
    let mut i: usize = 0;
    while i < lines.len()
        invariant
            i <= lines.len(),
            text@ == joined(lines.deep_view().take(i as int)),
        decreases lines.len() - i,
    {
        assert(lines.deep_view().take(i + 1).drop_last() == lines.deep_view().take(i as int));
        if i > 0 {
            text.push('\n');
        }
        text.append(lines[i].as_str());
        i += 1;
    }
    assert(lines.deep_view().take(lines.len() as int) == lines.deep_view());
    text
}

} // verus!

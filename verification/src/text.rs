//! Turning accumulated output bytes into decoded text lines: the bytes are
//! decoded as a whole, lossily, and the text is then cut into lines.

use vstd::prelude::*;

verus! {

/// The line feed byte.
pub const NEWLINE: u8 = 10;

/// The text that lossy UTF-8 decoding gives for `bytes`: well-formed
/// sequences decode to their characters, malformed ones are replaced.
pub uninterp spec fn lossy_text(bytes: Seq<u8>) -> Seq<char>;

/// Position of the first occurrence of `target` in `items`, or `items.len()`
/// where there is none.
pub open spec fn first_index<T>(items: Seq<T>, target: T) -> int
    decreases items.len(),
{
    if items.len() == 0 || items[0] == target {
        0
    } else {
        1 + first_index(items.skip(1), target)
    }
}

/// `line` without one trailing carriage return, if it has one.
pub open spec fn without_carriage_return(line: Seq<char>) -> Seq<char> {
    if line.len() > 0 && line.last() == '\r' {
        line.drop_last()
    } else {
        line
    }
}

/// The lines of `text`. Every line feed ends a line, and a carriage return
/// directly before it belongs to the line ending. What follows the last line
/// feed is a line of its own unless it is empty, and keeps a trailing carriage
/// return.
pub open spec fn split_lines(text: Seq<char>) -> Seq<Seq<char>>
    decreases text.len(),
{
    let end = first_index(text, '\n');
    if text.len() == 0 {
        Seq::empty()
    } else if 0 <= end < text.len() {
        seq![without_carriage_return(text.take(end))] + split_lines(text.skip(end + 1))
    } else {
        seq![text]
    }
}

/// The decoded lines of `bytes`: none for no bytes, else the lines of their
/// lossily decoded text.
pub open spec fn text_lines(bytes: Seq<u8>) -> Seq<Seq<char>> {
    if bytes.len() == 0 {
        Seq::empty()
    } else {
        split_lines(lossy_text(bytes))
    }
}

/// The texts of a list of strings.
pub open spec fn line_texts(lines: Seq<String>) -> Seq<Seq<char>> {
    Seq::new(lines.len(), |i: int| lines[i]@)
}

/// `first_index` is in range, nothing before it is `target`, and it points at
/// `target` unless it is the length.
pub proof fn lemma_first_index<T>(items: Seq<T>, target: T)
    ensures
        0 <= first_index(items, target) <= items.len(),
        forall|j: int| 0 <= j < first_index(items, target) ==> items[j] != target,
        first_index(items, target) < items.len() ==> items[first_index(items, target)] == target,
    decreases items.len(),
{
    if items.len() == 0 || items[0] == target {
    } else {
        let tail = items.skip(1);
        lemma_first_index(tail, target);
        assert forall|j: int| 0 <= j < first_index(items, target) implies items[j] != target by {
            if j > 0 {
                assert(items[j] == tail[j - 1]);
            }
        }
        if first_index(items, target) < items.len() {
            assert(items[first_index(items, target)] == tail[first_index(tail, target)]);
        }
    }
}

/// A position with nothing equal to `target` before it, and `target` at it
/// unless it is the length, is `first_index`.
pub proof fn lemma_first_index_unique<T>(items: Seq<T>, target: T, at: int)
    requires
        0 <= at <= items.len(),
        forall|j: int| 0 <= j < at ==> items[j] != target,
        at < items.len() ==> items[at] == target,
    ensures
        first_index(items, target) == at,
{
    lemma_first_index(items, target);
    let found = first_index(items, target);
    if found < at {
        assert(items[found] == target);
    } else if at < found {
        assert(items[at] == target);
    }
}

/// Lossy UTF-8 decoding by `String::from_utf8_lossy`, copied into an owned
/// string. Trusted: the result's text is what that function gives for these
/// bytes, which is named `lossy_text` and not spelled out here.
#[verifier::external_body]
fn decode_lossy(bytes: &[u8]) -> (text: String)
    ensures
        text@ == lossy_text(bytes@),
{
    String::from_utf8_lossy(bytes).into_owned()
}

/// Position of the first `target` in `bytes`, or the length if there is none.
pub fn find_byte(bytes: &[u8], target: u8) -> (at: usize)
    ensures
        at == first_index(bytes@, target),
{
    let mut at: usize = 0;
    while at < bytes.len() && bytes[at] != target
        invariant
            at <= bytes@.len(),
            forall|j: int| 0 <= j < at ==> bytes@[j] != target,
        decreases bytes@.len() - at,
    {
        at += 1;
    }
    proof {
        lemma_first_index_unique(bytes@, target, at as int);
    }
    at
}

/// `String::push`, which appends one character to a string. Trusted: the
/// string afterwards is the string before with `c` at its end.
pub assume_specification[ String::push ](text: &mut String, c: char)
    ensures
        final(text)@ == old(text)@.push(c),
;

/// Cuts `text` into its lines.
pub fn split_text(text: &str) -> (lines: Vec<String>)
    ensures
        line_texts(lines@) == split_lines(text@),
{
    let mut lines: Vec<String> = Vec::new();
    let mut line = String::new();
    // Whether the last character read was a carriage return, which is not
    // in `line` yet: it is dropped if a line feed follows.
    let mut held_return = false;
    let ghost mut start: int = 0;
    assert(text@.skip(0) =~= text@);
    assert(line_texts(lines@) + split_lines(text@) =~= split_lines(text@));
    assert(line@ =~= text@.subrange(0, 0));
    for c in it: text.chars()
        invariant
            it.seq() == text@,
            0 <= start <= it.index() <= text@.len(),
            split_lines(text@) == line_texts(lines@) + split_lines(text@.skip(start)),
            forall|j: int| start <= j < it.index() ==> text@[j] != '\n',
            held_return == (it.index() > start && text@[it.index() - 1] == '\r'),
            line@ == text@.subrange(
                start,
                if held_return {
                    it.index() - 1
                } else {
                    it.index() as int
                },
            ),
    {
        let ghost at = it.index() as int;
        if c == '\n' {
            let mut complete = String::new();
            std::mem::swap(&mut complete, &mut line);
            let ghost before = line_texts(lines@);
            let ghost rest = text@.skip(start);
            lines.push(complete);
            proof {
                lemma_first_index_unique(rest, '\n', at - start);
                assert(rest.take(at - start) =~= text@.subrange(start, at));
                assert(complete@ =~= without_carriage_return(rest.take(at - start)));
                assert(rest.skip(at - start + 1) =~= text@.skip(at + 1));
                assert(line_texts(lines@) =~= before + seq![complete@]);
                assert(before + (seq![complete@] + split_lines(text@.skip(at + 1))) =~= (before
                    + seq![complete@]) + split_lines(text@.skip(at + 1)));
                start = at + 1;
                assert(line@ =~= text@.subrange(start, start));
            }
            held_return = false;
        } else {
            if held_return {
                line.push('\r');
                assert(line@ =~= text@.subrange(start, at));
            }
            if c == '\r' {
                held_return = true;
            } else {
                line.push(c);
                held_return = false;
                assert(line@ =~= text@.subrange(start, at + 1));
            }
        }
    }
    let ghost rest = text@.skip(start);
    let ghost before = line_texts(lines@);
    if held_return {
        line.push('\r');
    }
    assert(line@ =~= rest);
    if line.as_str().is_empty() {
        assert(before + split_lines(rest) =~= before);
    } else {
        lines.push(line);
        proof {
            lemma_first_index_unique(rest, '\n', rest.len() as int);
            assert(line_texts(lines@) =~= before + seq![line@]);
        }
    }
    lines
}

/// Decodes `bytes` lossily and cuts the text into its lines.
pub fn decode_lines(bytes: &[u8]) -> (lines: Vec<String>)
    ensures
        line_texts(lines@) == text_lines(bytes@),
{
    if bytes.len() == 0 {
        let lines: Vec<String> = Vec::new();
        assert(line_texts(lines@) =~= Seq::<Seq<char>>::empty());
        lines
    } else {
        let text = decode_lossy(bytes);
        split_text(text.as_str())
    }
}

} // verus!

//! The raw lines of a resource that was read into memory.

use vstd::prelude::*;
use vstd::utf8::{decode_utf8, valid_utf8};

verus! {

/// The byte that ends a line.
pub const NEWLINE: u8 = 10;

/// The byte that may stand before the newline and then belongs to the line's
/// end.
pub const CARRIAGE_RETURN: u8 = 13;

/// The place of the first newline in the bytes, or their number where they
/// hold none.
pub open spec fn line_break(bytes: Seq<u8>) -> int
    decreases bytes.len(),
{
    if bytes.len() == 0 || bytes[0] == NEWLINE {
        0
    } else {
        1 + line_break(bytes.skip(1))
    }
}

/// The first line of the bytes, without the newline that ends it and without
/// a carriage return before that newline.
pub open spec fn first_line(bytes: Seq<u8>) -> Seq<u8> {
    let end = line_break(bytes);
    if 0 < end < bytes.len() && bytes[end - 1] == CARRIAGE_RETURN {
        bytes.take(end - 1)
    } else {
        bytes.take(end)
    }
}

/// How many bytes the first line takes up, its newline included.
pub open spec fn first_line_span(bytes: Seq<u8>) -> int {
    let end = line_break(bytes);
    if end < bytes.len() {
        end + 1
    } else {
        end
    }
}

/// The first newline is found in the bytes or at their end, and no byte
/// before it is a newline.
pub proof fn lemma_line_break(bytes: Seq<u8>)
    ensures
        0 <= line_break(bytes) <= bytes.len(),
        forall|j: int| 0 <= j < line_break(bytes) ==> bytes[j] != NEWLINE,
        line_break(bytes) < bytes.len() ==> bytes[line_break(bytes)] == NEWLINE,
    decreases bytes.len(),
{
    if bytes.len() == 0 || bytes[0] == NEWLINE {
    } else {
        let rest = bytes.skip(1);
        lemma_line_break(rest);
        assert forall|j: int| 0 <= j < line_break(bytes) implies bytes[j] != NEWLINE by {
            if j > 0 {
                assert(rest[j - 1] == bytes[j]);
            }
        }
        if line_break(bytes) < bytes.len() {
            assert(rest[line_break(rest)] == bytes[line_break(bytes)]);
        }
    }
}

/// A place with no newline before it, which holds a newline or is the end,
/// is the place of the first newline.
pub proof fn lemma_line_break_at(bytes: Seq<u8>, end: int)
    requires
        0 <= end <= bytes.len(),
        forall|j: int| 0 <= j < end ==> bytes[j] != NEWLINE,
        end < bytes.len() ==> bytes[end] == NEWLINE,
    ensures
        line_break(bytes) == end,
{
    lemma_line_break(bytes);
    let found = line_break(bytes);
    if found < end {
        assert(bytes[found] == NEWLINE);
    } else if end < found {
        assert(bytes[end] == NEWLINE);
    }
}

/// The lines of the bytes, in their order. A line ends with a newline or
/// with the bytes; after the last newline no empty line follows.
pub open spec fn raw_lines(bytes: Seq<u8>) -> Seq<Seq<u8>>
    decreases bytes.len(),
{
    if bytes.len() == 0 {
        Seq::empty()
    } else {
        proof {
            lemma_line_break(bytes);
        }
        seq![first_line(bytes)] + raw_lines(bytes.skip(first_line_span(bytes)))
    }
}

/// Bytes hold a first line exactly where there are any, and the lines after
/// it are those of the bytes after its span.
pub proof fn lemma_raw_lines(bytes: Seq<u8>)
    ensures
        bytes.len() == 0 ==> raw_lines(bytes).len() == 0,
        bytes.len() > 0 ==> raw_lines(bytes).len() > 0 && raw_lines(bytes)[0] == first_line(bytes)
            && raw_lines(bytes).skip(1) == raw_lines(bytes.skip(first_line_span(bytes))),
{
    if bytes.len() > 0 {
        let rest = raw_lines(bytes.skip(first_line_span(bytes)));
        assert((seq![first_line(bytes)] + rest).skip(1) =~= rest);
    }
}

/// The text of a line, where its bytes are UTF-8.
pub open spec fn line_text(line: Seq<u8>) -> Option<Seq<char>> {
    if valid_utf8(line) {
        Some(decode_utf8(line))
    } else {
        None
    }
}

/// Calls `String::from_utf8` and drops what the error holds. The call gives
/// a string exactly for bytes that are valid UTF-8, and the string's
/// characters are those that the bytes encode.
#[verifier::external_body]
pub(crate) fn text_of(bytes: Vec<u8>) -> (text: Option<String>)
    ensures
        text is Some <==> valid_utf8(bytes@),
        text matches Some(t) ==> t@ == decode_utf8(bytes@),
{
    String::from_utf8(bytes).ok()
}

/// The bytes of one line, and where the next line starts.
pub struct LineSpan {
    /// The place after the last byte of the line.
    pub end: usize,
    /// The place where the next line starts.
    pub next: usize,
}

/// Finds the line that starts at `start`.
pub fn find_line(content: &Vec<u8>, start: usize) -> (span: LineSpan)
    requires
        start <= content.len(),
    ensures
        start <= span.end <= span.next <= content.len(),
        content@.subrange(start as int, span.end as int) == first_line(
            content@.skip(start as int),
        ),
        span.next - start == first_line_span(content@.skip(start as int)),
{
    let ghost rest = content@.skip(start as int);
    let mut i: usize = start;
    while i < content.len() && content[i] != NEWLINE
        invariant
            start <= i <= content.len(),
            forall|j: int| start <= j < i ==> content@[j] != NEWLINE,
        decreases content.len() - i,
    {
        i += 1;
    }
    proof {
        assert forall|j: int| 0 <= j < i - start implies rest[j] != NEWLINE by {
            assert(rest[j] == content@[start + j]);
        }
        lemma_line_break_at(rest, i - start);
    }
    if i < content.len() {
        let end: usize = if i > start && content[i - 1] == CARRIAGE_RETURN {
            i - 1
        } else {
            i
        };
        assert(content@.subrange(start as int, end as int) =~= rest.take(end - start));
        LineSpan { end, next: i + 1 }
    } else {
        assert(content@.subrange(start as int, i as int) =~= rest.take(i - start));
        LineSpan { end: i, next: i }
    }
}

/// A copy of the bytes from `start` up to `end`.
pub fn copy_range(content: &Vec<u8>, start: usize, end: usize) -> (copy: Vec<u8>)
    requires
        start <= end <= content.len(),
    ensures
        copy@ == content@.subrange(start as int, end as int),
{
    let mut copy: Vec<u8> = Vec::new();
    let mut i: usize = start;
    while i < end
        invariant
            start <= i <= end <= content.len(),
            copy@ == content@.subrange(start as int, i as int),
        decreases end - i,
    {
        copy.push(content[i]);
        assert(copy@ =~= content@.subrange(start as int, i + 1));
        i += 1;
    }
    copy
}

} // verus!

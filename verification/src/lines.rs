//! Splitting a document into lines.

use vstd::prelude::*;

verus! {

/// Index of the first line feed in `text`, or `text.len()` where it has
/// none.
pub open spec fn first_line_feed(text: Seq<char>) -> int
    decreases text.len(),
{
    if text.len() == 0 || text[0] == '\n' {
        0
    } else {
        1 + first_line_feed(text.drop_first())
    }
}

/// `line` without the carriage return at its end, if it has one.
pub open spec fn without_carriage_return(line: Seq<char>) -> Seq<char> {
    if line.len() > 0 && line.last() == '\r' {
        line.drop_last()
    } else {
        line
    }
}

/// The lines of `text`. A line ends at a line feed; the line feed, and a
/// carriage return right before it, belong to no line. What follows the last
/// line feed is a line of its own unless it is empty.
pub open spec fn text_lines(text: Seq<char>) -> Seq<Seq<char>>
    decreases text.len(),
{
    let end = first_line_feed(text);
    if text.len() == 0 {
        Seq::empty()
    } else if 0 <= end < text.len() {
        seq![without_carriage_return(text.subrange(0, end))] + text_lines(
            text.subrange(end + 1, text.len() as int),
        )
    } else {
        seq![text]
    }
}

/// The texts of a list of string slices.
pub open spec fn line_texts(lines: Seq<&str>) -> Seq<Seq<char>> {
    lines.map_values(|line: &str| line@)
}

/// `str::lines`, collected into a vector. Not proved here: the slices are
/// the lines of `content` as `text_lines` defines them, in order.
#[verifier::external_body]
pub(crate) fn split_lines<'a>(content: &'a str) -> (lines: Vec<&'a str>)
    ensures
        line_texts(lines@) == text_lines(content@),
{
    content.lines().collect()
}

/// The first line feed lies within the text, and no line feed comes before
/// it.
pub proof fn lemma_first_line_feed(text: Seq<char>)
    ensures
        0 <= first_line_feed(text) <= text.len(),
        first_line_feed(text) < text.len() ==> text[first_line_feed(text)] == '\n',
        forall|i: int| 0 <= i < first_line_feed(text) ==> text[i] != '\n',
    decreases text.len(),
{
    if text.len() != 0 && text[0] != '\n' {
        let rest = text.drop_first();
        lemma_first_line_feed(rest);
        assert forall|i: int| 0 <= i < first_line_feed(text) implies text[i] != '\n' by {
            if i > 0 {
                assert(text[i] == rest[i - 1]);
            }
        }
    }
}

/// No line holds a line feed.
pub proof fn lemma_lines_hold_no_line_feed(text: Seq<char>)
    ensures
        forall|i: int, j: int|
            0 <= i < text_lines(text).len() && 0 <= j < text_lines(text)[i].len()
                ==> #[trigger] text_lines(text)[i][j] != '\n',
    decreases text.len(),
{
    let end = first_line_feed(text);
    lemma_first_line_feed(text);
    if text.len() != 0 && end < text.len() {
        let rest = text.subrange(end + 1, text.len() as int);
        let first = without_carriage_return(text.subrange(0, end));
        lemma_lines_hold_no_line_feed(rest);
        assert forall|i: int, j: int|
            0 <= i < text_lines(text).len() && 0 <= j < text_lines(text)[i].len()
                implies #[trigger] text_lines(text)[i][j] != '\n' by {
            if i == 0 {
                assert(text_lines(text)[0] == first);
                assert(first[j] == text[j]);
            } else {
                assert(text_lines(text)[i] == text_lines(rest)[i - 1]);
            }
        }
    }
}

} // verus!

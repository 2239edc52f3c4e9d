//! What a scan finds, stated over the lines of a document and the marks of
//! each line.

use crate::grammar::{marks_of, LineMarks};
use crate::lines::text_lines;
use crate::types::{ChangeBlockView, ConflictView, Position, Range};
use crate::utils::utf16_column;
use vstd::prelude::*;

verus! {

/// The span of line `i`: from its first column to the column just past it.
/// Positions carry line numbers in 32 bits: the number of a line is its
/// index, reduced modulo 2^32 where it does not fit.
pub open spec fn line_range(lines: Seq<Seq<char>>, i: int) -> Range {
    Range {
        start: Position { line: i as u32, character: 0 },
        end: Position { line: i as u32, character: utf16_column(lines[i]) },
    }
}

/// Index of the first line at or after `from` that ends a block, or the
/// number of lines where none does.
pub open spec fn block_end(marks: Seq<LineMarks>, from: int) -> int
    decreases marks.len() - from,
{
    if from < 0 || from >= marks.len() {
        marks.len() as int
    } else if marks[from].known_pattern() {
        from
    } else {
        block_end(marks, from + 1)
    }
}

/// The lines of `body` joined as they stand: a line feed between every two
/// lines, none before the first and none after the last.
pub open spec fn contents_text(body: Seq<Seq<char>>) -> Seq<char>
    decreases body.len(),
{
    if body.len() == 0 {
        Seq::empty()
    } else if body.len() == 1 {
        body[0]
    } else {
        contents_text(body.drop_last()) + seq!['\n'] + body.last()
    }
}

/// `text` with `piece` added to it. A line feed separates the two unless
/// `text` is empty.
pub open spec fn join_piece(text: Seq<char>, piece: Seq<char>) -> Seq<char> {
    if text.len() == 0 {
        piece
    } else {
        text + seq!['\n'] + piece
    }
}

/// The pieces added one after the other, each separated by a line feed
/// from the text before it unless that text is empty.
pub open spec fn joined_pieces(pieces: Seq<Seq<char>>) -> Seq<char>
    decreases pieces.len(),
{
    if pieces.len() == 0 {
        Seq::empty()
    } else {
        join_piece(joined_pieces(pieces.drop_last()), pieces.last())
    }
}

/// The line starts with `+`.
pub open spec fn is_added(line: Seq<char>) -> bool {
    line.len() > 0 && line[0] == '+'
}

/// The lines of `body` that start with `+`, each without that `+`.
pub open spec fn added_lines(body: Seq<Seq<char>>) -> Seq<Seq<char>>
    decreases body.len(),
{
    if body.len() == 0 {
        Seq::empty()
    } else if is_added(body.last()) {
        added_lines(body.drop_last()).push(body.last().drop_first())
    } else {
        added_lines(body.drop_last())
    }
}

/// The text that the diff lines of `body` add: the added lines, without
/// their `+`, as joined pieces.
pub open spec fn change_text(body: Seq<Seq<char>>) -> Seq<char> {
    joined_pieces(added_lines(body))
}

/// The lines of the block headed by line `header`: those after the header
/// and before the line that ends the block.
pub open spec fn block_body(lines: Seq<Seq<char>>, marks: Seq<LineMarks>, header: int) -> Seq<
    Seq<char>,
> {
    lines.subrange(header + 1, block_end(marks, header + 1))
}

/// The block headed by line `header`. A line that matches both header
/// patterns heads a diff.
pub open spec fn block_at(lines: Seq<Seq<char>>, marks: Seq<LineMarks>, header: int)
    -> ChangeBlockView {
    let body = block_body(lines, marks, header);
    ChangeBlockView {
        title_range: line_range(lines, header),
        content: if marks[header].change_header {
            change_text(body)
        } else {
            contents_text(body)
        },
    }
}

/// Index of the line that closes a conflict whose body starts at line
/// `from`: the first line, block after block, that heads no block. It is the
/// number of lines where the input ends before such a line.
pub open spec fn body_end(marks: Seq<LineMarks>, from: int) -> int
    decreases marks.len() - from,
{
    if from < 0 || from >= marks.len() {
        marks.len() as int
    } else if marks[from].block_header() {
        proof {
            lemma_block_end_bounds(marks, from + 1);
        }
        body_end(marks, block_end(marks, from + 1))
    } else {
        from
    }
}

/// The blocks of a conflict whose body starts at line `from`.
pub open spec fn body_blocks(lines: Seq<Seq<char>>, marks: Seq<LineMarks>, from: int) -> Seq<
    ChangeBlockView,
>
    decreases marks.len() - from,
{
    if from < 0 || from >= marks.len() {
        Seq::empty()
    } else if marks[from].block_header() {
        proof {
            lemma_block_end_bounds(marks, from + 1);
        }
        seq![block_at(lines, marks, from)] + body_blocks(
            lines,
            marks,
            block_end(marks, from + 1),
        )
    } else {
        Seq::empty()
    }
}

/// The conflict that line `start` opens, where its body reaches a closing
/// line.
pub open spec fn conflict_at(lines: Seq<Seq<char>>, marks: Seq<LineMarks>, start: int)
    -> ConflictView {
    ConflictView {
        range: Range {
            start: line_range(lines, start).start,
            end: line_range(lines, body_end(marks, start + 1)).end,
        },
        title_range: line_range(lines, start),
        blocks: body_blocks(lines, marks, start + 1),
    }
}

/// The conflicts found from line `from` on. A conflict whose body runs into
/// the end of the input is dropped, and with it the rest of the input. The
/// search goes on after the line that closes a conflict.
pub open spec fn conflicts_from(lines: Seq<Seq<char>>, marks: Seq<LineMarks>, from: int) -> Seq<
    ConflictView,
>
    decreases marks.len() - from,
{
    if from < 0 || from >= marks.len() {
        Seq::empty()
    } else if marks[from].conflict_start {
        proof {
            lemma_body_end_bounds(marks, from + 1);
        }
        if body_end(marks, from + 1) < marks.len() {
            seq![conflict_at(lines, marks, from)] + conflicts_from(
                lines,
                marks,
                body_end(marks, from + 1) + 1,
            )
        } else {
            Seq::empty()
        }
    } else {
        conflicts_from(lines, marks, from + 1)
    }
}

/// The conflicts of a document given by its lines and their marks.
pub open spec fn marked_conflicts(lines: Seq<Seq<char>>, marks: Seq<LineMarks>) -> Seq<
    ConflictView,
> {
    conflicts_from(lines, marks, 0)
}

/// The marks of each line of `lines`.
pub open spec fn line_marks(lines: Seq<Seq<char>>) -> Seq<LineMarks> {
    lines.map_values(|line: Seq<char>| marks_of(line))
}

/// The conflicts of the document `text`.
pub open spec fn document_conflicts(text: Seq<char>) -> Seq<ConflictView> {
    marked_conflicts(text_lines(text), line_marks(text_lines(text)))
}

/// A block ends at or after the line the search starts from, on a line that
/// ends a block or at the end of the input, and no line before it ends a
/// block.
pub proof fn lemma_block_end_bounds(marks: Seq<LineMarks>, from: int)
    requires
        0 <= from <= marks.len(),
    ensures
        from <= block_end(marks, from) <= marks.len(),
        block_end(marks, from) < marks.len() ==> marks[block_end(marks, from)].known_pattern(),
        forall|k: int| from <= k < block_end(marks, from) ==> !marks[k].known_pattern(),
    decreases marks.len() - from,
{
    if from < marks.len() && !marks[from].known_pattern() {
        lemma_block_end_bounds(marks, from + 1);
    }
}

/// A conflict closes at or after the line its body starts from, on a line
/// that heads no block, or the input ends first.
pub proof fn lemma_body_end_bounds(marks: Seq<LineMarks>, from: int)
    requires
        0 <= from <= marks.len(),
    ensures
        from <= body_end(marks, from) <= marks.len(),
        body_end(marks, from) < marks.len() ==> !marks[body_end(marks, from)].block_header(),
    decreases marks.len() - from,
{
    if from < marks.len() && marks[from].block_header() {
        lemma_block_end_bounds(marks, from + 1);
        lemma_body_end_bounds(marks, block_end(marks, from + 1));
    }
}

} // verus!

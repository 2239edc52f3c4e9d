//! What holds of every scan, proved over the model.

use crate::grammar::LineMarks;
use crate::lines::text_lines;
use crate::model::{
    added_lines, block_at, block_body, block_end, body_blocks, body_end, change_text,
    conflict_at, conflicts_from, contents_text, document_conflicts, is_added, joined_pieces,
    lemma_block_end_bounds, lemma_body_end_bounds, line_range, marked_conflicts,
};
use crate::types::{ChangeBlockView, ConflictView, Range};
use vstd::prelude::*;

verus! {

/// Empty text has no conflicts.
pub proof fn lemma_empty_text_has_no_conflicts()
    ensures
        document_conflicts(Seq::<char>::empty()) == Seq::<ConflictView>::empty(),
{
}

/// The conflicts of a document depend on its lines alone: two texts with
/// the same lines, and so any text scanned twice, have the same conflicts.
pub proof fn lemma_conflicts_depend_on_lines_alone(first: Seq<char>, second: Seq<char>)
    requires
        text_lines(first) == text_lines(second),
    ensures
        document_conflicts(first) == document_conflicts(second),
{
}

/// A conflict that is opened on line `start` and never closed is dropped,
/// and nothing after it is found: where the line after `start`, if there is
/// one, heads a block and no later line closes a conflict, the scan from
/// `start` finds nothing.
pub proof fn lemma_unclosed_conflict_is_dropped(
    lines: Seq<Seq<char>>,
    marks: Seq<LineMarks>,
    start: int,
)
    requires
        0 <= start < marks.len(),
        marks[start].conflict_start,
        start + 1 < marks.len() ==> marks[start + 1].block_header(),
        forall|i: int| start < i < marks.len() ==> !marks[i].conflict_end,
    ensures
        conflicts_from(lines, marks, start) == Seq::<ConflictView>::empty(),
{
    lemma_body_runs_to_the_end(marks, start + 1);
}

/// A body that starts on a block header, or past the last line, and meets
/// no line that closes a conflict runs into the end of the input.
proof fn lemma_body_runs_to_the_end(marks: Seq<LineMarks>, from: int)
    requires
        0 <= from <= marks.len(),
        from < marks.len() ==> marks[from].block_header(),
        forall|i: int| from <= i < marks.len() ==> !marks[i].conflict_end,
    ensures
        body_end(marks, from) == marks.len(),
    decreases marks.len() - from,
{
    if from < marks.len() {
        lemma_block_end_bounds(marks, from + 1);
        lemma_body_runs_to_the_end(marks, block_end(marks, from + 1));
    }
}

/// Where no line up to `start` opens a conflict, the scan of the document
/// finds what the scan from `start` finds.
pub proof fn lemma_scan_skips_plain_lines(
    lines: Seq<Seq<char>>,
    marks: Seq<LineMarks>,
    start: int,
)
    requires
        0 <= start <= marks.len(),
        forall|i: int| 0 <= i < start ==> !marks[i].conflict_start,
    ensures
        marked_conflicts(lines, marks) == conflicts_from(lines, marks, start),
{
    lemma_skip_from(lines, marks, 0, start);
}

proof fn lemma_skip_from(lines: Seq<Seq<char>>, marks: Seq<LineMarks>, from: int, start: int)
    requires
        0 <= from <= start <= marks.len(),
        forall|i: int| from <= i < start ==> !marks[i].conflict_start,
    ensures
        conflicts_from(lines, marks, from) == conflicts_from(lines, marks, start),
    decreases start - from,
{
    if from < start {
        lemma_skip_from(lines, marks, from + 1, start);
    }
}

/// A document whose first conflict start is never closed has no conflicts
/// at all.
pub proof fn lemma_document_with_unclosed_conflict_has_none(
    lines: Seq<Seq<char>>,
    marks: Seq<LineMarks>,
    start: int,
)
    requires
        0 <= start < marks.len(),
        forall|i: int| 0 <= i < start ==> !marks[i].conflict_start,
        marks[start].conflict_start,
        start + 1 < marks.len() ==> marks[start + 1].block_header(),
        forall|i: int| start < i < marks.len() ==> !marks[i].conflict_end,
    ensures
        marked_conflicts(lines, marks) == Seq::<ConflictView>::empty(),
{
    lemma_scan_skips_plain_lines(lines, marks, start);
    lemma_unclosed_conflict_is_dropped(lines, marks, start);
}

/// The added lines of two runs of lines, one after the other.
pub proof fn lemma_added_lines_of_concatenation(first: Seq<Seq<char>>, second: Seq<Seq<char>>)
    ensures
        added_lines(first + second) == added_lines(first) + added_lines(second),
    decreases second.len(),
{
    if second.len() == 0 {
        assert(first + second == first);
        assert(added_lines(first) + added_lines(second) == added_lines(first));
    } else {
        lemma_added_lines_of_concatenation(first, second.drop_last());
        assert((first + second).drop_last() == first + second.drop_last());
        assert((first + second).last() == second.last());
        let kept = added_lines(first) + added_lines(second.drop_last());
        if is_added(second.last()) {
            let piece = second.last().drop_first();
            assert(kept.push(piece) == added_lines(first) + added_lines(second.drop_last()).push(
                piece,
            ));
        }
    }
}

/// In a diff block only the lines that start with `+` count, each without
/// its `+`: a line among the others that starts with `+` adds its rest
/// where it stands, and any other line changes nothing.
pub proof fn lemma_change_block_keeps_added_lines_only(
    before: Seq<Seq<char>>,
    line: Seq<char>,
    after: Seq<Seq<char>>,
)
    ensures
        is_added(line) ==> change_text(before + seq![line] + after) == joined_pieces(
            added_lines(before) + seq![line.drop_first()] + added_lines(after),
        ),
        !is_added(line) ==> change_text(before + seq![line] + after) == change_text(
            before + after,
        ),
{
    let one = seq![line];
    assert(one.drop_last() == Seq::<Seq<char>>::empty());
    assert(added_lines(one.drop_last()) == Seq::<Seq<char>>::empty());
    if is_added(line) {
        assert(added_lines(one) == seq![line.drop_first()]);
    } else {
        assert(added_lines(one) == Seq::<Seq<char>>::empty());
        assert(added_lines(before) + Seq::<Seq<char>>::empty() == added_lines(before));
    }
    lemma_added_lines_of_concatenation(before, one);
    lemma_added_lines_of_concatenation(before + one, after);
    lemma_added_lines_of_concatenation(before, after);
}

/// The added lines of a body are those of the body without its other
/// lines.
pub proof fn lemma_added_lines_ignore_other_lines(body: Seq<Seq<char>>)
    ensures
        added_lines(body.filter(|line: Seq<char>| is_added(line))) == added_lines(body),
    decreases body.len(),
{
    reveal(Seq::filter);
    let kept = |line: Seq<char>| is_added(line);
    if body.len() > 0 {
        lemma_added_lines_ignore_other_lines(body.drop_last());
        if is_added(body.last()) {
            let rest = body.drop_last().filter(kept);
            assert(rest.push(body.last()).drop_last() == rest);
        }
    }
}

/// The text of a diff block depends on the added lines of its body alone:
/// lines that do not start with `+` add nothing to it, not even a
/// separator. So the body without those lines has the same text, and two
/// bodies with the same added lines have the same text.
pub proof fn lemma_change_text_depends_on_added_lines_alone(
    first: Seq<Seq<char>>,
    second: Seq<Seq<char>>,
)
    ensures
        change_text(first.filter(|line: Seq<char>| is_added(line))) == change_text(first),
        added_lines(first) == added_lines(second) ==> change_text(first) == change_text(second),
{
    lemma_added_lines_ignore_other_lines(first);
}

/// Two diff blocks whose bodies have the same added lines have the same
/// content, whatever other lines stand among them.
pub proof fn lemma_change_blocks_with_the_same_added_lines(
    lines: Seq<Seq<char>>,
    marks: Seq<LineMarks>,
    header: int,
    other_lines: Seq<Seq<char>>,
    other_marks: Seq<LineMarks>,
    other_header: int,
)
    requires
        0 <= header < marks.len(),
        0 <= other_header < other_marks.len(),
        marks[header].change_header,
        other_marks[other_header].change_header,
        added_lines(block_body(lines, marks, header)) == added_lines(
            block_body(other_lines, other_marks, other_header),
        ),
    ensures
        block_at(lines, marks, header).content == block_at(
            other_lines,
            other_marks,
            other_header,
        ).content,
{
}

/// A search for the end of a block stops at `end` where `end` is the first
/// line from `from` on that ends a block, or the end of the input.
proof fn lemma_block_end_is(marks: Seq<LineMarks>, from: int, end: int)
    requires
        0 <= from <= end <= marks.len(),
        end < marks.len() ==> marks[end].known_pattern(),
        forall|i: int| from <= i < end ==> !marks[i].known_pattern(),
    ensures
        block_end(marks, from) == end,
    decreases end - from,
{
    if from < end {
        lemma_block_end_is(marks, from + 1, end);
    }
}

/// Lines `start` to `end` are one conflict of blocks of full contents:
/// line `start` opens it, line `end` closes it, and a block is headed by
/// each line of `heads` and by no other line. The headers come in
/// increasing order, the first right after the opening line, and no line
/// between two headers, or between the last header and the closing line,
/// ends a block.
pub open spec fn conflict_of_contents_blocks(
    marks: Seq<LineMarks>,
    start: int,
    end: int,
    heads: Seq<int>,
) -> bool {
    &&& 0 <= start < end < marks.len()
    &&& marks[start].conflict_start
    &&& marks[end].conflict_end
    &&& !marks[end].block_header()
    &&& heads.len() == 0 ==> end == start + 1
    &&& heads.len() > 0 ==> heads[0] == start + 1
    &&& forall|k: int| 0 <= k < heads.len() ==> start < #[trigger] heads[k] < end
    &&& forall|j: int, k: int|
        0 <= j < k < heads.len() ==> #[trigger] heads[j] < #[trigger] heads[k]
    &&& forall|k: int|
        0 <= k < heads.len() ==> marks[#[trigger] heads[k]].contents_header
            && !marks[heads[k]].change_header
    &&& forall|i: int|
        start < i < end && !heads.contains(i) ==> !(#[trigger] marks[i]).known_pattern()
}

/// Index of the line that ends block `k`: the next header, or the closing
/// line after the last block.
pub open spec fn block_stop(end: int, heads: Seq<int>, k: int) -> int {
    if k + 1 < heads.len() {
        heads[k + 1]
    } else {
        end
    }
}

/// Block `k` of such a conflict: its header's span, and its body lines
/// joined as they stand.
pub open spec fn contents_block(lines: Seq<Seq<char>>, end: int, heads: Seq<int>, k: int)
    -> ChangeBlockView {
    ChangeBlockView {
        title_range: line_range(lines, heads[k]),
        content: contents_text(lines.subrange(heads[k] + 1, block_stop(end, heads, k))),
    }
}

proof fn lemma_contents_block_ends_at_stop(
    marks: Seq<LineMarks>,
    start: int,
    end: int,
    heads: Seq<int>,
    k: int,
)
    requires
        conflict_of_contents_blocks(marks, start, end, heads),
        0 <= k < heads.len(),
    ensures
        heads[k] < block_stop(end, heads, k) <= end,
        block_end(marks, heads[k] + 1) == block_stop(end, heads, k),
{
    let stop = block_stop(end, heads, k);
    assert forall|i: int| heads[k] < i < stop implies !marks[i].known_pattern() by {
        if heads.contains(i) {
            let j = choose|j: int| 0 <= j < heads.len() && heads[j] == i;
            if j <= k {
                if j < k {
                    assert(heads[j] < heads[k]);
                }
            } else {
                if k + 1 < j {
                    assert(heads[k + 1] < heads[j]);
                }
            }
        }
    }
    if k + 1 < heads.len() {
        assert(heads[k] < heads[k + 1]);
        assert(marks[heads[k + 1]].contents_header);
    }
    lemma_block_end_is(marks, heads[k] + 1, stop);
}

proof fn lemma_blocks_from_header(
    lines: Seq<Seq<char>>,
    marks: Seq<LineMarks>,
    start: int,
    end: int,
    heads: Seq<int>,
    k: int,
)
    requires
        conflict_of_contents_blocks(marks, start, end, heads),
        0 <= k <= heads.len(),
    ensures
        body_end(marks, if k < heads.len() { heads[k] } else { end }) == end,
        body_blocks(lines, marks, if k < heads.len() { heads[k] } else { end }) == Seq::new(
            (heads.len() - k) as nat,
            |j: int| contents_block(lines, end, heads, k + j),
        ),
    decreases heads.len() - k,
{
    let at = if k < heads.len() { heads[k] } else { end };
    let expected = Seq::new(
        (heads.len() - k) as nat,
        |j: int| contents_block(lines, end, heads, k + j),
    );
    if k < heads.len() {
        lemma_contents_block_ends_at_stop(marks, start, end, heads, k);
        lemma_blocks_from_header(lines, marks, start, end, heads, k + 1);
        let rest = Seq::new(
            (heads.len() - (k + 1)) as nat,
            |j: int| contents_block(lines, end, heads, k + 1 + j),
        );
        assert(block_at(lines, marks, at) == contents_block(lines, end, heads, k));
        assert(seq![contents_block(lines, end, heads, k)] + rest =~= expected);
    } else {
        assert(body_blocks(lines, marks, at) =~= expected);
    }
}

/// A document with one conflict of `K` blocks of full contents, opened on
/// line `start` and closed on line `end`, and with no line before or after
/// that opens a conflict, has exactly one conflict. It spans lines `start`
/// to `end` and has exactly `K` blocks, each with its header's span and its
/// body lines joined as they stand.
pub proof fn lemma_conflict_of_contents_blocks(
    lines: Seq<Seq<char>>,
    marks: Seq<LineMarks>,
    start: int,
    end: int,
    heads: Seq<int>,
)
    requires
        lines.len() == marks.len(),
        conflict_of_contents_blocks(marks, start, end, heads),
        forall|i: int| 0 <= i < start ==> !marks[i].conflict_start,
        forall|i: int| end < i < marks.len() ==> !marks[i].conflict_start,
    ensures
        marked_conflicts(lines, marks).len() == 1,
        marked_conflicts(lines, marks)[0].title_range == line_range(lines, start),
        marked_conflicts(lines, marks)[0].range == (Range {
            start: line_range(lines, start).start,
            end: line_range(lines, end).end,
        }),
        marked_conflicts(lines, marks)[0].blocks.len() == heads.len(),
        forall|k: int|
            0 <= k < heads.len() ==> #[trigger] marked_conflicts(lines, marks)[0].blocks[k]
                == contents_block(lines, end, heads, k),
{
    lemma_blocks_from_header(lines, marks, start, end, heads, 0);
    lemma_scan_skips_plain_lines(lines, marks, start);
    lemma_skip_from(lines, marks, end + 1, marks.len() as int);
    let rest = conflicts_from(lines, marks, end + 1);
    assert(rest == Seq::<ConflictView>::empty());
    assert(marked_conflicts(lines, marks) =~= seq![conflict_at(lines, marks, start)]);
}

/// Every block of a conflict body that starts at line `from` is headed by
/// a line from `from` on and before the line where the body ends.
pub proof fn lemma_blocks_lie_within_the_body(
    lines: Seq<Seq<char>>,
    marks: Seq<LineMarks>,
    from: int,
)
    requires
        0 <= from <= marks.len(),
    ensures
        forall|k: int|
            0 <= k < body_blocks(lines, marks, from).len() ==> exists|header: int|
                from <= header < body_end(marks, from) && (#[trigger] body_blocks(
                    lines,
                    marks,
                    from,
                )[k]).title_range == line_range(lines, header),
    decreases marks.len() - from,
{
    if from < marks.len() && marks[from].block_header() {
        let next = block_end(marks, from + 1);
        lemma_block_end_bounds(marks, from + 1);
        lemma_body_end_bounds(marks, next);
        lemma_blocks_lie_within_the_body(lines, marks, next);
        let blocks = body_blocks(lines, marks, from);
        let rest = body_blocks(lines, marks, next);
        assert forall|k: int| 0 <= k < blocks.len() implies exists|header: int|
            from <= header < body_end(marks, from) && (#[trigger] blocks[k]).title_range
                == line_range(lines, header) by {
            if k == 0 {
                assert(blocks[0].title_range == line_range(lines, from));
            } else {
                assert(blocks[k] == rest[k - 1]);
                let header = choose|header: int|
                    next <= header < body_end(marks, next) && rest[k - 1].title_range
                        == line_range(lines, header);
                assert(from <= header < body_end(marks, from));
            }
        }
    }
}

/// Every conflict found starts where its title starts and ends on or after
/// the end of the title of its last block.
pub proof fn lemma_conflicts_are_well_formed(
    lines: Seq<Seq<char>>,
    marks: Seq<LineMarks>,
    from: int,
)
    requires
        0 <= from <= marks.len() <= u32::MAX,
    ensures
        forall|i: int|
            0 <= i < conflicts_from(lines, marks, from).len() ==> (#[trigger] conflicts_from(
                lines,
                marks,
                from,
            )[i]).wf(),
    decreases marks.len() - from,
{
    if from < marks.len() {
        if marks[from].conflict_start {
            let end = body_end(marks, from + 1);
            lemma_body_end_bounds(marks, from + 1);
            if end < marks.len() {
                lemma_conflicts_are_well_formed(lines, marks, end + 1);
                lemma_blocks_lie_within_the_body(lines, marks, from + 1);
                let conflict = conflict_at(lines, marks, from);
                if conflict.blocks.len() > 0 {
                    let k = conflict.blocks.len() - 1;
                    let header = choose|header: int|
                        from + 1 <= header < end && conflict.blocks[k].title_range == line_range(
                            lines,
                            header,
                        );
                    assert(conflict.blocks.last().title_range == line_range(lines, header));
                }
                assert(conflict.wf());
                let found = conflicts_from(lines, marks, from);
                let rest = conflicts_from(lines, marks, end + 1);
                assert(found == seq![conflict] + rest);
                assert forall|i: int| 0 <= i < found.len() implies (#[trigger] found[i]).wf() by {
                    if i > 0 {
                        assert(found[i] == rest[i - 1]);
                    }
                }
            }
        } else {
            assert(conflicts_from(lines, marks, from) == conflicts_from(lines, marks, from + 1));
            lemma_conflicts_are_well_formed(lines, marks, from + 1);
        }
    }
}

/// The conflicts found come in document order and do not overlap: each
/// opens on a line of its own, at or after the line the scan started from,
/// closes on a later line, and the next opens after that line.
pub proof fn lemma_conflicts_in_document_order(
    lines: Seq<Seq<char>>,
    marks: Seq<LineMarks>,
    from: int,
)
    requires
        0 <= from <= marks.len() <= u32::MAX,
    ensures
        forall|i: int|
            0 <= i < conflicts_from(lines, marks, from).len() ==> {
                let conflict = #[trigger] conflicts_from(lines, marks, from)[i];
                &&& from <= conflict.range.start.line < conflict.range.end.line < marks.len()
                &&& conflict.title_range.start.line == conflict.range.start.line
                &&& conflict.title_range.end.line == conflict.range.start.line
            },
        forall|i: int, j: int|
            0 <= i < j < conflicts_from(lines, marks, from).len() ==> (#[trigger] conflicts_from(
                lines,
                marks,
                from,
            )[i]).range.end.line < (#[trigger] conflicts_from(
                lines,
                marks,
                from,
            )[j]).range.start.line,
    decreases marks.len() - from,
{
    if from < marks.len() {
        if marks[from].conflict_start {
            let end = body_end(marks, from + 1);
            lemma_body_end_bounds(marks, from + 1);
            if end < marks.len() {
                lemma_conflicts_in_document_order(lines, marks, end + 1);
                let found = conflicts_from(lines, marks, from);
                let rest = conflicts_from(lines, marks, end + 1);
                assert(found == seq![conflict_at(lines, marks, from)] + rest);
                assert forall|i: int| 0 <= i < found.len() implies {
                    let conflict = #[trigger] found[i];
                    &&& from <= conflict.range.start.line < conflict.range.end.line < marks.len()
                    &&& conflict.title_range.start.line == conflict.range.start.line
                    &&& conflict.title_range.end.line == conflict.range.start.line
                } by {
                    if i > 0 {
                        assert(found[i] == rest[i - 1]);
                    }
                }
                assert forall|i: int, j: int| 0 <= i < j < found.len() implies (#[trigger] found[i])
                    .range.end.line < (#[trigger] found[j]).range.start.line by {
                    assert(found[j] == rest[j - 1]);
                    if i > 0 {
                        assert(found[i] == rest[i - 1]);
                    }
                }
            }
        } else {
            assert(conflicts_from(lines, marks, from) == conflicts_from(lines, marks, from + 1));
            lemma_conflicts_in_document_order(lines, marks, from + 1);
        }
    }
}

} // verus!

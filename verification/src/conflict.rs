//! The analyzer: a forward-only cursor over the lines of a document and the
//! scanner that collects the conflicts it passes.

use crate::grammar::{known_pattern_line, marks_of, LineMarks, MarkerGrammar};
use crate::lines::{line_texts, split_lines, text_lines};
use crate::model::{
    added_lines, block_at, block_body, block_end, body_blocks, body_end, change_text,
    conflict_at, conflicts_from, contents_text, lemma_block_end_bounds, lemma_body_end_bounds,
    line_marks, line_range,
};
use crate::types::{
    conflict_views, ChangeBlock, ChangeBlockView, Conflict, ConflictView, Position, Range,
};
use crate::utils::get_utf16_len;
use vstd::prelude::*;
use vstd::string::{StrSliceExecFns, StringExecFns};

verus! {

/// The number of the line at index `at`, as positions carry it.
fn line_number(at: usize) -> (number: u32)
    ensures
        number == at as u32,
{
    #[verifier::truncate]
    (at as u32)
}

/// A scanner bound to one document. It holds the document's lines, the
/// marks of each line, the cursor and the conflicts found so far.
pub struct Analyzer<'a> {
    conflicts: Vec<Conflict>,
    lines: Vec<&'a str>,
    marks: Vec<LineMarks>,
    cur_line_index: usize,
}

impl<'a> Analyzer<'a> {
    /// The texts of the document's lines.
    pub closed spec fn lines(&self) -> Seq<Seq<char>> {
        line_texts(self.lines@)
    }

    /// The marks of the document's lines.
    pub closed spec fn marks(&self) -> Seq<LineMarks> {
        self.marks@
    }

    /// Index of the line under the cursor; the number of lines once the
    /// cursor has left the last line.
    pub closed spec fn position(&self) -> int {
        self.cur_line_index as int
    }

    /// The conflicts found so far.
    pub closed spec fn found(&self) -> Seq<ConflictView> {
        conflict_views(self.conflicts@)
    }

    /// Every line has its marks, and the cursor is on a line or just past
    /// the last one.
    pub closed spec fn wf(&self) -> bool {
        &&& self.lines@.len() == self.marks@.len()
        &&& self.cur_line_index <= self.lines@.len()
    }

    /// An analyzer for a document given as its lines and the marks of each
    /// line, with the cursor on the first line and nothing found yet.
    pub fn from_marked(lines: Vec<&'a str>, marks: Vec<LineMarks>) -> (analyzer: Analyzer<'a>)
        requires
            lines@.len() == marks@.len(),
        ensures
            analyzer.wf(),
            analyzer.lines() == line_texts(lines@),
            analyzer.marks() == marks@,
            analyzer.position() == 0,
            analyzer.found() == Seq::<ConflictView>::empty(),
    {
        Analyzer { conflicts: Vec::new(), lines, marks, cur_line_index: 0 }
    }

    /// An analyzer for the document `content`: splits it into lines and
    /// matches each line against the grammar.
    pub fn new(grammar: &MarkerGrammar, content: &'a str) -> (analyzer: Analyzer<'a>)
        ensures
            analyzer.wf(),
            analyzer.lines() == text_lines(content@),
            analyzer.marks() == line_marks(text_lines(content@)),
            analyzer.position() == 0,
            analyzer.found() == Seq::<ConflictView>::empty(),
    {
        let lines = split_lines(content);
        let mut marks: Vec<LineMarks> = Vec::new();
        let mut at: usize = 0;
        while at < lines.len()
            invariant
                at <= lines@.len(),
                marks@.len() == at,
                forall|i: int| 0 <= i < at ==> marks@[i] == marks_of(#[trigger] lines@[i]@),
            decreases lines@.len() - at,
        {
            marks.push(grammar.classify(lines[at]));
            at = at + 1;
        }
        proof {
            assert(marks@ == line_marks(line_texts(lines@)));
        }
        Analyzer::from_marked(lines, marks)
    }

    /// Advances the cursor past the current line, if there is one, and
    /// returns the line it then stands on.
    fn next(&mut self) -> (line: Option<&'a str>)
        requires
            old(self).wf(),
        ensures
            final(self).wf(),
            final(self).lines() == old(self).lines(),
            final(self).marks() == old(self).marks(),
            final(self).found() == old(self).found(),
            final(self).position() == if old(self).position() < old(self).lines().len() {
                old(self).position() + 1
            } else {
                old(self).position()
            },
            line is Some <==> final(self).position() < final(self).lines().len(),
            line matches Some(l) ==> l@ == final(self).lines()[final(self).position()],
    {
        if self.cur_line_index < self.lines.len() {
            self.cur_line_index = self.cur_line_index + 1;
        }
        let at = self.cur_line_index;
        if at < self.lines.len() {
            Some(self.lines[at])
        } else {
            None
        }
    }

    /// The span of the line under the cursor, if there is one.
    fn get_range_of_current_line(&self) -> (range: Option<Range>)
        requires
            self.wf(),
        ensures
            range == if self.position() < self.lines().len() {
                Some(line_range(self.lines(), self.position()))
            } else {
                None
            },
    {
        let at = self.cur_line_index;
        if at < self.lines.len() {
            let line = self.lines[at];
            let number = line_number(at);
            Some(
                Range {
                    start: Position::new(number, 0),
                    end: Position::new(number, get_utf16_len(line)),
                },
            )
        } else {
            None
        }
    }

    /// Reads the block of full contents whose header is under the cursor
    /// and leaves the cursor on the line that ends the block. Every line of
    /// the body counts as it stands, empty lines too. Gives nothing where
    /// the input ends first, or where no line is under the cursor.
    fn parse_contents_block(&mut self) -> (block: Option<ChangeBlock>)
        requires
            old(self).wf(),
        ensures
            final(self).wf(),
            final(self).lines() == old(self).lines(),
            final(self).marks() == old(self).marks(),
            final(self).found() == old(self).found(),
            old(self).position() >= old(self).lines().len() ==> {
                &&& block is None
                &&& final(self).position() == old(self).position()
            },
            old(self).position() < old(self).lines().len() ==> {
                let end = block_end(old(self).marks(), old(self).position() + 1);
                &&& final(self).position() == end
                &&& block is Some <==> end < old(self).lines().len()
                &&& block matches Some(b) ==> b@ == (ChangeBlockView {
                    title_range: line_range(old(self).lines(), old(self).position()),
                    content: contents_text(
                        block_body(old(self).lines(), old(self).marks(), old(self).position()),
                    ),
                })
            },
    {
        let title_range = match self.get_range_of_current_line() {
            Some(range) => range,
            None => {
                return None;
            },
        };
        let ghost header = self.position();
        let ghost lines = self.lines();
        let ghost marks = self.marks();
        self.next();
        let first = self.cur_line_index;
        let mut content = String::new();
        loop
            invariant
                self.wf(),
                first == header + 1,
                self.lines() == lines,
                self.marks() == marks,
                self.found() == old(self).found(),
                lines == old(self).lines(),
                marks == old(self).marks(),
                header == old(self).position(),
                title_range == line_range(lines, header),
                marks.len() == lines.len(),
                0 <= header < lines.len(),
                header + 1 <= self.position() <= lines.len(),
                block_end(marks, self.position()) == block_end(marks, header + 1),
                content@ == contents_text(lines.subrange(header + 1, self.position())),
            ensures
                self.position() == block_end(marks, header + 1),
                self.position() < lines.len(),
            decreases lines.len() - self.position(),
        {
            let at = self.cur_line_index;
            if at >= self.lines.len() {
                return None;
            }
            if self.marks[at].is_known_pattern() {
                break;
            }
            let line = self.lines[at];
            if at > first {
                proof {
                    reveal_strlit("\n");
                }
                content.append("\n");
            }
            content.append(line);
            proof {
                let before = lines.subrange(header + 1, self.position());
                let after = lines.subrange(header + 1, self.position() + 1);
                assert(after.drop_last() == before);
                assert(after.last() == line@);
                assert(after.len() == 1 ==> after[0] == line@);
                assert(Seq::<char>::empty() + line@ == line@);
                assert("\n"@ == seq!['\n']) by {
                    reveal_strlit("\n");
                }
            }
            self.next();
        }
        Some(ChangeBlock { title_range, content })
    }

    /// Reads the diff block whose header is under the cursor and leaves the
    /// cursor on the line that ends the block. Only the lines that start
    /// with `+` count, without that `+`. Gives nothing where the input ends
    /// first, or where no line is under the cursor.
    fn parse_change_block(&mut self) -> (block: Option<ChangeBlock>)
        requires
            old(self).wf(),
        ensures
            final(self).wf(),
            final(self).lines() == old(self).lines(),
            final(self).marks() == old(self).marks(),
            final(self).found() == old(self).found(),
            old(self).position() >= old(self).lines().len() ==> {
                &&& block is None
                &&& final(self).position() == old(self).position()
            },
            old(self).position() < old(self).lines().len() ==> {
                let end = block_end(old(self).marks(), old(self).position() + 1);
                &&& final(self).position() == end
                &&& block is Some <==> end < old(self).lines().len()
                &&& block matches Some(b) ==> b@ == (ChangeBlockView {
                    title_range: line_range(old(self).lines(), old(self).position()),
                    content: change_text(
                        block_body(old(self).lines(), old(self).marks(), old(self).position()),
                    ),
                })
            },
    {
        let title_range = match self.get_range_of_current_line() {
            Some(range) => range,
            None => {
                return None;
            },
        };
        let ghost header = self.position();
        let ghost lines = self.lines();
        let ghost marks = self.marks();
        self.next();
        let mut content = String::new();
        loop
            invariant
                self.wf(),
                self.lines() == lines,
                self.marks() == marks,
                self.found() == old(self).found(),
                lines == old(self).lines(),
                marks == old(self).marks(),
                header == old(self).position(),
                title_range == line_range(lines, header),
                marks.len() == lines.len(),
                0 <= header < lines.len(),
                header + 1 <= self.position() <= lines.len(),
                block_end(marks, self.position()) == block_end(marks, header + 1),
                content@ == change_text(lines.subrange(header + 1, self.position())),
            ensures
                self.position() == block_end(marks, header + 1),
                self.position() < lines.len(),
            decreases lines.len() - self.position(),
        {
            let at = self.cur_line_index;
            if at >= self.lines.len() {
                return None;
            }
            if self.marks[at].is_known_pattern() {
                break;
            }
            let line = self.lines[at];
            proof {
                let before = lines.subrange(header + 1, self.position());
                let after = lines.subrange(header + 1, self.position() + 1);
                assert(after.drop_last() == before);
                assert(after.last() == line@);
            }
            let len = line.unicode_len();
            if len > 0 && line.get_char(0) == '+' {
                let added = line.substring_char(1, len);
                if !content.as_str().is_empty() {
                    proof {
                        reveal_strlit("\n");
                    }
                    content.append("\n");
                }
                content.append(added);
                proof {
                    let kept = added_lines(lines.subrange(header + 1, self.position()));
                    assert(added@ == line@.drop_first());
                    assert(kept.push(added@).drop_last() == kept);
                    assert("\n"@ == seq!['\n']) by {
                        reveal_strlit("\n");
                    }
                }
            }
            self.next();
        }
        Some(ChangeBlock { title_range, content })
    }

    /// Reads the conflict whose opening line is under the cursor. Where its
    /// body reaches a line that heads no block, that line closes the
    /// conflict, the conflict is recorded and the cursor stays on that
    /// line. Where the input ends first, nothing is recorded and the cursor
    /// is past the last line.
    fn parse_diff_marker(&mut self)
        requires
            old(self).wf(),
            old(self).position() < old(self).lines().len(),
        ensures
            final(self).wf(),
            final(self).lines() == old(self).lines(),
            final(self).marks() == old(self).marks(),
            final(self).position() == body_end(old(self).marks(), old(self).position() + 1),
            final(self).found() == if final(self).position() < old(self).lines().len() {
                old(self).found().push(
                    conflict_at(old(self).lines(), old(self).marks(), old(self).position()),
                )
            } else {
                old(self).found()
            },
    {
        let title_range = match self.get_range_of_current_line() {
            Some(range) => range,
            None => {
                return ;
            },
        };
        let ghost start = self.position();
        let ghost lines = self.lines();
        let ghost marks = self.marks();
        self.next();
        let mut blocks: Vec<ChangeBlock> = Vec::new();
        loop
            invariant
                self.wf(),
                self.lines() == lines,
                self.marks() == marks,
                self.found() == old(self).found(),
                lines == old(self).lines(),
                marks == old(self).marks(),
                start == old(self).position(),
                title_range == line_range(lines, start),
                marks.len() == lines.len(),
                0 <= start < lines.len(),
                start + 1 <= self.position() <= lines.len(),
                body_end(marks, self.position()) == body_end(marks, start + 1),
                blocks@.map_values(|b: ChangeBlock| b@) + body_blocks(
                    lines,
                    marks,
                    self.position(),
                ) == body_blocks(lines, marks, start + 1),
            ensures
                self.position() == body_end(marks, start + 1),
                self.position() < lines.len(),
                blocks@.map_values(|b: ChangeBlock| b@) == body_blocks(lines, marks, start + 1),
            decreases lines.len() - self.position(),
        {
            let at = self.cur_line_index;
            if at >= self.lines.len() {
                return ;
            }
            let ghost header = self.position();
            let ghost read = blocks@.map_values(|b: ChangeBlock| b@);
            proof {
                lemma_block_end_bounds(marks, header + 1);
            }
            let parsed = if self.marks[at].change_header {
                self.parse_change_block()
            } else if self.marks[at].contents_header {
                self.parse_contents_block()
            } else {
                assert(body_blocks(lines, marks, header) == Seq::<ChangeBlockView>::empty());
                assert(read + Seq::<ChangeBlockView>::empty() == read);
                break ;
            };
            match parsed {
                Some(block) => {
                    proof {
                        assert(block@ == block_at(lines, marks, header));
                        let rest = body_blocks(lines, marks, block_end(marks, header + 1));
                        assert(read.push(block@) + rest == read + (seq![block@] + rest));
                        assert(blocks@.push(block).map_values(|b: ChangeBlock| b@) == read.push(
                            block@,
                        ));
                    }
                    blocks.push(block);
                },
                None => {
                    proof {
                        lemma_body_end_bounds(marks, block_end(marks, header + 1));
                    }
                    return ;
                },
            }
        }
        let at = self.cur_line_index;
        let end_position = Position::new(line_number(at), get_utf16_len(self.lines[at]));
        let conflict = Conflict {
            range: Range::new(title_range.start, end_position),
            title_range,
            blocks,
        };
        proof {
            assert(conflict@ == conflict_at(lines, marks, start));
            assert(self.conflicts@.push(conflict).map_values(|c: Conflict| c@)
                == self.conflicts@.map_values(|c: Conflict| c@).push(conflict@));
        }
        self.conflicts.push(conflict);
    }

    /// Scans from the cursor to the end of the document and returns every
    /// conflict found, those of earlier scans first.
    pub fn find_conflicts(&mut self) -> (conflicts: &Vec<Conflict>)
        requires
            old(self).wf(),
        ensures
            final(self).wf(),
            final(self).lines() == old(self).lines(),
            final(self).marks() == old(self).marks(),
            final(self).position() == old(self).lines().len(),
            final(self).found() == old(self).found() + conflicts_from(
                old(self).lines(),
                old(self).marks(),
                old(self).position(),
            ),
            conflict_views(conflicts@) == final(self).found(),
    {
        let ghost lines = self.lines();
        let ghost marks = self.marks();
        let ghost wanted = self.found() + conflicts_from(lines, marks, self.position());
        while self.cur_line_index < self.lines.len()
            invariant
                self.wf(),
                self.lines() == lines,
                self.marks() == marks,
                marks.len() == lines.len(),
                self.found() + conflicts_from(lines, marks, self.position()) == wanted,
            decreases lines.len() - self.position(),
        {
            let ghost at = self.position();
            let ghost found = self.found();
            if self.marks[self.cur_line_index].conflict_start {
                proof {
                    lemma_body_end_bounds(marks, at + 1);
                }
                self.parse_diff_marker();
                proof {
                    let end = body_end(marks, at + 1);
                    if end < lines.len() {
                        let conflict = conflict_at(lines, marks, at);
                        let rest = conflicts_from(lines, marks, end + 1);
                        assert(found.push(conflict) + rest == found + (seq![conflict] + rest));
                    }
                }
            }
            self.next();
        }
        proof {
            assert(self.found() + Seq::empty() == self.found());
        }
        &self.conflicts
    }
}

/// Whether `content` ends a block: it heads the next block or closes the
/// conflict.
pub fn is_known_pattern(grammar: &MarkerGrammar, content: &str) -> (known: bool)
    ensures
        known == known_pattern_line(content@),
{
    grammar.is_change_header(content) || grammar.is_contents_header(content)
        || grammar.is_conflict_end(content)
}

} // verus!

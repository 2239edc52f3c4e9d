//! The records a scan hands out, and the positions they carry.

use vstd::prelude::*;

verus! {

/// A place in a document: a zero-based line and a column counted in UTF-16
/// code units.
#[derive(Debug, Clone, Copy, PartialEq, Eq, Structural)]
pub struct Position {
    pub line: u32,
    pub character: u32,
}

impl Position {
    pub fn new(line: u32, character: u32) -> (position: Position)
        ensures
            position == (Position { line, character }),
    {
        Position { line, character }
    }

    /// `self` is at or before `other` in document order.
    pub open spec fn at_or_before(self, other: Position) -> bool {
        self.line < other.line || (self.line == other.line && self.character <= other.character)
    }
}

/// The half-open span from `start` up to `end`.
#[derive(Debug, Clone, Copy, PartialEq, Eq, Structural)]
pub struct Range {
    pub start: Position,
    pub end: Position,
}

impl Range {
    pub fn new(start: Position, end: Position) -> (range: Range)
        ensures
            range == (Range { start, end }),
    {
        Range { start, end }
    }
}

/// One side of a conflict: either the full text of the side or the lines
/// that a diff adds to the base.
#[derive(Debug, PartialEq, Eq)]
pub struct ChangeBlock {
    /// The block's header line.
    pub title_range: Range,
    /// The block's text, its lines joined by `\n`.
    pub content: String,
}

/// What a `ChangeBlock` is, with its text as a sequence of characters.
pub struct ChangeBlockView {
    pub title_range: Range,
    pub content: Seq<char>,
}

impl View for ChangeBlock {
    type V = ChangeBlockView;

    open spec fn view(&self) -> ChangeBlockView {
        ChangeBlockView { title_range: self.title_range, content: self.content@ }
    }
}

impl Clone for ChangeBlock {
    fn clone(&self) -> (copy: ChangeBlock)
        ensures
            copy@ == self@,
    {
        ChangeBlock { title_range: self.title_range, content: self.content.clone() }
    }
}

/// One conflict region of a document.
#[derive(Debug, PartialEq, Eq)]
pub struct Conflict {
    /// From the start of the opening marker line to the end of the line
    /// that closes the conflict.
    pub range: Range,
    /// The opening marker line.
    pub title_range: Range,
    /// The sides, in document order.
    pub blocks: Vec<ChangeBlock>,
}

/// What a `Conflict` is, with its blocks as a sequence of block views.
pub struct ConflictView {
    pub range: Range,
    pub title_range: Range,
    pub blocks: Seq<ChangeBlockView>,
}

impl ConflictView {
    /// The conflict starts where its title starts and ends no earlier than
    /// the title of its last block.
    pub open spec fn wf(self) -> bool {
        &&& self.range.start == self.title_range.start
        &&& self.blocks.len() > 0 ==> self.blocks.last().title_range.end.at_or_before(
            self.range.end,
        )
    }
}

impl View for Conflict {
    type V = ConflictView;

    open spec fn view(&self) -> ConflictView {
        ConflictView {
            range: self.range,
            title_range: self.title_range,
            blocks: self.blocks@.map_values(|b: ChangeBlock| b@),
        }
    }
}

impl Clone for Conflict {
    fn clone(&self) -> (copy: Conflict)
        ensures
            copy@ == self@,
    {
        let mut blocks: Vec<ChangeBlock> = Vec::new();
        let mut k: usize = 0;
        while k < self.blocks.len()
            invariant
                k <= self.blocks@.len(),
                blocks@.len() == k,
                forall|j: int| 0 <= j < k ==> (#[trigger] blocks@[j])@ == self.blocks@[j]@,
            decreases self.blocks@.len() - k,
        {
            blocks.push(self.blocks[k].clone());
            k = k + 1;
        }
        assert(blocks@.map_values(|b: ChangeBlock| b@) =~= self.blocks@.map_values(
            |b: ChangeBlock| b@,
        ));
        Conflict { range: self.range, title_range: self.title_range, blocks }
    }
}

/// The views of a list of conflicts, in order.
pub open spec fn conflict_views(conflicts: Seq<Conflict>) -> Seq<ConflictView> {
    conflicts.map_values(|c: Conflict| c@)
}

} // verus!

//! What the editor is told about a conflict: a diagnostic on its opening
//! line and on the header of each block, and for each block a quick fix
//! that puts the block's text in place of the conflict.

use crate::types::{ChangeBlockView, Conflict, ConflictView, Range};
use vstd::prelude::*;
use vstd::string::StringExecFns;

verus! {

/// How grave a diagnostic is.
#[derive(Debug, Clone, Copy, PartialEq, Eq, Structural)]
pub enum Severity {
    Error,
    Warning,
}

/// A message attached to a span of a document.
#[derive(Debug, PartialEq, Eq)]
pub struct Diagnostic {
    pub range: Range,
    pub severity: Severity,
    pub message: String,
}

/// What a `Diagnostic` is, with its message as a sequence of characters.
pub struct DiagnosticView {
    pub range: Range,
    pub severity: Severity,
    pub message: Seq<char>,
}

impl View for Diagnostic {
    type V = DiagnosticView;

    open spec fn view(&self) -> DiagnosticView {
        DiagnosticView { range: self.range, severity: self.severity, message: self.message@ }
    }
}

impl Clone for Diagnostic {
    fn clone(&self) -> (copy: Diagnostic)
        ensures
            copy@ == self@,
    {
        Diagnostic {
            range: self.range,
            severity: self.severity,
            message: self.message.clone(),
        }
    }
}

/// A quick fix: resolves a conflict by putting `new_text` in place of
/// `range` in the document `uri`.
#[derive(Debug, PartialEq, Eq)]
pub struct CodeAction {
    pub title: String,
    /// The diagnostic that the fix answers.
    pub diagnostic: Diagnostic,
    pub uri: String,
    pub range: Range,
    pub new_text: String,
}

/// What a `CodeAction` is, with its texts as sequences of characters.
pub struct CodeActionView {
    pub title: Seq<char>,
    pub diagnostic: DiagnosticView,
    pub uri: Seq<char>,
    pub range: Range,
    pub new_text: Seq<char>,
}

impl View for CodeAction {
    type V = CodeActionView;

    open spec fn view(&self) -> CodeActionView {
        CodeActionView {
            title: self.title@,
            diagnostic: self.diagnostic@,
            uri: self.uri@,
            range: self.range,
            new_text: self.new_text@,
        }
    }
}

impl Clone for CodeAction {
    fn clone(&self) -> (copy: CodeAction)
        ensures
            copy@ == self@,
    {
        CodeAction {
            title: self.title.clone(),
            diagnostic: self.diagnostic.clone(),
            uri: self.uri.clone(),
            range: self.range,
            new_text: self.new_text.clone(),
        }
    }
}

/// The character of the decimal digit `digit`.
pub open spec fn digit_char(digit: nat) -> char {
    if digit == 0 {
        '0'
    } else if digit == 1 {
        '1'
    } else if digit == 2 {
        '2'
    } else if digit == 3 {
        '3'
    } else if digit == 4 {
        '4'
    } else if digit == 5 {
        '5'
    } else if digit == 6 {
        '6'
    } else if digit == 7 {
        '7'
    } else if digit == 8 {
        '8'
    } else {
        '9'
    }
}

/// The decimal digits of `n`, without leading zeros.
pub open spec fn decimal(n: nat) -> Seq<char>
    decreases n,
{
    if n < 10 {
        seq![digit_char(n)]
    } else {
        decimal(n / 10).push(digit_char(n % 10))
    }
}

fn digit_text(digit: usize) -> (text: &'static str)
    requires
        digit < 10,
    ensures
        text@ == seq![digit_char(digit as nat)],
{
    proof {
        reveal_strlit("0");
        reveal_strlit("1");
        reveal_strlit("2");
        reveal_strlit("3");
        reveal_strlit("4");
        reveal_strlit("5");
        reveal_strlit("6");
        reveal_strlit("7");
        reveal_strlit("8");
        reveal_strlit("9");
    }
    let text = if digit == 0 {
        "0"
    } else if digit == 1 {
        "1"
    } else if digit == 2 {
        "2"
    } else if digit == 3 {
        "3"
    } else if digit == 4 {
        "4"
    } else if digit == 5 {
        "5"
    } else if digit == 6 {
        "6"
    } else if digit == 7 {
        "7"
    } else if digit == 8 {
        "8"
    } else {
        "9"
    };
    assert(text@ =~= seq![digit_char(digit as nat)]);
    text
}

/// Appends the decimal digits of `n` to `text`.
fn append_decimal(text: &mut String, n: usize)
    ensures
        final(text)@ == old(text)@ + decimal(n as nat),
    decreases n,
{
    if n >= 10 {
        append_decimal(text, n / 10);
    }
    text.append(digit_text(n % 10));
    proof {
        let digit = seq![digit_char((n % 10) as nat)];
        if n >= 10 {
            assert(old(text)@ + decimal((n / 10) as nat) + digit == old(text)@ + decimal(
                (n / 10) as nat,
            ).push(digit_char((n % 10) as nat)));
        }
    }
}

/// Message of the diagnostic on a conflict's opening line.
pub const HEADER_MESSAGE: &'static str = "Found conflicting changes";

/// Message of the diagnostic on a block's header line.
pub const BLOCK_MESSAGE: &'static str = "Conflicting change";

/// What the title of a quick fix starts with; the block's number follows.
pub const ACTION_TITLE_PREFIX: &'static str = "Accept change #";

/// A diagnostic with the quick fixes offered for it.
pub type Entry = (Diagnostic, Vec<CodeAction>);

/// What an `Entry` is: the view of its diagnostic and the views of its
/// quick fixes.
pub type EntryView = (DiagnosticView, Seq<CodeActionView>);

/// The views of a list of diagnostics, in order.
pub open spec fn diagnostic_views(diagnostics: Seq<Diagnostic>) -> Seq<DiagnosticView> {
    diagnostics.map_values(|d: Diagnostic| d@)
}

/// The views of a list of quick fixes, in order.
pub open spec fn action_views(actions: Seq<CodeAction>) -> Seq<CodeActionView> {
    actions.map_values(|a: CodeAction| a@)
}

/// The views of a list of diagnostics with their quick fixes, in order.
pub open spec fn entry_views(entries: Seq<Entry>) -> Seq<EntryView> {
    entries.map_values(|e: Entry| (e.0@, action_views(e.1@)))
}

/// The warning on the header line of `block`.
pub open spec fn block_diagnostic(block: ChangeBlockView) -> DiagnosticView {
    DiagnosticView {
        range: block.title_range,
        severity: Severity::Warning,
        message: BLOCK_MESSAGE@,
    }
}

/// The error on the opening line of `conflict`.
pub open spec fn header_diagnostic(conflict: ConflictView) -> DiagnosticView {
    DiagnosticView {
        range: conflict.title_range,
        severity: Severity::Error,
        message: HEADER_MESSAGE@,
    }
}

/// The quick fix that resolves `conflict` in favour of its block `k`: it
/// puts the block's text in place of the whole conflict. Blocks are
/// numbered from one in the title.
pub open spec fn accept_action(conflict: ConflictView, k: int, uri: Seq<char>) -> CodeActionView {
    CodeActionView {
        title: ACTION_TITLE_PREFIX@ + decimal((k + 1) as nat),
        diagnostic: block_diagnostic(conflict.blocks[k]),
        uri,
        range: conflict.range,
        new_text: conflict.blocks[k].content,
    }
}

/// The warning on block `k` of `conflict`, with the one quick fix that
/// accepts that block.
pub open spec fn block_entry(conflict: ConflictView, k: int, uri: Seq<char>) -> EntryView {
    (block_diagnostic(conflict.blocks[k]), seq![accept_action(conflict, k, uri)])
}

/// The quick fixes of all blocks of `conflict`, in order.
pub open spec fn conflict_actions(conflict: ConflictView, uri: Seq<char>) -> Seq<CodeActionView> {
    Seq::new(conflict.blocks.len(), |k: int| accept_action(conflict, k, uri))
}

/// What one conflict gives: the entry of each block, in order, then the
/// error on the opening line with the quick fixes of all blocks.
pub open spec fn conflict_entries(conflict: ConflictView, uri: Seq<char>) -> Seq<EntryView> {
    Seq::new(conflict.blocks.len(), |k: int| block_entry(conflict, k, uri)).push(
        (header_diagnostic(conflict), conflict_actions(conflict, uri)),
    )
}

/// What a list of conflicts gives: the entries of each conflict, in order.
pub open spec fn entries_of(conflicts: Seq<ConflictView>, uri: Seq<char>) -> Seq<EntryView>
    decreases conflicts.len(),
{
    if conflicts.len() == 0 {
        Seq::empty()
    } else {
        entries_of(conflicts.drop_last(), uri) + conflict_entries(conflicts.last(), uri)
    }
}

/// The diagnostics of a list of entries, in order.
pub open spec fn entry_diagnostics(entries: Seq<EntryView>) -> Seq<DiagnosticView> {
    entries.map_values(|e: EntryView| e.0)
}

/// The quick fix for block `k` of `conflict`, and the warning it answers.
fn block_entry_of(conflict: &Conflict, k: usize, uri: &str) -> (entry: (Diagnostic, CodeAction))
    requires
        k < conflict.blocks@.len(),
    ensures
        entry.0@ == block_diagnostic(conflict@.blocks[k as int]),
        entry.1@ == accept_action(conflict@, k as int, uri@),
{
    let count = conflict.blocks.len();
    let block = &conflict.blocks[k];
    let diagnostic = Diagnostic {
        range: block.title_range,
        severity: Severity::Warning,
        message: String::from_str(BLOCK_MESSAGE),
    };
    let mut title = String::from_str(ACTION_TITLE_PREFIX);
    assert(k < count);
    append_decimal(&mut title, k + 1);
    let action = CodeAction {
        title,
        diagnostic: diagnostic.clone(),
        uri: String::from_str(uri),
        range: conflict.range,
        new_text: block.content.clone(),
    };
    (diagnostic, action)
}

/// The entries that one conflict gives.
pub(crate) fn conflict_entries_of(conflict: &Conflict, uri: &str, entries: &mut Vec<Entry>)
    ensures
        entry_views(final(entries)@) == entry_views(old(entries)@) + conflict_entries(
            conflict@,
            uri@,
        ),
{
    let ghost before = entry_views(entries@);
    let mut header_actions: Vec<CodeAction> = Vec::new();
    let mut k: usize = 0;
    while k < conflict.blocks.len()
        invariant
            k <= conflict.blocks@.len(),
            entry_views(entries@) == before + Seq::new(
                k as nat,
                |j: int| block_entry(conflict@, j, uri@),
            ),
            action_views(header_actions@) == Seq::new(
                k as nat,
                |j: int| accept_action(conflict@, j, uri@),
            ),
        decreases conflict.blocks@.len() - k,
    {
        let (diagnostic, action) = block_entry_of(conflict, k, uri);
        let ghost listed = entry_views(entries@);
        let ghost offered = action_views(header_actions@);
        header_actions.push(action.clone());
        let mut actions: Vec<CodeAction> = Vec::new();
        actions.push(action);
        proof {
            assert(action_views(actions@) == seq![accept_action(conflict@, k as int, uri@)]);
            assert(action_views(header_actions@) == offered.push(
                accept_action(conflict@, k as int, uri@),
            ));
        }
        entries.push((diagnostic, actions));
        proof {
            assert(entry_views(entries@) == listed.push(block_entry(conflict@, k as int, uri@)));
        }
        k = k + 1;
    }
    let header = Diagnostic {
        range: conflict.title_range,
        severity: Severity::Error,
        message: String::from_str(HEADER_MESSAGE),
    };
    let ghost listed = entry_views(entries@);
    proof {
        assert(conflict.blocks@.len() == conflict@.blocks.len());
        assert(action_views(header_actions@) == conflict_actions(conflict@, uri@));
    }
    entries.push((header, header_actions));
    proof {
        assert(entry_views(entries@) == listed.push(
            (header_diagnostic(conflict@), conflict_actions(conflict@, uri@)),
        ));
    }
}

fn diagnostics_equal(a: &Diagnostic, b: &Diagnostic) -> (equal: bool)
    ensures
        equal == (a@ == b@),
{
    a.range == b.range && a.severity == b.severity && a.message == b.message
}

fn actions_equal(a: &CodeAction, b: &CodeAction) -> (equal: bool)
    ensures
        equal == (a@ == b@),
{
    a.title == b.title && diagnostics_equal(&a.diagnostic, &b.diagnostic) && a.uri == b.uri
        && a.range == b.range && a.new_text == b.new_text
}

fn action_lists_equal(a: &Vec<CodeAction>, b: &Vec<CodeAction>) -> (equal: bool)
    ensures
        equal == (action_views(a@) == action_views(b@)),
{
    if a.len() != b.len() {
        assert(action_views(a@).len() != action_views(b@).len());
        return false;
    }
    let mut i: usize = 0;
    while i < a.len()
        invariant
            i <= a@.len(),
            a@.len() == b@.len(),
            forall|j: int| 0 <= j < i ==> (#[trigger] a@[j])@ == b@[j]@,
        decreases a@.len() - i,
    {
        if !actions_equal(&a[i], &b[i]) {
            assert(action_views(a@)[i as int] != action_views(b@)[i as int]);
            return false;
        }
        i = i + 1;
    }
    assert(action_views(a@) =~= action_views(b@));
    true
}

pub(crate) fn entries_equal(a: &Vec<Entry>, b: &Vec<Entry>) -> (equal: bool)
    ensures
        equal == (entry_views(a@) == entry_views(b@)),
{
    if a.len() != b.len() {
        assert(entry_views(a@).len() != entry_views(b@).len());
        return false;
    }
    let mut i: usize = 0;
    while i < a.len()
        invariant
            i <= a@.len(),
            a@.len() == b@.len(),
            forall|j: int| 0 <= j < i ==> #[trigger] entry_views(a@)[j] == entry_views(b@)[j],
        decreases a@.len() - i,
    {
        if !diagnostics_equal(&a[i].0, &b[i].0) || !action_lists_equal(&a[i].1, &b[i].1) {
            assert(entry_views(a@)[i as int] != entry_views(b@)[i as int]);
            return false;
        }
        i = i + 1;
    }
    assert(entry_views(a@) =~= entry_views(b@));
    true
}

/// Whether `wanted` is among `diagnostics`.
pub(crate) fn contains_diagnostic(diagnostics: &[Diagnostic], wanted: &Diagnostic) -> (found: bool)
    ensures
        found == diagnostic_views(diagnostics@).contains(wanted@),
{
    let mut i: usize = 0;
    while i < diagnostics.len()
        invariant
            i <= diagnostics@.len(),
            forall|j: int| 0 <= j < i ==> (#[trigger] diagnostics@[j])@ != wanted@,
        decreases diagnostics@.len() - i,
    {
        if diagnostics_equal(&diagnostics[i], wanted) {
            assert(diagnostic_views(diagnostics@)[i as int] == wanted@);
            return true;
        }
        i = i + 1;
    }
    assert(!diagnostic_views(diagnostics@).contains(wanted@)) by {
        if diagnostic_views(diagnostics@).contains(wanted@) {
            let j = choose|j: int|
                0 <= j < diagnostic_views(diagnostics@).len() && diagnostic_views(
                    diagnostics@,
                )[j] == wanted@;
            assert(diagnostics@[j]@ == wanted@);
        }
    }
    false
}

/// The quick fixes of those entries whose diagnostic is among
/// `requested`, entry after entry.
pub open spec fn matching_actions(entries: Seq<EntryView>, requested: Seq<DiagnosticView>) -> Seq<
    CodeActionView,
>
    decreases entries.len(),
{
    if entries.len() == 0 {
        Seq::empty()
    } else if requested.contains(entries.last().0) {
        matching_actions(entries.drop_last(), requested) + entries.last().1
    } else {
        matching_actions(entries.drop_last(), requested)
    }
}

/// The diagnostics of `entries`, in order.
pub(crate) fn diagnostics_of(entries: &Vec<Entry>) -> (diagnostics: Vec<Diagnostic>)
    ensures
        diagnostic_views(diagnostics@) == entry_diagnostics(entry_views(entries@)),
{
    let mut diagnostics: Vec<Diagnostic> = Vec::new();
    let mut i: usize = 0;
    while i < entries.len()
        invariant
            i <= entries@.len(),
            diagnostics@.len() == i,
            forall|j: int| 0 <= j < i ==> (#[trigger] diagnostics@[j])@ == entries@[j].0@,
        decreases entries@.len() - i,
    {
        diagnostics.push(entries[i].0.clone());
        i = i + 1;
    }
    assert(diagnostic_views(diagnostics@) =~= entry_diagnostics(entry_views(entries@)));
    diagnostics
}

} // verus!

use jj_lsp::backend::Backend;
use jj_lsp::diagnostics::{CodeAction, Diagnostic, Severity};
use jj_lsp::grammar::MarkerGrammar;
use jj_lsp::types::{ChangeBlock, Conflict, Position, Range};

fn span(start_line: u32, start_column: u32, end_line: u32, end_column: u32) -> Range {
    Range {
        start: Position { line: start_line, character: start_column },
        end: Position { line: end_line, character: end_column },
    }
}

fn warning(range: Range) -> Diagnostic {
    Diagnostic { range, severity: Severity::Warning, message: "Conflicting change".to_string() }
}

fn error(range: Range) -> Diagnostic {
    Diagnostic {
        range,
        severity: Severity::Error,
        message: "Found conflicting changes".to_string(),
    }
}

fn accept(number: usize, header: Range, uri: &str, range: Range, new_text: &str) -> CodeAction {
    CodeAction {
        title: format!("Accept change #{}", number),
        diagnostic: warning(header),
        uri: uri.to_string(),
        range,
        new_text: new_text.to_string(),
    }
}

const TWO_SIDES: &str = "<<<<<<< Conflict 1 of 1
%%%%%%% Changes from base to side #1
-a
+b
+++++++ Contents of side #2
c
>>>>>>> Conflict 1 of 1 ends
";

fn two_sides_entries(uri: &str) -> Vec<(Diagnostic, Vec<CodeAction>)> {
    let whole = span(0, 0, 6, 28);
    let first = accept(1, span(1, 0, 1, 36), uri, whole, "b");
    let second = accept(2, span(4, 0, 4, 27), uri, whole, "c");
    vec![
        (warning(span(1, 0, 1, 36)), vec![first.clone()]),
        (warning(span(4, 0, 4, 27)), vec![second.clone()]),
        (error(span(0, 0, 0, 23)), vec![first, second]),
    ]
}

#[test]
fn no_conflicts_give_no_entries() {
    let backend = Backend::new();
    assert!(backend.get_diagnostics_and_code_actions_from_conflicts(&[], "file:///a").is_empty());
}

#[test]
fn each_block_gets_a_warning_and_the_conflict_an_error() {
    let backend = Backend::new();
    let conflict = Conflict {
        range: span(0, 0, 6, 28),
        title_range: span(0, 0, 0, 23),
        blocks: vec![
            ChangeBlock { title_range: span(1, 0, 1, 36), content: "b".to_string() },
            ChangeBlock { title_range: span(4, 0, 4, 27), content: "c".to_string() },
        ],
    };
    let entries =
        backend.get_diagnostics_and_code_actions_from_conflicts(&[conflict], "file:///a");
    assert_eq!(entries, two_sides_entries("file:///a"));
}

#[test]
fn conflict_without_blocks_gets_an_error_without_fixes() {
    let backend = Backend::new();
    let conflict =
        Conflict { range: span(2, 0, 3, 5), title_range: span(2, 0, 2, 23), blocks: vec![] };
    let entries = backend.get_diagnostics_and_code_actions_from_conflicts(&[conflict], "u");
    assert_eq!(entries, vec![(error(span(2, 0, 2, 23)), vec![])]);
}

#[test]
fn entries_follow_the_order_of_the_conflicts() {
    let backend = Backend::new();
    let first = Conflict {
        range: span(0, 0, 2, 1),
        title_range: span(0, 0, 0, 1),
        blocks: vec![ChangeBlock { title_range: span(1, 0, 1, 1), content: "x".to_string() }],
    };
    let second = Conflict {
        range: span(5, 0, 7, 1),
        title_range: span(5, 0, 5, 1),
        blocks: vec![ChangeBlock { title_range: span(6, 0, 6, 1), content: "y".to_string() }],
    };
    let entries = backend.get_diagnostics_and_code_actions_from_conflicts(&[first, second], "u");
    let fix_x = accept(1, span(1, 0, 1, 1), "u", span(0, 0, 2, 1), "x");
    let fix_y = accept(1, span(6, 0, 6, 1), "u", span(5, 0, 7, 1), "y");
    assert_eq!(
        entries,
        vec![
            (warning(span(1, 0, 1, 1)), vec![fix_x.clone()]),
            (error(span(0, 0, 0, 1)), vec![fix_x]),
            (warning(span(6, 0, 6, 1)), vec![fix_y.clone()]),
            (error(span(5, 0, 5, 1)), vec![fix_y]),
        ]
    );
}

#[test]
fn fixes_are_numbered_in_decimal_from_one() {
    let backend = Backend::new();
    let blocks: Vec<ChangeBlock> = (0..120u32)
        .map(|k| ChangeBlock { title_range: span(k + 1, 0, k + 1, 3), content: String::new() })
        .collect();
    let conflict = Conflict { range: span(0, 0, 121, 3), title_range: span(0, 0, 0, 3), blocks };
    let entries = backend.get_diagnostics_and_code_actions_from_conflicts(&[conflict], "u");
    assert_eq!(entries.len(), 121);
    for k in 0..120usize {
        assert_eq!(entries[k].1.len(), 1);
        assert_eq!(entries[k].1[0].title, format!("Accept change #{}", k + 1));
    }
    assert_eq!(entries[0].1[0].title, "Accept change #1");
    assert_eq!(entries[8].1[0].title, "Accept change #9");
    assert_eq!(entries[9].1[0].title, "Accept change #10");
    assert_eq!(entries[99].1[0].title, "Accept change #100");
    assert_eq!(entries[119].1[0].title, "Accept change #120");
    assert_eq!(entries[120].1.len(), 120);
    assert_eq!(entries[120].1[108].title, "Accept change #109");
}

#[test]
fn opening_a_document_publishes_its_diagnostics() {
    let grammar = MarkerGrammar::new().unwrap();
    let mut backend = Backend::new();
    let diagnostics = backend.did_open(&grammar, "file:///a", TWO_SIDES);
    assert_eq!(
        diagnostics,
        vec![warning(span(1, 0, 1, 36)), warning(span(4, 0, 4, 27)), error(span(0, 0, 0, 23))]
    );
    let clean = backend.did_open(&grammar, "file:///b", "no conflict here\n");
    assert!(clean.is_empty());
}

#[test]
fn opening_again_publishes_again() {
    let grammar = MarkerGrammar::new().unwrap();
    let mut backend = Backend::new();
    let first = backend.did_open(&grammar, "file:///a", TWO_SIDES);
    let second = backend.did_open(&grammar, "file:///a", TWO_SIDES);
    assert_eq!(first, second);
    assert_eq!(first.len(), 3);
}

#[test]
fn a_change_publishes_only_what_differs() {
    let grammar = MarkerGrammar::new().unwrap();
    let mut backend = Backend::new();
    backend.did_open(&grammar, "file:///a", TWO_SIDES);
    assert_eq!(backend.did_change(&grammar, "file:///a", TWO_SIDES), None);
    let resolved = backend.did_change(&grammar, "file:///a", "b\n");
    assert_eq!(resolved, Some(vec![]));
    assert_eq!(backend.did_change(&grammar, "file:///a", "c\n"), None);
    let again = backend.did_change(&grammar, "file:///a", TWO_SIDES);
    assert_eq!(again.map(|d| d.len()), Some(3));
}

#[test]
fn a_change_to_an_unknown_document_is_published() {
    let grammar = MarkerGrammar::new().unwrap();
    let mut backend = Backend::new();
    assert_eq!(backend.did_change(&grammar, "file:///a", "plain\n"), Some(vec![]));
    assert_eq!(backend.did_change(&grammar, "file:///a", "plain\n"), None);
}

#[test]
fn a_change_that_moves_a_conflict_is_published() {
    let grammar = MarkerGrammar::new().unwrap();
    let mut backend = Backend::new();
    backend.did_open(&grammar, "file:///a", TWO_SIDES);
    let moved = format!("\n{}", TWO_SIDES);
    let diagnostics = backend.did_change(&grammar, "file:///a", &moved).unwrap();
    assert_eq!(
        diagnostics,
        vec![warning(span(2, 0, 2, 36)), warning(span(5, 0, 5, 27)), error(span(1, 0, 1, 23))]
    );
}

#[test]
fn documents_are_kept_apart() {
    let grammar = MarkerGrammar::new().unwrap();
    let mut backend = Backend::new();
    backend.did_open(&grammar, "file:///a", TWO_SIDES);
    backend.did_open(&grammar, "file:///b", "plain\n");
    assert_eq!(backend.did_change(&grammar, "file:///a", TWO_SIDES), None);
    assert_eq!(backend.did_change(&grammar, "file:///b", "plain\n"), None);
    assert_eq!(backend.did_change(&grammar, "file:///b", TWO_SIDES).map(|d| d.len()), Some(3));
    assert_eq!(backend.did_change(&grammar, "file:///a", TWO_SIDES), None);
    let fixes = backend.code_action("file:///b", &[error(span(0, 0, 0, 23))]).unwrap();
    assert_eq!(fixes.len(), 2);
    assert_eq!(fixes[0].uri, "file:///b");
}

#[test]
fn no_fixes_for_a_document_that_was_never_opened() {
    let backend = Backend::new();
    assert_eq!(backend.code_action("file:///a", &[]), None);
    assert_eq!(backend.code_action("file:///a", &[error(span(0, 0, 0, 23))]), None);
}

#[test]
fn fixes_of_the_requested_diagnostics_are_offered() {
    let grammar = MarkerGrammar::new().unwrap();
    let mut backend = Backend::new();
    backend.did_open(&grammar, "file:///a", TWO_SIDES);
    let whole = span(0, 0, 6, 28);
    let first = accept(1, span(1, 0, 1, 36), "file:///a", whole, "b");
    let second = accept(2, span(4, 0, 4, 27), "file:///a", whole, "c");

    assert_eq!(backend.code_action("file:///a", &[]), Some(vec![]));
    assert_eq!(
        backend.code_action("file:///a", &[warning(span(4, 0, 4, 27))]),
        Some(vec![second.clone()])
    );
    assert_eq!(
        backend.code_action("file:///a", &[error(span(0, 0, 0, 23))]),
        Some(vec![first.clone(), second.clone()])
    );
    assert_eq!(
        backend.code_action(
            "file:///a",
            &[error(span(0, 0, 0, 23)), warning(span(1, 0, 1, 36))]
        ),
        Some(vec![first.clone(), first.clone(), second.clone()])
    );
}

#[test]
fn diagnostics_that_were_not_published_match_nothing() {
    let grammar = MarkerGrammar::new().unwrap();
    let mut backend = Backend::new();
    backend.did_open(&grammar, "file:///a", TWO_SIDES);
    assert_eq!(backend.code_action("file:///a", &[warning(span(0, 0, 0, 23))]), Some(vec![]));
    assert_eq!(backend.code_action("file:///a", &[error(span(0, 0, 0, 22))]), Some(vec![]));
    let other = Diagnostic {
        range: span(0, 0, 0, 23),
        severity: Severity::Error,
        message: "something else".to_string(),
    };
    assert_eq!(backend.code_action("file:///a", &[other]), Some(vec![]));
}

#[test]
fn copies_are_equal_to_what_they_copy() {
    let diagnostic = warning(span(1, 2, 3, 4));
    assert_eq!(diagnostic.clone(), diagnostic);
    let action = accept(7, span(1, 2, 3, 4), "u", span(0, 0, 9, 9), "text");
    assert_eq!(action.clone(), action);
}

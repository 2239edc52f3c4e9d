use jj_lsp::conflict::Analyzer;
use jj_lsp::grammar::{LineMarks, MarkerGrammar};
use jj_lsp::types::{ChangeBlock, Conflict, Position, Range};

const START: &str = "<<<<<<< Conflict 1 of 1";
const END: &str = ">>>>>>> Conflict 1 of 1 ends";
const CHANGES: &str = "%%%%%%% Changes from base to side #1";
const SIDE_1: &str = "+++++++ Contents of side #1";
const SIDE_2: &str = "+++++++ Contents of side #2";

/// The lines joined by line feeds, with none after the last line.
fn text(lines: &[&str]) -> String {
    lines.join("\n")
}

fn scan(content: &str) -> Vec<Conflict> {
    let grammar = MarkerGrammar::new().unwrap();
    let mut analyzer = Analyzer::new(&grammar, content);
    analyzer.find_conflicts().clone()
}

fn span(start_line: u32, start_column: u32, end_line: u32, end_column: u32) -> Range {
    Range {
        start: Position { line: start_line, character: start_column },
        end: Position { line: end_line, character: end_column },
    }
}

fn line_span(line: u32, length: u32) -> Range {
    span(line, 0, line, length)
}

fn block(line: u32, length: u32, content: &str) -> ChangeBlock {
    ChangeBlock { title_range: line_span(line, length), content: content.to_string() }
}

#[test]
fn empty_text_has_no_conflicts() {
    assert_eq!(scan(""), Vec::<Conflict>::new());
}

#[test]
fn text_without_markers_has_no_conflicts() {
    assert!(scan("just\nsome\ntext\n").is_empty());
    assert!(scan("\n\n\n").is_empty());
    assert!(scan(&text(&[END, SIDE_1, CHANGES, ""])).is_empty());
}

#[test]
fn scanning_twice_gives_equal_results() {
    let content =
        text(&["intro", START, CHANGES, "-a", "+b", SIDE_2, "c", END, "outro", ""]);
    let first = scan(&content);
    let second = scan(&content);
    assert_eq!(first.len(), 1);
    assert_eq!(first, second);
}

#[test]
fn two_contents_blocks() {
    let content = "<<<<<<< Conflict 1 of 2\n+++++++ Contents of side #1\nfoo\n+++++++ Contents of side #2\nbar\n>>>>>>> Conflict 1 of 2 ends";
    assert_eq!(
        scan(content),
        vec![Conflict {
            range: span(0, 0, 5, 28),
            title_range: line_span(0, 23),
            blocks: vec![block(1, 27, "foo"), block(3, 27, "bar")],
        }]
    );
}

#[test]
fn missing_end_marker_drops_the_conflict() {
    let content = "<<<<<<< Conflict 1 of 2\n+++++++ Contents of side #1\nfoo";
    assert!(scan(content).is_empty());
}

#[test]
fn change_block_keeps_added_lines_only() {
    let content = "<<<<<<< Conflict 1 of 2\n%%%%%%% Changes from base to side #1\n+foo\n-baz\n>>>>>>> Conflict 1 of 2 ends";
    assert_eq!(
        scan(content),
        vec![Conflict {
            range: span(0, 0, 4, 28),
            title_range: line_span(0, 23),
            blocks: vec![block(1, 36, "foo")],
        }]
    );
}

#[test]
fn two_conflicts_in_sequence() {
    let content = text(&[
        "header",
        "<<<<<<< Conflict 1 of 2",
        SIDE_1,
        "one",
        SIDE_2,
        "two",
        ">>>>>>> Conflict 1 of 2 ends",
        "between",
        "<<<<<<< Conflict 2 of 2",
        CHANGES,
        " context",
        "-old",
        "+new",
        SIDE_2,
        "three",
        "four",
        ">>>>>>> Conflict 2 of 2 ends",
        "footer",
        "",
    ]);
    let conflicts = scan(&content);
    assert_eq!(
        conflicts,
        vec![
            Conflict {
                range: span(1, 0, 6, 28),
                title_range: line_span(1, 23),
                blocks: vec![block(2, 27, "one"), block(4, 27, "two")],
            },
            Conflict {
                range: span(8, 0, 16, 28),
                title_range: line_span(8, 23),
                blocks: vec![block(9, 36, "new"), block(13, 27, "three\nfour")],
            },
        ]
    );
    assert!(conflicts[0].range.end.line < conflicts[1].range.start.line);
}

#[test]
fn conflicts_back_to_back() {
    let content = text(&[START, SIDE_1, "a", END, START, SIDE_1, "b", END, ""]);
    let conflicts = scan(&content);
    assert_eq!(conflicts.len(), 2);
    assert_eq!(conflicts[0].range, span(0, 0, 3, 28));
    assert_eq!(conflicts[1].range, span(4, 0, 7, 28));
    assert_eq!(conflicts[0].blocks[0].content, "a");
    assert_eq!(conflicts[1].blocks[0].content, "b");
}

#[test]
fn k_contents_blocks_give_k_blocks() {
    for k in 0..6usize {
        let mut content = String::from("<<<<<<< Conflict 1 of 1\n");
        for side in 1..=k {
            content.push_str(&format!("+++++++ Contents of side #{}\n", side));
            content.push_str(&format!("first {}\nsecond {}\n", side, side));
        }
        content.push_str(">>>>>>> Conflict 1 of 1 ends\n");
        let conflicts = scan(&content);
        assert_eq!(conflicts.len(), 1);
        assert_eq!(conflicts[0].blocks.len(), k);
        for side in 1..=k {
            assert_eq!(
                conflicts[0].blocks[side - 1],
                block((3 * side - 2) as u32, 27, &format!("first {}\nsecond {}", side, side))
            );
        }
        assert_eq!(conflicts[0].title_range, line_span(0, 23));
        assert_eq!(conflicts[0].range, span(0, 0, (3 * k + 1) as u32, 28));
    }
}

#[test]
fn conflict_without_blocks() {
    assert_eq!(
        scan(&text(&[START, END, ""])),
        vec![Conflict { range: span(0, 0, 1, 28), title_range: line_span(0, 23), blocks: vec![] }]
    );
}

#[test]
fn start_marker_on_the_last_line_is_dropped() {
    assert!(scan(&text(&["text", START])).is_empty());
    assert!(scan(&text(&[START, ""])).is_empty());
}

#[test]
fn header_on_the_last_line_drops_the_conflict() {
    assert!(scan(&text(&[START, SIDE_1])).is_empty());
    assert!(scan(&text(&[START, CHANGES, ""])).is_empty());
}

#[test]
fn unclosed_conflict_after_a_closed_one_keeps_the_first() {
    let content = text(&[START, SIDE_1, "a", END, START, SIDE_1, "b", ""]);
    let conflicts = scan(&content);
    assert_eq!(conflicts.len(), 1);
    assert_eq!(conflicts[0].range, span(0, 0, 3, 28));
}

#[test]
fn any_line_that_heads_no_block_closes_the_conflict() {
    assert_eq!(
        scan(&text(&[START, "unrelated", "more text", ""])),
        vec![Conflict { range: span(0, 0, 1, 9), title_range: line_span(0, 23), blocks: vec![] }]
    );
}

#[test]
fn a_start_marker_that_closes_a_conflict_opens_none() {
    let content = text(&["<<<<<<< Conflict 1 of 2", "<<<<<<< Conflict 2 of 2", SIDE_1, "a", END, ""]);
    assert_eq!(
        scan(&content),
        vec![Conflict { range: span(0, 0, 1, 23), title_range: line_span(0, 23), blocks: vec![] }]
    );
}

#[test]
fn change_block_ignores_context_and_removed_lines() {
    let content = text(&[
        START,
        CHANGES,
        " context",
        "-removed",
        "+added one",
        "plain",
        "+added two",
        "+",
        "++plus",
        END,
        "",
    ]);
    let conflicts = scan(&content);
    assert_eq!(conflicts.len(), 1);
    assert_eq!(conflicts[0].blocks, vec![block(1, 36, "added one\nadded two\n\n+plus")]);
}

#[test]
fn change_block_without_added_lines_is_empty() {
    let content = text(&[START, "%%%%%%% Changes from side #1", "-gone", END, ""]);
    let conflicts = scan(&content);
    assert_eq!(conflicts.len(), 1);
    assert_eq!(conflicts[0].blocks, vec![block(1, 28, "")]);
}

#[test]
fn contents_block_keeps_empty_lines_where_they_stand() {
    let content = text(&[
        START,
        SIDE_1,
        "",
        "",
        "a",
        "",
        "b",
        "",
        "%%%%%%% Changes from base to side #2",
        "+",
        "+x",
        END,
        "",
    ]);
    let conflicts = scan(&content);
    assert_eq!(conflicts.len(), 1);
    assert_eq!(conflicts[0].blocks[0].content, "\n\na\n\nb\n");
    assert_eq!(conflicts[0].blocks[1].content, "x");
}

#[test]
fn contents_block_that_starts_with_an_empty_line() {
    let conflicts = scan(&text(&[START, SIDE_1, "", "a", END, ""]));
    assert_eq!(conflicts.len(), 1);
    assert_eq!(conflicts[0].blocks, vec![block(1, 27, "\na")]);
}

#[test]
fn contents_block_of_empty_lines_only() {
    let none = scan(&text(&[START, SIDE_1, END, ""]));
    assert_eq!(none[0].blocks, vec![block(1, 27, "")]);
    let one = scan(&text(&[START, SIDE_1, "", END, ""]));
    assert_eq!(one[0].blocks, vec![block(1, 27, "")]);
    let two = scan(&text(&[START, SIDE_1, "", "", END, ""]));
    assert_eq!(two[0].blocks, vec![block(1, 27, "\n")]);
    let three = scan(&text(&[START, SIDE_1, "", "", "", END, ""]));
    assert_eq!(three[0].blocks, vec![block(1, 27, "\n\n")]);
}

#[test]
fn contents_block_joins_as_the_standard_library_does() {
    let bodies: [&[&str]; 6] = [
        &[],
        &[""],
        &["", "a"],
        &["a", ""],
        &["", "", "+x", "-y", " z", ""],
        &["one", "two", "three"],
    ];
    for body in bodies {
        let mut lines = vec![START, SIDE_1];
        lines.extend_from_slice(body);
        lines.push(END);
        lines.push("");
        let conflicts = scan(&text(&lines));
        assert_eq!(conflicts.len(), 1);
        assert_eq!(conflicts[0].blocks, vec![block(1, 27, &body.join("\n"))]);
    }
}

#[test]
fn change_block_puts_no_separator_after_empty_text() {
    let content = text(&[START, CHANGES, "+", "+", "+a", "+", "+b", "+", END, ""]);
    let conflicts = scan(&content);
    assert_eq!(conflicts.len(), 1);
    assert_eq!(conflicts[0].blocks, vec![block(1, 36, "a\n\nb\n")]);
}

#[test]
fn contents_block_keeps_lines_verbatim() {
    let content = text(&[
        START,
        SIDE_1,
        "+plus",
        "-minus",
        "  indented",
        "<<<<<<< Conflict 9 of 9",
        END,
        "",
    ]);
    let conflicts = scan(&content);
    assert_eq!(conflicts.len(), 1);
    assert_eq!(
        conflicts[0].blocks,
        vec![block(1, 27, "+plus\n-minus\n  indented\n<<<<<<< Conflict 9 of 9")]
    );
    assert_eq!(conflicts[0].range, span(0, 0, 6, 28));
}

#[test]
fn carriage_returns_before_line_feeds_belong_to_no_line() {
    let content = [START, SIDE_1, "foo", "bar", END, ""].join("\r\n");
    assert_eq!(
        scan(&content),
        vec![Conflict {
            range: span(0, 0, 4, 28),
            title_range: line_span(0, 23),
            blocks: vec![block(1, 27, "foo\nbar")],
        }]
    );
}

#[test]
fn only_one_carriage_return_is_taken_off_a_line() {
    let content = "<<<<<<< Conflict 1 of 1\na\r\r\nrest\n";
    assert_eq!(
        scan(content),
        vec![Conflict { range: span(0, 0, 1, 2), title_range: line_span(0, 23), blocks: vec![] }]
    );
}

#[test]
fn carriage_return_at_the_end_of_the_text_stays_in_the_line() {
    let unclosed = text(&[START, SIDE_1, "foo", ">>>>>>> Conflict 1 of 1 ends\r"]);
    assert!(scan(&unclosed).is_empty());
    let closed = text(&[START, "foo\rbar\r"]);
    assert_eq!(
        scan(&closed),
        vec![Conflict { range: span(0, 0, 1, 8), title_range: line_span(0, 23), blocks: vec![] }]
    );
}

#[test]
fn columns_count_utf16_units() {
    let conflicts = scan(&text(&[START, "closing 😀😀 line", ""]));
    assert_eq!(conflicts.len(), 1);
    assert_eq!(conflicts[0].range, span(0, 0, 1, 17));
    let conflicts = scan(&text(&["é", START, SIDE_1, "😀 é", END, ""]));
    assert_eq!(conflicts.len(), 1);
    assert_eq!(conflicts[0].blocks, vec![block(2, 27, "😀 é")]);
}

#[test]
fn conflict_starts_with_its_title_and_ends_after_its_last_block() {
    let content =
        text(&["a", "b", START, SIDE_1, "x", "%%%%%%% Changes from base #1 to side #2", "+y", END, ""]);
    let conflicts = scan(&content);
    assert_eq!(conflicts.len(), 1);
    let conflict = &conflicts[0];
    assert_eq!(conflict.range.start, conflict.title_range.start);
    let last = conflict.blocks.last().unwrap().title_range.end;
    let end = conflict.range.end;
    assert!((last.line, last.character) <= (end.line, end.character));
    assert_eq!(conflict.title_range, line_span(2, 23));
    assert_eq!(conflict.blocks[1].title_range, line_span(5, 39));
}

fn marks(start: bool, end: bool, change: bool, contents: bool) -> LineMarks {
    LineMarks {
        conflict_start: start,
        conflict_end: end,
        change_header: change,
        contents_header: contents,
    }
}

#[test]
fn marked_lines_decide_the_scan() {
    let lines = vec!["open", "side", "+kept", "dropped", "close", "tail"];
    let plain = marks(false, false, false, false);
    let line_marks = vec![
        marks(true, false, false, false),
        marks(false, false, true, false),
        plain,
        plain,
        marks(false, true, false, false),
        plain,
    ];
    let mut analyzer = Analyzer::from_marked(lines, line_marks);
    assert_eq!(
        analyzer.find_conflicts(),
        &vec![Conflict {
            range: span(0, 0, 4, 5),
            title_range: line_span(0, 4),
            blocks: vec![block(1, 4, "kept")],
        }]
    );
}

#[test]
fn a_line_with_both_header_marks_heads_a_diff() {
    let lines = vec!["open", "side", "+kept", "dropped", "close"];
    let plain = marks(false, false, false, false);
    let line_marks = vec![
        marks(true, false, false, false),
        marks(false, false, true, true),
        plain,
        plain,
        marks(false, true, false, false),
    ];
    let mut analyzer = Analyzer::from_marked(lines, line_marks);
    let conflicts = analyzer.find_conflicts();
    assert_eq!(conflicts.len(), 1);
    assert_eq!(conflicts[0].blocks, vec![block(1, 4, "kept")]);
}

#[test]
fn a_second_scan_finds_nothing_new() {
    let grammar = MarkerGrammar::new().unwrap();
    let content = text(&[START, SIDE_1, "foo", END, ""]);
    let mut analyzer = Analyzer::new(&grammar, &content);
    let first = analyzer.find_conflicts().clone();
    let second = analyzer.find_conflicts().clone();
    assert_eq!(first.len(), 1);
    assert_eq!(first, second);
}

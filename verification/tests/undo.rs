use std::path::PathBuf;

use reorganize::undo::{
    latest_log_name, log_line, newest_first, parse_log, precheck, MoveOutcome, Reversal,
};

fn paths(moves: Vec<(String, String)>) -> Vec<(PathBuf, PathBuf)> {
    moves
        .into_iter()
        .map(|(from, to)| (PathBuf::from(from), PathBuf::from(to)))
        .collect()
}

#[test]
fn parses_tab_separated_moves() {
    let moves = paths(parse_log("a.txt\tDocuments\\a.txt\nb.jpg\tImages\\b.jpg\n"));

    assert_eq!(moves.len(), 2);
    assert_eq!(moves[0].0, PathBuf::from("a.txt"));
    assert_eq!(moves[0].1, PathBuf::from("Documents\\a.txt"));
}

#[test]
fn ignores_blank_and_malformed_lines() {
    let moves = paths(parse_log("\n\nnot-a-move\na\tb\n\t\n"));

    assert_eq!(moves.len(), 1);
    assert_eq!(moves[0], (PathBuf::from("a"), PathBuf::from("b")));
}

// Spaces are the common case on Windows; tabs are illegal in file names,
// which is why a plain TSV needs no escaping.
#[test]
fn paths_with_spaces_survive_a_round_trip() {
    let moves = paths(parse_log("my file.txt\tDocuments\\my file.txt\n"));

    assert_eq!(moves.len(), 1);
    assert_eq!(moves[0].1, PathBuf::from("Documents\\my file.txt"));
}

#[test]
fn what_is_logged_reads_back() {
    let mut contents = String::new();
    contents.push_str(&log_line("C:\\a\\notes.txt", "C:\\a\\Documents\\notes (1).txt"));
    contents.push_str(&log_line("x", "y"));

    let moves = parse_log(&contents);

    assert_eq!(
        moves,
        vec![
            ("C:\\a\\notes.txt".to_string(), "C:\\a\\Documents\\notes (1).txt".to_string()),
            ("x".to_string(), "y".to_string()),
        ]
    );
}

#[test]
fn a_line_is_the_two_paths_and_a_tab() {
    assert_eq!(log_line("a", "b"), "a\tb\n");
}

#[test]
fn windows_line_endings_and_a_missing_final_newline_are_read() {
    let moves = parse_log("a\tb\r\nc\td");

    assert_eq!(
        moves,
        vec![("a".to_string(), "b".to_string()), ("c".to_string(), "d".to_string())]
    );
}

#[test]
fn only_the_first_tab_separates() {
    let moves = parse_log("a\tb\tc\n");

    assert_eq!(moves, vec![("a".to_string(), "b\tc".to_string())]);
}

#[test]
fn moves_are_undone_newest_first() {
    let order = newest_first(vec![
        ("1".to_string(), "a".to_string()),
        ("2".to_string(), "b".to_string()),
        ("3".to_string(), "c".to_string()),
    ]);

    let froms: Vec<&str> = order.iter().map(|m| m.0.as_str()).collect();
    assert_eq!(froms, vec!["3", "2", "1"]);
}

#[test]
fn a_missing_destination_is_checked_first() {
    assert!(matches!(precheck(false, true), Some(MoveOutcome::DestinationMissing)));
    assert!(matches!(precheck(false, false), Some(MoveOutcome::DestinationMissing)));
    assert!(matches!(precheck(true, true), Some(MoveOutcome::OriginalOccupied)));
    assert!(precheck(true, false).is_none());
}

#[test]
fn skips_name_the_path_and_the_reason() {
    let mut reversal = Reversal::new();

    reversal.record("from".to_string(), "to".to_string(), MoveOutcome::DestinationMissing);
    reversal.record("from".to_string(), "to".to_string(), MoveOutcome::OriginalOccupied);
    reversal.record(
        "from".to_string(),
        "to".to_string(),
        MoveOutcome::ParentNotCreated("denied".to_string()),
    );
    reversal.record(
        "from".to_string(),
        "to".to_string(),
        MoveOutcome::RenameFailed("busy".to_string()),
    );
    reversal.record("from".to_string(), "to".to_string(), MoveOutcome::Restored);

    assert_eq!(reversal.restored, 1);
    assert_eq!(
        reversal.skipped,
        vec![
            ("to".to_string(), "no longer at the destination".to_string()),
            ("from".to_string(), "something is already at the original path".to_string()),
            ("from".to_string(), "denied".to_string()),
            ("to".to_string(), "busy".to_string()),
        ]
    );
}

#[test]
fn the_log_is_cleared_only_when_nothing_was_skipped() {
    let mut reversal = Reversal::new();
    assert!(reversal.clears_log());

    reversal.record("from".to_string(), "to".to_string(), MoveOutcome::Restored);
    assert!(reversal.clears_log());

    reversal.record("from".to_string(), "to".to_string(), MoveOutcome::DestinationMissing);
    assert!(!reversal.clears_log());
}

#[test]
fn the_latest_log_is_the_greatest_tsv_name() {
    let names = vec![
        "1700000000000-12.tsv".to_string(),
        "1800000000000-3.tsv".to_string(),
        "1900000000000-1.txt".to_string(),
        "notes".to_string(),
    ];

    assert_eq!(latest_log_name(&names).as_deref(), Some("1800000000000-3.tsv"));
    assert_eq!(latest_log_name(&vec!["a.txt".to_string(), ".tsv".to_string()]), None);
    assert_eq!(latest_log_name(&Vec::new()), None);
}

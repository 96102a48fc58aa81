use std::collections::HashSet;

use reorganize::organizer::duplicate::{candidate, resolve_duplicate};

fn taken(names: &[&str]) -> HashSet<String> {
    names.iter().map(|n| n.to_string()).collect()
}

#[test]
fn leaves_path_untouched_when_nothing_collides() {
    let existing = taken(&[]);
    let mut dest = "notes.txt".to_string();

    assert!(resolve_duplicate(&mut dest, "notes", Some("txt"), &|n: &str| existing.contains(n)));
    assert_eq!(dest, "notes.txt");
}

#[test]
fn appends_counter_on_first_collision() {
    let existing = taken(&["notes.txt"]);
    let mut dest = "notes.txt".to_string();

    assert!(resolve_duplicate(&mut dest, "notes", Some("txt"), &|n: &str| existing.contains(n)));
    assert_eq!(dest, "notes (1).txt");
}

#[test]
fn skips_past_several_existing_duplicates() {
    let existing = taken(&["notes.txt", "notes (1).txt", "notes (2).txt"]);
    let mut dest = "notes.txt".to_string();

    assert!(resolve_duplicate(&mut dest, "notes", Some("txt"), &|n: &str| existing.contains(n)));
    assert_eq!(dest, "notes (3).txt");
}

#[test]
fn de_duplicates_files_without_an_extension() {
    let existing = taken(&["LICENSE"]);
    let mut dest = "LICENSE".to_string();

    assert!(resolve_duplicate(&mut dest, "LICENSE", None, &|n: &str| existing.contains(n)));
    assert_eq!(dest, "LICENSE (1)");
}

#[test]
fn skips_past_several_extensionless_duplicates() {
    let existing = taken(&["Makefile", "Makefile (1)"]);
    let mut dest = "Makefile".to_string();

    assert!(resolve_duplicate(&mut dest, "Makefile", None, &|n: &str| existing.contains(n)));
    assert_eq!(dest, "Makefile (2)");
}

#[test]
fn does_not_append_a_bare_dot_when_extension_is_absent() {
    let existing = taken(&["LICENSE"]);
    let mut dest = "LICENSE".to_string();

    assert!(resolve_duplicate(&mut dest, "LICENSE", None, &|n: &str| existing.contains(n)));
    assert!(!dest.ends_with('.'), "unexpected trailing dot in {dest:?}");
}

#[test]
fn candidates_count_in_decimal() {
    assert_eq!(candidate("a", Some("b"), 10), "a (10).b");
    assert_eq!(candidate("a", None, 123), "a (123)");
    assert_eq!(candidate("", Some(""), 0), " (0).");
}

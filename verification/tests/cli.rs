use reorganize::cli::{file_word, parse_args, Command, USAGE};

fn parse(args: &[&str]) -> Result<Command, String> {
    parse_args(args.iter().map(|arg| arg.to_string()).collect())
}

#[test]
fn no_arguments_organizes_for_real() {
    assert!(matches!(parse(&[]), Ok(Command::Organize { dry_run: false })));
}

#[test]
fn dry_run_is_recognised_in_both_forms() {
    assert!(matches!(parse(&["--dry-run"]), Ok(Command::Organize { dry_run: true })));
    assert!(matches!(parse(&["-n"]), Ok(Command::Organize { dry_run: true })));
}

#[test]
fn undo_is_recognised() {
    assert!(matches!(parse(&["undo"]), Ok(Command::Undo)));
}

#[test]
fn help_wins_over_other_arguments() {
    assert!(matches!(parse(&["--dry-run", "--help"]), Ok(Command::Help)));
}

// Silently ignoring a typo like `--dry-runn` would move files for real
// when the user asked for a preview.
#[test]
fn unknown_arguments_are_rejected() {
    assert!(parse(&["--dry-runn"]).is_err());
    assert!(parse(&["--force"]).is_err());
}

#[test]
fn undo_and_dry_run_together_are_rejected() {
    assert!(parse(&["undo", "--dry-run"]).is_err());
}

#[test]
fn unknown_argument_error_names_the_argument() {
    assert_eq!(parse(&["--force"]).err().unwrap(), "Unknown argument: --force");
    assert_eq!(
        parse(&["-n", "undo"]).err().unwrap(),
        "undo cannot be combined with --dry-run."
    );
}

#[test]
fn the_first_unrecognised_argument_decides() {
    // Help after an unknown argument is never reached.
    assert_eq!(parse(&["--force", "-h"]).err().unwrap(), "Unknown argument: --force");
    assert!(matches!(parse(&["-h", "--force"]), Ok(Command::Help)));
    assert!(matches!(parse(&["undo", "undo"]), Ok(Command::Undo)));
}

#[test]
fn file_word_is_singular_only_for_one() {
    assert_eq!(file_word(1), "file");
    assert_eq!(file_word(0), "files");
    assert_eq!(file_word(2), "files");
}

#[test]
fn usage_lists_every_option() {
    assert!(USAGE.contains("--dry-run"));
    assert!(USAGE.contains("undo"));
    assert!(USAGE.contains("--help"));
}

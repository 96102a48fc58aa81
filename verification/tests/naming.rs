use reorganize::naming::{sanitize_file_stem, sanitize_folder_name, MAX_FOLDER, MAX_STEM};

#[test]
fn keeps_reasonable_names() {
    assert_eq!(sanitize_folder_name("Invoices").as_deref(), Some("Invoices"));
    assert_eq!(sanitize_folder_name("Tax 2024").as_deref(), Some("Tax 2024"));
    assert_eq!(sanitize_folder_name("3D Models").as_deref(), Some("3D Models"));
    assert_eq!(sanitize_folder_name("  Photos  ").as_deref(), Some("Photos"));
}

#[test]
fn keeps_non_ascii_names() {
    assert_eq!(sanitize_folder_name("Documentos").as_deref(), Some("Documentos"));
    assert_eq!(sanitize_folder_name("写真").as_deref(), Some("写真"));
}

// The important one: a proposed name must never climb out of the folder
// being organized.
#[test]
fn rejects_traversal() {
    assert_eq!(sanitize_folder_name(".."), None);
    assert_eq!(sanitize_folder_name("."), None);
    assert_eq!(sanitize_folder_name("..."), None);
    assert_eq!(sanitize_folder_name("../../Windows"), None);
    assert_eq!(sanitize_folder_name("..\\..\\Windows"), None);
    assert_eq!(sanitize_folder_name("Work/Invoices"), None);
    assert_eq!(sanitize_folder_name("Work\\Invoices"), None);
}

#[test]
fn rejects_absolute_and_drive_paths() {
    assert_eq!(sanitize_folder_name("C:\\Windows\\System32"), None);
    assert_eq!(sanitize_folder_name("/etc/passwd"), None);
    assert_eq!(sanitize_folder_name("\\\\server\\share"), None);
}

// Creating one of these can hang or fail in ways that look like a bug.
#[test]
fn rejects_reserved_device_names() {
    for name in ["CON", "con", "PRN", "aux", "NUL", "com1", "LPT9"] {
        assert_eq!(sanitize_folder_name(name), None, "{name} should be rejected");
    }
}

#[test]
fn rejects_reserved_names_even_with_an_extension() {
    assert_eq!(sanitize_file_stem("con.txt"), None);
    assert_eq!(sanitize_file_stem("NUL.pdf"), None);
}

#[test]
fn replaces_characters_windows_forbids() {
    assert_eq!(
        sanitize_folder_name("Invoices: 2024?").as_deref(),
        Some("Invoices 2024")
    );
    assert_eq!(sanitize_folder_name("a<b>c|d*e").as_deref(), Some("a b c d e"));
}

#[test]
fn strips_control_characters() {
    assert_eq!(sanitize_folder_name("Inv\u{0007}oices").as_deref(), Some("Invoices"));
    assert_eq!(sanitize_folder_name("a\nb").as_deref(), Some("a b"));
    assert_eq!(sanitize_folder_name("\u{0000}").as_deref(), None);
}

// Windows drops these silently, so the folder created would not match the
// name that was previewed.
#[test]
fn strips_trailing_dots_and_spaces() {
    assert_eq!(sanitize_folder_name("Invoices.").as_deref(), Some("Invoices"));
    assert_eq!(sanitize_folder_name("Invoices...").as_deref(), Some("Invoices"));
    assert_eq!(sanitize_folder_name("Invoices ").as_deref(), Some("Invoices"));
}

#[test]
fn rejects_names_that_sanitize_to_nothing() {
    assert_eq!(sanitize_folder_name(""), None);
    assert_eq!(sanitize_folder_name("   "), None);
    assert_eq!(sanitize_folder_name("???"), None);
    assert_eq!(sanitize_folder_name(":::"), None);
}

#[test]
fn truncates_long_names_on_a_character_boundary() {
    let long = "a".repeat(500);

    let folder = sanitize_folder_name(&long).unwrap();
    assert_eq!(folder.chars().count(), MAX_FOLDER);

    let stem = sanitize_file_stem(&long).unwrap();
    assert_eq!(stem.chars().count(), MAX_STEM);
}

#[test]
fn truncating_multibyte_text_does_not_panic() {
    let long = "写".repeat(500);

    let folder = sanitize_folder_name(&long).unwrap();

    assert_eq!(folder.chars().count(), MAX_FOLDER);
}

#[test]
fn a_model_sentence_still_yields_a_usable_name() {
    assert_eq!(
        sanitize_folder_name("Financial Documents / Invoices"),
        None,
        "a separator is a path, not a name"
    );
    assert_eq!(
        sanitize_folder_name("Financial Documents - Invoices").as_deref(),
        Some("Financial Documents - Invoices")
    );
}

#[test]
fn collapses_runs_of_white_space_and_forbidden_characters() {
    assert_eq!(sanitize_folder_name("a \t\n  b").as_deref(), Some("a b"));
    assert_eq!(sanitize_folder_name("a: ?b").as_deref(), Some("a b"));
    assert_eq!(sanitize_folder_name("a\u{3000}\u{00A0}b").as_deref(), Some("a b"));
}

#[test]
fn a_cut_never_ends_in_a_dot_or_space() {
    let name = format!("{}. x", "a".repeat(47));
    assert_eq!(sanitize_folder_name(&name).as_deref(), Some("a".repeat(47).as_str()));
}

#[test]
fn reserved_names_are_only_rejected_whole() {
    assert_eq!(sanitize_folder_name("console").as_deref(), Some("console"));
    assert_eq!(sanitize_folder_name("com10").as_deref(), Some("com10"));
    assert_eq!(sanitize_file_stem("Aux.backup.txt"), None);
}

#[test]
fn a_cut_never_exposes_a_device_name() {
    let input = format!("con{}x", " .".repeat(23));

    assert_eq!(sanitize_folder_name(&input), None);
    assert_eq!(sanitize_file_stem(&input).as_deref(), Some(input.as_str()));

    let longer = format!("aux {}b", ".".repeat(60));
    assert_eq!(sanitize_folder_name(&longer), None);
}

#[test]
fn paths_and_blank_text_are_rejected() {
    assert_eq!(sanitize_folder_name("a/b"), None);
    assert_eq!(sanitize_file_stem("a\\b"), None);
    assert_eq!(sanitize_folder_name(" \t<>|?*\u{0007}\n "), None);
}

#[test]
fn a_folder_name_is_a_prefix_of_the_stem_from_the_same_text() {
    let long = "Quarterly report for the northern region, final edition with appendices";
    let folder = sanitize_folder_name(long).unwrap();
    let stem = sanitize_file_stem(long).unwrap();
    assert!(stem.starts_with(folder.as_str()));
    assert_eq!(folder, "Quarterly report for the northern region, final");
    assert_eq!(stem, long);

    assert_eq!(sanitize_folder_name("Invoices 2024"), sanitize_file_stem("Invoices 2024"));
}

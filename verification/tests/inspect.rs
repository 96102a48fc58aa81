use reorganize::inspect::{classify_text, condense, content_of, sniff, Content, EXCERPT_CHARS};
use reorganize::paths::file_extension;

#[test]
fn reads_text_content() {
    assert_eq!(file_extension("notes.txt").as_deref(), Some("txt"));
    assert_eq!(
        content_of(b"Invoice 4823 for Acme Ltd, due 2024-03-01"),
        Content::Text("Invoice 4823 for Acme Ltd, due 2024-03-01".to_string())
    );
}

#[test]
fn collapses_whitespace_in_excerpts() {
    assert_eq!(
        content_of(b"line one\n\n\tline   two  "),
        Content::Text("line one line two".to_string())
    );
}

#[test]
fn caps_the_excerpt_length() {
    match content_of("abcdefghij".repeat(5000).as_bytes()) {
        Content::Text(text) => assert!(
            text.chars().count() <= EXCERPT_CHARS,
            "excerpt was {} chars",
            text.chars().count()
        ),
        other => panic!("expected text, got {other:?}"),
    }
}

#[test]
fn a_misnamed_file_is_identified_by_content() {
    assert_eq!(file_extension("invoice.txt").as_deref(), Some("txt"));
    assert_eq!(
        content_of(b"%PDF-1.4 not really text"),
        Content::Binary { kind: Some("PDF document") }
    );
}

#[test]
fn an_empty_file_is_empty_text() {
    assert_eq!(content_of(b""), Content::Text(String::new()));
}

#[test]
fn identifies_binary_formats_by_their_leading_bytes() {
    assert_eq!(
        content_of(b"%PDF-1.7 trailing bytes"),
        Content::Binary { kind: Some("PDF document") }
    );
    assert_eq!(
        content_of(&[0x89, 0x50, 0x4E, 0x47, 0x0D, 0x0A]),
        Content::Binary { kind: Some("PNG image") }
    );
}

#[test]
fn other_formats_need_their_whole_signature() {
    assert_eq!(sniff(b"MZ\x90\x00"), Some("Windows executable"));
    assert_eq!(sniff(&[0x1F, 0x8B, 0x08]), Some("gzip archive"));
    assert_eq!(sniff(b"ID3"), Some("MP3 audio"));
    assert_eq!(sniff(b"ID"), None);
    assert_eq!(sniff(b"%PDF"), None);
}

#[test]
fn unrecognised_binary_is_still_binary() {
    assert_eq!(content_of(&[0x01, 0x00, 0x02, 0x00, 0x03]), Content::Binary { kind: None });
}

#[test]
fn mostly_invalid_utf8_is_binary() {
    assert_eq!(content_of(&[0xC3, 0x28, 0xA0, 0xA1, 0x41]), Content::Binary { kind: None });
    // One bad byte among many good ones is still text.
    assert_eq!(
        content_of(b"abcdefghijklmnopqrst\xFF"),
        Content::Text("abcdefghijklmnopqrst\u{FFFD}".to_string())
    );
}

#[test]
fn the_replacement_share_is_a_tenth() {
    assert_eq!(classify_text("\u{FFFD}123456789"), Content::Text("\u{FFFD}123456789".to_string()));
    assert_eq!(classify_text("\u{FFFD}12345678"), Content::Binary { kind: None });
}

#[test]
fn condensing_caps_the_length() {
    let long = "abcdefghij".repeat(5000);

    assert_eq!(condense(&long).chars().count(), EXCERPT_CHARS);
}

#[test]
fn condensing_drops_control_characters_and_edges() {
    assert_eq!(condense("  a\u{0007}b \t c  "), "ab c");
    assert_eq!(condense("\u{0007}\u{0008}"), "");
}

#[test]
fn condensing_an_excerpt_again_changes_nothing() {
    let once = condense("  alpha \n\n beta\u{0007}\tgamma  ");
    assert_eq!(once, "alpha beta gamma");
    assert_eq!(condense(&once), once);
    assert_eq!(condense("plain-text_without-spaces"), "plain-text_without-spaces");
}

#[test]
fn fewer_than_two_bytes_identify_nothing() {
    assert_eq!(sniff(b""), None);
    assert_eq!(sniff(b"M"), None);
    assert_eq!(sniff(b"MZ"), Some("Windows executable"));
    assert_eq!(sniff(b"%PDF-and a great deal more"), sniff(b"%PDF-"));
}

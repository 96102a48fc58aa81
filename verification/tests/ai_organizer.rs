use reorganize::ai::ollama::AiError;
use reorganize::ai::organizer::{
    current_stem, describe, fallback, interpret, prompt_for, proposal_after_failure, Proposal,
    RawProposal,
};
use reorganize::inspect::{Content, FileFacts};

fn facts(name: &str) -> FileFacts {
    FileFacts {
        name: name.to_string(),
        extension: name.rsplit_once('.').map(|(_, ext)| ext.to_lowercase()),
        size: 100,
        content: Content::Text("some text".to_string()),
    }
}

fn reply(folder: &str, file_name: &str) -> Result<RawProposal, String> {
    Ok(RawProposal {
        folder: folder.to_string(),
        file_name: file_name.to_string(),
        reason: "because".to_string(),
    })
}

fn unparseable() -> Result<RawProposal, String> {
    Err("expected value at line 1 column 1".to_string())
}

#[test]
fn accepts_a_sensible_reply() {
    let proposal = interpret(&facts("scan001.pdf"), reply("Invoices", "Acme invoice March"));

    assert_eq!(proposal.folder, "Invoices");
    assert_eq!(proposal.new_stem.as_deref(), Some("Acme invoice March"));
    assert!(!proposal.fell_back);
}

// The reason the sanitizer exists.
#[test]
fn a_traversal_folder_falls_back() {
    let proposal = interpret(&facts("a.txt"), reply("../../Windows", "a"));

    assert!(proposal.fell_back);
    assert_eq!(proposal.folder, "Documents");
    assert_eq!(proposal.new_stem, None);
}

#[test]
fn a_reserved_folder_name_falls_back() {
    let proposal = interpret(&facts("a.txt"), reply("CON", "a"));

    assert!(proposal.fell_back);
    assert_eq!(proposal.folder, "Documents");
}

#[test]
fn a_nested_folder_path_falls_back() {
    let proposal = interpret(&facts("a.txt"), reply("Work/Invoices", "a"));

    assert!(proposal.fell_back);
}

#[test]
fn an_unparseable_reply_falls_back_to_the_extension() {
    let proposal = interpret(&facts("holiday.jpg"), unparseable());

    assert!(proposal.fell_back);
    assert_eq!(proposal.folder, "Images");
    assert_eq!(proposal.new_stem, None);
}

#[test]
fn a_file_with_no_extension_falls_back_to_other() {
    let proposal = interpret(&facts("LICENSE"), unparseable());

    assert!(proposal.fell_back);
    assert_eq!(proposal.folder, "Other");
}

// The model is told not to send an extension and routinely does anyway.
#[test]
fn an_extension_in_the_proposed_name_is_dropped() {
    let proposal = interpret(&facts("scan.pdf"), reply("Invoices", "Acme invoice.pdf"));

    assert_eq!(proposal.new_stem.as_deref(), Some("Acme invoice"));
}

#[test]
fn proposing_the_current_name_is_not_a_rename() {
    let proposal = interpret(&facts("holiday.jpg"), reply("Images", "holiday"));

    assert_eq!(proposal.new_stem, None);
    assert_eq!(proposal.folder, "Images");
}

#[test]
fn proposing_the_current_name_with_its_extension_is_not_a_rename() {
    let proposal = interpret(&facts("holiday.jpg"), reply("Images", "holiday.jpg"));

    assert_eq!(proposal.new_stem, None);
}

#[test]
fn an_unusable_file_name_leaves_the_name_alone() {
    // The folder is fine, so this is not a fallback: only the rename is dropped.
    let proposal = interpret(&facts("a.txt"), reply("Notes", "???"));

    assert!(!proposal.fell_back);
    assert_eq!(proposal.folder, "Notes");
    assert_eq!(proposal.new_stem, None);
}

#[test]
fn a_file_name_containing_a_path_is_not_used() {
    let proposal = interpret(&facts("a.txt"), reply("Notes", "../../evil"));

    assert_eq!(proposal.new_stem, None);
}

#[test]
fn a_dotfile_keeps_its_whole_name_as_the_stem() {
    assert_eq!(current_stem(".gitignore"), ".gitignore");
    assert_eq!(current_stem("archive.tar.gz"), "archive.tar");
    assert_eq!(current_stem("LICENSE"), "LICENSE");
}

#[test]
fn describing_a_binary_file_does_not_quote_its_bytes() {
    let described = describe(&FileFacts {
        name: "shot.png".to_string(),
        extension: Some("png".to_string()),
        size: 2048,
        content: Content::Binary { kind: Some("PNG image") },
    });

    assert!(described.contains("PNG image"));
    assert!(described.contains("binary"));
}

#[test]
fn reasons_name_what_went_wrong() {
    let unusable = interpret(&facts("a.txt"), reply("???", "a"));
    assert_eq!(unusable.reason, "model proposed an unusable folder name \"???\"");

    let unparsed = interpret(&facts("a.txt"), Err("bad json".to_string()));
    assert_eq!(unparsed.reason, "model reply was not usable (bad json)");
}

#[test]
fn the_reason_is_trimmed_and_kept() {
    let proposal = interpret(
        &facts("a.txt"),
        Ok(RawProposal {
            folder: " Tax: 2024 ".to_string(),
            file_name: "".to_string(),
            reason: "  It is a tax form.\n".to_string(),
        }),
    );

    assert_eq!(
        proposal,
        Proposal {
            folder: "Tax 2024".to_string(),
            new_stem: None,
            reason: "It is a tax form.".to_string(),
            fell_back: false,
        }
    );
}

#[test]
fn descriptions_cover_every_kind_of_content() {
    let mut f = facts("notes.txt");
    assert_eq!(
        describe(&f),
        "File name: notes.txt\nSize: 100 bytes\nBeginning of contents: some text\n"
    );

    f.content = Content::Text(String::new());
    assert!(describe(&f).ends_with("Contents: (empty file)\n"));

    f.content = Content::Binary { kind: None };
    assert!(describe(&f).ends_with("Contents: binary, format not recognised\n"));

    f.content = Content::Unreadable("denied".to_string());
    assert!(describe(&f).ends_with("Contents: could not be read (denied)\n"));
}

#[test]
fn the_prompt_offers_every_category_but_other() {
    let prompt = prompt_for(&facts("a.txt"));

    assert!(prompt.starts_with("You are filing one file into a folder.\n\n         File name: a.txt\n"));
    assert!(prompt.contains(
        "Prefer one of these when it fits: Images, Videos, Audio, Documents, Archives, Applications, Code, Fonts, Disk Images, Shortcuts, E-books, Android Builds, iOS Builds.\n"
    ));
    assert!(!prompt.contains("Other,"));
    assert!(prompt.ends_with("Give a one-sentence reason."));
}

#[test]
fn a_failed_request_falls_back_with_the_reason() {
    let unavailable = proposal_after_failure(
        &facts("holiday.jpg"),
        AiError::Unavailable("connection refused".to_string()),
    );
    assert_eq!(unavailable.folder, "Images");
    assert_eq!(unavailable.reason, "model unavailable (connection refused)");
    assert!(unavailable.fell_back);

    let malformed = proposal_after_failure(&facts("LICENSE"), AiError::Malformed("eof".to_string()));
    assert_eq!(malformed.folder, "Other");
    assert_eq!(malformed.reason, "model reply malformed (eof)");

    let plain = fallback(&facts("a.rs"), "why".to_string());
    assert_eq!(plain.folder, "Code");
    assert_eq!(plain.new_stem, None);
}

use reorganize::organizer::category::Category;

#[test]
fn every_folder_name_parses_back_to_its_variant() {
    for category in Category::ALL {
        assert_eq!(
            Category::parse(category.folder_name()),
            Some(category),
            "{:?} did not round-trip",
            category
        );
    }
}

#[test]
fn all_contains_every_variant_exactly_once() {
    let mut names: Vec<&str> = Category::ALL.iter().map(|c| c.folder_name()).collect();
    let count = names.len();

    names.sort_unstable();
    names.dedup();

    assert_eq!(names.len(), count, "duplicate entry in Category::ALL");
}

#[test]
fn parsing_ignores_case_spacing_and_punctuation() {
    assert_eq!(Category::parse("disk images"), Some(Category::DiskImages));
    assert_eq!(Category::parse("Disk_Images"), Some(Category::DiskImages));
    assert_eq!(Category::parse("DISKIMAGES"), Some(Category::DiskImages));
    assert_eq!(Category::parse("  Disk-Images  "), Some(Category::DiskImages));
    assert_eq!(Category::parse("ebooks"), Some(Category::EBooks));
    assert_eq!(Category::parse("ios builds"), Some(Category::IosBuilds));
}

// The validation boundary: anything a model might invent must be rejected
// rather than silently becoming a folder name.
#[test]
fn rejects_unknown_categories() {
    assert_eq!(Category::parse("Spreadsheets"), None);
    assert_eq!(Category::parse("Tax Documents 2024"), None);
    assert_eq!(Category::parse(""), None);
    assert_eq!(Category::parse("   "), None);
    assert_eq!(Category::parse("../../etc"), None);
}

#[test]
fn other_is_a_valid_answer_not_a_parse_failure() {
    assert_eq!(Category::parse("Other"), Some(Category::Other));
}

// These strings are folder names on users' disks. Changing one silently
// strands files in the old folder and starts a new one beside it, so they
// are pinned here deliberately.
#[test]
fn folder_names_are_stable() {
    assert_eq!(Category::Images.folder_name(), "Images");
    assert_eq!(Category::Videos.folder_name(), "Videos");
    assert_eq!(Category::Audio.folder_name(), "Audio");
    assert_eq!(Category::Documents.folder_name(), "Documents");
    assert_eq!(Category::Archives.folder_name(), "Archives");
    assert_eq!(Category::Applications.folder_name(), "Applications");
    assert_eq!(Category::Code.folder_name(), "Code");
    assert_eq!(Category::Fonts.folder_name(), "Fonts");
    assert_eq!(Category::DiskImages.folder_name(), "Disk Images");
    assert_eq!(Category::Shortcuts.folder_name(), "Shortcuts");
    assert_eq!(Category::EBooks.folder_name(), "E-books");
    assert_eq!(Category::AndroidBuilds.folder_name(), "Android Builds");
    assert_eq!(Category::IosBuilds.folder_name(), "iOS Builds");
    assert_eq!(Category::Other.folder_name(), "Other");
}

#[test]
fn parsing_drops_non_ascii_letters() {
    assert_eq!(Category::parse("Fontsé"), Some(Category::Fonts));
    assert_eq!(Category::parse("é"), None);
    assert_eq!(Category::parse("android.builds!"), Some(Category::AndroidBuilds));
}

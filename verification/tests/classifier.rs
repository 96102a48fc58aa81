use reorganize::organizer::category::Category;
use reorganize::organizer::classifier::classify_file;

#[test]
fn classifies_each_known_category() {
    assert_eq!(classify_file(Some("png")), Category::Images);
    assert_eq!(classify_file(Some("mkv")), Category::Videos);
    assert_eq!(classify_file(Some("flac")), Category::Audio);
    assert_eq!(classify_file(Some("pdf")), Category::Documents);
    assert_eq!(classify_file(Some("zip")), Category::Archives);
    assert_eq!(classify_file(Some("exe")), Category::Applications);
    assert_eq!(classify_file(Some("rs")), Category::Code);
    assert_eq!(classify_file(Some("ttf")), Category::Fonts);
    assert_eq!(classify_file(Some("iso")), Category::DiskImages);
    assert_eq!(classify_file(Some("lnk")), Category::Shortcuts);
    assert_eq!(classify_file(Some("epub")), Category::EBooks);
    assert_eq!(classify_file(Some("apk")), Category::AndroidBuilds);
    assert_eq!(classify_file(Some("ipa")), Category::IosBuilds);
}

#[test]
fn unknown_extension_falls_back_to_other() {
    assert_eq!(classify_file(Some("qwerty")), Category::Other);
}

#[test]
fn missing_extension_falls_back_to_other() {
    assert_eq!(classify_file(None), Category::Other);
}

#[test]
fn empty_extension_falls_back_to_other() {
    assert_eq!(classify_file(Some("")), Category::Other);
}

// classify_file matches lowercase arms only; the caller is responsible
// for lowercasing. This pins that contract so it cannot drift silently.
#[test]
fn matching_is_case_sensitive_by_design() {
    assert_eq!(classify_file(Some("PNG")), Category::Other);
    assert_eq!(classify_file(Some("png")), Category::Images);
}

#[test]
fn the_last_extension_of_each_list_is_recognised() {
    assert_eq!(classify_file(Some("raf")), Category::Images);
    assert_eq!(classify_file(Some("f4b")), Category::Videos);
    assert_eq!(classify_file(Some("ram")), Category::Audio);
    assert_eq!(classify_file(Some("key")), Category::Documents);
    assert_eq!(classify_file(Some("tbz2")), Category::Archives);
    assert_eq!(classify_file(Some("scr")), Category::Applications);
    assert_eq!(classify_file(Some("fish")), Category::Code);
    assert_eq!(classify_file(Some("eot")), Category::Fonts);
    assert_eq!(classify_file(Some("qcow2")), Category::DiskImages);
    assert_eq!(classify_file(Some("webloc")), Category::Shortcuts);
    assert_eq!(classify_file(Some("djvu")), Category::EBooks);
    assert_eq!(classify_file(Some("aab")), Category::AndroidBuilds);
    assert_eq!(classify_file(Some("p")), Category::Other);
}

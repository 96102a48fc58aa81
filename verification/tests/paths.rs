use reorganize::paths::{destination_key, file_extension, file_stem};

#[test]
fn a_destination_has_one_spelling() {
    assert_eq!(destination_key("/r", "Images", "x.pdf"), "/r/Images/x.pdf");
    assert_eq!(destination_key("/r/./", "Images//", "x.pdf"), "/r/Images/x.pdf");
    assert_eq!(destination_key("/r", "/abs/Images", "x.pdf"), "/abs/Images/x.pdf");
    assert_eq!(destination_key("", "Images", "x.pdf"), "Images/x.pdf");
    assert_eq!(destination_key("C:\\Users\\me", "Images", "x.pdf"), "C:/Users/me/Images/x.pdf");
    assert_eq!(destination_key("/r", "..", "x.pdf"), "/r/../x.pdf");
}

#[test]
fn stems_and_extensions_follow_the_last_dot() {
    assert_eq!(file_stem("archive.tar.gz"), "archive.tar");
    assert_eq!(file_extension("archive.tar.gz").as_deref(), Some("gz"));
    assert_eq!(file_stem(".gitignore"), ".gitignore");
    assert_eq!(file_extension(".gitignore"), None);
}

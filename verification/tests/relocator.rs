use std::cell::RefCell;
use std::collections::HashSet;

use reorganize::organizer::relocator::{PlanError, Relocator};

fn nothing_on_disk(_folder: &str, _name: &str) -> bool {
    false
}

#[test]
fn planning_does_not_reuse_a_destination_within_one_run() {
    let mut relocator = Relocator::new();

    let first = relocator.plan(Some("LICENSE"), "/root", &nothing_on_disk).unwrap();
    let second = relocator.plan(Some("LICENSE"), "/root", &nothing_on_disk).unwrap();
    let third = relocator.plan(Some("LICENSE"), "/root", &nothing_on_disk).unwrap();

    assert_eq!((first.folder.as_str(), first.file_name.as_str()), ("Other", "LICENSE"));
    assert_eq!(second.file_name, "LICENSE (1)");
    assert_eq!(third.file_name, "LICENSE (2)");
}

#[test]
fn uppercase_extension_still_classifies() {
    let mut relocator = Relocator::new();

    let planned = relocator.plan(Some("SCAN.PDF"), "/root", &nothing_on_disk).unwrap();

    assert_eq!(planned.folder, "Documents");
    assert_eq!(planned.file_name, "SCAN.PDF");
}

#[test]
fn renames_instead_of_overwriting_an_existing_file() {
    let on_disk = |folder: &str, name: &str| folder == "Documents" && name == "notes.txt";
    let mut relocator = Relocator::new();

    let planned = relocator.plan(Some("notes.txt"), "/root", &on_disk).unwrap();

    assert_eq!(planned.file_name, "notes (1).txt");
}

#[test]
fn dotfile_is_treated_as_extensionless() {
    let on_disk = |folder: &str, name: &str| folder == "Other" && name == ".gitignore";
    let mut relocator = Relocator::new();

    let planned = relocator.plan(Some(".gitignore"), "/root", &on_disk).unwrap();

    assert_eq!(planned.file_name, ".gitignore (1)");
}

#[test]
fn a_new_stem_keeps_the_original_extension() {
    let mut relocator = Relocator::new();

    let planned = relocator
        .plan_into(Some("scan001.pdf"), "/root", "Invoices", Some("Acme invoice"), &nothing_on_disk)
        .unwrap();

    assert_eq!(planned.folder, "Invoices");
    assert_eq!(planned.file_name, "Acme invoice.pdf");
}

#[test]
fn a_path_without_a_file_name_cannot_be_planned() {
    let mut relocator = Relocator::new();

    assert!(matches!(
        relocator.plan(None, "/root", &nothing_on_disk),
        Err(PlanError::NoFileStem)
    ));
}

#[test]
fn claims_are_per_root() {
    let mut relocator = Relocator::new();

    let a = relocator.plan(Some("a.jpg"), "/one", &nothing_on_disk).unwrap();
    let b = relocator.plan(Some("a.jpg"), "/two", &nothing_on_disk).unwrap();

    assert_eq!(a.file_name, "a.jpg");
    assert_eq!(b.file_name, "a.jpg");
}

#[test]
fn the_disk_is_asked_before_the_claims() {
    let asked: RefCell<HashSet<String>> = RefCell::new(HashSet::new());
    let on_disk = |folder: &str, name: &str| {
        asked.borrow_mut().insert(format!("{folder}/{name}"));
        false
    };
    let mut relocator = Relocator::new();

    relocator.plan(Some("a.jpg"), "/root", &on_disk).unwrap();
    relocator.plan(Some("a.jpg"), "/root", &on_disk).unwrap();

    assert!(asked.borrow().contains("Images/a.jpg"));
    assert!(asked.borrow().contains("Images/a (1).jpg"));
    relocator.claims_are_distinct();
}

#[test]
fn moves_file_into_its_category_folder() {
    let mut relocator = Relocator::new();

    let planned = relocator.plan(Some("holiday.jpg"), "/root", &nothing_on_disk).unwrap();

    assert_eq!((planned.folder.as_str(), planned.file_name.as_str()), ("Images", "holiday.jpg"));
}

#[test]
fn does_not_destroy_an_existing_extensionless_file() {
    let on_disk = |folder: &str, name: &str| folder == "Other" && name == "LICENSE";
    let mut relocator = Relocator::new();

    let planned = relocator.plan(Some("LICENSE"), "/root", &on_disk).unwrap();

    assert_eq!(planned.folder, "Other");
    assert_eq!(planned.file_name, "LICENSE (1)");
}

#[test]
fn a_new_stem_never_gives_an_extensionless_file_an_extension() {
    let mut relocator = Relocator::new();

    let planned = relocator
        .plan_into(Some("LICENSE"), "/root", "Legal", Some("notes.pdf"), &nothing_on_disk)
        .unwrap();
    assert_eq!(planned.file_name, "LICENSE");

    let dotted = relocator
        .plan_into(Some("Makefile"), "/root", "Build", Some(".config"), &nothing_on_disk)
        .unwrap();
    assert_eq!(dotted.file_name, ".config");
}

#[test]
fn an_empty_new_stem_is_not_used() {
    let mut relocator = Relocator::new();

    let planned = relocator
        .plan_into(Some("scan.pdf"), "/root", "Invoices", Some(""), &nothing_on_disk)
        .unwrap();

    assert_eq!(planned.file_name, "scan.pdf");
}

#[test]
fn a_trailing_separator_names_the_same_root() {
    let mut relocator = Relocator::new();

    let first = relocator.plan(Some("LICENSE"), "/r", &nothing_on_disk).unwrap();
    let second = relocator.plan(Some("LICENSE"), "/r/", &nothing_on_disk).unwrap();
    let third = relocator.plan(Some("LICENSE"), "/r//", &nothing_on_disk).unwrap();

    assert_eq!(first.file_name, "LICENSE");
    assert_eq!(second.file_name, "LICENSE (1)");
    assert_eq!(third.file_name, "LICENSE (2)");
}

#[test]
fn every_spelling_of_one_destination_is_one_claim() {
    let mut relocator = Relocator::new();

    let plan = |r: &mut Relocator, root: &str, folder: &str| {
        r.plan_into(Some("x.pdf"), root, folder, None, &nothing_on_disk).unwrap().file_name
    };

    assert_eq!(plan(&mut relocator, "/r", "Images"), "x.pdf");
    assert_eq!(plan(&mut relocator, "/r/.", "Images"), "x (1).pdf");
    assert_eq!(plan(&mut relocator, "//r", "./Images/"), "x (2).pdf");
    assert_eq!(plan(&mut relocator, "/elsewhere", "/r/Images"), "x (3).pdf");
    assert_eq!(plan(&mut relocator, "/r", "Other"), "x.pdf");
}

#[test]
fn the_root_of_the_file_system_is_its_own_root() {
    let mut relocator = Relocator::new();

    let a = relocator.plan(Some("a.jpg"), "/", &nothing_on_disk).unwrap();
    let b = relocator.plan(Some("a.jpg"), "", &nothing_on_disk).unwrap();

    assert_eq!(a.file_name, "a.jpg");
    assert_eq!(b.file_name, "a.jpg");
}

use reorganize::directory::path::home_folder_path;
use reorganize::directory::selector::{
    browse_action, browse_options, browse_prompt, clean_custom_path, stop_at_leaf,
    visible_sorted, BrowseAction, CUSTOM_PATH, GO_UP, ORGANIZE_HERE,
};

fn strings(names: &[&str]) -> Vec<String> {
    names.iter().map(|n| n.to_string()).collect()
}

#[test]
fn listing_is_sorted() {
    assert_eq!(
        visible_sorted(strings(&["zeta", "alpha", "midway"])),
        strings(&["alpha", "midway", "zeta"])
    );
    assert!(visible_sorted(Vec::new()).is_empty());
}

#[test]
fn hides_dot_directories() {
    assert_eq!(visible_sorted(strings(&[".git", "src"])), strings(&["src"]));
    assert_eq!(
        visible_sorted(strings(&["zeta", ".git", "alpha", "midway"])),
        strings(&["alpha", "midway", "zeta"])
    );
}

#[test]
fn sorting_is_by_code_point() {
    assert_eq!(
        visible_sorted(strings(&["b", "B", "a", "ab", "é", "a"])),
        strings(&["B", "a", "a", "ab", "b", "é"])
    );
}

#[test]
fn a_typed_path_loses_white_space_and_quotes() {
    assert_eq!(clean_custom_path("  \"C:\\Users\\me\\Work\"  ").unwrap(), "C:\\Users\\me\\Work");
    assert_eq!(clean_custom_path(" \"\" ").unwrap_err(), "No path entered.");
    assert_eq!(clean_custom_path("").unwrap_err(), "No path entered.");
}

#[test]
fn the_menu_offers_going_up_only_below_the_start() {
    assert_eq!(
        browse_options(true, &strings(&["a"])),
        vec![ORGANIZE_HERE.to_string(), "a".to_string()]
    );
    assert_eq!(
        browse_options(false, &strings(&["a", "b"])),
        vec![ORGANIZE_HERE.to_string(), GO_UP.to_string(), "a".to_string(), "b".to_string()]
    );
}

#[test]
fn choices_map_to_actions() {
    let labels = strings(&["Invoices", "Photos", "Invoices"]);

    assert!(matches!(browse_action(ORGANIZE_HERE, &labels), BrowseAction::OrganizeHere));
    assert!(matches!(browse_action(GO_UP, &labels), BrowseAction::GoUp));
    assert!(matches!(browse_action("Invoices", &labels), BrowseAction::Descend(0)));
    assert!(matches!(browse_action("Photos", &labels), BrowseAction::Descend(1)));
    assert!(matches!(browse_action("Music", &labels), BrowseAction::Stay));
}

#[test]
fn browsing_stops_at_a_leaf_below_the_start() {
    assert!(stop_at_leaf(0, false));
    assert!(!stop_at_leaf(0, true));
    assert!(!stop_at_leaf(2, false));
}

#[test]
fn prompts_and_presets_read_as_expected() {
    assert_eq!(browse_prompt("Work", 3), "Work  (3 inside)");
    assert_eq!(home_folder_path("C:\\Users\\me", "Downloads"), "C:\\Users\\me\\Downloads");
    assert_eq!(CUSTOM_PATH, "Custom path");
}

#[test]
fn distinct_names_come_out_strictly_ascending() {
    let sorted = visible_sorted(strings(&["delta", "alpha", ".cache", "charlie", "bravo"]));
    assert_eq!(sorted, strings(&["alpha", "bravo", "charlie", "delta"]));
    assert!(sorted.windows(2).all(|w| w[0] < w[1]));
}

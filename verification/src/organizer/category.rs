//! The set of folders reorganize is allowed to create.
//!
//! This is deliberately a closed enum rather than a free string: it is the
//! boundary that untrusted input (an AI-suggested category, a hand-edited
//! rules file) has to pass through before it can name a folder on disk.
use vstd::prelude::*;

use crate::text::{chars_of, lower_char, lower_char_of, push_char};

verus! {

#[derive(Debug, Clone, Copy, PartialEq, Eq, Structural)]
pub enum Category {
    Images,
    Videos,
    Audio,
    Documents,
    Archives,
    Applications,
    Code,
    Fonts,
    DiskImages,
    Shortcuts,
    EBooks,
    AndroidBuilds,
    IosBuilds,
    Other,
}

/// The folder name created on disk for each category.
pub open spec fn folder(c: Category) -> Seq<char> {
    match c {
        Category::Images => "Images"@,
        Category::Videos => "Videos"@,
        Category::Audio => "Audio"@,
        Category::Documents => "Documents"@,
        Category::Archives => "Archives"@,
        Category::Applications => "Applications"@,
        Category::Code => "Code"@,
        Category::Fonts => "Fonts"@,
        Category::DiskImages => "Disk Images"@,
        Category::Shortcuts => "Shortcuts"@,
        Category::EBooks => "E-books"@,
        Category::AndroidBuilds => "Android Builds"@,
        Category::IosBuilds => "iOS Builds"@,
        Category::Other => "Other"@,
    }
}

/// ASCII letters and digits: what category matching looks at.
pub open spec fn is_ascii_alnum(c: char) -> bool {
    let n = c as u32;
    (48 <= n <= 57) || (65 <= n <= 90) || (97 <= n <= 122)
}

/// `s` with everything but ASCII letters and digits dropped, lowercased.
pub open spec fn normalize_spec(s: Seq<char>) -> Seq<char>
    decreases s.len(),
{
    if s.len() == 0 {
        s
    } else if is_ascii_alnum(s.last()) {
        normalize_spec(s.drop_last()).push(lower_char(s.last()))
    } else {
        normalize_spec(s.drop_last())
    }
}

/// The first category, in the order of `Category::ALL`, whose folder name
/// normalizes to what `s` normalizes to; `None` when `s` normalizes to
/// nothing or to no category.
pub open spec fn parse_category(s: Seq<char>) -> Option<Category> {
    let n = normalize_spec(s);
    if n.len() == 0 {
        None
    } else if n == normalize_spec(folder(Category::Images)) {
        Some(Category::Images)
    } else if n == normalize_spec(folder(Category::Videos)) {
        Some(Category::Videos)
    } else if n == normalize_spec(folder(Category::Audio)) {
        Some(Category::Audio)
    } else if n == normalize_spec(folder(Category::Documents)) {
        Some(Category::Documents)
    } else if n == normalize_spec(folder(Category::Archives)) {
        Some(Category::Archives)
    } else if n == normalize_spec(folder(Category::Applications)) {
        Some(Category::Applications)
    } else if n == normalize_spec(folder(Category::Code)) {
        Some(Category::Code)
    } else if n == normalize_spec(folder(Category::Fonts)) {
        Some(Category::Fonts)
    } else if n == normalize_spec(folder(Category::DiskImages)) {
        Some(Category::DiskImages)
    } else if n == normalize_spec(folder(Category::Shortcuts)) {
        Some(Category::Shortcuts)
    } else if n == normalize_spec(folder(Category::EBooks)) {
        Some(Category::EBooks)
    } else if n == normalize_spec(folder(Category::AndroidBuilds)) {
        Some(Category::AndroidBuilds)
    } else if n == normalize_spec(folder(Category::IosBuilds)) {
        Some(Category::IosBuilds)
    } else if n == normalize_spec(folder(Category::Other)) {
        Some(Category::Other)
    } else {
        None
    }
}

impl Category {
    /// Every variant, so callers can enumerate the categories without
    /// having to remember to update a second list.
    pub const ALL: [Category; 14] = [
        Category::Images,
        Category::Videos,
        Category::Audio,
        Category::Documents,
        Category::Archives,
        Category::Applications,
        Category::Code,
        Category::Fonts,
        Category::DiskImages,
        Category::Shortcuts,
        Category::EBooks,
        Category::AndroidBuilds,
        Category::IosBuilds,
        Category::Other,
    ];

    /// The folder name created on disk.
    pub fn folder_name(self) -> (name: &'static str)
        ensures
            name@ == folder(self),
    {
        match self {
            Category::Images => "Images",
            Category::Videos => "Videos",
            Category::Audio => "Audio",
            Category::Documents => "Documents",
            Category::Archives => "Archives",
            Category::Applications => "Applications",
            Category::Code => "Code",
            Category::Fonts => "Fonts",
            Category::DiskImages => "Disk Images",
            Category::Shortcuts => "Shortcuts",
            Category::EBooks => "E-books",
            Category::AndroidBuilds => "Android Builds",
            Category::IosBuilds => "iOS Builds",
            Category::Other => "Other",
        }
    }

    /// Parses a category name, returning `None` for anything unrecognised.
    ///
    /// Matching ignores case, spacing and punctuation so that "disk images",
    /// "Disk_Images" and "DiskImages" all resolve. Returning `Option` rather
    /// than defaulting to `Other` keeps "the model said something invalid"
    /// distinguishable from "the model said Other".
    pub fn parse(input: &str) -> (r: Option<Category>)
        ensures
            r == parse_category(input@),
    {
        let normalized = normalize(input);
        if normalized.as_str().is_empty() {
            return None;
        } else if normalized == normalize(Category::Images.folder_name()) {
            return Some(Category::Images);
        } else if normalized == normalize(Category::Videos.folder_name()) {
            return Some(Category::Videos);
        } else if normalized == normalize(Category::Audio.folder_name()) {
            return Some(Category::Audio);
        } else if normalized == normalize(Category::Documents.folder_name()) {
            return Some(Category::Documents);
        } else if normalized == normalize(Category::Archives.folder_name()) {
            return Some(Category::Archives);
        } else if normalized == normalize(Category::Applications.folder_name()) {
            return Some(Category::Applications);
        } else if normalized == normalize(Category::Code.folder_name()) {
            return Some(Category::Code);
        } else if normalized == normalize(Category::Fonts.folder_name()) {
            return Some(Category::Fonts);
        } else if normalized == normalize(Category::DiskImages.folder_name()) {
            return Some(Category::DiskImages);
        } else if normalized == normalize(Category::Shortcuts.folder_name()) {
            return Some(Category::Shortcuts);
        } else if normalized == normalize(Category::EBooks.folder_name()) {
            return Some(Category::EBooks);
        } else if normalized == normalize(Category::AndroidBuilds.folder_name()) {
            return Some(Category::AndroidBuilds);
        } else if normalized == normalize(Category::IosBuilds.folder_name()) {
            return Some(Category::IosBuilds);
        } else if normalized == normalize(Category::Other.folder_name()) {
            return Some(Category::Other);
        }
        None
    }
}

fn char_is_ascii_alnum(c: char) -> (b: bool)
    ensures
        b == is_ascii_alnum(c),
{
    let n = c as u32;
    (48 <= n && n <= 57) || (65 <= n && n <= 90) || (97 <= n && n <= 122)
}

fn normalize(input: &str) -> (r: String)
    ensures
        r@ == normalize_spec(input@),
{
    let v = chars_of(input);
    let mut r = String::new();
    let mut i: usize = 0;
    while i < v.len()
        invariant
            i <= v.len(),
            v@ == input@,
            r@ == normalize_spec(v@.take(i as int)),
        decreases v.len() - i,
    {
        assert(v@.take(i + 1).drop_last() == v@.take(i as int));
        assert(v@.take(i + 1).last() == v@[i as int]);
        if char_is_ascii_alnum(v[i]) {
            push_char(&mut r, lower_char_of(v[i]));
        }
        i = i + 1;
    }
    assert(v@.take(v.len() as int) == v@);
    r
}


/// What each folder name normalizes to.
pub open spec fn normalized_folder(c: Category) -> Seq<char> {
    match c {
        Category::Images => seq!['i', 'm', 'a', 'g', 'e', 's'],
        Category::Videos => seq!['v', 'i', 'd', 'e', 'o', 's'],
        Category::Audio => seq!['a', 'u', 'd', 'i', 'o'],
        Category::Documents => seq!['d', 'o', 'c', 'u', 'm', 'e', 'n', 't', 's'],
        Category::Archives => seq!['a', 'r', 'c', 'h', 'i', 'v', 'e', 's'],
        Category::Applications => seq!['a', 'p', 'p', 'l', 'i', 'c', 'a', 't', 'i', 'o', 'n', 's'],
        Category::Code => seq!['c', 'o', 'd', 'e'],
        Category::Fonts => seq!['f', 'o', 'n', 't', 's'],
        Category::DiskImages => seq!['d', 'i', 's', 'k', 'i', 'm', 'a', 'g', 'e', 's'],
        Category::Shortcuts => seq!['s', 'h', 'o', 'r', 't', 'c', 'u', 't', 's'],
        Category::EBooks => seq!['e', 'b', 'o', 'o', 'k', 's'],
        Category::AndroidBuilds => seq!['a', 'n', 'd', 'r', 'o', 'i', 'd', 'b', 'u', 'i', 'l', 'd', 's'],
        Category::IosBuilds => seq!['i', 'o', 's', 'b', 'u', 'i', 'l', 'd', 's'],
        Category::Other => seq!['o', 't', 'h', 'e', 'r'],
    }
}

proof fn lemma_normalized_folder(c: Category)
    ensures
        normalize_spec(folder(c)) == normalized_folder(c),
{
    reveal_with_fuel(normalize_spec, 15);
    match c {
        Category::Images => {
            reveal_strlit("Images");
            assert("Images"@ =~= seq!['I', 'm', 'a', 'g', 'e', 's']);
            assert(normalize_spec(seq!['I', 'm', 'a', 'g', 'e', 's']) =~= seq!['i', 'm', 'a', 'g', 'e', 's']);
        },
        Category::Videos => {
            reveal_strlit("Videos");
            assert("Videos"@ =~= seq!['V', 'i', 'd', 'e', 'o', 's']);
            assert(normalize_spec(seq!['V', 'i', 'd', 'e', 'o', 's']) =~= seq!['v', 'i', 'd', 'e', 'o', 's']);
        },
        Category::Audio => {
            reveal_strlit("Audio");
            assert("Audio"@ =~= seq!['A', 'u', 'd', 'i', 'o']);
            assert(normalize_spec(seq!['A', 'u', 'd', 'i', 'o']) =~= seq!['a', 'u', 'd', 'i', 'o']);
        },
        Category::Documents => {
            reveal_strlit("Documents");
            assert("Documents"@ =~= seq!['D', 'o', 'c', 'u', 'm', 'e', 'n', 't', 's']);
            assert(normalize_spec(seq!['D', 'o', 'c', 'u', 'm', 'e', 'n', 't', 's']) =~= seq!['d', 'o', 'c', 'u', 'm', 'e', 'n', 't', 's']);
        },
        Category::Archives => {
            reveal_strlit("Archives");
            assert("Archives"@ =~= seq!['A', 'r', 'c', 'h', 'i', 'v', 'e', 's']);
            assert(normalize_spec(seq!['A', 'r', 'c', 'h', 'i', 'v', 'e', 's']) =~= seq!['a', 'r', 'c', 'h', 'i', 'v', 'e', 's']);
        },
        Category::Applications => {
            reveal_strlit("Applications");
            assert("Applications"@ =~= seq!['A', 'p', 'p', 'l', 'i', 'c', 'a', 't', 'i', 'o', 'n', 's']);
            assert(normalize_spec(seq!['A', 'p', 'p', 'l', 'i', 'c', 'a', 't', 'i', 'o', 'n', 's']) =~= seq!['a', 'p', 'p', 'l', 'i', 'c', 'a', 't', 'i', 'o', 'n', 's']);
        },
        Category::Code => {
            reveal_strlit("Code");
            assert("Code"@ =~= seq!['C', 'o', 'd', 'e']);
            assert(normalize_spec(seq!['C', 'o', 'd', 'e']) =~= seq!['c', 'o', 'd', 'e']);
        },
        Category::Fonts => {
            reveal_strlit("Fonts");
            assert("Fonts"@ =~= seq!['F', 'o', 'n', 't', 's']);
            assert(normalize_spec(seq!['F', 'o', 'n', 't', 's']) =~= seq!['f', 'o', 'n', 't', 's']);
        },
        Category::DiskImages => {
            reveal_strlit("Disk Images");
            assert("Disk Images"@ =~= seq!['D', 'i', 's', 'k', ' ', 'I', 'm', 'a', 'g', 'e', 's']);
            assert(normalize_spec(seq!['D', 'i', 's', 'k', ' ', 'I', 'm', 'a', 'g', 'e', 's']) =~= seq!['d', 'i', 's', 'k', 'i', 'm', 'a', 'g', 'e', 's']);
        },
        Category::Shortcuts => {
            reveal_strlit("Shortcuts");
            assert("Shortcuts"@ =~= seq!['S', 'h', 'o', 'r', 't', 'c', 'u', 't', 's']);
            assert(normalize_spec(seq!['S', 'h', 'o', 'r', 't', 'c', 'u', 't', 's']) =~= seq!['s', 'h', 'o', 'r', 't', 'c', 'u', 't', 's']);
        },
        Category::EBooks => {
            reveal_strlit("E-books");
            assert("E-books"@ =~= seq!['E', '-', 'b', 'o', 'o', 'k', 's']);
            assert(normalize_spec(seq!['E', '-', 'b', 'o', 'o', 'k', 's']) =~= seq!['e', 'b', 'o', 'o', 'k', 's']);
        },
        Category::AndroidBuilds => {
            reveal_strlit("Android Builds");
            assert("Android Builds"@ =~= seq!['A', 'n', 'd', 'r', 'o', 'i', 'd', ' ', 'B', 'u', 'i', 'l', 'd', 's']);
            assert(normalize_spec(seq!['A', 'n', 'd', 'r', 'o', 'i', 'd', ' ', 'B', 'u', 'i', 'l', 'd', 's']) =~= seq!['a', 'n', 'd', 'r', 'o', 'i', 'd', 'b', 'u', 'i', 'l', 'd', 's']);
        },
        Category::IosBuilds => {
            reveal_strlit("iOS Builds");
            assert("iOS Builds"@ =~= seq!['i', 'O', 'S', ' ', 'B', 'u', 'i', 'l', 'd', 's']);
            assert(normalize_spec(seq!['i', 'O', 'S', ' ', 'B', 'u', 'i', 'l', 'd', 's']) =~= seq!['i', 'o', 's', 'b', 'u', 'i', 'l', 'd', 's']);
        },
        Category::Other => {
            reveal_strlit("Other");
            assert("Other"@ =~= seq!['O', 't', 'h', 'e', 'r']);
            assert(normalize_spec(seq!['O', 't', 'h', 'e', 'r']) =~= seq!['o', 't', 'h', 'e', 'r']);
        },
    }
}

/// Every folder name parses back to its own category, so the names are
/// also pairwise distinct.
pub proof fn lemma_folder_name_round_trip(c: Category)
    ensures
        parse_category(folder(c)) == Some(c),
{
    lemma_normalized_folder(Category::Images);
    lemma_normalized_folder(Category::Videos);
    lemma_normalized_folder(Category::Audio);
    lemma_normalized_folder(Category::Documents);
    lemma_normalized_folder(Category::Archives);
    lemma_normalized_folder(Category::Applications);
    lemma_normalized_folder(Category::Code);
    lemma_normalized_folder(Category::Fonts);
    lemma_normalized_folder(Category::DiskImages);
    lemma_normalized_folder(Category::Shortcuts);
    lemma_normalized_folder(Category::EBooks);
    lemma_normalized_folder(Category::AndroidBuilds);
    lemma_normalized_folder(Category::IosBuilds);
    lemma_normalized_folder(Category::Other);
    assert(normalized_folder(c).len() > 0);
    match c {
        Category::Images => {
            
        },
        Category::Videos => {
            assert(normalized_folder(Category::Videos)[0] != normalized_folder(Category::Images)[0]);
        },
        Category::Audio => {
            assert(normalized_folder(Category::Audio).len() != normalized_folder(Category::Images).len());
            assert(normalized_folder(Category::Audio).len() != normalized_folder(Category::Videos).len());
        },
        Category::Documents => {
            assert(normalized_folder(Category::Documents).len() != normalized_folder(Category::Images).len());
            assert(normalized_folder(Category::Documents).len() != normalized_folder(Category::Videos).len());
            assert(normalized_folder(Category::Documents).len() != normalized_folder(Category::Audio).len());
        },
        Category::Archives => {
            assert(normalized_folder(Category::Archives).len() != normalized_folder(Category::Images).len());
            assert(normalized_folder(Category::Archives).len() != normalized_folder(Category::Videos).len());
            assert(normalized_folder(Category::Archives).len() != normalized_folder(Category::Audio).len());
            assert(normalized_folder(Category::Archives).len() != normalized_folder(Category::Documents).len());
        },
        Category::Applications => {
            assert(normalized_folder(Category::Applications).len() != normalized_folder(Category::Images).len());
            assert(normalized_folder(Category::Applications).len() != normalized_folder(Category::Videos).len());
            assert(normalized_folder(Category::Applications).len() != normalized_folder(Category::Audio).len());
            assert(normalized_folder(Category::Applications).len() != normalized_folder(Category::Documents).len());
            assert(normalized_folder(Category::Applications).len() != normalized_folder(Category::Archives).len());
        },
        Category::Code => {
            assert(normalized_folder(Category::Code).len() != normalized_folder(Category::Images).len());
            assert(normalized_folder(Category::Code).len() != normalized_folder(Category::Videos).len());
            assert(normalized_folder(Category::Code).len() != normalized_folder(Category::Audio).len());
            assert(normalized_folder(Category::Code).len() != normalized_folder(Category::Documents).len());
            assert(normalized_folder(Category::Code).len() != normalized_folder(Category::Archives).len());
            assert(normalized_folder(Category::Code).len() != normalized_folder(Category::Applications).len());
        },
        Category::Fonts => {
            assert(normalized_folder(Category::Fonts).len() != normalized_folder(Category::Images).len());
            assert(normalized_folder(Category::Fonts).len() != normalized_folder(Category::Videos).len());
            assert(normalized_folder(Category::Fonts)[0] != normalized_folder(Category::Audio)[0]);
            assert(normalized_folder(Category::Fonts).len() != normalized_folder(Category::Documents).len());
            assert(normalized_folder(Category::Fonts).len() != normalized_folder(Category::Archives).len());
            assert(normalized_folder(Category::Fonts).len() != normalized_folder(Category::Applications).len());
            assert(normalized_folder(Category::Fonts).len() != normalized_folder(Category::Code).len());
        },
        Category::DiskImages => {
            assert(normalized_folder(Category::DiskImages).len() != normalized_folder(Category::Images).len());
            assert(normalized_folder(Category::DiskImages).len() != normalized_folder(Category::Videos).len());
            assert(normalized_folder(Category::DiskImages).len() != normalized_folder(Category::Audio).len());
            assert(normalized_folder(Category::DiskImages).len() != normalized_folder(Category::Documents).len());
            assert(normalized_folder(Category::DiskImages).len() != normalized_folder(Category::Archives).len());
            assert(normalized_folder(Category::DiskImages).len() != normalized_folder(Category::Applications).len());
            assert(normalized_folder(Category::DiskImages).len() != normalized_folder(Category::Code).len());
            assert(normalized_folder(Category::DiskImages).len() != normalized_folder(Category::Fonts).len());
        },
        Category::Shortcuts => {
            assert(normalized_folder(Category::Shortcuts).len() != normalized_folder(Category::Images).len());
            assert(normalized_folder(Category::Shortcuts).len() != normalized_folder(Category::Videos).len());
            assert(normalized_folder(Category::Shortcuts).len() != normalized_folder(Category::Audio).len());
            assert(normalized_folder(Category::Shortcuts)[0] != normalized_folder(Category::Documents)[0]);
            assert(normalized_folder(Category::Shortcuts).len() != normalized_folder(Category::Archives).len());
            assert(normalized_folder(Category::Shortcuts).len() != normalized_folder(Category::Applications).len());
            assert(normalized_folder(Category::Shortcuts).len() != normalized_folder(Category::Code).len());
            assert(normalized_folder(Category::Shortcuts).len() != normalized_folder(Category::Fonts).len());
            assert(normalized_folder(Category::Shortcuts).len() != normalized_folder(Category::DiskImages).len());
        },
        Category::EBooks => {
            assert(normalized_folder(Category::EBooks)[0] != normalized_folder(Category::Images)[0]);
            assert(normalized_folder(Category::EBooks)[0] != normalized_folder(Category::Videos)[0]);
            assert(normalized_folder(Category::EBooks).len() != normalized_folder(Category::Audio).len());
            assert(normalized_folder(Category::EBooks).len() != normalized_folder(Category::Documents).len());
            assert(normalized_folder(Category::EBooks).len() != normalized_folder(Category::Archives).len());
            assert(normalized_folder(Category::EBooks).len() != normalized_folder(Category::Applications).len());
            assert(normalized_folder(Category::EBooks).len() != normalized_folder(Category::Code).len());
            assert(normalized_folder(Category::EBooks).len() != normalized_folder(Category::Fonts).len());
            assert(normalized_folder(Category::EBooks).len() != normalized_folder(Category::DiskImages).len());
            assert(normalized_folder(Category::EBooks).len() != normalized_folder(Category::Shortcuts).len());
        },
        Category::AndroidBuilds => {
            assert(normalized_folder(Category::AndroidBuilds).len() != normalized_folder(Category::Images).len());
            assert(normalized_folder(Category::AndroidBuilds).len() != normalized_folder(Category::Videos).len());
            assert(normalized_folder(Category::AndroidBuilds).len() != normalized_folder(Category::Audio).len());
            assert(normalized_folder(Category::AndroidBuilds).len() != normalized_folder(Category::Documents).len());
            assert(normalized_folder(Category::AndroidBuilds).len() != normalized_folder(Category::Archives).len());
            assert(normalized_folder(Category::AndroidBuilds).len() != normalized_folder(Category::Applications).len());
            assert(normalized_folder(Category::AndroidBuilds).len() != normalized_folder(Category::Code).len());
            assert(normalized_folder(Category::AndroidBuilds).len() != normalized_folder(Category::Fonts).len());
            assert(normalized_folder(Category::AndroidBuilds).len() != normalized_folder(Category::DiskImages).len());
            assert(normalized_folder(Category::AndroidBuilds).len() != normalized_folder(Category::Shortcuts).len());
            assert(normalized_folder(Category::AndroidBuilds).len() != normalized_folder(Category::EBooks).len());
        },
        Category::IosBuilds => {
            assert(normalized_folder(Category::IosBuilds).len() != normalized_folder(Category::Images).len());
            assert(normalized_folder(Category::IosBuilds).len() != normalized_folder(Category::Videos).len());
            assert(normalized_folder(Category::IosBuilds).len() != normalized_folder(Category::Audio).len());
            assert(normalized_folder(Category::IosBuilds)[0] != normalized_folder(Category::Documents)[0]);
            assert(normalized_folder(Category::IosBuilds).len() != normalized_folder(Category::Archives).len());
            assert(normalized_folder(Category::IosBuilds).len() != normalized_folder(Category::Applications).len());
            assert(normalized_folder(Category::IosBuilds).len() != normalized_folder(Category::Code).len());
            assert(normalized_folder(Category::IosBuilds).len() != normalized_folder(Category::Fonts).len());
            assert(normalized_folder(Category::IosBuilds).len() != normalized_folder(Category::DiskImages).len());
            assert(normalized_folder(Category::IosBuilds)[0] != normalized_folder(Category::Shortcuts)[0]);
            assert(normalized_folder(Category::IosBuilds).len() != normalized_folder(Category::EBooks).len());
            assert(normalized_folder(Category::IosBuilds).len() != normalized_folder(Category::AndroidBuilds).len());
        },
        Category::Other => {
            assert(normalized_folder(Category::Other).len() != normalized_folder(Category::Images).len());
            assert(normalized_folder(Category::Other).len() != normalized_folder(Category::Videos).len());
            assert(normalized_folder(Category::Other)[0] != normalized_folder(Category::Audio)[0]);
            assert(normalized_folder(Category::Other).len() != normalized_folder(Category::Documents).len());
            assert(normalized_folder(Category::Other).len() != normalized_folder(Category::Archives).len());
            assert(normalized_folder(Category::Other).len() != normalized_folder(Category::Applications).len());
            assert(normalized_folder(Category::Other).len() != normalized_folder(Category::Code).len());
            assert(normalized_folder(Category::Other)[0] != normalized_folder(Category::Fonts)[0]);
            assert(normalized_folder(Category::Other).len() != normalized_folder(Category::DiskImages).len());
            assert(normalized_folder(Category::Other).len() != normalized_folder(Category::Shortcuts).len());
            assert(normalized_folder(Category::Other).len() != normalized_folder(Category::EBooks).len());
            assert(normalized_folder(Category::Other).len() != normalized_folder(Category::AndroidBuilds).len());
            assert(normalized_folder(Category::Other).len() != normalized_folder(Category::IosBuilds).len());
        },
    }
}

/// No two categories share a folder name.
pub proof fn lemma_folder_names_distinct(c1: Category, c2: Category)
    requires
        c1 != c2,
    ensures
        folder(c1) != folder(c2),
{
    lemma_folder_name_round_trip(c1);
    lemma_folder_name_round_trip(c2);
}


/// `Category::ALL` lists every category, each exactly once.
pub proof fn lemma_all_lists_each_once()
    ensures
        Category::ALL@.len() == 14,
        forall|c: Category| #[trigger] Category::ALL@.contains(c),
        Category::ALL@.no_duplicates(),
{
    let a = Category::ALL@;
    assert(a =~= seq![
        Category::Images,
        Category::Videos,
        Category::Audio,
        Category::Documents,
        Category::Archives,
        Category::Applications,
        Category::Code,
        Category::Fonts,
        Category::DiskImages,
        Category::Shortcuts,
        Category::EBooks,
        Category::AndroidBuilds,
        Category::IosBuilds,
        Category::Other,
    ]);
    assert forall|c: Category| #[trigger] a.contains(c) by {
        match c {
            Category::Images => assert(a[0] == c),
            Category::Videos => assert(a[1] == c),
            Category::Audio => assert(a[2] == c),
            Category::Documents => assert(a[3] == c),
            Category::Archives => assert(a[4] == c),
            Category::Applications => assert(a[5] == c),
            Category::Code => assert(a[6] == c),
            Category::Fonts => assert(a[7] == c),
            Category::DiskImages => assert(a[8] == c),
            Category::Shortcuts => assert(a[9] == c),
            Category::EBooks => assert(a[10] == c),
            Category::AndroidBuilds => assert(a[11] == c),
            Category::IosBuilds => assert(a[12] == c),
            Category::Other => assert(a[13] == c),
        }
    }
}


/// Normalizing keeps exactly the ASCII digits and letters, in order, with
/// the capitals lowercased, and drops everything else.
pub proof fn lemma_normalize_keeps_alnum(s: Seq<char>)
    ensures
        normalize_spec(s) == s.filter_map(
            |c: char|
                if (48 <= c as u32 <= 57) || (97 <= c as u32 <= 122) {
                    Some(c)
                } else if 65 <= c as u32 <= 90 {
                    Some(((c as u32) + 32) as char)
                } else {
                    None
                },
        ),
    decreases s.len(),
{
    if s.len() > 0 {
        lemma_normalize_keeps_alnum(s.drop_last());
    }
}

/// A digit anywhere in the text survives normalizing.
proof fn lemma_normalize_digit(s: Seq<char>, i: int)
    requires
        0 <= i < s.len(),
        48 <= s[i] as u32 <= 57,
    ensures
        exists|k: int| 0 <= k < normalize_spec(s).len() && normalize_spec(s)[k] == s[i],
    decreases s.len(),
{
    let n = normalize_spec(s);
    if i == s.len() - 1 {
        let k = normalize_spec(s.drop_last()).len() as int;
        assert(n[k] == s[i]);
    } else {
        lemma_normalize_digit(s.drop_last(), i);
        let p = normalize_spec(s.drop_last());
        let k = choose|k: int| 0 <= k < p.len() && p[k] == s.drop_last()[i];
        assert(n[k] == p[k]);
    }
}

/// No folder name normalizes to anything holding a digit.
proof fn lemma_folder_letters(c: Category, k: int)
    requires
        0 <= k < normalized_folder(c).len(),
    ensures
        97 <= normalized_folder(c)[k] as u32 <= 122,
{
}

/// Text holding a digit never names a category, since no folder name holds
/// one: `Documents 2024` is not `Documents`.
pub proof fn lemma_digit_never_parses(s: Seq<char>, i: int)
    requires
        0 <= i < s.len(),
        48 <= s[i] as u32 <= 57,
    ensures
        parse_category(s) is None,
{
    lemma_normalize_digit(s, i);
    let n = normalize_spec(s);
    let k = choose|k: int| 0 <= k < n.len() && n[k] == s[i];
    assert forall|c: Category| n != #[trigger] normalize_spec(folder(c)) by {
        lemma_normalized_folder(c);
        if n == normalize_spec(folder(c)) {
            lemma_folder_letters(c, k);
        }
    }
    assert(n != normalize_spec(folder(Category::Images)));
    assert(n != normalize_spec(folder(Category::Videos)));
    assert(n != normalize_spec(folder(Category::Audio)));
    assert(n != normalize_spec(folder(Category::Documents)));
    assert(n != normalize_spec(folder(Category::Archives)));
    assert(n != normalize_spec(folder(Category::Applications)));
    assert(n != normalize_spec(folder(Category::Code)));
    assert(n != normalize_spec(folder(Category::Fonts)));
    assert(n != normalize_spec(folder(Category::DiskImages)));
    assert(n != normalize_spec(folder(Category::Shortcuts)));
    assert(n != normalize_spec(folder(Category::EBooks)));
    assert(n != normalize_spec(folder(Category::AndroidBuilds)));
    assert(n != normalize_spec(folder(Category::IosBuilds)));
    assert(n != normalize_spec(folder(Category::Other)));
}

} // verus!

//! The decisions behind choosing a folder: cleaning a typed path, listing
//! the subfolders to browse, and what each menu choice means.
use vstd::prelude::*;

use crate::text::{
    chars_of, decimal, decimal_of, lemma_lt_asymmetric, lemma_lt_total,
    lemma_lt_transitive, push_str, seq_lt, str_eq, str_lt, string_of, strip_back, strip_back_of,
    strip_front, strip_front_of, trim, trim_of, CharClass,
};

verus! {

/// The menu entry that asks the user to type a path instead of picking one.
pub const CUSTOM_PATH: &'static str = "Custom path";

pub const ORGANIZE_HERE: &'static str = "· Organize this folder";

pub const GO_UP: &'static str = "· Go up";

/// A typed path trimmed of white space and then of surrounding quotes.
pub open spec fn cleaned_path(entered: Seq<char>) -> Seq<char> {
    strip_back(strip_front(trim(entered), CharClass::Quote), CharClass::Quote)
}

/// Cleans a path typed in full: white space and the quotes that copying a
/// path often brings are dropped; nothing left is an error.
pub fn clean_custom_path(entered: &str) -> (r: Result<String, String>)
    ensures
        match r {
            Ok(p) => p@ == cleaned_path(entered@) && p@.len() > 0,
            Err(e) => cleaned_path(entered@).len() == 0 && e@ == "No path entered."@,
        },
{
    let t = trim_of(&chars_of(entered));
    let f = strip_front_of(&t, CharClass::Quote);
    let p = strip_back_of(&f, CharClass::Quote);
    if p.len() == 0 {
        let mut e = String::new();
        push_str(&mut e, "No path entered.");
        return Err(e);
    }
    Ok(string_of(&p))
}

/// The names that are not hidden (do not start with a dot), in order.
pub open spec fn visible(names: Seq<Seq<char>>) -> Seq<Seq<char>>
    decreases names.len(),
{
    if names.len() == 0 {
        names
    } else if names.last().len() > 0 && names.last()[0] == '.' {
        visible(names.drop_last())
    } else {
        visible(names.drop_last()).push(names.last())
    }
}

pub open spec fn sorted(s: Seq<Seq<char>>) -> bool {
    forall|i: int, j: int| 0 <= i < j < s.len() ==> !seq_lt(#[trigger] s[j], #[trigger] s[i])
}

/// The names kept are exactly those that do not start with a dot.
proof fn lemma_visible_keeps_undotted(names: Seq<Seq<char>>)
    ensures
        visible(names) == names.filter(|n: Seq<char>| n.len() == 0 || n[0] != '.'),
    decreases names.len(),
{
    reveal(Seq::filter);
    if names.len() > 0 {
        lemma_visible_keeps_undotted(names.drop_last());
    }
}

pub open spec fn strictly_sorted(s: Seq<Seq<char>>) -> bool {
    forall|i: int, j: int| 0 <= i < j < s.len() ==> seq_lt(#[trigger] s[i], #[trigger] s[j])
}

proof fn lemma_visible_count(s: Seq<Seq<char>>, x: Seq<char>)
    ensures
        visible(s).to_multiset().count(x) <= s.to_multiset().count(x),
    decreases s.len(),
{
    broadcast use vstd::seq_lib::group_to_multiset_ensures;

    if s.len() > 0 {
        lemma_visible_count(s.drop_last(), x);
        assert(s.drop_last().push(s.last()) =~= s);
    }
}

/// Sorted names that are, as a multiset, the visible ones among distinct
/// names are in strictly ascending order.
proof fn lemma_distinct_strictly_sorted(r: Seq<Seq<char>>, names: Seq<Seq<char>>)
    requires
        sorted(r),
        r.to_multiset() == visible(names).to_multiset(),
        names.no_duplicates(),
    ensures
        strictly_sorted(r),
{
    names.lemma_multiset_has_no_duplicates();
    assert forall|x: Seq<char>| r.to_multiset().contains(x) implies r.to_multiset().count(x) == 1 by {
        lemma_visible_count(names, x);
        assert(names.to_multiset().count(x) > 0);
    }
    r.lemma_multiset_has_no_duplicates_conv();
    assert forall|i: int, j: int| 0 <= i < j < r.len() implies seq_lt(#[trigger] r[i], #[trigger] r[j]) by {
        lemma_lt_total(r[i], r[j]);
    }
}

pub open spec fn name_views(v: Seq<String>) -> Seq<Seq<char>> {
    v.map_values(|s: String| s@)
}

/// Where `x` goes in the sorted `r`: after everything not greater than it.
fn insertion_point(r: &Vec<String>, x: &String) -> (p: usize)
    requires
        sorted(name_views(r@)),
    ensures
        p <= r.len(),
        forall|j: int| 0 <= j < p ==> !seq_lt(x@, #[trigger] r@[j]@),
        forall|j: int| p <= j < r.len() ==> seq_lt(x@, #[trigger] r@[j]@),
{
    let mut p: usize = r.len();
    while p > 0 && str_lt(x.as_str(), r[p - 1].as_str())
        invariant
            p <= r.len(),
            sorted(name_views(r@)),
            forall|j: int| p <= j < r.len() ==> seq_lt(x@, #[trigger] r@[j]@),
        decreases p,
    {
        p = p - 1;
    }
    assert forall|j: int| 0 <= j < p implies !seq_lt(x@, #[trigger] r@[j]@) by {
        if j < p - 1 {
            let a = r@[j]@;
            let b = r@[p - 1]@;
            assert(name_views(r@)[j] == a);
            assert(name_views(r@)[p - 1] == b);
            assert(!seq_lt(b, a));
            lemma_lt_total(a, b);
            lemma_lt_transitive(x@, a, b);
            if a == b {
            }
        }
    }
    p
}

/// Subfolder names to offer, hidden ones left out, sorted.
pub fn visible_sorted(names: Vec<String>) -> (r: Vec<String>)
    ensures
        sorted(name_views(r@)),
        name_views(r@).to_multiset() == visible(name_views(names@)).to_multiset(),
        name_views(names@).no_duplicates() ==> strictly_sorted(name_views(r@)),
        name_views(r@).to_multiset() == name_views(names@).filter(
            |n: Seq<char>| n.len() == 0 || n[0] != '.',
        ).to_multiset(),
        forall|i: int|
            0 <= i < names.len() && (names@[i]@.len() == 0 || names@[i]@[0] != '.')
                ==> name_views(r@).contains(#[trigger] names@[i]@),
{
    let ghost all = name_views(names@);
    let mut r: Vec<String> = Vec::new();
    assert(name_views(r@) =~= visible(all.take(0)));
    let mut i: usize = 0;
    while i < names.len()
        invariant
            i <= names.len(),
            all == name_views(names@),
            sorted(name_views(r@)),
            name_views(r@).to_multiset() == visible(all.take(i as int)).to_multiset(),
        decreases names.len() - i,
    {
        assert(all.take(i + 1).drop_last() =~= all.take(i as int));
        assert(all.take(i + 1).last() == names@[i as int]@);
        let name = &names[i];
        let hidden = {
            let v = chars_of(name.as_str());
            v.len() > 0 && v[0] == '.'
        };
        if !hidden {
            let x = name.clone();
            let p = insertion_point(&r, &x);
            let ghost before = name_views(r@);
            r.insert(p, x);
            proof {
                let after = name_views(r@);
                assert(after =~= before.insert(p as int, x@));
                vstd::seq_lib::to_multiset_insert(before, p as int, x@);
                vstd::seq_lib::to_multiset_build(visible(all.take(i as int)), x@);
                assert forall|a: int, b: int| 0 <= a < b < after.len() implies !seq_lt(
                    #[trigger] after[b],
                    #[trigger] after[a],
                ) by {
                    if a < p && b == p {
                    } else if a == p && b > p {
                        assert(after[b] == before[b - 1]);
                        assert(seq_lt(x@, before[b - 1]));
                        lemma_lt_asymmetric(x@, before[b - 1]);
                    } else if a < p && b > p {
                        assert(after[b] == before[b - 1]);
                        assert(after[a] == before[a]);
                    } else if b < p {
                        assert(after[b] == before[b]);
                        assert(after[a] == before[a]);
                    } else {
                        assert(after[b] == before[b - 1]);
                        assert(after[a] == before[a - 1]);
                    }
                }
            }
        }
        i = i + 1;
    }
    assert(all.take(names.len() as int) =~= all);
    proof {
        lemma_visible_keeps_undotted(all);
        let kept = all.filter(|n: Seq<char>| n.len() == 0 || n[0] != '.');
        assert forall|i: int|
            0 <= i < names.len() && (names@[i]@.len() == 0 || names@[i]@[0] != '.')
                implies name_views(r@).contains(#[trigger] names@[i]@) by {
            broadcast use vstd::seq_lib::group_to_multiset_ensures;

            assert(all[i] == names@[i]@);
            all.lemma_filter_contains(|n: Seq<char>| n.len() == 0 || n[0] != '.', i);
            assert(kept.to_multiset().count(all[i]) > 0);
        }
        if all.no_duplicates() {
            lemma_distinct_strictly_sorted(name_views(r@), all);
        }
    }
    r
}


/// A leaf folder below the starting one is almost always the one that was
/// meant, so browsing stops there without asking.
pub fn stop_at_leaf(child_count: usize, at_start: bool) -> (stop: bool)
    ensures
        stop == (child_count == 0 && !at_start),
{
    child_count == 0 && !at_start
}

/// The menu offered while browsing: organize this folder, go up (unless at
/// the starting folder), then each subfolder.
pub open spec fn browse_menu(at_start: bool, labels: Seq<Seq<char>>) -> Seq<Seq<char>> {
    if at_start {
        seq![ORGANIZE_HERE@] + labels
    } else {
        seq![ORGANIZE_HERE@, GO_UP@] + labels
    }
}

pub fn browse_options(at_start: bool, labels: &Vec<String>) -> (options: Vec<String>)
    ensures
        name_views(options@) == browse_menu(at_start, name_views(labels@)),
{
    let mut options: Vec<String> = Vec::new();
    let mut here = String::new();
    push_str(&mut here, ORGANIZE_HERE);
    options.push(here);
    if !at_start {
        let mut up = String::new();
        push_str(&mut up, GO_UP);
        options.push(up);
    }
    let ghost head = name_views(options@);
    let mut i: usize = 0;
    while i < labels.len()
        invariant
            i <= labels.len(),
            head == if at_start { seq![ORGANIZE_HERE@] } else { seq![ORGANIZE_HERE@, GO_UP@] },
            name_views(options@) == head + name_views(labels@).take(i as int),
        decreases labels.len() - i,
    {
        let ghost before = options@;
        let label = labels[i].clone();
        options.push(label);
        assert(name_views(options@) =~= name_views(before).push(labels@[i as int]@));
        assert(name_views(labels@).take(i + 1) =~= name_views(labels@).take(i as int).push(
            labels@[i as int]@,
        ));
        assert(name_views(options@) =~= head + name_views(labels@).take(i + 1));
        i = i + 1;
    }
    assert(name_views(labels@).take(labels.len() as int) =~= name_views(labels@));
    options
}

/// What a menu choice asks for.
pub enum BrowseAction {
    /// Organize the folder being shown.
    OrganizeHere,
    /// Show the parent folder.
    GoUp,
    /// Show the subfolder at this index of the listing.
    Descend(usize),
    /// The choice names nothing listed: stay.
    Stay,
}

/// What a choice from the browsing menu means. A subfolder is found by its
/// label among those listed, the first that matches, rather than rebuilt
/// from the label.
pub fn browse_action(choice: &str, labels: &Vec<String>) -> (action: BrowseAction)
    ensures
        choice@ == ORGANIZE_HERE@ ==> action == BrowseAction::OrganizeHere,
        choice@ != ORGANIZE_HERE@ && choice@ == GO_UP@ ==> action == BrowseAction::GoUp,
        choice@ != ORGANIZE_HERE@ && choice@ != GO_UP@ ==> match action {
            BrowseAction::Descend(i) => {
                &&& i < labels@.len()
                &&& labels@[i as int]@ == choice@
                &&& forall|j: int| 0 <= j < i ==> #[trigger] labels@[j]@ != choice@
            },
            BrowseAction::Stay => forall|j: int|
                0 <= j < labels@.len() ==> #[trigger] labels@[j]@ != choice@,
            _ => false,
        },
{
    if str_eq(choice, ORGANIZE_HERE) {
        return BrowseAction::OrganizeHere;
    }
    if str_eq(choice, GO_UP) {
        return BrowseAction::GoUp;
    }
    let mut i: usize = 0;
    while i < labels.len()
        invariant
            i <= labels.len(),
            choice@ != ORGANIZE_HERE@,
            choice@ != GO_UP@,
            forall|j: int| 0 <= j < i ==> #[trigger] labels@[j]@ != choice@,
        decreases labels.len() - i,
    {
        if str_eq(labels[i].as_str(), choice) {
            return BrowseAction::Descend(i);
        }
        i = i + 1;
    }
    BrowseAction::Stay
}

/// The browsing prompt: the folder's label and how many subfolders it has.
pub fn browse_prompt(label: &str, child_count: usize) -> (prompt: String)
    ensures
        prompt@ == label@ + "  ("@ + decimal(child_count as nat) + " inside)"@,
{
    let mut prompt = String::new();
    push_str(&mut prompt, label);
    push_str(&mut prompt, "  (");
    let count = string_of(&decimal_of(child_count as u64));
    push_str(&mut prompt, count.as_str());
    push_str(&mut prompt, " inside)");
    prompt
}

} // verus!

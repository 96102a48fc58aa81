//! Finding a free name for a file whose name is already taken.
use vstd::prelude::*;

use crate::text::{decimal, decimal_of, push_char, push_str, string_of};

verus! {

/// The name tried at the `n`-th collision: `stem (n).ext`, or `stem (n)` for
/// a file without an extension (never with a bare trailing dot).
pub open spec fn candidate_name(stem: Seq<char>, ext: Option<Seq<char>>, n: nat) -> Seq<char> {
    let base = stem + seq![' ', '('] + decimal(n) + seq![')'];
    match ext {
        Some(e) => base + seq!['.'] + e,
        None => base,
    }
}

/// The `n`-th name tried: the planned name itself, then the candidates.
pub open spec fn tried_name(
    first: Seq<char>,
    stem: Seq<char>,
    ext: Option<Seq<char>>,
    n: nat,
) -> Seq<char> {
    if n == 0 {
        first
    } else {
        candidate_name(stem, ext, n)
    }
}

pub open spec fn ext_view(ext: Option<&str>) -> Option<Seq<char>> {
    match ext {
        Some(e) => Some(e@),
        None => None,
    }
}

/// `stem (n).ext`, or `stem (n)` without an extension.
pub fn candidate(stem: &str, extension: Option<&str>, n: u64) -> (name: String)
    ensures
        name@ == candidate_name(stem@, ext_view(extension), n as nat),
{
    let mut name = String::new();
    push_str(&mut name, stem);
    push_char(&mut name, ' ');
    push_char(&mut name, '(');
    let digits = decimal_of(n);
    let ds = string_of(&digits);
    push_str(&mut name, ds.as_str());
    push_char(&mut name, ')');
    match extension {
        Some(e) => {
            push_char(&mut name, '.');
            push_str(&mut name, e);
        },
        None => {},
    }
    assert(name@ =~= candidate_name(stem@, ext_view(extension), n as nat));
    name
}

/// `f` answered `b` when asked about a name spelled `name`.
pub open spec fn answered<F: Fn(&str) -> bool>(f: F, name: Seq<char>, b: bool) -> bool {
    exists|s: &str| s@ == name && #[trigger] f.ensures((s,), b)
}

/// Advances `destname` to the first free `stem (n)` slot, asking `occupied`
/// about each name in turn: first the planned name, then `stem (1)`,
/// `stem (2)`, and so on. Returns whether a free name was found; it is not
/// only when every counter a `u64` holds was taken.
///
/// `extension` is `None` for files that have none (`LICENSE`, `Makefile`),
/// which must still be de-duplicated, or the move would overwrite a file.
pub fn resolve_duplicate<F: Fn(&str) -> bool>(
    destname: &mut String,
    filestem: &str,
    extension: Option<&str>,
    occupied: &F,
) -> (found: bool)
    requires
        forall|s: &str| occupied.requires((s,)),
    ensures
        found ==> exists|k: nat|
            {
                &&& final(destname)@ == tried_name(old(destname)@, filestem@, ext_view(extension), k)
                &&& answered(*occupied, final(destname)@, false)
                &&& forall|j: nat|
                    j < k ==> answered(
                        *occupied,
                        #[trigger] tried_name(old(destname)@, filestem@, ext_view(extension), j),
                        true,
                    )
            },
        !found ==> forall|j: nat|
            j <= u64::MAX ==> answered(
                *occupied,
                #[trigger] tried_name(old(destname)@, filestem@, ext_view(extension), j),
                true,
            ),
{
    let ghost first = destname@;
    let ghost ext = ext_view(extension);
    let mut counter: u64 = 0;
    let mut found = false;
    loop
        invariant_except_break
            !found,
        invariant
            forall|s: &str| occupied.requires((s,)),
            first == old(destname)@,
            ext == ext_view(extension),
            destname@ == tried_name(first, filestem@, ext, counter as nat),
            forall|j: nat|
                j < counter ==> answered(*occupied, #[trigger] tried_name(first, filestem@, ext, j), true),
        ensures
            found ==> answered(*occupied, destname@, false),
            !found ==> counter == u64::MAX && answered(*occupied, destname@, true),
        decreases u64::MAX - counter,
    {
        let name = destname.as_str();
        let taken = occupied(name);
        if !taken {
            found = true;
            break;
        }
        if counter == u64::MAX {
            assert(occupied.ensures((name,), true));
            break;
        }
        counter = counter + 1;
        *destname = candidate(filestem, extension, counter);
    }
    assert(destname@ == tried_name(old(destname)@, filestem@, ext_view(extension), counter as nat));
    if !found {
        assert forall|j: nat| j <= u64::MAX implies answered(
            *occupied,
            #[trigger] tried_name(first, filestem@, ext, j),
            true,
        ) by {
            if j == counter {
            }
        }
    }
    found
}

} // verus!

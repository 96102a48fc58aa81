//! Working out where files should go.
//!
//! Destinations chosen earlier in the same run are remembered, because during
//! a dry run nothing is written to disk: without this, three loose `LICENSE`
//! files would all be reported as moving to the same path.
use vstd::prelude::*;

use crate::organizer::category::{folder, Category};
use crate::organizer::classifier::{classify, classify_file};
use crate::organizer::duplicate::{
    answered, candidate_name, ext_view, resolve_duplicate, tried_name,
};
use crate::paths::{
    dest_key, destination_key, extension_of, file_extension, file_stem, last_index, lemma_last_index, lemma_last_index_bounds,
    lemma_last_index_is_last,
    stem_of,
};
use crate::text::{chars_of, decimal, lowercase, push_char, push_str, str_eq, to_lowercase};

verus! {

/// A planned destination, relative to the folder being organized: the
/// category folder and the file name inside it.
pub struct Destination {
    pub folder: String,
    pub file_name: String,
}

/// Why no destination could be planned.
#[derive(Debug)]
pub enum PlanError {
    /// The path has no file name, so no file stem.
    NoFileStem,
    /// Every numbered variant of the name is taken.
    NoFreeName,
}

/// A claimed destination: the whole path it names, spelled as
/// `dest_key` spells it, so that two spellings of one path are one claim.
pub type Claim = Seq<char>;

pub open spec fn claim_views(v: Seq<String>) -> Seq<Claim> {
    v.map_values(|c: String| c@)
}

/// The name a file gets in its folder before any clash: its stem, then its
/// original extension when it has one.
pub open spec fn planned_name(stem: Seq<char>, ext: Option<Seq<char>>) -> Seq<char> {
    match ext {
        Some(e) => stem + seq!['.'] + e,
        None => stem,
    }
}

/// Whether `stem` can carry the extension `ext` through a rename: it is not
/// empty when there is an extension, and when there is none it has no dot
/// past its first character, which would read as an extension.
pub open spec fn carries(stem: Seq<char>, ext: Option<Seq<char>>) -> bool {
    match ext {
        Some(_) => stem.len() > 0,
        None => extension_of(stem) is None,
    }
}

/// The stem a destination is built from: the new one when there is one and
/// it can carry the file's extension, else the file's own.
pub open spec fn stem_for(name: Seq<char>, new_stem: Option<Seq<char>>) -> Seq<char> {
    match new_stem {
        Some(s) => if carries(s, extension_of(name)) {
            s
        } else {
            stem_of(name)
        },
        None => stem_of(name),
    }
}

/// `on_disk` answered `b` when asked about `name` in `folder`.
pub open spec fn disk_answered<F: Fn(&str, &str) -> bool>(
    on_disk: F,
    folder: Seq<char>,
    name: Seq<char>,
    b: bool,
) -> bool {
    exists|x: &str, y: &str| x@ == folder && y@ == name && #[trigger] on_disk.ensures((x, y), b)
}

pub open spec fn opt_view(s: Option<&str>) -> Option<Seq<char>> {
    match s {
        Some(t) => Some(t@),
        None => None,
    }
}

/// What planning a destination for the file `file_name` in `folder` under
/// `root` does, with the destinations claimed `before` and `after`.
///
/// Without a file name it fails and claims nothing. Otherwise the name is
/// built from the stem (the new one if given) and the file's own extension;
/// the first of that name and its numbered variants whose whole path is
/// neither claimed (compared by `dest_key`, so `/r/./Images` and `/r//Images/`
/// are one folder, and an absolute folder replaces the root) nor reported on
/// disk by `on_disk` is claimed and returned. Planning fails, claiming
/// nothing, only when every numbered variant is taken.
pub open spec fn plan_outcome<F: Fn(&str, &str) -> bool>(
    before: Seq<Claim>,
    after: Seq<Claim>,
    file_name: Option<Seq<char>>,
    root: Seq<char>,
    folder: Seq<char>,
    new_stem: Option<Seq<char>>,
    on_disk: F,
    r: Result<Destination, PlanError>,
) -> bool {
    match r {
        Err(PlanError::NoFileStem) => {
            &&& file_name is None
            &&& after == before
        },
        Err(PlanError::NoFreeName) => {
            let name = file_name->0;
            let stem = stem_for(name, new_stem);
            let ext = extension_of(name);
            let first = planned_name(stem, ext);
            &&& file_name is Some
            &&& after == before
            &&& forall|j: nat|
                j <= u64::MAX ==> {
                    ||| before.contains(
                        dest_key(root, folder, #[trigger] tried_name(first, stem, ext, j)),
                    )
                    ||| disk_answered(on_disk, folder, tried_name(first, stem, ext, j), true)
                }
        },
        Ok(d) => {
            let name = file_name->0;
            let stem = stem_for(name, new_stem);
            let ext = extension_of(name);
            let first = planned_name(stem, ext);
            &&& file_name is Some
            &&& d.folder@ == folder
            &&& !before.contains(dest_key(root, folder, d.file_name@))
            &&& disk_answered(on_disk, folder, d.file_name@, false)
            &&& after == before.push(dest_key(root, folder, d.file_name@))
            &&& exists|k: nat|
                {
                    &&& d.file_name@ == tried_name(first, stem, ext, k)
                    &&& forall|j: nat|
                        j < k ==> {
                            ||| before.contains(
                                dest_key(root, folder, #[trigger] tried_name(first, stem, ext, j)),
                            )
                            ||| disk_answered(on_disk, folder, tried_name(first, stem, ext, j), true)
                        }
                }
        },
    }
}

/// The category a file is sorted into by its extension, lowercased.
pub open spec fn category_of(file_name: Option<Seq<char>>) -> Category {
    match file_name {
        Some(n) => match extension_of(n) {
            Some(e) => classify(Some(lowercase(e))),
            None => classify(None),
        },
        None => classify(None),
    }
}

/// Works out where files should go, remembering every destination it has
/// handed out so that none is handed out twice.
pub struct Relocator {
    claimed: Vec<String>,
}

impl Relocator {
    /// The destinations handed out so far, oldest first.
    pub closed spec fn claims(&self) -> Seq<Claim> {
        claim_views(self.claimed@)
    }

    #[verifier::type_invariant]
    spec fn claims_distinct(&self) -> bool {
        self.claims().no_duplicates()
    }

    pub fn new() -> (r: Relocator)
        ensures
            r.claims() == Seq::<Claim>::empty(),
    {
        let r = Relocator { claimed: Vec::new() };
        assert(r.claims() =~= Seq::<Claim>::empty());
        r
    }

    /// No destination is handed out twice.
    pub fn claims_are_distinct(&self)
        ensures
            self.claims().no_duplicates(),
    {
        proof {
            use_type_invariant(self);
        }
    }

    fn is_claimed(claimed: &Vec<String>, key: &str) -> (b: bool)
        ensures
            b == claim_views(claimed@).contains(key@),
    {
        let ghost views = claim_views(claimed@);
        let mut i: usize = 0;
        while i < claimed.len()
            invariant
                i <= claimed.len(),
                views == claim_views(claimed@),
                forall|j: int| 0 <= j < i ==> views[j] != key@,
            decreases claimed.len() - i,
        {
            if str_eq(claimed[i].as_str(), key) {
                assert(views[i as int] == key@);
                return true;
            }
            i = i + 1;
        }
        false
    }

    /// Decides the destination in `folder` under `root` for the file named
    /// `file_name`, optionally with a new stem. Both must already be
    /// sanitized. The extension always comes from the original file, so a
    /// rename can never change what a file claims to be: a new stem that
    /// could not carry it (an empty one, or one with a dot past its first
    /// character for a file without an extension) is not used, and the file
    /// keeps its own stem.
    ///
    /// A name is taken when `on_disk` says something is at it, or when its
    /// whole path was handed out before, however that path was spelled; the
    /// first free name among the planned one and its numbered variants is
    /// claimed and returned.
    pub fn plan_into<F: Fn(&str, &str) -> bool>(
        &mut self,
        file_name: Option<&str>,
        root: &str,
        folder: &str,
        new_stem: Option<&str>,
        on_disk: &F,
    ) -> (r: Result<Destination, PlanError>)
        requires
            forall|x: &str, y: &str| on_disk.requires((x, y)),
        ensures
            plan_outcome(
                old(self).claims(),
                final(self).claims(),
                opt_view(file_name),
                root@,
                folder@,
                opt_view(new_stem),
                *on_disk,
                r,
            ),
            r is Ok ==> extension_of(r->Ok_0.file_name@) == extension_of(opt_view(file_name)->0),
    {
        proof {
            use_type_invariant(&*self);
        }
        let name = match file_name {
            Some(n) => n,
            None => {
                return Err(PlanError::NoFileStem);
            },
        };
        let current_stem = file_stem(name);
        // Kept as written on disk: lowercasing it here would quietly rename
        // every `.JPG` to `.jpg`.
        let extension = file_extension(name);
        let ext: Option<&str> = match &extension {
            Some(e) => Some(e.as_str()),
            None => None,
        };
        // A new stem that cannot carry the extension would change what the
        // file claims to be, so the file keeps its own stem instead.
        let stem: &str = match new_stem {
            Some(s) => {
                let fits = match ext {
                    Some(_) => chars_of(s).len() > 0,
                    None => file_extension(s).is_none(),
                };
                if fits {
                    s
                } else {
                    current_stem.as_str()
                }
            },
            None => current_stem.as_str(),
        };
        let mut destname = String::new();
        push_str(&mut destname, stem);
        match ext {
            Some(e) => {
                push_char(&mut destname, '.');
                push_str(&mut destname, e);
            },
            None => {},
        }
        assert(destname@ =~= planned_name(stem@, ext_view(ext)));
        let ghost first = destname@;
        let claimed = &self.claimed;
        let occupied = |candidate: &str| -> (taken: bool)
            ensures
                !taken ==> !claim_views(claimed@).contains(dest_key(root@, folder@, candidate@)) && disk_answered(
                    *on_disk,
                    folder@,
                    candidate@,
                    false,
                ),
                taken ==> claim_views(claimed@).contains(dest_key(root@, folder@, candidate@)) || disk_answered(
                    *on_disk,
                    folder@,
                    candidate@,
                    true,
                ),
            {
                let on = on_disk(folder, candidate);
                on || {
                    let key = destination_key(root, folder, candidate);
                    Self::is_claimed(claimed, key.as_str())
                }
            };
        let found = resolve_duplicate(&mut destname, stem, ext, &occupied);
        let ghost ext_v = ext_view(ext);
        let ghost old_claims = claim_views(self.claimed@);
        let ghost spec_stem = stem_for(name@, opt_view(new_stem));
        assert(stem@ == spec_stem);
        assert(ext_v == extension_of(name@));
        if !found {
            assert forall|j: nat| j <= u64::MAX implies {
                ||| old_claims.contains(
                    dest_key(root@, folder@, #[trigger] tried_name(first, spec_stem, ext_v, j)),
                )
                ||| disk_answered(*on_disk, folder@, tried_name(first, spec_stem, ext_v, j), true)
            } by {
                let t = tried_name(first, stem@, ext_v, j);
                assert(answered(occupied, t, true));
                let s1 = choose|s: &str| s@ == t && #[trigger] occupied.ensures((s,), true);
            }
            return Err(PlanError::NoFreeName);
        }
        let ghost k = choose|k: nat|
                {
                    &&& destname@ == tried_name(first, stem@, ext_v, k)
                    &&& answered(occupied, destname@, false)
                    &&& forall|j: nat|
                        j < k ==> answered(
                            occupied,
                            #[trigger] tried_name(first, stem@, ext_v, j),
                            true,
                        )
                };
        proof {
            let s0 = choose|s: &str| s@ == destname@ && #[trigger] occupied.ensures((s,), false);
            assert(!old_claims.contains(dest_key(root@, folder@, destname@)));
            assert(disk_answered(*on_disk, folder@, destname@, false));
            assert forall|j: nat| j < k implies {
                ||| old_claims.contains(dest_key(root@, folder@, #[trigger] tried_name(first, stem@, ext_v, j)))
                ||| disk_answered(*on_disk, folder@, tried_name(first, stem@, ext_v, j), true)
            } by {
                let t = tried_name(first, stem@, ext_v, j);
                assert(answered(occupied, t, true));
                let s1 = choose|s: &str| s@ == t && #[trigger] occupied.ensures((s,), true);
            }
        }
        let claim = destination_key(root, folder, destname.as_str());
        let ghost before = self.claims();
        let mut claimed: Vec<String> = Vec::new();
        std::mem::swap(&mut claimed, &mut self.claimed);
        claimed.push(claim);
        assert(claim_views(claimed@) =~= before.push(dest_key(root@, folder@, destname@)));
        assert(claim_views(claimed@).no_duplicates());
        std::mem::swap(&mut claimed, &mut self.claimed);
        let mut folder_out = String::new();
        push_str(&mut folder_out, folder);
        assert(first == planned_name(spec_stem, extension_of(name@)));
        assert(forall|j: nat|
            j < k ==> {
                ||| old_claims.contains(
                    dest_key(root@, folder@, #[trigger] tried_name(first, spec_stem, extension_of(name@), j)),
                )
                ||| disk_answered(*on_disk, folder@, tried_name(first, spec_stem, extension_of(name@), j), true)
            });
        assert(destname@ == tried_name(first, spec_stem, extension_of(name@), k));
        proof {
            lemma_extension_kept(name@, opt_view(new_stem), k);
        }
        Ok(Destination { folder: folder_out, file_name: destname })
    }

    /// Decides the destination using the built-in extension classifier: the
    /// category of the file's extension, lowercased, and the file's own name.
    pub fn plan<F: Fn(&str, &str) -> bool>(
        &mut self,
        file_name: Option<&str>,
        root: &str,
        on_disk: &F,
    ) -> (r: Result<Destination, PlanError>)
        requires
            forall|x: &str, y: &str| on_disk.requires((x, y)),
        ensures
            plan_outcome(
                old(self).claims(),
                final(self).claims(),
                opt_view(file_name),
                root@,
                folder(category_of(opt_view(file_name))),
                None,
                *on_disk,
                r,
            ),
            r is Ok ==> extension_of(r->Ok_0.file_name@) == extension_of(opt_view(file_name)->0),
    {
        let extension = lowercase_extension(file_name);
        let category = match &extension {
            Some(e) => classify_file(Some(e.as_str())),
            None => classify_file(None),
        };
        self.plan_into(file_name, root, category.folder_name(), None, on_disk)
    }
}

proof fn lemma_decimal_digits(n: nat)
    ensures
        forall|i: int| 0 <= i < decimal(n).len() ==> 48 <= (#[trigger] decimal(n)[i] as u32) <= 57,
    decreases n,
{
    if n >= 10 {
        lemma_decimal_digits(n / 10);
        let p = decimal(n / 10);
        assert forall|i: int| 0 <= i < decimal(n).len() implies 48 <= (#[trigger] decimal(n)[i] as u32) <= 57 by {
            if i < p.len() {
                assert(decimal(n)[i] == p[i]);
            }
        }
    }
}

proof fn lemma_last_dot_after(x: Seq<char>, y: Seq<char>)
    requires
        forall|i: int| 0 <= i < y.len() ==> #[trigger] y[i] != '.',
    ensures
        last_index(x + y, '.') == last_index(x, '.'),
    decreases y.len(),
{
    if y.len() > 0 {
        let y0 = y.drop_last();
        assert((x + y).drop_last() =~= x + y0);
        assert((x + y).last() == y[y.len() - 1]);
        assert forall|i: int| 0 <= i < y0.len() implies #[trigger] y0[i] != '.' by {
            assert(y0[i] == y[i]);
        }
        lemma_last_dot_after(x, y0);
    } else {
        assert(x + y =~= x);
    }
}

/// A file's own stem can always carry its extension.
proof fn lemma_own_stem_carries(name: Seq<char>)
    ensures
        carries(stem_of(name), extension_of(name)),
{
    let k0 = last_index(name, '.');
    lemma_last_index_bounds(name, '.');
    if k0 > 0 {
        assert(stem_of(name).len() == k0);
    }
}

/// The extension always comes from the original file, so a rename can never
/// change what a file claims to be: every name tried for a file, the planned
/// one and each numbered variant, has the file's own extension, whatever new
/// stem was proposed.
pub proof fn lemma_extension_kept(name: Seq<char>, new_stem: Option<Seq<char>>, k: nat)
    ensures
        ({
            let stem = stem_for(name, new_stem);
            let ext = extension_of(name);
            extension_of(tried_name(planned_name(stem, ext), stem, ext, k)) == ext
        }),
{
    lemma_own_stem_carries(name);
    let stem = stem_for(name, new_stem);
    let ext = extension_of(name);
    assert(carries(stem, ext));
    let t = tried_name(planned_name(stem, ext), stem, ext, k);
    let suffix = seq![' ', '('] + decimal(k) + seq![')'];
    lemma_decimal_digits(k);
    assert forall|i: int| 0 <= i < suffix.len() implies #[trigger] suffix[i] != '.' by {
        if 2 <= i < suffix.len() - 1 {
            assert(suffix[i] == decimal(k)[i - 2]);
        }
    }
    let base = if k == 0 { stem } else { stem + suffix };
    if k > 0 {
        assert(candidate_name(stem, ext, k) == match ext {
            Some(e) => (stem + suffix) + seq!['.'] + e,
            None => stem + suffix,
        }) by {
            assert(stem + seq![' ', '('] + decimal(k) + seq![')'] =~= stem + suffix);
        }
        lemma_last_dot_after(stem, suffix);
    }
    match ext {
        Some(e) => {
            let k0 = last_index(name, '.');
            lemma_last_index_bounds(name, '.');
            assert(e =~= name.skip(k0 + 1));
            assert forall|i: int| 0 <= i < e.len() implies #[trigger] e[i] != '.' by {
                if e[i] == '.' {
                    lemma_last_index_is_last(name, '.', k0 + 1 + i);
                }
            }
            let dotted = seq!['.'] + e;
            assert forall|i: int| 0 <= i < dotted.len() - 1 implies #[trigger] dotted[i + 1] != '.' by {
                assert(dotted[i + 1] == e[i]);
            }
            assert(t =~= base + dotted);
            lemma_last_index(t, '.', base.len() as int);
            assert(t.skip(base.len() + 1int) =~= e);
        },
        None => {
            assert(t =~= base);
        },
    }
}

/// The extension of a file name, lowercased.
fn lowercase_extension(file_name: Option<&str>) -> (r: Option<String>)
    ensures
        match file_name {
            Some(n) => match extension_of(n@) {
                Some(e) => r is Some && r->0@ == lowercase(e),
                None => r is None,
            },
            None => r is None,
        },
{
    match file_name {
        Some(n) => match file_extension(n) {
            Some(e) => Some(to_lowercase(e.as_str())),
            None => None,
        },
        None => None,
    }
}

} // verus!

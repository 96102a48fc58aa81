//! The parts of a file name: its stem and its extension.
use vstd::prelude::*;

use crate::text::{chars_of, push_char, push_str, slice_of, string_of};

verus! {

/// The index of the last `c` in `s`, or -1 when there is none.
pub open spec fn last_index(s: Seq<char>, c: char) -> int
    decreases s.len(),
{
    if s.len() == 0 {
        -1
    } else if s.last() == c {
        s.len() - 1
    } else {
        last_index(s.drop_last(), c)
    }
}

/// The stem of a file name: everything before the last dot, or the whole
/// name when it has no dot or its only dot leads (`.gitignore`). For every
/// name `Path::file_name` can return, this is what `Path::file_stem` gives.
pub open spec fn stem_of(name: Seq<char>) -> Seq<char> {
    let k = last_index(name, '.');
    if k <= 0 {
        name
    } else {
        name.take(k)
    }
}

/// The extension of a file name: what follows its last dot, unless it has no
/// dot or its only dot leads. For every name `Path::file_name` can return,
/// this is what `Path::extension` gives.
pub open spec fn extension_of(name: Seq<char>) -> Option<Seq<char>> {
    let k = last_index(name, '.');
    if k <= 0 {
        None
    } else {
        Some(name.skip(k + 1))
    }
}

pub proof fn lemma_last_index(s: Seq<char>, c: char, i: int)
    requires
        -1 <= i < s.len(),
        forall|j: int| i < j < s.len() ==> #[trigger] s[j] != c,
        i == -1 || s[i] == c,
    ensures
        last_index(s, c) == i,
    decreases s.len(),
{
    if s.len() > 0 && i < s.len() - 1 {
        let t = s.drop_last();
        assert forall|j: int| i < j < t.len() implies #[trigger] t[j] != c by {
            assert(t[j] == s[j]);
        }
        assert(s[s.len() - 1] != c);
        lemma_last_index(t, c, i);
    }
}

pub proof fn lemma_last_index_bounds(s: Seq<char>, c: char)
    ensures
        -1 <= last_index(s, c) < s.len(),
        last_index(s, c) >= 0 ==> s[last_index(s, c)] == c,
    decreases s.len(),
{
    if s.len() > 0 && s.last() != c {
        lemma_last_index_bounds(s.drop_last(), c);
        let k = last_index(s, c);
        if k >= 0 {
            assert(s.drop_last()[k] == s[k]);
        }
    }
}

/// Nothing after the last `c` is a `c`.
pub proof fn lemma_last_index_is_last(s: Seq<char>, c: char, j: int)
    requires
        last_index(s, c) < j < s.len(),
    ensures
        s[j] != c,
    decreases s.len(),
{
    lemma_last_index_bounds(s, c);
    if s.last() != c {
        if j < s.len() - 1 {
            lemma_last_index_is_last(s.drop_last(), c, j);
            assert(s.drop_last()[j] == s[j]);
        }
    }
}

/// Where the last dot of `v` is, when it is not at the start.
fn split_point(v: &Vec<char>) -> (k: usize)
    ensures
        last_index(v@, '.') <= 0 ==> k == 0,
        last_index(v@, '.') > 0 ==> k == last_index(v@, '.'),
        k < v.len() || k == 0,
{
    let mut j: usize = v.len();
    while j > 0 && v[j - 1] != '.'
        invariant
            j <= v.len(),
            forall|m: int| j <= m < v.len() ==> #[trigger] v@[m] != '.',
        decreases j,
    {
        j = j - 1;
    }
    proof {
        lemma_last_index(v@, '.', j - 1);
    }
    if j == 0 {
        0
    } else {
        j - 1
    }
}

/// The stem of the file name `name`.
pub fn file_stem(name: &str) -> (stem: String)
    ensures
        stem@ == stem_of(name@),
{
    let v = chars_of(name);
    let k = split_point(&v);
    if k == 0 {
        string_of(&v)
    } else {
        let s = slice_of(&v, 0, k);
        assert(s@ == v@.take(k as int));
        string_of(&s)
    }
}

/// The extension of the file name `name`, as written.
pub fn file_extension(name: &str) -> (ext: Option<String>)
    ensures
        match ext {
            Some(e) => extension_of(name@) == Some(e@),
            None => extension_of(name@) is None,
        },
{
    let v = chars_of(name);
    let k = split_point(&v);
    if k == 0 {
        None
    } else {
        let s = slice_of(&v, k + 1, v.len());
        assert(s@ == v@.skip(k + 1));
        Some(string_of(&s))
    }
}

/// A path separator: `/`, or `\` as Windows also reads it.
pub open spec fn is_sep(c: char) -> bool {
    c == '/' || c == '\\'
}

/// `out` with the component `c` appended, unless `c` is empty (a repeated
/// separator) or `.` (the current folder), which name no step.
pub open spec fn flush(out: Seq<char>, c: Seq<char>) -> Seq<char> {
    if c.len() == 0 || c == seq!['.'] {
        out
    } else if out.len() == 0 {
        c
    } else {
        out + seq!['/'] + c
    }
}

/// Reading a path left to right: the components finished so far, joined by
/// `/`, and the component being read.
pub open spec fn norm_scan(p: Seq<char>) -> (Seq<char>, Seq<char>)
    decreases p.len(),
{
    if p.len() == 0 {
        (Seq::empty(), Seq::empty())
    } else {
        let (o, c) = norm_scan(p.drop_last());
        if is_sep(p.last()) {
            (flush(o, c), Seq::empty())
        } else {
            (o, c.push(p.last()))
        }
    }
}

pub open spec fn is_absolute(p: Seq<char>) -> bool {
    p.len() > 0 && is_sep(p[0])
}

/// A path spelled one way: a leading `/` when it is absolute, then its
/// components joined by single `/`, with repeated and trailing separators
/// and `.` components gone. Paths that are equal component by component,
/// as `PathBuf` compares them, are spelled the same.
pub open spec fn normalized(p: Seq<char>) -> Seq<char> {
    let (o, c) = norm_scan(p);
    let body = flush(o, c);
    if is_absolute(p) {
        seq!['/'] + body
    } else {
        body
    }
}

/// `a` joined with `b` as `Path::join` does: an absolute `b` replaces `a`,
/// and nothing is put before `b` when `a` is empty.
pub open spec fn joined(a: Seq<char>, b: Seq<char>) -> Seq<char> {
    if is_absolute(b) || a.len() == 0 {
        b
    } else {
        a + seq!['/'] + b
    }
}

/// The one spelling of the path of `name` in `folder` under `root`.
pub open spec fn dest_key(root: Seq<char>, folder: Seq<char>, name: Seq<char>) -> Seq<char> {
    normalized(joined(joined(root, folder), name))
}

fn flush_of(out: &mut Vec<char>, c: &Vec<char>)
    ensures
        final(out)@ == flush(old(out)@, c@),
{
    if c.len() == 0 || (c.len() == 1 && c[0] == '.') {
        assert(c.len() == 1 ==> c@ =~= seq!['.']);
        return;
    }
    assert(c@ != seq!['.']);
    if out.len() > 0 {
        out.push('/');
    }
    let mut i: usize = 0;
    let ghost start = out@;
    while i < c.len()
        invariant
            i <= c.len(),
            out@ == start + c@.take(i as int),
        decreases c.len() - i,
    {
        out.push(c[i]);
        assert(c@.take(i + 1) =~= c@.take(i as int).push(c@[i as int]));
        i = i + 1;
    }
    assert(c@.take(c.len() as int) =~= c@);
    assert(out@ =~= flush(old(out)@, c@));
}

fn normalized_chars(v: &Vec<char>) -> (r: Vec<char>)
    ensures
        r@ == normalized(v@),
{
    let mut o: Vec<char> = Vec::new();
    let mut c: Vec<char> = Vec::new();
    let mut i: usize = 0;
    while i < v.len()
        invariant
            i <= v.len(),
            (o@, c@) == norm_scan(v@.take(i as int)),
        decreases v.len() - i,
    {
        assert(v@.take(i + 1).drop_last() =~= v@.take(i as int));
        assert(v@.take(i + 1).last() == v@[i as int]);
        let x = v[i];
        if x == '/' || x == '\\' {
            flush_of(&mut o, &c);
            c = Vec::new();
        } else {
            c.push(x);
        }
        i = i + 1;
    }
    assert(v@.take(v.len() as int) =~= v@);
    flush_of(&mut o, &c);
    if v.len() > 0 && (v[0] == '/' || v[0] == '\\') {
        let mut r: Vec<char> = Vec::new();
        r.push('/');
        let mut j: usize = 0;
        while j < o.len()
            invariant
                j <= o.len(),
                r@ == seq!['/'] + o@.take(j as int),
            decreases o.len() - j,
        {
            r.push(o[j]);
            assert(o@.take(j + 1) =~= o@.take(j as int).push(o@[j as int]));
            j = j + 1;
        }
        assert(o@.take(o.len() as int) =~= o@);
        r
    } else {
        o
    }
}

/// The one spelling of the path of `name` in `folder` under `root`.
pub fn destination_key(root: &str, folder: &str, name: &str) -> (k: String)
    ensures
        k@ == dest_key(root@, folder@, name@),
{
    let mut p = String::new();
    let fv = chars_of(folder);
    let rv = chars_of(root);
    if (fv.len() > 0 && (fv[0] == '/' || fv[0] == '\\')) || rv.len() == 0 {
        push_str(&mut p, folder);
    } else {
        push_str(&mut p, root);
        push_char(&mut p, '/');
        push_str(&mut p, folder);
    }
    assert(p@ =~= joined(root@, folder@));
    let nv = chars_of(name);
    let pv = chars_of(p.as_str());
    if (nv.len() > 0 && (nv[0] == '/' || nv[0] == '\\')) || pv.len() == 0 {
        p = String::new();
        push_str(&mut p, name);
    } else {
        push_char(&mut p, '/');
        push_str(&mut p, name);
    }
    assert(p@ =~= joined(joined(root@, folder@), name@));
    let v = chars_of(p.as_str());
    let r = normalized_chars(&v);
    string_of(&r)
}

/// A trailing separator, or a trailing `/.`, names the same path.
pub proof fn lemma_trailing_parts_ignored(p: Seq<char>)
    requires
        p.len() > 0,
    ensures
        normalized(p.push('/')) == normalized(p),
        normalized(p + seq!['/', '.']) == normalized(p),
{
    let q = p.push('/');
    assert(q.drop_last() =~= p);
    let r = p + seq!['/', '.'];
    assert(r.drop_last() =~= q);
    assert(q[0] == p[0]);
    assert(r[0] == p[0]);
    let (o, c) = norm_scan(p);
    assert(norm_scan(q) == (flush(o, c), Seq::<char>::empty()));
    assert(r.last() == '.');
    assert(Seq::<char>::empty().push('.') =~= seq!['.']);
    assert(norm_scan(r) == (flush(o, c), seq!['.']));
}

} // verus!

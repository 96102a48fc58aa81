//! Turning model-proposed text into names that are safe to put on disk:
//! no traversal, no reserved device names, no characters Windows rejects,
//! and nothing that silently resolves somewhere other than where it reads.
use vstd::prelude::*;

use crate::text::{
    ascii_lower, ascii_lower_of, before_first, before_first_of, char_is_control, char_is_whitespace,
    first_index, in_class, lemma_first_index, lemma_first_index_bounds, lemma_strip_back,
    lemma_strip_front, lower_char,
    chars_eq_str, chars_of, contains_char, is_ctrl, is_ws, slice_of, string_of, strip_back,
    strip_back_of, trim, trim_of, CharClass, lemma_strip_back_shape,
    lemma_trim_shape, strip_front, lemma_trim_keeps_end,
};

verus! {

/// Folder names are kept short so the tree stays readable.
pub const MAX_FOLDER: usize = 48;

/// Leaves room for a ` (12)` duplicate suffix and an extension inside the
/// 255-character limit on a path component.
pub const MAX_STEM: usize = 120;

/// Characters Windows forbids in a path component.
pub open spec fn is_illegal(c: char) -> bool {
    c == '<' || c == '>' || c == ':' || c == '"' || c == '/' || c == '\\' || c == '|' || c == '?'
        || c == '*'
}

/// Names Windows treats as devices, with or without an extension.
pub open spec fn is_reserved(s: Seq<char>) -> bool {
    ||| s == "con"@
    ||| s == "prn"@
    ||| s == "aux"@
    ||| s == "nul"@
    ||| s == "com1"@
    ||| s == "com2"@
    ||| s == "com3"@
    ||| s == "com4"@
    ||| s == "com5"@
    ||| s == "com6"@
    ||| s == "com7"@
    ||| s == "com8"@
    ||| s == "com9"@
    ||| s == "lpt1"@
    ||| s == "lpt2"@
    ||| s == "lpt3"@
    ||| s == "lpt4"@
    ||| s == "lpt5"@
    ||| s == "lpt6"@
    ||| s == "lpt7"@
    ||| s == "lpt8"@
    ||| s == "lpt9"@
}

/// What one character becomes: white space (tabs and newlines included) and
/// forbidden characters turn into a space, other control characters vanish.
pub open spec fn clean_char(c: char) -> Option<char> {
    if is_ws(c) {
        Some(' ')
    } else if is_ctrl(c) {
        None
    } else if is_illegal(c) {
        Some(' ')
    } else {
        Some(c)
    }
}

/// `s` with every character cleaned.
pub open spec fn clean(s: Seq<char>) -> Seq<char>
    decreases s.len(),
{
    if s.len() == 0 {
        s
    } else {
        match clean_char(s.last()) {
            Some(c) => clean(s.drop_last()).push(c),
            None => clean(s.drop_last()),
        }
    }
}

/// `s` with each run of white space replaced by one space.
pub open spec fn collapse(s: Seq<char>) -> Seq<char>
    decreases s.len(),
{
    if s.len() == 0 {
        s
    } else {
        let p = s.drop_last();
        let c = s.last();
        if is_ws(c) && p.len() > 0 && is_ws(p.last()) {
            collapse(p)
        } else {
            collapse(p).push(if is_ws(c) { ' ' } else { c })
        }
    }
}

/// Trimmed of white space, then of trailing dots and spaces (which Windows
/// silently drops), then of white space again.
pub open spec fn trim_name(s: Seq<char>) -> Seq<char> {
    trim(strip_back(trim(s), CharClass::DotOrSpace))
}

pub open spec fn all_dots(s: Seq<char>) -> bool {
    forall|i: int| 0 <= i < s.len() ==> s[i] == '.'
}

/// The whole name after cleaning, before it is cut to length.
pub open spec fn cleaned_name(input: Seq<char>) -> Seq<char> {
    trim_name(collapse(clean(trim(input))))
}

/// The lowercased part before the first dot, which Windows matches against
/// its device names whatever the extension.
pub open spec fn device_stem(s: Seq<char>) -> Seq<char> {
    ascii_lower(before_first(s, '.'))
}

/// At most the first `max` characters of `s`.
pub open spec fn take_at_most(s: Seq<char>, max: nat) -> Seq<char> {
    if s.len() <= max {
        s
    } else {
        s.take(max as int)
    }
}

/// The cleaned name of `input` cut to `max` characters, or `None` when the
/// input names a path, cleans to nothing, is made of dots only, or names a
/// reserved device, whole or once cut to length.
pub open spec fn sanitized(input: Seq<char>, max: nat) -> Option<Seq<char>> {
    if input.contains('/') || input.contains('\\') {
        None
    } else {
        let name = cleaned_name(input);
        if name.len() == 0 || all_dots(name) || is_reserved(device_stem(name)) {
            None
        } else {
            let cut = trim_name(take_at_most(name, max));
            if cut.len() == 0 || is_reserved(device_stem(cut)) {
                None
            } else {
                Some(cut)
            }
        }
    }
}

fn clean_char_of(c: char) -> (r: Option<char>)
    ensures
        r == clean_char(c),
{
    if char_is_whitespace(c) {
        Some(' ')
    } else if char_is_control(c) {
        None
    } else if c == '<' || c == '>' || c == ':' || c == '"' || c == '/' || c == '\\' || c == '|'
        || c == '?' || c == '*' {
        Some(' ')
    } else {
        Some(c)
    }
}

fn clean_of(v: &Vec<char>) -> (r: Vec<char>)
    ensures
        r@ == clean(v@),
{
    let mut r: Vec<char> = Vec::new();
    let mut i: usize = 0;
    while i < v.len()
        invariant
            i <= v.len(),
            r@ == clean(v@.take(i as int)),
        decreases v.len() - i,
    {
        assert(v@.take(i + 1).drop_last() == v@.take(i as int));
        assert(v@.take(i + 1).last() == v@[i as int]);
        match clean_char_of(v[i]) {
            Some(c) => r.push(c),
            None => {},
        }
        i = i + 1;
    }
    assert(v@.take(v.len() as int) == v@);
    r
}

fn collapse_of(v: &Vec<char>) -> (r: Vec<char>)
    ensures
        r@ == collapse(v@),
{
    let mut r: Vec<char> = Vec::new();
    let mut last_was_space = false;
    let mut i: usize = 0;
    while i < v.len()
        invariant
            i <= v.len(),
            r@ == collapse(v@.take(i as int)),
            last_was_space == (i > 0 && is_ws(v@[i - 1])),
        decreases v.len() - i,
    {
        assert(v@.take(i + 1).drop_last() == v@.take(i as int));
        assert(v@.take(i + 1).last() == v@[i as int]);
        let c = v[i];
        let is_space = char_is_whitespace(c);
        if !(is_space && last_was_space) {
            r.push(if is_space { ' ' } else { c });
        }
        last_was_space = is_space;
        i = i + 1;
    }
    assert(v@.take(v.len() as int) == v@);
    r
}

fn trim_name_of(v: &Vec<char>) -> (r: Vec<char>)
    ensures
        r@ == trim_name(v@),
{
    let a = trim_of(v);
    let b = strip_back_of(&a, CharClass::DotOrSpace);
    trim_of(&b)
}

fn all_dots_of(v: &Vec<char>) -> (r: bool)
    ensures
        r == all_dots(v@),
{
    let mut i: usize = 0;
    while i < v.len()
        invariant
            i <= v.len(),
            forall|j: int| 0 <= j < i ==> v@[j] == '.',
        decreases v.len() - i,
    {
        if v[i] != '.' {
            return false;
        }
        i = i + 1;
    }
    true
}

fn is_reserved_of(v: &Vec<char>) -> (r: bool)
    ensures
        r == is_reserved(v@),
{
    chars_eq_str(v, "con") || chars_eq_str(v, "prn") || chars_eq_str(v, "aux") || chars_eq_str(
        v,
        "nul",
    ) || chars_eq_str(v, "com1") || chars_eq_str(v, "com2") || chars_eq_str(v, "com3")
        || chars_eq_str(v, "com4") || chars_eq_str(v, "com5") || chars_eq_str(v, "com6")
        || chars_eq_str(v, "com7") || chars_eq_str(v, "com8") || chars_eq_str(v, "com9")
        || chars_eq_str(v, "lpt1") || chars_eq_str(v, "lpt2") || chars_eq_str(v, "lpt3")
        || chars_eq_str(v, "lpt4") || chars_eq_str(v, "lpt5") || chars_eq_str(v, "lpt6")
        || chars_eq_str(v, "lpt7") || chars_eq_str(v, "lpt8") || chars_eq_str(v, "lpt9")
}

/// Cleans one path component, or returns `None` if nothing usable survives.
fn sanitize(input: &str, max: usize) -> (r: Option<String>)
    ensures
        match r {
            Some(s) => sanitized(input@, max as nat) == Some(s@),
            None => sanitized(input@, max as nat) is None,
        },
        r matches Some(s) ==> is_safe_name(s@, max as nat) && !is_reserved(device_stem(s@)),
{
    let v = chars_of(input);
    // A separator means a path was proposed, not a name.
    if contains_char(&v, '/') || contains_char(&v, '\\') {
        return None;
    }
    let trimmed_input = trim_of(&v);
    let cleaned = clean_of(&trimmed_input);
    let collapsed = collapse_of(&cleaned);
    let name = trim_name_of(&collapsed);
    if name.len() == 0 {
        return None;
    }
    // "." and ".." are traversal, not names.
    if all_dots_of(&name) {
        return None;
    }
    let stem = ascii_lower_of(&before_first_of(&name, '.'));
    assert(stem@ == device_stem(name@));
    if is_reserved_of(&stem) {
        return None;
    }
    assert(name@ == cleaned_name(input@));
    let end = if name.len() <= max { name.len() } else { max };
    let head = slice_of(&name, 0, end);
    assert(head@ == take_at_most(name@, max as nat));
    let cut = trim_name_of(&head);
    if cut.len() == 0 {
        return None;
    }
    // A cut can expose a device name that the whole name hid.
    let cut_stem = ascii_lower_of(&before_first_of(&cut, '.'));
    assert(cut_stem@ == device_stem(cut@));
    if is_reserved_of(&cut_stem) {
        return None;
    }
    proof {
        lemma_sanitized_is_safe(input@, max as nat);
    }
    Some(string_of(&cut))
}

/// A folder name proposed by a model.
pub fn sanitize_folder_name(input: &str) -> (r: Option<String>)
    ensures
        match r {
            Some(s) => sanitized(input@, MAX_FOLDER as nat) == Some(s@),
            None => sanitized(input@, MAX_FOLDER as nat) is None,
        },
        r matches Some(s) ==> is_safe_name(s@, MAX_FOLDER as nat) && !is_reserved(device_stem(s@)),
{
    sanitize(input, MAX_FOLDER)
}

/// The stem of a file name proposed by a model. Extensions are never taken
/// from a model: callers keep the original extension and rename only the stem.
pub fn sanitize_file_stem(input: &str) -> (r: Option<String>)
    ensures
        match r {
            Some(s) => sanitized(input@, MAX_STEM as nat) == Some(s@),
            None => sanitized(input@, MAX_STEM as nat) is None,
        },
        r matches Some(s) ==> is_safe_name(s@, MAX_STEM as nat) && !is_reserved(device_stem(s@)),
{
    sanitize(input, MAX_STEM)
}


/// A character that may stand in a cleaned name: a space, or anything that is
/// neither white space, nor a control character, nor forbidden by Windows.
pub open spec fn name_char(c: char) -> bool {
    c == ' ' || (!is_ws(c) && !is_ctrl(c) && !is_illegal(c))
}

pub open spec fn all_name_chars(s: Seq<char>) -> bool {
    forall|i: int| 0 <= i < s.len() ==> name_char(#[trigger] s[i])
}

pub open spec fn no_double_space(s: Seq<char>) -> bool {
    forall|i: int| 0 <= i < s.len() - 1 ==> !(#[trigger] s[i] == ' ' && s[i + 1] == ' ')
}

/// What every name that `sanitized` hands out satisfies.
pub open spec fn is_safe_name(n: Seq<char>, max: nat) -> bool {
    &&& 1 <= n.len() <= max
    &&& all_name_chars(n)
    &&& no_double_space(n)
    &&& n[0] != ' '
    &&& n.last() != ' '
    &&& n.last() != '.'
    &&& !all_dots(n)
}

proof fn lemma_clean_chars(s: Seq<char>)
    ensures
        all_name_chars(clean(s)),
    decreases s.len(),
{
    if s.len() > 0 {
        lemma_clean_chars(s.drop_last());
    }
}

proof fn lemma_collapse(s: Seq<char>)
    requires
        all_name_chars(s),
    ensures
        all_name_chars(collapse(s)),
        no_double_space(collapse(s)),
        s.len() > 0 ==> collapse(s).len() > 0 && (collapse(s).last() == ' ' <==> is_ws(s.last())),
    decreases s.len(),
{
    if s.len() > 0 {
        let p = s.drop_last();
        assert(all_name_chars(p)) by {
            assert forall|i: int| 0 <= i < p.len() implies name_char(#[trigger] p[i]) by {
                assert(p[i] == s[i]);
            }
        }
        lemma_collapse(p);
        if p.len() > 0 {
            assert(p.last() == s[s.len() - 2]);
        }
    }
}

proof fn lemma_slice_keeps(s: Seq<char>, a: int, b: int)
    requires
        0 <= a <= b <= s.len(),
        all_name_chars(s),
        no_double_space(s),
    ensures
        all_name_chars(s.subrange(a, b)),
        no_double_space(s.subrange(a, b)),
{
    let t = s.subrange(a, b);
    assert forall|i: int| 0 <= i < t.len() implies name_char(#[trigger] t[i]) by {
        assert(t[i] == s[a + i]);
    }
    assert forall|i: int| 0 <= i < t.len() - 1 implies !(#[trigger] t[i] == ' ' && t[i + 1]
        == ' ') by {
        assert(t[i] == s[a + i]);
        assert(t[i + 1] == s[a + i + 1]);
    }
}

/// `trim_name` keeps a slice of clean text that starts with something other
/// than white space and ends with something other than a dot or a space.
proof fn lemma_trim_name_shape(s: Seq<char>) -> (ab: (int, int))
    requires
        all_name_chars(s),
    ensures
        0 <= ab.0 <= ab.1 <= s.len(),
        trim_name(s) == s.subrange(ab.0, ab.1),
        ab.0 < ab.1 ==> !is_ws(s[ab.0]) && s[ab.1 - 1] != ' ' && s[ab.1 - 1] != '.',
{
    let (a1, b1) = lemma_trim_shape(s);
    let t = trim(s);
    let z = strip_back(t, CharClass::DotOrSpace);
    let j = lemma_strip_back_shape(t, CharClass::DotOrSpace);
    assert(z =~= s.subrange(a1, a1 + j));
    if j == 0 {
        assert(trim(z) =~= s.subrange(a1, a1));
        (a1, a1)
    } else {
        // The last character of `z` is a clean one that is not a space, so
        // not white space either: trimming only cuts the front.
        assert(z[j - 1] == s[a1 + j - 1]);
        assert(name_char(s[a1 + j - 1]));
        let i = lemma_trim_keeps_end(z);
        assert(trim(z) =~= s.subrange(a1 + i, a1 + j));
        assert(z[i] == s[a1 + i]);
        (a1 + i, a1 + j)
    }
}

/// A clean name that already starts and ends as `trim_name` leaves it is left
/// alone by it.
proof fn lemma_trim_name_fixed(y: Seq<char>)
    requires
        all_name_chars(y),
        y.len() > 0 ==> !is_ws(y[0]) && y.last() != ' ' && y.last() != '.',
    ensures
        trim_name(y) == y,
{
    if y.len() > 0 {
        assert(name_char(y[y.len() - 1]));
        assert(strip_front(y, CharClass::Whitespace) == y);
        assert(strip_back(y, CharClass::Whitespace) == y);
        assert(trim(y) == y);
        assert(strip_back(y, CharClass::DotOrSpace) == y);
    } else {
        assert(trim(y) == y);
        assert(strip_back(y, CharClass::DotOrSpace) == y);
    }
}

/// Every name the sanitizer hands out is safe to create: it is non-empty and
/// within the length limit, holds no separator, forbidden or control
/// character and no white space but single spaces, does not start with a
/// space, does not end with a dot or a space (so it is not `.` or `..`), and
/// is not a reserved device name, with or without an extension.
#[verifier::spinoff_prover]
#[verifier::rlimit(40)]
pub proof fn lemma_sanitized_is_safe(input: Seq<char>, max: nat)
    requires
        sanitized(input, max) is Some,
    ensures
        is_safe_name(sanitized(input, max)->0, max),
        !is_reserved(device_stem(sanitized(input, max)->0)),
{
    let c = clean(trim(input));
    lemma_clean_chars(trim(input));
    lemma_collapse(c);
    let col = collapse(c);
    let name = cleaned_name(input);
    let (a, b) = lemma_trim_name_shape(col);
    lemma_slice_keeps(col, a, b);
    let head = take_at_most(name, max);
    let hl: int = if name.len() <= max { name.len() as int } else { max as int };
    assert(head =~= name.subrange(0, hl));
    lemma_slice_keeps(name, 0, hl);
    let (a2, b2) = lemma_trim_name_shape(head);
    lemma_slice_keeps(head, a2, b2);
    let cut = trim_name(head);
    assert(cut[0] == head[a2]);
    assert(cut.last() == head[b2 - 1]);
    assert(!all_dots(cut));
    if name.len() <= max {
        assert(head == name);
        if name.len() > 0 {
            assert(name[0] == col[a]);
            assert(name.last() == col[b - 1]);
        }
        lemma_trim_name_fixed(name);
    }
}


proof fn lemma_clean_fixed(n: Seq<char>)
    requires
        all_name_chars(n),
    ensures
        clean(n) == n,
    decreases n.len(),
{
    if n.len() > 0 {
        let p = n.drop_last();
        assert(all_name_chars(p)) by {
            assert forall|i: int| 0 <= i < p.len() implies name_char(#[trigger] p[i]) by {
                assert(p[i] == n[i]);
            }
        }
        lemma_clean_fixed(p);
        assert(name_char(n[n.len() - 1]));
        assert(p.push(n.last()) =~= n);
    }
}

proof fn lemma_collapse_fixed(n: Seq<char>)
    requires
        all_name_chars(n),
        no_double_space(n),
    ensures
        collapse(n) == n,
    decreases n.len(),
{
    if n.len() > 0 {
        let p = n.drop_last();
        lemma_slice_keeps(n, 0, n.len() - 1);
        assert(p =~= n.subrange(0, n.len() - 1));
        lemma_collapse_fixed(p);
        assert(name_char(n[n.len() - 1]));
        if p.len() > 0 {
            assert(name_char(n[n.len() - 2]));
            assert(p.last() == n[n.len() - 2]);
        }
        assert(p.push(n.last()) =~= n);
    }
}

/// A name the sanitizer handed out comes back unchanged when sanitized again
/// with the same limit, so the name previewed is the name created.
pub proof fn lemma_sanitize_idempotent(input: Seq<char>, max: nat)
    requires
        sanitized(input, max) is Some,
    ensures
        sanitized(sanitized(input, max)->0, max) == sanitized(input, max),
{
    let n = sanitized(input, max)->0;
    lemma_sanitized_is_safe(input, max);
    assert(name_char(n[0]));
    assert(name_char(n[n.len() - 1]));
    assert(!n.contains('/')) by {
        if n.contains('/') {
            let i = choose|i: int| 0 <= i < n.len() && n[i] == '/';
            assert(name_char(n[i]));
        }
    }
    assert(!n.contains('\\')) by {
        if n.contains('\\') {
            let i = choose|i: int| 0 <= i < n.len() && n[i] == '\\';
            assert(name_char(n[i]));
        }
    }
    assert(strip_front(n, CharClass::Whitespace) == n);
    assert(strip_back(n, CharClass::Whitespace) == n);
    assert(trim(n) == n);
    lemma_clean_fixed(n);
    lemma_collapse_fixed(n);
    lemma_trim_name_fixed(n);
    assert(cleaned_name(n) == n);
    assert(take_at_most(n, max) == n);
}

/// A character that cleans to nothing usable: white space, a control
/// character, or one Windows forbids.
pub open spec fn unusable(c: char) -> bool {
    is_ws(c) || is_ctrl(c) || is_illegal(c)
}

proof fn lemma_clean_unusable(s: Seq<char>)
    requires
        forall|i: int| 0 <= i < s.len() ==> unusable(#[trigger] s[i]),
    ensures
        forall|i: int| 0 <= i < clean(s).len() ==> #[trigger] clean(s)[i] == ' ',
    decreases s.len(),
{
    if s.len() > 0 {
        let p = s.drop_last();
        assert forall|i: int| 0 <= i < p.len() implies unusable(#[trigger] p[i]) by {
            assert(p[i] == s[i]);
        }
        lemma_clean_unusable(p);
        assert(unusable(s[s.len() - 1]));
        assert(is_ws(' '));
        let c = clean(s);
        assert forall|i: int| 0 <= i < c.len() implies #[trigger] c[i] == ' ' by {
            if i < clean(p).len() {
                assert(c[i] == clean(p)[i]);
            }
        }
    }
}

proof fn lemma_collapse_spaces(s: Seq<char>)
    requires
        forall|i: int| 0 <= i < s.len() ==> #[trigger] s[i] == ' ',
    ensures
        forall|i: int| 0 <= i < collapse(s).len() ==> #[trigger] collapse(s)[i] == ' ',
    decreases s.len(),
{
    if s.len() > 0 {
        let p = s.drop_last();
        assert forall|i: int| 0 <= i < p.len() implies #[trigger] p[i] == ' ' by {
            assert(p[i] == s[i]);
        }
        lemma_collapse_spaces(p);
        assert(is_ws(' '));
        let c = collapse(s);
        assert forall|i: int| 0 <= i < c.len() implies #[trigger] c[i] == ' ' by {
            if i < collapse(p).len() {
                assert(c[i] == collapse(p)[i]);
            }
        }
    }
}

/// A path is rejected outright rather than flattened, and a name made only
/// of white space, control and forbidden characters leaves nothing usable.
pub proof fn lemma_sanitize_rejects(input: Seq<char>, max: nat)
    requires
        input.contains('/') || input.contains('\\') || forall|i: int|
            0 <= i < input.len() ==> unusable(#[trigger] input[i]),
    ensures
        sanitized(input, max) is None,
{
    if !(input.contains('/') || input.contains('\\')) {
        let (a, b) = lemma_trim_shape(input);
        let t = trim(input);
        assert forall|i: int| 0 <= i < t.len() implies unusable(#[trigger] t[i]) by {
            assert(t[i] == input[a + i]);
        }
        lemma_clean_unusable(t);
        lemma_collapse_spaces(clean(t));
        let col = collapse(clean(t));
        assert(is_ws(' '));
        let (a1, b1) = lemma_trim_shape(col);
        if a1 < b1 {
            assert(col[a1] == ' ');
        }
        assert(trim(col).len() == 0);
        assert(strip_back(trim(col), CharClass::DotOrSpace) =~= trim(col));
        assert(trim(strip_back(trim(col), CharClass::DotOrSpace)).len() == 0) by {
            lemma_trim_shape(strip_back(trim(col), CharClass::DotOrSpace));
        }
    }
}

/// `strip_back` keeps a prefix and drops only characters of the class.
proof fn lemma_strip_back_rest(s: Seq<char>, k: CharClass) -> (j: int)
    ensures
        0 <= j <= s.len(),
        strip_back(s, k) == s.take(j),
        j > 0 ==> !in_class(k, s[j - 1]),
        forall|m: int| j <= m < s.len() ==> in_class(k, #[trigger] s[m]),
    decreases s.len(),
{
    if s.len() > 0 && in_class(k, s.last()) {
        let t = s.drop_last();
        let j0 = lemma_strip_back_rest(t, k);
        assert(t.take(j0) =~= s.take(j0));
        assert forall|m: int| j0 <= m < s.len() implies in_class(k, #[trigger] s[m]) by {
            if m < t.len() {
                assert(t[m] == s[m]);
            }
        }
        if j0 > 0 {
            assert(t[j0 - 1] == s[j0 - 1]);
        }
        j0
    } else {
        assert(s.take(s.len() as int) =~= s);
        s.len() as int
    }
}

/// On clean text that does not start with white space, `trim_name` only
/// drops trailing dots and spaces.
proof fn lemma_trim_name_back(s: Seq<char>)
    requires
        all_name_chars(s),
        s.len() > 0 ==> !is_ws(s[0]),
    ensures
        trim_name(s) == strip_back(s, CharClass::DotOrSpace),
{
    lemma_strip_front(s, CharClass::Whitespace, 0);
    assert(s.subrange(0, s.len() as int) =~= s);
    let j1 = lemma_strip_back_rest(s, CharClass::Whitespace);
    let j2 = lemma_strip_back_rest(s, CharClass::DotOrSpace);
    if j2 > j1 {
        assert(name_char(s[j2 - 1]));
    }
    let t = s.take(j1);
    assert forall|m: int| j2 <= m < t.len() implies in_class(CharClass::DotOrSpace, #[trigger] t[m]) by {
        assert(t[m] == s[m]);
    }
    if j2 > 0 {
        assert(t[j2 - 1] == s[j2 - 1]);
    }
    lemma_strip_back(t, CharClass::DotOrSpace, j2);
    assert(t.subrange(0, j2) =~= s.take(j2));
    let z = s.take(j2);
    if j2 > 0 {
        assert(z[0] == s[0]);
        assert(z[j2 - 1] == s[j2 - 1]);
        assert(name_char(s[j2 - 1]));
    }
    lemma_strip_front(z, CharClass::Whitespace, 0);
    assert(z.subrange(0, z.len() as int) =~= z);
    lemma_strip_back(z, CharClass::Whitespace, z.len() as int);
}

/// Device names are short and hold no space.
proof fn lemma_reserved_short(t: Seq<char>)
    requires
        is_reserved(t),
    ensures
        t.len() <= 4,
        forall|i: int| 0 <= i < t.len() ==> #[trigger] t[i] != ' ',
{
    reveal_strlit("con");
    reveal_strlit("prn");
    reveal_strlit("aux");
    reveal_strlit("nul");
    reveal_strlit("com1");
    reveal_strlit("com2");
    reveal_strlit("com3");
    reveal_strlit("com4");
    reveal_strlit("com5");
    reveal_strlit("com6");
    reveal_strlit("com7");
    reveal_strlit("com8");
    reveal_strlit("com9");
    reveal_strlit("lpt1");
    reveal_strlit("lpt2");
    reveal_strlit("lpt3");
    reveal_strlit("lpt4");
    reveal_strlit("lpt5");
    reveal_strlit("lpt6");
    reveal_strlit("lpt7");
    reveal_strlit("lpt8");
    reveal_strlit("lpt9");
}

/// The name cut to a limit is the cleaned name up to its last character
/// that is neither a dot nor a space within the limit.
proof fn lemma_cut_shape(input: Seq<char>, max: nat) -> (j: int)
    requires
        cleaned_name(input).len() > 0,
        max > 0,
    ensures
        ({
            let name = cleaned_name(input);
            let l = if name.len() <= max { name.len() as int } else { max as int };
            &&& 0 <= j <= l
            &&& trim_name(take_at_most(name, max)) == name.take(j)
            &&& j > 0 ==> name[j - 1] != ' ' && name[j - 1] != '.'
            &&& forall|m: int| j <= m < l ==> (#[trigger] name[m] == ' ' || name[m] == '.')
            &&& all_name_chars(name)
        }),
{
    let c = clean(trim(input));
    lemma_clean_chars(trim(input));
    lemma_collapse(c);
    let col = collapse(c);
    let name = cleaned_name(input);
    let (a, b) = lemma_trim_name_shape(col);
    lemma_slice_keeps(col, a, b);
    assert(name[0] == col[a]);
    let l: int = if name.len() <= max { name.len() as int } else { max as int };
    let head = take_at_most(name, max);
    assert(head =~= name.take(l));
    lemma_slice_keeps(name, 0, l);
    assert(head[0] == name[0]);
    lemma_trim_name_back(head);
    let j = lemma_strip_back_rest(head, CharClass::DotOrSpace);
    assert(head.take(j) =~= name.take(j));
    assert forall|m: int| j <= m < l implies (#[trigger] name[m] == ' ' || name[m] == '.') by {
        assert(head[m] == name[m]);
        assert(in_class(CharClass::DotOrSpace, head[m]));
    }
    if j > 0 {
        assert(head[j - 1] == name[j - 1]);
    }
    j
}

/// Sanitized under a longer limit, a name only grows: what a folder name
/// gets is a prefix of what a file stem gets from the same text, and the two
/// are equal when the stem fits the folder limit.
pub proof fn lemma_longer_limit_extends(input: Seq<char>, short: nat, long: nat)
    requires
        4 < short <= long,
        sanitized(input, short) is Some,
    ensures
        sanitized(input, long) is Some,
        sanitized(input, long)->0.take(sanitized(input, short)->0.len() as int) == sanitized(
            input,
            short,
        )->0,
        sanitized(input, long)->0.len() <= short ==> sanitized(input, long) == sanitized(
            input,
            short,
        ),
{
    let name = cleaned_name(input);
    let j1 = lemma_cut_shape(input, short);
    let j2 = lemma_cut_shape(input, long);
    let l1: int = if name.len() <= short { name.len() as int } else { short as int };
    let l2: int = if name.len() <= long { name.len() as int } else { long as int };
    let cut1 = name.take(j1);
    let cut2 = name.take(j2);
    assert(j1 > 0);
    if j1 > j2 {
        assert(name[j1 - 1] == ' ' || name[j1 - 1] == '.');
    }
    assert(cut2.take(j1) =~= cut1);
    if j2 <= short {
        if j2 > j1 {
            assert(name[j2 - 1] == ' ' || name[j2 - 1] == '.');
        }
        assert(j1 == j2);
    }
    // The longer cut names no device either.
    let d1 = first_index(cut1, '.');
    let d2 = first_index(cut2, '.');
    lemma_first_index_bounds(cut1, '.');
    lemma_first_index_bounds(cut2, '.');
    if is_reserved(device_stem(cut2)) {
        lemma_reserved_short(device_stem(cut2));
        if d1 < j1 {
            assert forall|x: int| 0 <= x < d1 implies #[trigger] cut2[x] != '.' by {
                assert(cut2[x] == cut1[x]);
            }
            assert(cut2[d1] == cut1[d1]);
            lemma_first_index(cut2, '.', d1);
            assert(before_first(cut2, '.') =~= before_first(cut1, '.'));
        } else {
            if d2 < j1 {
                assert(cut2[d2] == cut1[d2]);
            }
            if d2 == j1 {
                assert(before_first(cut2, '.') =~= cut1);
                assert(before_first(cut1, '.') =~= cut1);
            } else {
                assert(cut2[j1] == name[j1]);
                if j1 < l1 {
                    assert(name[j1] == ' ');
                    assert(device_stem(cut2)[j1] == lower_char(cut2[j1]));
                } else {
                    assert(device_stem(cut2).len() == d2);
                }
            }
        }
    }
}

} // verus!

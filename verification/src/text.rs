use vstd::prelude::*;

verus! {

broadcast use vstd::string::group_string_axioms;

/// Unicode `White_Space`, the property that `char::is_whitespace` reports.
pub open spec fn is_ws(c: char) -> bool {
    let n = c as u32;
    ||| 0x09 <= n <= 0x0D
    ||| n == 0x20
    ||| n == 0x85
    ||| n == 0xA0
    ||| n == 0x1680
    ||| 0x2000 <= n <= 0x200A
    ||| n == 0x2028
    ||| n == 0x2029
    ||| n == 0x202F
    ||| n == 0x205F
    ||| n == 0x3000
}

/// Unicode general category `Cc`, the property that `char::is_control` reports.
pub open spec fn is_ctrl(c: char) -> bool {
    let n = c as u32;
    n <= 0x1F || 0x7F <= n <= 0x9F
}

pub fn char_is_whitespace(c: char) -> (b: bool)
    ensures
        b == is_ws(c),
{
    let n = c as u32;
    (0x09 <= n && n <= 0x0D) || n == 0x20 || n == 0x85 || n == 0xA0 || n == 0x1680 || (0x2000
        <= n && n <= 0x200A) || n == 0x2028 || n == 0x2029 || n == 0x202F || n == 0x205F || n
        == 0x3000
}

pub fn char_is_control(c: char) -> (b: bool)
    ensures
        b == is_ctrl(c),
{
    let n = c as u32;
    n <= 0x1F || (0x7F <= n && n <= 0x9F)
}

/// The characters of `s`, in order.
pub fn chars_of(s: &str) -> (v: Vec<char>)
    ensures
        v@ == s@,
{
    let mut v: Vec<char> = Vec::new();
    for c in it: s.chars()
        invariant
            v@ == it.seq().take(it.index()),
    {
        v.push(c);
    }
    v
}

/// Calls `String::push`, which appends `c`: the contract claims the text
/// afterwards is the text before with `c` at the end.
#[verifier::external_body]
pub fn push_char(s: &mut String, c: char)
    ensures
        final(s)@ == old(s)@.push(c),
{
    s.push(c);
}

/// A `String` holding exactly the characters of `v`.
pub fn string_of(v: &Vec<char>) -> (s: String)
    ensures
        s@ == v@,
{
    let mut s = String::new();
    let mut i: usize = 0;
    while i < v.len()
        invariant
            i <= v.len(),
            s@ == v@.take(i as int),
        decreases v.len() - i,
    {
        push_char(&mut s, v[i]);
        assert(v@.take(i + 1) == v@.take(i as int).push(v@[i as int]));
        i = i + 1;
    }
    assert(v@.take(v.len() as int) == v@);
    s
}

/// Appends the characters of `t` to `s`.
pub fn push_str(s: &mut String, t: &str)
    ensures
        final(s)@ == old(s)@ + t@,
{
    let v = chars_of(t);
    let mut i: usize = 0;
    while i < v.len()
        invariant
            i <= v.len(),
            v@ == t@,
            s@ == old(s)@ + v@.take(i as int),
        decreases v.len() - i,
    {
        push_char(s, v[i]);
        assert(v@.take(i + 1) == v@.take(i as int).push(v@[i as int]));
        i = i + 1;
    }
    assert(v@.take(v.len() as int) == v@);
}

/// Whether two character sequences are equal.
pub fn chars_eq(a: &Vec<char>, b: &Vec<char>) -> (r: bool)
    ensures
        r == (a@ == b@),
{
    if a.len() != b.len() {
        return false;
    }
    let mut i: usize = 0;
    while i < a.len()
        invariant
            a.len() == b.len(),
            i <= a.len(),
            forall|j: int| 0 <= j < i ==> a@[j] == b@[j],
        decreases a.len() - i,
    {
        if a[i] != b[i] {
            return false;
        }
        i = i + 1;
    }
    assert(a@ =~= b@);
    true
}

/// Whether the characters of `a` are exactly those of `b`.
pub fn chars_eq_str(a: &Vec<char>, b: &str) -> (r: bool)
    ensures
        r == (a@ == b@),
{
    let bv = chars_of(b);
    chars_eq(a, &bv)
}

/// Whether two strings hold the same characters.
pub fn str_eq(a: &str, b: &str) -> (r: bool)
    ensures
        r == (a@ == b@),
{
    let av = chars_of(a);
    chars_eq_str(&av, b)
}

/// `v[i..j]` as a new vector.
pub fn slice_of(v: &Vec<char>, i: usize, j: usize) -> (r: Vec<char>)
    requires
        i <= j <= v.len(),
    ensures
        r@ == v@.subrange(i as int, j as int),
{
    let mut r: Vec<char> = Vec::new();
    let mut k: usize = i;
    while k < j
        invariant
            i <= k <= j <= v.len(),
            r@ == v@.subrange(i as int, k as int),
        decreases j - k,
    {
        r.push(v[k]);
        assert(v@.subrange(i as int, k + 1) == v@.subrange(i as int, k as int).push(v@[k as int]));
        k = k + 1;
    }
    r
}

/// The classes of characters that names get trimmed of.
pub enum CharClass {
    /// Unicode white space, as `str::trim` removes.
    Whitespace,
    /// `.` and ` `.
    DotOrSpace,
    /// `"`.
    Quote,
    /// `/`.
    Slash,
}

pub open spec fn in_class(k: CharClass, c: char) -> bool {
    match k {
        CharClass::Whitespace => is_ws(c),
        CharClass::DotOrSpace => c == '.' || c == ' ',
        CharClass::Quote => c == '"',
        CharClass::Slash => c == '/',
    }
}

pub fn char_in_class(k: &CharClass, c: char) -> (b: bool)
    ensures
        b == in_class(*k, c),
{
    match k {
        CharClass::Whitespace => char_is_whitespace(c),
        CharClass::DotOrSpace => c == '.' || c == ' ',
        CharClass::Quote => c == '"',
        CharClass::Slash => c == '/',
    }
}

/// `s` without its leading characters of class `k`.
pub open spec fn strip_front(s: Seq<char>, k: CharClass) -> Seq<char>
    decreases s.len(),
{
    if s.len() > 0 && in_class(k, s[0]) {
        strip_front(s.drop_first(), k)
    } else {
        s
    }
}

/// `s` without its trailing characters of class `k`.
pub open spec fn strip_back(s: Seq<char>, k: CharClass) -> Seq<char>
    decreases s.len(),
{
    if s.len() > 0 && in_class(k, s.last()) {
        strip_back(s.drop_last(), k)
    } else {
        s
    }
}

/// What `str::trim` leaves: no white space at either end.
pub open spec fn trim(s: Seq<char>) -> Seq<char> {
    strip_back(strip_front(s, CharClass::Whitespace), CharClass::Whitespace)
}

pub proof fn lemma_strip_front(s: Seq<char>, k: CharClass, i: int)
    requires
        0 <= i <= s.len(),
        forall|j: int| 0 <= j < i ==> in_class(k, #[trigger] s[j]),
        i == s.len() || !in_class(k, s[i]),
    ensures
        strip_front(s, k) == s.subrange(i, s.len() as int),
    decreases i,
{
    if i == 0 {
        assert(s.subrange(0, s.len() as int) =~= s);
    } else {
        let t = s.drop_first();
        assert forall|j: int| 0 <= j < i - 1 implies in_class(k, #[trigger] t[j]) by {
            assert(t[j] == s[j + 1]);
        }
        lemma_strip_front(t, k, i - 1);
        assert(t.subrange(i - 1, t.len() as int) =~= s.subrange(i, s.len() as int));
    }
}

pub proof fn lemma_strip_back(s: Seq<char>, k: CharClass, j: int)
    requires
        0 <= j <= s.len(),
        forall|m: int| j <= m < s.len() ==> in_class(k, #[trigger] s[m]),
        j == 0 || !in_class(k, s[j - 1]),
    ensures
        strip_back(s, k) == s.subrange(0, j),
    decreases s.len() - j,
{
    if j == s.len() {
        assert(s.subrange(0, j) =~= s);
    } else {
        let t = s.drop_last();
        assert forall|m: int| j <= m < t.len() implies in_class(k, #[trigger] t[m]) by {
            assert(t[m] == s[m]);
        }
        lemma_strip_back(t, k, j);
        assert(t.subrange(0, j) =~= s.subrange(0, j));
    }
}

/// `v` without its leading characters of class `k`.
pub fn strip_front_of(v: &Vec<char>, k: CharClass) -> (r: Vec<char>)
    ensures
        r@ == strip_front(v@, k),
{
    let mut i: usize = 0;
    while i < v.len() && char_in_class(&k, v[i])
        invariant
            i <= v.len(),
            forall|j: int| 0 <= j < i ==> in_class(k, #[trigger] v@[j]),
        decreases v.len() - i,
    {
        i = i + 1;
    }
    proof {
        lemma_strip_front(v@, k, i as int);
    }
    slice_of(v, i, v.len())
}

/// `v` without its trailing characters of class `k`.
pub fn strip_back_of(v: &Vec<char>, k: CharClass) -> (r: Vec<char>)
    ensures
        r@ == strip_back(v@, k),
{
    let mut j: usize = v.len();
    while j > 0 && char_in_class(&k, v[j - 1])
        invariant
            j <= v.len(),
            forall|m: int| j <= m < v.len() ==> in_class(k, #[trigger] v@[m]),
        decreases j,
    {
        j = j - 1;
    }
    proof {
        lemma_strip_back(v@, k, j as int);
    }
    slice_of(v, 0, j)
}

/// `v` trimmed of white space at both ends, as `str::trim` does.
pub fn trim_of(v: &Vec<char>) -> (r: Vec<char>)
    ensures
        r@ == trim(v@),
{
    let f = strip_front_of(v, CharClass::Whitespace);
    strip_back_of(&f, CharClass::Whitespace)
}


/// `c` with `A`..`Z` mapped to `a`..`z`, as `char::to_ascii_lowercase` does.
pub open spec fn lower_char(c: char) -> char {
    if 65 <= (c as u32) <= 90 {
        ((c as u32) + 32) as char
    } else {
        c
    }
}

/// `s` with its ASCII letters lowercased.
pub open spec fn ascii_lower(s: Seq<char>) -> Seq<char> {
    Seq::new(s.len(), |i: int| lower_char(s[i]))
}

pub fn lower_char_of(c: char) -> (r: char)
    ensures
        r == lower_char(c),
{
    let n = c as u32;
    if 65 <= n && n <= 90 {
        ((n + 32) as u8) as char
    } else {
        c
    }
}

/// `v` with its ASCII letters lowercased.
pub fn ascii_lower_of(v: &Vec<char>) -> (r: Vec<char>)
    ensures
        r@ == ascii_lower(v@),
{
    let mut r: Vec<char> = Vec::new();
    let mut i: usize = 0;
    while i < v.len()
        invariant
            i <= v.len(),
            r.len() == i,
            forall|j: int| 0 <= j < i ==> r@[j] == lower_char(#[trigger] v@[j]),
        decreases v.len() - i,
    {
        r.push(lower_char_of(v[i]));
        i = i + 1;
    }
    assert(r@ =~= ascii_lower(v@));
    r
}

/// Whether `c` occurs in `v`.
pub fn contains_char(v: &Vec<char>, c: char) -> (r: bool)
    ensures
        r == v@.contains(c),
{
    let mut i: usize = 0;
    while i < v.len()
        invariant
            i <= v.len(),
            forall|j: int| 0 <= j < i ==> v@[j] != c,
        decreases v.len() - i,
    {
        if v[i] == c {
            assert(v@[i as int] == c);
            return true;
        }
        i = i + 1;
    }
    false
}

/// The index of the first `c` in `s`, or its length when there is none.
pub open spec fn first_index(s: Seq<char>, c: char) -> int
    decreases s.len(),
{
    if s.len() == 0 {
        0
    } else if s[0] == c {
        0
    } else {
        1 + first_index(s.drop_first(), c)
    }
}

/// The part of `s` before its first `c`: the first item of `str::split(c)`.
pub open spec fn before_first(s: Seq<char>, c: char) -> Seq<char> {
    s.take(first_index(s, c))
}

pub proof fn lemma_first_index(s: Seq<char>, c: char, i: int)
    requires
        0 <= i <= s.len(),
        forall|j: int| 0 <= j < i ==> #[trigger] s[j] != c,
        i == s.len() || s[i] == c,
    ensures
        first_index(s, c) == i,
    decreases i,
{
    if i > 0 {
        let t = s.drop_first();
        assert forall|j: int| 0 <= j < i - 1 implies #[trigger] t[j] != c by {
            assert(t[j] == s[j + 1]);
        }
        lemma_first_index(t, c, i - 1);
    }
}

pub proof fn lemma_first_index_bounds(s: Seq<char>, c: char)
    ensures
        0 <= first_index(s, c) <= s.len(),
        forall|j: int| 0 <= j < first_index(s, c) ==> #[trigger] s[j] != c,
        first_index(s, c) < s.len() ==> s[first_index(s, c)] == c,
    decreases s.len(),
{
    if s.len() > 0 && s[0] != c {
        let t = s.drop_first();
        lemma_first_index_bounds(t, c);
        assert forall|j: int| 0 <= j < first_index(s, c) implies #[trigger] s[j] != c by {
            if j > 0 {
                assert(s[j] == t[j - 1]);
            }
        }
    }
}

/// The part of `v` before its first `c`.
pub fn before_first_of(v: &Vec<char>, c: char) -> (r: Vec<char>)
    ensures
        r@ == before_first(v@, c),
{
    let mut i: usize = 0;
    while i < v.len() && v[i] != c
        invariant
            i <= v.len(),
            forall|j: int| 0 <= j < i ==> #[trigger] v@[j] != c,
        decreases v.len() - i,
    {
        i = i + 1;
    }
    proof {
        lemma_first_index(v@, c, i as int);
    }
    slice_of(v, 0, i)
}


/// `strip_front` removes a prefix of characters of the class.
pub proof fn lemma_strip_front_shape(s: Seq<char>, k: CharClass) -> (i: int)
    ensures
        0 <= i <= s.len(),
        strip_front(s, k) == s.subrange(i, s.len() as int),
        i < s.len() ==> !in_class(k, s[i]),
        forall|j: int| 0 <= j < i ==> in_class(k, #[trigger] s[j]),
    decreases s.len(),
{
    if s.len() > 0 && in_class(k, s[0]) {
        let t = s.drop_first();
        let i0 = lemma_strip_front_shape(t, k);
        assert(t.subrange(i0, t.len() as int) =~= s.subrange(i0 + 1, s.len() as int));
        if i0 < t.len() {
            assert(t[i0] == s[i0 + 1]);
        }
        assert forall|j: int| 0 <= j < i0 + 1 implies in_class(k, #[trigger] s[j]) by {
            if j > 0 {
                assert(s[j] == t[j - 1]);
            }
        }
        i0 + 1
    } else {
        assert(s.subrange(0, s.len() as int) =~= s);
        0
    }
}

/// `strip_back` removes a suffix of characters of the class.
pub proof fn lemma_strip_back_shape(s: Seq<char>, k: CharClass) -> (j: int)
    ensures
        0 <= j <= s.len(),
        strip_back(s, k) == s.subrange(0, j),
        j > 0 ==> !in_class(k, s[j - 1]),
    decreases s.len(),
{
    if s.len() > 0 && in_class(k, s.last()) {
        let t = s.drop_last();
        let j0 = lemma_strip_back_shape(t, k);
        assert(t.subrange(0, j0) =~= s.subrange(0, j0));
        if j0 > 0 {
            assert(t[j0 - 1] == s[j0 - 1]);
        }
        j0
    } else {
        assert(s.subrange(0, s.len() as int) =~= s);
        s.len() as int
    }
}

/// `trim` keeps a slice of its input that starts and ends with a
/// character that is not white space.
pub proof fn lemma_trim_shape(s: Seq<char>) -> (ab: (int, int))
    ensures
        0 <= ab.0 <= ab.1 <= s.len(),
        trim(s) == s.subrange(ab.0, ab.1),
        ab.0 < ab.1 ==> !is_ws(s[ab.0]) && !is_ws(s[ab.1 - 1]),
{
    let f = strip_front(s, CharClass::Whitespace);
    let i = lemma_strip_front_shape(s, CharClass::Whitespace);
    let j = lemma_strip_back_shape(f, CharClass::Whitespace);
    assert(f.subrange(0, j) =~= s.subrange(i, i + j));
    if j > 0 {
        assert(f[0] == s[i]);
        assert(f[j - 1] == s[i + j - 1]);
    }
    (i, i + j)
}


/// Trimming text that ends with something other than white space only cuts
/// its front.
pub proof fn lemma_trim_keeps_end(z: Seq<char>) -> (i: int)
    requires
        z.len() > 0,
        !is_ws(z.last()),
    ensures
        0 <= i < z.len(),
        trim(z) == z.subrange(i, z.len() as int),
        !is_ws(z[i]),
{
    let f = strip_front(z, CharClass::Whitespace);
    let i = lemma_strip_front_shape(z, CharClass::Whitespace);
    if i == z.len() {
        assert(is_ws(z[z.len() - 1]));
    }
    assert(f.last() == z.last());
    assert(strip_back(f, CharClass::Whitespace) == f);
    i
}


/// Lexicographic order by code point, which is also the byte order of the
/// UTF-8 encodings and so the order in which paths of one folder sort.
pub open spec fn seq_lt(a: Seq<char>, b: Seq<char>) -> bool
    decreases a.len(),
{
    if a.len() == 0 {
        b.len() > 0
    } else if b.len() == 0 {
        false
    } else if a[0] != b[0] {
        (a[0] as int) < (b[0] as int)
    } else {
        seq_lt(a.drop_first(), b.drop_first())
    }
}

proof fn lemma_lt_skip(a: Seq<char>, b: Seq<char>, i: int)
    requires
        0 <= i <= a.len(),
        i <= b.len(),
        forall|j: int| 0 <= j < i ==> a[j] == b[j],
    ensures
        seq_lt(a, b) == seq_lt(a.skip(i), b.skip(i)),
    decreases i,
{
    if i > 0 {
        let a1 = a.drop_first();
        let b1 = b.drop_first();
        assert forall|j: int| 0 <= j < i - 1 implies a1[j] == b1[j] by {
            assert(a1[j] == a[j + 1]);
            assert(b1[j] == b[j + 1]);
        }
        assert(a[0] == b[0]);
        lemma_lt_skip(a1, b1, i - 1);
        assert(a1.skip(i - 1) =~= a.skip(i));
        assert(b1.skip(i - 1) =~= b.skip(i));
    } else {
        assert(a.skip(0) =~= a);
        assert(b.skip(0) =~= b);
    }
}

/// Whether `a` sorts strictly before `b`.
pub fn chars_lt(a: &Vec<char>, b: &Vec<char>) -> (r: bool)
    ensures
        r == seq_lt(a@, b@),
{
    let mut i: usize = 0;
    while i < a.len() && i < b.len() && a[i] == b[i]
        invariant
            i <= a.len(),
            i <= b.len(),
            forall|j: int| 0 <= j < i ==> a@[j] == b@[j],
        decreases a.len() - i,
    {
        i = i + 1;
    }
    proof {
        lemma_lt_skip(a@, b@, i as int);
    }
    if i == a.len() {
        i < b.len()
    } else if i == b.len() {
        false
    } else {
        a[i] < b[i]
    }
}

/// Whether `a` sorts strictly before `b`.
pub fn str_lt(a: &str, b: &str) -> (r: bool)
    ensures
        r == seq_lt(a@, b@),
{
    let av = chars_of(a);
    let bv = chars_of(b);
    chars_lt(&av, &bv)
}

pub proof fn lemma_lt_irreflexive(a: Seq<char>)
    ensures
        !seq_lt(a, a),
    decreases a.len(),
{
    if a.len() > 0 {
        lemma_lt_irreflexive(a.drop_first());
    }
}

pub proof fn lemma_lt_asymmetric(a: Seq<char>, b: Seq<char>)
    ensures
        seq_lt(a, b) ==> !seq_lt(b, a),
    decreases a.len(),
{
    if a.len() > 0 && b.len() > 0 && a[0] == b[0] {
        lemma_lt_asymmetric(a.drop_first(), b.drop_first());
    }
}

pub proof fn lemma_lt_total(a: Seq<char>, b: Seq<char>)
    ensures
        a != b ==> seq_lt(a, b) || seq_lt(b, a),
    decreases a.len(),
{
    if a.len() > 0 && b.len() > 0 && a[0] == b[0] {
        lemma_lt_total(a.drop_first(), b.drop_first());
        if a.drop_first() == b.drop_first() {
            assert(a =~= seq![a[0]] + a.drop_first());
            assert(b =~= seq![b[0]] + b.drop_first());
        }
    } else if a.len() == 0 && b.len() == 0 {
        assert(a =~= b);
    } else if a.len() > 0 && b.len() > 0 {
        assert((a[0] as int) != (b[0] as int));
    }
}

pub proof fn lemma_lt_transitive(a: Seq<char>, b: Seq<char>, c: Seq<char>)
    ensures
        seq_lt(a, b) && seq_lt(b, c) ==> seq_lt(a, c),
    decreases a.len(),
{
    if a.len() > 0 && b.len() > 0 && c.len() > 0 && a[0] == b[0] && b[0] == c[0] {
        lemma_lt_transitive(a.drop_first(), b.drop_first(), c.drop_first());
    }
}


/// The decimal digit for `d < 10`.
pub open spec fn digit(d: nat) -> char {
    ((48 + d) as u32) as char
}

/// `n` written in decimal, as `Display` writes an unsigned integer.
pub open spec fn decimal(n: nat) -> Seq<char>
    decreases n,
{
    if n < 10 {
        seq![digit(n)]
    } else {
        decimal(n / 10).push(digit(n % 10))
    }
}

/// `n` written in decimal.
pub fn decimal_of(n: u64) -> (v: Vec<char>)
    ensures
        v@ == decimal(n as nat),
    decreases n,
{
    let d = ((n % 10) as u8 + 48) as char;
    assert(d == digit((n % 10) as nat));
    if n < 10 {
        let mut v: Vec<char> = Vec::new();
        v.push(d);
        v
    } else {
        let mut v = decimal_of(n / 10);
        v.push(d);
        v
    }
}


/// What `str::to_lowercase` returns for a string: its Unicode lowercase
/// mapping, which takes tables to state and is named here instead.
pub uninterp spec fn lowercase(s: Seq<char>) -> Seq<char>;

/// Calls `str::to_lowercase`, which maps every character to its Unicode
/// lowercase form. The contract only says that the result is the named
/// function of the input: nothing about the mapping itself is stated.
#[verifier::external_body]
pub fn to_lowercase(s: &str) -> (r: String)
    ensures
        r@ == lowercase(s@),
{
    s.to_lowercase()
}


/// What `Debug` writes for a string: the text in double quotes with
/// characters escaped, by rules that take tables to state; named here.
pub uninterp spec fn debug_text(s: Seq<char>) -> Seq<char>;

/// Formats `s` with `{:?}`, which quotes it and escapes what needs escaping.
/// The contract only says that the result is the named function of the
/// input: the escaping rules are not stated.
#[verifier::external_body]
pub fn debug_quoted(s: &str) -> (r: String)
    ensures
        r@ == debug_text(s@),
{
    format!("{:?}", s)
}

} // verus!

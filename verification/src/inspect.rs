//! Gathering just enough about a file to describe it to a model.
//!
//! Two hard limits: only the first few kilobytes are ever read, and only text
//! is quoted. Binary files are identified by their leading bytes instead, which
//! also catches files whose extension does not match their contents.
use vstd::prelude::*;
use vstd::utf8::{decode_utf8, valid_utf8};

use crate::text::{
    char_is_control, char_is_whitespace, chars_of, is_ctrl, is_ws, lemma_strip_back,
    lemma_strip_front, lemma_trim_shape, string_of, trim, trim_of, CharClass,
};

verus! {

/// How much of a file is read. Enough to characterise a document, small
/// enough to keep prompts fast and bounded.
pub const EXCERPT_BYTES: usize = 4096;

/// How much text is kept after collapsing whitespace.
pub const EXCERPT_CHARS: usize = 1200;

#[derive(Debug, PartialEq, Eq)]
pub enum Content {
    /// Readable text, already trimmed and whitespace-collapsed.
    Text(String),
    /// Not text. `kind` is set when the leading bytes identify a known format.
    Binary { kind: Option<&'static str> },
    /// The file could not be read at all.
    Unreadable(String),
}

#[derive(Debug)]
pub struct FileFacts {
    pub name: String,
    pub extension: Option<String>,
    pub size: u64,
    pub content: Content,
}

/// The format that leading bytes `b` identify, checked in a fixed order.
pub open spec fn sniffed(b: Seq<u8>) -> Option<Seq<char>> {
    if b.len() >= 5 && b[0] == 0x25 && b[1] == 0x50 && b[2] == 0x44 && b[3] == 0x46 && b[4] == 0x2D {
        Some("PDF document"@)
    } else if b.len() >= 4 && b[0] == 0x50 && b[1] == 0x4B && b[2] == 0x03 && b[3] == 0x04 {
        Some("ZIP archive (also .docx, .xlsx, .pptx, .apk)"@)
    } else if b.len() >= 4 && b[0] == 0x52 && b[1] == 0x61 && b[2] == 0x72 && b[3] == 0x21 {
        Some("RAR archive"@)
    } else if b.len() >= 4 && b[0] == 0x37 && b[1] == 0x7A && b[2] == 0xBC && b[3] == 0xAF {
        Some("7-Zip archive"@)
    } else if b.len() >= 2 && b[0] == 0x1F && b[1] == 0x8B {
        Some("gzip archive"@)
    } else if b.len() >= 3 && b[0] == 0xFF && b[1] == 0xD8 && b[2] == 0xFF {
        Some("JPEG image"@)
    } else if b.len() >= 4 && b[0] == 0x89 && b[1] == 0x50 && b[2] == 0x4E && b[3] == 0x47 {
        Some("PNG image"@)
    } else if b.len() >= 4 && b[0] == 0x47 && b[1] == 0x49 && b[2] == 0x46 && b[3] == 0x38 {
        Some("GIF image"@)
    } else if b.len() >= 4 && b[0] == 0x52 && b[1] == 0x49 && b[2] == 0x46 && b[3] == 0x46 {
        Some("RIFF media (WAV or AVI)"@)
    } else if b.len() >= 4 && b[0] == 0x4F && b[1] == 0x67 && b[2] == 0x67 && b[3] == 0x53 {
        Some("Ogg media"@)
    } else if b.len() >= 3 && b[0] == 0x49 && b[1] == 0x44 && b[2] == 0x33 {
        Some("MP3 audio"@)
    } else if b.len() >= 4 && b[0] == 0x66 && b[1] == 0x4C && b[2] == 0x61 && b[3] == 0x43 {
        Some("FLAC audio"@)
    } else if b.len() >= 2 && b[0] == 0x4D && b[1] == 0x5A {
        Some("Windows executable"@)
    } else if b.len() >= 4 && b[0] == 0x7F && b[1] == 0x45 && b[2] == 0x4C && b[3] == 0x46 {
        Some("ELF executable"@)
    } else {
        None
    }
}

pub open spec fn kind_view(k: Option<&str>) -> Option<Seq<char>> {
    match k {
        Some(s) => Some(s@),
        None => None,
    }
}

/// Formats identified by their leading bytes.
pub fn sniff(b: &[u8]) -> (kind: Option<&'static str>)
    ensures
        kind_view(kind) == sniffed(b@),
{
    if b.len() >= 5 && b[0] == 0x25 && b[1] == 0x50 && b[2] == 0x44 && b[3] == 0x46 && b[4] == 0x2D {
        Some("PDF document")
    } else if b.len() >= 4 && b[0] == 0x50 && b[1] == 0x4B && b[2] == 0x03 && b[3] == 0x04 {
        Some("ZIP archive (also .docx, .xlsx, .pptx, .apk)")
    } else if b.len() >= 4 && b[0] == 0x52 && b[1] == 0x61 && b[2] == 0x72 && b[3] == 0x21 {
        Some("RAR archive")
    } else if b.len() >= 4 && b[0] == 0x37 && b[1] == 0x7A && b[2] == 0xBC && b[3] == 0xAF {
        Some("7-Zip archive")
    } else if b.len() >= 2 && b[0] == 0x1F && b[1] == 0x8B {
        Some("gzip archive")
    } else if b.len() >= 3 && b[0] == 0xFF && b[1] == 0xD8 && b[2] == 0xFF {
        Some("JPEG image")
    } else if b.len() >= 4 && b[0] == 0x89 && b[1] == 0x50 && b[2] == 0x4E && b[3] == 0x47 {
        Some("PNG image")
    } else if b.len() >= 4 && b[0] == 0x47 && b[1] == 0x49 && b[2] == 0x46 && b[3] == 0x38 {
        Some("GIF image")
    } else if b.len() >= 4 && b[0] == 0x52 && b[1] == 0x49 && b[2] == 0x46 && b[3] == 0x46 {
        Some("RIFF media (WAV or AVI)")
    } else if b.len() >= 4 && b[0] == 0x4F && b[1] == 0x67 && b[2] == 0x67 && b[3] == 0x53 {
        Some("Ogg media")
    } else if b.len() >= 3 && b[0] == 0x49 && b[1] == 0x44 && b[2] == 0x33 {
        Some("MP3 audio")
    } else if b.len() >= 4 && b[0] == 0x66 && b[1] == 0x4C && b[2] == 0x61 && b[3] == 0x43 {
        Some("FLAC audio")
    } else if b.len() >= 2 && b[0] == 0x4D && b[1] == 0x5A {
        Some("Windows executable")
    } else if b.len() >= 4 && b[0] == 0x7F && b[1] == 0x45 && b[2] == 0x4C && b[3] == 0x46 {
        Some("ELF executable")
    } else {
        None
    }
}

/// One step of condensing: white space becomes one space (none at the
/// start), control characters vanish, and nothing is added once the excerpt
/// is full. The flag tells whether the last character read was white space.
pub open spec fn condense_step(st: (Seq<char>, bool), c: char) -> (Seq<char>, bool) {
    if st.0.len() >= EXCERPT_CHARS {
        st
    } else if is_ws(c) {
        (if !st.1 && st.0.len() > 0 { st.0.push(' ') } else { st.0 }, true)
    } else if is_ctrl(c) {
        st
    } else {
        (st.0.push(c), false)
    }
}

pub open spec fn condense_scan(s: Seq<char>) -> (Seq<char>, bool)
    decreases s.len(),
{
    if s.len() == 0 {
        (Seq::empty(), false)
    } else {
        condense_step(condense_scan(s.drop_last()), s.last())
    }
}

/// `s` with runs of white space collapsed to one space, control characters
/// dropped, cut at the excerpt length, and trimmed.
pub open spec fn condensed(s: Seq<char>) -> Seq<char> {
    trim(condense_scan(s).0)
}

proof fn lemma_condense_full(s: Seq<char>, i: int, j: int)
    requires
        0 <= i <= j <= s.len(),
        condense_scan(s.take(i)).0.len() >= EXCERPT_CHARS,
    ensures
        condense_scan(s.take(j)) == condense_scan(s.take(i)),
    decreases j - i,
{
    if j > i {
        lemma_condense_full(s, i, j - 1);
        assert(s.take(j).drop_last() =~= s.take(j - 1));
    }
}

proof fn lemma_scan_bounded(s: Seq<char>)
    ensures
        condense_scan(s).0.len() <= EXCERPT_CHARS,
    decreases s.len(),
{
    if s.len() > 0 {
        lemma_scan_bounded(s.drop_last());
    }
}

/// An excerpt never holds more than `EXCERPT_CHARS` characters, so one
/// minified line cannot dominate a prompt.
pub proof fn lemma_excerpt_bounded(s: Seq<char>)
    ensures
        condensed(s).len() <= EXCERPT_CHARS,
{
    lemma_scan_bounded(s);
    lemma_trim_shape(condense_scan(s).0);
}

/// What an excerpt looks like: at most `EXCERPT_CHARS` characters, no
/// control characters, no white space but single spaces, and none at either
/// end.
pub open spec fn excerpt_shaped(r: Seq<char>) -> bool {
    &&& r.len() <= EXCERPT_CHARS
    &&& forall|i: int| 0 <= i < r.len() ==> !is_ctrl(#[trigger] r[i]) && (is_ws(r[i]) ==> r[i] == ' ')
    &&& forall|i: int| 0 <= i < r.len() - 1 ==> !(#[trigger] r[i] == ' ' && r[i + 1] == ' ')
    &&& r.len() > 0 ==> r[0] != ' ' && r[r.len() - 1] != ' '
}

proof fn lemma_scan_shape(s: Seq<char>)
    ensures
        ({
            let st = condense_scan(s);
            &&& forall|i: int|
                0 <= i < st.0.len() ==> !is_ctrl(#[trigger] st.0[i]) && (is_ws(st.0[i]) ==> st.0[i] == ' ')
            &&& forall|i: int| 0 <= i < st.0.len() - 1 ==> !(#[trigger] st.0[i] == ' ' && st.0[i + 1] == ' ')
            &&& st.0.len() > 0 ==> st.0[0] != ' '
            &&& st.0.len() > 0 && st.0[st.0.len() - 1] == ' ' ==> st.1
        }),
    decreases s.len(),
{
    if s.len() > 0 {
        lemma_scan_shape(s.drop_last());
        let p = condense_scan(s.drop_last());
        let st = condense_scan(s);
        assert(is_ws(' ') && !is_ctrl(' '));
        if st.0.len() > p.0.len() {
            assert(st.0 =~= p.0.push(st.0.last()));
            assert forall|i: int| 0 <= i < st.0.len() - 1 implies #[trigger] st.0[i] == p.0[i] by {}
        }
    }
}

/// An excerpt is shaped as `excerpt_shaped` says.
#[verifier::spinoff_prover]
#[verifier::rlimit(30)]
pub proof fn lemma_excerpt_shaped(s: Seq<char>)
    ensures
        excerpt_shaped(condensed(s)),
{
    lemma_scan_bounded(s);
    lemma_scan_shape(s);
    let x = condense_scan(s).0;
    let (a, b) = lemma_trim_shape(x);
    let r = condensed(s);
    assert forall|i: int| 0 <= i < r.len() implies !is_ctrl(#[trigger] r[i]) && (is_ws(r[i]) ==> r[i] == ' ') by {
        assert(r[i] == x[a + i]);
    }
    assert forall|i: int| 0 <= i < r.len() - 1 implies !(#[trigger] r[i] == ' ' && r[i + 1] == ' ') by {
        assert(r[i] == x[a + i]);
        assert(r[i + 1] == x[a + i + 1]);
    }
    assert(is_ws(' '));
    if r.len() > 0 {
        assert(r[0] == x[a]);
        assert(r[r.len() - 1] == x[b - 1]);
    }
}

proof fn lemma_scan_keeps(r: Seq<char>, i: int)
    requires
        excerpt_shaped(r),
        0 <= i <= r.len(),
    ensures
        condense_scan(r.take(i)) == (r.take(i), i > 0 && r[i - 1] == ' '),
    decreases i,
{
    assert(is_ws(' ') && !is_ctrl(' '));
    if i > 0 {
        lemma_scan_keeps(r, i - 1);
        assert(r.take(i).drop_last() =~= r.take(i - 1));
        assert(r.take(i).last() == r[i - 1]);
        assert(r.take(i - 1).push(r[i - 1]) =~= r.take(i));
        if i >= 2 {
            assert(!(r[i - 2] == ' ' && r[i - 1] == ' '));
        }
    } else {
        assert(r.take(0) =~= Seq::<char>::empty());
    }
}

/// Condensing an excerpt gives it back unchanged, so condensing twice is
/// condensing once.
pub proof fn lemma_condense_idempotent(s: Seq<char>)
    ensures
        condensed(condensed(s)) == condensed(s),
{
    lemma_excerpt_shaped(s);
    lemma_shaped_fixed(condensed(s));
}

/// Text that is already shaped like an excerpt is left as it is; in
/// particular text with no white space or control characters, up to
/// `EXCERPT_CHARS` characters long.
pub proof fn lemma_shaped_fixed(r: Seq<char>)
    requires
        excerpt_shaped(r),
    ensures
        condensed(r) == r,
{
    lemma_scan_keeps(r, r.len() as int);
    assert(r.take(r.len() as int) =~= r);
    assert(is_ws(' '));
    assert(trim(r) =~= r) by {
        lemma_strip_front(r, CharClass::Whitespace, 0);
        assert(r.subrange(0, r.len() as int) =~= r);
        lemma_strip_back(r, CharClass::Whitespace, r.len() as int);
    }
}

/// Text without white space or control characters, up to `EXCERPT_CHARS`
/// characters long, is its own excerpt.
pub proof fn lemma_plain_text_kept(t: Seq<char>)
    requires
        t.len() <= EXCERPT_CHARS,
        forall|i: int| 0 <= i < t.len() ==> !is_ws(#[trigger] t[i]) && !is_ctrl(t[i]),
    ensures
        condensed(t) == t,
{
    assert(is_ws(' '));
    lemma_shaped_fixed(t);
}


/// Each signature names its format wherever it stands first: no signature
/// begins another, so the order they are tried in does not matter. Bytes
/// that start with none of them name no format.
pub proof fn lemma_signatures(b: Seq<u8>)
    ensures
        b.len() >= 5 && b[0] == 0x25 && b[1] == 0x50 && b[2] == 0x44 && b[3] == 0x46 && b[4] == 0x2D ==> sniffed(b) == Some("PDF document"@),
        b.len() >= 4 && b[0] == 0x50 && b[1] == 0x4B && b[2] == 0x03 && b[3] == 0x04 ==> sniffed(b) == Some("ZIP archive (also .docx, .xlsx, .pptx, .apk)"@),
        b.len() >= 4 && b[0] == 0x52 && b[1] == 0x61 && b[2] == 0x72 && b[3] == 0x21 ==> sniffed(b) == Some("RAR archive"@),
        b.len() >= 4 && b[0] == 0x37 && b[1] == 0x7A && b[2] == 0xBC && b[3] == 0xAF ==> sniffed(b) == Some("7-Zip archive"@),
        b.len() >= 2 && b[0] == 0x1F && b[1] == 0x8B ==> sniffed(b) == Some("gzip archive"@),
        b.len() >= 3 && b[0] == 0xFF && b[1] == 0xD8 && b[2] == 0xFF ==> sniffed(b) == Some("JPEG image"@),
        b.len() >= 4 && b[0] == 0x89 && b[1] == 0x50 && b[2] == 0x4E && b[3] == 0x47 ==> sniffed(b) == Some("PNG image"@),
        b.len() >= 4 && b[0] == 0x47 && b[1] == 0x49 && b[2] == 0x46 && b[3] == 0x38 ==> sniffed(b) == Some("GIF image"@),
        b.len() >= 4 && b[0] == 0x52 && b[1] == 0x49 && b[2] == 0x46 && b[3] == 0x46 ==> sniffed(b) == Some("RIFF media (WAV or AVI)"@),
        b.len() >= 4 && b[0] == 0x4F && b[1] == 0x67 && b[2] == 0x67 && b[3] == 0x53 ==> sniffed(b) == Some("Ogg media"@),
        b.len() >= 3 && b[0] == 0x49 && b[1] == 0x44 && b[2] == 0x33 ==> sniffed(b) == Some("MP3 audio"@),
        b.len() >= 4 && b[0] == 0x66 && b[1] == 0x4C && b[2] == 0x61 && b[3] == 0x43 ==> sniffed(b) == Some("FLAC audio"@),
        b.len() >= 2 && b[0] == 0x4D && b[1] == 0x5A ==> sniffed(b) == Some("Windows executable"@),
        b.len() >= 4 && b[0] == 0x7F && b[1] == 0x45 && b[2] == 0x4C && b[3] == 0x46 ==> sniffed(b) == Some("ELF executable"@),
        sniffed(b) is Some ==> {
            ||| (b.len() >= 5 && b[0] == 0x25 && b[1] == 0x50 && b[2] == 0x44 && b[3] == 0x46 && b[4] == 0x2D)
            ||| (b.len() >= 4 && b[0] == 0x50 && b[1] == 0x4B && b[2] == 0x03 && b[3] == 0x04)
            ||| (b.len() >= 4 && b[0] == 0x52 && b[1] == 0x61 && b[2] == 0x72 && b[3] == 0x21)
            ||| (b.len() >= 4 && b[0] == 0x37 && b[1] == 0x7A && b[2] == 0xBC && b[3] == 0xAF)
            ||| (b.len() >= 2 && b[0] == 0x1F && b[1] == 0x8B)
            ||| (b.len() >= 3 && b[0] == 0xFF && b[1] == 0xD8 && b[2] == 0xFF)
            ||| (b.len() >= 4 && b[0] == 0x89 && b[1] == 0x50 && b[2] == 0x4E && b[3] == 0x47)
            ||| (b.len() >= 4 && b[0] == 0x47 && b[1] == 0x49 && b[2] == 0x46 && b[3] == 0x38)
            ||| (b.len() >= 4 && b[0] == 0x52 && b[1] == 0x49 && b[2] == 0x46 && b[3] == 0x46)
            ||| (b.len() >= 4 && b[0] == 0x4F && b[1] == 0x67 && b[2] == 0x67 && b[3] == 0x53)
            ||| (b.len() >= 3 && b[0] == 0x49 && b[1] == 0x44 && b[2] == 0x33)
            ||| (b.len() >= 4 && b[0] == 0x66 && b[1] == 0x4C && b[2] == 0x61 && b[3] == 0x43)
            ||| (b.len() >= 2 && b[0] == 0x4D && b[1] == 0x5A)
            ||| (b.len() >= 4 && b[0] == 0x7F && b[1] == 0x45 && b[2] == 0x4C && b[3] == 0x46)
        },
{
}

/// Only the first five bytes are ever looked at, and fewer than two bytes
/// identify nothing.
pub proof fn lemma_sniff_reads_prefix(b: Seq<u8>)
    ensures
        sniffed(b) == sniffed(b.take(if b.len() < 5 { b.len() as int } else { 5int })),
        b.len() < 2 ==> sniffed(b) is None,
{
    let n: int = if b.len() < 5 { b.len() as int } else { 5int };
    let p = b.take(n);
    assert forall|i: int| 0 <= i < n implies #[trigger] p[i] == b[i] by {}
}

/// Collapses runs of whitespace and caps the length, so one minified line
/// cannot dominate a prompt.
pub fn condense(text: &str) -> (r: String)
    ensures
        r@ == condensed(text@),
{
    let v = chars_of(text);
    assert(v@.take(v.len() as int) == v@);
    let mut out: Vec<char> = Vec::new();
    let mut last_was_space = false;
    let mut i: usize = 0;
    while i < v.len()
        invariant
            i <= v.len(),
            v@ == text@,
            (out@, last_was_space) == condense_scan(v@.take(i as int)),
            v@.take(v.len() as int) == v@,
        ensures
            (out@, last_was_space) == condense_scan(v@),
        decreases v.len() - i,
    {
        if out.len() >= EXCERPT_CHARS {
            proof {
                lemma_condense_full(v@, i as int, v.len() as int);
                assert(v@.take(v.len() as int) == v@);
            }
            break;
        }
        assert(v@.take(i + 1).drop_last() == v@.take(i as int));
        assert(v@.take(i + 1).last() == v@[i as int]);
        let c = v[i];
        if char_is_whitespace(c) {
            if !last_was_space && out.len() > 0 {
                out.push(' ');
            }
            last_was_space = true;
        } else if char_is_control(c) {
        } else {
            out.push(c);
            last_was_space = false;
        }
        i = i + 1;
    }
    let trimmed = trim_of(&out);
    string_of(&trimmed)
}

/// How many times `c` occurs in `s`.
pub open spec fn count_char(s: Seq<char>, c: char) -> nat
    decreases s.len(),
{
    if s.len() == 0 {
        0
    } else {
        count_char(s.drop_last(), c) + if s.last() == c { 1nat } else { 0nat }
    }
}

/// Text that is more than a tenth replacement characters was not UTF-8, so it
/// is binary; anything else is kept as condensed text.
pub open spec fn text_content(s: Seq<char>) -> Option<Seq<char>> {
    if count_char(s, '\u{FFFD}') * 10 > s.len() {
        None
    } else {
        Some(condensed(s))
    }
}

/// `c` is what the text `s` is judged to be.
pub open spec fn text_judged(s: Seq<char>, c: Content) -> bool {
    match text_content(s) {
        None => c == (Content::Binary { kind: None }),
        Some(t) => c is Text && c->Text_0@ == t,
    }
}

/// Judges decoded text: binary (with no known format) when replacement
/// characters show it was not UTF-8, else its condensed excerpt.
pub fn classify_text(text: &str) -> (c: Content)
    ensures
        text_judged(text@, c),
{
    let v = chars_of(text);
    let mut replacements: usize = 0;
    let mut i: usize = 0;
    while i < v.len()
        invariant
            i <= v.len(),
            v@ == text@,
            replacements == count_char(v@.take(i as int), '\u{FFFD}'),
            replacements <= i,
        decreases v.len() - i,
    {
        assert(v@.take(i + 1).drop_last() == v@.take(i as int));
        if v[i] == '\u{FFFD}' {
            replacements = replacements + 1;
        }
        i = i + 1;
    }
    assert(v@.take(v.len() as int) == v@);
    let total = v.len();
    // The same test as `replacements * 10 > total`, without overflow.
    if replacements > total / 10 {
        assert(replacements * 10 > total) by (nonlinear_arith)
            requires
                replacements > total / 10,
        ;
        Content::Binary { kind: None }
    } else {
        assert(replacements * 10 <= total) by (nonlinear_arith)
            requires
                replacements <= total / 10,
        ;
        Content::Text(condense(text))
    }
}

/// What `String::from_utf8_lossy` returns for bytes: their UTF-8 decoding,
/// with each invalid sequence replaced by U+FFFD.
pub uninterp spec fn utf8_lossy(b: Seq<u8>) -> Seq<char>;

/// Calls `String::from_utf8_lossy`. The result is named; for valid UTF-8 it
/// is the decoding, as the documentation says. How invalid sequences are
/// replaced is not stated.
#[verifier::external_body]
fn decode_lossy(bytes: &[u8]) -> (s: String)
    ensures
        s@ == utf8_lossy(bytes@),
        valid_utf8(bytes@) ==> s@ == decode_utf8(bytes@),
{
    String::from_utf8_lossy(bytes).into_owned()
}

/// Judges the first bytes read from a file: empty text, a known binary
/// format, binary because of a NUL byte (the cheapest reliable signal), or
/// the decoded text judged by `classify_text`.
pub fn content_of(b: &[u8]) -> (c: Content)
    ensures
        b@.len() == 0 ==> (c is Text && c->Text_0@ == Seq::<char>::empty()),
        b@.len() > 0 && sniffed(b@) is Some ==> (c is Binary && kind_view(c->kind) == sniffed(b@)),
        b@.len() > 0 && sniffed(b@) is None && b@.contains(0u8) ==> (c == (Content::Binary {
            kind: None,
        })),
        b@.len() > 0 && sniffed(b@) is None && !b@.contains(0u8) ==> text_judged(
            utf8_lossy(b@),
            c,
        ),
{
    if b.len() == 0 {
        return Content::Text(String::new());
    }
    if let Some(kind) = sniff(b) {
        return Content::Binary { kind: Some(kind) };
    }
    let mut i: usize = 0;
    while i < b.len()
        invariant
            i <= b.len(),
            sniffed(b@) is None,
            forall|j: int| 0 <= j < i ==> b@[j] != 0u8,
        decreases b.len() - i,
    {
        if b[i] == 0 {
            assert(b@[i as int] == 0u8);
            return Content::Binary { kind: None };
        }
        i = i + 1;
    }
    let text = decode_lossy(b);
    classify_text(text.as_str())
}

} // verus!

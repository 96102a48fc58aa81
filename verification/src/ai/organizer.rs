//! Deciding where a file should go from what a local model proposed.
//!
//! Nothing the model returns is trusted: folder names and file stems both go
//! through the sanitizer, extensions are always kept from the original file,
//! and any failure falls back to the deterministic extension classifier.
use vstd::prelude::*;

use crate::ai::ollama::AiError;
use crate::inspect::{Content, FileFacts};
use crate::naming::{
    is_safe_name, lemma_sanitized_is_safe, sanitize_file_stem, sanitize_folder_name, sanitized,
    MAX_FOLDER, MAX_STEM,
};
use crate::organizer::category::{folder, Category};
use crate::organizer::classifier::{classify, classify_file};
use crate::paths::{file_stem, stem_of};
use crate::text::{
    chars_of, debug_quoted, debug_text, decimal, decimal_of, push_str, string_of, trim, trim_of,
};

verus! {

#[derive(Debug, PartialEq, Eq)]
pub struct Proposal {
    /// Folder name, already sanitized.
    pub folder: String,
    /// New stem, sanitized, or `None` to keep the current name.
    pub new_stem: Option<String>,
    pub reason: String,
    /// True when this came from the extension classifier, not the model.
    pub fell_back: bool,
}

/// A model's reply as read from its JSON: missing fields are empty.
pub struct RawProposal {
    pub folder: String,
    pub file_name: String,
    pub reason: String,
}

/// A proposal as plain text: folder, new stem, reason, and whether it is
/// the classifier's rather than the model's.
pub type ProposalView = (Seq<char>, Option<Seq<char>>, Seq<char>, bool);

pub open spec fn proposal_view(p: Proposal) -> ProposalView {
    (p.folder@, opt_string_view(p.new_stem), p.reason@, p.fell_back)
}

pub open spec fn opt_string_view(s: Option<String>) -> Option<Seq<char>> {
    match s {
        Some(t) => Some(t@),
        None => None,
    }
}

/// The line describing a file's contents.
pub open spec fn content_line(c: Content) -> Seq<char> {
    match c {
        Content::Text(t) => if t@.len() == 0 {
            "Contents: (empty file)\n"@
        } else {
            "Beginning of contents: "@ + t@ + "\n"@
        },
        Content::Binary { kind: Some(k) } => "Contents: binary, detected as "@ + k@ + "\n"@,
        Content::Binary { kind: None } => "Contents: binary, format not recognised\n"@,
        Content::Unreadable(e) => "Contents: could not be read ("@ + e@ + ")\n"@,
    }
}

/// What the model is shown about a file: its name, its size, and only an
/// excerpt of its contents, never the whole file.
pub open spec fn description(facts: FileFacts) -> Seq<char> {
    "File name: "@ + facts.name@ + "\n"@ + "Size: "@ + decimal(facts.size as nat) + " bytes\n"@
        + content_line(facts.content)
}

/// What the model is shown about a file. Only an excerpt, never the whole file.
pub fn describe(facts: &FileFacts) -> (d: String)
    ensures
        d@ == description(*facts),
{
    let mut d = String::new();
    push_str(&mut d, "File name: ");
    push_str(&mut d, facts.name.as_str());
    push_str(&mut d, "\n");
    push_str(&mut d, "Size: ");
    let size = string_of(&decimal_of(facts.size));
    push_str(&mut d, size.as_str());
    push_str(&mut d, " bytes\n");
    let ghost head = d@;
    match &facts.content {
        Content::Text(text) => {
            if text.as_str().is_empty() {
                push_str(&mut d, "Contents: (empty file)\n");
            } else {
                push_str(&mut d, "Beginning of contents: ");
                push_str(&mut d, text.as_str());
                push_str(&mut d, "\n");
            }
        },
        Content::Binary { kind: Some(kind) } => {
            push_str(&mut d, "Contents: binary, detected as ");
            push_str(&mut d, kind);
            push_str(&mut d, "\n");
        },
        Content::Binary { kind: None } => {
            push_str(&mut d, "Contents: binary, format not recognised\n");
        },
        Content::Unreadable(error) => {
            push_str(&mut d, "Contents: could not be read (");
            push_str(&mut d, error.as_str());
            push_str(&mut d, ")\n");
        },
    }
    assert(d@ =~= head + content_line(facts.content));
    d
}

/// The stem of the current file name, used to detect a no-op rename: a
/// leading dot is part of the name (".gitignore"), not an extension.
pub fn current_stem(name: &str) -> (stem: String)
    ensures
        stem@ == stem_of(name@),
{
    file_stem(name)
}

pub open spec fn extension_view(facts: FileFacts) -> Option<Seq<char>> {
    opt_string_view(facts.extension)
}

/// The classifier's proposal: the extension's category, no rename.
pub open spec fn fallback_view(ext: Option<Seq<char>>, reason: Seq<char>) -> ProposalView {
    (folder(classify(ext)), None, reason, true)
}

/// Falls back to the deterministic classifier, with no rename.
pub fn fallback(facts: &FileFacts, reason: String) -> (p: Proposal)
    ensures
        proposal_view(p) == fallback_view(extension_view(*facts), reason@),
{
    let category = match &facts.extension {
        Some(e) => classify_file(Some(e.as_str())),
        None => classify_file(None),
    };
    let mut folder = String::new();
    push_str(&mut folder, category.folder_name());
    Proposal { folder, new_stem: None, reason, fell_back: true }
}


/// `names` joined with `sep` between each two.
pub open spec fn join(names: Seq<Seq<char>>, sep: Seq<char>) -> Seq<char>
    decreases names.len(),
{
    if names.len() == 0 {
        Seq::empty()
    } else if names.len() == 1 {
        names[0]
    } else {
        join(names.drop_last(), sep) + sep + names.last()
    }
}

/// The folders a model is offered: every category's but `Other`'s, in the
/// order of `Category::ALL`.
pub open spec fn offered_folders() -> Seq<Seq<char>> {
    seq![
        folder(Category::Images),
        folder(Category::Videos),
        folder(Category::Audio),
        folder(Category::Documents),
        folder(Category::Archives),
        folder(Category::Applications),
        folder(Category::Code),
        folder(Category::Fonts),
        folder(Category::DiskImages),
        folder(Category::Shortcuts),
        folder(Category::EBooks),
        folder(Category::AndroidBuilds),
        folder(Category::IosBuilds),
    ]
}

/// The prompt for one file: its description, the folders to prefer, and
/// what to answer.
pub open spec fn prompt_text(facts: FileFacts) -> Seq<char> {
    "You are filing one file into a folder.\n\n         "@ + description(facts)
        + "\n         Choose a folder. Prefer one of these when it fits: "@ + join(
        offered_folders(),
        ", "@,
    )
        + ".\n         Otherwise propose a short, specific folder name (1-3 words).\n\n         Also choose a file name. Keep the original name unless it is unclear          or meaningless, in which case propose a short descriptive one.          Do not include a file extension. Do not include any path or slashes.\n\n         Give a one-sentence reason."@
}


/// `part` stands in `whole` as one contiguous run.
pub open spec fn has_run(whole: Seq<char>, part: Seq<char>) -> bool {
    exists|i: int|
        0 <= i && i + part.len() <= whole.len() && #[trigger] whole.subrange(i, i + part.len())
            == part
}

proof fn lemma_run_at(whole: Seq<char>, part: Seq<char>, i: int)
    requires
        0 <= i && i + part.len() <= whole.len(),
        whole.subrange(i, i + part.len()) =~= part,
    ensures
        has_run(whole, part),
{
}

proof fn lemma_run_trans(a: Seq<char>, b: Seq<char>, c: Seq<char>)
    requires
        has_run(a, b),
        has_run(b, c),
    ensures
        has_run(a, c),
{
    let i = choose|i: int| 0 <= i && i + b.len() <= a.len() && #[trigger] a.subrange(i, i + b.len()) == b;
    let j = choose|j: int| 0 <= j && j + c.len() <= b.len() && #[trigger] b.subrange(j, j + c.len()) == c;
    assert(a.subrange(i + j, i + j + c.len()) =~= b.subrange(j, j + c.len()));
    lemma_run_at(a, c, i + j);
}

/// What the model is told about a file: it starts with the file's name, it
/// gives the size in bytes, and its last line says what is in the file: the
/// excerpt of a non-empty text file, the detected format of a binary one,
/// or why it could not be read.
pub proof fn lemma_description_says(facts: FileFacts)
    ensures
        ("File name: "@ + facts.name@ + "\n"@).is_prefix_of(description(facts)),
        has_run(description(facts), "Size: "@ + decimal(facts.size as nat) + " bytes\n"@),
        facts.content matches Content::Text(t) ==> (t@.len() > 0 ==> (
        "Beginning of contents: "@ + t@ + "\n"@).is_suffix_of(description(facts))),
        facts.content matches Content::Text(t) ==> (t@.len() == 0
            ==> "Contents: (empty file)\n"@.is_suffix_of(description(facts))),
        facts.content matches Content::Binary { kind: Some(k) } ==> (
        "Contents: binary, detected as "@ + k@ + "\n"@).is_suffix_of(description(facts)),
        facts.content matches Content::Binary { kind: None }
            ==> "Contents: binary, format not recognised\n"@.is_suffix_of(description(facts)),
        facts.content matches Content::Unreadable(e) ==> (
        "Contents: could not be read ("@ + e@ + ")\n"@).is_suffix_of(description(facts)),
{
    let d = description(facts);
    let head = "File name: "@ + facts.name@ + "\n"@;
    let size = "Size: "@ + decimal(facts.size as nat) + " bytes\n"@;
    let line = content_line(facts.content);
    assert(d =~= head + size + line);
    assert(d.subrange(0, head.len() as int) =~= head);
    lemma_run_at(d, size, head.len() as int);
    assert(d.subrange(d.len() - line.len(), d.len() as int) =~= line);
}

/// The prompt carries the file's whole description, so the model sees the
/// name, the size and the contents line, excerpt included.
pub proof fn lemma_prompt_describes(facts: FileFacts)
    ensures
        has_run(prompt_text(facts), description(facts)),
        facts.content matches Content::Text(t) ==> (t@.len() > 0 ==> has_run(
            prompt_text(facts),
            "Beginning of contents: "@ + t@ + "\n"@,
        )),
        has_run(prompt_text(facts), "File name: "@ + facts.name@ + "\n"@),
{
    let d = description(facts);
    let p = prompt_text(facts);
    let a = "You are filing one file into a folder.\n\n         "@;
    assert(p.subrange(a.len() as int, a.len() + d.len() as int) =~= d);
    lemma_run_at(p, d, a.len() as int);
    lemma_description_says(facts);
    let head = "File name: "@ + facts.name@ + "\n"@;
    assert(d.subrange(0, head.len() as int) =~= head);
    lemma_run_at(d, head, 0);
    lemma_run_trans(p, d, head);
    if let Content::Text(t) = facts.content {
        if t@.len() > 0 {
            let line = "Beginning of contents: "@ + t@ + "\n"@;
            assert(d.subrange(d.len() - line.len(), d.len() as int) =~= line);
            lemma_run_at(d, line, d.len() - line.len());
            lemma_run_trans(p, d, line);
        }
    }
}

/// The folder names offered to the model, joined by commas.
fn offered_list() -> (list: String)
    ensures
        list@ == join(offered_folders(), ", "@),
{
    let mut list = String::new();
    let mut count: usize = 0;
    let mut i: usize = 0;
    proof {
        crate::organizer::category::lemma_all_lists_each_once();
    }
    assert(Category::ALL@ =~= offered_folders_categories().push(Category::Other));
    while i < 14
        invariant
            i <= 14,
            count == if i <= 13 { i } else { 13 },
            Category::ALL@ == offered_folders_categories().push(Category::Other),
            list@ == join(offered_folders().take(count as int), ", "@),
        decreases 14 - i,
    {
        let category = Category::ALL[i];
        assert(category == Category::ALL@[i as int]);
        match category {
            Category::Other => {},
            _ => {
                assert(i < 13);
                let ghost prev = list@;
                if count > 0 {
                    push_str(&mut list, ", ");
                }
                push_str(&mut list, category.folder_name());
                assert(offered_folders().take(count + 1).drop_last() =~= offered_folders().take(count as int));
                assert(offered_folders()[count as int] == folder(category));
                count = count + 1;
            },
        }
        i = i + 1;
    }
    assert(offered_folders().take(13) =~= offered_folders());
    list
}

spec fn offered_folders_categories() -> Seq<Category> {
    seq![
        Category::Images,
        Category::Videos,
        Category::Audio,
        Category::Documents,
        Category::Archives,
        Category::Applications,
        Category::Code,
        Category::Fonts,
        Category::DiskImages,
        Category::Shortcuts,
        Category::EBooks,
        Category::AndroidBuilds,
        Category::IosBuilds,
    ]
}

/// The prompt that asks a model where one file should go.
pub fn prompt_for(facts: &FileFacts) -> (prompt: String)
    ensures
        prompt@ == prompt_text(*facts),
        has_run(prompt@, description(*facts)),
{
    let mut prompt = String::new();
    proof {
        lemma_prompt_describes(*facts);
    }
    push_str(&mut prompt, "You are filing one file into a folder.\n\n         ");
    let description = describe(facts);
    push_str(&mut prompt, description.as_str());
    push_str(&mut prompt, "\n         Choose a folder. Prefer one of these when it fits: ");
    let existing = offered_list();
    push_str(&mut prompt, existing.as_str());
    push_str(
        &mut prompt,
        ".\n         Otherwise propose a short, specific folder name (1-3 words).\n\n         Also choose a file name. Keep the original name unless it is unclear          or meaningless, in which case propose a short descriptive one.          Do not include a file extension. Do not include any path or slashes.\n\n         Give a one-sentence reason.",
    );
    assert(prompt@ =~= prompt_text(*facts));
    prompt
}


/// A reply as plain text: folder, file name, reason.
pub type RawView = (Seq<char>, Seq<char>, Seq<char>);

pub open spec fn raw_view(r: RawProposal) -> RawView {
    (r.folder@, r.file_name@, r.reason@)
}

pub open spec fn parsed_view(parsed: Result<RawProposal, String>) -> Result<RawView, Seq<char>> {
    match parsed {
        Ok(r) => Ok(raw_view(r)),
        Err(e) => Err(e@),
    }
}

/// The stem a model proposes: its file name trimmed, without any extension
/// it added anyway, sanitized; `None` when nothing usable is left or it is
/// the file's current stem (only a real change counts as a rename).
pub open spec fn proposed_stem(file_name: Seq<char>, current_name: Seq<char>) -> Option<Seq<char>> {
    match sanitized(stem_of(trim(file_name)), MAX_STEM as nat) {
        Some(s) => if s == stem_of(current_name) {
            None
        } else {
            Some(s)
        },
        None => None,
    }
}

/// The proposal made of a reply, as parsed from the model's JSON or the
/// parse error: the classifier's when the reply did not parse or its folder
/// cannot be sanitized, else the sanitized folder, the proposed stem, and
/// the trimmed reason.
pub open spec fn interpreted(
    facts: FileFacts,
    parsed: Result<RawView, Seq<char>>,
) -> ProposalView {
    match parsed {
        Err(e) => fallback_view(
            extension_view(facts),
            "model reply was not usable ("@ + e + ")"@,
        ),
        Ok(raw) => match sanitized(raw.0, MAX_FOLDER as nat) {
            None => fallback_view(
                extension_view(facts),
                "model proposed an unusable folder name "@ + debug_text(raw.0),
            ),
            Some(f) => (f, proposed_stem(raw.1, facts.name@), trim(raw.2), false),
        },
    }
}

/// Turns a model reply, as parsed from its JSON (or the parse error), into a
/// proposal, rejecting anything unusable.
pub fn interpret(facts: &FileFacts, parsed: Result<RawProposal, String>) -> (p: Proposal)
    ensures
        proposal_view(p) == interpreted(*facts, parsed_view(parsed)),
{
    let raw = match parsed {
        Ok(raw) => raw,
        Err(error) => {
            let mut reason = String::new();
            push_str(&mut reason, "model reply was not usable (");
            push_str(&mut reason, error.as_str());
            push_str(&mut reason, ")");
            return fallback(facts, reason);
        },
    };
    let folder = match sanitize_folder_name(raw.folder.as_str()) {
        Some(folder) => folder,
        None => {
            let mut reason = String::new();
            push_str(&mut reason, "model proposed an unusable folder name ");
            let quoted = debug_quoted(raw.folder.as_str());
            push_str(&mut reason, quoted.as_str());
            return fallback(facts, reason);
        },
    };
    // The model is told not to include an extension, but it often does anyway.
    let trimmed = string_of(&trim_of(&chars_of(raw.file_name.as_str())));
    let proposed = current_stem(trimmed.as_str());
    let new_stem = match sanitize_file_stem(proposed.as_str()) {
        Some(stem) => {
            let current = current_stem(facts.name.as_str());
            if stem == current {
                None
            } else {
                Some(stem)
            }
        },
        None => None,
    };
    let reason = string_of(&trim_of(&chars_of(raw.reason.as_str())));
    Proposal { folder, new_stem, reason, fell_back: false }
}

/// The proposal when the model could not be asked or answered badly: the
/// classifier's, with the reason saying what went wrong.
pub fn proposal_after_failure(facts: &FileFacts, error: AiError) -> (p: Proposal)
    ensures
        proposal_view(p) == fallback_view(
            extension_view(*facts),
            match error {
                AiError::Unavailable(d) => "model unavailable ("@ + d@ + ")"@,
                AiError::Malformed(d) => "model reply malformed ("@ + d@ + ")"@,
            },
        ),
{
    let mut reason = String::new();
    match error {
        AiError::Unavailable(detail) => {
            push_str(&mut reason, "model unavailable (");
            push_str(&mut reason, detail.as_str());
        },
        AiError::Malformed(detail) => {
            push_str(&mut reason, "model reply malformed (");
            push_str(&mut reason, detail.as_str());
        },
    }
    push_str(&mut reason, ")");
    fallback(facts, reason)
}

/// Nothing a model proposes reaches the disk unchecked: a proposal either
/// comes from the classifier, naming a category's folder and no rename, or
/// names a folder that the sanitizer made safe, and any rename is to a safe
/// stem that differs from the current one.
pub proof fn lemma_proposals_are_safe(facts: FileFacts, parsed: Result<RawView, Seq<char>>)
    ensures
        ({
            let p = interpreted(facts, parsed);
            &&& p.3 ==> p.0 == folder(classify(extension_view(facts))) && p.1 is None
            &&& !p.3 ==> is_safe_name(p.0, MAX_FOLDER as nat)
            &&& p.1 matches Some(s) ==> is_safe_name(s, MAX_STEM as nat) && s != stem_of(facts.name@)
        }),
{
    if let Ok(raw) = parsed {
        if sanitized(raw.0, MAX_FOLDER as nat) is Some {
            lemma_sanitized_is_safe(raw.0, MAX_FOLDER as nat);
            let st = stem_of(trim(raw.1));
            if sanitized(st, MAX_STEM as nat) is Some {
                lemma_sanitized_is_safe(st, MAX_STEM as nat);
            }
        }
    }
}

} // verus!

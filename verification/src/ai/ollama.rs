//! What a client of a local Ollama server decides for itself: the normalized
//! server address, and whether the configured model is among those installed.
//! The requests themselves are made by the application.
use vstd::prelude::*;

use crate::text::{
    before_first, before_first_of, chars_eq, chars_of, contains_char, push_str, string_of,
    strip_back, strip_back_of, trim, trim_of, CharClass,
};

verus! {

pub const DEFAULT_HOST: &'static str = "http://localhost:11434";

pub const DEFAULT_MODEL: &'static str = "llama3.2:3b";

#[derive(Debug)]
pub enum AiError {
    /// Nothing is listening, or the server could not be reached.
    Unavailable(String),
    /// The server answered, but not with something we could use.
    Malformed(String),
}

pub open spec fn starts_with(s: Seq<char>, p: Seq<char>) -> bool {
    p.len() <= s.len() && s.take(p.len() as int) == p
}

/// `OLLAMA_HOST` is often set as a bare `host:port`: the address trimmed of
/// white space and trailing slashes, with `http://` put in front unless it
/// names a scheme already.
pub open spec fn normalized_host(host: Seq<char>) -> Seq<char> {
    let trimmed = strip_back(trim(host), CharClass::Slash);
    if starts_with(trimmed, "http://"@) || starts_with(trimmed, "https://"@) {
        trimmed
    } else {
        "http://"@ + trimmed
    }
}

/// The normalized address always names a scheme.
pub proof fn lemma_normalized_host_has_scheme(host: Seq<char>)
    ensures
        starts_with(normalized_host(host), "http://"@) || starts_with(
            normalized_host(host),
            "https://"@,
        ),
{
    let trimmed = strip_back(trim(host), CharClass::Slash);
    if !(starts_with(trimmed, "http://"@) || starts_with(trimmed, "https://"@)) {
        assert(("http://"@ + trimmed).take("http://"@.len() as int) =~= "http://"@);
    }
}

fn starts_with_str(v: &Vec<char>, p: &str) -> (r: bool)
    ensures
        r == starts_with(v@, p@),
{
    let pv = chars_of(p);
    if pv.len() > v.len() {
        return false;
    }
    let mut i: usize = 0;
    while i < pv.len()
        invariant
            pv@ == p@,
            pv.len() <= v.len(),
            i <= pv.len(),
            forall|j: int| 0 <= j < i ==> v@[j] == pv@[j],
        decreases pv.len() - i,
    {
        if v[i] != pv[i] {
            assert(v@.take(pv.len() as int)[i as int] != pv@[i as int]);
            return false;
        }
        i = i + 1;
    }
    assert(v@.take(pv.len() as int) =~= pv@);
    true
}

pub fn normalize_host(host: &str) -> (r: String)
    ensures
        r@ == normalized_host(host@),
{
    let v = chars_of(host);
    let t = trim_of(&v);
    let trimmed = strip_back_of(&t, CharClass::Slash);
    if starts_with_str(&trimmed, "http://") || starts_with_str(&trimmed, "https://") {
        string_of(&trimmed)
    } else {
        let mut r = String::new();
        push_str(&mut r, "http://");
        let rest = string_of(&trimmed);
        push_str(&mut r, rest.as_str());
        r
    }
}

/// The installed model `name` is the `wanted` one: the same name, or, when
/// `wanted` names no tag, the same name with a tag (`llama3.2` is reported as
/// `llama3.2:latest`). A name that specifies a tag has to match it exactly.
pub open spec fn model_matches(name: Seq<char>, wanted: Seq<char>) -> bool {
    name == wanted || (!wanted.contains(':') && before_first(name, ':') == wanted)
}

/// Where a local Ollama server is, and which model to ask.
pub struct Ollama {
    host: String,
    model: String,
}

impl Ollama {
    pub closed spec fn host_of(&self) -> Seq<char> {
        self.host@
    }

    pub closed spec fn model_of(&self) -> Seq<char> {
        self.model@
    }

    pub fn new(host: String, model: String) -> (r: Ollama)
        ensures
            r.host_of() == normalized_host(host@),
            r.model_of() == model@,
    {
        Ollama { host: normalize_host(host.as_str()), model }
    }

    pub fn host(&self) -> (r: &str)
        ensures
            r@ == self.host_of(),
    {
        self.host.as_str()
    }

    pub fn model(&self) -> (r: &str)
        ensures
            r@ == self.model_of(),
    {
        self.model.as_str()
    }

    /// Whether the configured model is one the server can actually run.
    pub fn has_model(&self, installed: &[String]) -> (r: bool)
        ensures
            r == exists|i: int|
                0 <= i < installed@.len() && model_matches(#[trigger] installed@[i]@, self.model_of()),
    {
        let wanted = chars_of(self.model.as_str());
        let untagged = !contains_char(&wanted, ':');
        let mut i: usize = 0;
        while i < installed.len()
            invariant
                i <= installed@.len(),
                wanted@ == self.model_of(),
                untagged == !wanted@.contains(':'),
                forall|j: int| 0 <= j < i ==> !model_matches(#[trigger] installed@[j]@, self.model_of()),
            decreases installed.len() - i,
        {
            let name = chars_of(installed[i].as_str());
            if chars_eq(&name, &wanted) || (untagged && chars_eq(&before_first_of(&name, ':'), &wanted)) {
                assert(model_matches(installed@[i as int]@, self.model_of()));
                return true;
            }
            i = i + 1;
        }
        false
    }
}

} // verus!

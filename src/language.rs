use vstd::prelude::*;
use vstd::string::StringExecFns;

use crate::split::{lemma_pieces_nonempty, pieces, split_pieces, trim_text, trimmed};
use crate::text::views_of;

verus! {

/// The toolchain a project root is detected as.
#[derive(Debug, Clone, Copy, PartialEq, Eq, Structural)]
pub enum Language {
    Python,
    Node,
    Go,
    Rust,
    Unknown,
}

/// True when `name` is one of the entries of the root directory.
pub open spec fn has_entry(entries: Seq<Seq<char>>, name: Seq<char>) -> bool {
    exists|i: int| 0 <= i < entries.len() && #[trigger] entries[i] == name
}

/// Classification by marker files, in the fixed precedence
/// Python, then Node, then Go, then Rust.
pub open spec fn classify(entries: Seq<Seq<char>>) -> Language {
    if has_entry(entries, "pyproject.toml"@) || has_entry(entries, "requirements.txt"@) {
        Language::Python
    } else if has_entry(entries, "package.json"@) {
        Language::Node
    } else if has_entry(entries, "go.mod"@) {
        Language::Go
    } else if has_entry(entries, "Cargo.toml"@) {
        Language::Rust
    } else {
        Language::Unknown
    }
}

fn contains_entry(entries: &Vec<String>, name: &str) -> (r: bool)
    ensures
        r == has_entry(views_of(entries@), name@),
{
    let wanted = String::from_str(name);
    let mut i: usize = 0;
    while i < entries.len()
        invariant
            0 <= i <= entries.len(),
            wanted@ == name@,
            forall|j: int| 0 <= j < i ==> entries@[j]@ != name@,
        decreases entries.len() - i,
    {
        if entries[i] == wanted {
            assert(views_of(entries@)[i as int] == name@);
            return true;
        }
        i = i + 1;
    }
    assert forall|j: int| 0 <= j < entries@.len() implies #[trigger] views_of(entries@)[j]
        != name@ by {}
    false
}

/// Detects the project kind from the names of the entries of its root
/// directory.
pub fn detect_project_language(entries: &Vec<String>) -> (r: Language)
    ensures
        r == classify(views_of(entries@)),
{
    if contains_entry(entries, "pyproject.toml") || contains_entry(entries, "requirements.txt") {
        return Language::Python;
    }
    if contains_entry(entries, "package.json") {
        return Language::Node;
    }
    if contains_entry(entries, "go.mod") {
        return Language::Go;
    }
    if contains_entry(entries, "Cargo.toml") {
        return Language::Rust;
    }
    Language::Unknown
}

/// Classification depends on the root's entries alone: the same entries,
/// classified twice, give the same kind.
pub proof fn lemma_classify_idempotent(a: Seq<Seq<char>>, b: Seq<Seq<char>>)
    requires
        a == b,
    ensures
        classify(a) == classify(b),
{
}

/// A root that holds both `Cargo.toml` and `package.json` is never a Rust
/// project: it is Python when a Python marker is present too, else Node.
pub proof fn lemma_node_precedes_rust(entries: Seq<Seq<char>>)
    requires
        has_entry(entries, "Cargo.toml"@),
        has_entry(entries, "package.json"@),
    ensures
        classify(entries) != Language::Rust,
        classify(entries) == Language::Python || classify(entries) == Language::Node,
        !has_entry(entries, "pyproject.toml"@) && !has_entry(entries, "requirements.txt"@)
            ==> classify(entries) == Language::Node,
{
}

/// The files that pin a toolchain version, in the order they are consulted.
pub open spec fn toolchain_file_names() -> Seq<Seq<char>> {
    seq![".nvmrc"@, "rust-toolchain"@, "go.mod"@, "pyproject.toml"@]
}

/// The names of the files that pin a toolchain version, in the order they
/// are consulted.
pub fn toolchain_files() -> (r: Vec<String>)
    ensures
        views_of(r@) == toolchain_file_names(),
{
    let mut r: Vec<String> = Vec::new();
    r.push(String::from_str(".nvmrc"));
    r.push(String::from_str("rust-toolchain"));
    r.push(String::from_str("go.mod"));
    r.push(String::from_str("pyproject.toml"));
    assert(views_of(r@) =~= toolchain_file_names());
    r
}

/// The view of an optional text.
pub open spec fn text_view(c: Option<String>) -> Option<Seq<char>> {
    match c {
        Some(s) => Some(s@),
        None => None,
    }
}

/// The hint a file gives: its first line, trimmed.
pub open spec fn hint_of(content: Seq<char>) -> Seq<char> {
    trimmed(pieces(content, false)[0])
}

/// The hint of the first readable file, if any.
pub open spec fn first_hint(contents: Seq<Option<Seq<char>>>) -> Option<Seq<char>>
    decreases contents.len(),
{
    if contents.len() == 0 {
        None
    } else {
        match contents[0] {
            Some(c) => Some(hint_of(c)),
            None => first_hint(contents.drop_first()),
        }
    }
}

/// The expected toolchain version: given what the files of
/// `toolchain_files` hold, in that order (`None` for one that is absent or
/// unreadable), the first line of the first one, trimmed.
pub fn expected_toolchain_hint(contents: &Vec<Option<String>>) -> (r: Option<String>)
    ensures
        first_hint(contents@.map_values(|c: Option<String>| text_view(c))) == match r {
            Some(h) => Some(h@),
            None => None,
        },
{
    let ghost cs = contents@.map_values(|c: Option<String>| text_view(c));
    let mut i: usize = 0;
    assert(cs.skip(0) =~= cs);
    while i < contents.len()
        invariant
            0 <= i <= contents@.len(),
            cs == contents@.map_values(|c: Option<String>| text_view(c)),
            first_hint(cs) == first_hint(cs.skip(i as int)),
        decreases contents@.len() - i,
    {
        assert(cs.skip(i as int).drop_first() =~= cs.skip(i + 1));
        match &contents[i] {
            Some(c) => {
                let lines = split_pieces(c.as_str(), false);
                proof {
                    lemma_pieces_nonempty(c@, false);
                }
                return Some(trim_text(lines[0].as_str()));
            },
            None => {},
        }
        i = i + 1;
    }
    None
}

} // verus!

//! Which of the files under the root are documents to read.
//!
//! A file is read when its path ends with one of the extensions and holds none
//! of the ignored directory names.

use vstd::prelude::*;
use crate::text::{chars_of, has_part, has_suffix, occurs_in};

verus! {

/// `path` ends with one of `endings`.
pub open spec fn ends_with_any(path: Seq<char>, endings: Seq<Seq<char>>) -> bool {
    exists|i: int| 0 <= i < endings.len() && (#[trigger] endings[i]).is_suffix_of(path)
}

/// One of `names` stands somewhere in `path`.
pub open spec fn holds_any(path: Seq<char>, names: Seq<Seq<char>>) -> bool {
    exists|i: int| 0 <= i < names.len() && occurs_in(#[trigger] names[i], path)
}

/// The extensions of a document.
pub open spec fn standard_extensions() -> Seq<Seq<char>> {
    seq![".md"@, ".markdown"@]
}

/// The directory names under which nothing is read.
pub open spec fn standard_ignored_directories() -> Seq<Seq<char>> {
    seq![
        "archive"@,
        "embedded"@,
        "embedded-hal"@,
        "atmel"@,
        "node_modules"@,
        "STM32"@,
        "legacy"@,
    ]
}

/// The model of a [`WalkRules`].
pub struct WalkRulesView {
    pub extensions: Seq<Seq<char>>,
    pub ignored_directories: Seq<Seq<char>>,
}

/// What a walk over the tree takes for a document.
#[derive(Debug, PartialEq, Eq)]
pub struct WalkRules {
    pub extensions: Vec<String>,
    pub ignored_directories: Vec<String>,
}

impl View for WalkRules {
    type V = WalkRulesView;

    open spec fn view(&self) -> WalkRulesView {
        WalkRulesView {
            extensions: self.extensions.deep_view(),
            ignored_directories: self.ignored_directories.deep_view(),
        }
    }
}

/// A document under `rules`: a path with one of the extensions and without an
/// ignored directory name in it.
pub open spec fn is_document(path: Seq<char>, rules: WalkRulesView) -> bool {
    ends_with_any(path, rules.extensions) && !holds_any(path, rules.ignored_directories)
}

/// Whether `path` ends with one of `endings`.
fn has_ending(path: &str, endings: &Vec<String>) -> (r: bool)
    ensures
        r == ends_with_any(path@, endings.deep_view()),
{
    let hay = chars_of(path);
    let mut i: usize = 0;
    while i < endings.len()
        invariant
            i <= endings.len(),
            hay@ == path@,
            forall|j: int| 0 <= j < i ==> !(#[trigger] endings.deep_view()[j]).is_suffix_of(path@),
        decreases endings.len() - i,
    {
        if has_suffix(&hay, endings[i].as_str()) {
            assert(endings.deep_view()[i as int].is_suffix_of(path@));
            return true;
        }
        i += 1;
    }
    false
}

/// Whether one of `names` stands somewhere in `path`.
fn holds_name(path: &str, names: &Vec<String>) -> (r: bool)
    ensures
        r == holds_any(path@, names.deep_view()),
{
    let hay = chars_of(path);
    let mut i: usize = 0;
    while i < names.len()
        invariant
            i <= names.len(),
            hay@ == path@,
            forall|j: int| 0 <= j < i ==> !occurs_in(#[trigger] names.deep_view()[j], path@),
        decreases names.len() - i,
    {
        if has_part(&hay, names[i].as_str()) {
            assert(occurs_in(names.deep_view()[i as int], path@));
            return true;
        }
        i += 1;
    }
    false
}

impl WalkRules {
    /// The rules with the standard extensions and ignored directories.
    pub fn standard() -> (rules: Self)
        ensures
            rules@.extensions == standard_extensions(),
            rules@.ignored_directories == standard_ignored_directories(),
    {
        let extensions = vec![".md".to_owned(), ".markdown".to_owned()];
        let ignored_directories = vec![
            "archive".to_owned(),
            "embedded".to_owned(),
            "embedded-hal".to_owned(),
            "atmel".to_owned(),
            "node_modules".to_owned(),
            "STM32".to_owned(),
            "legacy".to_owned(),
        ];
        assert(extensions.deep_view() =~= standard_extensions());
        assert(ignored_directories.deep_view() =~= standard_ignored_directories());
        WalkRules { extensions, ignored_directories }
    }

    /// Whether `path` ends with one of the extensions.
    pub fn has_extension(&self, path: &str) -> (r: bool)
        ensures
            r == ends_with_any(path@, self@.extensions),
    {
        has_ending(path, &self.extensions)
    }

    /// Whether `path` holds the name of an ignored directory.
    pub fn is_ignored(&self, path: &str) -> (r: bool)
        ensures
            r == holds_any(path@, self@.ignored_directories),
    {
        holds_name(path, &self.ignored_directories)
    }

    /// Whether the file at `path` is a document to read.
    pub fn accepts(&self, path: &str) -> (r: bool)
        ensures
            r == is_document(path@, self@),
    {
        self.has_extension(path) && !self.is_ignored(path)
    }
}

/// Whether `path` ends with one of the standard extensions.
pub fn ends_with_extension(path: &str) -> (r: bool)
    ensures
        r == ends_with_any(path@, standard_extensions()),
        r == (".md"@.is_suffix_of(path@) || ".markdown"@.is_suffix_of(path@)),
{
    let hay = chars_of(path);
    let r = has_suffix(&hay, ".md") || has_suffix(&hay, ".markdown");
    proof {
        let endings = standard_extensions();
        assert(endings[0] == ".md"@);
        assert(endings[1] == ".markdown"@);
    }
    r
}

} // verus!

//! Entries of a directory listing, and the matcher that decides whether a
//! file is shown in full.

use core::cmp::Ordering;
use vstd::prelude::*;
use vstd::string::*;
use crate::paths::{path_before, path_precedes, paths_equal, same_path};

verus! {

/// Whether an entry of a directory listing is a file or a directory.
#[derive(Debug, Clone, Copy, PartialEq, Eq, PartialOrd, Ord, Structural)]
pub enum FileKind {
    File,
    Directory,
}

/// One entry of a directory listing: its path, its kind, and how many
/// components its path has below the root of the listing.
#[derive(Debug, Clone)]
pub struct File {
    pub path: String,
    pub kind: FileKind,
    pub depth: isize,
}

/// The rules that keep a walk out of the given directories: for each
/// directory its path behind an exclamation mark, and at the end the rule
/// that passes over `.gitkeep`.
pub open spec fn exclusions(ignore_dirs: Seq<Seq<char>>) -> Seq<Seq<char>> {
    ignore_dirs.map_values(|dir: Seq<char>| seq!['!'] + dir).push("!.gitkeep"@)
}

/// Writes the rules that keep a walk out of the given directories.
pub fn ignore_rules(ignore_dirs: &Vec<String>) -> (rules: Vec<String>)
    ensures
        crate::text::texts(rules@) == exclusions(crate::text::texts(ignore_dirs@)),
{
    proof {
        reveal_strlit("!");
    }
    let mut rules: Vec<String> = Vec::new();
    let mut i: usize = 0;
    while i < ignore_dirs.len()
        invariant
            "!"@ == seq!['!'],
            0 <= i <= ignore_dirs.len(),
            rules.len() == i,
            forall|k: int| 0 <= k < i ==> (#[trigger] rules[k])@ == seq!['!'] + ignore_dirs[k]@,
        decreases ignore_dirs.len() - i,
    {
        let mut rule = "!".to_owned();
        rule.append(ignore_dirs[i].as_str());
        rules.push(rule);
        i += 1;
    }
    rules.push("!.gitkeep".to_owned());
    rules
}

impl PartialEq for File {
    /// Two entries are the same entry when their paths are equal.
    fn eq(&self, other: &Self) -> (r: bool) {
        paths_equal(self.path.as_str(), other.path.as_str())
    }
}

impl vstd::std_specs::cmp::PartialEqSpecImpl for File {
    open spec fn obeys_eq_spec() -> bool {
        true
    }

    open spec fn eq_spec(&self, other: &Self) -> bool {
        same_path(self.path@, other.path@)
    }
}

impl Eq for File {

}

impl PartialOrd for File {
    /// Entries are ordered as their paths are.
    fn partial_cmp(&self, other: &Self) -> (r: Option<Ordering>) {
        if paths_equal(self.path.as_str(), other.path.as_str()) {
            Some(Ordering::Equal)
        } else if path_precedes(self.path.as_str(), other.path.as_str()) {
            Some(Ordering::Less)
        } else {
            Some(Ordering::Greater)
        }
    }
}

impl vstd::std_specs::cmp::PartialOrdSpecImpl for File {
    open spec fn obeys_partial_cmp_spec() -> bool {
        true
    }

    open spec fn partial_cmp_spec(&self, other: &Self) -> Option<Ordering> {
        if same_path(self.path@, other.path@) {
            Some(Ordering::Equal)
        } else if path_before(self.path@, other.path@) {
            Some(Ordering::Less)
        } else {
            Some(Ordering::Greater)
        }
    }
}

/// A compiled glob of the crate `glob`.
#[verifier::external_type_specification]
#[verifier::external_body]
pub struct ExPattern(glob::Pattern);

/// The error with which the crate `glob` refuses a pattern.
#[verifier::external_type_specification]
#[verifier::external_body]
pub struct ExPatternError(glob::PatternError);

/// The text that a compiled glob was compiled from; the crate `glob` keeps
/// it in the pattern and hands it out as `Pattern::as_str`.
pub uninterp spec fn pattern_text(pattern: glob::Pattern) -> Seq<char>;

/// Whether `Pattern::new` of the crate `glob` accepts a text as a glob.
pub uninterp spec fn is_glob(text: Seq<char>) -> bool;

/// Whether the glob compiled from `pattern` matches `path`, with the default
/// options of the crate `glob`, on the platform that the library is built
/// for.
pub uninterp spec fn glob_matches(pattern: Seq<char>, path: Seq<char>) -> bool;

/// `Pattern::new` of the crate `glob`. Whether it accepts a text depends on
/// the text alone; the pattern that it returns keeps the text.
#[verifier::external_body]
fn compile(text: &str) -> (r: Result<glob::Pattern, glob::PatternError>)
    ensures
        r is Ok <==> is_glob(text@),
        r is Ok ==> pattern_text(r->Ok_0) == text@,
{
    glob::Pattern::new(text)
}

/// `Pattern::matches_path` of the crate `glob`, on a path given as text. The
/// result depends on the text of the pattern and on the path alone.
#[verifier::external_body]
fn pattern_matches(pattern: &glob::Pattern, path: &str) -> (r: bool)
    ensures
        r == glob_matches(pattern_text(*pattern), path@),
{
    pattern.matches_path(std::path::Path::new(path))
}

/// The message of an error of the crate `glob`, as its `Display` writes it.
/// Nothing is claimed of the text.
#[verifier::external_body]
fn error_message(error: &glob::PatternError) -> (message: String) {
    format!("{}", error)
}

/// A text that is no glob, with what the crate `glob` says against it.
#[derive(Debug, Clone)]
pub struct InvalidGlob {
    pub pattern: String,
    pub message: String,
}

/// The texts of a list of compiled globs.
pub open spec fn pattern_texts(patterns: Seq<glob::Pattern>) -> Seq<Seq<char>> {
    patterns.map_values(|p: glob::Pattern| pattern_text(p))
}

/// Whether one of the first `upto` globs matches `path`.
pub open spec fn any_matches(globs: Seq<Seq<char>>, path: Seq<char>, upto: int) -> bool {
    exists|i: int| 0 <= i < upto && glob_matches(#[trigger] globs[i], path)
}

/// Decides for a file, by its path, whether its content is shown in full
/// instead of being digested: it is when one of the globs matches the path.
pub struct GlobPatternMatcher {
    glob_patterns: Vec<glob::Pattern>,
}

impl View for GlobPatternMatcher {
    type V = Seq<Seq<char>>;

    closed spec fn view(&self) -> Seq<Seq<char>> {
        pattern_texts(self.glob_patterns@)
    }
}

impl Default for GlobPatternMatcher {
    fn default() -> (matcher: GlobPatternMatcher)
        ensures
            matcher@ == Seq::<Seq<char>>::empty(),
    {
        GlobPatternMatcher::new()
    }
}

/// The position of the first text that is no glob, or the number of texts.
pub open spec fn first_invalid(texts: Seq<Seq<char>>, from: int) -> int
    decreases texts.len() - from,
{
    if from < 0 || from >= texts.len() {
        texts.len() as int
    } else if !is_glob(texts[from]) {
        from
    } else {
        first_invalid(texts, from + 1)
    }
}

impl GlobPatternMatcher {
    /// A matcher without globs: it matches no path.
    pub fn new() -> (matcher: GlobPatternMatcher)
        ensures
            matcher@ == Seq::<Seq<char>>::empty(),
    {
        let matcher = GlobPatternMatcher { glob_patterns: Vec::new() };
        matcher
    }

    /// A matcher with the given globs. The first text that is no glob is
    /// reported, and no matcher is made.
    pub fn new_from_strings(glob_patterns: &[String]) -> (r: Result<
        GlobPatternMatcher,
        InvalidGlob,
    >)
        ensures
            r is Ok <==> first_invalid(crate::text::texts(glob_patterns@), 0)
                == glob_patterns.len(),
            r is Ok ==> r->Ok_0@ == crate::text::texts(glob_patterns@),
            r is Err ==> r->Err_0.pattern@ == glob_patterns[first_invalid(
                crate::text::texts(glob_patterns@),
                0,
            )]@,
    {
        let ghost wanted = crate::text::texts(glob_patterns@);
        let mut result = GlobPatternMatcher::new();
        let mut i: usize = 0;
        while i < glob_patterns.len()
            invariant
                wanted == crate::text::texts(glob_patterns@),
                0 <= i <= glob_patterns.len(),
                result@ == wanted.take(i as int),
                first_invalid(wanted, 0) == first_invalid(wanted, i as int),
            decreases glob_patterns.len() - i,
        {
            match result.add_glob_pattern(glob_patterns[i].as_str()) {
                Ok(_) => {},
                Err(e) => {
                    return Err(e);
                },
            }
            i += 1;
        }
        Ok(result)
    }

    /// Adds a glob. A text that is no glob is reported, and the matcher
    /// stays as it is.
    pub fn add_glob_pattern(&mut self, glob_pattern: &str) -> (r: Result<(), InvalidGlob>)
        ensures
            r is Ok <==> is_glob(glob_pattern@),
            r is Ok ==> final(self)@ == old(self)@.push(glob_pattern@),
            r is Err ==> final(self)@ == old(self)@ && r->Err_0.pattern@ == glob_pattern@,
    {
        match compile(glob_pattern) {
            Ok(pattern) => {
                self.glob_patterns.push(pattern);
                Ok(())
            },
            Err(e) => Err(
                InvalidGlob { pattern: glob_pattern.to_owned(), message: error_message(&e) },
            ),
        }
    }

    /// Whether one of the globs matches `file_path`.
    pub fn matches(&self, file_path: &str) -> (r: bool)
        ensures
            r == any_matches(self@, file_path@, self@.len() as int),
    {
        let mut i: usize = 0;
        while i < self.glob_patterns.len()
            invariant
                0 <= i <= self.glob_patterns.len(),
                !any_matches(self@, file_path@, i as int),
            decreases self.glob_patterns.len() - i,
        {
            if pattern_matches(&self.glob_patterns[i], file_path) {
                assert(glob_matches(self@[i as int], file_path@));
                return true;
            }
            i += 1;
        }
        false
    }
}

} // verus!

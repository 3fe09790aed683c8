//! The symbol name filter: a compiled regular expression that decides
//! which symbols take part in the merge. Compilation and matching are
//! done by the regex crate; what a given pattern matches is taken as a
//! function of the pattern and the text alone.

use vstd::prelude::*;

verus! {

#[verifier::external_type_specification]
#[verifier::external_body]
pub struct ExRegex(regex::Regex);

/// Whether the regular expression written as `pattern` matches
/// somewhere in `text`.
pub uninterp spec fn regex_match(pattern: Seq<char>, text: Seq<char>) -> bool;

/// A compiled name filter, remembering the pattern it was built from.
/// The compiled value and the stored pattern are only ever paired by
/// `compile`, so the one always stems from the other.
pub struct NameFilter {
    re: regex::Regex,
    pattern: String,
}

impl NameFilter {
    /// The pattern this filter was compiled from.
    pub closed spec fn pattern_view(&self) -> Seq<char> {
        self.pattern@
    }
}

/// Relies on regex::Regex::new: it compiles the pattern, or reports
/// why the pattern is invalid; the compiled value's matching behaviour
/// is determined by the pattern alone.
#[verifier::external_body]
fn compile_regex(pattern: &str) -> (r: Option<NameFilter>)
    ensures
        r matches Some(f) ==> f.pattern_view() == pattern@,
{
    match regex::Regex::new(pattern) {
        Ok(re) => Some(NameFilter { re, pattern: String::from(pattern) }),
        Err(_) => None,
    }
}

/// Relies on regex::Regex::is_match: true if and only if there is a
/// match for the compiled pattern anywhere in the haystack; the result
/// is a function of the pattern and the haystack alone.
#[verifier::external_body]
fn regex_is_match(f: &NameFilter, text: &str) -> (r: bool)
    ensures
        r == regex_match(f.pattern_view(), text@),
{
    f.re.is_match(text)
}

impl NameFilter {
    /// Compiles a name filter from a regular-expression pattern.
    /// `None` means the regex engine rejected the pattern.
    pub fn compile(pattern: &str) -> (r: Option<NameFilter>)
        ensures
            r matches Some(f) ==> f.pattern_view() == pattern@,
    {
        compile_regex(pattern)
    }

    /// Whether this filter matches somewhere in `text`.
    pub fn is_match(&self, text: &str) -> (r: bool)
        ensures
            r == regex_match(self.pattern_view(), text@),
    {
        regex_is_match(self, text)
    }
}

} // verus!

//! Regular expressions, compiled by the `regex` crate.

use vstd::prelude::*;

verus! {

#[verifier::external_type_specification]
#[verifier::external_body]
pub struct ExRegex(regex::Regex);

/// Whether the regular expression `pattern`, in the `regex` crate's syntax,
/// matches somewhere in `haystack`.
pub uninterp spec fn regex_matches(pattern: Seq<char>, haystack: Seq<char>) -> bool;

/// Whether the `regex` crate compiles `pattern` with its default settings
/// (syntax and size limits), as `regex::Regex::new` does.
pub uninterp spec fn regex_compiles(pattern: Seq<char>) -> bool;

/// A compiled regular expression together with its source.
pub struct Pattern {
    source: String,
    compiled: regex::Regex,
}

impl View for Pattern {
    type V = Seq<char>;

    /// The source the pattern was compiled from.
    closed spec fn view(&self) -> Seq<char> {
        self.source@
    }
}

impl Pattern {
    /// Compiles `source` with `regex::Regex::new`; none where the crate refuses it.
    /// Claimed of the crate: whether it compiles a source depends on the source
    /// alone, and a compiled pattern keeps its source.
    #[verifier::external_body]
    pub(crate) fn compile(source: &str) -> (r: Option<Pattern>)
        ensures
            r is Some <==> regex_compiles(source@),
            r matches Some(p) ==> p@ == source@,
    {
        match regex::Regex::new(source) {
            Ok(compiled) => Some(Pattern { source: source.to_string(), compiled }),
            Err(_) => None,
        }
    }

    /// Searches `haystack` with `regex::Regex::is_match`. Claimed of the crate:
    /// the answer depends on the pattern's source and the haystack alone.
    #[verifier::external_body]
    pub(crate) fn is_match(&self, haystack: &str) -> (b: bool)
        ensures
            b == regex_matches(self@, haystack@),
    {
        self.compiled.is_match(haystack)
    }
}

} // verus!

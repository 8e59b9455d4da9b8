//! Regular-expression matching for service fingerprints, through the regex
//! crate. Compilation and matching are deterministic functions of the
//! pattern and haystack text, so their results are named here and the rest
//! of the library reasons in terms of those names.

use vstd::prelude::*;

verus! {

/// regex::Regex, declared so compiled patterns can sit in library types.
#[verifier::external_type_specification]
#[verifier::external_body]
pub struct ExRegex(regex::Regex);

/// Whether regex::Regex::new accepts `pattern` (with its default size
/// limit); a function of the pattern text alone.
pub uninterp spec fn pattern_compiles(pattern: Seq<char>) -> bool;

/// Whether the regular expression `pattern` matches anywhere in `text`; a
/// function of the two texts alone. Meaningful when `pattern_compiles`
/// holds of the pattern.
pub uninterp spec fn regex_match(pattern: Seq<char>, text: Seq<char>) -> bool;

/// A compiled regular expression kept together with its source text, so
/// contracts can speak of the pattern it was built from. `compile` is the
/// only constructor, which is what ties the two fields together.
pub struct CompiledPattern {
    pattern: String,
    regex: regex::Regex,
}

impl CompiledPattern {
    /// The pattern this value was compiled from.
    pub closed spec fn spec_pattern(&self) -> Seq<char> {
        self.pattern@
    }

    /// Relies on regex::Regex::new: whether a pattern compiles depends on
    /// the pattern text alone, and per its documentation an invalid pattern
    /// (or one over the default size limit) is the one way it fails.
    #[verifier::external_body]
    pub fn compile(pattern: &str) -> (r: Option<CompiledPattern>)
        ensures
            r is Some <==> pattern_compiles(pattern@),
            r matches Some(c) ==> c.spec_pattern() == pattern@,
    {
        match regex::Regex::new(pattern) {
            Ok(regex) => Some(CompiledPattern { pattern: pattern.to_owned(), regex }),
            Err(_) => None,
        }
    }

    /// The pattern text.
    pub fn pattern(&self) -> (r: &String)
        ensures
            r@ == self.spec_pattern(),
    {
        &self.pattern
    }

    /// Relies on regex::Regex::is_match: true exactly when the pattern
    /// matches somewhere in `text`, a function of pattern and haystack
    /// alone. The `regex` field is always the compilation of `pattern`
    /// (see `compile`), so the answer is `regex_match` of the two texts.
    #[verifier::external_body]
    pub fn is_match(&self, text: &str) -> (r: bool)
        ensures
            r == regex_match(self.spec_pattern(), text@),
    {
        self.regex.is_match(text)
    }
}

} // verus!

use vstd::prelude::*;

verus! {

#[verifier::external_type_specification]
#[verifier::external_body]
pub struct ExRegex(regex::Regex);

#[verifier::external_type_specification]
#[verifier::external_body]
pub struct ExRegexError(regex::Error);

/// Whether the regular expression `pattern` matches anywhere in `text`,
/// as `regex::Regex::is_match` decides it: a pure function of the two
/// character sequences.
pub uninterp spec fn regex_match(pattern: Seq<char>, text: Seq<char>) -> bool;

/// Whether `pattern` is valid regular-expression syntax, as
/// `regex::Regex::new` decides it: a function of the pattern text alone.
/// Construction succeeds exactly on such patterns.
pub uninterp spec fn regex_compiles(pattern: Seq<char>) -> bool;

/// A regular expression compiled once, at route-construction time, and
/// owned by its predicate; evaluation never recompiles it.
pub struct RegexMatcher {
    pattern: String,
    compiled: regex::Regex,
}

impl RegexMatcher {
    /// The pattern text this matcher was compiled from.
    pub closed spec fn pattern(&self) -> Seq<char> {
        self.pattern@
    }

    /// Relies on `regex::Regex::new`: it returns `Ok` exactly for valid
    /// pattern syntax, a function of the pattern text alone, and compiles
    /// deterministically. This is the only constructor, so the compiled
    /// value always stems from `pattern`.
    #[verifier::external_body]
    pub(crate) fn compile(pattern: &str) -> (r: Result<RegexMatcher, regex::Error>)
        ensures
            r is Ok <==> regex_compiles(pattern@),
            r is Ok ==> r->Ok_0.pattern() == pattern@,
    {
        match regex::Regex::new(pattern) {
            Ok(compiled) => Ok(RegexMatcher { pattern: pattern.to_string(), compiled }),
            Err(e) => Err(e),
        }
    }

    /// Relies on `regex::Regex::is_match`: a pure function of the pattern
    /// the receiver was compiled from and the text searched.
    #[verifier::external_body]
    pub(crate) fn is_match(&self, text: &str) -> (r: bool)
        ensures
            r == regex_match(self.pattern(), text@),
    {
        self.compiled.is_match(text)
    }
}

} // verus!

//! Compiled search patterns, built on the `regex` crate.
//!
//! A [`CompiledPattern`] pairs a compiled regular expression with the
//! case-sensitivity choice it was built with. Both are fixed at construction
//! time; matching a line never changes the pattern.

use vstd::prelude::*;
use vstd::string::*;

verus! {

#[verifier::external_type_specification]
#[verifier::external_body]
pub struct ExRegex(regex::Regex);

#[verifier::external_type_specification]
#[verifier::external_body]
pub struct ExRegexError(regex::Error);

/// Whether `regex::RegexBuilder::build`, at its default configuration with
/// case insensitivity set to `insensitive`, accepts `pattern` as a regular
/// expression. This is a function of the pattern text and the flag alone.
pub uninterp spec fn pattern_compiles(pattern: Seq<char>, insensitive: bool) -> bool;

/// What `regex::Regex::is_match` returns on haystack `line` for the regex
/// compiled from `pattern` with case insensitivity `insensitive`. The regex
/// crate computes this from those three values alone.
pub uninterp spec fn pattern_matches(pattern: Seq<char>, insensitive: bool, line: Seq<char>) -> bool;

/// An immutable compiled regular expression together with the
/// case-sensitivity choice baked in when it was compiled.
pub struct CompiledPattern {
    regex: regex::Regex,
    pattern: String,
    insensitive: bool,
}

/// The pattern text was not a valid regular expression.
#[derive(Debug)]
pub struct PatternError {
    pub pattern: String,
}

impl CompiledPattern {
    /// The pattern text this value was compiled from.
    pub closed spec fn spec_pattern(&self) -> Seq<char> {
        self.pattern@
    }

    /// Whether this value was compiled case-insensitively.
    pub closed spec fn spec_insensitive(&self) -> bool {
        self.insensitive
    }

    /// Relies on `regex::RegexBuilder::build`: it returns `Ok` exactly when
    /// the pattern is a valid regular expression within the builder's default
    /// size limit, and the compiled regex is a function of the pattern text
    /// and the case-insensitivity flag. The private fields of the result
    /// record exactly the inputs the regex was built from.
    #[verifier::external_body]
    fn build(pattern: &str, insensitive: bool) -> (r: Result<CompiledPattern, regex::Error>)
        ensures
            r is Ok <==> pattern_compiles(pattern@, insensitive),
            r is Ok ==> r->Ok_0.spec_pattern() == pattern@
                && r->Ok_0.spec_insensitive() == insensitive,
    {
        match regex::RegexBuilder::new(pattern).case_insensitive(insensitive).build() {
            Ok(regex) => Ok(CompiledPattern { regex, pattern: pattern.to_string(), insensitive }),
            Err(e) => Err(e),
        }
    }

    /// Compiles `pattern`, succeeding exactly when it is a valid regular
    /// expression (within the regex crate's default size limit).
    pub fn compile(pattern: &str, insensitive: bool) -> (r: Result<CompiledPattern, PatternError>)
        ensures
            r is Ok <==> pattern_compiles(pattern@, insensitive),
            r is Ok ==> r->Ok_0.spec_pattern() == pattern@
                && r->Ok_0.spec_insensitive() == insensitive,
            r is Err ==> r->Err_0.pattern@ == pattern@,
    {
        match Self::build(pattern, insensitive) {
            Ok(p) => Ok(p),
            Err(_) => Err(PatternError { pattern: pattern.to_owned() }),
        }
    }

    /// Relies on `regex::Regex::is_match`: whether the regex matches anywhere
    /// in `line`, a deterministic function of the pattern text, the case
    /// flag and the haystack.
    #[verifier::external_body]
    pub(crate) fn is_match(&self, line: &str) -> (r: bool)
        ensures
            r == pattern_matches(self.spec_pattern(), self.spec_insensitive(), line@),
    {
        self.regex.is_match(line)
    }
}

impl PatternError {
    /// The diagnostic text for this error.
    pub open spec fn spec_message(&self) -> Seq<char> {
        "Invalid pattern \""@ + self.pattern@ + "\""@
    }

    /// Renders the error as `Invalid pattern "<pattern>"`.
    pub fn message(&self) -> (r: String)
        ensures
            r@ == self.spec_message(),
    {
        let mut s = "Invalid pattern \"".to_owned();
        s.append(self.pattern.as_str());
        s.append("\"");
        s
    }
}

} // verus!

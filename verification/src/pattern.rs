//! Path patterns: regular expressions compiled once, at registration, by the
//! `regex` crate.
//!
//! A contract sees a pattern as its source text. Whether a text compiles and
//! whether a compiled pattern matches a path are the `regex` crate's to say,
//! so each stands here as an uninterpreted function of the texts.

use vstd::prelude::*;

verus! {

#[verifier::external_type_specification]
#[verifier::external_body]
pub struct ExRegex(regex::Regex);

#[verifier::external_type_specification]
#[verifier::external_body]
pub struct ExRegexError(regex::Error);

/// Whether `regex::Regex::new` accepts `pattern`.
pub uninterp spec fn pattern_compiles(pattern: Seq<char>) -> bool;

/// Whether the regular expression that `regex::Regex::new` compiles from
/// `pattern` finds a match anywhere in `path`, as `regex::Regex::is_match`
/// reports it.
pub uninterp spec fn pattern_matches(pattern: Seq<char>, path: Seq<char>) -> bool;

/// A compiled path pattern together with the text it was compiled from.
///
/// The only way to obtain one is [`PathMatcher::new`], so the compiled
/// expression is always the one `regex` built from the text.
#[derive(Debug)]
pub struct PathMatcher {
    source: String,
    regex: regex::Regex,
}

impl View for PathMatcher {
    type V = Seq<char>;

    closed spec fn view(&self) -> Seq<char> {
        self.source@
    }
}

/// Why a path pattern was refused at registration.
#[derive(Debug)]
pub struct PatternError {
    pattern: String,
    reason: String,
}

impl PatternError {
    /// The refused pattern.
    pub closed spec fn spec_pattern(&self) -> Seq<char> {
        self.pattern@
    }

    /// The refused pattern.
    pub fn pattern(&self) -> (pattern: &str)
        ensures
            pattern@ == self.spec_pattern(),
    {
        self.pattern.as_str()
    }

    /// What the `regex` crate says is wrong with the pattern.
    pub closed spec fn spec_reason(&self) -> Seq<char> {
        self.reason@
    }

    /// What the `regex` crate says is wrong with the pattern.
    pub fn reason(&self) -> (reason: &str)
        ensures
            reason@ == self.spec_reason(),
    {
        self.reason.as_str()
    }
}

/// Calls `regex::Regex::new` on `pattern` and keeps the text beside the
/// compiled expression. Trusted: the call succeeds exactly on the texts for
/// which `pattern_compiles` holds, and a matcher that comes back carries
/// `pattern` as its text.
#[verifier::external_body]
fn compile(pattern: &str) -> (compiled: Result<PathMatcher, regex::Error>)
    ensures
        compiled is Ok <==> pattern_compiles(pattern@),
        compiled matches Ok(matcher) ==> matcher@ == pattern@,
{
    match regex::Regex::new(pattern) {
        Ok(regex) => Ok(PathMatcher { source: pattern.to_string(), regex }),
        Err(error) => Err(error),
    }
}

/// Calls `regex::Regex::is_match` on the compiled expression. Trusted: the
/// answer is `pattern_matches` of the matcher's text and `path`.
#[verifier::external_body]
fn search(matcher: &PathMatcher, path: &str) -> (found: bool)
    ensures
        found == pattern_matches(matcher@, path@),
{
    matcher.regex.is_match(path)
}

/// Renders a `regex::Error` through its `Display` impl. Nothing is claimed of
/// the text.
#[verifier::external_body]
fn describe(error: &regex::Error) -> String {
    error.to_string()
}

impl PathMatcher {
    /// Compiles `pattern`. Fails, naming the pattern, exactly when the
    /// `regex` crate refuses it.
    pub fn new(pattern: &str) -> (compiled: Result<PathMatcher, PatternError>)
        ensures
            compiled is Ok <==> pattern_compiles(pattern@),
            compiled matches Ok(matcher) ==> matcher@ == pattern@,
            compiled matches Err(error) ==> error.spec_pattern() == pattern@,
    {
        match compile(pattern) {
            Ok(matcher) => Ok(matcher),
            Err(error) => {
                let reason = describe(&error);
                Err(PatternError { pattern: pattern.to_string(), reason })
            },
        }
    }

    /// The text this matcher was compiled from.
    pub fn as_str(&self) -> (source: &str)
        ensures
            source@ == self@,
    {
        self.source.as_str()
    }

    /// Whether the pattern finds a match anywhere in `path`. An unanchored
    /// pattern therefore also matches every path that merely contains a
    /// match.
    pub fn is_match(&self, path: &str) -> (found: bool)
        ensures
            found == pattern_matches(self@, path@),
    {
        search(self, path)
    }
}

} // verus!

//! Regular expressions, compiled and matched by the `regex` crate.
use regex::Regex;
use vstd::prelude::*;

verus! {

/// `regex::Regex`, carried through the library unopened.
#[verifier::external_type_specification]
#[verifier::external_body]
pub struct ExRegex(Regex);

/// `regex::Error`, the reason a pattern was refused.
#[verifier::external_type_specification]
#[verifier::external_body]
pub struct ExRegexError(regex::Error);

/// Whether the `regex` crate accepts `pattern` (`Regex::new` gives `Ok`).
pub uninterp spec fn regex_compiles(pattern: Seq<char>) -> bool;

/// What `Regex::captures` finds in `haystack` for the regex compiled from
/// `pattern`: `None` when it does not match, otherwise the text of the groups
/// named `first` and `second` (`None` for a group that took no part).
pub uninterp spec fn regex_capture_pair(
    pattern: Seq<char>,
    haystack: Seq<char>,
    first: Seq<char>,
    second: Seq<char>,
) -> Option<(Option<Seq<char>>, Option<Seq<char>>)>;

/// Whether `part` occurs as a contiguous piece of `whole`.
pub open spec fn is_infix(part: Seq<char>, whole: Seq<char>) -> bool {
    exists|i: int|
        0 <= i && i + part.len() <= whole.len() && #[trigger] whole.subrange(i, i + part.len())
            == part
}

/// A compiled regular expression and the pattern it was compiled from.
pub struct CompiledPattern {
    regex: Regex,
    source: Ghost<Seq<char>>,
}

impl CompiledPattern {
    /// The pattern this regular expression was compiled from.
    pub closed spec fn source(&self) -> Seq<char> {
        self.source@
    }
}

/// Compiles `pattern` with `regex::Regex::new`. Trusted: the result is `Ok`
/// exactly when the crate accepts the pattern (a function of the pattern
/// alone), and an `Ok` holds the regex of that pattern.
#[verifier::external_body]
pub(crate) fn compile_pattern(pattern: &str) -> (r: Result<CompiledPattern, regex::Error>)
    ensures
        r is Ok <==> regex_compiles(pattern@),
        r matches Ok(p) ==> p.source() == pattern@,
{
    match Regex::new(pattern) {
        Ok(regex) => Ok(CompiledPattern { regex, source: Ghost(pattern@) }),
        Err(e) => Err(e),
    }
}

/// Matches `haystack` with `Regex::captures` and takes the text of the
/// groups named `first` and `second` (`Captures::name`, `Match::as_str`).
/// Trusted: the result is the crate's answer for the pattern and haystack,
/// and, as the crate documents, a group's text is a piece of the haystack.
#[verifier::external_body]
pub(crate) fn capture_pair(pattern: &CompiledPattern, haystack: &str, first: &str, second: &str) -> (r:
    Option<(Option<String>, Option<String>)>)
    ensures
        r.deep_view() == regex_capture_pair(pattern.source(), haystack@, first@, second@),
        r matches Some((Some(m), _)) ==> is_infix(m@, haystack@),
        r matches Some((_, Some(m))) ==> is_infix(m@, haystack@),
{
    match pattern.regex.captures(haystack) {
        Some(caps) => Some(
            (
                caps.name(first).map(|m| m.as_str().to_owned()),
                caps.name(second).map(|m| m.as_str().to_owned()),
            ),
        ),
        None => None,
    }
}

} // verus!

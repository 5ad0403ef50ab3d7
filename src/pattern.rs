//! Compiled regular expressions, compiled once and reused.
use vstd::prelude::*;

verus! {

#[verifier::external_type_specification]
#[verifier::external_body]
pub struct ExRegex(regex::Regex);

/// The text of capture group `group` in the leftmost match of the regular
/// expression `pattern` in `haystack`; `None` where nothing matches or the
/// group took no part in the match.
pub uninterp spec fn regex_group(pattern: Seq<char>, haystack: Seq<char>, group: nat) -> Option<
    Seq<char>,
>;

/// Whether the regex engine accepts `source` as a pattern.
pub uninterp spec fn regex_compiles(source: Seq<char>) -> bool;

/// A regular expression together with the source text it was compiled from.
pub struct Pattern {
    re: regex::Regex,
    source: Ghost<Seq<char>>,
}

impl Pattern {
    /// The source text this pattern was compiled from.
    pub closed spec fn source(&self) -> Seq<char> {
        self.source@
    }

    /// Compiles `source`; `None` where the regex engine rejects it.
    pub fn new(source: &str) -> (r: Option<Pattern>)
        ensures
            r is Some <==> regex_compiles(source@),
            r matches Some(p) ==> p.source() == source@,
    {
        match compile(source) {
            Some(re) => Some(Pattern { re, source: Ghost(source@) }),
            None => None,
        }
    }

}

/// Relies on `regex::Regex::new`: it compiles `source`, or returns an error for
/// a pattern it rejects; which of the two depends on `source` alone.
#[verifier::external_body]
fn compile(source: &str) -> (r: Option<regex::Regex>)
    ensures
        r is Some <==> regex_compiles(source@),
{
    regex::Regex::new(source).ok()
}

/// Relies on `regex::Regex::captures` and `regex::Captures::get`: the text of
/// group `group` of the leftmost match in `s` of the pattern that `p` holds,
/// compiled from `p.source()` by `Pattern::new`.
#[verifier::external_body]
pub(crate) fn group_text(p: &Pattern, s: &str, group: usize) -> (r: Option<String>)
    ensures
        r matches Some(t) ==> regex_group(p.source(), s@, group as nat) == Some(t@),
        r is None ==> regex_group(p.source(), s@, group as nat) is None,
{
    p.re.captures(s).and_then(|c| c.get(group)).map(|m| m.as_str().to_string())
}

} // verus!

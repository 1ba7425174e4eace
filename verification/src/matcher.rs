//! The trusted boundary to the regex engine.
//!
//! A compiled matcher is opaque here; `pattern_of` names the pattern text it
//! was compiled from, `compiles_ok` names whether a pattern text compiles,
//! and `find_of` names the first match the engine reports for a pattern on a
//! haystack. All three are functions of pattern and haystack text alone: the
//! regex engine is deterministic.

use vstd::prelude::*;

verus! {

#[verifier::external_type_specification]
#[verifier::external_body]
pub struct ExRegex(regex::Regex);

/// The pattern text that a compiled matcher was built from.
pub uninterp spec fn pattern_of(re: regex::Regex) -> Seq<char>;

/// Whether `regex::Regex::new` accepts this pattern text.
pub uninterp spec fn compiles_ok(pattern: Seq<char>) -> bool;

/// The first match `regex::Regex::find` reports for the pattern on the
/// text: byte offsets (start inclusive, end exclusive), or `None` when the
/// pattern matches nowhere in the text.
pub uninterp spec fn find_of(pattern: Seq<char>, text: Seq<char>) -> Option<(int, int)>;

/// Relies on `regex::Regex::new`: whether a pattern compiles depends on the
/// pattern text alone, and the matcher it returns is determined by that
/// text. The error message is the compiler's own and is not constrained.
#[verifier::external_body]
pub(crate) fn regex_new(pattern: &str) -> (r: Result<regex::Regex, String>)
    ensures
        r is Ok <==> compiles_ok(pattern@),
        r matches Ok(re) ==> pattern_of(re) == pattern@,
{
    match regex::Regex::new(pattern) {
        Ok(re) => Ok(re),
        Err(e) => Err(format!("{}", e)),
    }
}

/// Relies on `regex::Regex::find`: the leftmost match and its byte span are
/// a function of the pattern and the haystack alone, and a reported span
/// has start <= end.
#[verifier::external_body]
pub(crate) fn regex_find(re: &regex::Regex, text: &str) -> (r: Option<(usize, usize)>)
    ensures
        match r {
            Some(p) => find_of(pattern_of(*re), text@) == Some((p.0 as int, p.1 as int))
                && p.0 <= p.1,
            None => find_of(pattern_of(*re), text@) is None,
        },
{
    re.find(text).map(|m| (m.start(), m.end()))
}

} // verus!

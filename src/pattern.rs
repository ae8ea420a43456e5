//! The regular expressions that exempt components from shortening.

use regex::Regex;
use vstd::prelude::*;

verus! {

#[verifier::external_type_specification]
#[verifier::external_body]
pub struct ExRegex(Regex);

/// Whether `re` matches somewhere in `text`.
pub uninterp spec fn regex_finds(re: Regex, text: Seq<char>) -> bool;

/// Relies on regex::Regex::is_match: true exactly when the regex matches
/// anywhere in the haystack, which depends on the regex and the haystack alone.
pub assume_specification[ Regex::is_match ](re: &Regex, haystack: &str) -> (r: bool)
    ensures
        r == regex_finds(*re, haystack@),
;

/// Whether an optional exemption pattern spares the component `c`.
pub open spec fn pattern_exempts(pattern: Option<Regex>, c: Seq<char>) -> bool {
    match pattern {
        Some(re) => regex_finds(re, c),
        None => false,
    }
}

/// Whether the optional exemption pattern spares `c`.
pub fn is_exempt(pattern: &Option<Regex>, c: &str) -> (r: bool)
    ensures
        r == pattern_exempts(*pattern, c@),
{
    match pattern {
        Some(re) => re.is_match(c),
        None => false,
    }
}

} // verus!

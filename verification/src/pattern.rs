//! Pattern search, done by the `regex` crate.

use regex::Regex;
use vstd::prelude::*;

verus! {

/// The capture groups of the leftmost match of the regular expression
/// `pattern` in `text`, as the `regex` crate finds them: the whole match
/// first, then each group in order, a group that took no part in the match as
/// the empty string. `None` where `pattern` does not compile or matches
/// nowhere in `text`.
pub uninterp spec fn regex_captures(pattern: Seq<char>, text: Seq<char>) -> Option<Seq<Seq<char>>>;

/// Calls `Regex::new` and `Regex::captures` of the `regex` crate. The
/// contract names the result and claims only that it depends on the two
/// strings alone.
#[verifier::external_body]
pub(crate) fn captures(pattern: &str, text: &str) -> (r: Option<Vec<String>>)
    ensures
        r.deep_view() == regex_captures(pattern@, text@),
{
    let found = Regex::new(pattern).ok()?.captures(text)?;
    Some(found.iter().map(|g| g.map_or(String::new(), |m| m.as_str().to_string())).collect())
}

} // verus!

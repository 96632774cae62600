use vstd::prelude::*;

verus! {

/// The capture groups that `regex::Regex::captures` reports for the first match of `pattern`
/// in `haystack`: group 0, the whole match, and then every group of the pattern in the order
/// of its opening bracket, each as the text it matched or `None` where it took no part.
/// `None` as a whole where the pattern does not compile or nothing matches.
pub uninterp spec fn regex_captures(pattern: Seq<char>, haystack: Seq<char>) -> Option<
    Seq<Option<Seq<char>>>,
>;

/// The texts of a list of capture groups.
pub open spec fn groups_view(groups: Seq<Option<String>>) -> Seq<Option<Seq<char>>> {
    Seq::new(
        groups.len(),
        |i: int|
            match groups[i] {
                Some(text) => Some(text@),
                None => None,
            },
    )
}

/// Compiles `pattern` with `regex::Regex::new`, searches `haystack` with
/// `regex::Regex::captures`, and copies out the text of every group that
/// `regex::Captures::iter` yields, as `regex::Match::as_str` gives it.
///
/// Trusted: the result is exactly what the regex crate computes for these two texts, which
/// `regex_captures` names. Nothing else is claimed of it: not that there are groups, nor
/// that a group is part of the haystack.
#[verifier::external_body]
pub(crate) fn captures(pattern: &str, haystack: &str) -> (r: Option<Vec<Option<String>>>)
    ensures
        r matches Some(groups) ==> regex_captures(pattern@, haystack@) == Some(
            groups_view(groups@),
        ),
        r is None ==> regex_captures(pattern@, haystack@) is None,
{
    let re = regex::Regex::new(pattern).ok()?;
    let found = re.captures(haystack)?;
    Some(found.iter().map(|group| group.map(|m| m.as_str().to_string())).collect())
}

} // verus!

//! Pattern matching on protocol lines, delegated to the `regex` crate.

use vstd::prelude::*;

verus! {

/// The capture groups that the pattern `pattern` yields on `text`: `None`
/// when the pattern does not compile or matches nowhere in `text`;
/// otherwise one entry per group of the leftmost match, group 0 being the
/// whole match, with `None` for a group that took no part in it.
pub uninterp spec fn regex_captures(pattern: Seq<char>, text: Seq<char>) -> Option<
    Seq<Option<Seq<char>>>,
>;

/// View of a list of optional group texts.
pub open spec fn groups_view(groups: Seq<Option<String>>) -> Seq<Option<Seq<char>>> {
    groups.map_values(
        |g: Option<String>|
            match g {
                Some(s) => Some(s@),
                None => None,
            },
    )
}

/// View of the outcome of a search.
pub open spec fn captures_view(caps: Option<Vec<Option<String>>>) -> Option<
    Seq<Option<Seq<char>>>,
> {
    match caps {
        Some(groups) => Some(groups_view(groups@)),
        None => None,
    }
}

/// The text of group `index`, where the search matched and that group took
/// part in the match.
pub open spec fn group_text(caps: Option<Seq<Option<Seq<char>>>>, index: int) -> Option<
    Seq<char>,
> {
    match caps {
        Some(groups) => if 0 <= index < groups.len() {
            groups[index]
        } else {
            None
        },
        None => None,
    }
}

/// Compiles `pattern` with `regex::Regex::new` and searches `text` with
/// `Regex::captures`. Not proved: that the value handed back is what those
/// two calls produce, each group copied out as an owned string in the order
/// of `Captures::iter`. A pattern that `Regex::new` rejects counts as no
/// match. The pattern is compiled anew at every call.
#[verifier::external_body]
pub(crate) fn search(pattern: &str, text: &str) -> (caps: Option<Vec<Option<String>>>)
    ensures
        captures_view(caps) == regex_captures(pattern@, text@),
{
    let re = regex::Regex::new(pattern).ok()?;
    re.captures(text).map(|found| found.iter().map(|m| m.map(|m| m.as_str().to_string())).collect())
}

/// Copies out the text of group `index`.
pub fn group(caps: &Option<Vec<Option<String>>>, index: usize) -> (r: Option<String>)
    ensures
        match r {
            Some(s) => group_text(captures_view(*caps), index as int) == Some(s@),
            None => group_text(captures_view(*caps), index as int) is None,
        },
{
    match caps {
        Some(groups) => {
            if index < groups.len() {
                match &groups[index] {
                    Some(s) => Some(s.clone()),
                    None => None,
                }
            } else {
                None
            }
        },
        None => None,
    }
}

} // verus!

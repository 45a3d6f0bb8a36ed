//! Regular expressions over lines: the one place where the library calls
//! the `regex` crate.

use vstd::prelude::*;
use crate::text::text_views;

verus! {

/// The groups of one match: one entry for each group of the expression,
/// group 0 being the whole match, and `None` for a group that took no part.
pub type Groups = Vec<Option<String>>;

/// What the expression `pattern` captures in `text`, as the `regex` crate
/// finds it: `None` where `Regex::new` rejects the pattern or
/// `Regex::captures` finds no match, and otherwise the text of every group
/// in the order of `Captures::iter`.
pub uninterp spec fn regex_captures(pattern: Seq<char>, text: Seq<char>) -> Option<
    Seq<Option<Seq<char>>>,
>;

/// The model of the groups of a match.
pub open spec fn groups_view(groups: Seq<Option<String>>) -> Seq<Option<Seq<char>>> {
    Seq::new(
        groups.len(),
        |i: int|
            match groups[i] {
                Some(text) => Some(text@),
                None => None,
            },
    )
}

/// The model of what a search found.
pub open spec fn found_view(found: Option<Groups>) -> Option<Seq<Option<Seq<char>>>> {
    match found {
        Some(groups) => Some(groups_view(groups@)),
        None => None,
    }
}

/// Group `i` of what a search found: `None` where nothing was found, where
/// the expression has no such group, or where the group took no part.
pub open spec fn group_text(found: Option<Seq<Option<Seq<char>>>>, i: int) -> Option<Seq<char>> {
    match found {
        Some(groups) => if 0 <= i < groups.len() {
            groups[i]
        } else {
            None
        },
        None => None,
    }
}

/// Compiles `pattern` with `Regex::new` and searches every text with
/// `Regex::captures`.
///
/// Trusted: the result has one entry for each text, and the entry is what
/// [`regex_captures`] names for the pattern and that text. Nothing is
/// claimed about which texts match.
#[verifier::external_body]
pub(crate) fn captures_each(pattern: &str, texts: &Vec<String>) -> (found: Vec<Option<Groups>>)
    ensures
        found@.len() == texts@.len(),
        forall|i: int|
            0 <= i < texts@.len() ==> found_view(#[trigger] found@[i]) == regex_captures(
                pattern@,
                texts@[i]@,
            ),
{
    let compiled = regex::Regex::new(pattern).ok();
    texts.iter().map(|text| {
        let caps = compiled.as_ref().and_then(|re| re.captures(text));
        caps.map(|c| c.iter().map(|g| g.map(|m| m.as_str().to_string())).collect())
    }).collect()
}

/// Group `i` of what a search found.
pub fn group_of(found: &Option<Groups>, i: usize) -> (text: Option<&String>)
    ensures
        match text {
            Some(t) => group_text(found_view(*found), i as int) == Some(t@),
            None => group_text(found_view(*found), i as int) is None,
        },
{
    match found {
        Some(groups) => {
            if i < groups.len() {
                match &groups[i] {
                    Some(t) => Some(t),
                    None => None,
                }
            } else {
                None
            }
        },
        None => None,
    }
}

} // verus!

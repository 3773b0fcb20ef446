//! The regular-expression engine behind shapes and word splitting.
//!
//! Matching is done by the `regex` crate. Nothing here is proved about the
//! engine: what it returns is given a name, and the rest of the library is
//! verified against those names.

use regex::Regex;
use vstd::prelude::*;

verus! {

/// One capture group of a match: the group's name, where it has one, and
/// the text it matched, where it took part in the match.
pub type Group = (Option<Seq<char>>, Option<Seq<char>>);

/// Whether `regex::Regex::new` accepts `pattern`.
pub uninterp spec fn regex_compiles(pattern: Seq<char>) -> bool;

/// The capture groups that `regex::Regex::captures` reports for the
/// leftmost match of `pattern` in `text`, in the order of the groups in the
/// pattern (group 0, the whole match, first); `None` where `pattern` does
/// not match `text`.
pub uninterp spec fn regex_captures(pattern: Seq<char>, text: Seq<char>) -> Option<Seq<Group>>;

/// The pieces that `regex::Regex::split` yields for `text`, in order: the
/// stretches of `text` before and between the matches of `pattern`, and the
/// stretch behind the last match unless that stretch is empty. An empty
/// text has no pieces.
pub uninterp spec fn regex_pieces(pattern: Seq<char>, text: Seq<char>) -> Seq<Seq<char>>;

/// The plain value of one capture group as the engine hands it out.
pub open spec fn group_view(g: (Option<String>, Option<&str>)) -> Group {
    (
        match g.0 {
            Some(name) => Some(name@),
            None => None,
        },
        match g.1 {
            Some(text) => Some(text@),
            None => None,
        },
    )
}

/// The plain values of a list of capture groups.
pub open spec fn groups_view(gs: Seq<(Option<String>, Option<&str>)>) -> Seq<Group> {
    gs.map_values(|g: (Option<String>, Option<&str>)| group_view(g))
}

/// What a pattern captures in a text, for the library: a pattern that the
/// engine rejects matches nothing.
pub open spec fn captures_of(pattern: Seq<char>, text: Seq<char>) -> Option<Seq<Group>> {
    if regex_compiles(pattern) {
        regex_captures(pattern, text)
    } else {
        None
    }
}

/// Compiles `pattern` with `regex::Regex::new` and runs
/// `regex::Regex::captures` on `text`. The groups are paired with their
/// names from `Regex::capture_names`, which lists them in the same order.
///
/// Trusted: the outer `Option` is `Some` exactly when the pattern compiles;
/// the inner one is the engine's answer, named `regex_captures`.
#[verifier::external_body]
pub(crate) fn captures<'t>(pattern: &str, text: &'t str) -> (r: Option<
    Option<Vec<(Option<String>, Option<&'t str>)>>,
>)
    ensures
        r is Some <==> regex_compiles(pattern@),
        r matches Some(found) ==> match found {
            Some(gs) => regex_captures(pattern@, text@) == Some(groups_view(gs@)),
            None => regex_captures(pattern@, text@) is None,
        },
{
    let re = Regex::new(pattern).ok()?;
    Some(re.captures(text).map(|c| {
        re.capture_names().zip(c.iter())
            .map(|(n, m)| (n.map(|s| s.to_string()), m.map(|m| m.as_str())))
            .collect()
    }))
}

/// Compiles `pattern` with `regex::Regex::new` and collects what
/// `regex::Regex::split` yields for `text`.
///
/// Trusted: the result is `Some` exactly when the pattern compiles, and then
/// holds the engine's pieces, named `regex_pieces`, in order.
#[verifier::external_body]
pub(crate) fn split<'t>(pattern: &str, text: &'t str) -> (r: Option<Vec<&'t str>>)
    ensures
        r is Some <==> regex_compiles(pattern@),
        r matches Some(pieces) ==> crate::text::slice_views(pieces@) == regex_pieces(
            pattern@,
            text@,
        ),
{
    let re = Regex::new(pattern).ok()?;
    Some(re.split(text).collect())
}

} // verus!

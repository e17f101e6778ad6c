use crate::text::on_boundary;
use vstd::prelude::*;

verus! {

/// Whether the regular-expression engine accepts `pattern`.
pub uninterp spec fn pattern_compiles(pattern: Seq<char>) -> bool;

/// The successive non-overlapping matches of `pattern` in `text`, leftmost
/// first. Each match lists its groups as byte offsets `(start, end)` into the
/// UTF-8 encoding of `text`; group 0 is the whole match, and a group that took
/// no part in the match is `None`.
pub uninterp spec fn captures_of(pattern: Seq<char>, text: Seq<char>) -> Seq<Seq<Option<(usize, usize)>>>;

/// Every group of one match lies between two character boundaries of `text`.
pub open spec fn groups_fit(text: Seq<char>, groups: Seq<Option<(usize, usize)>>) -> bool {
    forall|j: int|
        0 <= j < groups.len() ==> (#[trigger] groups[j] matches Some(span) ==> span.0 <= span.1
            && on_boundary(text, span.0 as int) && on_boundary(text, span.1 as int))
}

/// What the engine guarantees of the offsets it reports for `text`: every
/// match has its group 0, every group lies between two character boundaries,
/// and a match begins no earlier than the one before it ends.
pub open spec fn spans_fit(text: Seq<char>, matches: Seq<Seq<Option<(usize, usize)>>>) -> bool {
    &&& forall|i: int|
        0 <= i < matches.len() ==> (#[trigger] matches[i]).len() >= 1 && matches[i][0] is Some
            && groups_fit(text, matches[i])
    &&& forall|i: int, k: int|
        0 <= i < k < matches.len() ==> #[trigger] match_end(matches[i]) <= #[trigger] match_start(
            matches[k],
        )
}

/// The byte offset at which a match begins.
pub open spec fn match_start(groups: Seq<Option<(usize, usize)>>) -> int {
    match groups[0] {
        Some((start, _)) => start as int,
        None => 0,
    }
}

/// The byte offset just behind a match.
pub open spec fn match_end(groups: Seq<Option<(usize, usize)>>) -> int {
    match groups[0] {
        Some((_, end)) => end as int,
        None => 0,
    }
}

/// Calls `regex::Regex::new` on `pattern` and, where it compiles,
/// `regex::Regex::captures_iter` on `text`, handing out every group of every
/// match as a pair of byte offsets. Trusted: that the outcome is a function of
/// the two strings, and that the offsets are ordered, lie inside `text` and
/// fall on character boundaries, as the engine documents.
#[verifier::external_body]
pub(crate) fn capture_spans(pattern: &str, text: &str) -> (r: Option<Vec<Vec<Option<(usize, usize)>>>>)
    ensures
        r is Some <==> pattern_compiles(pattern@),
        r matches Some(v) ==> v.deep_view() == captures_of(pattern@, text@) && spans_fit(
            text@,
            v.deep_view(),
        ),
{
    match regex::Regex::new(pattern) {
        Ok(re) => Some(
            re.captures_iter(text).map(
                |caps| caps.iter().map(|g| g.map(|m| (m.start(), m.end()))).collect(),
            ).collect(),
        ),
        Err(_) => None,
    }
}

/// The matches of `pattern` in `text`; none where the engine does not accept
/// the pattern.
pub open spec fn matches_of(pattern: Seq<char>, text: Seq<char>) -> Seq<Seq<Option<(usize, usize)>>> {
    if pattern_compiles(pattern) {
        captures_of(pattern, text)
    } else {
        seq![]
    }
}

/// Finds the matches of `pattern` in `text`, leftmost first. A pattern that
/// the engine does not accept matches nowhere.
pub fn find_matches(pattern: &str, text: &str) -> (r: Vec<Vec<Option<(usize, usize)>>>)
    ensures
        r.deep_view() == matches_of(pattern@, text@),
        spans_fit(text@, r.deep_view()),
{
    match capture_spans(pattern, text) {
        Some(matches) => matches,
        None => {
            let none: Vec<Vec<Option<(usize, usize)>>> = Vec::new();
            assert(none.deep_view() =~= Seq::<Seq<Option<(usize, usize)>>>::empty());
            none
        },
    }
}

} // verus!

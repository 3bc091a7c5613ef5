//! The fuzzy matcher that ranks windows against the query: the clangd
//! algorithm of `fuzzy-matcher`.

use fuzzy_matcher::clangd::ClangdMatcher;
use fuzzy_matcher::FuzzyMatcher;
use vstd::prelude::*;

verus! {

/// The longest text, in characters, that the switcher hands to the matcher:
/// well below the lengths at which the matcher's scores could reach its
/// "awful" sentinel of -2^30 and its backtracking would underflow.
pub const MAX_MATCH_TEXT_CHARS: usize = 8_000_000;

/// `c` with ASCII upper-case letters made lower case, as a code point.
pub open spec fn ascii_lower(c: char) -> int {
    let u = c as u32;
    if 65 <= u <= 90 {
        u + 32
    } else {
        u as int
    }
}

/// `char::eq_ignore_ascii_case`.
pub open spec fn same_ignoring_ascii_case(a: char, b: char) -> bool {
    ascii_lower(a) == ascii_lower(b)
}

/// The characters of `pattern` occur in `text` in order, comparing without
/// regard to ASCII case (the greedy scan that the matcher does first).
pub open spec fn is_fuzzy_subsequence(text: Seq<char>, pattern: Seq<char>) -> bool
    decreases text.len(),
{
    if pattern.len() == 0 {
        true
    } else if text.len() == 0 {
        false
    } else if same_ignoring_ascii_case(text[0], pattern[0]) {
        is_fuzzy_subsequence(text.drop_first(), pattern.drop_first())
    } else {
        is_fuzzy_subsequence(text.drop_first(), pattern)
    }
}

/// Positions that rise strictly and all lie below `len`.
pub open spec fn positions_rise_within(positions: Seq<usize>, len: int) -> bool {
    &&& forall|k: int| 0 <= k < positions.len() ==> #[trigger] positions[k] < len
    &&& forall|k: int, l: int|
        0 <= k < l < positions.len() ==> #[trigger] positions[k] < #[trigger] positions[l]
}

/// What the clangd matcher of `fuzzy-matcher`, in its default configuration
/// (case ignored), answers for `pattern` searched in `choice`: `None` when
/// the pattern does not match, else the score and the positions (in
/// characters of `choice`) of the matched characters.
pub uninterp spec fn clangd_fuzzy_indices(choice: Seq<char>, pattern: Seq<char>) -> Option<
    (i64, Seq<usize>),
>;

/// Calls `FuzzyMatcher::fuzzy_indices` of `fuzzy_matcher::clangd::ClangdMatcher`
/// on a default-configured matcher. The contract claims that the answer is the
/// one `clangd_fuzzy_indices` names for these two strings (the matcher's
/// per-thread cache does not change its answers); that it is `None` exactly
/// when the pattern is not a case-insensitive subsequence of the choice (the
/// source returns `None` only when its greedy scan `cheap_matches` fails);
/// and that the matched positions, read back from the score table, rise
/// strictly and lie inside the choice. The score itself is not described.
/// The empty pattern is left out: with it the matcher's backtracking can
/// underflow on very long choices, and the switcher never asks for it.
#[verifier::external_body]
pub(crate) fn fuzzy_match_indices(choice: &str, pattern: &str) -> (r: Option<(i64, Vec<usize>)>)
    requires
        pattern@.len() > 0,
        choice@.len() <= MAX_MATCH_TEXT_CHARS,
    ensures
        match r {
            Some((score, positions)) => clangd_fuzzy_indices(choice@, pattern@) == Some(
                (score, positions@),
            ),
            None => clangd_fuzzy_indices(choice@, pattern@) is None,
        },
        r is Some <==> is_fuzzy_subsequence(choice@, pattern@),
        r is Some ==> positions_rise_within(r->Some_0.1@, choice@.len() as int),
{
    ClangdMatcher::default().fuzzy_indices(choice, pattern)
}

} // verus!

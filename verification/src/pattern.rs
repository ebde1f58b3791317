//! Recognition of the "not done yet" marker in exercise sources.

use vstd::prelude::*;
use crate::text::is_white_space;

verus! {

/// The marker that a learner removes once an exercise is solved:
/// a `//` (or `/`) comment line reading `I AM NOT DONE`.
pub const I_AM_DONE_REGEX: &'static str = "(?m)^\\s*//?\\s*I\\s+AM\\s+NOT\\s+DONE";

/// Whether `regex::Regex::new` accepts `pattern`: it refuses invalid
/// patterns and patterns whose compiled form would exceed its size limit.
pub uninterp spec fn regex_compiles(pattern: Seq<char>) -> bool;

/// What `Regex::is_match` answers for the regex compiled from `pattern`:
/// whether it matches somewhere in `haystack`.
pub uninterp spec fn regex_matches(pattern: Seq<char>, haystack: Seq<char>) -> bool;

/// Every character of `h` from `from` up to `to` is white space (`\s`).
pub open spec fn white_run(h: Seq<char>, from: int, to: int) -> bool {
    &&& 0 <= from <= to <= h.len()
    &&& forall|k: int| from <= k < to ==> is_white_space(#[trigger] h[k])
}

/// `h` holds `word` at position `at`.
pub open spec fn word_at(h: Seq<char>, at: int, word: Seq<char>) -> bool {
    &&& 0 <= at
    &&& at + word.len() <= h.len()
    &&& h.subrange(at, at + word.len()) == word
}

/// The marker pattern matches `h` from position `p` on: white space,
/// `/` or `//`, white space, then `I`, `AM`, `NOT`, `DONE` separated by
/// at least one white space character each.
pub open spec fn marker_at(h: Seq<char>, p: int) -> bool {
    exists|q1: int, q2: int, q3: int, q4: int, q5: int, q6: int|
        #![trigger white_run(h, p, q1), white_run(h, q2, q3), white_run(h, q3 + 1, q4), white_run(h, q4 + 2, q5), white_run(h, q5 + 3, q6)]
        {
            &&& white_run(h, p, q1)
            &&& word_at(h, q1, "/"@)
            &&& (q2 == q1 + 1 || (q2 == q1 + 2 && word_at(h, q1 + 1, "/"@)))
            &&& white_run(h, q2, q3)
            &&& word_at(h, q3, "I"@)
            &&& q4 > q3 + 1 && white_run(h, q3 + 1, q4)
            &&& word_at(h, q4, "AM"@)
            &&& q5 > q4 + 2 && white_run(h, q4 + 2, q5)
            &&& word_at(h, q5, "NOT"@)
            &&& q6 > q5 + 3 && white_run(h, q5 + 3, q6)
            &&& word_at(h, q6, "DONE"@)
        }
}

/// What the marker pattern matches, by the `regex` crate's documented
/// syntax: `(?m)^` is the start of the text or a position after `\n`, and
/// `\s` a character with the Unicode `White_Space` property.
pub open spec fn has_marker(h: Seq<char>) -> bool {
    exists|p: int| 0 <= p <= h.len() && (p == 0 || h[p - 1] == '\n') && #[trigger] marker_at(h, p)
}

/// Calls `regex::Regex::new` on `pattern` and, when that succeeds,
/// `Regex::is_match` on `haystack`. The contract claims that whether the
/// pattern is accepted depends on the pattern alone, and names the answer
/// of the match. For the marker pattern it states that `Regex::new`
/// accepts it (valid syntax, far below the default size limit) and what
/// the match answers, from the meaning the `regex` documentation gives
/// its syntax.
#[verifier::external_body]
pub(crate) fn regex_is_match(pattern: &str, haystack: &str) -> (res: Option<bool>)
    ensures
        res is Some <==> regex_compiles(pattern@),
        res matches Some(found) ==> found == regex_matches(pattern@, haystack@),
        pattern@ == I_AM_DONE_REGEX@ ==> res is Some,
        pattern@ == I_AM_DONE_REGEX@ ==> (res matches Some(found) ==> found == has_marker(haystack@)),
{
    match regex::Regex::new(pattern) {
        Ok(re) => Some(re.is_match(haystack)),
        Err(_) => None,
    }
}

/// Looks for the marker in `text`.
pub fn find_marker(text: &str) -> (found: bool)
    ensures
        found == has_marker(text@),
{
    match regex_is_match(I_AM_DONE_REGEX, text) {
        Some(found) => found,
        None => false,
    }
}

} // verus!

verus! {

/// A marker found in a piece of a text is found in the text at the
/// piece's position.
pub proof fn lemma_marker_in_larger_text(h: Seq<char>, piece: Seq<char>, st: int, p: int)
    requires
        0 <= st,
        st + piece.len() <= h.len(),
        h.subrange(st, st + piece.len()) == piece,
        marker_at(piece, p),
    ensures
        marker_at(h, st + p),
{
    let (q1, q2, q3, q4, q5, q6) = choose|q1: int, q2: int, q3: int, q4: int, q5: int, q6: int|
        #![trigger white_run(piece, p, q1), white_run(piece, q2, q3), white_run(piece, q3 + 1, q4), white_run(piece, q4 + 2, q5), white_run(piece, q5 + 3, q6)]
        {
            &&& white_run(piece, p, q1)
            &&& word_at(piece, q1, "/"@)
            &&& (q2 == q1 + 1 || (q2 == q1 + 2 && word_at(piece, q1 + 1, "/"@)))
            &&& white_run(piece, q2, q3)
            &&& word_at(piece, q3, "I"@)
            &&& q4 > q3 + 1 && white_run(piece, q3 + 1, q4)
            &&& word_at(piece, q4, "AM"@)
            &&& q5 > q4 + 2 && white_run(piece, q4 + 2, q5)
            &&& word_at(piece, q5, "NOT"@)
            &&& q6 > q5 + 3 && white_run(piece, q5 + 3, q6)
            &&& word_at(piece, q6, "DONE"@)
        };
    assert forall|a: int, b: int| white_run(piece, a, b) implies white_run(h, st + a, st + b) by {
        assert forall|k: int| st + a <= k < st + b implies is_white_space(#[trigger] h[k]) by {
            assert(h[k] == piece[k - st]);
        }
    }
    assert forall|a: int, w: Seq<char>| word_at(piece, a, w) implies word_at(h, st + a, w) by {
        assert(h.subrange(st + a, st + a + w.len()) =~= piece.subrange(a, a + w.len()));
    }
    assert(white_run(h, st + p, st + q1));
    assert(word_at(h, st + q1, "/"@));
    assert(q2 == q1 + 1 || (q2 == q1 + 2 && word_at(h, st + q1 + 1, "/"@)));
    assert(white_run(h, st + q2, st + q3));
    assert(word_at(h, st + q3, "I"@));
    assert(white_run(h, st + q3 + 1, st + q4));
    assert(word_at(h, st + q4, "AM"@));
    assert(white_run(h, st + q4 + 2, st + q5));
    assert(word_at(h, st + q5, "NOT"@));
    assert(white_run(h, st + q5 + 3, st + q6));
    assert(word_at(h, st + q6, "DONE"@));
    let (r1, r2, r3, r4, r5, r6) = (st + q1, st + q2, st + q3, st + q4, st + q5, st + q6);
    assert(white_run(h, st + p, r1) && white_run(h, r2, r3) && white_run(h, r3 + 1, r4)
        && white_run(h, r4 + 2, r5) && white_run(h, r5 + 3, r6));
}

} // verus!

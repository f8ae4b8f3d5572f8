//! Fuzzy string similarity for Korean text.
//!
//! The library computes a weighted edit distance between two strings and a
//! normalized fuzzy-containment score of a short needle inside a longer
//! haystack.  Korean characters that are related (identical leading
//! consonant, or the same syllable up to the trailing consonant) count as
//! near-matches instead of full substitutions.
//!
//! All scores are exact integers in hundredths of an edit step: an
//! insertion, a deletion or a plain substitution costs [`UNIT`] (100), and
//! a substitution between similar Korean characters costs [`NEAR`] (1).
//! [`distance`] returns the distance in those hundredths, and [`matches`]
//! returns the containment score as the exact rational [`Score`]; a caller
//! who wants one edit step per unit divides by 100.
use vstd::prelude::*;

pub mod korean;

verus! {

use crate::korean::{
    is_consonant_spec, is_korean_spec, is_similar_spec, has_final_spec,
    is_consonant, is_korean, is_similar, has_final,
    lemma_similar_symmetric,
};
use vstd::pervasive::VecAdditionalExecFns;
use vstd::string::StrSliceExecFns;

/// Cost of one insertion, deletion, or full substitution, in hundredths.
pub const UNIT: u64 = 100;

/// Cost of a substitution between similar Korean characters, in
/// hundredths.  Strictly between zero and a full step, so a partial
/// Korean match is cheaper than a substitution but never free.
pub const NEAR: u64 = 1;

/// Largest character count the distance computation accepts; keeps every
/// intermediate cost comfortably inside a machine word.
pub const MAX_CHARS: usize = 268435456;

/// What the characters of a string become under Unicode lower-casing.
pub uninterp spec fn lower_of(s: Seq<char>) -> Seq<char>;

/// Relies on str::to_lowercase: the lowercase mapping of a string depends
/// on its characters alone, and every character lowercases to at least
/// one character, so the result is empty exactly for the empty string.
#[verifier::external_body]
fn lowercase(s: &str) -> (r: String)
    ensures
        r@ == lower_of(s@),
        r@.len() == 0 <==> s@.len() == 0,
{
    s.to_lowercase()
}

/// The character sequence a comparison runs on: the string itself when
/// case-sensitive, its lower-cased form otherwise.
pub open spec fn fold_spec(s: Seq<char>, case_sensitive: bool) -> Seq<char> {
    if case_sensitive {
        s
    } else {
        lower_of(s)
    }
}

/// Substitution cost between two characters, in hundredths: free for equal
/// characters, [`NEAR`] for distinct but similar Korean characters, a full
/// [`UNIT`] otherwise.
pub open spec fn sub_cost(x: char, y: char) -> int {
    if x == y {
        0
    } else if is_korean_spec(x) && is_korean_spec(y) && is_similar_spec(x, y) {
        NEAR as int
    } else {
        UNIT as int
    }
}

/// The least of three costs.
pub open spec fn min3(x: int, y: int, z: int) -> int {
    if x <= y && x <= z {
        x
    } else if y <= z {
        y
    } else {
        z
    }
}

/// Weighted edit distance between two character sequences, in hundredths:
/// the classic Levenshtein recurrence with insertions and deletions at a
/// full [`UNIT`] and substitutions at [`sub_cost`].
pub open spec fn edit_dist(a: Seq<char>, b: Seq<char>) -> int
    decreases a.len(), b.len(),
{
    if a.len() == 0 {
        UNIT as int * b.len() as int
    } else if b.len() == 0 {
        UNIT as int * a.len() as int
    } else {
        min3(
            edit_dist(a.drop_last(), b) + UNIT as int,
            edit_dist(a, b.drop_last()) + UNIT as int,
            edit_dist(a.drop_last(), b.drop_last()) + sub_cost(a.last(), b.last()),
        )
    }
}

/// Law: the edit distance is non-negative and never exceeds a full step
/// per character of the longer sequence.
pub proof fn lemma_edit_dist_range(a: Seq<char>, b: Seq<char>)
    ensures
        0 <= edit_dist(a, b),
        edit_dist(a, b) <= UNIT as int * (if a.len() >= b.len() {
            a.len() as int
        } else {
            b.len() as int
        }),
    decreases a.len(), b.len(),
{
    if a.len() == 0 || b.len() == 0 {
    } else {
        lemma_edit_dist_range(a.drop_last(), b);
        lemma_edit_dist_range(a, b.drop_last());
        lemma_edit_dist_range(a.drop_last(), b.drop_last());
    }
}

/// Law: the edit distance is symmetric in its two arguments.
pub proof fn lemma_edit_dist_symmetric(a: Seq<char>, b: Seq<char>)
    ensures
        edit_dist(a, b) == edit_dist(b, a),
    decreases a.len(), b.len(),
{
    if a.len() == 0 || b.len() == 0 {
    } else {
        lemma_edit_dist_symmetric(a.drop_last(), b);
        lemma_edit_dist_symmetric(a, b.drop_last());
        lemma_edit_dist_symmetric(a.drop_last(), b.drop_last());
        lemma_similar_symmetric(a.last(), b.last());
    }
}

/// Law: a sequence is at edit distance zero from itself.
pub proof fn lemma_edit_dist_identity(a: Seq<char>)
    ensures
        edit_dist(a, a) == 0,
    decreases a.len(),
{
    if a.len() > 0 {
        lemma_edit_dist_identity(a.drop_last());
        lemma_edit_dist_range(a.drop_last(), a);
        lemma_edit_dist_range(a, a.drop_last());
    }
}

/// A one-element shorter prefix drops exactly the element before it.
proof fn lemma_take_step(s: Seq<char>, i: int)
    requires
        1 <= i <= s.len(),
    ensures
        s.take(i).drop_last() == s.take(i - 1),
        s.take(i).last() == s[i - 1],
{
    assert(s.take(i).drop_last() =~= s.take(i - 1));
}

/// The recurrence of [`edit_dist`], phrased over prefixes as the dynamic
/// program walks them.
proof fn lemma_edit_dist_step(a: Seq<char>, b: Seq<char>, i: int, j: int)
    requires
        1 <= i <= a.len(),
        1 <= j <= b.len(),
    ensures
        edit_dist(a.take(i), b.take(j)) == min3(
            edit_dist(a.take(i - 1), b.take(j)) + UNIT as int,
            edit_dist(a.take(i), b.take(j - 1)) + UNIT as int,
            edit_dist(a.take(i - 1), b.take(j - 1)) + sub_cost(a[i - 1], b[j - 1]),
        ),
{
    lemma_take_step(a, i);
    lemma_take_step(b, j);
}

/// Substitution cost between two characters, in hundredths.
fn substitution_cost(x: &char, y: &char) -> (r: u64)
    ensures
        r as int == sub_cost(*x, *y),
{
    if *x == *y {
        0
    } else if is_korean(x) && is_korean(y) && is_similar(x, y) {
        NEAR
    } else {
        UNIT
    }
}

/// The least of three costs.
fn min3_exec(x: u64, y: u64, z: u64) -> (m: u64)
    ensures
        m as int == min3(x as int, y as int, z as int),
{
    if x <= y && x <= z {
        x
    } else if y <= z {
        y
    } else {
        z
    }
}

/// Collect the characters of a string into a vector.
fn chars_of(s: &str) -> (v: Vec<char>)
    ensures
        v@ == s@,
{
    let n = s.unicode_len();
    let mut v: Vec<char> = Vec::new();
    let mut i: usize = 0;
    while i < n
        invariant
            i <= n,
            n == s@.len(),
            v@ == s@.take(i as int),
        decreases n - i,
    {
        v.push(s.get_char(i));
        proof {
            assert(v@ =~= s@.take(i as int + 1));
        }
        i += 1;
    }
    proof {
        assert(s@.take(n as int) =~= s@);
    }
    v
}

/// Edit distance between two already-folded character sequences, in
/// hundredths, by the single-row dynamic program: one row of costs for
/// every prefix of `a`, updated once per character of `b`.
pub fn distance_folded(a: &Vec<char>, b: &Vec<char>) -> (d: u64)
    requires
        a@.len() <= MAX_CHARS,
        b@.len() <= MAX_CHARS,
    ensures
        d as int == edit_dist(a@, b@),
{
    let a_len = a.len();
    let b_len = b.len();
    let mut column: Vec<u64> = Vec::new();
    let mut i: usize = 0;
    while i <= a_len
        invariant
            i <= a_len + 1,
            a_len == a@.len(),
            a@.len() <= MAX_CHARS,
            column@.len() == i,
            forall|k: int| 0 <= k < i ==> column@[k] == 100 * k,
        decreases a_len + 1 - i,
    {
        column.push((i as u64) * 100);
        i += 1;
    }
    let mut j: usize = 0;
    while j < b_len
        invariant
            j <= b_len,
            a_len == a@.len(),
            b_len == b@.len(),
            a@.len() <= MAX_CHARS,
            b@.len() <= MAX_CHARS,
            column@.len() == a_len + 1,
            forall|k: int|
                0 <= k <= a_len ==> column@[k] == edit_dist(a@.take(k), b@.take(j as int)),
        decreases b_len - j,
    {
        let b_char = b[j];
        column.set(0, (j as u64 + 1) * 100);
        let mut lastdiag: u64 = (j as u64) * 100;
        let mut ai: usize = 0;
        while ai < a_len
            invariant
                ai <= a_len,
                j < b_len,
                a_len == a@.len(),
                b_len == b@.len(),
                a@.len() <= MAX_CHARS,
                b@.len() <= MAX_CHARS,
                b_char == b@[j as int],
                column@.len() == a_len + 1,
                lastdiag as int == edit_dist(a@.take(ai as int), b@.take(j as int)),
                forall|k: int|
                    0 <= k <= ai ==> column@[k] == edit_dist(a@.take(k), b@.take(j as int + 1)),
                forall|k: int|
                    ai < k <= a_len ==> column@[k] == edit_dist(a@.take(k), b@.take(j as int)),
            decreases a_len - ai,
        {
            let a_char = a[ai];
            let olddiag = column[ai + 1];
            let sub = substitution_cost(&a_char, &b_char);
            proof {
                lemma_edit_dist_step(a@, b@, ai as int + 1, j as int + 1);
                lemma_edit_dist_range(a@.take(ai as int + 1), b@.take(j as int + 1));
                lemma_edit_dist_range(a@.take(ai as int), b@.take(j as int + 1));
                lemma_edit_dist_range(a@.take(ai as int + 1), b@.take(j as int));
                lemma_edit_dist_range(a@.take(ai as int), b@.take(j as int));
            }
            let updated = min3_exec(olddiag + 100, column[ai] + 100, lastdiag + sub);
            column.set(ai + 1, updated);
            lastdiag = olddiag;
            ai += 1;
        }
        j += 1;
    }
    proof {
        assert(a@.take(a_len as int) =~= a@);
        assert(b@.take(b_len as int) =~= b@);
    }
    column[a_len]
}

/// Whether [`distance`] has a result for these inputs: the sequences the
/// dynamic program would run on stay within [`MAX_CHARS`].
pub open spec fn distance_defined(a: Seq<char>, b: Seq<char>, case_sensitive: bool) -> bool {
    if a.len() == 0 || b.len() == 0 {
        a.len() <= MAX_CHARS && b.len() <= MAX_CHARS
    } else {
        fold_spec(a, case_sensitive).len() <= MAX_CHARS && fold_spec(
            b,
            case_sensitive,
        ).len() <= MAX_CHARS
    }
}

/// What [`distance`] returns, in hundredths: against an empty string, a
/// full step per character of the other input; otherwise the weighted
/// edit distance of the two folded sequences.
pub open spec fn distance_spec(a: Seq<char>, b: Seq<char>, case_sensitive: bool) -> int {
    if a.len() == 0 || b.len() == 0 {
        if a.len() >= b.len() {
            UNIT as int * a.len() as int
        } else {
            UNIT as int * b.len() as int
        }
    } else {
        edit_dist(fold_spec(a, case_sensitive), fold_spec(b, case_sensitive))
    }
}

/// Law: the distance is never negative.
pub proof fn lemma_distance_nonneg(a: Seq<char>, b: Seq<char>, case_sensitive: bool)
    ensures
        distance_spec(a, b, case_sensitive) >= 0,
{
    if a.len() != 0 && b.len() != 0 {
        lemma_edit_dist_range(fold_spec(a, case_sensitive), fold_spec(b, case_sensitive));
    }
}

/// Law: the distance from any string to itself is zero, whatever the
/// case-sensitivity.
pub proof fn lemma_distance_identity(a: Seq<char>, case_sensitive: bool)
    ensures
        distance_spec(a, a, case_sensitive) == 0,
{
    if a.len() > 0 {
        lemma_edit_dist_identity(fold_spec(a, case_sensitive));
    }
}

/// Law: the distance is symmetric in its two strings.
pub proof fn lemma_distance_symmetric(a: Seq<char>, b: Seq<char>, case_sensitive: bool)
    ensures
        distance_spec(a, b, case_sensitive) == distance_spec(b, a, case_sensitive),
        distance_defined(a, b, case_sensitive) == distance_defined(b, a, case_sensitive),
{
    if a.len() != 0 && b.len() != 0 {
        lemma_edit_dist_symmetric(fold_spec(a, case_sensitive), fold_spec(b, case_sensitive));
    }
}

/// Law: against the empty string, the distance is a full step per
/// character of the other string.
pub proof fn lemma_distance_empty(s: Seq<char>, case_sensitive: bool)
    ensures
        distance_spec(Seq::<char>::empty(), s, case_sensitive) == UNIT as int * s.len() as int,
        distance_spec(s, Seq::<char>::empty(), case_sensitive) == UNIT as int * s.len() as int,
{
}

/// Bound used when narrowing a distance into a machine word.
proof fn lemma_distance_spec_bound(a: Seq<char>, b: Seq<char>, case_sensitive: bool)
    requires
        distance_defined(a, b, case_sensitive),
    ensures
        0 <= distance_spec(a, b, case_sensitive) <= UNIT as int * MAX_CHARS as int,
{
    if a.len() != 0 && b.len() != 0 {
        lemma_edit_dist_range(fold_spec(a, case_sensitive), fold_spec(b, case_sensitive));
    }
}

/// Calculate the Levenshtein distance between two strings, Korean-aware,
/// in hundredths of an edit step.
///
/// If either string is empty the distance is a full step per character of
/// the other, with no case folding.  Otherwise both strings are folded
/// (lower-cased) unless `case_sensitive`, and the weighted edit distance
/// of the folded strings is returned.  `None` only when an input (after
/// folding) exceeds [`MAX_CHARS`] characters.
pub fn distance(a: &str, b: &str, case_sensitive: bool) -> (r: Option<u64>)
    ensures
        r is Some <==> distance_defined(a@, b@, case_sensitive),
        r matches Some(d) ==> d as int == distance_spec(a@, b@, case_sensitive),
{
    let av = chars_of(a);
    let bv = chars_of(b);
    if av.len() == 0 || bv.len() == 0 {
        if av.len() <= MAX_CHARS && bv.len() <= MAX_CHARS {
            let m = if av.len() >= bv.len() {
                av.len()
            } else {
                bv.len()
            };
            Some((m as u64) * 100)
        } else {
            None
        }
    } else {
        let fa: Vec<char>;
        let fb: Vec<char>;
        if case_sensitive {
            fa = av;
            fb = bv;
        } else {
            let la = lowercase(a);
            let lb = lowercase(b);
            fa = chars_of(la.as_str());
            fb = chars_of(lb.as_str());
        }
        if fa.len() <= MAX_CHARS && fb.len() <= MAX_CHARS {
            Some(distance_folded(&fa, &fb))
        } else {
            None
        }
    }
}

/// The needle character demands an exact match in the containment scan:
/// it is not Korean at all, or it is a syllable with a trailing consonant.
pub open spec fn needs_exact(nc: char) -> bool {
    !is_korean_spec(nc) || has_final_spec(nc)
}

/// Whether a haystack character counts as a match for a needle character:
/// exact equality where [`needs_exact`]; otherwise a bare consonant must
/// be identical, and anything else must be similar to the needle.
pub open spec fn char_match_spec(nc: char, hc: char) -> bool {
    if needs_exact(nc) {
        hc == nc
    } else {
        (is_consonant_spec(hc) && hc == nc) || (!is_consonant_spec(hc) && is_similar_spec(hc, nc))
    }
}

/// Index of the first character of `h` at or after `from` that matches
/// `nc`, or -1 when none does.
pub open spec fn first_match_from(h: Seq<char>, from: int, nc: char) -> int
    decreases h.len() - from,
{
    if from < 0 || from >= h.len() {
        -1
    } else if char_match_spec(nc, h[from]) {
        from
    } else {
        first_match_from(h, from + 1, nc)
    }
}

/// The greedy containment scan from needle position `i`, with the next
/// search starting at haystack index `skip`.  After a match at index `j`,
/// the scan resumes at `j + 1`, immediately past the matched character,
/// so matches are ordered and no haystack character is reused.
pub open spec fn contained_from(n: Seq<char>, h: Seq<char>, i: int, skip: int) -> bool
    decreases n.len() - i,
{
    if i < 0 || i >= n.len() {
        true
    } else {
        let j = first_match_from(h, skip, n[i]);
        if j < 0 {
            false
        } else {
            contained_from(n, h, i + 1, j + 1)
        }
    }
}

/// Every needle character finds, in left-to-right order, its own matching
/// haystack character under the greedy leftmost scan: a subsequence test,
/// not a substring test.
pub open spec fn contained_spec(n: Seq<char>, h: Seq<char>) -> bool {
    contained_from(n, h, 0, 0)
}

/// Whether a haystack character counts as a match for a needle character.
fn char_match(nc: &char, hc: &char) -> (r: bool)
    ensures
        r == char_match_spec(*nc, *hc),
{
    if !is_korean(nc) || has_final(nc) {
        *hc == *nc
    } else {
        (is_consonant(hc) && *hc == *nc) || (!is_consonant(hc) && is_similar(hc, nc))
    }
}

/// Scan the haystack from index `from` for the first character matching
/// `nc`.
fn find_match_from(h: &Vec<char>, from: usize, nc: &char) -> (r: Option<usize>)
    ensures
        r matches Some(p) ==> p == first_match_from(h@, from as int, *nc) && from <= p < h@.len(),
        r is None ==> first_match_from(h@, from as int, *nc) == -1,
{
    let mut j: usize = from;
    while j < h.len()
        invariant
            from <= j,
            first_match_from(h@, from as int, *nc) == first_match_from(h@, j as int, *nc),
        decreases h@.len() - j,
    {
        if char_match(nc, &h[j]) {
            return Some(j);
        }
        j += 1;
    }
    None
}

/// The greedy containment scan over two folded character sequences.
fn contained_exec(n: &Vec<char>, h: &Vec<char>) -> (r: bool)
    ensures
        r == contained_spec(n@, h@),
{
    let mut i: usize = 0;
    let mut skip: usize = 0;
    while i < n.len()
        invariant
            i <= n@.len(),
            contained_spec(n@, h@) == contained_from(n@, h@, i as int, skip as int),
        decreases n@.len() - i,
    {
        let nc = n[i];
        match find_match_from(h, skip, &nc) {
            Some(p) => {
                let h_len = h.len();
                assert(skip <= p && p < h_len);
                skip = p + 1;
                i += 1;
            },
            None => {
                return false;
            },
        }
    }
    true
}

/// A fuzzy-containment score, as the exact rational `num / den`.
///
/// `den` is 100 times the haystack's character count (or 1 for the plain
/// zero score), and `num` is `den` minus the distance, so the quotient is
/// the score in ordinary units.  `num` is negative exactly when the
/// distance outgrows the haystack, and `den` is zero exactly when an empty
/// needle is scored against an empty haystack.
#[derive(Clone, Copy, Debug, PartialEq, Eq, Structural)]
pub struct Score {
    pub num: i64,
    pub den: u64,
}

/// Whether [`matches`] has a result for these inputs: either a phase
/// short-circuits to the zero score, or the haystack and the folded
/// sequences stay within [`MAX_CHARS`].
pub open spec fn match_defined(n: Seq<char>, h: Seq<char>, case_sensitive: bool) -> bool {
    if n.len() > h.len() {
        true
    } else if !contained_spec(fold_spec(n, case_sensitive), fold_spec(h, case_sensitive)) {
        true
    } else {
        h.len() <= MAX_CHARS && distance_defined(
            fold_spec(n, case_sensitive),
            fold_spec(h, case_sensitive),
            false,
        )
    }
}

/// Numerator of the score [`matches`] returns: zero when the needle is
/// longer than the haystack or not contained in it; otherwise 100 times
/// the haystack's character count minus the distance of the folded
/// strings (scoring always folds case).
pub open spec fn match_num(n: Seq<char>, h: Seq<char>, case_sensitive: bool) -> int {
    if n.len() > h.len() {
        0
    } else if !contained_spec(fold_spec(n, case_sensitive), fold_spec(h, case_sensitive)) {
        0
    } else {
        UNIT as int * h.len() as int - distance_spec(
            fold_spec(n, case_sensitive),
            fold_spec(h, case_sensitive),
            false,
        )
    }
}

/// Denominator of the score [`matches`] returns: 100 times the haystack's
/// character count, or 1 for the plain zero score.
pub open spec fn match_den(n: Seq<char>, h: Seq<char>, case_sensitive: bool) -> int {
    if n.len() > h.len() {
        1
    } else if !contained_spec(fold_spec(n, case_sensitive), fold_spec(h, case_sensitive)) {
        1
    } else {
        UNIT as int * h.len() as int
    }
}

/// How much of the needle is fuzzily contained in the haystack, as an
/// exact rational score; `1/1`-like (num == den) only when the two agree
/// exactly.
///
/// Phase one walks the needle in order, greedily searching the haystack
/// (folded unless `case_sensitive`) for each character under
/// [`char_match_spec`], always strictly after the previous match; any
/// miss, or a needle longer than the haystack, scores zero.  Phase two scores a contained needle by the distance of
/// the folded strings — always case-insensitive — normalized by the
/// haystack's character count.  `None` only when an input (after folding)
/// exceeds [`MAX_CHARS`] characters.
pub fn matches(needle: &str, haystack: &str, case_sensitive: bool) -> (r: Option<Score>)
    ensures
        r is Some <==> match_defined(needle@, haystack@, case_sensitive),
        r matches Some(s) ==> s.num as int == match_num(needle@, haystack@, case_sensitive),
        r matches Some(s) ==> s.den as int == match_den(needle@, haystack@, case_sensitive),
        r matches Some(s) ==> s.num as int <= s.den as int,
{
    let n_count = needle.unicode_len();
    let h_count = haystack.unicode_len();
    if n_count > h_count {
        return Some(Score { num: 0, den: 1 });
    }
    if case_sensitive {
        let nv = chars_of(needle);
        let hv = chars_of(haystack);
        if !contained_exec(&nv, &hv) {
            return Some(Score { num: 0, den: 1 });
        }
        if h_count > MAX_CHARS {
            return None;
        }
        match distance(needle, haystack, false) {
            Some(dist) => {
                proof {
                    lemma_distance_spec_bound(needle@, haystack@, false);
                }
                Some(score_from(dist, h_count))
            },
            None => None,
        }
    } else {
        let n_fold = lowercase(needle);
        let h_fold = lowercase(haystack);
        let nv = chars_of(n_fold.as_str());
        let hv = chars_of(h_fold.as_str());
        if !contained_exec(&nv, &hv) {
            return Some(Score { num: 0, den: 1 });
        }
        if h_count > MAX_CHARS {
            return None;
        }
        match distance(n_fold.as_str(), h_fold.as_str(), false) {
            Some(dist) => {
                proof {
                    lemma_distance_spec_bound(n_fold@, h_fold@, false);
                }
                Some(score_from(dist, h_count))
            },
            None => None,
        }
    }
}

/// Normalize a distance against the haystack's character count.
fn score_from(dist: u64, h_count: usize) -> (s: Score)
    requires
        dist <= UNIT * MAX_CHARS as u64,
        h_count <= MAX_CHARS,
    ensures
        s.num as int == UNIT as int * h_count as int - dist as int,
        s.den as int == UNIT as int * h_count as int,
{
    let den: u64 = (h_count as u64) * 100;
    let num: i64 = (den as i64) - (dist as i64);
    Score { num, den }
}

/// Law: a character always passes the containment predicate against
/// itself.
pub proof fn lemma_char_match_reflexive(c: char)
    ensures
        char_match_spec(c, c),
{
}

/// When some position at or after `from` matches, the scan lands between
/// `from` and that position.
proof fn lemma_first_match_found(h: Seq<char>, from: int, nc: char, pos: int)
    requires
        0 <= from <= pos < h.len(),
        char_match_spec(nc, h[pos]),
    ensures
        from <= first_match_from(h, from, nc) <= pos,
    decreases pos - from,
{
    if !char_match_spec(nc, h[from]) {
        lemma_first_match_found(h, from + 1, nc, pos);
    }
}

/// The greedy scan of a string against itself succeeds from any state in
/// which no more of the haystack has been consumed than needle characters
/// matched.
proof fn lemma_contained_self_from(s: Seq<char>, i: int, skip: int)
    requires
        0 <= i <= s.len(),
        0 <= skip <= i,
    ensures
        contained_from(s, s, i, skip),
    decreases s.len() - i,
{
    if i < s.len() {
        lemma_char_match_reflexive(s[i]);
        lemma_first_match_found(s, skip, s[i], i);
        let j = first_match_from(s, skip, s[i]);
        lemma_contained_self_from(s, i + 1, j + 1);
    }
}

/// Law: every string passes the greedy containment scan against itself.
pub proof fn lemma_contained_self(s: Seq<char>)
    ensures
        contained_spec(s, s),
{
    lemma_contained_self_from(s, 0, 0);
}

/// Law: a non-empty string matched against itself, case-sensitively,
/// scores exactly one: the numerator and denominator agree and are
/// positive.
pub proof fn lemma_matches_self(s: Seq<char>)
    requires
        s.len() > 0,
    ensures
        match_num(s, s, true) == match_den(s, s, true),
        match_den(s, s, true) > 0,
{
    lemma_contained_self(s);
    lemma_distance_identity(s, false);
}

/// Law: the containment score never exceeds one, and it is non-negative
/// whenever the distance of the folded strings does not exceed a full
/// step per haystack character (case folding that lengthens the haystack
/// can push the distance past that).
pub proof fn lemma_match_score_bounds(n: Seq<char>, h: Seq<char>, case_sensitive: bool)
    ensures
        match_num(n, h, case_sensitive) <= match_den(n, h, case_sensitive),
        distance_spec(fold_spec(n, case_sensitive), fold_spec(h, case_sensitive), false) <= UNIT
            as int * h.len() as int ==> match_num(n, h, case_sensitive) >= 0,
{
    lemma_distance_nonneg(fold_spec(n, case_sensitive), fold_spec(h, case_sensitive), false);
}

} // verus!

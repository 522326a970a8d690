//! Character sequences: decoding strings and locating literal occurrences.
//!
//! Positions and lengths are counted in characters throughout, never in bytes.

use vstd::prelude::*;

verus! {

/// `needle` stands in `hay` at character position `at`.
pub open spec fn occurs_at(hay: Seq<char>, needle: Seq<char>, at: int) -> bool {
    &&& 0 <= at
    &&& at + needle.len() <= hay.len()
    &&& hay.subrange(at, at + needle.len()) =~= needle
}

/// `needle` is a literal substring of `hay`.
pub open spec fn is_infix(hay: Seq<char>, needle: Seq<char>) -> bool {
    exists|at: int| occurs_at(hay, needle, at)
}

/// How far a scan moves on after an occurrence: past the occurrence, and by
/// one character where the needle is empty.
pub open spec fn stride(needle: Seq<char>) -> int {
    if needle.len() == 0 {
        1
    } else {
        needle.len() as int
    }
}

/// The start positions, at or after `from`, of the occurrences of `needle` in
/// `hay` that a scan from left to right meets when it never looks inside an
/// occurrence it has already taken.
pub open spec fn occurrences_from(hay: Seq<char>, needle: Seq<char>, from: int) -> Seq<int>
    decreases hay.len() - from + 1,
{
    if from < 0 || from + needle.len() > hay.len() {
        Seq::empty()
    } else if occurs_at(hay, needle, from) {
        seq![from] + occurrences_from(hay, needle, from + stride(needle))
    } else {
        occurrences_from(hay, needle, from + 1)
    }
}

/// The start positions of the non-overlapping occurrences of `needle` in
/// `hay`, leftmost first. The empty needle occurs before every character and
/// at the end.
pub open spec fn occurrences(hay: Seq<char>, needle: Seq<char>) -> Seq<int> {
    occurrences_from(hay, needle, 0)
}

/// A list of machine positions read as mathematical integers.
pub open spec fn positions(starts: Seq<usize>) -> Seq<int> {
    starts.map_values(|s: usize| s as int)
}

/// Pieces of `width` characters that start at `starts` lie inside a text of
/// `len` characters, in order and without overlap.
pub open spec fn spaced(starts: Seq<int>, width: int, len: int) -> bool {
    &&& 0 <= width
    &&& forall|k: int|
        0 <= k < starts.len() ==> 0 <= #[trigger] starts[k] && starts[k] + width <= len
    &&& forall|j: int, k: int|
        0 <= j < k < starts.len() ==> #[trigger] starts[j] + width <= #[trigger] starts[k]
}

/// Every position that `occurrences_from` lists is an occurrence at or after
/// `from`, and the occurrences listed do not overlap.
pub proof fn lemma_occurrences_from(hay: Seq<char>, needle: Seq<char>, from: int)
    requires
        0 <= from,
    ensures
        spaced(occurrences_from(hay, needle, from), needle.len() as int, hay.len() as int),
        forall|k: int|
            0 <= k < occurrences_from(hay, needle, from).len() ==> {
                &&& from <= #[trigger] occurrences_from(hay, needle, from)[k]
                &&& occurs_at(hay, needle, occurrences_from(hay, needle, from)[k])
            },
    decreases hay.len() - from + 1,
{
    if from + needle.len() > hay.len() {
    } else if occurs_at(hay, needle, from) {
        lemma_occurrences_from(hay, needle, from + stride(needle));
    } else {
        lemma_occurrences_from(hay, needle, from + 1);
    }
}

/// The occurrences of a needle lie inside the text, in order and without
/// overlap, and each of them is an occurrence.
pub proof fn lemma_occurrences_spaced(hay: Seq<char>, needle: Seq<char>)
    ensures
        spaced(occurrences(hay, needle), needle.len() as int, hay.len() as int),
        forall|k: int|
            0 <= k < occurrences(hay, needle).len() ==> occurs_at(
                hay,
                needle,
                #[trigger] occurrences(hay, needle)[k],
            ),
{
    lemma_occurrences_from(hay, needle, 0);
}

/// The scan passes over no occurrence: one that stands at or after `from` is
/// listed by the scan from `from`, or begins inside one that is listed.
pub proof fn lemma_occurrences_cover(hay: Seq<char>, needle: Seq<char>, from: int, at: int)
    requires
        0 <= from <= at,
        occurs_at(hay, needle, at),
    ensures
        exists|k: int|
            0 <= k < occurrences_from(hay, needle, from).len() && #[trigger] occurrences_from(
                hay,
                needle,
                from,
            )[k] <= at < occurrences_from(hay, needle, from)[k] + stride(needle),
    decreases at - from,
{
    let listed = occurrences_from(hay, needle, from);
    if occurs_at(hay, needle, from) {
        let next = from + stride(needle);
        if at < next {
            assert(listed[0] == from);
        } else {
            lemma_occurrences_cover(hay, needle, next, at);
            let rest = occurrences_from(hay, needle, next);
            let k = choose|k: int|
                0 <= k < rest.len() && #[trigger] rest[k] <= at < rest[k] + stride(needle);
            assert(listed[k + 1] == rest[k]);
        }
    } else {
        lemma_occurrences_cover(hay, needle, from + 1, at);
    }
}

/// A text contains a needle exactly when the list of its occurrences is not
/// empty.
pub proof fn lemma_infix_iff_occurrences(hay: Seq<char>, needle: Seq<char>)
    ensures
        is_infix(hay, needle) <==> occurrences(hay, needle).len() > 0,
{
    if is_infix(hay, needle) {
        let at = choose|at: int| occurs_at(hay, needle, at);
        lemma_occurrences_cover(hay, needle, 0, at);
    }
    if occurrences(hay, needle).len() > 0 {
        lemma_occurrences_spaced(hay, needle);
        assert(occurs_at(hay, needle, occurrences(hay, needle)[0]));
    }
}

/// Decodes a string slice into its characters.
pub fn to_chars(s: &str) -> (chars: Vec<char>)
    ensures
        chars@ == s@,
{
    let mut chars: Vec<char> = Vec::new();
    for c in it: s.chars()
        invariant
            chars@ == it.seq().take(it.index()),
            it.seq() == s@,
    {
        chars.push(c);
    }
    chars
}

/// Compares the needle with the characters of `hay` from position `at` on.
fn matches_at(hay: &Vec<char>, needle: &Vec<char>, at: usize) -> (hit: bool)
    ensures
        hit == occurs_at(hay@, needle@, at as int),
{
    if needle.len() > hay.len() || at > hay.len() - needle.len() {
        return false;
    }
    let mut k: usize = 0;
    while k < needle.len()
        invariant
            k <= needle.len(),
            at + needle.len() <= hay.len(),
            forall|j: int| 0 <= j < k ==> hay@[at + j] == needle@[j],
        decreases needle.len() - k,
    {
        if hay[at + k] != needle[k] {
            assert(hay@.subrange(at as int, at + needle.len())[k as int] == hay@[at + k]);
            return false;
        }
        k += 1;
    }
    true
}

/// `text` ends with `suffix`.
pub open spec fn ends_with(text: Seq<char>, suffix: Seq<char>) -> bool {
    occurs_at(text, suffix, text.len() - suffix.len())
}

/// Whether two strings hold the same text.
pub fn same_text(a: &str, b: &str) -> (same: bool)
    ensures
        same == (a@ == b@),
{
    let left = to_chars(a);
    let right = to_chars(b);
    if left.len() != right.len() {
        return false;
    }
    let same = matches_at(&left, &right, 0);
    assert(left@.subrange(0, left@.len() as int) =~= left@);
    same
}

/// Whether a string ends with another.
pub fn has_suffix(text: &str, suffix: &str) -> (ends: bool)
    ensures
        ends == ends_with(text@, suffix@),
{
    let chars = to_chars(text);
    let tail = to_chars(suffix);
    if tail.len() > chars.len() {
        return false;
    }
    matches_at(&chars, &tail, chars.len() - tail.len())
}

/// Literal substring test: whether `needle` occurs anywhere in `haystack`.
/// The empty needle occurs in every text.
pub fn contains(haystack: &str, needle: &str) -> (found: bool)
    ensures
        found == is_infix(haystack@, needle@),
{
    let hay = to_chars(haystack);
    let pat = to_chars(needle);
    if pat.len() == 0 {
        assert(occurs_at(hay@, pat@, 0));
        return true;
    }
    if pat.len() > hay.len() {
        return false;
    }
    let last: usize = hay.len() - pat.len();
    let mut at: usize = 0;
    while at <= last
        invariant
            at <= last + 1,
            last + pat.len() == hay.len(),
            pat.len() > 0,
            hay@ == haystack@,
            pat@ == needle@,
            forall|j: int| 0 <= j < at ==> !occurs_at(hay@, pat@, j),
        decreases last + 1 - at,
    {
        if matches_at(&hay, &pat, at) {
            return true;
        }
        at += 1;
    }
    false
}

/// Lists the character positions at which the non-overlapping occurrences of
/// `needle` in `haystack` start, leftmost first.
pub fn find_occurrences(haystack: &str, needle: &str) -> (starts: Vec<usize>)
    ensures
        positions(starts@) == occurrences(haystack@, needle@),
{
    let hay = to_chars(haystack);
    let pat = to_chars(needle);
    let mut starts: Vec<usize> = Vec::new();
    let step: usize = if pat.len() == 0 {
        1
    } else {
        pat.len()
    };
    let mut at: usize = 0;
    loop
        invariant_except_break
            at <= hay.len(),
            step == stride(pat@),
            positions(starts@) + occurrences_from(hay@, pat@, at as int) =~= occurrences(
                hay@,
                pat@,
            ),
        ensures
            positions(starts@) =~= occurrences(hay@, pat@),
        decreases hay.len() - at,
    {
        if pat.len() > hay.len() - at {
            assert(occurrences_from(hay@, pat@, at as int) =~= Seq::empty());
            break ;
        }
        if matches_at(&hay, &pat, at) {
            let ghost before = starts@;
            starts.push(at);
            assert(positions(starts@) =~= positions(before).push(at as int));
            if step > hay.len() - at {
                assert(occurrences_from(hay@, pat@, at + step) =~= Seq::empty());
                break ;
            }
            at = at + step;
        } else {
            at = at + 1;
        }
    }
    starts
}

} // verus!

//! The mathematical model of the reduction: what the minimum of a sequence is,
//! where a range is split, and how many splits a reduction performs.

use vstd::prelude::*;

verus! {

/// Ranges of at most this many elements are scanned directly; longer ones are split.
pub const THRESHOLD: usize = 10;

/// The smaller of two values.
pub open spec fn lesser(a: i32, b: i32) -> i32 {
    if a <= b {
        a
    } else {
        b
    }
}

/// The minimum found by scanning `s` from left to right, carrying the smallest
/// element seen so far.
pub open spec fn sequential_min(s: Seq<i32>) -> i32
    recommends
        s.len() > 0,
    decreases s.len(),
{
    if s.len() <= 1 {
        s[0]
    } else {
        lesser(sequential_min(s.drop_last()), s.last())
    }
}

/// `m` occurs in `s` and no element of `s` is smaller.
pub open spec fn is_minimum(s: Seq<i32>, m: i32) -> bool {
    &&& exists|i: int| 0 <= i < s.len() && s[i] == m
    &&& forall|i: int| 0 <= i < s.len() ==> m <= s[i]
}

/// The index at which a range of `len` elements is split.
pub open spec fn midpoint(len: nat) -> nat {
    len / 2
}

/// The left child of a split: the elements before the midpoint.
pub open spec fn left_half(s: Seq<i32>) -> Seq<i32> {
    s.subrange(0, midpoint(s.len()) as int)
}

/// The right child of a split: the elements from the midpoint on.
pub open spec fn right_half(s: Seq<i32>) -> Seq<i32> {
    s.subrange(midpoint(s.len()) as int, s.len() as int)
}

/// The number of splits that reducing a range of `len` elements performs:
/// none at or below the threshold, otherwise one plus those of the two halves.
pub open spec fn split_count(len: nat) -> nat
    decreases len,
{
    if len <= THRESHOLD {
        0
    } else {
        1 + split_count(midpoint(len)) + split_count((len - midpoint(len)) as nat)
    }
}

/// The sequential scan of a non-empty sequence yields an element of the
/// sequence that no other element is below.
pub proof fn lemma_sequential_min_is_minimum(s: Seq<i32>)
    requires
        s.len() > 0,
    ensures
        is_minimum(s, sequential_min(s)),
    decreases s.len(),
{
    if s.len() == 1 {
        assert(s[0] == sequential_min(s));
    } else {
        let front = s.drop_last();
        lemma_sequential_min_is_minimum(front);
        let m = sequential_min(s);
        let k = choose|i: int| 0 <= i < front.len() && front[i] == sequential_min(front);
        assert(front[k] == s[k]);
        assert(s[s.len() - 1] == s.last());
        assert(exists|i: int| 0 <= i < s.len() && s[i] == m) by {
            if m == s.last() {
                assert(s[s.len() - 1] == m);
            } else {
                assert(s[k] == m);
            }
        }
        assert forall|i: int| 0 <= i < s.len() implies m <= s[i] by {
            if i < front.len() {
                assert(front[i] == s[i]);
            }
        }
    }
}

/// A sequence has at most one minimum.
pub proof fn lemma_minimum_is_unique(s: Seq<i32>, a: i32, b: i32)
    requires
        is_minimum(s, a),
        is_minimum(s, b),
    ensures
        a == b,
{
}

/// However a sequence is cut in two non-empty parts, the smaller of the two
/// parts' minima is the minimum of the whole: no element is skipped and none
/// counts twice.
pub proof fn lemma_min_of_parts(s: Seq<i32>, cut: int)
    requires
        0 < cut < s.len(),
    ensures
        sequential_min(s) == lesser(
            sequential_min(s.subrange(0, cut)),
            sequential_min(s.subrange(cut, s.len() as int)),
        ),
{
    let left = s.subrange(0, cut);
    let right = s.subrange(cut, s.len() as int);
    let m = lesser(sequential_min(left), sequential_min(right));
    lemma_sequential_min_is_minimum(left);
    lemma_sequential_min_is_minimum(right);
    lemma_sequential_min_is_minimum(s);
    let i = choose|i: int| 0 <= i < left.len() && left[i] == sequential_min(left);
    let j = choose|j: int| 0 <= j < right.len() && right[j] == sequential_min(right);
    assert(s[i] == left[i]);
    assert(s[cut + j] == right[j]);
    assert(exists|k: int| 0 <= k < s.len() && s[k] == m) by {
        if m == sequential_min(left) {
            assert(s[i] == m);
        } else {
            assert(s[cut + j] == m);
        }
    }
    assert forall|k: int| 0 <= k < s.len() implies m <= s[k] by {
        if k < cut {
            assert(left[k] == s[k]);
        } else {
            assert(right[k - cut] == s[k]);
        }
    }
    lemma_minimum_is_unique(s, sequential_min(s), m);
}

/// A range at or below the threshold is not split at all.
pub proof fn lemma_no_split_up_to_threshold(len: nat)
    requires
        len <= THRESHOLD,
    ensures
        split_count(len) == 0,
{
}

/// A range above the threshold is split once, and then each half is reduced
/// in the same way.
pub proof fn lemma_split_count_above_threshold(len: nat)
    requires
        len > THRESHOLD,
    ensures
        split_count(len) == 1 + split_count(midpoint(len)) + split_count(
            (len - midpoint(len)) as nat,
        ),
{
}

/// A range one element longer than the threshold is split exactly once.
pub proof fn lemma_one_split_just_above_threshold()
    ensures
        split_count((THRESHOLD + 1) as nat) == 1,
{
    let len = (THRESHOLD + 1) as nat;
    lemma_no_split_up_to_threshold(midpoint(len));
    lemma_no_split_up_to_threshold((len - midpoint(len)) as nat);
}

/// A reduction performs fewer splits than the range has elements.
pub proof fn lemma_split_count_below_len(len: nat)
    ensures
        split_count(len) <= len,
        len > 0 ==> split_count(len) < len,
    decreases len,
{
    if len > THRESHOLD {
        lemma_split_count_below_len(midpoint(len));
        lemma_split_count_below_len((len - midpoint(len)) as nat);
    }
}

/// The two halves of a split partition the parent range: the left half holds
/// the indices below the midpoint, the right half all the others, in order, so
/// that every index of the parent lies in exactly one of them.
pub proof fn lemma_halves_partition(s: Seq<i32>)
    ensures
        left_half(s) + right_half(s) == s,
        left_half(s).len() + right_half(s).len() == s.len(),
        forall|i: int| 0 <= i < midpoint(s.len()) ==> left_half(s)[i] == s[i],
        forall|i: int|
            midpoint(s.len()) <= i < s.len() ==> right_half(s)[i - midpoint(s.len())] == s[i],
{
    assert(left_half(s) + right_half(s) =~= s);
}

/// Above the threshold both halves of a split are non-empty and shorter than
/// the parent range.
pub proof fn lemma_halves_are_proper(s: Seq<i32>)
    requires
        s.len() > THRESHOLD,
    ensures
        0 < left_half(s).len() < s.len(),
        0 < right_half(s).len() < s.len(),
{
}

/// A sequence of one element has that element as its minimum.
pub proof fn lemma_min_of_single(s: Seq<i32>)
    requires
        s.len() == 1,
    ensures
        sequential_min(s) == s[0],
{
}

} // verus!

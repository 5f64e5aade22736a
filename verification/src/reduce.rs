//! The reduction itself: a sequential scan for short ranges, and a recursive
//! fork-join split for long ones.

use vstd::prelude::*;
use crate::model::{
    is_minimum, lemma_halves_partition, lemma_min_of_parts, lemma_sequential_min_is_minimum,
    lemma_split_count_below_len, left_half, midpoint, right_half, sequential_min, split_count,
    THRESHOLD,
};

verus! {

/// Why a reduction produced no value.
///
/// Range bounds are proved consistent, so an empty input is the only failure.
#[derive(Clone, Copy, Debug, PartialEq, Eq, Structural)]
pub enum ReduceError {
    /// The input sequence has no elements, hence no minimum.
    EmptyInput,
}

/// The minimum of a range together with the number of splits made to find it.
#[derive(Clone, Copy, Debug, PartialEq, Eq, Structural)]
pub struct Reduction {
    pub min: i32,
    pub splits: usize,
}

/// What reducing `s` yields: its minimum, or `EmptyInput` when there is none.
pub open spec fn min_outcome(s: Seq<i32>) -> Result<i32, ReduceError> {
    if s.len() == 0 {
        Err(ReduceError::EmptyInput)
    } else {
        Ok(sequential_min(s))
    }
}

/// Scans a non-empty range from left to right.
fn scan(slice: &[i32]) -> (min: i32)
    requires
        slice@.len() > 0,
    ensures
        min == sequential_min(slice@),
{
    let mut best: i32 = slice[0];
    let mut i: usize = 1;
    assert(slice@.subrange(0, 1) =~= seq![slice@[0]]);
    while i < slice.len()
        invariant
            1 <= i <= slice@.len(),
            best == sequential_min(slice@.subrange(0, i as int)),
        decreases slice@.len() - i,
    {
        assert(slice@.subrange(0, i + 1).drop_last() =~= slice@.subrange(0, i as int));
        if slice[i] < best {
            best = slice[i];
        }
        i = i + 1;
    }
    assert(slice@.subrange(0, i as int) =~= slice@);
    best
}

/// Splits a range at its midpoint into the left and the right child range.
/// Together the two cover the parent exactly: no index is in both, none is
/// left out.
pub fn split_at_midpoint(slice: &[i32]) -> (halves: (&[i32], &[i32]))
    ensures
        halves.0@ == left_half(slice@),
        halves.1@ == right_half(slice@),
        halves.0@ + halves.1@ == slice@,
        halves.0@.len() == midpoint(slice@.len()),
        halves.0@.len() + halves.1@.len() == slice@.len(),
{
    let mid: usize = slice.len() / 2;
    proof {
        lemma_halves_partition(slice@);
    }
    slice.split_at(mid)
}

/// Reduces a non-empty range: directly at or below the threshold, otherwise by
/// reducing both halves as two joined tasks and combining their results.
fn reduce(slice: &[i32]) -> (outcome: Reduction)
    requires
        slice@.len() > 0,
    ensures
        outcome.min == sequential_min(slice@),
        outcome.splits == split_count(slice@.len()),
    decreases slice@.len(),
{
    if slice.len() <= THRESHOLD {
        Reduction { min: scan(slice), splits: 0 }
    } else {
        let (left, right) = split_at_midpoint(slice);
        let left_task = || -> (part: Reduction)
            ensures
                part.min == sequential_min(left@),
                part.splits == split_count(left@.len()),
        {
            reduce(left)
        };
        let right_task = || -> (part: Reduction)
            ensures
                part.min == sequential_min(right@),
                part.splits == split_count(right@.len()),
        {
            reduce(right)
        };
        let (from_left, from_right) = rayon::join(left_task, right_task);
        proof {
            lemma_min_of_parts(slice@, midpoint(slice@.len()) as int);
            lemma_split_count_below_len(slice@.len());
        }
        let min: i32 = if from_left.min <= from_right.min {
            from_left.min
        } else {
            from_right.min
        };
        Reduction { min, splits: 1 + from_left.splits + from_right.splits }
    }
}

/// The minimum of `slice`, found by scanning it from left to right.
///
/// Fails with `EmptyInput` exactly when `slice` is empty.
pub fn scan_min(slice: &[i32]) -> (outcome: Result<i32, ReduceError>)
    ensures
        outcome == min_outcome(slice@),
{
    if slice.len() == 0 {
        Err(ReduceError::EmptyInput)
    } else {
        Ok(scan(slice))
    }
}

/// The minimum of `slice`, found by fork-join divide and conquer; the result
/// is that of a sequential scan.
///
/// Fails with `EmptyInput` exactly when `slice` is empty.
pub fn parallel_min(slice: &[i32]) -> (outcome: Result<i32, ReduceError>)
    ensures
        outcome == min_outcome(slice@),
{
    if slice.len() == 0 {
        Err(ReduceError::EmptyInput)
    } else {
        Ok(reduce(slice).min)
    }
}

/// As `parallel_min`, and also reports how many times a range was split on
/// the way: none for an input at or below the threshold, otherwise one split
/// for the range itself plus those of its two halves.
///
/// Fails with `EmptyInput` exactly when `slice` is empty.
pub fn parallel_min_counted(slice: &[i32]) -> (outcome: Result<Reduction, ReduceError>)
    ensures
        slice@.len() == 0 ==> outcome == Err::<Reduction, ReduceError>(ReduceError::EmptyInput),
        slice@.len() > 0 ==> outcome is Ok,
        outcome matches Ok(counted) ==> counted.min == sequential_min(slice@),
        outcome matches Ok(counted) ==> counted.splits == split_count(slice@.len()),
{
    if slice.len() == 0 {
        Err(ReduceError::EmptyInput)
    } else {
        Ok(reduce(slice))
    }
}

/// Every non-empty sequence has an outcome, and it is the minimum that a
/// sequential scan finds: an element of the sequence that no element is below.
pub proof fn lemma_outcome_is_sequential_min(s: Seq<i32>)
    requires
        s.len() > 0,
    ensures
        min_outcome(s) == Ok::<i32, ReduceError>(sequential_min(s)),
        is_minimum(s, sequential_min(s)),
{
    lemma_sequential_min_is_minimum(s);
}

/// Reducing the same sequence twice gives the same outcome both times.
pub proof fn lemma_reduction_is_repeatable(
    s: Seq<i32>,
    first: Result<i32, ReduceError>,
    second: Result<i32, ReduceError>,
)
    requires
        first == min_outcome(s),
        second == min_outcome(s),
    ensures
        first == second,
{
}

} // verus!

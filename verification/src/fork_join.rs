//! The fork-join primitive that the reduction runs its two branches on.

use vstd::prelude::*;

verus! {

/// `rayon::join` runs both closures, possibly in parallel on the worker pool,
/// waits for both, and returns their results as a pair, the first closure's
/// result first. Taken on trust from its source: each closure is called
/// exactly once with no arguments, so each must be callable, and each
/// component of the pair is a result of the corresponding closure.
pub assume_specification<A, B, RA, RB>[ rayon::join::<A, B, RA, RB> ](oper_a: A, oper_b: B) -> (results: (RA, RB))
    where
        A: FnOnce() -> RA + Send,
        B: FnOnce() -> RB + Send,
        RA: Send,
        RB: Send,
    requires
        call_requires(oper_a, ()),
        call_requires(oper_b, ()),
    ensures
        call_ensures(oper_a, (), results.0),
        call_ensures(oper_b, (), results.1),
;

} // verus!

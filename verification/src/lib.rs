//! The minimum of an integer sequence by fork-join divide and conquer, proved
//! equal to a sequential scan.
//!
//! `model` says what the minimum is, where a range is split and how many
//! splits a reduction makes; `reduce` computes it, running the two halves of
//! each split through the primitive declared in `fork_join`. Beside them stand
//! a named counter (`numberinator`) and the reply to a submitted name
//! (`greeting`).

pub mod fork_join;
pub mod greeting;
pub mod model;
pub mod numberinator;
pub mod reduce;

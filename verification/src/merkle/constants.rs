//! The dimensions of the proof of membership in the tree of eligible
//! voters.
//!
//! One cycle proves one key. It starts with two permutations that hash the
//! key, and goes on with one permutation for each level of the tree.

use crate::air::spec_is_power_of_two;
use crate::rescue::HASH_CYCLE_LENGTH;
use vstd::prelude::*;

verus! {

/// Number of registers of the trace: the position bit and the hash state.
pub const TRACE_WIDTH: usize = 15;

/// The register of the position bit.
pub const POSITION_BIT: usize = 0;

/// The first register of the hash state.
pub const HASH: usize = 1;

/// The depth of the tree of eligible voters, the root not counted.
pub const TREE_DEPTH: usize = 14;

/// Number of rows of the proof of one key in a tree of depth `TREE_DEPTH`.
pub const MERKLE_CYCLE_LENGTH: usize = 128;

/// The largest depth of a tree.
pub const MAX_TREE_DEPTH: usize = 30;

/// Number of periodic columns: two flags and the round constants.
pub const NUM_PERIODIC_COLUMNS: usize = 30;

/// Number of rows of the proof of one key in a tree of depth `tree_depth`.
pub open spec fn spec_cycle_length(tree_depth: nat) -> nat {
    ((tree_depth + 2) * HASH_CYCLE_LENGTH) as nat
}

/// The depth is one that a trace can be built for: the cycle of a key is a
/// power of two of rows.
pub open spec fn spec_valid_depth(tree_depth: nat) -> bool {
    tree_depth <= MAX_TREE_DEPTH && spec_is_power_of_two(spec_cycle_length(tree_depth))
}

/// Number of rows of the proof of one key in a tree of depth `tree_depth`.
pub fn cycle_length(tree_depth: usize) -> (r: usize)
    requires
        tree_depth <= MAX_TREE_DEPTH,
    ensures
        r == spec_cycle_length(tree_depth as nat),
{
    (tree_depth + 2) * HASH_CYCLE_LENGTH
}

/// Whether a trace can be built for a tree of depth `tree_depth`.
pub fn is_valid_depth(tree_depth: usize) -> (b: bool)
    ensures
        b == spec_valid_depth(tree_depth as nat),
{
    tree_depth <= MAX_TREE_DEPTH && crate::air::is_power_of_two(cycle_length(tree_depth))
}

} // verus!

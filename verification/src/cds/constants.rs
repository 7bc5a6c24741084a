//! The dimensions of the proof of a well-formed vote, and the layout of its
//! trace.
//!
//! One cycle of 1024 rows proves one vote. It has two phases of 512 rows, one
//! for each branch of the disjunction. A phase runs five scalar
//! multiplications side by side, 255 bits in 510 rows, and ends with one row
//! that adds their results up. The challenge is hashed in the first 96 rows
//! of the cycle.

use vstd::prelude::*;

verus! {

/// Number of permutations that hash the statement and the commitments.
pub const NUM_HASH_ITER: usize = 12;

/// Number of rows that the hash of the challenge takes:
/// `HASH_CYCLE_LENGTH * NUM_HASH_ITER`.
pub const TOTAL_HASH_LENGTH: usize = 96;

/// Number of rows of a scalar multiplication: two for each of 255 bits, one
/// to double and one to add.
pub const SCALAR_MUL_LENGTH: usize = 510;

/// Number of bits of a scalar that a scalar multiplication consumes.
pub const SCALAR_BITS: usize = 255;

/// Number of registers of the trace:
/// five projective points, three bits, four limbs and the hash state.
pub const TRACE_WIDTH: usize = 111;

/// Number of rows of the proof of one vote.
pub const CDS_CYCLE_LENGTH: usize = 1024;

/// Number of rows of a phase.
pub const NROWS_PER_PHASE: usize = 512;

/// Number of curve points of a proof: `a1`, `b1`, `a2`, `b2`.
pub const PROOF_NUM_POINTS: usize = 4;

/// Number of scalars of a proof: `d1`, `d2`, `r1`, `r2`.
pub const PROOF_NUM_SCALARS: usize = 4;

/// Number of elements of the message that is hashed into the challenge:
/// `NUM_HASH_ITER * RATE_WIDTH`.
pub const HASH_MSG_LENGTH: usize = 84;

/// Number of elements of the proof points of one vote.
pub const PROOF_POINTS_WIDTH: usize = 48;

/// Number of elements of the public statement of one vote: the voting key,
/// the encrypted vote and the proof points.
pub const PROOF_WIDTH: usize = 72;

/// Number of elements of the outputs of one vote: what the computed `a1`,
/// `b1`, `a2`, `b2` differ by from the claimed ones, and the `X` and `Z` of
/// `(c - d1 - d2) * vk`.
pub const OUTPUT_WIDTH: usize = 60;

/// Number of limbs of the challenge.
pub const NUM_LIMBS: usize = 4;

// REGISTER GROUPS
// ------------------------------------------------------------------------------------------------
/// `c * vk`, then `(c - d1) * vk`, then `(c - d1 - d2) * vk`: 18 registers.
pub const C_VK: usize = 0;

/// The bit of `c` of the step.
pub const C_BIT: usize = 18;

/// `r * g`: 18 registers.
pub const R_G: usize = 19;

/// `r * bk`: 18 registers.
pub const R_BK: usize = 37;

/// The bit of `r` of the step.
pub const R_BIT: usize = 55;

/// `d * vk`: 18 registers.
pub const D_VK: usize = 56;

/// `d * (ev + G)` in the first phase, `d * (ev - G)` in the second: 18
/// registers.
pub const D_EV: usize = 74;

/// The bit of `d` of the step.
pub const D_BIT: usize = 92;

/// The limbs of `c` as they are put together from its bits: 4 registers,
/// the least significant limb first.
pub const C_LIMBS: usize = 93;

/// The hash state: 14 registers.
pub const HASH: usize = 97;

// PERIODIC COLUMNS
// ------------------------------------------------------------------------------------------------
/// Number of periodic columns before the round constants.
pub const NUM_OWN_COLUMNS: usize = 53;

/// Number of periodic columns.
pub const NUM_PERIODIC_COLUMNS: usize = 81;

/// First column of the voting key.
pub const VOTING_KEY_COLUMN: usize = 9;

/// First column of the blinding key.
pub const BLINDING_KEY_COLUMN: usize = 21;

/// First column of the encrypted vote.
pub const ENCRYPTED_VOTE_COLUMN: usize = 33;

/// The column of the hash flag.
pub const HASH_FLAG_COLUMN: usize = 45;

/// First column of the chunks of the message that enter the hash state.
pub const HASH_INPUT_COLUMN: usize = 46;

/// First column of the round constants.
pub const ARK_COLUMN: usize = 53;

} // verus!

//! The dimensions of the proof of a valid signature, and the layout of its
//! trace.
//!
//! One cycle of 512 rows proves one signature `(r_x, s)` of a voting key
//! `pk`: it computes `s * G` and `h * pk` side by side, 255 bits in 510
//! rows, adds the two up on the row after, and hashes `r_x` and the message
//! into `h` in its first 40 rows.

use vstd::prelude::*;

verus! {

/// Number of permutations that hash `r_x` and the message.
pub const NUM_HASH_ITER: usize = 5;

/// Number of rows that the hash takes: `HASH_CYCLE_LENGTH * NUM_HASH_ITER`.
pub const TOTAL_HASH_LENGTH: usize = 40;

/// Number of rows of a scalar multiplication: two for each of 255 bits.
pub const SCALAR_MUL_LENGTH: usize = 510;

/// Number of bits of a scalar that a scalar multiplication consumes.
pub const SCALAR_BITS: usize = 255;

/// Number of registers of the trace: two projective points, two bits, two
/// times four limbs and the hash state.
pub const TRACE_WIDTH: usize = 60;

/// Number of rows of the proof of one signature.
pub const SIG_CYCLE_LENGTH: usize = 512;

/// Number of elements of a signed message: the voting key, the address of
/// the voter in four elements, and zeros up to four chunks of the hash.
pub const MSG_LENGTH: usize = 28;

/// Number of bytes of an address.
pub const ADDRESS_BYTES: usize = 20;

/// Number of limbs of a scalar.
pub const NUM_LIMBS: usize = 4;

// REGISTER GROUPS
// ------------------------------------------------------------------------------------------------
/// `s * G`, and at the end of the cycle `s * G + h * pk`: 18 registers.
pub const S_G: usize = 0;

/// The bit of `s` of the step.
pub const S_BIT: usize = 18;

/// `h * pk`: 18 registers.
pub const H_PK: usize = 19;

/// The bit of `h` of the step.
pub const H_BIT: usize = 37;

/// The limbs of `s` as they are put together from its bits: 4 registers,
/// the least significant limb first.
pub const S_LIMBS: usize = 38;

/// The limbs of `h`: 4 registers, the least significant limb first.
pub const H_LIMBS: usize = 42;

/// The hash state: 14 registers.
pub const HASH: usize = 46;

// PERIODIC COLUMNS
// ------------------------------------------------------------------------------------------------
/// Number of periodic columns.
pub const NUM_PERIODIC_COLUMNS: usize = 55;

/// First column of the flags of the limbs.
pub const LIMB_FLAG_COLUMN: usize = 3;

/// First column of the voting key.
pub const VOTING_KEY_COLUMN: usize = 7;

/// The column of the hash flag.
pub const HASH_FLAG_COLUMN: usize = 19;

/// First column of the chunks of the message that enter the hash state.
pub const HASH_INPUT_COLUMN: usize = 20;

/// First column of the round constants.
pub const ARK_COLUMN: usize = 27;

/// Number of boundary assertions.
pub const NUM_ASSERTIONS: usize = 70;

} // verus!

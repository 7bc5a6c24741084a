//! The rows of the proof of membership: the first row of a cycle and the
//! rule that leads from each row to the next.

use crate::air::copy_of;
use crate::constraint::{fill_range, spec_fill_range, spec_write_range, write_range};
use crate::ecc::{AFFINE_POINT_WIDTH, POINT_COORDINATE_WIDTH};
use crate::field::Felt;
use crate::merkle::constants::{HASH, MAX_TREE_DEPTH, POSITION_BIT, TRACE_WIDTH};
use crate::rescue::{
    apply_round, spec_apply_round, Rescue, HASH_CYCLE_LENGTH, NUM_HASH_ROUNDS, RATE_WIDTH,
};
use vstd::prelude::*;

verus! {

// TRACE INITIALIZATION
// ================================================================================================

/// The first row of the cycle of a key: the `x` of the key in the hash
/// state, and zeros.
pub open spec fn spec_init_merkle_verification_state(voting_key: Seq<Felt>) -> Seq<Felt> {
    Seq::new(
        TRACE_WIDTH as nat,
        |i: int|
            if HASH <= i < HASH + POINT_COORDINATE_WIDTH {
                voting_key[i - HASH]
            } else {
                Felt::spec_zero()
            },
    )
}

/// Writes the first row of the cycle of a key.
pub fn init_merkle_verification_state(voting_key: &[Felt], state: &mut [Felt])
    requires
        voting_key.len() == AFFINE_POINT_WIDTH,
        old(state).len() == TRACE_WIDTH,
    ensures
        final(state)@ == spec_init_merkle_verification_state(voting_key@),
        final(state).len() == TRACE_WIDTH,
{
    fill_range(state, 0, TRACE_WIDTH, Felt::zero());
    write_range(state, HASH, &voting_key[0..POINT_COORDINATE_WIDTH]);
    proof {
        reveal(spec_fill_range);
        reveal(spec_write_range);
    }
    assert(state@ =~= spec_init_merkle_verification_state(voting_key@));
}

// TRANSITION FUNCTION
// ================================================================================================

/// Bit `index` of the position of a leaf.
pub open spec fn spec_position_bit(hash_index: usize, index: int) -> usize {
    (hash_index >> (index as usize)) & 1
}

/// The row that follows `state` on step `step` of the cycle of a key.
///
/// On the first seven rows of a hash cycle the hash state takes a round. On
/// the eighth the next chunk of the message enters: into the second half of
/// the state where the position bit is zero; into the first half, the digest
/// going to the second, where it is one.
pub open spec fn spec_update_merkle_verification_state(
    step: int,
    hash_message: Seq<Felt>,
    hash_index: usize,
    state: Seq<Felt>,
    rescue: Rescue,
) -> Seq<Felt> {
    if step % (HASH_CYCLE_LENGTH as int) < NUM_HASH_ROUNDS {
        spec_apply_round(state, HASH as int, step, rescue)
    } else {
        let index = step / (HASH_CYCLE_LENGTH as int);
        let bit = spec_position_bit(hash_index, index);
        let chunk = hash_message.subrange(RATE_WIDTH * index, RATE_WIDTH * (index + 1));
        let placed = if bit == 0 {
            spec_write_range(state, HASH + RATE_WIDTH, chunk)
        } else {
            spec_write_range(
                spec_write_range(
                    state,
                    HASH + RATE_WIDTH,
                    state.subrange(HASH as int, HASH + RATE_WIDTH),
                ),
                HASH as int,
                chunk,
            )
        };
        placed.update(POSITION_BIT as int, Felt::spec_new(bit as u64))
    }
}

/// Turns the row of step `step` of the cycle of a key into the row of step
/// `step + 1`.
///
/// `hash_message` holds the `y` of the key, filled up to the rate, and then
/// the siblings along the path. `hash_index` holds the position of the leaf,
/// shifted by one bit: the `y` of the key always enters the second half.
pub fn update_merkle_verification_state(
    step: usize,
    hash_message: &[Felt],
    hash_index: usize,
    state: &mut [Felt],
    rescue: &Rescue,
)
    requires
        step % HASH_CYCLE_LENGTH >= NUM_HASH_ROUNDS ==> step / HASH_CYCLE_LENGTH <= MAX_TREE_DEPTH
            && (step / HASH_CYCLE_LENGTH + 1) * RATE_WIDTH <= hash_message.len(),
        old(state).len() == TRACE_WIDTH,
    ensures
        final(state)@ == spec_update_merkle_verification_state(
            step as int,
            hash_message@,
            hash_index,
            old(state)@,
            *rescue,
        ),
        final(state).len() == TRACE_WIDTH,
{
    if step % HASH_CYCLE_LENGTH < NUM_HASH_ROUNDS {
        apply_round(state, HASH, step, rescue);
    } else {
        let index = step / HASH_CYCLE_LENGTH;
        let bit = (hash_index >> index) & 1;
        let chunk = &hash_message[RATE_WIDTH * index..RATE_WIDTH * (index + 1)];
        if bit == 0 {
            write_range(state, HASH + RATE_WIDTH, chunk);
        } else {
            let digest = copy_of(&state[HASH..HASH + RATE_WIDTH]);
            write_range(state, HASH + RATE_WIDTH, digest.as_slice());
            write_range(state, HASH, chunk);
        }
        assert(bit <= 1) by (bit_vector)
            requires
                bit == (hash_index >> index) & 1,
        ;
        state[POSITION_BIT] = Felt::new(bit as u64);
    }
}

} // verus!

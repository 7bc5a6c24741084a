//! The rows of the proof of a valid signature: the first row of a cycle and
//! the rule that leads from each row to the next.

use crate::air::copy_of;
use crate::bits::{bit_at, spec_bit_at};
use crate::cds::trace::spec_limb_of;
use crate::constraint::{
    apply_double_and_add_step, fill_range, spec_double_and_add_step, spec_fill_range,
    spec_write_range, write_range,
};
use crate::ecc::{
    apply_point_addition_mixed_bit, apply_point_doubling, compute_add, reduce_to_affine,
    spec_apply_point_addition_mixed_bit, spec_apply_point_doubling, spec_compute_add, Curve,
    Projective, AFFINE_POINT_WIDTH, POINT_COORDINATE_WIDTH, PROJECTIVE_POINT_WIDTH,
};
use crate::field::Felt;
use crate::rescue::{
    apply_round, spec_apply_round, Rescue, HASH_CYCLE_LENGTH, NUM_HASH_ROUNDS, RATE_WIDTH,
    STATE_WIDTH,
};
use crate::schnorr::constants::{
    HASH, H_BIT, H_LIMBS, H_PK, MSG_LENGTH, NUM_LIMBS, SCALAR_BITS, SCALAR_MUL_LENGTH, S_BIT, S_G,
    S_LIMBS, TOTAL_HASH_LENGTH, TRACE_WIDTH,
};
use vstd::prelude::*;

verus! {

// TRACE INITIALIZATION
// ================================================================================================

/// The first row of the cycle of a signature: the two points at the
/// identity, and `r_x` in the hash state.
pub open spec fn spec_init_sig_verification_state(r_x: Seq<Felt>) -> Seq<Felt> {
    Seq::new(
        TRACE_WIDTH as nat,
        |i: int|
            if i == S_G + 6 || i == H_PK + 6 {
                Felt::spec_one()
            } else if HASH <= i < HASH + POINT_COORDINATE_WIDTH {
                r_x[i - HASH]
            } else {
                Felt::spec_zero()
            },
    )
}

/// Writes the first row of the cycle of a signature.
pub fn init_sig_verification_state(
    signature: &([Felt; POINT_COORDINATE_WIDTH], [u8; 32]),
    state: &mut [Felt],
)
    requires
        old(state).len() == TRACE_WIDTH,
    ensures
        final(state)@ == spec_init_sig_verification_state(signature.0@),
        final(state).len() == TRACE_WIDTH,
{
    fill_range(state, 0, TRACE_WIDTH, Felt::zero());
    state[S_G + 6] = Felt::one();
    state[H_PK + 6] = Felt::one();
    write_range(state, HASH, &signature.0);
    proof {
        reveal(spec_fill_range);
        reveal(spec_write_range);
    }
    assert(state@ =~= spec_init_sig_verification_state(signature.0@));
}

// TRANSITION FUNCTION
// ================================================================================================

/// The row after the hash registers took step `step`: a round of the
/// permutation on the first seven rows of each of the five hash cycles; on
/// the eighth, the next chunk of the message, or zeros after the last.
pub open spec fn spec_update_hash(step: int, message: Seq<Felt>, state: Seq<Felt>, rescue: Rescue) -> Seq<
    Felt,
> {
    if step < TOTAL_HASH_LENGTH && step % (HASH_CYCLE_LENGTH as int) < NUM_HASH_ROUNDS {
        spec_apply_round(state, HASH as int, step, rescue)
    } else if step < TOTAL_HASH_LENGTH - HASH_CYCLE_LENGTH {
        let index = step / (HASH_CYCLE_LENGTH as int);
        spec_write_range(
            state,
            HASH + RATE_WIDTH,
            message.subrange(RATE_WIDTH * index, RATE_WIDTH * (index + 1)),
        )
    } else if step < TOTAL_HASH_LENGTH {
        spec_fill_range(state, HASH + RATE_WIDTH, HASH + STATE_WIDTH, Felt::spec_zero())
    } else {
        state
    }
}

fn update_hash(step: usize, message: &[Felt], state: &mut [Felt], rescue: &Rescue)
    requires
        message.len() == MSG_LENGTH,
        old(state).len() == TRACE_WIDTH,
    ensures
        final(state)@ == spec_update_hash(step as int, message@, old(state)@, *rescue),
        final(state).len() == TRACE_WIDTH,
{
    if step < TOTAL_HASH_LENGTH && step % HASH_CYCLE_LENGTH < NUM_HASH_ROUNDS {
        apply_round(state, HASH, step, rescue);
    } else if step < TOTAL_HASH_LENGTH - HASH_CYCLE_LENGTH {
        let index = step / HASH_CYCLE_LENGTH;
        write_range(
            state,
            HASH + RATE_WIDTH,
            &message[RATE_WIDTH * index..RATE_WIDTH * (index + 1)],
        );
    } else if step < TOTAL_HASH_LENGTH {
        fill_range(state, HASH + RATE_WIDTH, HASH + STATE_WIDTH, Felt::zero());
    }
}

/// The row after a step of the two scalar multiplications. The bits of `s`
/// and of `h` of the step enter their registers. On an even step both
/// points are doubled, and each bit enters its limb; on an odd step each
/// point takes its operand where its bit is one.
pub open spec fn spec_scalar_mul_step(
    step: int,
    vkey_point: Seq<Felt>,
    s: Seq<u8>,
    h: Seq<u8>,
    state: Seq<Felt>,
    curve: Curve,
) -> Seq<Felt> {
    let index = SCALAR_BITS - 1 - step / 2;
    let limb = NUM_LIMBS - 1 - spec_limb_of(step / 2);
    let with_bits = state.update(S_BIT as int, Felt::spec_from_bool(spec_bit_at(s, index))).update(
        H_BIT as int,
        Felt::spec_from_bool(spec_bit_at(h, index)),
    );
    if step % 2 == 0 {
        let s1 = spec_apply_point_doubling(with_bits, S_G as int, curve);
        let s2 = spec_apply_point_doubling(s1, H_PK as int, curve);
        let s3 = spec_double_and_add_step(s2, S_LIMBS + limb, S_BIT as int);
        spec_double_and_add_step(s3, H_LIMBS + limb, H_BIT as int)
    } else {
        let s1 = spec_apply_point_addition_mixed_bit(
            with_bits,
            S_G as int,
            curve.generator.spec_registers(),
            S_BIT as int,
            curve,
        );
        spec_apply_point_addition_mixed_bit(s1, H_PK as int, vkey_point, H_BIT as int, curve)
    }
}

fn scalar_mul_step(
    step: usize,
    vkey_point: &[Felt],
    s_bits: &[u8; 32],
    h_bits: &[u8; 32],
    state: &mut [Felt],
    curve: &Curve,
)
    requires
        step < SCALAR_MUL_LENGTH,
        vkey_point.len() == AFFINE_POINT_WIDTH,
        old(state).len() == TRACE_WIDTH,
    ensures
        final(state)@ == spec_scalar_mul_step(
            step as int,
            vkey_point@,
            s_bits@,
            h_bits@,
            old(state)@,
            *curve,
        ),
        final(state).len() == TRACE_WIDTH,
{
    let real_step = step / 2;
    let index = SCALAR_BITS - 1 - real_step;
    state[S_BIT] = Felt::from_bool(bit_at(s_bits, index));
    state[H_BIT] = Felt::from_bool(bit_at(h_bits, index));
    if step % 2 == 0 {
        apply_point_doubling(state, S_G, curve);
        apply_point_doubling(state, H_PK, curve);
        let limb = if real_step < 63 {
            0
        } else {
            (real_step - 63) / 64 + 1
        };
        apply_double_and_add_step(state, S_LIMBS + NUM_LIMBS - 1 - limb, S_BIT);
        apply_double_and_add_step(state, H_LIMBS + NUM_LIMBS - 1 - limb, H_BIT);
    } else {
        let generator = curve.generator.to_vec();
        apply_point_addition_mixed_bit(state, S_G, generator.as_slice(), S_BIT, curve);
        apply_point_addition_mixed_bit(state, H_PK, vkey_point, H_BIT, curve);
    }
}

/// The row after the last step of the cycle: `h * pk` is added to `s * G`,
/// and the sum is reduced to affine coordinates.
pub open spec fn spec_final_step(state: Seq<Felt>, curve: Curve) -> Seq<Felt> {
    let added = spec_compute_add(
        state,
        S_G as int,
        state.subrange(H_PK as int, H_PK + PROJECTIVE_POINT_WIDTH),
        curve,
    );
    spec_write_range(
        added,
        S_G as int,
        Projective::spec_read(added, S_G as int).spec_to_affine(curve).spec_registers(),
    )
}

fn final_step(state: &mut [Felt], curve: &Curve)
    requires
        old(state).len() == TRACE_WIDTH,
    ensures
        final(state)@ == spec_final_step(old(state)@, *curve),
        final(state).len() == TRACE_WIDTH,
{
    let rhs = copy_of(&state[H_PK..H_PK + PROJECTIVE_POINT_WIDTH]);
    compute_add(state, S_G, rhs.as_slice(), curve);
    let reduced = reduce_to_affine(state, S_G, curve);
    write_range(state, S_G, reduced.as_slice());
}

/// The row that follows `state` on step `step` of the cycle of one
/// signature.
pub open spec fn spec_update_sig_verification_state(
    step: int,
    message: Seq<Felt>,
    vkey_point: Seq<Felt>,
    s: Seq<u8>,
    h: Seq<u8>,
    state: Seq<Felt>,
    curve: Curve,
    rescue: Rescue,
) -> Seq<Felt> {
    let hashed = spec_update_hash(step, message, state, rescue);
    if step < SCALAR_MUL_LENGTH {
        spec_scalar_mul_step(step, vkey_point, s, h, hashed, curve)
    } else if step == SCALAR_MUL_LENGTH {
        spec_final_step(hashed, curve)
    } else {
        hashed
    }
}

/// Turns the row of step `step` of the cycle of one signature into the row
/// of step `step + 1`.
///
/// `message` is the signed message, `vkey_point` the voting key, and the
/// two byte strings are the scalar `s` of the signature and the hash `h`.
pub fn update_sig_verification_state(
    step: usize,
    message: &[Felt],
    vkey_point: &[Felt],
    s_bits: &[u8; 32],
    h_bits: &[u8; 32],
    state: &mut [Felt],
    curve: &Curve,
    rescue: &Rescue,
)
    requires
        message.len() == MSG_LENGTH,
        vkey_point.len() == AFFINE_POINT_WIDTH,
        old(state).len() == TRACE_WIDTH,
    ensures
        final(state)@ == spec_update_sig_verification_state(
            step as int,
            message@,
            vkey_point@,
            s_bits@,
            h_bits@,
            old(state)@,
            *curve,
            *rescue,
        ),
        final(state).len() == TRACE_WIDTH,
{
    update_hash(step, message, state, rescue);
    if step < SCALAR_MUL_LENGTH {
        scalar_mul_step(step, vkey_point, s_bits, h_bits, state, curve);
    } else if step == SCALAR_MUL_LENGTH {
        final_step(state, curve);
    }
}

} // verus!

//! The rows of the proof of a well-formed vote: the first row of a cycle and
//! the rule that leads from each row to the next.

use crate::air::copy_of;
use crate::bits::{bit_at, spec_bit_at};
use crate::cds::constants::{
    CDS_CYCLE_LENGTH, C_BIT, C_LIMBS, C_VK, D_BIT, D_EV, D_VK, HASH, HASH_MSG_LENGTH,
    NROWS_PER_PHASE, NUM_LIMBS, PROOF_POINTS_WIDTH, R_BIT, R_BK, R_G, SCALAR_BITS,
    SCALAR_MUL_LENGTH, TOTAL_HASH_LENGTH, TRACE_WIDTH,
};
use crate::constraint::{
    apply_double_and_add_step, fill_range, spec_double_and_add_step, spec_fill_range,
    spec_write_range, write_range, zeros,
};
use crate::ecc::{
    apply_point_addition_mixed_bit, apply_point_doubling, compute_add, compute_negation_projective,
    reduce_to_affine, spec_apply_point_addition_mixed_bit, spec_apply_point_doubling,
    spec_compute_add, Affine, Curve, Projective, AFFINE_POINT_WIDTH, PROJECTIVE_POINT_WIDTH,
};
use crate::field::Felt;
use crate::rescue::{
    apply_round, spec_apply_round, Rescue, HASH_CYCLE_LENGTH, NUM_HASH_ROUNDS, RATE_WIDTH,
    STATE_WIDTH,
};
use vstd::prelude::*;

verus! {

// TRACE INITIALIZATION
// ================================================================================================

/// The first row of the cycle of voter `voter_index`: the five points at the
/// identity, and the index of the voter in the first register of the hash
/// state.
pub open spec fn spec_init_cds_verification_state(voter_index: usize) -> Seq<Felt> {
    Seq::new(
        TRACE_WIDTH as nat,
        |i: int|
            if i == C_VK + 6 || i == R_G + 6 || i == R_BK + 6 || i == D_VK + 6 || i == D_EV + 6 {
                Felt::spec_one()
            } else if i == HASH {
                Felt::spec_new((voter_index % 256) as u64)
            } else {
                Felt::spec_zero()
            },
    )
}

/// Writes the first row of the cycle of voter `voter_index`.
pub fn init_cds_verification_state(voter_index: usize, state: &mut [Felt])
    requires
        old(state).len() == TRACE_WIDTH,
    ensures
        final(state)@ == spec_init_cds_verification_state(voter_index),
        final(state).len() == TRACE_WIDTH,
{
    fill_range(state, 0, TRACE_WIDTH, Felt::zero());
    proof {
        reveal(spec_fill_range);
    }
    state[C_VK + 6] = Felt::one();
    state[R_G + 6] = Felt::one();
    state[R_BK + 6] = Felt::one();
    state[D_VK + 6] = Felt::one();
    state[D_EV + 6] = Felt::one();
    state[HASH] = Felt::new((voter_index % 256) as u64);
    assert(state@ =~= spec_init_cds_verification_state(voter_index));
}

// TRANSITION FUNCTION
// ================================================================================================

/// The row after the hash registers took step `step`: a round of the
/// permutation on the first seven rows of each of the twelve hash cycles;
/// on the eighth, the next chunk of the message, or zeros after the last.
pub open spec fn spec_update_hash(
    step: int,
    hash_msg: Seq<Felt>,
    state: Seq<Felt>,
    rescue: Rescue,
) -> Seq<Felt> {
    if step < TOTAL_HASH_LENGTH && step % (HASH_CYCLE_LENGTH as int) < NUM_HASH_ROUNDS {
        spec_apply_round(state, HASH as int, step, rescue)
    } else if step < TOTAL_HASH_LENGTH - HASH_CYCLE_LENGTH {
        let index = step / (HASH_CYCLE_LENGTH as int) + 1;
        spec_write_range(
            state,
            HASH + RATE_WIDTH,
            hash_msg.subrange(RATE_WIDTH * index, RATE_WIDTH * (index + 1)),
        )
    } else if step < TOTAL_HASH_LENGTH {
        spec_fill_range(state, HASH + RATE_WIDTH, HASH + STATE_WIDTH, Felt::spec_zero())
    } else {
        state
    }
}

fn update_hash(step: usize, hash_msg: &[Felt], state: &mut [Felt], rescue: &Rescue)
    requires
        hash_msg.len() == HASH_MSG_LENGTH,
        old(state).len() == TRACE_WIDTH,
    ensures
        final(state)@ == spec_update_hash(step as int, hash_msg@, old(state)@, *rescue),
        final(state).len() == TRACE_WIDTH,
{
    if step < TOTAL_HASH_LENGTH && step % HASH_CYCLE_LENGTH < NUM_HASH_ROUNDS {
        apply_round(state, HASH, step, rescue);
    } else if step < TOTAL_HASH_LENGTH - HASH_CYCLE_LENGTH {
        let index = step / HASH_CYCLE_LENGTH + 1;
        write_range(
            state,
            HASH + RATE_WIDTH,
            &hash_msg[RATE_WIDTH * index..RATE_WIDTH * (index + 1)],
        );
    } else if step < TOTAL_HASH_LENGTH {
        fill_range(state, HASH + RATE_WIDTH, HASH + STATE_WIDTH, Felt::zero());
    }
}

/// The limb that the bit of step `real_step` of a scalar multiplication
/// belongs to, counted from the most significant: 63 bits for the first,
/// 64 for each of the others.
pub open spec fn spec_limb_of(real_step: int) -> int {
    if real_step < 63 {
        0
    } else {
        (real_step - 63) / 64 + 1
    }
}

/// The register in which the limb of step `real_step` is put together.
pub open spec fn spec_limb_register(real_step: int) -> int {
    C_LIMBS + NUM_LIMBS - 1 - spec_limb_of(real_step)
}

/// The row with the bits of step `step` in the three bit registers: the bit
/// of `c` in the first phase and zero in the second; the bit of `r1` and of
/// `d1` in the first phase, of `r2` and of `d2` in the second.
pub open spec fn spec_set_bits(
    step: int,
    d1: Seq<u8>,
    d2: Seq<u8>,
    r1: Seq<u8>,
    r2: Seq<u8>,
    c: Seq<u8>,
    state: Seq<Felt>,
) -> Seq<Felt> {
    let first = step < NROWS_PER_PHASE;
    let index = SCALAR_BITS - 1 - (step % (NROWS_PER_PHASE as int)) / 2;
    state.update(C_BIT as int, Felt::spec_from_bool(spec_bit_at(c, index) && first)).update(
        R_BIT as int,
        Felt::spec_from_bool(
            if first {
                spec_bit_at(r1, index)
            } else {
                spec_bit_at(r2, index)
            },
        ),
    ).update(
        D_BIT as int,
        Felt::spec_from_bool(
            if first {
                spec_bit_at(d1, index)
            } else {
                spec_bit_at(d2, index)
            },
        ),
    )
}

fn set_bits(
    step: usize,
    d1_bits: &[u8; 32],
    d2_bits: &[u8; 32],
    r1_bits: &[u8; 32],
    r2_bits: &[u8; 32],
    c_bits: &[u8; 32],
    state: &mut [Felt],
)
    requires
        step % NROWS_PER_PHASE < SCALAR_MUL_LENGTH,
        old(state).len() == TRACE_WIDTH,
    ensures
        final(state)@ == spec_set_bits(
            step as int,
            d1_bits@,
            d2_bits@,
            r1_bits@,
            r2_bits@,
            c_bits@,
            old(state)@,
        ),
        final(state).len() == TRACE_WIDTH,
{
    let first = step < NROWS_PER_PHASE;
    let index = SCALAR_BITS - 1 - (step % NROWS_PER_PHASE) / 2;
    let c_bit = bit_at(c_bits, index) && first;
    let r_bit = if first {
        bit_at(r1_bits, index)
    } else {
        bit_at(r2_bits, index)
    };
    let d_bit = if first {
        bit_at(d1_bits, index)
    } else {
        bit_at(d2_bits, index)
    };
    state[C_BIT] = Felt::from_bool(c_bit);
    state[R_BIT] = Felt::from_bool(r_bit);
    state[D_BIT] = Felt::from_bool(d_bit);
}

/// The row after the doubling half of a step of double-and-add: the four
/// points of the phase are doubled; in the first phase `c * vk` is doubled
/// too, and the bit of `c` enters its limb.
pub open spec fn spec_doubling_step(step: int, state: Seq<Felt>, curve: Curve) -> Seq<Felt> {
    let s1 = spec_apply_point_doubling(state, R_G as int, curve);
    let s2 = spec_apply_point_doubling(s1, R_BK as int, curve);
    let s3 = spec_apply_point_doubling(s2, D_VK as int, curve);
    let s4 = spec_apply_point_doubling(s3, D_EV as int, curve);
    if step < NROWS_PER_PHASE {
        spec_double_and_add_step(
            spec_apply_point_doubling(s4, C_VK as int, curve),
            spec_limb_register(step / 2),
            C_BIT as int,
        )
    } else {
        s4
    }
}

fn doubling_step(step: usize, state: &mut [Felt], curve: &Curve)
    requires
        step % NROWS_PER_PHASE < SCALAR_MUL_LENGTH,
        step < CDS_CYCLE_LENGTH,
        old(state).len() == TRACE_WIDTH,
    ensures
        final(state)@ == spec_doubling_step(step as int, old(state)@, *curve),
        final(state).len() == TRACE_WIDTH,
{
    apply_point_doubling(state, R_G, curve);
    apply_point_doubling(state, R_BK, curve);
    apply_point_doubling(state, D_VK, curve);
    apply_point_doubling(state, D_EV, curve);
    if step < NROWS_PER_PHASE {
        apply_point_doubling(state, C_VK, curve);
        let real_step = step / 2;
        let limb = if real_step < 63 {
            0
        } else {
            (real_step - 63) / 64 + 1
        };
        apply_double_and_add_step(state, C_LIMBS + NUM_LIMBS - 1 - limb, C_BIT);
    }
}

/// The row after the adding half of a step of double-and-add: each of the
/// five points takes its operand where its bit is one.
pub open spec fn spec_addition_step(
    step: int,
    voting_key: Seq<Felt>,
    blinding_key: Seq<Felt>,
    encrypted_vote_1: Seq<Felt>,
    encrypted_vote_2: Seq<Felt>,
    state: Seq<Felt>,
    curve: Curve,
) -> Seq<Felt> {
    let s1 = spec_apply_point_addition_mixed_bit(
        state,
        C_VK as int,
        voting_key,
        C_BIT as int,
        curve,
    );
    let s2 = spec_apply_point_addition_mixed_bit(
        s1,
        R_G as int,
        curve.generator.spec_registers(),
        R_BIT as int,
        curve,
    );
    let s3 = spec_apply_point_addition_mixed_bit(
        s2,
        R_BK as int,
        blinding_key,
        R_BIT as int,
        curve,
    );
    let s4 = spec_apply_point_addition_mixed_bit(s3, D_VK as int, voting_key, D_BIT as int, curve);
    spec_apply_point_addition_mixed_bit(
        s4,
        D_EV as int,
        if step < NROWS_PER_PHASE {
            encrypted_vote_1
        } else {
            encrypted_vote_2
        },
        D_BIT as int,
        curve,
    )
}

fn addition_step(
    step: usize,
    voting_key: &[Felt],
    blinding_key: &[Felt],
    encrypted_vote_1: &[Felt],
    encrypted_vote_2: &[Felt],
    state: &mut [Felt],
    curve: &Curve,
)
    requires
        voting_key.len() == AFFINE_POINT_WIDTH,
        blinding_key.len() == AFFINE_POINT_WIDTH,
        encrypted_vote_1.len() == AFFINE_POINT_WIDTH,
        encrypted_vote_2.len() == AFFINE_POINT_WIDTH,
        old(state).len() == TRACE_WIDTH,
    ensures
        final(state)@ == spec_addition_step(
            step as int,
            voting_key@,
            blinding_key@,
            encrypted_vote_1@,
            encrypted_vote_2@,
            old(state)@,
            *curve,
        ),
        final(state).len() == TRACE_WIDTH,
{
    let generator = curve.generator.to_vec();
    apply_point_addition_mixed_bit(state, C_VK, voting_key, C_BIT, curve);
    apply_point_addition_mixed_bit(state, R_G, generator.as_slice(), R_BIT, curve);
    apply_point_addition_mixed_bit(state, R_BK, blinding_key, R_BIT, curve);
    apply_point_addition_mixed_bit(state, D_VK, voting_key, D_BIT, curve);
    if step < NROWS_PER_PHASE {
        apply_point_addition_mixed_bit(state, D_EV, encrypted_vote_1, D_BIT, curve);
    } else {
        apply_point_addition_mixed_bit(state, D_EV, encrypted_vote_2, D_BIT, curve);
    }
}

/// The row after the last step of a phase: `d * vk` is taken off `c * vk`;
/// `d * vk` is added to `r * g` and `d * (ev + G)` to `r * bk`, and both
/// sums are reduced to affine coordinates.
pub open spec fn spec_final_step(state: Seq<Felt>, curve: Curve) -> Seq<Felt> {
    let s1 = spec_compute_add(
        state,
        C_VK as int,
        Projective::spec_read(state, D_VK as int).spec_neg().spec_registers(),
        curve,
    );
    let s2 = spec_compute_add(
        s1,
        R_G as int,
        s1.subrange(D_VK as int, D_VK + PROJECTIVE_POINT_WIDTH),
        curve,
    );
    let s3 = spec_write_range(
        s2,
        R_G as int,
        Projective::spec_read(s2, R_G as int).spec_to_affine(curve).spec_registers(),
    );
    let s4 = spec_compute_add(
        s3,
        R_BK as int,
        s3.subrange(D_EV as int, D_EV + PROJECTIVE_POINT_WIDTH),
        curve,
    );
    spec_write_range(
        s4,
        R_BK as int,
        Projective::spec_read(s4, R_BK as int).spec_to_affine(curve).spec_registers(),
    )
}

fn final_step(state: &mut [Felt], curve: &Curve)
    requires
        old(state).len() == TRACE_WIDTH,
    ensures
        final(state)@ == spec_final_step(old(state)@, *curve),
        final(state).len() == TRACE_WIDTH,
{
    let rhs = compute_negation_projective(state, D_VK);
    compute_add(state, C_VK, rhs.as_slice(), curve);
    let rhs = copy_of(&state[D_VK..D_VK + PROJECTIVE_POINT_WIDTH]);
    compute_add(state, R_G, rhs.as_slice(), curve);
    let reduced = reduce_to_affine(state, R_G, curve);
    write_range(state, R_G, reduced.as_slice());
    let rhs = copy_of(&state[D_EV..D_EV + PROJECTIVE_POINT_WIDTH]);
    compute_add(state, R_BK, rhs.as_slice(), curve);
    let reduced = reduce_to_affine(state, R_BK, curve);
    write_range(state, R_BK, reduced.as_slice());
}

/// The row after the reset between the phases: the four points of the phase
/// are back at the identity and the three bits at zero.
pub open spec fn spec_reset_step(state: Seq<Felt>) -> Seq<Felt> {
    let s1 = spec_fill_range(
        state.update(C_BIT as int, Felt::spec_zero()),
        R_G as int,
        D_VK as int,
        Felt::spec_zero(),
    );
    let s2 = s1.update(R_G + 6, Felt::spec_one()).update(R_BK + 6, Felt::spec_one());
    let s3 = spec_fill_range(s2, D_VK as int, C_LIMBS as int, Felt::spec_zero());
    s3.update(D_VK + 6, Felt::spec_one()).update(D_EV + 6, Felt::spec_one())
}

fn reset_step(state: &mut [Felt])
    requires
        old(state).len() == TRACE_WIDTH,
    ensures
        final(state)@ == spec_reset_step(old(state)@),
        final(state).len() == TRACE_WIDTH,
{
    state[C_BIT] = Felt::zero();
    fill_range(state, R_G, D_VK, Felt::zero());
    state[R_G + 6] = Felt::one();
    state[R_BK + 6] = Felt::one();
    fill_range(state, D_VK, C_LIMBS, Felt::zero());
    state[D_VK + 6] = Felt::one();
    state[D_EV + 6] = Felt::one();
}

/// The row that follows `state` on step `step` of the cycle of one vote.
pub open spec fn spec_update_cds_verification_state(
    step: int,
    hash_msg: Seq<Felt>,
    voting_key: Seq<Felt>,
    blinding_key: Seq<Felt>,
    encrypted_vote_1: Seq<Felt>,
    encrypted_vote_2: Seq<Felt>,
    d1: Seq<u8>,
    d2: Seq<u8>,
    r1: Seq<u8>,
    r2: Seq<u8>,
    c: Seq<u8>,
    state: Seq<Felt>,
    curve: Curve,
    rescue: Rescue,
) -> Seq<Felt> {
    let hashed = spec_update_hash(step, hash_msg, state, rescue);
    let mul_step = step % (NROWS_PER_PHASE as int);
    if mul_step < SCALAR_MUL_LENGTH {
        let with_bits = spec_set_bits(step, d1, d2, r1, r2, c, hashed);
        if mul_step % 2 == 0 {
            spec_doubling_step(step, with_bits, curve)
        } else {
            spec_addition_step(
                step,
                voting_key,
                blinding_key,
                encrypted_vote_1,
                encrypted_vote_2,
                with_bits,
                curve,
            )
        }
    } else if mul_step == SCALAR_MUL_LENGTH {
        spec_final_step(hashed, curve)
    } else {
        spec_reset_step(hashed)
    }
}

/// Turns the row of step `step` of the cycle of one vote into the row of
/// step `step + 1`.
///
/// `hash_msg` is the message that is hashed into the challenge,
/// `encrypted_vote_1` and `encrypted_vote_2` are the vote plus and minus the
/// generator, and the five byte strings are the scalars `d1`, `d2`, `r1`,
/// `r2` of the proof and the challenge `c`.
pub fn update_cds_verification_state(
    step: usize,
    hash_msg: &[Felt],
    voting_key: &[Felt],
    blinding_key: &[Felt],
    encrypted_vote_1: &[Felt],
    encrypted_vote_2: &[Felt],
    d1_bits: &[u8; 32],
    d2_bits: &[u8; 32],
    r1_bits: &[u8; 32],
    r2_bits: &[u8; 32],
    c_bits: &[u8; 32],
    state: &mut [Felt],
    curve: &Curve,
    rescue: &Rescue,
)
    requires
        step < CDS_CYCLE_LENGTH,
        hash_msg.len() == HASH_MSG_LENGTH,
        voting_key.len() == AFFINE_POINT_WIDTH,
        blinding_key.len() == AFFINE_POINT_WIDTH,
        encrypted_vote_1.len() == AFFINE_POINT_WIDTH,
        encrypted_vote_2.len() == AFFINE_POINT_WIDTH,
        old(state).len() == TRACE_WIDTH,
    ensures
        final(state)@ == spec_update_cds_verification_state(
            step as int,
            hash_msg@,
            voting_key@,
            blinding_key@,
            encrypted_vote_1@,
            encrypted_vote_2@,
            d1_bits@,
            d2_bits@,
            r1_bits@,
            r2_bits@,
            c_bits@,
            old(state)@,
            *curve,
            *rescue,
        ),
        final(state).len() == TRACE_WIDTH,
{
    update_hash(step, hash_msg, state, rescue);
    let mul_step = step % NROWS_PER_PHASE;
    if mul_step < SCALAR_MUL_LENGTH {
        set_bits(step, d1_bits, d2_bits, r1_bits, r2_bits, c_bits, state);
        if mul_step % 2 == 0 {
            doubling_step(step, state, curve);
        } else {
            addition_step(
                step,
                voting_key,
                blinding_key,
                encrypted_vote_1,
                encrypted_vote_2,
                state,
                curve,
            );
        }
    } else if mul_step == SCALAR_MUL_LENGTH {
        final_step(state, curve);
    } else {
        reset_step(state);
    }
}

// HELPER FUNCTIONS
// ================================================================================================

/// The message that is hashed into the challenge of voter `voter_index`:
/// the index, eleven zeros, the voting key, the encrypted vote and the four
/// proof points.
pub open spec fn spec_prepare_hash_message(
    voter_index: usize,
    voting_key: Seq<Felt>,
    encrypted_vote: Seq<Felt>,
    proof_points: Seq<Felt>,
) -> Seq<Felt> {
    Seq::new(
        HASH_MSG_LENGTH as nat,
        |i: int|
            if i == 0 {
                Felt::spec_new((voter_index % 256) as u64)
            } else if i < AFFINE_POINT_WIDTH {
                Felt::spec_zero()
            } else if i < 2 * AFFINE_POINT_WIDTH {
                voting_key[i - AFFINE_POINT_WIDTH]
            } else if i < 3 * AFFINE_POINT_WIDTH {
                encrypted_vote[i - 2 * AFFINE_POINT_WIDTH]
            } else {
                proof_points[i - 3 * AFFINE_POINT_WIDTH]
            },
    )
}

/// Puts the message together that is hashed into the challenge of voter
/// `voter_index`.
pub fn prepare_hash_message(
    voter_index: usize,
    voting_key: &[Felt],
    encrypted_vote: &[Felt],
    proof_points: &[Felt],
) -> (r: Vec<Felt>)
    requires
        voting_key.len() == AFFINE_POINT_WIDTH,
        encrypted_vote.len() == AFFINE_POINT_WIDTH,
        proof_points.len() == PROOF_POINTS_WIDTH,
    ensures
        r@ == spec_prepare_hash_message(voter_index, voting_key@, encrypted_vote@, proof_points@),
        r.len() == HASH_MSG_LENGTH,
{
    let mut r = zeros(HASH_MSG_LENGTH);
    r[0] = Felt::new((voter_index % 256) as u64);
    write_range(r.as_mut_slice(), AFFINE_POINT_WIDTH, voting_key);
    write_range(r.as_mut_slice(), 2 * AFFINE_POINT_WIDTH, encrypted_vote);
    write_range(r.as_mut_slice(), 3 * AFFINE_POINT_WIDTH, proof_points);
    proof {
        reveal(spec_write_range);
    }
    assert(r@ =~= spec_prepare_hash_message(
        voter_index,
        voting_key@,
        encrypted_vote@,
        proof_points@,
    ));
    r
}

/// The vote plus the generator, and the vote minus the generator, in affine
/// coordinates.
pub open spec fn spec_prepare_encrypted_votes(encrypted_vote: Seq<Felt>, curve: Curve) -> (
    Seq<Felt>,
    Seq<Felt>,
) {
    let vote = Projective::spec_from_affine(Affine::spec_read(encrypted_vote, 0));
    (
        vote.spec_add_mixed(curve.generator, curve).spec_to_affine(curve).spec_registers(),
        vote.spec_add_mixed(curve.generator.spec_neg(), curve).spec_to_affine(
            curve,
        ).spec_registers(),
    )
}

/// The two points that the second secret is multiplied with: the vote plus
/// the generator in the first phase, the vote minus the generator in the
/// second.
pub fn prepare_encrypted_votes(encrypted_vote: &[Felt], curve: &Curve) -> (r: (
    Vec<Felt>,
    Vec<Felt>,
))
    requires
        encrypted_vote.len() >= AFFINE_POINT_WIDTH,
    ensures
        r.0@ == spec_prepare_encrypted_votes(encrypted_vote@, *curve).0,
        r.1@ == spec_prepare_encrypted_votes(encrypted_vote@, *curve).1,
        r.0.len() == AFFINE_POINT_WIDTH,
        r.1.len() == AFFINE_POINT_WIDTH,
{
    let vote = Projective::from_affine(Affine::read(encrypted_vote, 0));
    let plus = vote.add_mixed(curve.generator, curve).to_affine(curve).to_vec();
    let minus = vote.add_mixed(curve.generator.neg(), curve).to_affine(curve).to_vec();
    (plus, minus)
}

/// The four scalars of a proof, each as its bytes.
pub fn decompose_scalars(proof_scalars: &[[u8; 32]; 4]) -> (r: ([u8; 32], [u8; 32], [u8; 32], [
    u8;
    32
]))
    ensures
        r.0 == proof_scalars[0],
        r.1 == proof_scalars[1],
        r.2 == proof_scalars[2],
        r.3 == proof_scalars[3],
{
    (proof_scalars[0], proof_scalars[1], proof_scalars[2], proof_scalars[3])
}

/// The voting keys as sequences of elements.
pub open spec fn keys_view(keys: Seq<[Felt; AFFINE_POINT_WIDTH]>) -> Seq<Seq<Felt>> {
    Seq::new(keys.len(), |k: int| keys[k]@)
}

/// Minus the sum of the keys from the second to the one before `m`.
pub open spec fn spec_negated_key_sum(keys: Seq<Seq<Felt>>, m: nat, curve: Curve) -> Projective
    decreases m,
{
    if m <= 1 {
        Projective::spec_identity()
    } else {
        spec_negated_key_sum(keys, (m - 1) as nat, curve).spec_add_mixed(
            Affine::spec_read(keys[m - 1], 0).spec_neg(),
            curve,
        )
    }
}

/// The blinding key of voter `k`: the sum of the keys of the voters before,
/// minus the sum of the keys of the voters after.
pub open spec fn spec_blinding_key(keys: Seq<Seq<Felt>>, k: nat, curve: Curve) -> Projective
    decreases k,
{
    if k == 0 {
        spec_negated_key_sum(keys, keys.len(), curve)
    } else {
        spec_blinding_key(keys, (k - 1) as nat, curve).spec_add_mixed(
            Affine::spec_read(keys[k - 1], 0),
            curve,
        ).spec_add_mixed(Affine::spec_read(keys[k as int], 0), curve)
    }
}

/// The blinding key of each voter, in affine coordinates.
pub open spec fn spec_blinding_keys(keys: Seq<Seq<Felt>>, curve: Curve) -> Seq<Seq<Felt>> {
    Seq::new(
        keys.len(),
        |k: int| spec_blinding_key(keys, k as nat, curve).spec_to_affine(curve).spec_registers(),
    )
}

/// The blinding key of each voter, in affine coordinates: what the vote of
/// the voter is blinded with, made of the keys of all the others.
pub fn compute_blinding_keys(voting_keys: &Vec<[Felt; AFFINE_POINT_WIDTH]>, curve: &Curve) -> (r:
    Vec<Vec<Felt>>)
    ensures
        crate::periodic::columns_view(r@) == spec_blinding_keys(keys_view(voting_keys@), *curve),
        r.len() == voting_keys.len(),
        forall|k: int| 0 <= k < r.len() ==> (#[trigger] r@[k]).len() == AFFINE_POINT_WIDTH,
{
    let n = voting_keys.len();
    let ghost keys = keys_view(voting_keys@);
    let mut blinding_key = Projective::identity();
    let mut j: usize = 1;
    while j < n
        invariant
            n == voting_keys.len(),
            keys == keys_view(voting_keys@),
            1 <= j,
            j <= n || j == 1,
            blinding_key == spec_negated_key_sum(keys, j as nat, *curve),
        decreases n - j,
    {
        let key = Affine::read(&voting_keys[j], 0);
        blinding_key = blinding_key.add_mixed(key.neg(), curve);
        j += 1;
    }
    proof {
        assert(keys.len() == n);
        assert(spec_negated_key_sum(keys, 0, *curve) == spec_negated_key_sum(keys, 1, *curve));
    }
    let mut r: Vec<Vec<Felt>> = Vec::with_capacity(n);
    let mut i: usize = 0;
    while i < n
        invariant
            n == voting_keys.len(),
            keys == keys_view(voting_keys@),
            i <= n,
            r.len() == i,
            i < n ==> blinding_key == spec_blinding_key(keys, i as nat, *curve),
            forall|k: int|
                0 <= k < i ==> (#[trigger] r@[k])@ == spec_blinding_key(
                    keys,
                    k as nat,
                    *curve,
                ).spec_to_affine(*curve).spec_registers(),
            forall|k: int| 0 <= k < i ==> (#[trigger] r@[k]).len() == AFFINE_POINT_WIDTH,
        decreases n - i,
    {
        r.push(blinding_key.to_affine(curve).to_vec());
        if i + 1 < n {
            blinding_key = blinding_key.add_mixed(Affine::read(&voting_keys[i], 0), curve);
            blinding_key = blinding_key.add_mixed(Affine::read(&voting_keys[i + 1], 0), curve);
        }
        i += 1;
    }
    assert(crate::periodic::columns_view(r@) =~= spec_blinding_keys(keys, *curve));
    r
}

} // verus!

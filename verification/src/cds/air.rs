//! The constraint system of the proof of a well-formed vote.

use crate::air::{
    assertions_view, copy_of, degrees_view, lemma_cycle_lengths_are_powers_of_two,
    lemma_double_is_power_of_two, spec_is_power_of_two, AirContext, Assertion, AssertionView,
    DegreeView, ProofOptions, TraceInfo, TransitionConstraintDegree,
};
use crate::cds::constants::{
    ARK_COLUMN, BLINDING_KEY_COLUMN, CDS_CYCLE_LENGTH, C_BIT, C_LIMBS, C_VK, D_BIT, D_EV, D_VK,
    ENCRYPTED_VOTE_COLUMN, HASH, HASH_FLAG_COLUMN, HASH_INPUT_COLUMN, NROWS_PER_PHASE, NUM_LIMBS,
    NUM_OWN_COLUMNS, NUM_PERIODIC_COLUMNS, OUTPUT_WIDTH, PROOF_WIDTH, R_BIT, R_BK, R_G,
    SCALAR_MUL_LENGTH, TOTAL_HASH_LENGTH, TRACE_WIDTH, VOTING_KEY_COLUMN,
};
use crate::constraint::{
    agg_range, diff, enforce_copy, enforce_limb_step, not, spec_agg_range, spec_diff,
    spec_enforce_copy, spec_enforce_limb_step, spec_not,
};
use crate::ecc::{
    compute_negation_projective, enforce_point_addition, enforce_point_addition_reduce_affine,
    enforce_scalar_mul, enforce_scalar_mul_bit, spec_enforce_point_addition,
    spec_enforce_point_addition_reduce_affine, spec_enforce_scalar_mul,
    spec_enforce_scalar_mul_bit, Curve, Projective, AFFINE_POINT_WIDTH, PROJECTIVE_POINT_WIDTH,
};
use crate::field::Felt;
use crate::cds::trace::{
    compute_blinding_keys, keys_view, prepare_encrypted_votes, spec_blinding_keys,
    spec_prepare_encrypted_votes,
};
use crate::periodic::{
    columns_of, columns_view, flag_column, index_map, lemma_stitch_into_empty,
    spec_flag_column, spec_is_target, spec_spread_column, stitch,
};
use crate::rescue::{
    enforce_round, get_round_constants, spec_enforce_round, spec_round_constant_column, Rescue,
    HASH_CYCLE_LENGTH, NUM_HASH_ROUNDS, RATE_WIDTH, STATE_WIDTH,
};
use vstd::prelude::*;

verus! {

// HELPER EVALUATORS
// ================================================================================================

/// The constraints of a row on which the hash state rests: its first seven
/// registers keep their values, and the other seven take `internal_inputs`.
pub open spec fn spec_enforce_hash_copy(
    result: Seq<Felt>,
    offset: int,
    current: Seq<Felt>,
    next: Seq<Felt>,
    flag: Felt,
    internal_inputs: Seq<Felt>,
) -> Seq<Felt> {
    spec_agg_range(
        spec_enforce_copy(
            result,
            offset,
            current.subrange(0, RATE_WIDTH as int),
            next.subrange(0, RATE_WIDTH as int),
            flag,
        ),
        offset + RATE_WIDTH,
        flag,
        spec_diff(next.subrange(RATE_WIDTH as int, STATE_WIDTH as int), internal_inputs),
    )
}

/// Under `flag`, constrains the hash state `next` to keep the first seven
/// registers of `current`, and to hold `internal_inputs` in the other seven:
/// zeros, or the chunk of the message that the next permutation absorbs.
pub fn enforce_hash_copy(
    result: &mut [Felt],
    offset: usize,
    current: &[Felt],
    next: &[Felt],
    flag: Felt,
    internal_inputs: &[Felt],
)
    requires
        offset + STATE_WIDTH <= old(result).len(),
        current.len() == STATE_WIDTH,
        next.len() == STATE_WIDTH,
        internal_inputs.len() == RATE_WIDTH,
    ensures
        final(result)@ == spec_enforce_hash_copy(
            old(result)@,
            offset as int,
            current@,
            next@,
            flag,
            internal_inputs@,
        ),
        final(result).len() == old(result).len(),
{
    enforce_copy(result, offset, &current[0..RATE_WIDTH], &next[0..RATE_WIDTH], flag);
    let d = diff(&next[RATE_WIDTH..STATE_WIDTH], internal_inputs);
    agg_range(result, offset + RATE_WIDTH, flag, d.as_slice());
}

/// The constraints of limb `i` of the challenge on a doubling row of
/// `c * vk`.
pub open spec fn spec_enforce_limb(
    result: Seq<Felt>,
    current: Seq<Felt>,
    next: Seq<Felt>,
    i: int,
    flag: Felt,
    c_doubling_flag: Felt,
) -> Seq<Felt> {
    spec_enforce_limb_step(
        result,
        current,
        next,
        C_LIMBS + NUM_LIMBS - 1 - i,
        C_BIT as int,
        flag,
        c_doubling_flag,
    )
}

fn enforce_limb(
    result: &mut [Felt],
    current: &[Felt],
    next: &[Felt],
    i: usize,
    flag: Felt,
    c_doubling_flag: Felt,
)
    requires
        i < NUM_LIMBS,
        old(result).len() == TRACE_WIDTH,
        current.len() == TRACE_WIDTH,
        next.len() == TRACE_WIDTH,
    ensures
        final(result)@ == spec_enforce_limb(
            old(result)@,
            current@,
            next@,
            i as int,
            flag,
            c_doubling_flag,
        ),
        final(result).len() == TRACE_WIDTH,
{
    enforce_limb_step(
        result,
        current,
        next,
        C_LIMBS + NUM_LIMBS - 1 - i,
        C_BIT,
        flag,
        c_doubling_flag,
    );
}

/// The constraints of the five scalar multiplications.
pub open spec fn spec_enforce_scalar_muls(
    result: Seq<Felt>,
    current: Seq<Felt>,
    next: Seq<Felt>,
    voting_key: Seq<Felt>,
    blinding_key: Seq<Felt>,
    encrypted_vote: Seq<Felt>,
    doubling_flag: Felt,
    addition_flag: Felt,
    c_doubling_flag: Felt,
    c_addition_flag: Felt,
    c_copy_flag: Felt,
    curve: Curve,
) -> Seq<Felt> {
    let r = spec_enforce_scalar_mul(
        result,
        current,
        next,
        C_VK as int,
        voting_key,
        c_doubling_flag,
        c_addition_flag,
        curve,
    );
    let r = spec_enforce_copy(
        r,
        C_VK as int,
        current.subrange(C_VK as int, C_VK + PROJECTIVE_POINT_WIDTH),
        next.subrange(C_VK as int, C_VK + PROJECTIVE_POINT_WIDTH),
        c_copy_flag,
    );
    let r = spec_enforce_scalar_mul_bit(
        r,
        current,
        next,
        R_G as int,
        curve.generator.spec_registers(),
        R_BIT as int,
        doubling_flag,
        addition_flag,
        curve,
    );
    let r = spec_enforce_scalar_mul(
        r,
        current,
        next,
        R_BK as int,
        blinding_key,
        doubling_flag,
        addition_flag,
        curve,
    );
    let r = spec_enforce_scalar_mul_bit(
        r,
        current,
        next,
        D_VK as int,
        voting_key,
        D_BIT as int,
        doubling_flag,
        addition_flag,
        curve,
    );
    spec_enforce_scalar_mul(
        r,
        current,
        next,
        D_EV as int,
        encrypted_vote,
        doubling_flag,
        addition_flag,
        curve,
    )
}

fn enforce_scalar_muls(
    result: &mut [Felt],
    current: &[Felt],
    next: &[Felt],
    voting_key: &[Felt],
    blinding_key: &[Felt],
    encrypted_vote: &[Felt],
    doubling_flag: Felt,
    addition_flag: Felt,
    c_doubling_flag: Felt,
    c_addition_flag: Felt,
    c_copy_flag: Felt,
    curve: &Curve,
)
    requires
        old(result).len() == TRACE_WIDTH,
        current.len() == TRACE_WIDTH,
        next.len() == TRACE_WIDTH,
        voting_key.len() == AFFINE_POINT_WIDTH,
        blinding_key.len() == AFFINE_POINT_WIDTH,
        encrypted_vote.len() == AFFINE_POINT_WIDTH,
    ensures
        final(result)@ == spec_enforce_scalar_muls(
            old(result)@,
            current@,
            next@,
            voting_key@,
            blinding_key@,
            encrypted_vote@,
            doubling_flag,
            addition_flag,
            c_doubling_flag,
            c_addition_flag,
            c_copy_flag,
            *curve,
        ),
        final(result).len() == TRACE_WIDTH,
{
    let generator = curve.generator.to_vec();
    enforce_scalar_mul(
        result,
        current,
        next,
        C_VK,
        voting_key,
        c_doubling_flag,
        c_addition_flag,
        curve,
    );
    enforce_copy(
        result,
        C_VK,
        &current[C_VK..C_VK + PROJECTIVE_POINT_WIDTH],
        &next[C_VK..C_VK + PROJECTIVE_POINT_WIDTH],
        c_copy_flag,
    );
    enforce_scalar_mul_bit(
        result,
        current,
        next,
        R_G,
        generator.as_slice(),
        R_BIT,
        doubling_flag,
        addition_flag,
        curve,
    );
    enforce_scalar_mul(
        result,
        current,
        next,
        R_BK,
        blinding_key,
        doubling_flag,
        addition_flag,
        curve,
    );
    enforce_scalar_mul_bit(
        result,
        current,
        next,
        D_VK,
        voting_key,
        D_BIT,
        doubling_flag,
        addition_flag,
        curve,
    );
    enforce_scalar_mul(
        result,
        current,
        next,
        D_EV,
        encrypted_vote,
        doubling_flag,
        addition_flag,
        curve,
    );
}

/// The constraints of the limbs of the challenge: each takes the bits of
/// `c` while its flag is set, and keeps its value otherwise.
pub open spec fn spec_enforce_limbs(
    result: Seq<Felt>,
    current: Seq<Felt>,
    next: Seq<Felt>,
    hash_digest_register_flag: Seq<Felt>,
    c_doubling_flag: Felt,
    c_addition_flag: Felt,
) -> Seq<Felt> {
    let r = spec_enforce_limb(
        result,
        current,
        next,
        0,
        hash_digest_register_flag[0],
        c_doubling_flag,
    );
    let r = spec_enforce_limb(r, current, next, 1, hash_digest_register_flag[1], c_doubling_flag);
    let r = spec_enforce_limb(r, current, next, 2, hash_digest_register_flag[2], c_doubling_flag);
    let r = spec_enforce_limb(r, current, next, 3, hash_digest_register_flag[3], c_doubling_flag);
    spec_enforce_copy(
        r,
        C_LIMBS as int,
        current.subrange(C_LIMBS as int, C_LIMBS + NUM_LIMBS),
        next.subrange(C_LIMBS as int, C_LIMBS + NUM_LIMBS),
        c_addition_flag,
    )
}

fn enforce_limbs(
    result: &mut [Felt],
    current: &[Felt],
    next: &[Felt],
    hash_digest_register_flag: &[Felt],
    c_doubling_flag: Felt,
    c_addition_flag: Felt,
)
    requires
        old(result).len() == TRACE_WIDTH,
        current.len() == TRACE_WIDTH,
        next.len() == TRACE_WIDTH,
        hash_digest_register_flag.len() == NUM_LIMBS,
    ensures
        final(result)@ == spec_enforce_limbs(
            old(result)@,
            current@,
            next@,
            hash_digest_register_flag@,
            c_doubling_flag,
            c_addition_flag,
        ),
        final(result).len() == TRACE_WIDTH,
{
    enforce_limb(result, current, next, 0, hash_digest_register_flag[0], c_doubling_flag);
    enforce_limb(result, current, next, 1, hash_digest_register_flag[1], c_doubling_flag);
    enforce_limb(result, current, next, 2, hash_digest_register_flag[2], c_doubling_flag);
    enforce_limb(result, current, next, 3, hash_digest_register_flag[3], c_doubling_flag);
    enforce_copy(
        result,
        C_LIMBS,
        &current[C_LIMBS..C_LIMBS + NUM_LIMBS],
        &next[C_LIMBS..C_LIMBS + NUM_LIMBS],
        c_addition_flag,
    );
}

/// The constraints of the hash state: a round where `hash_flag` is set, a
/// rest where `copy_hash_flag` is.
pub open spec fn spec_enforce_hash(
    result: Seq<Felt>,
    current: Seq<Felt>,
    next: Seq<Felt>,
    ark: Seq<Felt>,
    hash_internal_inputs: Seq<Felt>,
    hash_flag: Felt,
    copy_hash_flag: Felt,
    rescue: Rescue,
) -> Seq<Felt> {
    let before = current.subrange(HASH as int, TRACE_WIDTH as int);
    let after = next.subrange(HASH as int, TRACE_WIDTH as int);
    spec_enforce_hash_copy(
        spec_enforce_round(result, HASH as int, before, after, ark, hash_flag, rescue),
        HASH as int,
        before,
        after,
        copy_hash_flag,
        hash_internal_inputs,
    )
}

fn enforce_hash(
    result: &mut [Felt],
    current: &[Felt],
    next: &[Felt],
    ark: &[Felt],
    hash_internal_inputs: &[Felt],
    hash_flag: Felt,
    copy_hash_flag: Felt,
    rescue: &Rescue,
)
    requires
        old(result).len() == TRACE_WIDTH,
        current.len() == TRACE_WIDTH,
        next.len() == TRACE_WIDTH,
        ark.len() == 2 * STATE_WIDTH,
        hash_internal_inputs.len() == RATE_WIDTH,
    ensures
        final(result)@ == spec_enforce_hash(
            old(result)@,
            current@,
            next@,
            ark@,
            hash_internal_inputs@,
            hash_flag,
            copy_hash_flag,
            *rescue,
        ),
        final(result).len() == TRACE_WIDTH,
{
    enforce_round(
        result,
        HASH,
        &current[HASH..TRACE_WIDTH],
        &next[HASH..TRACE_WIDTH],
        ark,
        hash_flag,
        rescue,
    );
    enforce_hash_copy(
        result,
        HASH,
        &current[HASH..TRACE_WIDTH],
        &next[HASH..TRACE_WIDTH],
        copy_hash_flag,
        hash_internal_inputs,
    );
}

/// The constraints of the last row of a phase: `d * vk` is taken off
/// `c * vk`; `d * vk` is added to `r * g` and `d * (ev + G)` to `r * bk`,
/// and both sums are reduced to affine coordinates; and the limbs of the
/// challenge equal the first four registers of the digest.
pub open spec fn spec_enforce_final_step(
    result: Seq<Felt>,
    current: Seq<Felt>,
    next: Seq<Felt>,
    flag: Felt,
    curve: Curve,
) -> Seq<Felt> {
    let r = spec_enforce_point_addition(
        result,
        current,
        next,
        C_VK as int,
        Projective::spec_read(current, D_VK as int).spec_neg().spec_registers(),
        flag,
        curve,
    );
    let r = spec_enforce_point_addition_reduce_affine(
        r,
        current,
        next,
        R_G as int,
        current.subrange(D_VK as int, D_VK + PROJECTIVE_POINT_WIDTH),
        flag,
        curve,
    );
    let r = spec_enforce_point_addition_reduce_affine(
        r,
        current,
        next,
        R_BK as int,
        current.subrange(D_EV as int, D_EV + PROJECTIVE_POINT_WIDTH),
        flag,
        curve,
    );
    spec_agg_range(
        r,
        C_LIMBS as int,
        flag,
        spec_diff(
            current.subrange(C_LIMBS as int, C_LIMBS + NUM_LIMBS),
            current.subrange(HASH as int, HASH + NUM_LIMBS),
        ),
    )
}

fn enforce_final_step(
    result: &mut [Felt],
    current: &[Felt],
    next: &[Felt],
    flag: Felt,
    curve: &Curve,
)
    requires
        old(result).len() == TRACE_WIDTH,
        current.len() == TRACE_WIDTH,
        next.len() == TRACE_WIDTH,
    ensures
        final(result)@ == spec_enforce_final_step(old(result)@, current@, next@, flag, *curve),
        final(result).len() == TRACE_WIDTH,
{
    let negated = compute_negation_projective(current, D_VK);
    enforce_point_addition(result, current, next, C_VK, negated.as_slice(), flag, curve);
    enforce_point_addition_reduce_affine(
        result,
        current,
        next,
        R_G,
        &current[D_VK..D_VK + PROJECTIVE_POINT_WIDTH],
        flag,
        curve,
    );
    enforce_point_addition_reduce_affine(
        result,
        current,
        next,
        R_BK,
        &current[D_EV..D_EV + PROJECTIVE_POINT_WIDTH],
        flag,
        curve,
    );
    let d = diff(&current[C_LIMBS..C_LIMBS + NUM_LIMBS], &current[HASH..HASH + NUM_LIMBS]);
    agg_range(result, C_LIMBS, flag, d.as_slice());
}

/// The transition constraints of the proof of a well-formed vote, each
/// added to its entry of `result` under its flag.
pub open spec fn spec_evaluate_constraints(
    result: Seq<Felt>,
    current: Seq<Felt>,
    next: Seq<Felt>,
    ark: Seq<Felt>,
    voting_key: Seq<Felt>,
    blinding_key: Seq<Felt>,
    encrypted_vote: Seq<Felt>,
    hash_internal_inputs: Seq<Felt>,
    doubling_flag: Felt,
    addition_flag: Felt,
    c_doubling_flag: Felt,
    c_addition_flag: Felt,
    c_copy_flag: Felt,
    hash_digest_register_flag: Seq<Felt>,
    final_point_addition_flag: Felt,
    hash_flag: Felt,
    copy_hash_flag: Felt,
    curve: Curve,
    rescue: Rescue,
) -> Seq<Felt> {
    let r = spec_enforce_scalar_muls(
        result,
        current,
        next,
        voting_key,
        blinding_key,
        encrypted_vote,
        doubling_flag,
        addition_flag,
        c_doubling_flag,
        c_addition_flag,
        c_copy_flag,
        curve,
    );
    let r = spec_enforce_limbs(
        r,
        current,
        next,
        hash_digest_register_flag,
        c_doubling_flag,
        c_addition_flag,
    );
    let r = spec_enforce_hash(
        r,
        current,
        next,
        ark,
        hash_internal_inputs,
        hash_flag,
        copy_hash_flag,
        rescue,
    );
    spec_enforce_final_step(r, current, next, final_point_addition_flag, curve)
}

/// Evaluates the transition constraints of the proof of a well-formed vote
/// on a pair of consecutive rows, and adds each, under its flag, to its
/// entry of `result`.
///
/// `voting_key`, `blinding_key`, `encrypted_vote`, `hash_internal_inputs`
/// and `ark` are the values of the periodic columns on the row, and so are
/// the flags, or products of them.
pub fn evaluate_constraints(
    result: &mut [Felt],
    current: &[Felt],
    next: &[Felt],
    ark: &[Felt],
    voting_key: &[Felt],
    blinding_key: &[Felt],
    encrypted_vote: &[Felt],
    hash_internal_inputs: &[Felt],
    doubling_flag: Felt,
    addition_flag: Felt,
    c_doubling_flag: Felt,
    c_addition_flag: Felt,
    c_copy_flag: Felt,
    hash_digest_register_flag: &[Felt],
    final_point_addition_flag: Felt,
    hash_flag: Felt,
    copy_hash_flag: Felt,
    curve: &Curve,
    rescue: &Rescue,
)
    requires
        old(result).len() == TRACE_WIDTH,
        current.len() == TRACE_WIDTH,
        next.len() == TRACE_WIDTH,
        ark.len() == 2 * STATE_WIDTH,
        voting_key.len() == AFFINE_POINT_WIDTH,
        blinding_key.len() == AFFINE_POINT_WIDTH,
        encrypted_vote.len() == AFFINE_POINT_WIDTH,
        hash_internal_inputs.len() == RATE_WIDTH,
        hash_digest_register_flag.len() == NUM_LIMBS,
    ensures
        final(result)@ == spec_evaluate_constraints(
            old(result)@,
            current@,
            next@,
            ark@,
            voting_key@,
            blinding_key@,
            encrypted_vote@,
            hash_internal_inputs@,
            doubling_flag,
            addition_flag,
            c_doubling_flag,
            c_addition_flag,
            c_copy_flag,
            hash_digest_register_flag@,
            final_point_addition_flag,
            hash_flag,
            copy_hash_flag,
            *curve,
            *rescue,
        ),
        final(result).len() == TRACE_WIDTH,
{
    enforce_scalar_muls(
        result,
        current,
        next,
        voting_key,
        blinding_key,
        encrypted_vote,
        doubling_flag,
        addition_flag,
        c_doubling_flag,
        c_addition_flag,
        c_copy_flag,
        curve,
    );
    enforce_limbs(
        result,
        current,
        next,
        hash_digest_register_flag,
        c_doubling_flag,
        c_addition_flag,
    );
    enforce_hash(
        result,
        current,
        next,
        ark,
        hash_internal_inputs,
        hash_flag,
        copy_hash_flag,
        rescue,
    );
    enforce_final_step(result, current, next, final_point_addition_flag, curve);
}

// PUBLIC INPUTS
// ================================================================================================

/// What the verifier knows of the votes: for each, the voting key, the
/// encrypted vote and the four proof points `a1`, `b1`, `a2`, `b2`; and the
/// outputs that the caller has to hold against what it expects.
#[derive(Clone, Debug)]
pub struct PublicInputs {
    pub proofs: Vec<[Felt; PROOF_WIDTH]>,
    pub outputs: Vec<[Felt; OUTPUT_WIDTH]>,
}

/// The constraint system of the proofs of a list of well-formed votes.
#[derive(Clone, Debug)]
pub struct CDSAir {
    pub context: AirContext,
    pub proofs: Vec<[Felt; PROOF_WIDTH]>,
    pub outputs: Vec<[Felt; OUTPUT_WIDTH]>,
    pub curve: Curve,
    pub rescue: Rescue,
}

impl CDSAir {
    /// There is one list of outputs for each vote, the number of votes is a
    /// power of two, and the trace fits the machine.
    pub open spec fn wf(&self) -> bool {
        &&& self.proofs@.len() == self.outputs@.len()
        &&& spec_is_power_of_two(self.proofs@.len())
        &&& self.proofs@.len() * CDS_CYCLE_LENGTH <= usize::MAX
    }

    /// The constraint system for the given public inputs.
    pub fn new(
        trace_info: TraceInfo,
        pub_inputs: PublicInputs,
        options: ProofOptions,
        curve: Curve,
        rescue: Rescue,
    ) -> (r: CDSAir)
        requires
            trace_info.width == TRACE_WIDTH,
        ensures
            r.context.trace_info == trace_info,
            r.context.options == options,
            degrees_view(r.context.transition_constraint_degrees@) == spec_transition_constraint_degrees(),
            r.proofs == pub_inputs.proofs,
            r.outputs == pub_inputs.outputs,
            r.curve == curve,
            r.rescue == rescue,
    {
        let degrees = transition_constraint_degrees();
        CDSAir {
            context: AirContext::new(trace_info, degrees, options),
            proofs: pub_inputs.proofs,
            outputs: pub_inputs.outputs,
            curve,
            rescue,
        }
    }

    /// The context of the constraint system.
    pub fn context(&self) -> (r: &AirContext)
        ensures
            *r == self.context,
    {
        &self.context
    }

    /// Evaluates the transition constraints on a pair of consecutive rows
    /// and the values of the periodic columns on the first of them, and adds
    /// each to its entry of `result`.
    pub fn evaluate_transition(
        &self,
        current: &[Felt],
        next: &[Felt],
        periodic_values: &[Felt],
        result: &mut [Felt],
    )
        requires
            current.len() == TRACE_WIDTH,
            next.len() == TRACE_WIDTH,
            periodic_values.len() == NUM_PERIODIC_COLUMNS,
            old(result).len() == TRACE_WIDTH,
        ensures
            final(result)@ == spec_evaluate_transition(
                old(result)@,
                current@,
                next@,
                periodic_values@,
                self.curve,
                self.rescue,
            ),
            final(result).len() == TRACE_WIDTH,
    {
        let global_mask = periodic_values[0];
        let phase_mask = periodic_values[1];
        let c_mult_flag = periodic_values[2];
        let scalar_mult_flag = periodic_values[3];
        let doubling_flag = periodic_values[4];
        let hash_flag = periodic_values[HASH_FLAG_COLUMN];

        let copy_hash_flag = not(hash_flag).mul(global_mask);
        let final_point_addition_flag = not(scalar_mult_flag).mul(phase_mask);
        let c_doubling_flag = doubling_flag.mul(c_mult_flag);
        let c_addition_flag = not(doubling_flag).mul(c_mult_flag);
        let c_copy_flag = not(c_mult_flag).mul(not(final_point_addition_flag)).mul(global_mask);
        let addition_flag = not(doubling_flag).mul(scalar_mult_flag);

        evaluate_constraints(
            result,
            current,
            next,
            &periodic_values[ARK_COLUMN..NUM_PERIODIC_COLUMNS],
            &periodic_values[VOTING_KEY_COLUMN..BLINDING_KEY_COLUMN],
            &periodic_values[BLINDING_KEY_COLUMN..ENCRYPTED_VOTE_COLUMN],
            &periodic_values[ENCRYPTED_VOTE_COLUMN..HASH_FLAG_COLUMN],
            &periodic_values[HASH_INPUT_COLUMN..ARK_COLUMN],
            doubling_flag,
            addition_flag,
            c_doubling_flag,
            c_addition_flag,
            c_copy_flag,
            &periodic_values[5..VOTING_KEY_COLUMN],
            final_point_addition_flag,
            hash_flag,
            copy_hash_flag,
            &self.curve,
            &self.rescue,
        );
    }
}

/// The transition constraints on a pair of rows, with the flags that the
/// values of the periodic columns make.
pub open spec fn spec_evaluate_transition(
    result: Seq<Felt>,
    current: Seq<Felt>,
    next: Seq<Felt>,
    periodic_values: Seq<Felt>,
    curve: Curve,
    rescue: Rescue,
) -> Seq<Felt> {
    let global_mask = periodic_values[0];
    let phase_mask = periodic_values[1];
    let c_mult_flag = periodic_values[2];
    let scalar_mult_flag = periodic_values[3];
    let doubling_flag = periodic_values[4];
    let hash_flag = periodic_values[HASH_FLAG_COLUMN as int];
    let final_point_addition_flag = spec_not(scalar_mult_flag).spec_mul(phase_mask);
    spec_evaluate_constraints(
        result,
        current,
        next,
        periodic_values.subrange(ARK_COLUMN as int, NUM_PERIODIC_COLUMNS as int),
        periodic_values.subrange(VOTING_KEY_COLUMN as int, BLINDING_KEY_COLUMN as int),
        periodic_values.subrange(BLINDING_KEY_COLUMN as int, ENCRYPTED_VOTE_COLUMN as int),
        periodic_values.subrange(ENCRYPTED_VOTE_COLUMN as int, HASH_FLAG_COLUMN as int),
        periodic_values.subrange(HASH_INPUT_COLUMN as int, ARK_COLUMN as int),
        doubling_flag,
        spec_not(doubling_flag).spec_mul(scalar_mult_flag),
        doubling_flag.spec_mul(c_mult_flag),
        spec_not(doubling_flag).spec_mul(c_mult_flag),
        spec_not(c_mult_flag).spec_mul(spec_not(final_point_addition_flag)).spec_mul(global_mask),
        periodic_values.subrange(5, VOTING_KEY_COLUMN as int),
        final_point_addition_flag,
        hash_flag,
        spec_not(hash_flag).spec_mul(global_mask),
        curve,
        rescue,
    )
}

// PERIODIC FLAGS
// ================================================================================================

/// The flags of the cycle of one vote, in the order of their columns:
/// the mask of the cycle, the mask of a phase, the flag of the
/// multiplication by `c`, the flag of the other multiplications, the flag of
/// a doubling row, the flag of each of the four limbs of `c`, and the flag
/// of a hash round.
pub open spec fn spec_periodic_columns() -> Seq<Seq<Felt>> {
    seq![
        spec_flag_column(CDS_CYCLE_LENGTH as nat, 0, CDS_CYCLE_LENGTH - 1, 1, 1),
        spec_flag_column(NROWS_PER_PHASE as nat, 0, SCALAR_MUL_LENGTH + 1, 1, 1),
        spec_flag_column(CDS_CYCLE_LENGTH as nat, 0, SCALAR_MUL_LENGTH as int, 1, 1),
        spec_flag_column(NROWS_PER_PHASE as nat, 0, SCALAR_MUL_LENGTH as int, 1, 1),
        spec_flag_column(NROWS_PER_PHASE as nat, 0, SCALAR_MUL_LENGTH as int, 2, 1),
        spec_flag_column(CDS_CYCLE_LENGTH as nat, 0, 126, 1, 1),
        spec_flag_column(CDS_CYCLE_LENGTH as nat, 126, 254, 1, 1),
        spec_flag_column(CDS_CYCLE_LENGTH as nat, 254, 382, 1, 1),
        spec_flag_column(CDS_CYCLE_LENGTH as nat, 382, 510, 1, 1),
        spec_flag_column(
            CDS_CYCLE_LENGTH as nat,
            0,
            TOTAL_HASH_LENGTH as int,
            HASH_CYCLE_LENGTH as int,
            NUM_HASH_ROUNDS as int,
        ),
    ]
}

/// The flags of the cycle of one vote, as periodic columns.
pub fn periodic_columns() -> (r: Vec<Vec<Felt>>)
    ensures
        columns_view(r@) == spec_periodic_columns(),
        r.len() == 10,
{
    let mut r: Vec<Vec<Felt>> = Vec::with_capacity(10);
    r.push(flag_column(CDS_CYCLE_LENGTH, 0, CDS_CYCLE_LENGTH - 1, 1, 1));
    r.push(flag_column(NROWS_PER_PHASE, 0, SCALAR_MUL_LENGTH + 1, 1, 1));
    r.push(flag_column(CDS_CYCLE_LENGTH, 0, SCALAR_MUL_LENGTH, 1, 1));
    r.push(flag_column(NROWS_PER_PHASE, 0, SCALAR_MUL_LENGTH, 1, 1));
    r.push(flag_column(NROWS_PER_PHASE, 0, SCALAR_MUL_LENGTH, 2, 1));
    r.push(flag_column(CDS_CYCLE_LENGTH, 0, 126, 1, 1));
    r.push(flag_column(CDS_CYCLE_LENGTH, 126, 254, 1, 1));
    r.push(flag_column(CDS_CYCLE_LENGTH, 254, 382, 1, 1));
    r.push(flag_column(CDS_CYCLE_LENGTH, 382, 510, 1, 1));
    r.push(flag_column(CDS_CYCLE_LENGTH, 0, TOTAL_HASH_LENGTH, HASH_CYCLE_LENGTH, NUM_HASH_ROUNDS));
    assert(columns_view(r@) =~~= spec_periodic_columns());
    r
}

// DEGREES
// ================================================================================================

/// The declared degree of constraint `i`.
pub open spec fn spec_degree_at(i: int) -> DegreeView {
    let phase = NROWS_PER_PHASE;
    let cycle = CDS_CYCLE_LENGTH;
    if i < C_BIT {
        DegreeView { base: 5, cycles: seq![phase, cycle] }
    } else if i == C_BIT {
        DegreeView { base: 2, cycles: seq![phase, cycle] }
    } else if i < R_G + 6 {
        DegreeView { base: 5, cycles: seq![phase, phase] }
    } else if i < R_G + 12 {
        DegreeView { base: 4, cycles: seq![phase] }
    } else if i < R_BK {
        DegreeView { base: 4, cycles: seq![phase, phase] }
    } else if i < R_BIT {
        DegreeView { base: 5, cycles: seq![phase, phase] }
    } else if i == R_BIT {
        DegreeView { base: 2, cycles: seq![phase] }
    } else if i < D_BIT {
        DegreeView { base: 5, cycles: seq![phase, phase] }
    } else if i == D_BIT {
        DegreeView { base: 2, cycles: seq![phase] }
    } else if i < HASH {
        DegreeView { base: 1, cycles: seq![phase, cycle, cycle] }
    } else {
        DegreeView { base: 3, cycles: seq![cycle] }
    }
}

/// The declared degrees of the transition constraints.
pub open spec fn spec_transition_constraint_degrees() -> Seq<DegreeView> {
    Seq::new(TRACE_WIDTH as nat, |i: int| spec_degree_at(i))
}

fn cycles_of(first: usize, second: usize, third: usize) -> (r: Vec<usize>)
    ensures
        r@ == if second == 0 {
            seq![first]
        } else if third == 0 {
            seq![first, second]
        } else {
            seq![first, second, third]
        },
{
    let mut r: Vec<usize> = Vec::with_capacity(3);
    r.push(first);
    if second != 0 {
        r.push(second);
        if third != 0 {
            r.push(third);
        }
    }
    proof {
        if second == 0 {
            assert(r@ =~= seq![first]);
        } else if third == 0 {
            assert(r@ =~= seq![first, second]);
        } else {
            assert(r@ =~= seq![first, second, third]);
        }
    }
    r
}

fn push_degrees(
    degrees: &mut Vec<TransitionConstraintDegree>,
    count: usize,
    base: usize,
    first: usize,
    second: usize,
    third: usize,
)
    requires
        base > 0,
        first == NROWS_PER_PHASE || first == CDS_CYCLE_LENGTH,
        second == 0 || second == NROWS_PER_PHASE || second == CDS_CYCLE_LENGTH,
        third == 0 || third == NROWS_PER_PHASE || third == CDS_CYCLE_LENGTH,
    ensures
        final(degrees).len() == old(degrees).len() + count,
        forall|i: int| 0 <= i < old(degrees).len() ==> final(degrees)@[i] == old(degrees)@[i],
        forall|i: int|
            old(degrees).len() <= i < final(degrees).len() ==> (#[trigger] final(degrees)@[i])@
                == (DegreeView {
                base,
                cycles: if second == 0 {
                    seq![first]
                } else if third == 0 {
                    seq![first, second]
                } else {
                    seq![first, second, third]
                },
            }),
{
    let mut k: usize = 0;
    while k < count
        invariant
            base > 0,
            first == NROWS_PER_PHASE || first == CDS_CYCLE_LENGTH,
            second == 0 || second == NROWS_PER_PHASE || second == CDS_CYCLE_LENGTH,
            third == 0 || third == NROWS_PER_PHASE || third == CDS_CYCLE_LENGTH,
            k <= count,
            degrees.len() == old(degrees).len() + k,
            forall|i: int| 0 <= i < old(degrees).len() ==> degrees@[i] == old(degrees)@[i],
            forall|i: int|
                old(degrees).len() <= i < degrees.len() ==> (#[trigger] degrees@[i])@
                    == (DegreeView {
                    base,
                    cycles: if second == 0 {
                        seq![first]
                    } else if third == 0 {
                        seq![first, second]
                    } else {
                        seq![first, second, third]
                    },
                }),
        decreases count - k,
    {
        let cycles = cycles_of(first, second, third);
        proof {
            lemma_cycle_lengths_are_powers_of_two();
        }
        degrees.push(TransitionConstraintDegree::with_cycles(base, cycles));
        k += 1;
    }
}

/// The declared degrees of the transition constraints, one for each
/// register of the trace.
pub fn transition_constraint_degrees() -> (r: Vec<TransitionConstraintDegree>)
    ensures
        degrees_view(r@) == spec_transition_constraint_degrees(),
        r.len() == TRACE_WIDTH,
{
    let phase = NROWS_PER_PHASE;
    let cycle = CDS_CYCLE_LENGTH;
    let mut degrees: Vec<TransitionConstraintDegree> = Vec::with_capacity(TRACE_WIDTH);
    // c * vk and its bit
    push_degrees(&mut degrees, PROJECTIVE_POINT_WIDTH, 5, phase, cycle, 0);
    push_degrees(&mut degrees, 1, 2, phase, cycle, 0);
    // r * g, whose x and y also hold the reduced coordinates
    push_degrees(&mut degrees, 6, 5, phase, phase, 0);
    push_degrees(&mut degrees, 6, 4, phase, 0, 0);
    push_degrees(&mut degrees, 6, 4, phase, phase, 0);
    // r * bk and the bit of r
    push_degrees(&mut degrees, PROJECTIVE_POINT_WIDTH, 5, phase, phase, 0);
    push_degrees(&mut degrees, 1, 2, phase, 0, 0);
    // d * vk, d * (ev + G) and the bit of d
    push_degrees(&mut degrees, 2 * PROJECTIVE_POINT_WIDTH, 5, phase, phase, 0);
    push_degrees(&mut degrees, 1, 2, phase, 0, 0);
    // the limbs of c
    push_degrees(&mut degrees, NUM_LIMBS, 1, phase, cycle, cycle);
    // the hash state
    push_degrees(&mut degrees, STATE_WIDTH, 3, cycle, 0, 0);
    assert(degrees_view(degrees@) =~~= spec_transition_constraint_degrees());
    degrees
}

// ASSERTIONS
// ================================================================================================

/// The values that register `i` of a reduced point takes at the end of the
/// phases, vote after vote: the claimed coordinate of `a1` or `b1` (for
/// `first` 0 or 12) plus its output, then that of `a2` or `b2`.
pub open spec fn spec_point_values(
    proofs: Seq<[Felt; PROOF_WIDTH]>,
    outputs: Seq<[Felt; OUTPUT_WIDTH]>,
    i: int,
    first: int,
) -> Seq<Felt> {
    Seq::new(
        2 * proofs.len(),
        |j: int|
            proofs[j / 2][2 * AFFINE_POINT_WIDTH + first + 2 * AFFINE_POINT_WIDTH * (j % 2)
                + i].spec_add(outputs[j / 2][first + 2 * AFFINE_POINT_WIDTH * (j % 2) + i]),
    )
}

/// The values that coordinate `i` of `(c - d1 - d2) * vk` takes at the end
/// of the cycles, vote after vote: the first six are those of its `X`, the
/// other six those of its `Z`.
pub open spec fn spec_c_diff_values(outputs: Seq<[Felt; OUTPUT_WIDTH]>, i: int) -> Seq<Felt> {
    Seq::new(outputs.len(), |k: int| outputs[k][4 * AFFINE_POINT_WIDTH + i])
}

fn point_values(
    proofs: &Vec<[Felt; PROOF_WIDTH]>,
    outputs: &Vec<[Felt; OUTPUT_WIDTH]>,
    i: usize,
    first: usize,
) -> (r: Vec<Felt>)
    requires
        proofs.len() == outputs.len(),
        2 * proofs.len() <= usize::MAX,
        i < AFFINE_POINT_WIDTH,
        first == 0 || first == AFFINE_POINT_WIDTH,
    ensures
        r@ == spec_point_values(proofs@, outputs@, i as int, first as int),
        r.len() == 2 * proofs.len(),
{
    let n = proofs.len();
    let mut r: Vec<Felt> = Vec::with_capacity(2 * n);
    let mut k: usize = 0;
    while k < n
        invariant
            n == proofs.len(),
            n == outputs.len(),
            2 * n <= usize::MAX,
            i < AFFINE_POINT_WIDTH,
            first == 0 || first == AFFINE_POINT_WIDTH,
            k <= n,
            r.len() == 2 * k,
            forall|j: int|
                0 <= j < 2 * k ==> r@[j] == proofs@[j / 2][2 * AFFINE_POINT_WIDTH + first + 2
                    * AFFINE_POINT_WIDTH * (j % 2) + i].spec_add(
                    outputs@[j / 2][first + 2 * AFFINE_POINT_WIDTH * (j % 2) + i],
                ),
        decreases n - k,
    {
        let proof = &proofs[k];
        let output = &outputs[k];
        r.push(proof[2 * AFFINE_POINT_WIDTH + first + i].add(output[first + i]));
        r.push(
            proof[4 * AFFINE_POINT_WIDTH + first + i].add(
                output[2 * AFFINE_POINT_WIDTH + first + i],
            ),
        );
        k += 1;
    }
    assert(r@ =~= spec_point_values(proofs@, outputs@, i as int, first as int));
    r
}

fn c_diff_values(outputs: &Vec<[Felt; OUTPUT_WIDTH]>, i: usize) -> (r: Vec<Felt>)
    requires
        i < AFFINE_POINT_WIDTH,
    ensures
        r@ == spec_c_diff_values(outputs@, i as int),
        r.len() == outputs.len(),
{
    let n = outputs.len();
    let mut r: Vec<Felt> = Vec::with_capacity(n);
    let mut k: usize = 0;
    while k < n
        invariant
            n == outputs.len(),
            i < AFFINE_POINT_WIDTH,
            k <= n,
            r.len() == k,
            forall|j: int| 0 <= j < k ==> r@[j] == outputs@[j][4 * AFFINE_POINT_WIDTH + i],
        decreases n - k,
    {
        let output = &outputs[k];
        r.push(output[4 * AFFINE_POINT_WIDTH + i]);
        k += 1;
    }
    assert(r@ =~= spec_c_diff_values(outputs@, i as int));
    r
}

/// The claims and the outputs turned from one list for each vote into one
/// list for each register: the values of `a1`, `a2` along the phases, those
/// of `b1`, `b2`, and the coordinates of `(c - d1 - d2) * vk` along the
/// cycles.
pub fn transpose_proof_points(
    proofs: &Vec<[Felt; PROOF_WIDTH]>,
    outputs: &Vec<[Felt; OUTPUT_WIDTH]>,
) -> (r: (Vec<Vec<Felt>>, Vec<Vec<Felt>>, Vec<Vec<Felt>>))
    requires
        proofs.len() == outputs.len(),
        2 * proofs.len() <= usize::MAX,
    ensures
        r.0.len() == AFFINE_POINT_WIDTH,
        r.1.len() == AFFINE_POINT_WIDTH,
        r.2.len() == AFFINE_POINT_WIDTH,
        forall|i: int|
            0 <= i < AFFINE_POINT_WIDTH ==> (#[trigger] r.0@[i])@ == spec_point_values(
                proofs@,
                outputs@,
                i,
                0,
            ),
        forall|i: int|
            0 <= i < AFFINE_POINT_WIDTH ==> (#[trigger] r.1@[i])@ == spec_point_values(
                proofs@,
                outputs@,
                i,
                AFFINE_POINT_WIDTH as int,
            ),
        forall|i: int|
            0 <= i < AFFINE_POINT_WIDTH ==> (#[trigger] r.2@[i])@ == spec_c_diff_values(
                outputs@,
                i,
            ),
{
    let mut result1: Vec<Vec<Felt>> = Vec::with_capacity(AFFINE_POINT_WIDTH);
    let mut result2: Vec<Vec<Felt>> = Vec::with_capacity(AFFINE_POINT_WIDTH);
    let mut result3: Vec<Vec<Felt>> = Vec::with_capacity(AFFINE_POINT_WIDTH);
    let mut i: usize = 0;
    while i < AFFINE_POINT_WIDTH
        invariant
            proofs.len() == outputs.len(),
            2 * proofs.len() <= usize::MAX,
            i <= AFFINE_POINT_WIDTH,
            result1.len() == i,
            result2.len() == i,
            result3.len() == i,
            forall|j: int|
                0 <= j < i ==> (#[trigger] result1@[j])@ == spec_point_values(
                    proofs@,
                    outputs@,
                    j,
                    0,
                ),
            forall|j: int|
                0 <= j < i ==> (#[trigger] result2@[j])@ == spec_point_values(
                    proofs@,
                    outputs@,
                    j,
                    AFFINE_POINT_WIDTH as int,
                ),
            forall|j: int|
                0 <= j < i ==> (#[trigger] result3@[j])@ == spec_c_diff_values(outputs@, j),
        decreases AFFINE_POINT_WIDTH - i,
    {
        result1.push(point_values(proofs, outputs, i, 0));
        result2.push(point_values(proofs, outputs, i, AFFINE_POINT_WIDTH));
        result3.push(c_diff_values(outputs, i));
        i += 1;
    }
    (result1, result2, result3)
}

/// Assertion `k` of the constraint system, in the order of
/// [`CDSAir::get_assertions`].
pub open spec fn spec_assertion_at(
    proofs: Seq<[Felt; PROOF_WIDTH]>,
    outputs: Seq<[Felt; OUTPUT_WIDTH]>,
    k: int,
) -> AssertionView {
    let n = proofs.len() as int;
    let zero = Felt::spec_zero();
    if k < 90 {
        // the five points start each phase, or each cycle, at the identity
        let i = k / 5;
        let value = Felt::spec_from_bool(i == 6);
        if k % 5 == 0 {
            AssertionView::Periodic {
                column: i as usize,
                first_step: 0,
                stride: CDS_CYCLE_LENGTH,
                value,
            }
        } else if k % 5 == 1 {
            AssertionView::Periodic {
                column: (i + R_G) as usize,
                first_step: 0,
                stride: NROWS_PER_PHASE,
                value,
            }
        } else if k % 5 == 2 {
            AssertionView::Periodic {
                column: (i + R_BK) as usize,
                first_step: 0,
                stride: NROWS_PER_PHASE,
                value,
            }
        } else if k % 5 == 3 {
            AssertionView::Periodic {
                column: (i + D_VK) as usize,
                first_step: 0,
                stride: NROWS_PER_PHASE,
                value,
            }
        } else {
            AssertionView::Periodic {
                column: (i + D_EV) as usize,
                first_step: 0,
                stride: NROWS_PER_PHASE,
                value,
            }
        }
    } else if k < 93 {
        // the three bits start each phase at zero
        AssertionView::Periodic {
            column: if k == 90 {
                C_BIT
            } else if k == 91 {
                R_BIT
            } else {
                D_BIT
            },
            first_step: 0,
            stride: NROWS_PER_PHASE,
            value: zero,
        }
    } else if k < 97 {
        // the limbs of c start each cycle at zero
        AssertionView::Periodic {
            column: k as usize,
            first_step: 0,
            stride: CDS_CYCLE_LENGTH,
            value: zero,
        }
    } else if k < 97 + n {
        // the hash state starts the cycle of a voter with the index of the voter
        AssertionView::Single {
            column: HASH,
            step: ((k - 97) * CDS_CYCLE_LENGTH) as usize,
            value: Felt::spec_new(((k - 97) % 256) as u64),
        }
    } else if k < 110 + n {
        // followed by zeros
        AssertionView::Periodic {
            column: (k - (97 + n) + 1 + HASH) as usize,
            first_step: 0,
            stride: CDS_CYCLE_LENGTH,
            value: zero,
        }
    } else if k < 134 + n {
        // each phase ends with the reduced a and b
        let j = k - (110 + n);
        if j % 2 == 0 {
            AssertionView::Sequence {
                column: (j / 2 + R_G) as usize,
                first_step: (SCALAR_MUL_LENGTH + 1) as usize,
                stride: NROWS_PER_PHASE,
                values: spec_point_values(proofs, outputs, j / 2, 0),
            }
        } else {
            AssertionView::Sequence {
                column: (j / 2 + R_BK) as usize,
                first_step: (SCALAR_MUL_LENGTH + 1) as usize,
                stride: NROWS_PER_PHASE,
                values: spec_point_values(proofs, outputs, j / 2, AFFINE_POINT_WIDTH as int),
            }
        }
    } else {
        // each cycle ends with the X and the Z of (c - d1 - d2) * vk
        let j = k - (134 + n);
        if j % 2 == 0 {
            AssertionView::Sequence {
                column: (j / 2) as usize,
                first_step: (CDS_CYCLE_LENGTH - 1) as usize,
                stride: CDS_CYCLE_LENGTH,
                values: spec_c_diff_values(outputs, j / 2),
            }
        } else {
            AssertionView::Sequence {
                column: (j / 2 + AFFINE_POINT_WIDTH) as usize,
                first_step: (CDS_CYCLE_LENGTH - 1) as usize,
                stride: CDS_CYCLE_LENGTH,
                values: spec_c_diff_values(outputs, j / 2 + 6),
            }
        }
    }
}

/// The boundary assertions of the constraint system.
pub open spec fn spec_get_assertions(
    proofs: Seq<[Felt; PROOF_WIDTH]>,
    outputs: Seq<[Felt; OUTPUT_WIDTH]>,
) -> Seq<AssertionView> {
    Seq::new((146 + proofs.len()) as nat, |k: int| spec_assertion_at(proofs, outputs, k))
}

impl CDSAir {
    /// The boundary assertions: where each phase and each cycle starts, and
    /// what each ends with.
    pub fn get_assertions(&self) -> (r: Vec<Assertion>)
        requires
            self.wf(),
        ensures
            assertions_view(r@) == spec_get_assertions(self.proofs@, self.outputs@),
    {
        let n = self.proofs.len();
        let ghost proofs = self.proofs@;
        let ghost outputs = self.outputs@;
        proof {
            lemma_cycle_lengths_are_powers_of_two();
            lemma_double_is_power_of_two(n as nat);
        }
        let (proof_points_a, proof_points_b, c_diff_value) = transpose_proof_points(
            &self.proofs,
            &self.outputs,
        );
        let mut assertions: Vec<Assertion> = Vec::new();

        // START OF CYCLE
        let mut i: usize = 0;
        while i < PROJECTIVE_POINT_WIDTH
            invariant
                i <= PROJECTIVE_POINT_WIDTH,
                assertions.len() == 5 * i,
                spec_is_power_of_two(512),
                spec_is_power_of_two(1024),
                forall|k: int|
                    0 <= k < assertions.len() ==> (#[trigger] assertions@[k])@
                        == spec_assertion_at(proofs, outputs, k),
            decreases PROJECTIVE_POINT_WIDTH - i,
        {
            let value = Felt::from_bool(i == 6);
            assertions.push(Assertion::periodic(i, 0, CDS_CYCLE_LENGTH, value));
            assertions.push(Assertion::periodic(i + R_G, 0, NROWS_PER_PHASE, value));
            assertions.push(Assertion::periodic(i + R_BK, 0, NROWS_PER_PHASE, value));
            assertions.push(Assertion::periodic(i + D_VK, 0, NROWS_PER_PHASE, value));
            assertions.push(Assertion::periodic(i + D_EV, 0, NROWS_PER_PHASE, value));
            i += 1;
        }
        assertions.push(Assertion::periodic(C_BIT, 0, NROWS_PER_PHASE, Felt::zero()));
        assertions.push(Assertion::periodic(R_BIT, 0, NROWS_PER_PHASE, Felt::zero()));
        assertions.push(Assertion::periodic(D_BIT, 0, NROWS_PER_PHASE, Felt::zero()));
        let mut i: usize = 0;
        while i < NUM_LIMBS
            invariant
                i <= NUM_LIMBS,
                assertions.len() == 93 + i,
                spec_is_power_of_two(1024),
                forall|k: int|
                    0 <= k < assertions.len() ==> (#[trigger] assertions@[k])@
                        == spec_assertion_at(proofs, outputs, k),
            decreases NUM_LIMBS - i,
        {
            assertions.push(Assertion::periodic(i + C_LIMBS, 0, CDS_CYCLE_LENGTH, Felt::zero()));
            i += 1;
        }
        let mut i: usize = 0;
        while i < n
            invariant
                n == proofs.len(),
                n * CDS_CYCLE_LENGTH <= usize::MAX,
                i <= n,
                assertions.len() == 97 + i,
                forall|k: int|
                    0 <= k < assertions.len() ==> (#[trigger] assertions@[k])@
                        == spec_assertion_at(proofs, outputs, k),
            decreases n - i,
        {
            assert(i * CDS_CYCLE_LENGTH <= n * CDS_CYCLE_LENGTH) by (nonlinear_arith)
                requires
                    i <= n,
            ;
            assertions.push(
                Assertion::single(HASH, i * CDS_CYCLE_LENGTH, Felt::new((i % 256) as u64)),
            );
            i += 1;
        }
        let mut i: usize = 1;
        while i < STATE_WIDTH
            invariant
                n == proofs.len(),
                n * CDS_CYCLE_LENGTH <= usize::MAX,
                1 <= i <= STATE_WIDTH,
                assertions.len() == 97 + n + i - 1,
                spec_is_power_of_two(1024),
                forall|k: int|
                    0 <= k < assertions.len() ==> (#[trigger] assertions@[k])@
                        == spec_assertion_at(proofs, outputs, k),
            decreases STATE_WIDTH - i,
        {
            assertions.push(Assertion::periodic(i + HASH, 0, CDS_CYCLE_LENGTH, Felt::zero()));
            i += 1;
        }

        // END OF PHASE
        let mut i: usize = 0;
        while i < AFFINE_POINT_WIDTH
            invariant
                n == proofs.len(),
                n * CDS_CYCLE_LENGTH <= usize::MAX,
                i <= AFFINE_POINT_WIDTH,
                assertions.len() == 110 + n + 2 * i,
                spec_is_power_of_two(512),
                spec_is_power_of_two(2 * n as nat),
                proof_points_a.len() == AFFINE_POINT_WIDTH,
                proof_points_b.len() == AFFINE_POINT_WIDTH,
                forall|j: int|
                    0 <= j < AFFINE_POINT_WIDTH ==> (#[trigger] proof_points_a@[j])@
                        == spec_point_values(proofs, outputs, j, 0),
                forall|j: int|
                    0 <= j < AFFINE_POINT_WIDTH ==> (#[trigger] proof_points_b@[j])@
                        == spec_point_values(proofs, outputs, j, AFFINE_POINT_WIDTH as int),
                forall|k: int|
                    0 <= k < assertions.len() ==> (#[trigger] assertions@[k])@
                        == spec_assertion_at(proofs, outputs, k),
            decreases AFFINE_POINT_WIDTH - i,
        {
            let values_a = copy_of(proof_points_a[i].as_slice());
            let values_b = copy_of(proof_points_b[i].as_slice());
            assert(values_a@.len() == 2 * n);
            assert(values_b@.len() == 2 * n);
            assertions.push(
                Assertion::sequence(i + R_G, SCALAR_MUL_LENGTH + 1, NROWS_PER_PHASE, values_a),
            );
            assertions.push(
                Assertion::sequence(i + R_BK, SCALAR_MUL_LENGTH + 1, NROWS_PER_PHASE, values_b),
            );
            i += 1;
        }

        // END OF CYCLE
        let mut i: usize = 0;
        while i < 6
            invariant
                n == proofs.len(),
                n == outputs.len(),
                n * CDS_CYCLE_LENGTH <= usize::MAX,
                i <= 6,
                assertions.len() == 134 + n + 2 * i,
                spec_is_power_of_two(1024),
                spec_is_power_of_two(n as nat),
                c_diff_value.len() == AFFINE_POINT_WIDTH,
                forall|j: int|
                    0 <= j < AFFINE_POINT_WIDTH ==> (#[trigger] c_diff_value@[j])@
                        == spec_c_diff_values(outputs, j),
                forall|k: int|
                    0 <= k < assertions.len() ==> (#[trigger] assertions@[k])@
                        == spec_assertion_at(proofs, outputs, k),
            decreases 6 - i,
        {
            let values_x = copy_of(c_diff_value[i].as_slice());
            let values_z = copy_of(c_diff_value[i + 6].as_slice());
            assert(values_x@.len() == n);
            assert(values_z@.len() == n);
            assertions.push(
                Assertion::sequence(i, CDS_CYCLE_LENGTH - 1, CDS_CYCLE_LENGTH, values_x),
            );
            assertions.push(
                Assertion::sequence(
                    i + AFFINE_POINT_WIDTH,
                    CDS_CYCLE_LENGTH - 1,
                    CDS_CYCLE_LENGTH,
                    values_z,
                ),
            );
            i += 1;
        }
        assert(assertions_view(assertions@) =~= spec_get_assertions(proofs, outputs));
        assertions
    }
}

// PERIODIC VALUES
// ================================================================================================

/// The voting key of each vote: the first twelve elements of its statement.
pub open spec fn spec_voting_keys(proofs: Seq<[Felt; PROOF_WIDTH]>) -> Seq<Seq<Felt>> {
    Seq::new(proofs.len(), |k: int| proofs[k]@.subrange(0, AFFINE_POINT_WIDTH as int))
}

/// Column `i` of two tables with one row for each vote: the first is held
/// over the first phase of the vote, the second over the second.
pub open spec fn spec_phase_column(first: Seq<Seq<Felt>>, second: Seq<Seq<Felt>>, i: int) -> Seq<
    Felt,
> {
    Seq::new(
        (first.len() * CDS_CYCLE_LENGTH) as nat,
        |r: int|
            if r % (CDS_CYCLE_LENGTH as int) < NROWS_PER_PHASE {
                first[r / (CDS_CYCLE_LENGTH as int)][i]
            } else {
                second[r / (CDS_CYCLE_LENGTH as int)][i]
            },
    )
}

/// Element `e` of the message that is hashed into the challenge of a vote,
/// but for its first element, which no periodic column needs.
pub open spec fn spec_message_element(proof: Seq<Felt>, e: int) -> Felt {
    if e < AFFINE_POINT_WIDTH {
        Felt::spec_zero()
    } else {
        proof[e - AFFINE_POINT_WIDTH]
    }
}

/// Column `j` of the chunks that enter the hash state: on the last row of
/// each hash cycle but the last, element `j` of the next chunk of the
/// message of the vote; zero elsewhere.
pub open spec fn spec_hash_input_column(proofs: Seq<[Felt; PROOF_WIDTH]>, j: int) -> Seq<Felt> {
    Seq::new(
        (proofs.len() * CDS_CYCLE_LENGTH) as nat,
        |r: int|
            {
                let step = r % (CDS_CYCLE_LENGTH as int);
                if step % (HASH_CYCLE_LENGTH as int) == NUM_HASH_ROUNDS && step < TOTAL_HASH_LENGTH
                    - HASH_CYCLE_LENGTH {
                    spec_message_element(
                        proofs[r / (CDS_CYCLE_LENGTH as int)]@,
                        j + (step / (HASH_CYCLE_LENGTH as int) + 1) * RATE_WIDTH,
                    )
                } else {
                    Felt::spec_zero()
                }
            },
    )
}

/// The vote plus the generator, for each vote.
pub open spec fn spec_votes_plus(proofs: Seq<[Felt; PROOF_WIDTH]>, curve: Curve) -> Seq<Seq<Felt>> {
    Seq::new(
        proofs.len(),
        |k: int|
            spec_prepare_encrypted_votes(
                proofs[k]@.subrange(AFFINE_POINT_WIDTH as int, 2 * AFFINE_POINT_WIDTH),
                curve,
            ).0,
    )
}

/// The vote minus the generator, for each vote.
pub open spec fn spec_votes_minus(proofs: Seq<[Felt; PROOF_WIDTH]>, curve: Curve) -> Seq<
    Seq<Felt>,
> {
    Seq::new(
        proofs.len(),
        |k: int|
            spec_prepare_encrypted_votes(
                proofs[k]@.subrange(AFFINE_POINT_WIDTH as int, 2 * AFFINE_POINT_WIDTH),
                curve,
            ).1,
    )
}

/// Periodic column `c` of the constraint system.
pub open spec fn spec_periodic_column(
    proofs: Seq<[Felt; PROOF_WIDTH]>,
    curve: Curve,
    rescue: Rescue,
    c: int,
) -> Seq<Felt> {
    if c < VOTING_KEY_COLUMN {
        spec_periodic_columns()[c]
    } else if c < BLINDING_KEY_COLUMN {
        spec_spread_column(
            spec_voting_keys(proofs),
            c - VOTING_KEY_COLUMN,
            CDS_CYCLE_LENGTH as nat,
        )
    } else if c < ENCRYPTED_VOTE_COLUMN {
        spec_spread_column(
            spec_blinding_keys(spec_voting_keys(proofs), curve),
            c - BLINDING_KEY_COLUMN,
            CDS_CYCLE_LENGTH as nat,
        )
    } else if c < HASH_FLAG_COLUMN {
        spec_phase_column(
            spec_votes_plus(proofs, curve),
            spec_votes_minus(proofs, curve),
            c - ENCRYPTED_VOTE_COLUMN,
        )
    } else if c == HASH_FLAG_COLUMN {
        spec_periodic_columns()[9]
    } else if c < ARK_COLUMN {
        spec_hash_input_column(proofs, c - HASH_INPUT_COLUMN)
    } else {
        spec_round_constant_column(rescue, c - ARK_COLUMN)
    }
}

/// The periodic columns of the constraint system: nine flags, the voting
/// key, the blinding key and the encrypted vote of the cycle, the flag of
/// the hash, the chunks that enter the hash state, and the round constants.
pub open spec fn spec_get_periodic_column_values(
    proofs: Seq<[Felt; PROOF_WIDTH]>,
    curve: Curve,
    rescue: Rescue,
) -> Seq<Seq<Felt>> {
    Seq::new(NUM_PERIODIC_COLUMNS as nat, |c: int| spec_periodic_column(proofs, curve, rescue, c))
}

fn phase_column(first: &Vec<Vec<Felt>>, second: &Vec<Vec<Felt>>, i: usize) -> (r: Vec<Felt>)
    requires
        first.len() == second.len(),
        first.len() * CDS_CYCLE_LENGTH <= usize::MAX,
        forall|k: int| 0 <= k < first.len() ==> i < (#[trigger] first@[k]).len(),
        forall|k: int| 0 <= k < second.len() ==> i < (#[trigger] second@[k]).len(),
    ensures
        r@ == spec_phase_column(columns_view(first@), columns_view(second@), i as int),
{
    let n = first.len();
    let mut r: Vec<Felt> = Vec::with_capacity(n * CDS_CYCLE_LENGTH);
    let mut k: usize = 0;
    while k < n
        invariant
            n == first.len(),
            n == second.len(),
            n * CDS_CYCLE_LENGTH <= usize::MAX,
            forall|k: int| 0 <= k < first.len() ==> i < (#[trigger] first@[k]).len(),
            forall|k: int| 0 <= k < second.len() ==> i < (#[trigger] second@[k]).len(),
            k <= n,
            r.len() == k * CDS_CYCLE_LENGTH,
            forall|j: int|
                0 <= j < r.len() ==> r@[j] == if j % (CDS_CYCLE_LENGTH as int) < NROWS_PER_PHASE {
                    first@[j / (CDS_CYCLE_LENGTH as int)]@[i as int]
                } else {
                    second@[j / (CDS_CYCLE_LENGTH as int)]@[i as int]
                },
        decreases n - k,
    {
        let value1 = first[k][i];
        let value2 = second[k][i];
        let mut step: usize = 0;
        while step < CDS_CYCLE_LENGTH
            invariant
                n == first.len(),
                n == second.len(),
                n * CDS_CYCLE_LENGTH <= usize::MAX,
                k < n,
                step <= CDS_CYCLE_LENGTH,
                value1 == first@[k as int]@[i as int],
                value2 == second@[k as int]@[i as int],
                r.len() == k * CDS_CYCLE_LENGTH + step,
                forall|j: int|
                    0 <= j < r.len() ==> r@[j] == if j % (CDS_CYCLE_LENGTH as int)
                        < NROWS_PER_PHASE {
                        first@[j / (CDS_CYCLE_LENGTH as int)]@[i as int]
                    } else {
                        second@[j / (CDS_CYCLE_LENGTH as int)]@[i as int]
                    },
            decreases CDS_CYCLE_LENGTH - step,
        {
            if step < NROWS_PER_PHASE {
                r.push(value1);
            } else {
                r.push(value2);
            }
            step += 1;
        }
        k += 1;
    }
    assert(r@ =~= spec_phase_column(columns_view(first@), columns_view(second@), i as int));
    r
}

fn hash_input_column(proofs: &Vec<[Felt; PROOF_WIDTH]>, j: usize) -> (r: Vec<Felt>)
    requires
        proofs.len() * CDS_CYCLE_LENGTH <= usize::MAX,
        j < RATE_WIDTH,
    ensures
        r@ == spec_hash_input_column(proofs@, j as int),
{
    let n = proofs.len();
    let mut r: Vec<Felt> = Vec::with_capacity(n * CDS_CYCLE_LENGTH);
    let mut k: usize = 0;
    while k < n
        invariant
            n == proofs.len(),
            n * CDS_CYCLE_LENGTH <= usize::MAX,
            j < RATE_WIDTH,
            k <= n,
            r.len() == k * CDS_CYCLE_LENGTH,
            forall|row: int| 0 <= row < r.len() ==> r@[row] == spec_hash_input_column(proofs@, j as int)[row],
        decreases n - k,
    {
        let proof = &proofs[k];
        let mut step: usize = 0;
        while step < CDS_CYCLE_LENGTH
            invariant
                n == proofs.len(),
                n * CDS_CYCLE_LENGTH <= usize::MAX,
                j < RATE_WIDTH,
                k < n,
                *proof == proofs@[k as int],
                step <= CDS_CYCLE_LENGTH,
                r.len() == k * CDS_CYCLE_LENGTH + step,
                forall|row: int|
                    0 <= row < r.len() ==> r@[row] == spec_hash_input_column(
                        proofs@,
                        j as int,
                    )[row],
            decreases CDS_CYCLE_LENGTH - step,
        {
            let mut value = Felt::zero();
            if step % HASH_CYCLE_LENGTH == NUM_HASH_ROUNDS && step < TOTAL_HASH_LENGTH
                - HASH_CYCLE_LENGTH {
                let e = j + (step / HASH_CYCLE_LENGTH + 1) * RATE_WIDTH;
                if e >= AFFINE_POINT_WIDTH {
                    value = proof[e - AFFINE_POINT_WIDTH];
                }
            }
            proof {
                let row = (k * CDS_CYCLE_LENGTH + step) as int;
                assert(row / (CDS_CYCLE_LENGTH as int) == k);
                assert(row % (CDS_CYCLE_LENGTH as int) == step);
                assert(row < n * CDS_CYCLE_LENGTH) by (nonlinear_arith)
                    requires
                        row == k * CDS_CYCLE_LENGTH + step,
                        step < CDS_CYCLE_LENGTH,
                        k < n,
                ;
                assert(value == spec_hash_input_column(proofs@, j as int)[row]);
            }
            r.push(value);
            step += 1;
        }
        k += 1;
    }
    assert(r@ =~= spec_hash_input_column(proofs@, j as int));
    r
}

/// The map of the flags into the columns of the program: the first nine
/// keep their places, and the flag of the hash goes behind the three
/// points.
pub open spec fn spec_flag_map() -> Seq<(usize, usize)> {
    Seq::new(
        10,
        |k: int|
            (
                k as usize,
                if k < 9 {
                    k as usize
                } else {
                    HASH_FLAG_COLUMN
                },
            ),
    )
}

fn flag_map() -> (r: Vec<(usize, usize)>)
    ensures
        r@ == spec_flag_map(),
{
    let mut r: Vec<(usize, usize)> = Vec::with_capacity(10);
    let mut k: usize = 0;
    while k < 9
        invariant
            k <= 9,
            r.len() == k,
            forall|j: int| 0 <= j < k ==> r@[j] == (j as usize, j as usize),
        decreases 9 - k,
    {
        r.push((k, k));
        k += 1;
    }
    r.push((9, HASH_FLAG_COLUMN));
    assert(r@ =~= spec_flag_map());
    r
}

impl CDSAir {
    /// The periodic columns of the constraint system.
    pub fn get_periodic_column_values(&self) -> (r: Vec<Vec<Felt>>)
        requires
            self.wf(),
        ensures
            columns_view(r@) == spec_get_periodic_column_values(
                self.proofs@,
                self.curve,
                self.rescue,
            ),
            r.len() == NUM_PERIODIC_COLUMNS,
    {
        let n = self.proofs.len();
        let ghost proofs = self.proofs@;

        // the points of each vote
        let mut keys: Vec<[Felt; AFFINE_POINT_WIDTH]> = Vec::with_capacity(n);
        let mut key_table: Vec<Vec<Felt>> = Vec::with_capacity(n);
        let mut plus: Vec<Vec<Felt>> = Vec::with_capacity(n);
        let mut minus: Vec<Vec<Felt>> = Vec::with_capacity(n);
        let mut k: usize = 0;
        while k < n
            invariant
                n == self.proofs.len(),
                proofs == self.proofs@,
                k <= n,
                keys.len() == k,
                key_table.len() == k,
                plus.len() == k,
                minus.len() == k,
                forall|j: int|
                    0 <= j < k ==> (#[trigger] keys@[j])@ == proofs[j]@.subrange(
                        0,
                        AFFINE_POINT_WIDTH as int,
                    ),
                forall|j: int|
                    0 <= j < k ==> (#[trigger] key_table@[j])@ == proofs[j]@.subrange(
                        0,
                        AFFINE_POINT_WIDTH as int,
                    ),
                forall|j: int|
                    0 <= j < k ==> (#[trigger] plus@[j])@ == spec_prepare_encrypted_votes(
                        proofs[j]@.subrange(AFFINE_POINT_WIDTH as int, 2 * AFFINE_POINT_WIDTH),
                        self.curve,
                    ).0,
                forall|j: int|
                    0 <= j < k ==> (#[trigger] minus@[j])@ == spec_prepare_encrypted_votes(
                        proofs[j]@.subrange(AFFINE_POINT_WIDTH as int, 2 * AFFINE_POINT_WIDTH),
                        self.curve,
                    ).1,
                forall|j: int| 0 <= j < k ==> (#[trigger] key_table@[j]).len() == AFFINE_POINT_WIDTH,
                forall|j: int| 0 <= j < k ==> (#[trigger] plus@[j]).len() == AFFINE_POINT_WIDTH,
                forall|j: int| 0 <= j < k ==> (#[trigger] minus@[j]).len() == AFFINE_POINT_WIDTH,
            decreases n - k,
        {
            let proof = &self.proofs[k];
            let key_registers = copy_of(&proof[0..AFFINE_POINT_WIDTH]);
            let mut key = [Felt::zero();AFFINE_POINT_WIDTH];
            let mut i: usize = 0;
            while i < AFFINE_POINT_WIDTH
                invariant
                    i <= AFFINE_POINT_WIDTH,
                    key_registers.len() == AFFINE_POINT_WIDTH,
                    forall|j: int| 0 <= j < i ==> key@[j] == key_registers@[j],
                decreases AFFINE_POINT_WIDTH - i,
            {
                key[i] = key_registers[i];
                i += 1;
            }
            assert(key@ =~= key_registers@);
            let votes = prepare_encrypted_votes(
                &proof[AFFINE_POINT_WIDTH..2 * AFFINE_POINT_WIDTH],
                &self.curve,
            );
            keys.push(key);
            key_table.push(key_registers);
            plus.push(votes.0);
            minus.push(votes.1);
            k += 1;
        }
        let blinding = compute_blinding_keys(&keys, &self.curve);
        proof {
            assert(keys_view(keys@) =~~= spec_voting_keys(proofs));
            assert(columns_view(key_table@) =~~= spec_voting_keys(proofs));
            assert(columns_view(plus@) =~~= spec_votes_plus(proofs, self.curve));
            assert(columns_view(minus@) =~~= spec_votes_minus(proofs, self.curve));
        }

        // the columns of each group
        let flags = periodic_columns();
        let voting_keys = columns_of(&key_table, AFFINE_POINT_WIDTH, CDS_CYCLE_LENGTH);
        let blinding_keys = columns_of(&blinding, AFFINE_POINT_WIDTH, CDS_CYCLE_LENGTH);
        let mut encrypted_votes: Vec<Vec<Felt>> = Vec::with_capacity(AFFINE_POINT_WIDTH);
        let mut i: usize = 0;
        while i < AFFINE_POINT_WIDTH
            invariant
                plus.len() == n,
                minus.len() == n,
                n * CDS_CYCLE_LENGTH <= usize::MAX,
                forall|j: int| 0 <= j < n ==> (#[trigger] plus@[j]).len() == AFFINE_POINT_WIDTH,
                forall|j: int| 0 <= j < n ==> (#[trigger] minus@[j]).len() == AFFINE_POINT_WIDTH,
                i <= AFFINE_POINT_WIDTH,
                encrypted_votes.len() == i,
                forall|j: int|
                    0 <= j < i ==> (#[trigger] encrypted_votes@[j])@ == spec_phase_column(
                        columns_view(plus@),
                        columns_view(minus@),
                        j,
                    ),
            decreases AFFINE_POINT_WIDTH - i,
        {
            encrypted_votes.push(phase_column(&plus, &minus, i));
            i += 1;
        }
        let mut hash_inputs: Vec<Vec<Felt>> = Vec::with_capacity(RATE_WIDTH);
        let mut j: usize = 0;
        while j < RATE_WIDTH
            invariant
                n == self.proofs.len(),
                proofs == self.proofs@,
                n * CDS_CYCLE_LENGTH <= usize::MAX,
                j <= RATE_WIDTH,
                hash_inputs.len() == j,
                forall|i: int|
                    0 <= i < j ==> (#[trigger] hash_inputs@[i])@ == spec_hash_input_column(
                        proofs,
                        i,
                    ),
            decreases RATE_WIDTH - j,
        {
            hash_inputs.push(hash_input_column(&self.proofs, j));
            j += 1;
        }

        // stitch the groups into the columns of the program
        let mut columns: Vec<Vec<Felt>> = Vec::with_capacity(NUM_PERIODIC_COLUMNS);
        let mut c: usize = 0;
        while c < NUM_OWN_COLUMNS
            invariant
                c <= NUM_OWN_COLUMNS,
                columns.len() == c,
                forall|i: int| 0 <= i < c ==> (#[trigger] columns@[i]).len() == 0,
            decreases NUM_OWN_COLUMNS - c,
        {
            columns.push(Vec::new());
            c += 1;
        }
        let ghost s0 = columns_view(columns@);
        let map = flag_map();
        stitch(&mut columns, &flags, &map);
        let ghost s1 = columns_view(columns@);
        proof {
            lemma_stitch_into_empty(s0, columns_view(flags@), map@);
            assert forall|i: int| 0 <= i < NUM_OWN_COLUMNS && i != HASH_FLAG_COLUMN && i
                >= 9 implies #[trigger] s1[i] == s0[i] by {
                assert(!spec_is_target(map@, i));
            }
            assert forall|i: int| 0 <= i < 9 implies #[trigger] s1[i] == spec_periodic_columns()[i] by {
                assert(map@[i].1 == i);
            }
            assert(s1[HASH_FLAG_COLUMN as int] == spec_periodic_columns()[9]) by {
                assert(map@[9].1 == HASH_FLAG_COLUMN);
            }
        }
        let map = index_map(VOTING_KEY_COLUMN, AFFINE_POINT_WIDTH);
        stitch(&mut columns, &voting_keys, &map);
        let ghost s2 = columns_view(columns@);
        proof {
            lemma_stitch_into_empty(s1, columns_view(voting_keys@), map@);
            assert forall|i: int|
                0 <= i < NUM_OWN_COLUMNS && !(VOTING_KEY_COLUMN <= i
                    < BLINDING_KEY_COLUMN) implies #[trigger] s2[i] == s1[i] by {
                assert(!spec_is_target(map@, i));
            }
            assert forall|i: int| 0 <= i < AFFINE_POINT_WIDTH implies #[trigger] s2[VOTING_KEY_COLUMN
                + i] == columns_view(voting_keys@)[i] by {
                assert(map@[i].1 == VOTING_KEY_COLUMN + i);
            }
        }
        let map = index_map(BLINDING_KEY_COLUMN, AFFINE_POINT_WIDTH);
        stitch(&mut columns, &blinding_keys, &map);
        let ghost s3 = columns_view(columns@);
        proof {
            lemma_stitch_into_empty(s2, columns_view(blinding_keys@), map@);
            assert forall|i: int|
                0 <= i < NUM_OWN_COLUMNS && !(BLINDING_KEY_COLUMN <= i
                    < ENCRYPTED_VOTE_COLUMN) implies #[trigger] s3[i] == s2[i] by {
                assert(!spec_is_target(map@, i));
            }
            assert forall|i: int|
                0 <= i < AFFINE_POINT_WIDTH implies #[trigger] s3[BLINDING_KEY_COLUMN + i]
                == columns_view(blinding_keys@)[i] by {
                assert(map@[i].1 == BLINDING_KEY_COLUMN + i);
            }
        }
        let map = index_map(ENCRYPTED_VOTE_COLUMN, AFFINE_POINT_WIDTH);
        stitch(&mut columns, &encrypted_votes, &map);
        let ghost s4 = columns_view(columns@);
        proof {
            lemma_stitch_into_empty(s3, columns_view(encrypted_votes@), map@);
            assert forall|i: int|
                0 <= i < NUM_OWN_COLUMNS && !(ENCRYPTED_VOTE_COLUMN <= i
                    < HASH_FLAG_COLUMN) implies #[trigger] s4[i] == s3[i] by {
                assert(!spec_is_target(map@, i));
            }
            assert forall|i: int|
                0 <= i < AFFINE_POINT_WIDTH implies #[trigger] s4[ENCRYPTED_VOTE_COLUMN + i]
                == columns_view(encrypted_votes@)[i] by {
                assert(map@[i].1 == ENCRYPTED_VOTE_COLUMN + i);
            }
        }
        let map = index_map(HASH_INPUT_COLUMN, RATE_WIDTH);
        stitch(&mut columns, &hash_inputs, &map);
        let ghost s5 = columns_view(columns@);
        proof {
            lemma_stitch_into_empty(s4, columns_view(hash_inputs@), map@);
            assert forall|i: int|
                0 <= i < NUM_OWN_COLUMNS && !(HASH_INPUT_COLUMN <= i
                    < ARK_COLUMN) implies #[trigger] s5[i] == s4[i] by {
                assert(!spec_is_target(map@, i));
            }
            assert forall|i: int| 0 <= i < RATE_WIDTH implies #[trigger] s5[HASH_INPUT_COLUMN + i]
                == columns_view(hash_inputs@)[i] by {
                assert(map@[i].1 == HASH_INPUT_COLUMN + i);
            }
        }

        // append the round constants
        let mut constants = get_round_constants(&self.rescue);
        let ghost round_constants = columns_view(constants@);
        columns.append(&mut constants);
        proof {
            let expected = spec_get_periodic_column_values(proofs, self.curve, self.rescue);
            let got = columns_view(columns@);
            assert(got.len() == expected.len());
            assert forall|c: int| 0 <= c < NUM_PERIODIC_COLUMNS implies got[c] == expected[c] by {
                if c < NUM_OWN_COLUMNS {
                    assert(got[c] == s5[c]);
                    if c < VOTING_KEY_COLUMN {
                        assert(s5[c] == s1[c]);
                    } else if c < BLINDING_KEY_COLUMN {
                        assert(s5[c] == s2[VOTING_KEY_COLUMN + (c - VOTING_KEY_COLUMN)]);
                    } else if c < ENCRYPTED_VOTE_COLUMN {
                        assert(s5[c] == s3[BLINDING_KEY_COLUMN + (c - BLINDING_KEY_COLUMN)]);
                    } else if c < HASH_FLAG_COLUMN {
                        assert(s5[c] == s4[ENCRYPTED_VOTE_COLUMN + (c - ENCRYPTED_VOTE_COLUMN)]);
                    } else if c == HASH_FLAG_COLUMN {
                        assert(s5[c] == s1[c]);
                    } else {
                        assert(s5[c] == s5[HASH_INPUT_COLUMN + (c - HASH_INPUT_COLUMN)]);
                    }
                } else {
                    assert(got[c] == round_constants[c - NUM_OWN_COLUMNS]);
                }
            }
            assert(got =~= expected);
        }
        columns
    }
}

} // verus!

//! The constraint system of the proof of a valid signature.

use crate::air::{
    assertions_view, degrees_view, lemma_cycle_lengths_are_powers_of_two, spec_holds_at,
    spec_is_power_of_two, spec_row_of, AirContext, Assertion, AssertionView, DegreeView,
    ProofOptions, TraceInfo, TransitionConstraintDegree,
};
use crate::cds::air::{enforce_hash_copy, spec_enforce_hash_copy};
use crate::constraint::{
    agg_range, diff, enforce_copy, enforce_limb_step, not, spec_agg_range, spec_diff,
    spec_enforce_copy, spec_enforce_limb_step, spec_not,
};
use crate::ecc::{
    enforce_point_addition_reduce_affine, enforce_scalar_mul,
    spec_enforce_point_addition_reduce_affine, spec_enforce_scalar_mul, Curve,
    AFFINE_POINT_WIDTH, POINT_COORDINATE_WIDTH, PROJECTIVE_POINT_WIDTH,
};
use crate::field::Felt;
use crate::periodic::{
    columns_of, columns_view, flag_column, spec_flag_column, spec_spread_column,
};
use crate::rescue::{
    enforce_round, get_round_constants, spec_enforce_round, spec_round_constant_column, Rescue,
    HASH_CYCLE_LENGTH, NUM_HASH_ROUNDS, RATE_WIDTH,
};
use crate::schnorr::constants::{
    ARK_COLUMN, HASH, HASH_FLAG_COLUMN, HASH_INPUT_COLUMN, H_BIT, H_LIMBS, H_PK,
    LIMB_FLAG_COLUMN, MSG_LENGTH, NUM_ASSERTIONS, NUM_LIMBS, NUM_PERIODIC_COLUMNS,
    SCALAR_MUL_LENGTH, SIG_CYCLE_LENGTH, S_BIT, S_G, S_LIMBS, TOTAL_HASH_LENGTH, TRACE_WIDTH,
    VOTING_KEY_COLUMN,
};
use crate::schnorr::{prepare_message, spec_prepare_message, Signature};
use vstd::bytes::{spec_u64_from_le_bytes, u64_from_le_bytes};
use vstd::prelude::*;

verus! {

/// What the verifier knows: the voting keys, the addresses of the voters,
/// and the signatures.
#[derive(Clone, Debug)]
pub struct PublicInputs {
    pub voting_keys: Vec<[Felt; AFFINE_POINT_WIDTH]>,
    pub addresses: Vec<[u8; 20]>,
    pub signatures: Vec<Signature>,
}

/// The constraint system of the proofs of a list of valid signatures.
#[derive(Clone, Debug)]
pub struct SchnorrAir {
    pub context: AirContext,
    pub voting_keys: Vec<[Felt; AFFINE_POINT_WIDTH]>,
    pub addresses: Vec<[u8; 20]>,
    pub signatures: Vec<Signature>,
    pub curve: Curve,
    pub rescue: Rescue,
}

// TRANSITION CONSTRAINTS
// ================================================================================================

/// The constraints of the limbs of `s` and of `h`: each takes the bits of
/// its scalar while its flag is set, and keeps its value otherwise.
pub open spec fn spec_enforce_limbs(
    result: Seq<Felt>,
    current: Seq<Felt>,
    next: Seq<Felt>,
    limb_flags: Seq<Felt>,
    doubling_flag: Felt,
    addition_flag: Felt,
    n: nat,
) -> Seq<Felt>
    decreases n,
{
    if n == 0 {
        spec_enforce_copy(
            result,
            S_LIMBS as int,
            current.subrange(S_LIMBS as int, HASH as int),
            next.subrange(S_LIMBS as int, HASH as int),
            addition_flag,
        )
    } else {
        let k = n - 1;
        spec_enforce_limb_step(
            spec_enforce_limb_step(
                spec_enforce_limbs(
                    result,
                    current,
                    next,
                    limb_flags,
                    doubling_flag,
                    addition_flag,
                    k as nat,
                ),
                current,
                next,
                S_LIMBS + NUM_LIMBS - 1 - k,
                S_BIT as int,
                limb_flags[k],
                doubling_flag,
            ),
            current,
            next,
            H_LIMBS + NUM_LIMBS - 1 - k,
            H_BIT as int,
            limb_flags[k],
            doubling_flag,
        )
    }
}

fn enforce_limbs(
    result: &mut [Felt],
    current: &[Felt],
    next: &[Felt],
    limb_flags: &[Felt],
    doubling_flag: Felt,
    addition_flag: Felt,
)
    requires
        old(result).len() == TRACE_WIDTH,
        current.len() == TRACE_WIDTH,
        next.len() == TRACE_WIDTH,
        limb_flags.len() == NUM_LIMBS,
    ensures
        final(result)@ == spec_enforce_limbs(
            old(result)@,
            current@,
            next@,
            limb_flags@,
            doubling_flag,
            addition_flag,
            NUM_LIMBS as nat,
        ),
        final(result).len() == TRACE_WIDTH,
{
    enforce_copy(
        result,
        S_LIMBS,
        &current[S_LIMBS..HASH],
        &next[S_LIMBS..HASH],
        addition_flag,
    );
    let mut k: usize = 0;
    while k < NUM_LIMBS
        invariant
            result.len() == TRACE_WIDTH,
            current.len() == TRACE_WIDTH,
            next.len() == TRACE_WIDTH,
            limb_flags.len() == NUM_LIMBS,
            k <= NUM_LIMBS,
            result@ == spec_enforce_limbs(
                old(result)@,
                current@,
                next@,
                limb_flags@,
                doubling_flag,
                addition_flag,
                k as nat,
            ),
        decreases NUM_LIMBS - k,
    {
        enforce_limb_step(
            result,
            current,
            next,
            S_LIMBS + NUM_LIMBS - 1 - k,
            S_BIT,
            limb_flags[k],
            doubling_flag,
        );
        enforce_limb_step(
            result,
            current,
            next,
            H_LIMBS + NUM_LIMBS - 1 - k,
            H_BIT,
            limb_flags[k],
            doubling_flag,
        );
        k += 1;
    }
}

/// The transition constraints on a pair of rows, with the flags that the
/// values of the periodic columns make: the two scalar multiplications, the
/// limbs of the two scalars, the hash, and on the last step of the cycle
/// the sum of the two points, reduced to affine coordinates, and the limbs
/// of `h` equal to the first four registers of the digest.
pub open spec fn spec_evaluate_transition(
    result: Seq<Felt>,
    current: Seq<Felt>,
    next: Seq<Felt>,
    periodic_values: Seq<Felt>,
    curve: Curve,
    rescue: Rescue,
) -> Seq<Felt> {
    let global_mask = periodic_values[0];
    let scalar_mult_flag = periodic_values[1];
    let doubling_flag = periodic_values[2];
    let hash_flag = periodic_values[HASH_FLAG_COLUMN as int];
    let addition_flag = spec_not(doubling_flag).spec_mul(scalar_mult_flag);
    let final_flag = spec_not(scalar_mult_flag).spec_mul(global_mask);
    let before = current.subrange(HASH as int, TRACE_WIDTH as int);
    let after = next.subrange(HASH as int, TRACE_WIDTH as int);
    let r = spec_enforce_scalar_mul(
        result,
        current,
        next,
        S_G as int,
        curve.generator.spec_registers(),
        doubling_flag,
        addition_flag,
        curve,
    );
    let r = spec_enforce_scalar_mul(
        r,
        current,
        next,
        H_PK as int,
        periodic_values.subrange(VOTING_KEY_COLUMN as int, HASH_FLAG_COLUMN as int),
        doubling_flag,
        addition_flag,
        curve,
    );
    let r = spec_enforce_limbs(
        r,
        current,
        next,
        periodic_values.subrange(LIMB_FLAG_COLUMN as int, VOTING_KEY_COLUMN as int),
        doubling_flag,
        addition_flag,
        NUM_LIMBS as nat,
    );
    let r = spec_enforce_round(
        r,
        HASH as int,
        before,
        after,
        periodic_values.subrange(ARK_COLUMN as int, NUM_PERIODIC_COLUMNS as int),
        hash_flag,
        rescue,
    );
    let r = spec_enforce_hash_copy(
        r,
        HASH as int,
        before,
        after,
        spec_not(hash_flag).spec_mul(global_mask),
        periodic_values.subrange(HASH_INPUT_COLUMN as int, ARK_COLUMN as int),
    );
    let r = spec_enforce_point_addition_reduce_affine(
        r,
        current,
        next,
        S_G as int,
        current.subrange(H_PK as int, H_PK + PROJECTIVE_POINT_WIDTH),
        final_flag,
        curve,
    );
    spec_agg_range(
        r,
        H_LIMBS as int,
        final_flag,
        spec_diff(
            current.subrange(H_LIMBS as int, H_LIMBS + NUM_LIMBS),
            current.subrange(HASH as int, HASH + NUM_LIMBS),
        ),
    )
}

// DEGREES
// ================================================================================================

/// The declared degree of constraint `i`.
pub open spec fn spec_degree_at(i: int) -> DegreeView {
    let cycle = SIG_CYCLE_LENGTH;
    if i < S_BIT {
        DegreeView { base: 5, cycles: seq![cycle, cycle] }
    } else if i == S_BIT {
        DegreeView { base: 2, cycles: seq![cycle] }
    } else if i < H_BIT {
        DegreeView { base: 5, cycles: seq![cycle, cycle] }
    } else if i == H_BIT {
        DegreeView { base: 2, cycles: seq![cycle] }
    } else if i < HASH {
        DegreeView { base: 1, cycles: seq![cycle, cycle] }
    } else {
        DegreeView { base: 3, cycles: seq![cycle] }
    }
}

/// The declared degrees of the transition constraints.
pub open spec fn spec_transition_constraint_degrees() -> Seq<DegreeView> {
    Seq::new(TRACE_WIDTH as nat, |i: int| spec_degree_at(i))
}

/// The declared degrees of the transition constraints, one for each
/// register of the trace.
pub fn transition_constraint_degrees() -> (r: Vec<TransitionConstraintDegree>)
    ensures
        degrees_view(r@) == spec_transition_constraint_degrees(),
        r.len() == TRACE_WIDTH,
{
    let mut degrees: Vec<TransitionConstraintDegree> = Vec::with_capacity(TRACE_WIDTH);
    let mut i: usize = 0;
    while i < TRACE_WIDTH
        invariant
            i <= TRACE_WIDTH,
            degrees.len() == i,
            forall|k: int| 0 <= k < i ==> (#[trigger] degrees@[k])@ == spec_degree_at(k),
        decreases TRACE_WIDTH - i,
    {
        let single = i == S_BIT || i == H_BIT || i >= HASH;
        let base: usize = if i == S_BIT || i == H_BIT {
            2
        } else if i < H_BIT {
            5
        } else if i < HASH {
            1
        } else {
            3
        };
        let mut cycles: Vec<usize> = Vec::with_capacity(2);
        cycles.push(SIG_CYCLE_LENGTH);
        if !single {
            cycles.push(SIG_CYCLE_LENGTH);
        }
        proof {
            lemma_cycle_lengths_are_powers_of_two();
            if single {
                assert(cycles@ =~= seq![SIG_CYCLE_LENGTH]);
            } else {
                assert(cycles@ =~= seq![SIG_CYCLE_LENGTH, SIG_CYCLE_LENGTH]);
            }
        }
        degrees.push(TransitionConstraintDegree::with_cycles(base, cycles));
        i += 1;
    }
    assert(degrees_view(degrees@) =~~= spec_transition_constraint_degrees());
    degrees
}

// ASSERTIONS
// ================================================================================================

/// Limb `j` of a scalar, the least significant first, as a field element:
/// 64 bits of the scalar, and 63 for the last limb.
pub open spec fn spec_scalar_limb(scalar: Seq<u8>, j: int) -> Felt {
    let word = spec_u64_from_le_bytes(scalar.subrange(8 * j, 8 * j + 8));
    if j == NUM_LIMBS - 1 {
        Felt::spec_new(word & 0x7fff_ffff_ffff_ffff)
    } else {
        Felt::spec_new(word)
    }
}

fn scalar_limb(scalar: &[u8; 32], j: usize) -> (r: Felt)
    requires
        j < NUM_LIMBS,
    ensures
        r == spec_scalar_limb(scalar@, j as int),
{
    let word = u64_from_le_bytes(&scalar[8 * j..8 * j + 8]);
    if j == NUM_LIMBS - 1 {
        Felt::new(word & 0x7fff_ffff_ffff_ffff)
    } else {
        Felt::new(word)
    }
}

/// Coordinate `i` of the commitment of each signature.
pub open spec fn spec_commitment_values(signatures: Seq<Signature>, i: int) -> Seq<Felt> {
    Seq::new(signatures.len(), |k: int| signatures[k].0[i])
}

/// Limb `j` of the scalar of each signature.
pub open spec fn spec_limb_values(signatures: Seq<Signature>, j: int) -> Seq<Felt> {
    Seq::new(signatures.len(), |k: int| spec_scalar_limb(signatures[k].1@, j))
}

fn commitment_values(signatures: &Vec<Signature>, i: usize) -> (r: Vec<Felt>)
    requires
        i < POINT_COORDINATE_WIDTH,
    ensures
        r@ == spec_commitment_values(signatures@, i as int),
        r.len() == signatures.len(),
{
    let mut r: Vec<Felt> = Vec::with_capacity(signatures.len());
    let mut k: usize = 0;
    while k < signatures.len()
        invariant
            i < POINT_COORDINATE_WIDTH,
            k <= signatures.len(),
            r.len() == k,
            forall|j: int| 0 <= j < k ==> r@[j] == signatures@[j].0[i as int],
        decreases signatures.len() - k,
    {
        let signature = &signatures[k];
        r.push(signature.0[i]);
        k += 1;
    }
    assert(r@ =~= spec_commitment_values(signatures@, i as int));
    r
}

fn limb_values(signatures: &Vec<Signature>, j: usize) -> (r: Vec<Felt>)
    requires
        j < NUM_LIMBS,
    ensures
        r@ == spec_limb_values(signatures@, j as int),
        r.len() == signatures.len(),
{
    let mut r: Vec<Felt> = Vec::with_capacity(signatures.len());
    let mut k: usize = 0;
    while k < signatures.len()
        invariant
            j < NUM_LIMBS,
            k <= signatures.len(),
            r.len() == k,
            forall|m: int| 0 <= m < k ==> r@[m] == spec_scalar_limb(signatures@[m].1@, j as int),
        decreases signatures.len() - k,
    {
        let signature = &signatures[k];
        r.push(scalar_limb(&signature.1, j));
        k += 1;
    }
    assert(r@ =~= spec_limb_values(signatures@, j as int));
    r
}

/// Assertion `k` of the constraint system, in the order of
/// [`SchnorrAir::get_assertions`].
pub open spec fn spec_assertion_at(signatures: Seq<Signature>, k: int) -> AssertionView {
    let zero = Felt::spec_zero();
    let cycle = SIG_CYCLE_LENGTH;
    if k < 36 {
        // the two points start each cycle at the identity
        AssertionView::Periodic {
            column: if k % 2 == 0 {
                (k / 2 + S_G) as usize
            } else {
                (k / 2 + H_PK) as usize
            },
            first_step: 0,
            stride: cycle,
            value: Felt::spec_from_bool(k / 2 == 6),
        }
    } else if k < 38 {
        // the two bits start at zero
        AssertionView::Periodic {
            column: if k == 36 {
                S_BIT
            } else {
                H_BIT
            },
            first_step: 0,
            stride: cycle,
            value: zero,
        }
    } else if k < 46 {
        // and so do the limbs
        AssertionView::Periodic { column: k as usize, first_step: 0, stride: cycle, value: zero }
    } else if k < 52 {
        // the hash state starts with the commitment of the signature
        AssertionView::Sequence {
            column: (k - 46 + HASH) as usize,
            first_step: 0,
            stride: cycle,
            values: spec_commitment_values(signatures, k - 46),
        }
    } else if k < 60 {
        // followed by zeros
        AssertionView::Periodic {
            column: (k - 52 + HASH + POINT_COORDINATE_WIDTH) as usize,
            first_step: 0,
            stride: cycle,
            value: zero,
        }
    } else if k < 64 {
        // the limbs of s end as the scalar of the signature
        AssertionView::Sequence {
            column: (k - 60 + S_LIMBS) as usize,
            first_step: SCALAR_MUL_LENGTH,
            stride: cycle,
            values: spec_limb_values(signatures, k - 60),
        }
    } else {
        // and the sum of the two points ends with the x of the commitment
        AssertionView::Sequence {
            column: (k - 64 + S_G) as usize,
            first_step: (cycle - 1) as usize,
            stride: cycle,
            values: spec_commitment_values(signatures, k - 64),
        }
    }
}

/// The boundary assertions of the constraint system.
pub open spec fn spec_get_assertions(signatures: Seq<Signature>) -> Seq<AssertionView> {
    Seq::new(NUM_ASSERTIONS as nat, |k: int| spec_assertion_at(signatures, k))
}

// PERIODIC VALUES
// ================================================================================================

/// The voting keys as sequences of elements.
pub open spec fn spec_key_table(voting_keys: Seq<[Felt; AFFINE_POINT_WIDTH]>) -> Seq<Seq<Felt>> {
    Seq::new(voting_keys.len(), |k: int| voting_keys[k]@)
}

/// Column `j` of the chunks that enter the hash state: on the last row of
/// each hash cycle but the last, element `j` of the next chunk of the
/// message of the signature; zero elsewhere.
pub open spec fn spec_hash_input_column(
    voting_keys: Seq<[Felt; AFFINE_POINT_WIDTH]>,
    addresses: Seq<[u8; 20]>,
    j: int,
) -> Seq<Felt> {
    Seq::new(
        (voting_keys.len() * SIG_CYCLE_LENGTH) as nat,
        |r: int|
            {
                let step = r % (SIG_CYCLE_LENGTH as int);
                let k = r / (SIG_CYCLE_LENGTH as int);
                if step % (HASH_CYCLE_LENGTH as int) == NUM_HASH_ROUNDS && step < TOTAL_HASH_LENGTH
                    - HASH_CYCLE_LENGTH {
                    spec_prepare_message(voting_keys[k]@, addresses[k]@)[j + (step / (
                    HASH_CYCLE_LENGTH as int)) * RATE_WIDTH]
                } else {
                    Felt::spec_zero()
                }
            },
    )
}

/// Periodic column `c` of the constraint system.
pub open spec fn spec_periodic_column(
    voting_keys: Seq<[Felt; AFFINE_POINT_WIDTH]>,
    addresses: Seq<[u8; 20]>,
    rescue: Rescue,
    c: int,
) -> Seq<Felt> {
    let cycle = SIG_CYCLE_LENGTH as nat;
    if c == 0 {
        spec_flag_column(cycle, 0, SIG_CYCLE_LENGTH - 1, 1, 1)
    } else if c == 1 {
        spec_flag_column(cycle, 0, SCALAR_MUL_LENGTH as int, 1, 1)
    } else if c == 2 {
        spec_flag_column(cycle, 0, SCALAR_MUL_LENGTH as int, 2, 1)
    } else if c < VOTING_KEY_COLUMN {
        spec_flag_column(
            cycle,
            if c == 3 {
                0
            } else {
                128 * (c - 3) - 2
            },
            128 * (c - 2) - 2,
            1,
            1,
        )
    } else if c < HASH_FLAG_COLUMN {
        spec_spread_column(spec_key_table(voting_keys), c - VOTING_KEY_COLUMN, cycle)
    } else if c == HASH_FLAG_COLUMN {
        spec_flag_column(
            cycle,
            0,
            TOTAL_HASH_LENGTH as int,
            HASH_CYCLE_LENGTH as int,
            NUM_HASH_ROUNDS as int,
        )
    } else if c < ARK_COLUMN {
        spec_hash_input_column(voting_keys, addresses, c - HASH_INPUT_COLUMN)
    } else {
        spec_round_constant_column(rescue, c - ARK_COLUMN)
    }
}

/// The periodic columns of the constraint system: the mask of the cycle,
/// the flag of the scalar multiplications, the flag of a doubling row, the
/// flag of each of the four limbs, the voting key of the cycle, the flag of
/// the hash, the chunks that enter the hash state, and the round constants.
pub open spec fn spec_get_periodic_column_values(
    voting_keys: Seq<[Felt; AFFINE_POINT_WIDTH]>,
    addresses: Seq<[u8; 20]>,
    rescue: Rescue,
) -> Seq<Seq<Felt>> {
    Seq::new(
        NUM_PERIODIC_COLUMNS as nat,
        |c: int| spec_periodic_column(voting_keys, addresses, rescue, c),
    )
}

fn hash_input_column(messages: &Vec<Vec<Felt>>, j: usize) -> (r: Vec<Felt>)
    requires
        messages.len() * SIG_CYCLE_LENGTH <= usize::MAX,
        j < RATE_WIDTH,
        forall|k: int| 0 <= k < messages.len() ==> (#[trigger] messages@[k]).len() == MSG_LENGTH,
    ensures
        r.len() == messages.len() * SIG_CYCLE_LENGTH,
        forall|row: int|
            0 <= row < r.len() ==> r@[row] == {
                let step = row % (SIG_CYCLE_LENGTH as int);
                if step % (HASH_CYCLE_LENGTH as int) == NUM_HASH_ROUNDS && step < TOTAL_HASH_LENGTH
                    - HASH_CYCLE_LENGTH {
                    messages@[row / (SIG_CYCLE_LENGTH as int)]@[j + (step / (
                    HASH_CYCLE_LENGTH as int)) * RATE_WIDTH]
                } else {
                    Felt::spec_zero()
                }
            },
{
    let n = messages.len();
    let mut r: Vec<Felt> = Vec::with_capacity(n * SIG_CYCLE_LENGTH);
    let mut k: usize = 0;
    while k < n
        invariant
            n == messages.len(),
            n * SIG_CYCLE_LENGTH <= usize::MAX,
            j < RATE_WIDTH,
            forall|k: int| 0 <= k < messages.len() ==> (#[trigger] messages@[k]).len() == MSG_LENGTH,
            k <= n,
            r.len() == k * SIG_CYCLE_LENGTH,
            forall|row: int|
                0 <= row < r.len() ==> r@[row] == {
                    let step = row % (SIG_CYCLE_LENGTH as int);
                    if step % (HASH_CYCLE_LENGTH as int) == NUM_HASH_ROUNDS && step
                        < TOTAL_HASH_LENGTH - HASH_CYCLE_LENGTH {
                        messages@[row / (SIG_CYCLE_LENGTH as int)]@[j + (step / (
                        HASH_CYCLE_LENGTH as int)) * RATE_WIDTH]
                    } else {
                        Felt::spec_zero()
                    }
                },
        decreases n - k,
    {
        let message = &messages[k];
        let mut step: usize = 0;
        while step < SIG_CYCLE_LENGTH
            invariant
                n == messages.len(),
                n * SIG_CYCLE_LENGTH <= usize::MAX,
                j < RATE_WIDTH,
                k < n,
                *message == messages@[k as int],
                message.len() == MSG_LENGTH,
                step <= SIG_CYCLE_LENGTH,
                r.len() == k * SIG_CYCLE_LENGTH + step,
                forall|row: int|
                    0 <= row < r.len() ==> r@[row] == {
                        let step = row % (SIG_CYCLE_LENGTH as int);
                        if step % (HASH_CYCLE_LENGTH as int) == NUM_HASH_ROUNDS && step
                            < TOTAL_HASH_LENGTH - HASH_CYCLE_LENGTH {
                            messages@[row / (SIG_CYCLE_LENGTH as int)]@[j + (step / (
                            HASH_CYCLE_LENGTH as int)) * RATE_WIDTH]
                        } else {
                            Felt::spec_zero()
                        }
                    },
            decreases SIG_CYCLE_LENGTH - step,
        {
            let mut value = Felt::zero();
            if step % HASH_CYCLE_LENGTH == NUM_HASH_ROUNDS && step < TOTAL_HASH_LENGTH
                - HASH_CYCLE_LENGTH {
                value = message[j + (step / HASH_CYCLE_LENGTH) * RATE_WIDTH];
            }
            r.push(value);
            step += 1;
        }
        k += 1;
    }
    r
}

impl SchnorrAir {
    /// There is one address and one signature for each key, the number of
    /// keys is a power of two, and the trace fits the machine.
    pub open spec fn wf(&self) -> bool {
        &&& self.addresses@.len() == self.voting_keys@.len()
        &&& self.signatures@.len() == self.voting_keys@.len()
        &&& spec_is_power_of_two(self.voting_keys@.len())
        &&& self.voting_keys@.len() * SIG_CYCLE_LENGTH <= usize::MAX
    }

    /// The constraint system for the given public inputs.
    pub fn new(
        trace_info: TraceInfo,
        pub_inputs: PublicInputs,
        options: ProofOptions,
        curve: Curve,
        rescue: Rescue,
    ) -> (r: SchnorrAir)
        requires
            trace_info.width == TRACE_WIDTH,
        ensures
            r.context.trace_info == trace_info,
            r.context.options == options,
            degrees_view(r.context.transition_constraint_degrees@)
                == spec_transition_constraint_degrees(),
            r.voting_keys == pub_inputs.voting_keys,
            r.addresses == pub_inputs.addresses,
            r.signatures == pub_inputs.signatures,
            r.curve == curve,
            r.rescue == rescue,
    {
        let degrees = transition_constraint_degrees();
        SchnorrAir {
            context: AirContext::new(trace_info, degrees, options),
            voting_keys: pub_inputs.voting_keys,
            addresses: pub_inputs.addresses,
            signatures: pub_inputs.signatures,
            curve,
            rescue,
        }
    }

    /// The context of the constraint system.
    pub fn context(&self) -> (r: &AirContext)
        ensures
            *r == self.context,
    {
        &self.context
    }

    /// Evaluates the transition constraints on a pair of consecutive rows
    /// and the values of the periodic columns on the first of them, and adds
    /// each to its entry of `result`.
    pub fn evaluate_transition(
        &self,
        current: &[Felt],
        next: &[Felt],
        periodic_values: &[Felt],
        result: &mut [Felt],
    )
        requires
            current.len() == TRACE_WIDTH,
            next.len() == TRACE_WIDTH,
            periodic_values.len() == NUM_PERIODIC_COLUMNS,
            old(result).len() == TRACE_WIDTH,
        ensures
            final(result)@ == spec_evaluate_transition(
                old(result)@,
                current@,
                next@,
                periodic_values@,
                self.curve,
                self.rescue,
            ),
            final(result).len() == TRACE_WIDTH,
    {
        let global_mask = periodic_values[0];
        let scalar_mult_flag = periodic_values[1];
        let doubling_flag = periodic_values[2];
        let hash_flag = periodic_values[HASH_FLAG_COLUMN];
        let addition_flag = not(doubling_flag).mul(scalar_mult_flag);
        let final_flag = not(scalar_mult_flag).mul(global_mask);
        let generator = self.curve.generator.to_vec();

        enforce_scalar_mul(
            result,
            current,
            next,
            S_G,
            generator.as_slice(),
            doubling_flag,
            addition_flag,
            &self.curve,
        );
        enforce_scalar_mul(
            result,
            current,
            next,
            H_PK,
            &periodic_values[VOTING_KEY_COLUMN..HASH_FLAG_COLUMN],
            doubling_flag,
            addition_flag,
            &self.curve,
        );
        enforce_limbs(
            result,
            current,
            next,
            &periodic_values[LIMB_FLAG_COLUMN..VOTING_KEY_COLUMN],
            doubling_flag,
            addition_flag,
        );
        enforce_round(
            result,
            HASH,
            &current[HASH..TRACE_WIDTH],
            &next[HASH..TRACE_WIDTH],
            &periodic_values[ARK_COLUMN..NUM_PERIODIC_COLUMNS],
            hash_flag,
            &self.rescue,
        );
        enforce_hash_copy(
            result,
            HASH,
            &current[HASH..TRACE_WIDTH],
            &next[HASH..TRACE_WIDTH],
            not(hash_flag).mul(global_mask),
            &periodic_values[HASH_INPUT_COLUMN..ARK_COLUMN],
        );
        enforce_point_addition_reduce_affine(
            result,
            current,
            next,
            S_G,
            &current[H_PK..H_PK + PROJECTIVE_POINT_WIDTH],
            final_flag,
            &self.curve,
        );
        let d = diff(&current[H_LIMBS..H_LIMBS + NUM_LIMBS], &current[HASH..HASH + NUM_LIMBS]);
        agg_range(result, H_LIMBS, final_flag, d.as_slice());
    }

    /// The boundary assertions: where each cycle starts, the scalar of the
    /// signature that it multiplies with, and the commitment that it ends
    /// with.
    pub fn get_assertions(&self) -> (r: Vec<Assertion>)
        requires
            self.wf(),
        ensures
            assertions_view(r@) == spec_get_assertions(self.signatures@),
    {
        let ghost signatures = self.signatures@;
        let cycle = SIG_CYCLE_LENGTH;
        proof {
            lemma_cycle_lengths_are_powers_of_two();
        }
        let mut assertions: Vec<Assertion> = Vec::with_capacity(NUM_ASSERTIONS);
        let mut i: usize = 0;
        while i < PROJECTIVE_POINT_WIDTH
            invariant
                cycle == SIG_CYCLE_LENGTH,
                spec_is_power_of_two(512),
                i <= PROJECTIVE_POINT_WIDTH,
                assertions.len() == 2 * i,
                forall|k: int|
                    0 <= k < assertions.len() ==> (#[trigger] assertions@[k])@
                        == spec_assertion_at(signatures, k),
            decreases PROJECTIVE_POINT_WIDTH - i,
        {
            let value = Felt::from_bool(i == 6);
            assertions.push(Assertion::periodic(i + S_G, 0, cycle, value));
            assertions.push(Assertion::periodic(i + H_PK, 0, cycle, value));
            i += 1;
        }
        assertions.push(Assertion::periodic(S_BIT, 0, cycle, Felt::zero()));
        assertions.push(Assertion::periodic(H_BIT, 0, cycle, Felt::zero()));
        let mut i: usize = S_LIMBS;
        while i < HASH
            invariant
                cycle == SIG_CYCLE_LENGTH,
                spec_is_power_of_two(512),
                S_LIMBS <= i <= HASH,
                assertions.len() == i,
                forall|k: int|
                    0 <= k < assertions.len() ==> (#[trigger] assertions@[k])@
                        == spec_assertion_at(signatures, k),
            decreases HASH - i,
        {
            assertions.push(Assertion::periodic(i, 0, cycle, Felt::zero()));
            i += 1;
        }
        let mut i: usize = 0;
        while i < POINT_COORDINATE_WIDTH
            invariant
                self.wf(),
                signatures == self.signatures@,
                cycle == SIG_CYCLE_LENGTH,
                spec_is_power_of_two(512),
                i <= POINT_COORDINATE_WIDTH,
                assertions.len() == 46 + i,
                forall|k: int|
                    0 <= k < assertions.len() ==> (#[trigger] assertions@[k])@
                        == spec_assertion_at(signatures, k),
            decreases POINT_COORDINATE_WIDTH - i,
        {
            let values = commitment_values(&self.signatures, i);
            assertions.push(Assertion::sequence(i + HASH, 0, cycle, values));
            i += 1;
        }
        let mut i: usize = 0;
        while i < 8
            invariant
                cycle == SIG_CYCLE_LENGTH,
                spec_is_power_of_two(512),
                i <= 8,
                assertions.len() == 52 + i,
                forall|k: int|
                    0 <= k < assertions.len() ==> (#[trigger] assertions@[k])@
                        == spec_assertion_at(signatures, k),
            decreases 8 - i,
        {
            assertions.push(
                Assertion::periodic(i + HASH + POINT_COORDINATE_WIDTH, 0, cycle, Felt::zero()),
            );
            i += 1;
        }
        let mut j: usize = 0;
        while j < NUM_LIMBS
            invariant
                self.wf(),
                signatures == self.signatures@,
                cycle == SIG_CYCLE_LENGTH,
                spec_is_power_of_two(512),
                j <= NUM_LIMBS,
                assertions.len() == 60 + j,
                forall|k: int|
                    0 <= k < assertions.len() ==> (#[trigger] assertions@[k])@
                        == spec_assertion_at(signatures, k),
            decreases NUM_LIMBS - j,
        {
            let values = limb_values(&self.signatures, j);
            assertions.push(Assertion::sequence(j + S_LIMBS, SCALAR_MUL_LENGTH, cycle, values));
            j += 1;
        }
        let mut i: usize = 0;
        while i < POINT_COORDINATE_WIDTH
            invariant
                self.wf(),
                signatures == self.signatures@,
                cycle == SIG_CYCLE_LENGTH,
                spec_is_power_of_two(512),
                i <= POINT_COORDINATE_WIDTH,
                assertions.len() == 64 + i,
                forall|k: int|
                    0 <= k < assertions.len() ==> (#[trigger] assertions@[k])@
                        == spec_assertion_at(signatures, k),
            decreases POINT_COORDINATE_WIDTH - i,
        {
            let values = commitment_values(&self.signatures, i);
            assertions.push(Assertion::sequence(i + S_G, cycle - 1, cycle, values));
            i += 1;
        }
        assert(assertions_view(assertions@) =~= spec_get_assertions(signatures));
        assertions
    }

    /// The periodic columns of the constraint system.
    pub fn get_periodic_column_values(&self) -> (r: Vec<Vec<Felt>>)
        requires
            self.wf(),
        ensures
            columns_view(r@) == spec_get_periodic_column_values(
                self.voting_keys@,
                self.addresses@,
                self.rescue,
            ),
            r.len() == NUM_PERIODIC_COLUMNS,
    {
        let n = self.voting_keys.len();
        let ghost keys = self.voting_keys@;
        let ghost addresses = self.addresses@;
        let cycle = SIG_CYCLE_LENGTH;

        // the key and the message of each signature
        let mut key_table: Vec<Vec<Felt>> = Vec::with_capacity(n);
        let mut messages: Vec<Vec<Felt>> = Vec::with_capacity(n);
        let mut k: usize = 0;
        while k < n
            invariant
                self.wf(),
                n == self.voting_keys.len(),
                keys == self.voting_keys@,
                addresses == self.addresses@,
                k <= n,
                key_table.len() == k,
                messages.len() == k,
                forall|j: int| 0 <= j < k ==> (#[trigger] key_table@[j])@ == keys[j]@,
                forall|j: int| 0 <= j < k ==> (#[trigger] key_table@[j]).len() == AFFINE_POINT_WIDTH,
                forall|j: int|
                    0 <= j < k ==> (#[trigger] messages@[j])@ == spec_prepare_message(
                        keys[j]@,
                        addresses[j]@,
                    ),
                forall|j: int| 0 <= j < k ==> (#[trigger] messages@[j]).len() == MSG_LENGTH,
            decreases n - k,
        {
            let key = &self.voting_keys[k];
            key_table.push(crate::air::copy_of(key));
            messages.push(prepare_message(key, &self.addresses[k]));
            k += 1;
        }
        assert(columns_view(key_table@) =~~= spec_key_table(keys));

        let mut columns: Vec<Vec<Felt>> = Vec::with_capacity(NUM_PERIODIC_COLUMNS);
        columns.push(flag_column(cycle, 0, cycle - 1, 1, 1));
        columns.push(flag_column(cycle, 0, SCALAR_MUL_LENGTH, 1, 1));
        columns.push(flag_column(cycle, 0, SCALAR_MUL_LENGTH, 2, 1));
        columns.push(flag_column(cycle, 0, 126, 1, 1));
        columns.push(flag_column(cycle, 126, 254, 1, 1));
        columns.push(flag_column(cycle, 254, 382, 1, 1));
        columns.push(flag_column(cycle, 382, 510, 1, 1));
        let mut key_columns = columns_of(&key_table, AFFINE_POINT_WIDTH, cycle);
        let ghost key_view = columns_view(key_columns@);
        columns.append(&mut key_columns);
        columns.push(
            flag_column(cycle, 0, TOTAL_HASH_LENGTH, HASH_CYCLE_LENGTH, NUM_HASH_ROUNDS),
        );
        let mut j: usize = 0;
        while j < RATE_WIDTH
            invariant
                self.wf(),
                n == self.voting_keys.len(),
                keys == self.voting_keys@,
                addresses == self.addresses@,
                messages.len() == n,
                forall|k: int|
                    0 <= k < n ==> (#[trigger] messages@[k])@ == spec_prepare_message(
                        keys[k]@,
                        addresses[k]@,
                    ),
                forall|k: int| 0 <= k < n ==> (#[trigger] messages@[k]).len() == MSG_LENGTH,
                j <= RATE_WIDTH,
                columns.len() == HASH_INPUT_COLUMN + j,
                forall|c: int|
                    0 <= c < HASH_INPUT_COLUMN ==> (#[trigger] columns@[c])@
                        == spec_periodic_column(keys, addresses, self.rescue, c),
                forall|c: int|
                    HASH_INPUT_COLUMN <= c < columns.len() ==> (#[trigger] columns@[c])@
                        == spec_hash_input_column(keys, addresses, c - HASH_INPUT_COLUMN),
            decreases RATE_WIDTH - j,
        {
            let column = hash_input_column(&messages, j);
            proof {
                let expected = spec_hash_input_column(keys, addresses, j as int);
                assert forall|row: int| 0 <= row < column.len() implies column@[row]
                    == expected[row] by {
                    vstd::arithmetic::div_mod::lemma_multiply_divide_lt(
                        row,
                        SIG_CYCLE_LENGTH as int,
                        n as int,
                    );
                }
                assert(column@ =~= expected);
            }
            columns.push(column);
            j += 1;
        }
        let mut constants = get_round_constants(&self.rescue);
        let ghost round_constants = columns_view(constants@);
        columns.append(&mut constants);
        proof {
            let expected = spec_get_periodic_column_values(keys, addresses, self.rescue);
            let got = columns_view(columns@);
            assert forall|c: int| 0 <= c < NUM_PERIODIC_COLUMNS implies got[c] == expected[c] by {
                if c >= ARK_COLUMN {
                    assert(got[c] == round_constants[c - ARK_COLUMN]);
                }
            }
            assert(got =~= expected);
        }
        columns
    }
}

// THE SIGNATURES ARE BOUND
// ================================================================================================

/// A trace meets every boundary assertion of the constraint system for a
/// list of signatures.
pub open spec fn spec_meets_assertions(rows: Seq<Seq<Felt>>, signatures: Seq<Signature>) -> bool {
    forall|k: int|
        0 <= k < NUM_ASSERTIONS ==> (#[trigger] spec_get_assertions(signatures)[k]).holds(rows)
}

/// The boundary assertions bind the signatures: a trace cannot meet the
/// assertions for two lists of signatures that differ in an element of a
/// commitment or in a limb of a scalar. A proof for signatures of which one
/// was changed in this way is therefore a proof of another trace.
pub proof fn lemma_assertions_bind_signatures(
    rows: Seq<Seq<Felt>>,
    signatures: Seq<Signature>,
    others: Seq<Signature>,
    i: int,
)
    requires
        signatures.len() == others.len(),
        0 <= i < signatures.len(),
        spec_meets_assertions(rows, signatures),
        spec_meets_assertions(rows, others),
    ensures
        others[i].0 == signatures[i].0,
        forall|j: int|
            0 <= j < NUM_LIMBS ==> spec_scalar_limb(others[i].1@, j) == spec_scalar_limb(
                signatures[i].1@,
                j,
            ),
{
    let mine = spec_get_assertions(signatures);
    let theirs = spec_get_assertions(others);
    assert forall|c: int| 0 <= c < POINT_COORDINATE_WIDTH implies others[i].0[c]
        == signatures[i].0[c] by {
        let k = 46 + c;
        assert(mine[k].holds(rows));
        assert(theirs[k].holds(rows));
        let row = spec_row_of(0, SIG_CYCLE_LENGTH, i);
        assert(spec_holds_at(
            rows,
            (c + HASH) as usize,
            row,
            spec_commitment_values(signatures, c)[i],
        ));
        assert(spec_holds_at(rows, (c + HASH) as usize, row, spec_commitment_values(others, c)[i]));
    }
    assert(others[i].0 =~= signatures[i].0);
    assert forall|j: int| 0 <= j < NUM_LIMBS implies spec_scalar_limb(others[i].1@, j)
        == spec_scalar_limb(signatures[i].1@, j) by {
        let k = 60 + j;
        assert(mine[k].holds(rows));
        assert(theirs[k].holds(rows));
        let row = spec_row_of(SCALAR_MUL_LENGTH, SIG_CYCLE_LENGTH, i);
        assert(spec_holds_at(
            rows,
            (j + S_LIMBS) as usize,
            row,
            spec_limb_values(signatures, j)[i],
        ));
        assert(spec_holds_at(rows, (j + S_LIMBS) as usize, row, spec_limb_values(others, j)[i]));
    }
}

} // verus!

//! The constraint system of the tally.

use crate::air::{
    assertions_view, degrees_view, AirContext, Assertion, AssertionView, DegreeView,
    ProofOptions, TraceInfo, TransitionConstraintDegree,
};
use crate::constraint::{not, spec_not};
use crate::ecc::{
    compute_negation_affine, enforce_point_addition_mixed_reduce_affine,
    enforce_point_addition_mixed_unchecked, spec_enforce_point_addition_mixed_reduce_affine,
    spec_enforce_point_addition_mixed_unchecked, Affine, Curve, AFFINE_POINT_WIDTH,
    PROJECTIVE_POINT_WIDTH,
};
use crate::field::Felt;
use crate::periodic::{columns_view, flag_column, spec_flag_column};
use crate::tally::{spec_start_point, start_point, NUM_PERIODIC_COLUMNS, TRACE_WIDTH};
use crate::wire::{spec_elements_bytes, spec_flatten, write_bytes, write_rows, BYTES_PER_SCALAR};
use vstd::bytes::{spec_u64_to_le_bytes, u64_to_le_bytes};
use vstd::prelude::*;

verus! {

/// What the verifier knows: the encrypted votes and the claimed number of
/// votes for.
#[derive(Clone, Debug)]
pub struct PublicInputs {
    pub encrypted_votes: Vec<[Felt; AFFINE_POINT_WIDTH]>,
    pub tally_result: u64,
}

impl PublicInputs {
    /// The bytes of the public inputs: the votes, and the tally as a scalar
    /// of 32 bytes, least significant first.
    pub open spec fn spec_to_bytes(&self) -> Seq<u8> {
        spec_elements_bytes(spec_flatten(self.encrypted_votes@)) + spec_u64_to_le_bytes(
            self.tally_result,
        ) + Seq::new((BYTES_PER_SCALAR - 8) as nat, |i: int| 0u8)
    }

    /// Appends the bytes of the public inputs to `target`.
    pub fn write_into(&self, target: &mut Vec<u8>)
        requires
            self.encrypted_votes@.len() * AFFINE_POINT_WIDTH <= usize::MAX,
        ensures
            final(target)@ == old(target)@ + self.spec_to_bytes(),
    {
        write_rows(target, &self.encrypted_votes);
        let low = u64_to_le_bytes(self.tally_result);
        write_bytes(target, low.as_slice());
        let high = [0u8;24];
        write_bytes(target, &high);
        assert(high@ =~= Seq::new((BYTES_PER_SCALAR - 8) as nat, |i: int| 0u8));
        assert(target@ =~= old(target)@ + self.spec_to_bytes());
    }

    /// The bytes of the public inputs.
    pub fn to_bytes(&self) -> (r: Vec<u8>)
        requires
            self.encrypted_votes@.len() * AFFINE_POINT_WIDTH <= usize::MAX,
        ensures
            r@ == self.spec_to_bytes(),
    {
        let mut target: Vec<u8> = Vec::new();
        self.write_into(&mut target);
        assert(target@ =~= self.spec_to_bytes());
        target
    }
}

/// The constraint system of the tally of a list of votes.
#[derive(Clone, Debug)]
pub struct TallyAir {
    pub context: AirContext,
    pub encrypted_votes: Vec<[Felt; AFFINE_POINT_WIDTH]>,
    pub tally_result: u64,
    pub curve: Curve,
}

/// The transition constraints on a pair of rows: the next point is the
/// current one plus the vote of the row, reduced to affine coordinates on
/// the row of the last addition.
pub open spec fn spec_evaluate_transition(
    result: Seq<Felt>,
    current: Seq<Felt>,
    next: Seq<Felt>,
    periodic_values: Seq<Felt>,
    curve: Curve,
) -> Seq<Felt> {
    let final_reduction_flag = periodic_values[0];
    let encrypted_vote = periodic_values.subrange(1, NUM_PERIODIC_COLUMNS as int);
    spec_enforce_point_addition_mixed_reduce_affine(
        spec_enforce_point_addition_mixed_unchecked(
            result,
            current,
            next,
            0,
            encrypted_vote,
            spec_not(final_reduction_flag),
            curve,
        ),
        current,
        next,
        0,
        encrypted_vote,
        final_reduction_flag,
        curve,
    )
}

/// The declared degree of constraint `i`.
pub open spec fn spec_degree_at(i: int) -> DegreeView {
    DegreeView {
        base: if i < AFFINE_POINT_WIDTH {
            6
        } else {
            5
        },
        cycles: Seq::empty(),
    }
}

/// The declared degrees of the transition constraints.
pub open spec fn spec_transition_constraint_degrees() -> Seq<DegreeView> {
    Seq::new(TRACE_WIDTH as nat, |i: int| spec_degree_at(i))
}

/// The declared degrees of the transition constraints, one for each
/// register of the trace.
pub fn transition_constraint_degrees() -> (r: Vec<TransitionConstraintDegree>)
    ensures
        degrees_view(r@) == spec_transition_constraint_degrees(),
        r.len() == TRACE_WIDTH,
{
    let mut degrees: Vec<TransitionConstraintDegree> = Vec::with_capacity(TRACE_WIDTH);
    let mut i: usize = 0;
    while i < TRACE_WIDTH
        invariant
            i <= TRACE_WIDTH,
            degrees.len() == i,
            forall|k: int| 0 <= k < i ==> (#[trigger] degrees@[k])@ == spec_degree_at(k),
        decreases TRACE_WIDTH - i,
    {
        if i < AFFINE_POINT_WIDTH {
            degrees.push(TransitionConstraintDegree::new(6));
        } else {
            degrees.push(TransitionConstraintDegree::new(5));
        }
        i += 1;
    }
    assert(degrees_view(degrees@) =~~= spec_transition_constraint_degrees());
    degrees
}

/// Assertion `k` of the constraint system, in the order of
/// [`TallyAir::get_assertions`].
pub open spec fn spec_assertion_at(
    encrypted_votes: Seq<[Felt; AFFINE_POINT_WIDTH]>,
    tally_result: u64,
    curve: Curve,
    k: int,
) -> AssertionView {
    let n = encrypted_votes.len();
    if k < PROJECTIVE_POINT_WIDTH {
        // the trace starts at (N - 2t) G
        AssertionView::Single {
            column: k as usize,
            step: 0,
            value: spec_start_point(n as u64, tally_result, curve)[k],
        }
    } else {
        // and ends at minus the last vote
        AssertionView::Single {
            column: (k - PROJECTIVE_POINT_WIDTH) as usize,
            step: (n - 1) as usize,
            value: Affine::spec_read(encrypted_votes[n - 1]@, 0).spec_neg().spec_registers()[k
                - PROJECTIVE_POINT_WIDTH],
        }
    }
}

/// The boundary assertions of the constraint system.
pub open spec fn spec_get_assertions(
    encrypted_votes: Seq<[Felt; AFFINE_POINT_WIDTH]>,
    tally_result: u64,
    curve: Curve,
) -> Seq<AssertionView> {
    Seq::new(
        (PROJECTIVE_POINT_WIDTH + AFFINE_POINT_WIDTH) as nat,
        |k: int| spec_assertion_at(encrypted_votes, tally_result, curve, k),
    )
}

/// Coordinate `i` of the vote of each row: of the vote that the row adds,
/// and zero on the last row, which adds none.
pub open spec fn spec_vote_column(encrypted_votes: Seq<[Felt; AFFINE_POINT_WIDTH]>, i: int) -> Seq<
    Felt,
> {
    Seq::new(
        encrypted_votes.len(),
        |r: int|
            if r < encrypted_votes.len() - 1 {
                encrypted_votes[r][i]
            } else {
                Felt::spec_zero()
            },
    )
}

/// Periodic column `c` of the constraint system: the flag of the last
/// addition, and the coordinates of the vote of the row.
pub open spec fn spec_periodic_column(encrypted_votes: Seq<[Felt; AFFINE_POINT_WIDTH]>, c: int) -> Seq<
    Felt,
> {
    let n = encrypted_votes.len();
    if c == 0 {
        spec_flag_column(n, n - 2, n - 1, 1, 1)
    } else {
        spec_vote_column(encrypted_votes, c - 1)
    }
}

/// The periodic columns of the constraint system.
pub open spec fn spec_get_periodic_column_values(
    encrypted_votes: Seq<[Felt; AFFINE_POINT_WIDTH]>,
) -> Seq<Seq<Felt>> {
    Seq::new(NUM_PERIODIC_COLUMNS as nat, |c: int| spec_periodic_column(encrypted_votes, c))
}

impl TallyAir {
    /// There are at least two votes, and the tally is at most their number.
    pub open spec fn wf(&self) -> bool {
        &&& self.encrypted_votes@.len() >= 2
        &&& self.encrypted_votes@.len() <= u64::MAX
        &&& 2 * self.tally_result <= u64::MAX
    }

    /// The constraint system for the given public inputs.
    pub fn new(trace_info: TraceInfo, pub_inputs: PublicInputs, options: ProofOptions, curve: Curve) -> (r:
        TallyAir)
        requires
            trace_info.width == TRACE_WIDTH,
        ensures
            r.context.trace_info == trace_info,
            r.context.options == options,
            degrees_view(r.context.transition_constraint_degrees@)
                == spec_transition_constraint_degrees(),
            r.encrypted_votes == pub_inputs.encrypted_votes,
            r.tally_result == pub_inputs.tally_result,
            r.curve == curve,
    {
        let degrees = transition_constraint_degrees();
        TallyAir {
            context: AirContext::new(trace_info, degrees, options),
            encrypted_votes: pub_inputs.encrypted_votes,
            tally_result: pub_inputs.tally_result,
            curve,
        }
    }

    /// The context of the constraint system.
    pub fn context(&self) -> (r: &AirContext)
        ensures
            *r == self.context,
    {
        &self.context
    }

    /// Evaluates the transition constraints on a pair of consecutive rows
    /// and the values of the periodic columns on the first of them, and adds
    /// each to its entry of `result`.
    pub fn evaluate_transition(
        &self,
        current: &[Felt],
        next: &[Felt],
        periodic_values: &[Felt],
        result: &mut [Felt],
    )
        requires
            current.len() == TRACE_WIDTH,
            next.len() == TRACE_WIDTH,
            periodic_values.len() == NUM_PERIODIC_COLUMNS,
            old(result).len() == TRACE_WIDTH,
        ensures
            final(result)@ == spec_evaluate_transition(
                old(result)@,
                current@,
                next@,
                periodic_values@,
                self.curve,
            ),
            final(result).len() == TRACE_WIDTH,
    {
        let final_reduction_flag = periodic_values[0];
        let encrypted_vote = &periodic_values[1..NUM_PERIODIC_COLUMNS];
        enforce_point_addition_mixed_unchecked(
            result,
            current,
            next,
            0,
            encrypted_vote,
            not(final_reduction_flag),
            &self.curve,
        );
        enforce_point_addition_mixed_reduce_affine(
            result,
            current,
            next,
            0,
            encrypted_vote,
            final_reduction_flag,
            &self.curve,
        );
    }

    /// The boundary assertions: where the sum starts, and where it ends.
    pub fn get_assertions(&self) -> (r: Vec<Assertion>)
        requires
            self.wf(),
        ensures
            assertions_view(r@) == spec_get_assertions(
                self.encrypted_votes@,
                self.tally_result,
                self.curve,
            ),
    {
        let num_votes = self.encrypted_votes.len();
        let ghost votes = self.encrypted_votes@;
        let start = start_point(num_votes as u64, self.tally_result, &self.curve);
        let neg_last_vote = compute_negation_affine(&self.encrypted_votes[num_votes - 1]);
        let mut assertions: Vec<Assertion> = Vec::new();
        let mut i: usize = 0;
        while i < PROJECTIVE_POINT_WIDTH
            invariant
                num_votes == votes.len(),
                num_votes >= 2,
                start.len() == PROJECTIVE_POINT_WIDTH,
                start@ == spec_start_point(num_votes as u64, self.tally_result, self.curve),
                i <= PROJECTIVE_POINT_WIDTH,
                assertions.len() == i,
                forall|k: int|
                    0 <= k < assertions.len() ==> (#[trigger] assertions@[k])@
                        == spec_assertion_at(votes, self.tally_result, self.curve, k),
            decreases PROJECTIVE_POINT_WIDTH - i,
        {
            assertions.push(Assertion::single(i, 0, start[i]));
            i += 1;
        }
        let mut i: usize = 0;
        while i < AFFINE_POINT_WIDTH
            invariant
                num_votes == votes.len(),
                num_votes >= 2,
                neg_last_vote.len() == AFFINE_POINT_WIDTH,
                neg_last_vote@ == Affine::spec_read(
                    votes[num_votes - 1]@,
                    0,
                ).spec_neg().spec_registers(),
                i <= AFFINE_POINT_WIDTH,
                assertions.len() == PROJECTIVE_POINT_WIDTH + i,
                forall|k: int|
                    0 <= k < assertions.len() ==> (#[trigger] assertions@[k])@
                        == spec_assertion_at(votes, self.tally_result, self.curve, k),
            decreases AFFINE_POINT_WIDTH - i,
        {
            assertions.push(Assertion::single(i, num_votes - 1, neg_last_vote[i]));
            i += 1;
        }
        assert(assertions_view(assertions@) =~= spec_get_assertions(
            votes,
            self.tally_result,
            self.curve,
        ));
        assertions
    }

    /// The periodic columns of the constraint system.
    pub fn get_periodic_column_values(&self) -> (r: Vec<Vec<Felt>>)
        requires
            self.wf(),
        ensures
            columns_view(r@) == spec_get_periodic_column_values(self.encrypted_votes@),
            r.len() == NUM_PERIODIC_COLUMNS,
    {
        let num_votes = self.encrypted_votes.len();
        let ghost votes = self.encrypted_votes@;
        let mut columns: Vec<Vec<Felt>> = Vec::with_capacity(NUM_PERIODIC_COLUMNS);
        columns.push(flag_column(num_votes, num_votes - 2, num_votes - 1, 1, 1));
        let mut i: usize = 0;
        while i < AFFINE_POINT_WIDTH
            invariant
                num_votes == self.encrypted_votes.len(),
                votes == self.encrypted_votes@,
                num_votes >= 2,
                i <= AFFINE_POINT_WIDTH,
                columns.len() == i + 1,
                columns@[0]@ == spec_flag_column(
                    num_votes as nat,
                    num_votes - 2,
                    num_votes - 1,
                    1,
                    1,
                ),
                forall|c: int|
                    1 <= c < i + 1 ==> (#[trigger] columns@[c])@ == spec_vote_column(votes, c - 1),
            decreases AFFINE_POINT_WIDTH - i,
        {
            let mut column: Vec<Felt> = Vec::with_capacity(num_votes);
            let mut row: usize = 0;
            while row < num_votes
                invariant
                    num_votes == self.encrypted_votes.len(),
                    votes == self.encrypted_votes@,
                    i < AFFINE_POINT_WIDTH,
                    row <= num_votes,
                    column.len() == row,
                    forall|r: int|
                        0 <= r < row ==> column@[r] == if r < num_votes - 1 {
                            votes[r][i as int]
                        } else {
                            Felt::spec_zero()
                        },
                decreases num_votes - row,
            {
                if row < num_votes - 1 {
                    let vote = &self.encrypted_votes[row];
                    column.push(vote[i]);
                } else {
                    column.push(Felt::zero());
                }
                row += 1;
            }
            assert(column@ =~= spec_vote_column(votes, i as int));
            columns.push(column);
            i += 1;
        }
        assert(columns_view(columns@) =~= spec_get_periodic_column_values(votes));
        columns
    }
}

} // verus!

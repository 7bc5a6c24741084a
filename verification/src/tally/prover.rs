//! The prover of the tally: from the votes and their tally to the execution
//! trace and the public inputs.

use crate::air::{
    copy_of, is_power_of_two, spec_is_power_of_two, ProofOptions, TraceTable, WitnessError,
};
use crate::constraint::{spec_write_range, write_range};
use crate::ecc::{
    compute_add_mixed, reduce_to_affine, spec_compute_add_mixed, Curve, Projective,
    AFFINE_POINT_WIDTH,
};
use crate::field::Felt;
use crate::merkle::prover::copy_of_keys;
use crate::tally::air::PublicInputs;
use crate::tally::{spec_start_point, start_point, TRACE_WIDTH};
use vstd::prelude::*;

verus! {

/// The prover of the tally of a list of votes.
#[derive(Clone, Debug)]
pub struct TallyProver {
    pub options: ProofOptions,
    /// The encrypted votes.
    pub encrypted_votes: Vec<[Felt; AFFINE_POINT_WIDTH]>,
    /// The number of votes for.
    pub tally_result: u64,
    pub curve: Curve,
}

/// The shape of a witness: at least two votes, and a power of two of them.
pub open spec fn spec_witness_shape(encrypted_votes: nat) -> Result<(), WitnessError> {
    if encrypted_votes < 2 {
        Err(WitnessError::TooFewItems)
    } else if !spec_is_power_of_two(encrypted_votes) {
        Err(WitnessError::NotPowerOfTwo)
    } else {
        Ok(())
    }
}

/// The row that follows `state` on step `step`: the vote of the step is
/// added; on the last step the sum is reduced to affine coordinates.
pub open spec fn spec_update_tally_state(
    step: int,
    encrypted_votes: Seq<[Felt; AFFINE_POINT_WIDTH]>,
    state: Seq<Felt>,
    curve: Curve,
) -> Seq<Felt> {
    let added = spec_compute_add_mixed(state, 0, encrypted_votes[step]@, curve);
    if step + 2 < encrypted_votes.len() {
        added
    } else {
        spec_write_range(
            added,
            0,
            Projective::spec_read(added, 0).spec_to_affine(curve).spec_registers(),
        )
    }
}

impl TallyProver {
    /// The tally is at most the number of votes.
    pub open spec fn wf(&self) -> bool {
        &&& self.encrypted_votes@.len() <= u64::MAX
        &&& self.tally_result <= self.encrypted_votes@.len()
        &&& 2 * self.tally_result <= u64::MAX
    }

    /// The prover of the claim that `tally_result` of the votes are for.
    pub fn new(
        options: ProofOptions,
        encrypted_votes: Vec<[Felt; AFFINE_POINT_WIDTH]>,
        tally_result: u64,
        curve: Curve,
    ) -> (r: TallyProver)
        ensures
            r.options == options,
            r.encrypted_votes == encrypted_votes,
            r.tally_result == tally_result,
            r.curve == curve,
    {
        TallyProver { options, encrypted_votes, tally_result, curve }
    }

    /// The parameters of the proof.
    pub fn options(&self) -> (r: &ProofOptions)
        ensures
            *r == self.options,
    {
        &self.options
    }

    /// Row `step` of the trace: the first row is `(N - 2t) G`, and each row
    /// follows from the one before by adding a vote.
    pub open spec fn spec_trace_row(&self, step: nat) -> Seq<Felt>
        decreases step,
    {
        if step == 0 {
            spec_start_point(self.encrypted_votes@.len() as u64, self.tally_result, self.curve)
        } else {
            spec_update_tally_state(
                step - 1,
                self.encrypted_votes@,
                self.spec_trace_row((step - 1) as nat),
                self.curve,
            )
        }
    }

    /// The execution trace of the tally: one row for each vote.
    pub open spec fn spec_build_trace(&self) -> Seq<Seq<Felt>> {
        Seq::new(self.encrypted_votes@.len(), |r: int| self.spec_trace_row(r as nat))
    }

    /// Builds the execution trace of the tally. Votes that have not the
    /// number that a trace needs are refused.
    pub fn build_trace(&self) -> (r: Result<TraceTable, WitnessError>)
        requires
            self.wf(),
        ensures
            match spec_witness_shape(self.encrypted_votes@.len()) {
                Ok(()) => r is Ok && r->Ok_0.spec_rows() == self.spec_build_trace()
                    && r->Ok_0.has_width(TRACE_WIDTH as nat) && r->Ok_0.rows@.len()
                    == self.encrypted_votes@.len(),
                Err(e) => r is Err && r->Err_0 == e,
            },
    {
        let num_votes = self.encrypted_votes.len();
        if num_votes < 2 {
            return Err(WitnessError::TooFewItems);
        }
        if !is_power_of_two(num_votes) {
            return Err(WitnessError::NotPowerOfTwo);
        }
        let mut state = start_point(num_votes as u64, self.tally_result, &self.curve);
        let mut rows: Vec<Vec<Felt>> = Vec::with_capacity(num_votes);
        rows.push(copy_of(state.as_slice()));
        let mut step: usize = 0;
        while step < num_votes - 1
            invariant
                num_votes == self.encrypted_votes.len(),
                num_votes >= 2,
                step <= num_votes - 1,
                state.len() == TRACE_WIDTH,
                state@ == self.spec_trace_row(step as nat),
                rows.len() == step + 1,
                forall|r: int| 0 <= r < rows.len() ==> (#[trigger] rows@[r]).len() == TRACE_WIDTH,
                forall|r: int|
                    0 <= r < rows.len() ==> (#[trigger] rows@[r])@ == self.spec_trace_row(r as nat),
            decreases num_votes - 1 - step,
        {
            compute_add_mixed(state.as_mut_slice(), 0, &self.encrypted_votes[step], &self.curve);
            if step + 2 >= num_votes {
                let reduced = reduce_to_affine(state.as_slice(), 0, &self.curve);
                write_range(state.as_mut_slice(), 0, reduced.as_slice());
            }
            rows.push(copy_of(state.as_slice()));
            step += 1;
        }
        let trace = TraceTable { rows };
        assert(trace.spec_rows() =~= self.spec_build_trace());
        Ok(trace)
    }

    /// The public inputs that go with a trace: the votes and the tally.
    pub fn get_pub_inputs(&self, trace: &TraceTable) -> (r: PublicInputs)
        ensures
            r.encrypted_votes@ == self.encrypted_votes@,
            r.tally_result == self.tally_result,
    {
        PublicInputs {
            encrypted_votes: copy_of_keys(&self.encrypted_votes),
            tally_result: self.tally_result,
        }
    }
}

} // verus!

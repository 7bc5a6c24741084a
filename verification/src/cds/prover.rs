//! The prover of well-formed votes: from the proofs of the voters to the
//! execution trace and the public inputs.

use crate::air::{
    copy_of, is_power_of_two, lemma_row_of_cycle, spec_is_power_of_two, ProofOptions, TraceTable,
    WitnessError,
};
use crate::cds::air::PublicInputs;
use crate::cds::constants::{
    CDS_CYCLE_LENGTH, C_VK, HASH_MSG_LENGTH, NROWS_PER_PHASE, NUM_HASH_ITER, OUTPUT_WIDTH,
    PROOF_POINTS_WIDTH, PROOF_WIDTH, R_BK, R_G, SCALAR_MUL_LENGTH, TRACE_WIDTH,
};
use crate::cds::trace::{
    compute_blinding_keys, decompose_scalars, init_cds_verification_state, keys_view,
    prepare_encrypted_votes, prepare_hash_message, spec_blinding_keys,
    spec_init_cds_verification_state, spec_prepare_encrypted_votes, spec_prepare_hash_message,
    spec_update_cds_verification_state, update_cds_verification_state,
};
use crate::constraint::{diff, spec_diff, spec_write_range, write_range, zeros};
use crate::ecc::{Curve, AFFINE_POINT_WIDTH, POINT_COORDINATE_WIDTH, PROJECTIVE_POINT_WIDTH};
use crate::field::Felt;
use crate::rescue::{
    digest, digest_bytes, merge, spec_digest, spec_digest_bytes, spec_merge, Rescue, DIGEST_SIZE,
    RATE_WIDTH,
};
use vstd::prelude::*;

verus! {

/// The digest of the first `k` chunks of a message: the digest of the first
/// chunk, merged with each of the chunks that follow.
pub open spec fn spec_hash_chain(message: Seq<Felt>, k: nat, rescue: Rescue) -> Seq<Felt>
    decreases k,
{
    if k <= 1 {
        spec_digest(message.subrange(0, RATE_WIDTH as int), rescue)
    } else {
        spec_merge(
            spec_hash_chain(message, (k - 1) as nat, rescue),
            message.subrange(RATE_WIDTH * (k - 1), RATE_WIDTH * k),
            rescue,
        )
    }
}

/// The challenge of a vote as 32 bytes: the first four elements of the
/// digest of the message, each as its eight bytes.
pub open spec fn spec_hash_message_bytes(message: Seq<Felt>, rescue: Rescue) -> Seq<u8> {
    spec_digest_bytes(spec_hash_chain(message, NUM_HASH_ITER as nat, rescue))
}

/// Hashes the message of a vote into its challenge.
pub fn hash_message_bytes(message: &[Felt], rescue: &Rescue) -> (r: [u8; 32])
    requires
        message.len() == HASH_MSG_LENGTH,
    ensures
        r@ == spec_hash_message_bytes(message@, *rescue),
{
    let mut h = digest(&message[0..RATE_WIDTH], rescue);
    let mut k: usize = 1;
    while k < NUM_HASH_ITER
        invariant
            message.len() == HASH_MSG_LENGTH,
            1 <= k <= NUM_HASH_ITER,
            h.len() == DIGEST_SIZE,
            h@ == spec_hash_chain(message@, k as nat, *rescue),
        decreases NUM_HASH_ITER - k,
    {
        h = merge(h.as_slice(), &message[RATE_WIDTH * k..RATE_WIDTH * (k + 1)], rescue);
        k += 1;
    }
    digest_bytes(h.as_slice())
}

/// The prover of the well-formed votes of a list of voters.
#[derive(Clone, Debug)]
pub struct CDSProver {
    pub options: ProofOptions,
    /// The voting key of each voter.
    pub voting_keys: Vec<[Felt; AFFINE_POINT_WIDTH]>,
    /// The encrypted vote of each voter.
    pub encrypted_votes: Vec<[Felt; AFFINE_POINT_WIDTH]>,
    /// The proof points `a1`, `b1`, `a2`, `b2` of each voter.
    pub proof_points: Vec<[Felt; PROOF_POINTS_WIDTH]>,
    /// The proof scalars `d1`, `d2`, `r1`, `r2` of each voter.
    pub proof_scalars: Vec<[[u8; 32]; 4]>,
    pub curve: Curve,
    pub rescue: Rescue,
}

/// The shape of a witness: one encrypted vote, one list of proof points and
/// one list of proof scalars for each voting key; at least two voters, and a
/// power of two of them.
pub open spec fn spec_witness_shape(
    voting_keys: nat,
    encrypted_votes: nat,
    proof_points: nat,
    proof_scalars: nat,
) -> Result<(), WitnessError> {
    if encrypted_votes != voting_keys || proof_points != voting_keys || proof_scalars
        != voting_keys {
        Err(WitnessError::WrongLength)
    } else if voting_keys < 2 {
        Err(WitnessError::TooFewItems)
    } else if !spec_is_power_of_two(voting_keys) {
        Err(WitnessError::NotPowerOfTwo)
    } else {
        Ok(())
    }
}

impl CDSProver {
    /// The witness has its shape, and the trace fits the machine.
    pub open spec fn wf(&self) -> bool {
        &&& spec_witness_shape(
            self.voting_keys@.len(),
            self.encrypted_votes@.len(),
            self.proof_points@.len(),
            self.proof_scalars@.len(),
        ) is Ok
        &&& self.voting_keys@.len() * CDS_CYCLE_LENGTH <= usize::MAX
    }

    /// The prover of the given votes; the error of the witness if it has not
    /// the shape that a trace needs.
    pub fn new(
        options: ProofOptions,
        voting_keys: Vec<[Felt; AFFINE_POINT_WIDTH]>,
        encrypted_votes: Vec<[Felt; AFFINE_POINT_WIDTH]>,
        proof_points: Vec<[Felt; PROOF_POINTS_WIDTH]>,
        proof_scalars: Vec<[[u8; 32]; 4]>,
        curve: Curve,
        rescue: Rescue,
    ) -> (r: Result<CDSProver, WitnessError>)
        requires
            voting_keys.len() * CDS_CYCLE_LENGTH <= usize::MAX,
        ensures
            match spec_witness_shape(
                voting_keys@.len(),
                encrypted_votes@.len(),
                proof_points@.len(),
                proof_scalars@.len(),
            ) {
                Ok(()) => r is Ok && r->Ok_0.wf() && r->Ok_0.options == options
                    && r->Ok_0.voting_keys == voting_keys && r->Ok_0.encrypted_votes
                    == encrypted_votes && r->Ok_0.proof_points == proof_points
                    && r->Ok_0.proof_scalars == proof_scalars && r->Ok_0.curve == curve
                    && r->Ok_0.rescue == rescue,
                Err(e) => r is Err && r->Err_0 == e,
            },
    {
        let n = voting_keys.len();
        if encrypted_votes.len() != n || proof_points.len() != n || proof_scalars.len() != n {
            Err(WitnessError::WrongLength)
        } else if n < 2 {
            Err(WitnessError::TooFewItems)
        } else if !is_power_of_two(n) {
            Err(WitnessError::NotPowerOfTwo)
        } else {
            Ok(
                CDSProver {
                    options,
                    voting_keys,
                    encrypted_votes,
                    proof_points,
                    proof_scalars,
                    curve,
                    rescue,
                },
            )
        }
    }

    /// The parameters of the proof.
    pub fn options(&self) -> (r: &ProofOptions)
        ensures
            *r == self.options,
    {
        &self.options
    }

    /// The message that is hashed into the challenge of voter `i`.
    pub open spec fn spec_hash_message(&self, i: int) -> Seq<Felt> {
        spec_prepare_hash_message(
            i as usize,
            self.voting_keys@[i]@,
            self.encrypted_votes@[i]@,
            self.proof_points@[i]@,
        )
    }

    /// Row `step` of the cycle of voter `i`: the first row is the initial
    /// state, and each row follows from the one before by the transition
    /// function on the witness of the voter.
    pub open spec fn spec_trace_row(&self, i: int, step: nat) -> Seq<Felt>
        decreases step,
    {
        if step == 0 {
            spec_init_cds_verification_state(i as usize)
        } else {
            let votes = spec_prepare_encrypted_votes(self.encrypted_votes@[i]@, self.curve);
            spec_update_cds_verification_state(
                step - 1,
                self.spec_hash_message(i),
                self.voting_keys@[i]@,
                spec_blinding_keys(keys_view(self.voting_keys@), self.curve)[i],
                votes.0,
                votes.1,
                self.proof_scalars@[i][0]@,
                self.proof_scalars@[i][1]@,
                self.proof_scalars@[i][2]@,
                self.proof_scalars@[i][3]@,
                spec_hash_message_bytes(self.spec_hash_message(i), self.rescue),
                self.spec_trace_row(i, (step - 1) as nat),
                self.curve,
                self.rescue,
            )
        }
    }

    /// The execution trace of the votes: one cycle of 1024 rows for each
    /// voter, in the order of the voters.
    pub open spec fn spec_build_trace(&self) -> Seq<Seq<Felt>> {
        Seq::new(
            (self.voting_keys@.len() * CDS_CYCLE_LENGTH) as nat,
            |r: int|
                self.spec_trace_row(
                    r / (CDS_CYCLE_LENGTH as int),
                    (r % (CDS_CYCLE_LENGTH as int)) as nat,
                ),
        )
    }

    /// The rows of the cycle of voter `i`, whose blinding key is given.
    fn build_cycle(&self, i: usize, blinding_key: &[Felt]) -> (rows: Vec<Vec<Felt>>)
        requires
            self.wf(),
            i < self.voting_keys.len(),
            blinding_key.len() == AFFINE_POINT_WIDTH,
            blinding_key@ == spec_blinding_keys(keys_view(self.voting_keys@), self.curve)[i as int],
        ensures
            rows.len() == CDS_CYCLE_LENGTH,
            forall|step: int|
                0 <= step < CDS_CYCLE_LENGTH ==> (#[trigger] rows@[step]).len() == TRACE_WIDTH
                    && rows@[step]@ == self.spec_trace_row(i as int, step as nat),
    {
        let votes = prepare_encrypted_votes(&self.encrypted_votes[i], &self.curve);
        let scalars = decompose_scalars(&self.proof_scalars[i]);
        let hash_msg = prepare_hash_message(
            i,
            &self.voting_keys[i],
            &self.encrypted_votes[i],
            &self.proof_points[i],
        );
        let c_bytes = hash_message_bytes(hash_msg.as_slice(), &self.rescue);
        let mut rows: Vec<Vec<Felt>> = Vec::with_capacity(CDS_CYCLE_LENGTH);
        let mut state = zeros(TRACE_WIDTH);
        init_cds_verification_state(i, state.as_mut_slice());
        rows.push(copy_of(state.as_slice()));
        let mut step: usize = 0;
        while step < CDS_CYCLE_LENGTH - 1
            invariant
                self.wf(),
                i < self.voting_keys.len(),
                blinding_key.len() == AFFINE_POINT_WIDTH,
                blinding_key@ == spec_blinding_keys(keys_view(self.voting_keys@), self.curve)[i as int],
                votes.0@ == spec_prepare_encrypted_votes(
                    self.encrypted_votes@[i as int]@,
                    self.curve,
                ).0,
                votes.1@ == spec_prepare_encrypted_votes(
                    self.encrypted_votes@[i as int]@,
                    self.curve,
                ).1,
                votes.0.len() == AFFINE_POINT_WIDTH,
                votes.1.len() == AFFINE_POINT_WIDTH,
                scalars.0 == self.proof_scalars@[i as int][0],
                scalars.1 == self.proof_scalars@[i as int][1],
                scalars.2 == self.proof_scalars@[i as int][2],
                scalars.3 == self.proof_scalars@[i as int][3],
                hash_msg@ == self.spec_hash_message(i as int),
                hash_msg.len() == HASH_MSG_LENGTH,
                c_bytes@ == spec_hash_message_bytes(self.spec_hash_message(i as int), self.rescue),
                step <= CDS_CYCLE_LENGTH - 1,
                state.len() == TRACE_WIDTH,
                state@ == self.spec_trace_row(i as int, step as nat),
                rows.len() == step + 1,
                forall|s: int|
                    0 <= s <= step ==> (#[trigger] rows@[s]).len() == TRACE_WIDTH && rows@[s]@
                        == self.spec_trace_row(i as int, s as nat),
            decreases CDS_CYCLE_LENGTH - 1 - step,
        {
            update_cds_verification_state(
                step,
                hash_msg.as_slice(),
                &self.voting_keys[i],
                blinding_key,
                votes.0.as_slice(),
                votes.1.as_slice(),
                &scalars.0,
                &scalars.1,
                &scalars.2,
                &scalars.3,
                &c_bytes,
                state.as_mut_slice(),
                &self.curve,
                &self.rescue,
            );
            rows.push(copy_of(state.as_slice()));
            step += 1;
        }
        rows
    }

    /// Builds the execution trace of the votes.
    pub fn build_trace(&self) -> (trace: TraceTable)
        requires
            self.wf(),
        ensures
            trace.spec_rows() == self.spec_build_trace(),
            trace.has_width(TRACE_WIDTH as nat),
            trace.rows@.len() == self.voting_keys@.len() * CDS_CYCLE_LENGTH,
    {
        let n = self.voting_keys.len();
        let blinding_keys = compute_blinding_keys(&self.voting_keys, &self.curve);
        let mut rows: Vec<Vec<Felt>> = Vec::with_capacity(n * CDS_CYCLE_LENGTH);
        let mut i: usize = 0;
        while i < n
            invariant
                self.wf(),
                n == self.voting_keys.len(),
                blinding_keys.len() == n,
                crate::periodic::columns_view(blinding_keys@) == spec_blinding_keys(
                    keys_view(self.voting_keys@),
                    self.curve,
                ),
                forall|k: int|
                    0 <= k < n ==> (#[trigger] blinding_keys@[k]).len() == AFFINE_POINT_WIDTH,
                i <= n,
                rows.len() == i * CDS_CYCLE_LENGTH,
                forall|r: int| 0 <= r < rows.len() ==> (#[trigger] rows@[r]).len() == TRACE_WIDTH,
                forall|r: int|
                    0 <= r < rows.len() ==> (#[trigger] rows@[r])@ == self.spec_trace_row(
                        r / (CDS_CYCLE_LENGTH as int),
                        (r % (CDS_CYCLE_LENGTH as int)) as nat,
                    ),
            decreases n - i,
        {
            assert(blinding_keys@[i as int]@ == spec_blinding_keys(
                keys_view(self.voting_keys@),
                self.curve,
            )[i as int]);
            let mut cycle = self.build_cycle(i, blinding_keys[i].as_slice());
            let ghost before = rows@;
            let ghost added = cycle@;
            rows.append(&mut cycle);
            proof {
                lemma_row_of_cycle(i as int, CDS_CYCLE_LENGTH as int, 0);
                assert forall|r: int| 0 <= r < rows.len() implies (#[trigger] rows@[r]).len()
                    == TRACE_WIDTH && rows@[r]@ == self.spec_trace_row(
                    r / (CDS_CYCLE_LENGTH as int),
                    (r % (CDS_CYCLE_LENGTH as int)) as nat,
                ) by {
                    if r < before.len() {
                        assert(rows@[r] == before[r]);
                    } else {
                        let step = r - before.len();
                        assert(rows@[r] == added[step]);
                        lemma_row_of_cycle(i as int, CDS_CYCLE_LENGTH as int, step);
                    }
                }
            }
            i += 1;
        }
        let trace = TraceTable { rows };
        assert(trace.spec_rows() =~= self.spec_build_trace());
        trace
    }

    /// The statement of voter `i`: the voting key, the encrypted vote and
    /// the proof points.
    pub open spec fn spec_proof(&self, i: int) -> Seq<Felt> {
        self.voting_keys@[i]@ + self.encrypted_votes@[i]@ + self.proof_points@[i]@
    }

    /// The outputs of voter `i` in a trace: what the reduced points at the
    /// end of each phase differ by from the claimed `a1`, `b1`, `a2`, `b2`,
    /// and the `X` and the `Z` of `(c - d1 - d2) * vk` at the end of the
    /// cycle.
    pub open spec fn spec_output(&self, rows: Seq<Seq<Felt>>, i: int) -> Seq<Felt> {
        let first = rows[i * CDS_CYCLE_LENGTH + SCALAR_MUL_LENGTH + 1];
        let second = rows[i * CDS_CYCLE_LENGTH + NROWS_PER_PHASE + SCALAR_MUL_LENGTH + 1];
        let points = self.proof_points@[i]@;
        spec_diff(
            first.subrange(R_G as int, R_G + AFFINE_POINT_WIDTH),
            points.subrange(0, AFFINE_POINT_WIDTH as int),
        ) + spec_diff(
            first.subrange(R_BK as int, R_BK + AFFINE_POINT_WIDTH),
            points.subrange(AFFINE_POINT_WIDTH as int, 2 * AFFINE_POINT_WIDTH),
        ) + spec_diff(
            second.subrange(R_G as int, R_G + AFFINE_POINT_WIDTH),
            points.subrange(2 * AFFINE_POINT_WIDTH, 3 * AFFINE_POINT_WIDTH),
        ) + spec_diff(
            second.subrange(R_BK as int, R_BK + AFFINE_POINT_WIDTH),
            points.subrange(3 * AFFINE_POINT_WIDTH, 4 * AFFINE_POINT_WIDTH),
        ) + second.subrange(C_VK as int, C_VK + POINT_COORDINATE_WIDTH) + second.subrange(
            C_VK + AFFINE_POINT_WIDTH,
            C_VK + PROJECTIVE_POINT_WIDTH,
        )
    }

    /// The public inputs that go with a trace: the statement of each voter,
    /// and the outputs read from the rows that end the phases of the voter.
    pub fn get_pub_inputs(&self, trace: &TraceTable) -> (r: PublicInputs)
        requires
            self.wf(),
            trace.rows@.len() == self.voting_keys@.len() * CDS_CYCLE_LENGTH,
            trace.has_width(TRACE_WIDTH as nat),
        ensures
            r.proofs@.len() == self.voting_keys@.len(),
            r.outputs@.len() == self.voting_keys@.len(),
            forall|i: int|
                0 <= i < self.voting_keys@.len() ==> (#[trigger] r.proofs@[i])@ == self.spec_proof(
                    i,
                ),
            forall|i: int|
                0 <= i < self.voting_keys@.len() ==> (#[trigger] r.outputs@[i])@
                    == self.spec_output(trace.spec_rows(), i),
    {
        let n = self.voting_keys.len();
        let mut proofs: Vec<[Felt; PROOF_WIDTH]> = Vec::with_capacity(n);
        let mut outputs: Vec<[Felt; OUTPUT_WIDTH]> = Vec::with_capacity(n);
        let mut i: usize = 0;
        while i < n
            invariant
                self.wf(),
                n == self.voting_keys.len(),
                trace.rows@.len() == n * CDS_CYCLE_LENGTH,
                trace.has_width(TRACE_WIDTH as nat),
                i <= n,
                proofs.len() == i,
                outputs.len() == i,
                forall|k: int| 0 <= k < i ==> (#[trigger] proofs@[k])@ == self.spec_proof(k),
                forall|k: int|
                    0 <= k < i ==> (#[trigger] outputs@[k])@ == self.spec_output(
                        trace.spec_rows(),
                        k,
                    ),
            decreases n - i,
        {
            // the statement: key, vote and proof points
            let mut proof = [Felt::zero();PROOF_WIDTH];
            write_range(&mut proof, 0, &self.voting_keys[i]);
            write_range(&mut proof, AFFINE_POINT_WIDTH, &self.encrypted_votes[i]);
            write_range(&mut proof, 2 * AFFINE_POINT_WIDTH, &self.proof_points[i]);
            proof {
                reveal(spec_write_range);
                assert(proof@ =~= self.spec_proof(i as int));
            }
            proofs.push(proof);

            // the outputs, from the rows that follow the last step of each phase
            assert(i * CDS_CYCLE_LENGTH + CDS_CYCLE_LENGTH <= n * CDS_CYCLE_LENGTH)
                by (nonlinear_arith)
                requires
                    i < n,
            ;
            let first = trace.read_row(SCALAR_MUL_LENGTH + CDS_CYCLE_LENGTH * i + 1);
            let second = trace.read_row(
                SCALAR_MUL_LENGTH + NROWS_PER_PHASE + CDS_CYCLE_LENGTH * i + 1,
            );
            let points = &self.proof_points[i];
            assert(first.len() == TRACE_WIDTH);
            assert(second.len() == TRACE_WIDTH);
            let a1 = diff(&first[R_G..R_G + AFFINE_POINT_WIDTH], &points[0..AFFINE_POINT_WIDTH]);
            let b1 = diff(
                &first[R_BK..R_BK + AFFINE_POINT_WIDTH],
                &points[AFFINE_POINT_WIDTH..2 * AFFINE_POINT_WIDTH],
            );
            let a2 = diff(
                &second[R_G..R_G + AFFINE_POINT_WIDTH],
                &points[2 * AFFINE_POINT_WIDTH..3 * AFFINE_POINT_WIDTH],
            );
            let b2 = diff(
                &second[R_BK..R_BK + AFFINE_POINT_WIDTH],
                &points[3 * AFFINE_POINT_WIDTH..4 * AFFINE_POINT_WIDTH],
            );
            let mut output = [Felt::zero();OUTPUT_WIDTH];
            write_range(&mut output, 0, a1.as_slice());
            write_range(&mut output, AFFINE_POINT_WIDTH, b1.as_slice());
            write_range(&mut output, 2 * AFFINE_POINT_WIDTH, a2.as_slice());
            write_range(&mut output, 3 * AFFINE_POINT_WIDTH, b2.as_slice());
            write_range(
                &mut output,
                4 * AFFINE_POINT_WIDTH,
                &second[C_VK..C_VK + POINT_COORDINATE_WIDTH],
            );
            write_range(
                &mut output,
                4 * AFFINE_POINT_WIDTH + POINT_COORDINATE_WIDTH,
                &second[C_VK + AFFINE_POINT_WIDTH..C_VK + PROJECTIVE_POINT_WIDTH],
            );
            proof {
                reveal(spec_write_range);
                assert(output@ =~= self.spec_output(trace.spec_rows(), i as int));
            }
            outputs.push(output);
            i += 1;
        }
        PublicInputs { proofs, outputs }
    }
}

} // verus!

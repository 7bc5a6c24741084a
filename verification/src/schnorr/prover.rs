//! The prover of valid signatures: from the signatures to the execution
//! trace and the public inputs.

use crate::air::{
    copy_of, is_power_of_two, lemma_row_of_cycle, spec_is_power_of_two, ProofOptions,
    TraceTable, WitnessError,
};
use crate::constraint::zeros;
use crate::ecc::{Curve, AFFINE_POINT_WIDTH};
use crate::field::Felt;
use crate::merkle::prover::copy_of_keys;
use crate::rescue::{digest_bytes, spec_digest_bytes, Rescue};
use crate::schnorr::air::PublicInputs;
use crate::schnorr::constants::{MSG_LENGTH, SIG_CYCLE_LENGTH, TRACE_WIDTH};
use crate::schnorr::trace::{
    init_sig_verification_state, spec_init_sig_verification_state,
    spec_update_sig_verification_state, update_sig_verification_state,
};
use crate::schnorr::{
    hash_message, prepare_message, spec_hash_message, spec_prepare_message, Signature,
};
use vstd::prelude::*;

verus! {

/// The prover of the signatures of a list of voters.
#[derive(Clone, Debug)]
pub struct SchnorrProver {
    pub options: ProofOptions,
    pub voting_keys: Vec<[Felt; AFFINE_POINT_WIDTH]>,
    pub addresses: Vec<[u8; 20]>,
    pub signatures: Vec<Signature>,
    pub curve: Curve,
    pub rescue: Rescue,
}

/// The shape of a witness: one address and one signature for each key, and
/// a power of two of keys.
pub open spec fn spec_witness_shape(voting_keys: nat, addresses: nat, signatures: nat) -> Result<
    (),
    WitnessError,
> {
    if addresses != voting_keys || signatures != voting_keys {
        Err(WitnessError::WrongLength)
    } else if !spec_is_power_of_two(voting_keys) {
        Err(WitnessError::NotPowerOfTwo)
    } else {
        Ok(())
    }
}

/// The hash of the commitment of a signature and the message of the voter,
/// as the bytes of a scalar.
pub open spec fn spec_challenge(
    voting_key: Seq<Felt>,
    address: Seq<u8>,
    signature: Signature,
    rescue: Rescue,
) -> Seq<u8> {
    spec_digest_bytes(
        spec_hash_message(signature.0@, spec_prepare_message(voting_key, address), rescue),
    )
}

/// What the cycle of a signature works on: the message of the voter, the
/// bytes of the scalar `s`, and the bytes of the hash `h`.
pub fn build_sig_info(
    voting_key: &[Felt; AFFINE_POINT_WIDTH],
    address: &[u8; 20],
    signature: &Signature,
    rescue: &Rescue,
) -> (r: (Vec<Felt>, [u8; 32], [u8; 32]))
    ensures
        r.0@ == spec_prepare_message(voting_key@, address@),
        r.0.len() == MSG_LENGTH,
        r.1 == signature.1,
        r.2@ == spec_challenge(voting_key@, address@, *signature, *rescue),
{
    let message = prepare_message(voting_key, address);
    let h = hash_message(&signature.0, message.as_slice(), rescue);
    let h_bytes = digest_bytes(h.as_slice());
    (message, signature.1, h_bytes)
}

impl SchnorrProver {
    /// The trace fits the machine.
    pub open spec fn wf(&self) -> bool {
        &&& self.voting_keys@.len() * SIG_CYCLE_LENGTH <= usize::MAX
    }

    /// The prover of the given signatures.
    pub fn new(
        options: ProofOptions,
        voting_keys: Vec<[Felt; AFFINE_POINT_WIDTH]>,
        addresses: Vec<[u8; 20]>,
        signatures: Vec<Signature>,
        curve: Curve,
        rescue: Rescue,
    ) -> (r: SchnorrProver)
        ensures
            r.options == options,
            r.voting_keys == voting_keys,
            r.addresses == addresses,
            r.signatures == signatures,
            r.curve == curve,
            r.rescue == rescue,
    {
        SchnorrProver { options, voting_keys, addresses, signatures, curve, rescue }
    }

    /// The parameters of the proof.
    pub fn options(&self) -> (r: &ProofOptions)
        ensures
            *r == self.options,
    {
        &self.options
    }

    /// Row `step` of the cycle of signature `i`: the first row is the
    /// initial state, and each row follows from the one before by the
    /// transition function on the signature.
    pub open spec fn spec_trace_row(&self, i: int, step: nat) -> Seq<Felt>
        decreases step,
    {
        if step == 0 {
            spec_init_sig_verification_state(self.signatures@[i].0@)
        } else {
            spec_update_sig_verification_state(
                step - 1,
                spec_prepare_message(self.voting_keys@[i]@, self.addresses@[i]@),
                self.voting_keys@[i]@,
                self.signatures@[i].1@,
                spec_challenge(
                    self.voting_keys@[i]@,
                    self.addresses@[i]@,
                    self.signatures@[i],
                    self.rescue,
                ),
                self.spec_trace_row(i, (step - 1) as nat),
                self.curve,
                self.rescue,
            )
        }
    }

    /// The execution trace of the signatures: one cycle of 512 rows for each
    /// signature, in the order of the signatures.
    pub open spec fn spec_build_trace(&self) -> Seq<Seq<Felt>> {
        Seq::new(
            (self.voting_keys@.len() * SIG_CYCLE_LENGTH) as nat,
            |r: int|
                self.spec_trace_row(
                    r / (SIG_CYCLE_LENGTH as int),
                    (r % (SIG_CYCLE_LENGTH as int)) as nat,
                ),
        )
    }

    /// The rows of the cycle of signature `i`.
    fn build_cycle(&self, i: usize) -> (rows: Vec<Vec<Felt>>)
        requires
            self.wf(),
            i < self.voting_keys.len(),
            self.addresses.len() == self.voting_keys.len(),
            self.signatures.len() == self.voting_keys.len(),
        ensures
            rows.len() == SIG_CYCLE_LENGTH,
            forall|step: int|
                0 <= step < SIG_CYCLE_LENGTH ==> (#[trigger] rows@[step]).len() == TRACE_WIDTH
                    && rows@[step]@ == self.spec_trace_row(i as int, step as nat),
    {
        let vkey_point = &self.voting_keys[i];
        let signature = &self.signatures[i];
        let info = build_sig_info(vkey_point, &self.addresses[i], signature, &self.rescue);
        let mut rows: Vec<Vec<Felt>> = Vec::with_capacity(SIG_CYCLE_LENGTH);
        let mut state = zeros(TRACE_WIDTH);
        init_sig_verification_state(signature, state.as_mut_slice());
        rows.push(copy_of(state.as_slice()));
        let mut step: usize = 0;
        while step < SIG_CYCLE_LENGTH - 1
            invariant
                self.wf(),
                i < self.voting_keys.len(),
                *vkey_point == self.voting_keys@[i as int],
                info.0@ == spec_prepare_message(
                    self.voting_keys@[i as int]@,
                    self.addresses@[i as int]@,
                ),
                info.0.len() == MSG_LENGTH,
                info.1 == self.signatures@[i as int].1,
                info.2@ == spec_challenge(
                    self.voting_keys@[i as int]@,
                    self.addresses@[i as int]@,
                    self.signatures@[i as int],
                    self.rescue,
                ),
                step <= SIG_CYCLE_LENGTH - 1,
                state.len() == TRACE_WIDTH,
                state@ == self.spec_trace_row(i as int, step as nat),
                rows.len() == step + 1,
                forall|s: int|
                    0 <= s <= step ==> (#[trigger] rows@[s]).len() == TRACE_WIDTH && rows@[s]@
                        == self.spec_trace_row(i as int, s as nat),
            decreases SIG_CYCLE_LENGTH - 1 - step,
        {
            update_sig_verification_state(
                step,
                info.0.as_slice(),
                vkey_point,
                &info.1,
                &info.2,
                state.as_mut_slice(),
                &self.curve,
                &self.rescue,
            );
            rows.push(copy_of(state.as_slice()));
            step += 1;
        }
        rows
    }

    /// Builds the execution trace of the signatures. A witness that has not
    /// the shape that a trace needs is refused.
    pub fn build_trace(&self) -> (r: Result<TraceTable, WitnessError>)
        requires
            self.wf(),
        ensures
            match spec_witness_shape(
                self.voting_keys@.len(),
                self.addresses@.len(),
                self.signatures@.len(),
            ) {
                Ok(()) => r is Ok && r->Ok_0.spec_rows() == self.spec_build_trace()
                    && r->Ok_0.has_width(TRACE_WIDTH as nat) && r->Ok_0.rows@.len()
                    == self.voting_keys@.len() * SIG_CYCLE_LENGTH,
                Err(e) => r is Err && r->Err_0 == e,
            },
    {
        let n = self.voting_keys.len();
        if self.addresses.len() != n || self.signatures.len() != n {
            return Err(WitnessError::WrongLength);
        }
        if !is_power_of_two(n) {
            return Err(WitnessError::NotPowerOfTwo);
        }
        let mut rows: Vec<Vec<Felt>> = Vec::with_capacity(n * SIG_CYCLE_LENGTH);
        let mut i: usize = 0;
        while i < n
            invariant
                self.wf(),
                n == self.voting_keys.len(),
                n == self.addresses.len(),
                n == self.signatures.len(),
                i <= n,
                rows.len() == i * SIG_CYCLE_LENGTH,
                forall|r: int| 0 <= r < rows.len() ==> (#[trigger] rows@[r]).len() == TRACE_WIDTH,
                forall|r: int|
                    0 <= r < rows.len() ==> (#[trigger] rows@[r])@ == self.spec_trace_row(
                        r / (SIG_CYCLE_LENGTH as int),
                        (r % (SIG_CYCLE_LENGTH as int)) as nat,
                    ),
            decreases n - i,
        {
            let mut cycle = self.build_cycle(i);
            let ghost before = rows@;
            let ghost added = cycle@;
            rows.append(&mut cycle);
            proof {
                lemma_row_of_cycle(i as int, SIG_CYCLE_LENGTH as int, 0);
                assert forall|r: int| 0 <= r < rows.len() implies (#[trigger] rows@[r]).len()
                    == TRACE_WIDTH && rows@[r]@ == self.spec_trace_row(
                    r / (SIG_CYCLE_LENGTH as int),
                    (r % (SIG_CYCLE_LENGTH as int)) as nat,
                ) by {
                    if r < before.len() {
                        assert(rows@[r] == before[r]);
                    } else {
                        let step = r - before.len();
                        assert(rows@[r] == added[step]);
                        lemma_row_of_cycle(i as int, SIG_CYCLE_LENGTH as int, step);
                    }
                }
            }
            i += 1;
        }
        let trace = TraceTable { rows };
        assert(trace.spec_rows() =~= self.spec_build_trace());
        Ok(trace)
    }

    /// The public inputs that go with a trace: the keys, the addresses and
    /// the signatures.
    pub fn get_pub_inputs(&self, trace: &TraceTable) -> (r: PublicInputs)
        ensures
            r.voting_keys@ == self.voting_keys@,
            r.addresses@ == self.addresses@,
            r.signatures@ == self.signatures@,
    {
        let mut addresses: Vec<[u8; 20]> = Vec::with_capacity(self.addresses.len());
        let mut i: usize = 0;
        while i < self.addresses.len()
            invariant
                i <= self.addresses.len(),
                addresses.len() == i,
                forall|j: int| 0 <= j < i ==> addresses@[j] == self.addresses@[j],
            decreases self.addresses.len() - i,
        {
            addresses.push(self.addresses[i]);
            i += 1;
        }
        assert(addresses@ =~= self.addresses@);
        let mut signatures: Vec<Signature> = Vec::with_capacity(self.signatures.len());
        let mut i: usize = 0;
        while i < self.signatures.len()
            invariant
                i <= self.signatures.len(),
                signatures.len() == i,
                forall|j: int| 0 <= j < i ==> signatures@[j] == self.signatures@[j],
            decreases self.signatures.len() - i,
        {
            signatures.push(self.signatures[i]);
            i += 1;
        }
        assert(signatures@ =~= self.signatures@);
        PublicInputs { voting_keys: copy_of_keys(&self.voting_keys), addresses, signatures }
    }
}

} // verus!

//! The bookkeeping of the casting phase: which voter sent which encrypted
//! vote, with which proof that it is well-formed.

pub mod store;

use crate::air::{spec_is_power_of_two, ProofOptions};
use crate::cds::air::PublicInputs;
use crate::cds::constants::{CDS_CYCLE_LENGTH, OUTPUT_WIDTH, PROOF_POINTS_WIDTH, PROOF_WIDTH};
use crate::cds::inputs::columns;
use crate::cds::prover::CDSProver;
use crate::cds::trace::{compute_blinding_keys, keys_view, spec_blinding_keys};
use crate::cds::{spec_verify_cds_proof, verify_cds_proof};
use crate::ecc::{Curve, AFFINE_POINT_WIDTH};
use crate::field::{Felt, ELEMENT_BYTES};
use crate::merkle::prover::copy_of_keys;
use crate::periodic::columns_view;
use crate::rescue::Rescue;
use crate::wire::{
    lemma_count_round_trip, lemma_elements_round_trip, lemma_flatten_injective, read_count,
    read_rows, spec_all_canonical, spec_count_bytes, spec_elements_bytes, spec_flatten,
    spec_read_count, spec_read_elements, write_bytes, write_count, write_elements, write_rows,
    DeserializationError, BYTES_PER_AFFINE, BYTES_PER_PROOF_POINTS, COUNT_BYTES,
};
use vstd::prelude::*;

verus! {

/// What a voter sends to vote: the encrypted vote and the proof that it is
/// well-formed.
#[derive(Clone, Copy, Debug)]
pub struct EncryptedVote {
    pub voter_index: usize,
    pub encrypted_vote: [Felt; AFFINE_POINT_WIDTH],
    pub proof_points: [Felt; PROOF_POINTS_WIDTH],
    pub proof_scalars: [[u8; 32]; 4],
}

/// The errors of the casting phase.
#[derive(Clone, Copy, Debug, PartialEq, Eq, Structural)]
pub enum CollectorError {
    /// The vote is not from a voter, its proof is not valid, or the voter
    /// voted before.
    InvalidEncryptedVote,
    /// Not every voter has voted yet.
    NotEnoughEncryptedVotes,
    /// The proving engine failed.
    Prover,
}

/// The public inputs as they are sent to the verifier, who knows the voting
/// keys: the encrypted votes, the proof points and the outputs.
#[derive(Clone, Debug)]
pub struct CompactPublicInputs {
    pub encrypted_votes: Vec<[Felt; AFFINE_POINT_WIDTH]>,
    pub cds_proofs: Vec<[Felt; PROOF_POINTS_WIDTH]>,
    pub outputs: Vec<[Felt; OUTPUT_WIDTH]>,
}

/// What bytes hold of compact public inputs.
pub struct Parsed {
    pub num_votes: u32,
    pub encrypted_votes: Seq<Felt>,
    pub cds_proofs: Seq<Felt>,
    pub outputs: Seq<Felt>,
}

/// The compact public inputs that bytes stand for: the number of votes, and
/// the three tables.
pub open spec fn spec_parse(bytes: Seq<u8>) -> Result<Parsed, DeserializationError> {
    match spec_read_count(bytes, 0) {
        Err(e) => Err(e),
        Ok(num_votes) => {
            let proofs_at = COUNT_BYTES + BYTES_PER_AFFINE * num_votes;
            let outputs_at = proofs_at + BYTES_PER_PROOF_POINTS * num_votes;
            match spec_read_elements(
                bytes,
                COUNT_BYTES as int,
                (num_votes * AFFINE_POINT_WIDTH) as nat,
            ) {
                Err(e) => Err(e),
                Ok(encrypted_votes) => match spec_read_elements(
                    bytes,
                    proofs_at,
                    (num_votes * PROOF_POINTS_WIDTH) as nat,
                ) {
                    Err(e) => Err(e),
                    Ok(cds_proofs) => match spec_read_elements(
                        bytes,
                        outputs_at,
                        (num_votes * OUTPUT_WIDTH) as nat,
                    ) {
                        Err(e) => Err(e),
                        Ok(outputs) => Ok(
                            Parsed { num_votes, encrypted_votes, cds_proofs, outputs },
                        ),
                    },
                },
            }
        },
    }
}

impl CompactPublicInputs {
    /// The three tables have one row for each vote, every element is
    /// canonical, and the number of votes fits its four bytes.
    pub open spec fn wf(&self) -> bool {
        &&& self.cds_proofs@.len() == self.encrypted_votes@.len()
        &&& self.outputs@.len() == self.encrypted_votes@.len()
        &&& spec_all_canonical(spec_flatten(self.encrypted_votes@))
        &&& spec_all_canonical(spec_flatten(self.cds_proofs@))
        &&& spec_all_canonical(spec_flatten(self.outputs@))
        &&& self.encrypted_votes@.len() <= u32::MAX
    }

    /// The bytes of the compact public inputs.
    pub open spec fn spec_to_bytes(&self) -> Seq<u8> {
        spec_count_bytes(self.encrypted_votes@.len() as u32) + spec_elements_bytes(
            spec_flatten(self.encrypted_votes@),
        ) + spec_elements_bytes(spec_flatten(self.cds_proofs@)) + spec_elements_bytes(
            spec_flatten(self.outputs@),
        )
    }

    /// What reading `bytes` gives: the compact public inputs that they stand
    /// for, or the error of the first value that cannot be read.
    pub open spec fn spec_read(
        bytes: Seq<u8>,
        r: Result<CompactPublicInputs, DeserializationError>,
    ) -> bool {
        match spec_parse(bytes) {
            Ok(parsed) => {
                &&& r is Ok
                &&& r->Ok_0.encrypted_votes@.len() == parsed.num_votes
                &&& r->Ok_0.cds_proofs@.len() == parsed.num_votes
                &&& r->Ok_0.outputs@.len() == parsed.num_votes
                &&& spec_flatten(r->Ok_0.encrypted_votes@) == parsed.encrypted_votes
                &&& spec_flatten(r->Ok_0.cds_proofs@) == parsed.cds_proofs
                &&& spec_flatten(r->Ok_0.outputs@) == parsed.outputs
            },
            Err(e) => r is Err && r->Err_0 == e,
        }
    }

    /// Appends the bytes of the compact public inputs to `target`.
    pub fn write_into(&self, target: &mut Vec<u8>)
        requires
            self.encrypted_votes@.len() <= u32::MAX,
            self.encrypted_votes@.len() * AFFINE_POINT_WIDTH <= usize::MAX,
            self.cds_proofs@.len() * PROOF_POINTS_WIDTH <= usize::MAX,
            self.outputs@.len() * OUTPUT_WIDTH <= usize::MAX,
        ensures
            final(target)@ == old(target)@ + self.spec_to_bytes(),
    {
        write_count(target, self.encrypted_votes.len() as u32);
        write_rows(target, &self.encrypted_votes);
        write_rows(target, &self.cds_proofs);
        write_rows(target, &self.outputs);
        assert(target@ =~= old(target)@ + self.spec_to_bytes());
    }

    /// Reads compact public inputs from the start of `source`. What follows
    /// them is not looked at.
    pub fn from_bytes(source: &[u8]) -> (r: Result<CompactPublicInputs, DeserializationError>)
        ensures
            CompactPublicInputs::spec_read(source@, r),
    {
        let n = match read_count(source, 0) {
            Ok(count) => count as usize,
            Err(e) => { return Err(e); },
        };
        let encrypted_votes = match read_rows::<AFFINE_POINT_WIDTH>(source, COUNT_BYTES, n) {
            Ok(rows) => rows,
            Err(e) => { return Err(e); },
        };
        let at = COUNT_BYTES + BYTES_PER_AFFINE * n;
        let cds_proofs = match read_rows::<PROOF_POINTS_WIDTH>(source, at, n) {
            Ok(rows) => rows,
            Err(e) => { return Err(e); },
        };
        let at = at + BYTES_PER_PROOF_POINTS * n;
        let outputs = match read_rows::<OUTPUT_WIDTH>(source, at, n) {
            Ok(rows) => rows,
            Err(e) => { return Err(e); },
        };
        Ok(CompactPublicInputs { encrypted_votes, cds_proofs, outputs })
    }
}

/// Compact public inputs that are written and read again are the same.
pub proof fn lemma_round_trip(
    inputs: CompactPublicInputs,
    read: Result<CompactPublicInputs, DeserializationError>,
)
    requires
        inputs.wf(),
        CompactPublicInputs::spec_read(inputs.spec_to_bytes(), read),
    ensures
        read is Ok,
        read->Ok_0.encrypted_votes@ == inputs.encrypted_votes@,
        read->Ok_0.cds_proofs@ == inputs.cds_proofs@,
        read->Ok_0.outputs@ == inputs.outputs@,
{
    let n = inputs.encrypted_votes@.len();
    let count = spec_count_bytes(n as u32);
    let votes = spec_elements_bytes(spec_flatten(inputs.encrypted_votes@));
    let proofs = spec_elements_bytes(spec_flatten(inputs.cds_proofs@));
    let outputs = spec_elements_bytes(spec_flatten(inputs.outputs@));
    let bytes = inputs.spec_to_bytes();
    assert(ELEMENT_BYTES * (n * AFFINE_POINT_WIDTH) == BYTES_PER_AFFINE * n);
    assert(ELEMENT_BYTES * (n * PROOF_POINTS_WIDTH) == BYTES_PER_PROOF_POINTS * n);
    lemma_count_round_trip(Seq::empty(), n as u32, votes + proofs + outputs);
    assert(Seq::<u8>::empty() + count + (votes + proofs + outputs) =~= bytes);
    lemma_elements_round_trip(count, spec_flatten(inputs.encrypted_votes@), proofs + outputs);
    assert(count + votes + (proofs + outputs) =~= bytes);
    lemma_elements_round_trip(count + votes, spec_flatten(inputs.cds_proofs@), outputs);
    lemma_elements_round_trip(
        count + votes + proofs,
        spec_flatten(inputs.outputs@),
        Seq::empty(),
    );
    assert(count + votes + proofs + outputs + Seq::<u8>::empty() =~= bytes);
    lemma_flatten_injective(read->Ok_0.encrypted_votes@, inputs.encrypted_votes@);
    lemma_flatten_injective(read->Ok_0.cds_proofs@, inputs.cds_proofs@);
    lemma_flatten_injective(read->Ok_0.outputs@, inputs.outputs@);
}

/// The aggregator of the casting phase.
#[derive(Clone, Debug)]
pub struct VoteCollector {
    /// The voting key of each registered voter.
    pub voting_keys: Vec<[Felt; AFFINE_POINT_WIDTH]>,
    /// The blinding key of each voter, made of the keys of the others.
    pub blinding_keys: Vec<Vec<Felt>>,
    /// The encrypted vote of each voter who voted.
    pub encrypted_votes: Vec<Option<[Felt; AFFINE_POINT_WIDTH]>>,
    /// The proof points of each voter who voted.
    pub proof_points: Vec<Option<[Felt; PROOF_POINTS_WIDTH]>>,
    /// The proof scalars of each voter who voted.
    pub proof_scalars: Vec<Option<[[u8; 32]; 4]>>,
    /// The number of voters who voted.
    pub num_valid_votes: usize,
    /// The proof of the votes, once it is made.
    pub serialized_proof: Vec<u8>,
    pub curve: Curve,
    pub rescue: Rescue,
}

/// Number of voters among the first `k` who voted.
pub open spec fn spec_num_votes(votes: Seq<Option<[Felt; AFFINE_POINT_WIDTH]>>, k: nat) -> nat
    decreases k,
{
    if k == 0 {
        0
    } else {
        spec_num_votes(votes, (k - 1) as nat) + if votes[k - 1] is Some {
            1nat
        } else {
            0nat
        }
    }
}

/// The vote of a voter who had not voted counts one more.
proof fn lemma_num_votes_grows(
    votes: Seq<Option<[Felt; AFFINE_POINT_WIDTH]>>,
    i: int,
    vote: [Felt; AFFINE_POINT_WIDTH],
    k: nat,
)
    requires
        0 <= i < votes.len(),
        votes[i] is None,
        k <= votes.len(),
    ensures
        spec_num_votes(votes.update(i, Some(vote)), k) == spec_num_votes(votes, k) + if i < k {
            1nat
        } else {
            0nat
        },
    decreases k,
{
    if k > 0 {
        lemma_num_votes_grows(votes, i, vote, (k - 1) as nat);
    }
}

/// No more voters voted than there are, and where as many voted as there
/// are, everyone did.
proof fn lemma_num_votes_bound(votes: Seq<Option<[Felt; AFFINE_POINT_WIDTH]>>, k: nat)
    requires
        k <= votes.len(),
    ensures
        spec_num_votes(votes, k) <= k,
        spec_num_votes(votes, k) == k ==> forall|i: int| 0 <= i < k ==> votes[i] is Some,
    decreases k,
{
    if k > 0 {
        lemma_num_votes_bound(votes, (k - 1) as nat);
    }
}

impl VoteCollector {
    /// There is one blinding key and one place for a vote for each voter,
    /// the blinding keys are those of the voting keys, a voter either sent
    /// vote, points and scalars or none of them, and the votes are counted.
    pub open spec fn wf(&self) -> bool {
        &&& self.blinding_keys@.len() == self.voting_keys@.len()
        &&& self.encrypted_votes@.len() == self.voting_keys@.len()
        &&& self.proof_points@.len() == self.voting_keys@.len()
        &&& self.proof_scalars@.len() == self.voting_keys@.len()
        &&& columns_view(self.blinding_keys@) == spec_blinding_keys(
            keys_view(self.voting_keys@),
            self.curve,
        )
        &&& forall|i: int|
            0 <= i < self.blinding_keys@.len() ==> (#[trigger] self.blinding_keys@[i]).len()
                == AFFINE_POINT_WIDTH
        &&& forall|i: int|
            0 <= i < self.voting_keys@.len() ==> ((#[trigger] self.encrypted_votes@[i]) is Some
                <==> self.proof_points@[i] is Some) && (self.encrypted_votes@[i] is Some
                <==> self.proof_scalars@[i] is Some)
        &&& self.num_valid_votes == spec_num_votes(
            self.encrypted_votes@,
            self.encrypted_votes@.len(),
        )
    }

    /// The blinding key of each voter, in affine coordinates.
    pub fn compute_blinding_keys(voting_keys: &Vec<[Felt; AFFINE_POINT_WIDTH]>, curve: &Curve) -> (r:
        Vec<Vec<Felt>>)
        requires
            voting_keys.len() > 1,
            spec_is_power_of_two(voting_keys@.len()),
        ensures
            columns_view(r@) == spec_blinding_keys(keys_view(voting_keys@), *curve),
            r.len() == voting_keys.len(),
            forall|k: int| 0 <= k < r.len() ==> (#[trigger] r@[k]).len() == AFFINE_POINT_WIDTH,
    {
        compute_blinding_keys(voting_keys, curve)
    }

    /// The aggregator of a casting phase in which nobody voted yet. There
    /// must be more than one voter, and a power of two of them.
    pub fn new(voting_keys: Vec<[Felt; AFFINE_POINT_WIDTH]>, curve: Curve, rescue: Rescue) -> (r:
        VoteCollector)
        requires
            voting_keys.len() > 1,
            spec_is_power_of_two(voting_keys@.len()),
        ensures
            r.wf(),
            r.voting_keys == voting_keys,
            r.num_valid_votes == 0,
            forall|i: int| 0 <= i < voting_keys@.len() ==> (#[trigger] r.encrypted_votes@[i]) is None,
            r.serialized_proof@.len() == 0,
            r.curve == curve,
            r.rescue == rescue,
    {
        let blinding_keys = VoteCollector::compute_blinding_keys(&voting_keys, &curve);
        let n = voting_keys.len();
        let mut encrypted_votes: Vec<Option<[Felt; AFFINE_POINT_WIDTH]>> = Vec::with_capacity(n);
        let mut proof_points: Vec<Option<[Felt; PROOF_POINTS_WIDTH]>> = Vec::with_capacity(n);
        let mut proof_scalars: Vec<Option<[[u8; 32]; 4]>> = Vec::with_capacity(n);
        let mut i: usize = 0;
        while i < n
            invariant
                i <= n,
                encrypted_votes.len() == i,
                proof_points.len() == i,
                proof_scalars.len() == i,
                forall|j: int| 0 <= j < i ==> (#[trigger] encrypted_votes@[j]) is None,
                forall|j: int| 0 <= j < i ==> (#[trigger] proof_points@[j]) is None,
                forall|j: int| 0 <= j < i ==> (#[trigger] proof_scalars@[j]) is None,
                spec_num_votes(encrypted_votes@, i as nat) == 0,
            decreases n - i,
        {
            let ghost before = encrypted_votes@;
            encrypted_votes.push(None);
            proof_points.push(None);
            proof_scalars.push(None);
            proof {
                lemma_num_votes_prefix(before, encrypted_votes@, i as nat);
            }
            i += 1;
        }
        VoteCollector {
            voting_keys,
            blinding_keys,
            encrypted_votes,
            proof_points,
            proof_scalars,
            num_valid_votes: 0,
            serialized_proof: Vec::new(),
            curve,
            rescue,
        }
    }

    /// Whether an encrypted vote is refused: because it is not from a
    /// voter, because its proof is not valid, or because the voter voted
    /// before.
    pub open spec fn spec_refused(&self, vote: EncryptedVote) -> bool {
        ||| vote.voter_index >= self.voting_keys@.len()
        ||| !spec_verify_cds_proof(
            vote.voter_index,
            self.voting_keys@[vote.voter_index as int]@,
            self.blinding_keys@[vote.voter_index as int]@,
            vote.encrypted_vote@,
            vote.proof_points@,
            vote.proof_scalars,
            self.curve,
            self.rescue,
        )
        ||| self.encrypted_votes@[vote.voter_index as int] is Some
    }

    /// Takes the encrypted vote of a voter. A vote that is not from a
    /// voter, whose proof is not valid, or that comes after another vote of
    /// the same voter is refused and changes nothing.
    pub fn add_encrypted_vote(&mut self, encrypted_vote: EncryptedVote) -> (r: Result<
        (),
        CollectorError,
    >)
        requires
            old(self).wf(),
        ensures
            final(self).wf(),
            final(self).voting_keys == old(self).voting_keys,
            final(self).blinding_keys == old(self).blinding_keys,
            final(self).serialized_proof == old(self).serialized_proof,
            final(self).curve == old(self).curve,
            final(self).rescue == old(self).rescue,
            old(self).spec_refused(encrypted_vote) ==> r == Err::<(), CollectorError>(
                CollectorError::InvalidEncryptedVote,
            ) && *final(self) == *old(self),
            !old(self).spec_refused(encrypted_vote) ==> {
                let i = encrypted_vote.voter_index as int;
                &&& r is Ok
                &&& final(self).encrypted_votes@ == old(self).encrypted_votes@.update(
                    i,
                    Some(encrypted_vote.encrypted_vote),
                )
                &&& final(self).proof_points@ == old(self).proof_points@.update(
                    i,
                    Some(encrypted_vote.proof_points),
                )
                &&& final(self).proof_scalars@ == old(self).proof_scalars@.update(
                    i,
                    Some(encrypted_vote.proof_scalars),
                )
                &&& final(self).num_valid_votes == old(self).num_valid_votes + 1
            },
    {
        let voter_index = encrypted_vote.voter_index;
        if voter_index >= self.voting_keys.len() {
            return Err(CollectorError::InvalidEncryptedVote);
        }
        if !verify_cds_proof(
            voter_index,
            &self.voting_keys[voter_index],
            self.blinding_keys[voter_index].as_slice(),
            &encrypted_vote.encrypted_vote,
            &encrypted_vote.proof_points,
            &encrypted_vote.proof_scalars,
            &self.curve,
            &self.rescue,
        ) {
            return Err(CollectorError::InvalidEncryptedVote);
        }
        // a second vote of a voter is refused like an invalid one, so that
        // nothing is told about the first
        if self.encrypted_votes[voter_index].is_some() {
            return Err(CollectorError::InvalidEncryptedVote);
        }
        self.add_encrypted_vote_unchecked(encrypted_vote);
        Ok(())
    }

    fn add_encrypted_vote_unchecked(&mut self, encrypted_vote: EncryptedVote)
        requires
            old(self).wf(),
            encrypted_vote.voter_index < old(self).voting_keys@.len(),
            old(self).encrypted_votes@[encrypted_vote.voter_index as int] is None,
        ensures
            final(self).wf(),
            final(self).voting_keys == old(self).voting_keys,
            final(self).blinding_keys == old(self).blinding_keys,
            final(self).serialized_proof == old(self).serialized_proof,
            final(self).curve == old(self).curve,
            final(self).rescue == old(self).rescue,
            final(self).encrypted_votes@ == old(self).encrypted_votes@.update(
                encrypted_vote.voter_index as int,
                Some(encrypted_vote.encrypted_vote),
            ),
            final(self).proof_points@ == old(self).proof_points@.update(
                encrypted_vote.voter_index as int,
                Some(encrypted_vote.proof_points),
            ),
            final(self).proof_scalars@ == old(self).proof_scalars@.update(
                encrypted_vote.voter_index as int,
                Some(encrypted_vote.proof_scalars),
            ),
            final(self).num_valid_votes == old(self).num_valid_votes + 1,
    {
        let voter_index = encrypted_vote.voter_index;
        proof {
            lemma_num_votes_grows(
                self.encrypted_votes@,
                voter_index as int,
                encrypted_vote.encrypted_vote,
                self.encrypted_votes@.len(),
            );
            lemma_num_votes_bound(
                self.encrypted_votes@.update(
                    voter_index as int,
                    Some(encrypted_vote.encrypted_vote),
                ),
                self.encrypted_votes@.len(),
            );
        }
        let num_voters = self.encrypted_votes.len();
        assert(self.num_valid_votes < num_voters);
        let num_valid_votes = self.num_valid_votes + 1;
        self.encrypted_votes[voter_index] = Some(encrypted_vote.encrypted_vote);
        self.proof_points[voter_index] = Some(encrypted_vote.proof_points);
        self.proof_scalars[voter_index] = Some(encrypted_vote.proof_scalars);
        self.num_valid_votes = num_valid_votes;
    }

    /// The proof of the votes as it was made, if it was made.
    pub fn cached_cast_proof(&self) -> (r: Option<Vec<u8>>)
        ensures
            self.serialized_proof@.len() == 0 ==> r is None,
            self.serialized_proof@.len() > 0 ==> r is Some && r->0@ == self.serialized_proof@,
    {
        if self.serialized_proof.len() == 0 {
            None
        } else {
            let mut proof: Vec<u8> = Vec::with_capacity(self.serialized_proof.len());
            proof.extend_from_slice(self.serialized_proof.as_slice());
            assert(proof@ =~= self.serialized_proof@);
            Some(proof)
        }
    }

    /// The prover of the votes, once every voter has voted.
    pub fn cast_prover(&self, options: ProofOptions) -> (r: Result<CDSProver, CollectorError>)
        requires
            self.wf(),
            self.voting_keys@.len() > 1,
            spec_is_power_of_two(self.voting_keys@.len()),
            self.voting_keys@.len() * CDS_CYCLE_LENGTH <= usize::MAX,
        ensures
            self.num_valid_votes != self.voting_keys@.len() ==> r == Err::<
                CDSProver,
                CollectorError,
            >(CollectorError::NotEnoughEncryptedVotes),
            self.num_valid_votes == self.voting_keys@.len() ==> {
                &&& r is Ok
                &&& r->Ok_0.wf()
                &&& r->Ok_0.voting_keys@ == self.voting_keys@
                &&& r->Ok_0.encrypted_votes@.len() == self.voting_keys@.len()
                &&& forall|i: int|
                    0 <= i < self.voting_keys@.len() ==> self.encrypted_votes@[i] == Some(
                        #[trigger] r->Ok_0.encrypted_votes@[i],
                    ) && self.proof_points@[i] == Some(r->Ok_0.proof_points@[i])
                        && self.proof_scalars@[i] == Some(r->Ok_0.proof_scalars@[i])
            },
    {
        let n = self.voting_keys.len();
        if self.num_valid_votes != n {
            return Err(CollectorError::NotEnoughEncryptedVotes);
        }
        proof {
            lemma_num_votes_bound(self.encrypted_votes@, self.encrypted_votes@.len());
        }
        let mut encrypted_votes: Vec<[Felt; AFFINE_POINT_WIDTH]> = Vec::with_capacity(n);
        let mut proof_points: Vec<[Felt; PROOF_POINTS_WIDTH]> = Vec::with_capacity(n);
        let mut proof_scalars: Vec<[[u8; 32]; 4]> = Vec::with_capacity(n);
        let mut i: usize = 0;
        while i < n
            invariant
                self.wf(),
                n == self.voting_keys.len(),
                forall|j: int| 0 <= j < n ==> self.encrypted_votes@[j] is Some,
                i <= n,
                encrypted_votes.len() == i,
                proof_points.len() == i,
                proof_scalars.len() == i,
                forall|j: int|
                    0 <= j < i ==> self.encrypted_votes@[j] == Some(
                        #[trigger] encrypted_votes@[j],
                    ) && self.proof_points@[j] == Some(proof_points@[j])
                        && self.proof_scalars@[j] == Some(proof_scalars@[j]),
            decreases n - i,
        {
            assert(self.encrypted_votes@[i as int] is Some);
            encrypted_votes.push(self.encrypted_votes[i].unwrap());
            proof_points.push(self.proof_points[i].unwrap());
            proof_scalars.push(self.proof_scalars[i].unwrap());
            i += 1;
        }
        match CDSProver::new(
            options,
            copy_of_keys(&self.voting_keys),
            encrypted_votes,
            proof_points,
            proof_scalars,
            self.curve,
            self.rescue,
        ) {
            Ok(prover) => Ok(prover),
            Err(e) => Err(CollectorError::Prover),
        }
    }

    /// The proof of the votes as it is sent to the verifier: the encrypted
    /// votes, the proof points and the outputs of the public inputs, and
    /// the proof of the proving engine.
    pub open spec fn spec_cast_proof(pub_inputs: PublicInputs, proof: Seq<u8>) -> Seq<u8> {
        spec_count_bytes(pub_inputs.proofs@.len() as u32) + spec_elements_bytes(
            crate::cds::inputs::spec_columns(
                pub_inputs.proofs@,
                AFFINE_POINT_WIDTH as int,
                AFFINE_POINT_WIDTH as int,
            ),
        ) + spec_elements_bytes(
            crate::cds::inputs::spec_columns(
                pub_inputs.proofs@,
                2 * AFFINE_POINT_WIDTH,
                PROOF_POINTS_WIDTH as int,
            ),
        ) + spec_elements_bytes(spec_flatten(pub_inputs.outputs@)) + proof
    }

    /// Puts the proof of the votes together from the public inputs of the
    /// prover of [`VoteCollector::cast_prover`] and the proof that the
    /// proving engine made for it, and keeps it.
    pub fn store_cast_proof(&mut self, pub_inputs: &PublicInputs, proof: &[u8]) -> (r: Vec<u8>)
        requires
            old(self).wf(),
            pub_inputs.proofs@.len() <= u32::MAX,
            pub_inputs.proofs@.len() * PROOF_WIDTH <= usize::MAX,
            pub_inputs.outputs@.len() * OUTPUT_WIDTH <= usize::MAX,
        ensures
            final(self).wf(),
            r@ == VoteCollector::spec_cast_proof(*pub_inputs, proof@),
            final(self).serialized_proof@ == r@,
            final(self).voting_keys == old(self).voting_keys,
            final(self).blinding_keys == old(self).blinding_keys,
            final(self).encrypted_votes == old(self).encrypted_votes,
            final(self).proof_points == old(self).proof_points,
            final(self).proof_scalars == old(self).proof_scalars,
            final(self).num_valid_votes == old(self).num_valid_votes,
    {
        let mut serialized: Vec<u8> = Vec::new();
        write_count(&mut serialized, pub_inputs.proofs.len() as u32);
        let votes = columns(&pub_inputs.proofs, AFFINE_POINT_WIDTH, AFFINE_POINT_WIDTH);
        write_elements(&mut serialized, votes.as_slice());
        let points = columns(&pub_inputs.proofs, 2 * AFFINE_POINT_WIDTH, PROOF_POINTS_WIDTH);
        write_elements(&mut serialized, points.as_slice());
        write_rows(&mut serialized, &pub_inputs.outputs);
        write_bytes(&mut serialized, proof);
        assert(serialized@ =~= VoteCollector::spec_cast_proof(*pub_inputs, proof@));
        let mut cached: Vec<u8> = Vec::with_capacity(serialized.len());
        cached.extend_from_slice(serialized.as_slice());
        assert(cached@ =~= serialized@);
        self.serialized_proof = cached;
        serialized
    }
}

/// The count of the votes among the first `k` does not look at what comes
/// after them.
proof fn lemma_num_votes_prefix(
    a: Seq<Option<[Felt; AFFINE_POINT_WIDTH]>>,
    b: Seq<Option<[Felt; AFFINE_POINT_WIDTH]>>,
    k: nat,
)
    requires
        k <= a.len(),
        k <= b.len(),
        forall|i: int| 0 <= i < k ==> a[i] == b[i],
    ensures
        spec_num_votes(a, k) == spec_num_votes(b, k),
    decreases k,
{
    if k > 0 {
        lemma_num_votes_prefix(a, b, (k - 1) as nat);
    }
}

} // verus!

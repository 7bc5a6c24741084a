//! The bookkeeping of the registration phase: who registered which voting
//! key under which address, with a path into the tree of eligible voters
//! and a signature.

pub mod store;

use crate::air::{copy_of, ProofOptions};
use crate::ecc::{Affine, Curve, AFFINE_POINT_WIDTH};
use crate::field::Felt;
use crate::merkle::constants::MAX_TREE_DEPTH;
use crate::merkle::prover::{copy_of_keys, spec_branches_fit, MerkleProver};
use crate::merkle::{nodes_view, spec_verify_merkle_proof, verify_merkle_proof};
use crate::rescue::{Rescue, DIGEST_SIZE};
use crate::schnorr::air::PublicInputs;
use crate::schnorr::prover::SchnorrProver;
use crate::schnorr::{spec_verify_signature, verify_signature, Signature};
use crate::wire::{spec_count_bytes, write_bytes, write_count};
use vstd::prelude::*;

verus! {

/// What a voter sends to register.
#[derive(Debug)]
pub struct Registration {
    /// The voting key.
    pub voting_key: [Felt; AFFINE_POINT_WIDTH],
    /// The siblings along the path of the key in the tree of eligible
    /// voters.
    pub merkle_branch: Vec<Felt>,
    /// The position of the leaf of the key.
    pub hash_index: usize,
    /// The signature of the voting key and the address.
    pub signature: Signature,
    /// The address of the voter.
    pub address: [u8; 20],
}

impl Clone for Registration {
    fn clone(&self) -> (r: Registration)
        ensures
            r.voting_key == self.voting_key,
            r.merkle_branch@ == self.merkle_branch@,
            r.hash_index == self.hash_index,
            r.signature == self.signature,
            r.address == self.address,
    {
        Registration {
            voting_key: self.voting_key,
            merkle_branch: copy_of(self.merkle_branch.as_slice()),
            hash_index: self.hash_index,
            signature: self.signature,
            address: self.address,
        }
    }
}

/// The errors of the registration phase.
#[derive(Clone, Copy, Debug, PartialEq, Eq, Structural)]
pub enum RegistarError {
    /// The address is registered under another voting key.
    DuplicatedEthAddress,
    /// The path does not lead from the key to the root.
    InvalidMerkleProof,
    /// The signature is not valid.
    InvalidSchnorrSig,
    /// There are already as many registrations as eligible voters.
    TooManyRegistrations,
}

/// The public inputs as they are sent to the verifier: the voting keys, the
/// addresses and the signatures.
pub type CompactPublicInputs = PublicInputs;

/// The aggregator of the registration phase.
#[derive(Clone, Debug)]
pub struct VoterRegistar {
    /// The root of the tree of eligible voters.
    pub elg_root: [Felt; DIGEST_SIZE],
    /// The number of eligible voters.
    pub num_elg_voters: usize,
    /// The voting key of each registration.
    pub voting_keys: Vec<[Felt; AFFINE_POINT_WIDTH]>,
    /// The path of each registration.
    pub merkle_branches: Vec<Vec<Felt>>,
    /// The position of the leaf of each registration.
    pub hash_indices: Vec<usize>,
    /// The signature of each registration.
    pub signatures: Vec<Signature>,
    /// The address of each registration.
    pub addresses: Vec<[u8; 20]>,
    /// Whether the registrations changed since the proof was made.
    pub dirty_flag: bool,
    /// The proof of the registrations, as it was last made.
    pub serialized_proof: Vec<u8>,
    /// The depth of the tree of eligible voters.
    pub tree_depth: usize,
    pub curve: Curve,
    pub rescue: Rescue,
}

/// The first place of `x` in a list.
pub open spec fn spec_index_of<T>(s: Seq<T>, x: T) -> Option<int>
    decreases s.len(),
{
    if s.len() == 0 {
        None
    } else if s[0] == x {
        Some(0)
    } else {
        match spec_index_of(s.drop_first(), x) {
            Some(i) => Some(i + 1),
            None => None,
        }
    }
}

/// The first place of `x` in a list is a place of `x`, and no place before
/// it is; where there is none, `x` is nowhere in the list.
pub proof fn lemma_index_of<T>(s: Seq<T>, x: T)
    ensures
        match spec_index_of(s, x) {
            Some(i) => 0 <= i < s.len() && s[i] == x && forall|j: int| 0 <= j < i ==> s[j] != x,
            None => forall|j: int| 0 <= j < s.len() ==> s[j] != x,
        },
    decreases s.len(),
{
    if s.len() > 0 && s[0] != x {
        lemma_index_of(s.drop_first(), x);
        match spec_index_of(s.drop_first(), x) {
            Some(i) => {
                assert forall|j: int| 0 <= j < i + 1 implies s[j] != x by {
                    if j > 0 {
                        assert(s.drop_first()[j - 1] == s[j]);
                    }
                }
            },
            None => {
                assert forall|j: int| 0 <= j < s.len() implies s[j] != x by {
                    if j > 0 {
                        assert(s.drop_first()[j - 1] == s[j]);
                    }
                }
            },
        }
    }
}

/// The first place of a voting key among the registered keys.
pub fn position_of_key(keys: &Vec<[Felt; AFFINE_POINT_WIDTH]>, key: &[Felt; AFFINE_POINT_WIDTH]) -> (r:
    Option<usize>)
    ensures
        match r {
            Some(i) => spec_index_of(keys@, *key) == Some(i as int) && i < keys.len(),
            None => spec_index_of(keys@, *key) is None,
        },
{
    let mut i: usize = 0;
    while i < keys.len()
        invariant
            i <= keys.len(),
            forall|j: int| 0 <= j < i ==> keys@[j] != *key,
        decreases keys.len() - i,
    {
        if crate::merkle::elements_equal(&keys[i], key) {
            proof {
                assert(keys@[i as int] =~= *key);
                lemma_index_of(keys@, *key);
            }
            return Some(i);
        }
        proof {
            assert(keys@[i as int]@ != key@);
        }
        i += 1;
    }
    proof {
        lemma_index_of(keys@, *key);
    }
    None
}

/// The first place of an address among the registered addresses.
pub fn position_of_address(addresses: &Vec<[u8; 20]>, address: &[u8; 20]) -> (r: Option<usize>)
    ensures
        match r {
            Some(i) => spec_index_of(addresses@, *address) == Some(i as int) && i
                < addresses.len(),
            None => spec_index_of(addresses@, *address) is None,
        },
{
    let mut i: usize = 0;
    while i < addresses.len()
        invariant
            i <= addresses.len(),
            forall|j: int| 0 <= j < i ==> addresses@[j] != *address,
        decreases addresses.len() - i,
    {
        let candidate = &addresses[i];
        let mut same = true;
        let mut k: usize = 0;
        while k < 20
            invariant
                k <= 20,
                same <==> forall|m: int| 0 <= m < k ==> candidate[m] == address[m],
            decreases 20 - k,
        {
            if candidate[k] != address[k] {
                same = false;
            }
            k += 1;
        }
        if same {
            proof {
                assert(*candidate =~= *address);
                lemma_index_of(addresses@, *address);
            }
            return Some(i);
        }
        i += 1;
    }
    proof {
        lemma_index_of(addresses@, *address);
    }
    None
}

impl VoterRegistar {
    /// There is one path, one position, one signature and one address for
    /// each key, and every path fits the depth of the tree, which is one
    /// that a tree can have.
    pub open spec fn wf(&self) -> bool {
        &&& self.tree_depth <= MAX_TREE_DEPTH
        &&& self.merkle_branches@.len() == self.voting_keys@.len()
        &&& self.hash_indices@.len() == self.voting_keys@.len()
        &&& self.signatures@.len() == self.voting_keys@.len()
        &&& self.addresses@.len() == self.voting_keys@.len()
        &&& spec_branches_fit(self.merkle_branches@, self.tree_depth as nat)
    }

    /// The aggregator of a registration phase without registrations.
    pub fn new(
        elg_root: [Felt; DIGEST_SIZE],
        num_elg_voters: usize,
        tree_depth: usize,
        curve: Curve,
        rescue: Rescue,
    ) -> (r: VoterRegistar)
        requires
            tree_depth <= MAX_TREE_DEPTH,
        ensures
            r.wf(),
            r.elg_root == elg_root,
            r.num_elg_voters == num_elg_voters,
            r.voting_keys@.len() == 0,
            !r.dirty_flag,
            r.serialized_proof@.len() == 0,
            r.tree_depth == tree_depth,
            r.curve == curve,
            r.rescue == rescue,
    {
        VoterRegistar {
            elg_root,
            num_elg_voters,
            voting_keys: Vec::new(),
            merkle_branches: Vec::new(),
            hash_indices: Vec::new(),
            signatures: Vec::new(),
            addresses: Vec::new(),
            dirty_flag: false,
            serialized_proof: Vec::new(),
            tree_depth,
            curve,
            rescue,
        }
    }

    /// Whether a registration is refused, and why: because its address is
    /// registered under another key; because its path does not lead to the
    /// root; because its signature is not valid; or because it is a new
    /// voter and there is no place left.
    pub open spec fn spec_refusal(&self, registration: Registration) -> Option<RegistarError> {
        let known_address = spec_index_of(self.addresses@, registration.address);
        if known_address is Some && self.voting_keys@[known_address->0]
            != registration.voting_key {
            Some(RegistarError::DuplicatedEthAddress)
        } else if registration.merkle_branch@.len() != self.tree_depth * DIGEST_SIZE
            || !spec_verify_merkle_proof(
            self.elg_root@,
            registration.voting_key@,
            registration.merkle_branch@,
            registration.hash_index as nat,
            self.tree_depth as nat,
            self.rescue,
        ) {
            Some(RegistarError::InvalidMerkleProof)
        } else if !Affine::spec_read(registration.voting_key@, 0).spec_is_on_curve(self.curve)
            || !spec_verify_signature(
            registration.voting_key@,
            registration.address@,
            registration.signature,
            self.curve,
            self.rescue,
        ) {
            Some(RegistarError::InvalidSchnorrSig)
        } else if spec_index_of(self.voting_keys@, registration.voting_key) is None
            && self.voting_keys@.len() + 1 > self.num_elg_voters {
            Some(RegistarError::TooManyRegistrations)
        } else {
            None
        }
    }

    /// The registrations after one that was not refused: it takes the place
    /// of the registration of its key, or is added at the end.
    pub open spec fn spec_registered(&self, after: VoterRegistar, registration: Registration) -> bool {
        &&& after.dirty_flag
        &&& match spec_index_of(self.voting_keys@, registration.voting_key) {
            Some(i) => {
                &&& after.voting_keys@ == self.voting_keys@.update(i, registration.voting_key)
                &&& nodes_view(after.merkle_branches@) == nodes_view(
                    self.merkle_branches@,
                ).update(i, registration.merkle_branch@)
                &&& after.hash_indices@ == self.hash_indices@.update(i, registration.hash_index)
                &&& after.signatures@ == self.signatures@.update(i, registration.signature)
                &&& after.addresses@ == self.addresses@.update(i, registration.address)
            },
            None => {
                &&& after.voting_keys@ == self.voting_keys@.push(registration.voting_key)
                &&& nodes_view(after.merkle_branches@) == nodes_view(
                    self.merkle_branches@,
                ).push(registration.merkle_branch@)
                &&& after.hash_indices@ == self.hash_indices@.push(registration.hash_index)
                &&& after.signatures@ == self.signatures@.push(registration.signature)
                &&& after.addresses@ == self.addresses@.push(registration.address)
            },
        }
    }

    /// Nothing changed but the registrations and the flag.
    pub open spec fn spec_same_phase(&self, after: VoterRegistar) -> bool {
        &&& after.elg_root == self.elg_root
        &&& after.num_elg_voters == self.num_elg_voters
        &&& after.serialized_proof == self.serialized_proof
        &&& after.tree_depth == self.tree_depth
        &&& after.curve == self.curve
        &&& after.rescue == self.rescue
    }

    /// Takes the registration of a voter. A registration under an address
    /// that another key holds, with a path that does not lead to the root,
    /// or with a signature that is not valid, is refused and changes
    /// nothing; so is that of a new voter when every eligible voter is
    /// registered. A voter who registers again replaces the earlier
    /// registration.
    pub fn add_registration(&mut self, registration: Registration) -> (r: Result<
        (),
        RegistarError,
    >)
        requires
            old(self).wf(),
        ensures
            final(self).wf(),
            old(self).spec_same_phase(*final(self)),
            match old(self).spec_refusal(registration) {
                Some(e) => r == Err::<(), RegistarError>(e) && *final(self) == *old(self),
                None => r is Ok && old(self).spec_registered(*final(self), registration),
            },
    {
        // two voters cannot share one address
        if let Some(idx) = position_of_address(&self.addresses, &registration.address) {
            if !crate::merkle::elements_equal(&self.voting_keys[idx], &registration.voting_key) {
                proof {
                    assert(self.voting_keys@[idx as int]@ != registration.voting_key@);
                }
                return Err(RegistarError::DuplicatedEthAddress);
            }
            proof {
                assert(self.voting_keys@[idx as int] =~= registration.voting_key);
            }
        }
        // the key is one of an eligible voter
        if registration.merkle_branch.len() != self.tree_depth * DIGEST_SIZE
            || !verify_merkle_proof(
            &self.elg_root,
            &registration.voting_key,
            registration.merkle_branch.as_slice(),
            registration.hash_index,
            self.tree_depth,
            &self.rescue,
        ) {
            return Err(RegistarError::InvalidMerkleProof);
        }
        // and the voter holds its secret
        if !Affine::read(&registration.voting_key, 0).is_on_curve(&self.curve)
            || !verify_signature(
            &registration.voting_key,
            &registration.address,
            &registration.signature,
            &self.curve,
            &self.rescue,
        ) {
            return Err(RegistarError::InvalidSchnorrSig);
        }
        let idx = position_of_key(&self.voting_keys, &registration.voting_key);
        self.add_registration_unchecked(registration, idx)
    }

    /// What [`VoterRegistar::add_registration`] makes of an aggregator and
    /// a registration: the result, and the aggregator after it.
    pub open spec fn spec_step(
        &self,
        registration: Registration,
        result: Result<(), RegistarError>,
        after: VoterRegistar,
    ) -> bool {
        &&& after.wf()
        &&& self.spec_same_phase(after)
        &&& match self.spec_refusal(registration) {
            Some(e) => result == Err::<(), RegistarError>(e) && after == *self,
            None => result is Ok && self.spec_registered(after, registration),
        }
    }

    /// What taking a list of registrations in turn makes of an aggregator:
    /// the result of each, and the aggregator after the last.
    pub open spec fn spec_run(
        &self,
        registrations: Seq<Registration>,
        results: Seq<Result<(), RegistarError>>,
        after: VoterRegistar,
    ) -> bool
        decreases registrations.len(),
    {
        if registrations.len() == 0 {
            results.len() == 0 && after == *self
        } else {
            &&& results.len() == registrations.len()
            &&& exists|before: VoterRegistar, last: Registration|
                {
                    &&& self.spec_run(registrations.drop_last(), results.drop_last(), before)
                    &&& last.voting_key == registrations.last().voting_key
                    &&& last.merkle_branch@ == registrations.last().merkle_branch@
                    &&& last.hash_index == registrations.last().hash_index
                    &&& last.signature == registrations.last().signature
                    &&& last.address == registrations.last().address
                    &&& #[trigger] before.spec_step(last, results.last(), after)
                }
        }
    }

    /// Takes each of the registrations in turn, and tells of each whether it
    /// was taken.
    pub fn add_registrations(&mut self, registrations: &Vec<Registration>) -> (r: Vec<
        Result<(), RegistarError>,
    >)
        requires
            old(self).wf(),
        ensures
            final(self).wf(),
            old(self).spec_same_phase(*final(self)),
            old(self).spec_run(registrations@, r@, *final(self)),
    {
        let mut results: Vec<Result<(), RegistarError>> = Vec::with_capacity(registrations.len());
        let mut i: usize = 0;
        assert(registrations@.subrange(0, 0) =~= Seq::<Registration>::empty());
        while i < registrations.len()
            invariant
                self.wf(),
                old(self).spec_same_phase(*self),
                i <= registrations.len(),
                results.len() == i,
                old(self).spec_run(registrations@.subrange(0, i as int), results@, *self),
            decreases registrations.len() - i,
        {
            let registration = registrations[i].clone();
            let ghost before = *self;
            let ghost taken = registration;
            let ghost earlier = results@;
            let result = self.add_registration(registration);
            results.push(result);
            proof {
                let prefix = registrations@.subrange(0, i + 1);
                assert(prefix.drop_last() =~= registrations@.subrange(0, i as int));
                assert(results@.drop_last() =~= earlier);
                assert(prefix.last() == registrations@[i as int]);
                assert(before.spec_step(taken, results@.last(), *self));
            }
            i += 1;
        }
        assert(registrations@.subrange(0, registrations.len() as int) =~= registrations@);
        results
    }

    fn add_registration_unchecked(&mut self, registration: Registration, idx: Option<usize>) -> (r:
        Result<(), RegistarError>)
        requires
            old(self).wf(),
            registration.merkle_branch@.len() == old(self).tree_depth * DIGEST_SIZE,
            match idx {
                Some(i) => spec_index_of(old(self).voting_keys@, registration.voting_key) == Some(
                    i as int,
                ),
                None => spec_index_of(old(self).voting_keys@, registration.voting_key) is None,
            },
        ensures
            final(self).wf(),
            old(self).spec_same_phase(*final(self)),
            idx is None && old(self).voting_keys@.len() + 1 > old(self).num_elg_voters ==> r
                == Err::<(), RegistarError>(RegistarError::TooManyRegistrations) && *final(self)
                == *old(self),
            !(idx is None && old(self).voting_keys@.len() + 1 > old(self).num_elg_voters) ==> r
                is Ok && old(self).spec_registered(*final(self), registration),
    {
        proof {
            lemma_index_of(self.voting_keys@, registration.voting_key);
        }
        match idx {
            Some(i) => {
                self.voting_keys[i] = registration.voting_key;
                self.merkle_branches[i] = registration.merkle_branch;
                self.hash_indices[i] = registration.hash_index;
                self.signatures[i] = registration.signature;
                self.addresses[i] = registration.address;
            },
            None => {
                if self.voting_keys.len() >= self.num_elg_voters {
                    return Err(RegistarError::TooManyRegistrations);
                }
                self.voting_keys.push(registration.voting_key);
                self.merkle_branches.push(registration.merkle_branch);
                self.hash_indices.push(registration.hash_index);
                self.signatures.push(registration.signature);
                self.addresses.push(registration.address);
            },
        }
        self.dirty_flag = true;
        proof {
            match idx {
                Some(i) => {
                    assert(nodes_view(self.merkle_branches@) =~= nodes_view(
                        old(self).merkle_branches@,
                    ).update(i as int, registration.merkle_branch@));
                },
                None => {
                    assert(nodes_view(self.merkle_branches@) =~= nodes_view(
                        old(self).merkle_branches@,
                    ).push(registration.merkle_branch@));
                },
            }
        }
        Ok(())
    }

    /// The public inputs as they are sent to the verifier.
    pub fn get_pub_inputs(&self) -> (r: CompactPublicInputs)
        ensures
            r.voting_keys@ == self.voting_keys@,
            r.addresses@ == self.addresses@,
            r.signatures@ == self.signatures@,
    {
        let mut addresses: Vec<[u8; 20]> = Vec::with_capacity(self.addresses.len());
        let mut i: usize = 0;
        while i < self.addresses.len()
            invariant
                i <= self.addresses.len(),
                addresses.len() == i,
                forall|j: int| 0 <= j < i ==> addresses@[j] == self.addresses@[j],
            decreases self.addresses.len() - i,
        {
            addresses.push(self.addresses[i]);
            i += 1;
        }
        assert(addresses@ =~= self.addresses@);
        let mut signatures: Vec<Signature> = Vec::with_capacity(self.signatures.len());
        let mut i: usize = 0;
        while i < self.signatures.len()
            invariant
                i <= self.signatures.len(),
                signatures.len() == i,
                forall|j: int| 0 <= j < i ==> signatures@[j] == self.signatures@[j],
            decreases self.signatures.len() - i,
        {
            signatures.push(self.signatures[i]);
            i += 1;
        }
        assert(signatures@ =~= self.signatures@);
        PublicInputs { voting_keys: copy_of_keys(&self.voting_keys), addresses, signatures }
    }

    /// The proof of the registrations as it was last made, if the
    /// registrations did not change since.
    pub fn cached_register_proof(&self) -> (r: Option<Vec<u8>>)
        ensures
            self.dirty_flag ==> r is None,
            !self.dirty_flag ==> r is Some && r->0@ == self.serialized_proof@,
    {
        if self.dirty_flag {
            None
        } else {
            let mut proof: Vec<u8> = Vec::with_capacity(self.serialized_proof.len());
            proof.extend_from_slice(self.serialized_proof.as_slice());
            assert(proof@ =~= self.serialized_proof@);
            Some(proof)
        }
    }

    /// The two provers whose proofs make the proof of the registrations:
    /// that of the membership of the keys, and that of the signatures.
    pub fn register_provers(&self, options: ProofOptions) -> (r: (MerkleProver, SchnorrProver))
        ensures
            r.0.tree_root == self.elg_root,
            r.0.voting_keys@ == self.voting_keys@,
            r.0.tree_depth == self.tree_depth,
            r.1.voting_keys@ == self.voting_keys@,
            r.1.addresses@ == self.addresses@,
            r.1.signatures@ == self.signatures@,
    {
        let inputs = self.get_pub_inputs();
        let merkle = MerkleProver::new(
            options.clone(),
            self.elg_root,
            copy_of_keys(&self.voting_keys),
            self.tree_depth,
            self.rescue,
        );
        let schnorr = SchnorrProver::new(
            options,
            inputs.voting_keys,
            inputs.addresses,
            inputs.signatures,
            self.curve,
            self.rescue,
        );
        (merkle, schnorr)
    }

    /// The proof of the registrations as it is sent to the verifier: the
    /// public inputs, the length of the proof of membership, that proof,
    /// and the proof of the signatures.
    pub open spec fn spec_register_proof(
        &self,
        merkle_proof: Seq<u8>,
        schnorr_proof: Seq<u8>,
    ) -> Seq<u8> {
        (PublicInputs {
            voting_keys: self.voting_keys,
            addresses: self.addresses,
            signatures: self.signatures,
        }).spec_to_bytes() + spec_count_bytes(merkle_proof.len() as u32) + merkle_proof
            + schnorr_proof
    }

    /// Puts the proof of the registrations together from the two proofs that
    /// the proving engine made for [`VoterRegistar::register_provers`], and
    /// keeps it for as long as the registrations do not change.
    pub fn store_register_proof(&mut self, merkle_proof: &[u8], schnorr_proof: &[u8]) -> (r: Vec<
        u8,
    >)
        requires
            old(self).wf(),
            old(self).voting_keys@.len() <= u32::MAX,
            old(self).voting_keys@.len() * AFFINE_POINT_WIDTH <= usize::MAX,
            merkle_proof.len() <= u32::MAX,
        ensures
            final(self).wf(),
            r@ == old(self).spec_register_proof(merkle_proof@, schnorr_proof@),
            final(self).serialized_proof@ == r@,
            !final(self).dirty_flag,
            final(self).voting_keys == old(self).voting_keys,
            final(self).merkle_branches == old(self).merkle_branches,
            final(self).hash_indices == old(self).hash_indices,
            final(self).signatures == old(self).signatures,
            final(self).addresses == old(self).addresses,
            final(self).elg_root == old(self).elg_root,
            final(self).num_elg_voters == old(self).num_elg_voters,
    {
        let inputs = self.get_pub_inputs();
        let mut serialized: Vec<u8> = Vec::new();
        inputs.write_into(&mut serialized);
        write_count(&mut serialized, merkle_proof.len() as u32);
        write_bytes(&mut serialized, merkle_proof);
        write_bytes(&mut serialized, schnorr_proof);
        assert(serialized@ =~= self.spec_register_proof(merkle_proof@, schnorr_proof@));
        let mut cached: Vec<u8> = Vec::with_capacity(serialized.len());
        cached.extend_from_slice(serialized.as_slice());
        assert(cached@ =~= serialized@);
        self.serialized_proof = cached;
        self.dirty_flag = false;
        serialized
    }
}

} // verus!

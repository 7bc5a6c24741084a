//! What a verifier does with the bytes that an aggregator sends: it takes
//! them apart into public inputs and proofs, hands the proofs to the
//! verifying engine, and puts the verdicts together. The tally needs no
//! proof: it is checked against the votes themselves.

use crate::cds::air::PublicInputs as CDSPublicInputs;
use crate::ecc::{Curve, AFFINE_POINT_WIDTH};
use crate::merkle::air::PublicInputs as MerklePublicInputs;
use crate::schnorr::air::PublicInputs as SchnorrPublicInputs;
use crate::tally::{
    lemma_vote_sum_of_elements, spec_tally_matches, spec_vote_sum_of_elements, tally_matches,
    vote_sum,
};
use crate::wire::{
    read_count, read_rows, spec_read_count, spec_read_elements, DeserializationError,
    BYTES_PER_ADDRESS, BYTES_PER_SIGNATURE, BYTES_PER_VOTING_KEY, COUNT_BYTES,
};
use vstd::prelude::*;

verus! {

/// Number of bytes of what a cast proof holds of one vote: the encrypted
/// vote, the proof points and the outputs.
pub const BYTES_PER_CAST: usize = 960;

/// A proof of the registrations, taken apart.
#[derive(Clone, Debug)]
pub struct RegisterProof {
    /// The public inputs of the proof of membership.
    pub merkle_pub_inputs: MerklePublicInputs,
    /// The public inputs of the proof of the signatures.
    pub schnorr_pub_inputs: SchnorrPublicInputs,
    /// The proof of membership, as the proving engine wrote it.
    pub merkle_proof: Vec<u8>,
    /// The proof of the signatures, as the proving engine wrote it.
    pub schnorr_proof: Vec<u8>,
}

/// A proof of the votes, taken apart.
#[derive(Clone, Debug)]
pub struct CastProof {
    /// The public inputs of the proof of the votes.
    pub cds_pub_inputs: CDSPublicInputs,
    /// The proof of the votes, as the proving engine wrote it.
    pub cds_proof: Vec<u8>,
}

fn concat(a: &[u8], b: &[u8]) -> (r: Vec<u8>)
    ensures
        r@ == a@ + b@,
{
    let mut r: Vec<u8> = Vec::new();
    r.extend_from_slice(a);
    r.extend_from_slice(b);
    assert(r@ =~= a@ + b@);
    r
}

fn copy_bytes(a: &[u8]) -> (r: Vec<u8>)
    ensures
        r@ == a@,
{
    let mut r: Vec<u8> = Vec::new();
    r.extend_from_slice(a);
    assert(r@ =~= a@);
    r
}

/// Where the two proofs of a proof of the registrations start and end: the
/// start of the proof of membership, its end, which is the start of the
/// proof of the signatures, and the end of that.
pub open spec fn spec_register_proof_bounds(register_proof: Seq<u8>) -> Result<
    (int, int),
    DeserializationError,
> {
    match spec_read_count(register_proof, 0) {
        Err(e) => Err(e),
        Ok(num_regs) => {
            let bound = COUNT_BYTES + (BYTES_PER_VOTING_KEY + BYTES_PER_ADDRESS
                + BYTES_PER_SIGNATURE) * num_regs;
            match spec_read_count(register_proof, bound) {
                Err(e) => Err(e),
                Ok(merkle_proof_nbytes) => if bound + COUNT_BYTES + merkle_proof_nbytes
                    > register_proof.len() {
                    Err(DeserializationError::UnexpectedEOF)
                } else {
                    Ok((bound + COUNT_BYTES, bound + COUNT_BYTES + merkle_proof_nbytes))
                },
            }
        },
    }
}

/// What taking a proof of the registrations apart gives: the public inputs
/// of the two proofs, read from the root and from the start of the bytes of
/// the aggregator, and the two proofs; or the error of the first value that
/// cannot be read.
pub open spec fn spec_split_register_proof(
    elg_root_bytes: Seq<u8>,
    register_proof: Seq<u8>,
    r: Result<RegisterProof, DeserializationError>,
) -> bool {
    match r {
        Ok(parts) => {
            &&& MerklePublicInputs::spec_read(
                elg_root_bytes + register_proof,
                Ok(parts.merkle_pub_inputs),
            )
            &&& SchnorrPublicInputs::spec_read(register_proof, Ok(parts.schnorr_pub_inputs))
            &&& spec_register_proof_bounds(register_proof) is Ok
            &&& parts.merkle_proof@ == register_proof.subrange(
                spec_register_proof_bounds(register_proof)->Ok_0.0,
                spec_register_proof_bounds(register_proof)->Ok_0.1,
            )
            &&& parts.schnorr_proof@ == register_proof.subrange(
                spec_register_proof_bounds(register_proof)->Ok_0.1,
                register_proof.len() as int,
            )
        },
        Err(e) => {
            ||| MerklePublicInputs::spec_read(
                elg_root_bytes + register_proof,
                Err(e),
            )
            ||| SchnorrPublicInputs::spec_read(register_proof, Err(e))
            ||| spec_register_proof_bounds(register_proof) == Err::<
                (int, int),
                DeserializationError,
            >(e)
        },
    }
}

/// Takes a proof of the registrations apart. `elg_root_bytes` is the root
/// of the tree of eligible voters as the verifier keeps it.
pub fn split_register_proof(elg_root_bytes: &[u8], register_proof: &[u8]) -> (r: Result<
    RegisterProof,
    DeserializationError,
>)
    ensures
        spec_split_register_proof(elg_root_bytes@, register_proof@, r),
{
    let merkle_bytes = concat(elg_root_bytes, register_proof);
    let merkle_pub_inputs = match MerklePublicInputs::from_bytes(merkle_bytes.as_slice()) {
        Ok(inputs) => inputs,
        Err(e) => { return Err(e); },
    };
    let schnorr_pub_inputs = match SchnorrPublicInputs::from_bytes(register_proof) {
        Ok(inputs) => inputs,
        Err(e) => { return Err(e); },
    };
    let num_regs = match read_count(register_proof, 0) {
        Ok(count) => count as usize,
        Err(e) => { return Err(e); },
    };
    let per_registration = BYTES_PER_VOTING_KEY + BYTES_PER_ADDRESS + BYTES_PER_SIGNATURE;
    let available = register_proof.len() - COUNT_BYTES;
    if num_regs > available / per_registration {
        // the signatures were read, so that this cannot be
        return Err(DeserializationError::UnexpectedEOF);
    }
    let bound = COUNT_BYTES + per_registration * num_regs;
    let merkle_proof_nbytes = match read_count(register_proof, bound) {
        Ok(count) => count as usize,
        Err(e) => { return Err(e); },
    };
    let start = bound + COUNT_BYTES;
    if merkle_proof_nbytes > register_proof.len() - start {
        return Err(DeserializationError::UnexpectedEOF);
    }
    let merkle_proof = copy_bytes(&register_proof[start..start + merkle_proof_nbytes]);
    let schnorr_proof = copy_bytes(
        &register_proof[start + merkle_proof_nbytes..register_proof.len()],
    );
    Ok(RegisterProof { merkle_pub_inputs, schnorr_pub_inputs, merkle_proof, schnorr_proof })
}

/// The verdict on a proof of the registrations: both proofs hold.
pub fn verify_register_proof(merkle_verified: bool, schnorr_verified: bool) -> (r: bool)
    ensures
        r == (merkle_verified && schnorr_verified),
{
    merkle_verified && schnorr_verified
}

/// What taking a proof of the votes apart gives: the public inputs, read
/// from the voting keys of the verifier and the bytes of the aggregator,
/// and the proof; or the error where the two do not speak of the same
/// number of votes, or where a value cannot be read.
pub open spec fn spec_split_cast_proof(
    voting_keys: Seq<u8>,
    cast_proof: Seq<u8>,
    r: Result<CastProof, DeserializationError>,
) -> bool {
    match (spec_read_count(cast_proof, 0), spec_read_count(voting_keys, 0)) {
        (Err(e), _) => r == Err::<CastProof, DeserializationError>(e),
        (Ok(_), Err(e)) => r == Err::<CastProof, DeserializationError>(e),
        (Ok(num_proofs), Ok(num_keys)) => if num_proofs != num_keys {
            r == Err::<CastProof, DeserializationError>(DeserializationError::InvalidValue)
        } else {
            let bytes = voting_keys + cast_proof.subrange(
                COUNT_BYTES as int,
                cast_proof.len() as int,
            );
            match r {
                Ok(parts) => {
                    &&& CDSPublicInputs::spec_read(bytes, Ok(parts.cds_pub_inputs))
                    &&& COUNT_BYTES + BYTES_PER_CAST * num_proofs <= cast_proof.len()
                    &&& parts.cds_proof@ == cast_proof.subrange(
                        COUNT_BYTES + BYTES_PER_CAST * num_proofs,
                        cast_proof.len() as int,
                    )
                },
                Err(e) => {
                    ||| CDSPublicInputs::spec_read(bytes, Err(e))
                    ||| (e == DeserializationError::UnexpectedEOF && COUNT_BYTES + BYTES_PER_CAST
                        * num_proofs > cast_proof.len())
                },
            }
        },
    }
}

/// Takes a proof of the votes apart. `voting_keys` holds the number of
/// voters and their keys as the verifier keeps them.
pub fn split_cast_proof(voting_keys: &[u8], cast_proof: &[u8]) -> (r: Result<
    CastProof,
    DeserializationError,
>)
    ensures
        spec_split_cast_proof(voting_keys@, cast_proof@, r),
{
    let num_proofs = match read_count(cast_proof, 0) {
        Ok(count) => count,
        Err(e) => { return Err(e); },
    };
    let num_keys = match read_count(voting_keys, 0) {
        Ok(count) => count,
        Err(e) => { return Err(e); },
    };
    if num_proofs != num_keys {
        return Err(DeserializationError::InvalidValue);
    }
    let bytes = concat(voting_keys, &cast_proof[COUNT_BYTES..cast_proof.len()]);
    let cds_pub_inputs = match CDSPublicInputs::from_bytes(bytes.as_slice()) {
        Ok(inputs) => inputs,
        Err(e) => { return Err(e); },
    };
    let available = cast_proof.len() - COUNT_BYTES;
    if num_proofs as usize > available / BYTES_PER_CAST {
        return Err(DeserializationError::UnexpectedEOF);
    }
    let bound = COUNT_BYTES + BYTES_PER_CAST * (num_proofs as usize);
    let cds_proof = copy_bytes(&cast_proof[bound..cast_proof.len()]);
    Ok(CastProof { cds_pub_inputs, cds_proof })
}

/// The verdict on a proof of the votes: the proof holds.
pub fn verify_cast_proof(cds_verified: bool) -> (r: bool)
    ensures
        r == cds_verified,
{
    cds_verified
}

/// The verdict on a tally: whether the votes that the bytes stand for add
/// up to what the tally says; or the error of the first value that cannot
/// be read.
pub open spec fn spec_verify_tally_result(
    encrypted_votes: Seq<u8>,
    tally_result: u32,
    curve: Curve,
) -> Result<bool, DeserializationError> {
    match spec_read_count(encrypted_votes, 0) {
        Err(e) => Err(e),
        Ok(num_votes) => match spec_read_elements(
            encrypted_votes,
            COUNT_BYTES as int,
            (num_votes * AFFINE_POINT_WIDTH) as nat,
        ) {
            Err(e) => Err(e),
            Ok(elements) => Ok(
                spec_tally_matches(
                    spec_vote_sum_of_elements(elements, num_votes as nat, curve),
                    num_votes as u64,
                    tally_result as u64,
                    curve,
                ),
            ),
        },
    }
}

/// Checks a tally against the votes: whether the votes, given by their
/// number and their bytes as the verifier keeps them, add up to
/// `(2t - N) G`.
pub fn verify_tally_result(encrypted_votes: &[u8], tally_result: u32, curve: &Curve) -> (r: Result<
    bool,
    DeserializationError,
>)
    ensures
        r == spec_verify_tally_result(encrypted_votes@, tally_result, *curve),
{
    let num_votes = match read_count(encrypted_votes, 0) {
        Ok(count) => count,
        Err(e) => { return Err(e); },
    };
    let votes = match read_rows::<AFFINE_POINT_WIDTH>(
        encrypted_votes,
        COUNT_BYTES,
        num_votes as usize,
    ) {
        Ok(votes) => votes,
        Err(e) => { return Err(e); },
    };
    let actual = vote_sum(&votes, curve);
    proof {
        lemma_vote_sum_of_elements(votes@, votes@.len(), *curve);
    }
    Ok(tally_matches(actual, num_votes as u64, tally_result as u64, curve))
}

} // verus!

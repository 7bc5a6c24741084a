//! The proof that an encrypted vote is well-formed: that it encrypts one of
//! the two allowed votes, without telling which.
//!
//! The proof of a voter with the key `vk`, the blinding key `bk` and the
//! encrypted vote `ev` is made of four points `a1`, `b1`, `a2`, `b2` and
//! four scalars `d1`, `d2`, `r1`, `r2`. With `c` the hash of the voter, the
//! key, the vote and the points, it is valid where
//!
//! ```text
//! a1 = r1 G + d1 vk        b1 = r1 bk + d1 (ev + G)
//! a2 = r2 G + d2 vk        b2 = r2 bk + d2 (ev - G)
//! (c - d1 - d2) vk = 0
//! ```

pub mod air;
pub mod constants;
pub mod inputs;
pub mod prover;
pub mod trace;

use crate::cds::constants::PROOF_POINTS_WIDTH;
use crate::cds::prover::{hash_message_bytes, spec_hash_message_bytes};
use crate::cds::trace::{
    compute_blinding_keys, keys_view, prepare_encrypted_votes, prepare_hash_message,
    spec_blinding_keys, spec_prepare_encrypted_votes, spec_prepare_hash_message,
};
use crate::ecc::{Affine, Curve, Projective, AFFINE_POINT_WIDTH};
use crate::field::Felt;
use crate::fp6::Fp6;
use crate::periodic::columns_view;
use crate::rescue::Rescue;
use vstd::prelude::*;

verus! {

/// `r p + d q`.
pub open spec fn spec_combination(
    r: Seq<u8>,
    p: Affine,
    d: Seq<u8>,
    q: Affine,
    curve: Curve,
) -> Projective {
    p.spec_scalar_mul_bytes(r, curve).spec_add(q.spec_scalar_mul_bytes(d, curve), curve)
}

/// The point is the claimed one: not the identity, and with the claimed
/// affine coordinates.
pub open spec fn spec_is_claimed(point: Projective, claimed: Affine, curve: Curve) -> bool {
    point.z != Fp6::spec_zero() && point.spec_to_affine(curve) == claimed
}

fn combination(r: &[u8; 32], p: Affine, d: &[u8; 32], q: Affine, curve: &Curve) -> (out: Projective)
    ensures
        out == spec_combination(r@, p, d@, q, *curve),
{
    p.scalar_mul_bytes(r, curve).add(q.scalar_mul_bytes(d, curve), curve)
}

fn is_claimed(point: Projective, claimed: Affine, curve: &Curve) -> (r: bool)
    ensures
        r == spec_is_claimed(point, claimed, *curve),
{
    point.z != Fp6::zero() && point.to_affine(curve) == claimed
}

/// `(c - d1 - d2) vk`, as `c vk - d1 vk - d2 vk`.
pub open spec fn spec_challenge_difference(
    c: Seq<u8>,
    d1: Seq<u8>,
    d2: Seq<u8>,
    voting_key: Affine,
    curve: Curve,
) -> Projective {
    voting_key.spec_scalar_mul_bytes(c, curve).spec_add(
        voting_key.spec_scalar_mul_bytes(d1, curve).spec_neg(),
        curve,
    ).spec_add(voting_key.spec_scalar_mul_bytes(d2, curve).spec_neg(), curve)
}

/// The proof of a voter is valid.
pub open spec fn spec_verify_cds_proof(
    voter_index: usize,
    voting_key: Seq<Felt>,
    blinding_key: Seq<Felt>,
    encrypted_vote: Seq<Felt>,
    proof_points: Seq<Felt>,
    proof_scalars: [[u8; 32]; 4],
    curve: Curve,
    rescue: Rescue,
) -> bool {
    let g = curve.generator;
    let vk = Affine::spec_read(voting_key, 0);
    let bk = Affine::spec_read(blinding_key, 0);
    let votes = spec_prepare_encrypted_votes(encrypted_vote, curve);
    let ev_plus = Affine::spec_read(votes.0, 0);
    let ev_minus = Affine::spec_read(votes.1, 0);
    let (d1, d2, r1, r2) = (
        proof_scalars[0]@,
        proof_scalars[1]@,
        proof_scalars[2]@,
        proof_scalars[3]@,
    );
    let c = spec_hash_message_bytes(
        spec_prepare_hash_message(voter_index, voting_key, encrypted_vote, proof_points),
        rescue,
    );
    let difference = spec_challenge_difference(c, d1, d2, vk, curve);
    &&& spec_is_claimed(spec_combination(r1, g, d1, vk, curve), Affine::spec_read(proof_points, 0), curve)
    &&& spec_is_claimed(
        spec_combination(r1, bk, d1, ev_plus, curve),
        Affine::spec_read(proof_points, AFFINE_POINT_WIDTH as int),
        curve,
    )
    &&& spec_is_claimed(
        spec_combination(r2, g, d2, vk, curve),
        Affine::spec_read(proof_points, 2 * AFFINE_POINT_WIDTH),
        curve,
    )
    &&& spec_is_claimed(
        spec_combination(r2, bk, d2, ev_minus, curve),
        Affine::spec_read(proof_points, 3 * AFFINE_POINT_WIDTH),
        curve,
    )
    &&& difference.x == Fp6::spec_zero()
    &&& difference.z == Fp6::spec_zero()
}

/// Checks the proof of a voter without a proof system.
pub fn verify_cds_proof(
    voter_index: usize,
    voting_key: &[Felt],
    blinding_key: &[Felt],
    encrypted_vote: &[Felt],
    proof_points: &[Felt],
    proof_scalars: &[[u8; 32]; 4],
    curve: &Curve,
    rescue: &Rescue,
) -> (r: bool)
    requires
        voting_key.len() == AFFINE_POINT_WIDTH,
        blinding_key.len() == AFFINE_POINT_WIDTH,
        encrypted_vote.len() == AFFINE_POINT_WIDTH,
        proof_points.len() == PROOF_POINTS_WIDTH,
    ensures
        r == spec_verify_cds_proof(
            voter_index,
            voting_key@,
            blinding_key@,
            encrypted_vote@,
            proof_points@,
            *proof_scalars,
            *curve,
            *rescue,
        ),
{
    let g = curve.generator;
    let vk = Affine::read(voting_key, 0);
    let bk = Affine::read(blinding_key, 0);
    let votes = prepare_encrypted_votes(encrypted_vote, curve);
    let ev_plus = Affine::read(votes.0.as_slice(), 0);
    let ev_minus = Affine::read(votes.1.as_slice(), 0);
    let d1 = &proof_scalars[0];
    let d2 = &proof_scalars[1];
    let r1 = &proof_scalars[2];
    let r2 = &proof_scalars[3];
    let message = prepare_hash_message(voter_index, voting_key, encrypted_vote, proof_points);
    let c = hash_message_bytes(message.as_slice(), rescue);
    let difference = vk.scalar_mul_bytes(&c, curve).add(
        vk.scalar_mul_bytes(d1, curve).neg(),
        curve,
    ).add(vk.scalar_mul_bytes(d2, curve).neg(), curve);
    is_claimed(combination(r1, g, d1, vk, curve), Affine::read(proof_points, 0), curve)
        && is_claimed(
        combination(r1, bk, d1, ev_plus, curve),
        Affine::read(proof_points, AFFINE_POINT_WIDTH),
        curve,
    ) && is_claimed(
        combination(r2, g, d2, vk, curve),
        Affine::read(proof_points, 2 * AFFINE_POINT_WIDTH),
        curve,
    ) && is_claimed(
        combination(r2, bk, d2, ev_minus, curve),
        Affine::read(proof_points, 3 * AFFINE_POINT_WIDTH),
        curve,
    ) && difference.x == Fp6::zero() && difference.z == Fp6::zero()
}

/// The proof of every voter is valid.
pub open spec fn spec_naive_verify_cds_proofs(
    voting_keys: Seq<[Felt; AFFINE_POINT_WIDTH]>,
    encrypted_votes: Seq<[Felt; AFFINE_POINT_WIDTH]>,
    proof_scalars: Seq<[[u8; 32]; 4]>,
    proof_points: Seq<[Felt; PROOF_POINTS_WIDTH]>,
    curve: Curve,
    rescue: Rescue,
) -> bool {
    forall|i: int|
        0 <= i < voting_keys.len() ==> #[trigger] spec_verify_cds_proof(
            i as usize,
            voting_keys[i]@,
            spec_blinding_keys(keys_view(voting_keys), curve)[i],
            encrypted_votes[i]@,
            proof_points[i]@,
            proof_scalars[i],
            curve,
            rescue,
        )
}

/// Checks the proof of every voter without a proof system.
pub fn naive_verify_cds_proofs(
    voting_keys: &Vec<[Felt; AFFINE_POINT_WIDTH]>,
    encrypted_votes: &Vec<[Felt; AFFINE_POINT_WIDTH]>,
    proof_scalars: &Vec<[[u8; 32]; 4]>,
    proof_points: &Vec<[Felt; PROOF_POINTS_WIDTH]>,
    curve: &Curve,
    rescue: &Rescue,
) -> (r: bool)
    requires
        encrypted_votes.len() == voting_keys.len(),
        proof_scalars.len() == voting_keys.len(),
        proof_points.len() == voting_keys.len(),
    ensures
        r == spec_naive_verify_cds_proofs(
            voting_keys@,
            encrypted_votes@,
            proof_scalars@,
            proof_points@,
            *curve,
            *rescue,
        ),
{
    let blinding_keys = compute_blinding_keys(voting_keys, curve);
    let mut i: usize = 0;
    while i < voting_keys.len()
        invariant
            encrypted_votes.len() == voting_keys.len(),
            proof_scalars.len() == voting_keys.len(),
            proof_points.len() == voting_keys.len(),
            blinding_keys.len() == voting_keys.len(),
            columns_view(blinding_keys@) == spec_blinding_keys(keys_view(voting_keys@), *curve),
            forall|k: int|
                0 <= k < blinding_keys.len() ==> (#[trigger] blinding_keys@[k]).len()
                    == AFFINE_POINT_WIDTH,
            i <= voting_keys.len(),
            forall|j: int|
                0 <= j < i ==> #[trigger] spec_verify_cds_proof(
                    j as usize,
                    voting_keys@[j]@,
                    spec_blinding_keys(keys_view(voting_keys@), *curve)[j],
                    encrypted_votes@[j]@,
                    proof_points@[j]@,
                    proof_scalars@[j],
                    *curve,
                    *rescue,
                ),
        decreases voting_keys.len() - i,
    {
        assert(blinding_keys@[i as int]@ == spec_blinding_keys(
            keys_view(voting_keys@),
            *curve,
        )[i as int]);
        if !verify_cds_proof(
            i,
            &voting_keys[i],
            blinding_keys[i].as_slice(),
            &encrypted_votes[i],
            &proof_points[i],
            &proof_scalars[i],
            curve,
            rescue,
        ) {
            proof {
                let at = i as int;
                assert(at as usize == i);
                assert(!spec_verify_cds_proof(
                    at as usize,
                    voting_keys@[at]@,
                    spec_blinding_keys(keys_view(voting_keys@), *curve)[at],
                    encrypted_votes@[at]@,
                    proof_points@[at]@,
                    proof_scalars@[at],
                    *curve,
                    *rescue,
                ));
            }
            return false;
        }
        i += 1;
    }
    true
}

} // verus!

//! The proof that the encrypted votes add up to the claimed tally.
//!
//! With `t` votes for and `N - t` against, the votes add up to `(2t - N) G`:
//! the blinding of the votes cancels in the sum. The trace starts at
//! `(N - 2t) G`, adds one vote on each row but the last, and must end at
//! minus the last vote.

pub mod air;
pub mod prover;

use crate::ecc::{
    Affine, Curve, Projective, AFFINE_POINT_WIDTH, PROJECTIVE_POINT_WIDTH,
};
use crate::field::Felt;
use crate::fp6::Fp6;
use vstd::prelude::*;

verus! {

/// Number of registers of the trace: one point in projective coordinates.
pub const TRACE_WIDTH: usize = 18;

/// Number of periodic columns: the flag of the last addition, and the vote
/// of the row.
pub const NUM_PERIODIC_COLUMNS: usize = 13;

/// `(N - 2t) G` for `N` votes of which `t` are for.
pub open spec fn spec_negated_tally_point(num_votes: u64, tally_result: u64, curve: Curve) -> Projective {
    if num_votes >= 2 * tally_result {
        curve.generator.spec_scalar_mul((num_votes - 2 * tally_result) as u64, curve)
    } else {
        curve.generator.spec_scalar_mul((2 * tally_result - num_votes) as u64, curve).spec_neg()
    }
}

/// The registers that a point starts a sum with: the identity where its `Z`
/// is zero, and its affine coordinates with `Z = 1` elsewhere.
pub open spec fn spec_normalized(point: Projective, curve: Curve) -> Seq<Felt> {
    if point.z == Fp6::spec_zero() {
        Projective::spec_identity().spec_registers()
    } else {
        Projective::spec_from_affine(point.spec_to_affine(curve)).spec_registers()
    }
}

/// The first row of the trace: `(N - 2t) G`.
pub open spec fn spec_start_point(num_votes: u64, tally_result: u64, curve: Curve) -> Seq<Felt> {
    spec_normalized(spec_negated_tally_point(num_votes, tally_result, curve), curve)
}

/// `(N - 2t) G` for `N` votes of which `t` are for.
pub fn negated_tally_point(num_votes: u64, tally_result: u64, curve: &Curve) -> (r: Projective)
    requires
        2 * tally_result <= u64::MAX,
    ensures
        r == spec_negated_tally_point(num_votes, tally_result, *curve),
{
    if num_votes >= 2 * tally_result {
        curve.generator.scalar_mul(num_votes - 2 * tally_result, curve)
    } else {
        curve.generator.scalar_mul(2 * tally_result - num_votes, curve).neg()
    }
}

/// The registers that a point starts a sum with.
pub fn normalized(point: Projective, curve: &Curve) -> (r: Vec<Felt>)
    ensures
        r@ == spec_normalized(point, *curve),
        r.len() == PROJECTIVE_POINT_WIDTH,
{
    if point.z == Fp6::zero() {
        Projective::identity().to_vec()
    } else {
        Projective::from_affine(point.to_affine(curve)).to_vec()
    }
}

/// The first row of the trace.
pub fn start_point(num_votes: u64, tally_result: u64, curve: &Curve) -> (r: Vec<Felt>)
    requires
        2 * tally_result <= u64::MAX,
    ensures
        r@ == spec_start_point(num_votes, tally_result, *curve),
        r.len() == PROJECTIVE_POINT_WIDTH,
{
    normalized(negated_tally_point(num_votes, tally_result, curve), curve)
}

/// The sum of the first `k` votes.
pub open spec fn spec_vote_sum(
    encrypted_votes: Seq<[Felt; AFFINE_POINT_WIDTH]>,
    k: nat,
    curve: Curve,
) -> Projective
    decreases k,
{
    if k == 0 {
        Projective::spec_identity()
    } else {
        spec_vote_sum(encrypted_votes, (k - 1) as nat, curve).spec_add_mixed(
            Affine::spec_read(encrypted_votes[k - 1]@, 0),
            curve,
        )
    }
}

/// A sum of `N` votes is `(2t - N) G`: both are the identity, or both are
/// the same point in affine coordinates.
pub open spec fn spec_tally_matches(
    sum: Projective,
    num_votes: u64,
    tally_result: u64,
    curve: Curve,
) -> bool {
    let expected = spec_negated_tally_point(num_votes, tally_result, curve).spec_neg();
    if expected.z == Fp6::spec_zero() {
        sum.z == Fp6::spec_zero()
    } else {
        sum.spec_to_affine(curve) == expected.spec_to_affine(curve)
    }
}

/// Whether a sum of `N` votes is `(2t - N) G`.
pub fn tally_matches(sum: Projective, num_votes: u64, tally_result: u64, curve: &Curve) -> (r: bool)
    requires
        2 * tally_result <= u64::MAX,
    ensures
        r == spec_tally_matches(sum, num_votes, tally_result, *curve),
{
    let expected = negated_tally_point(num_votes, tally_result, curve).neg();
    if expected.z == Fp6::zero() {
        sum.z == Fp6::zero()
    } else {
        sum.to_affine(curve) == expected.to_affine(curve)
    }
}

/// The sum of the votes.
pub fn vote_sum(encrypted_votes: &Vec<[Felt; AFFINE_POINT_WIDTH]>, curve: &Curve) -> (r: Projective)
    ensures
        r == spec_vote_sum(encrypted_votes@, encrypted_votes@.len(), *curve),
{
    let n = encrypted_votes.len();
    let mut sum = Projective::identity();
    let mut k: usize = 0;
    while k < n
        invariant
            n == encrypted_votes.len(),
            k <= n,
            sum == spec_vote_sum(encrypted_votes@, k as nat, *curve),
        decreases n - k,
    {
        sum = sum.add_mixed(Affine::read(&encrypted_votes[k], 0), curve);
        k += 1;
    }
    sum
}

/// The votes add up to `(2t - N) G`.
pub open spec fn spec_naive_verify_tally_result(
    encrypted_votes: Seq<[Felt; AFFINE_POINT_WIDTH]>,
    tally_result: u64,
    curve: Curve,
) -> bool {
    spec_tally_matches(
        spec_vote_sum(encrypted_votes, encrypted_votes.len(), curve),
        encrypted_votes.len() as u64,
        tally_result,
        curve,
    )
}

/// Checks a tally without a proof system: whether the votes add up to
/// `(2t - N) G`.
pub fn naive_verify_tally_result(
    encrypted_votes: &Vec<[Felt; AFFINE_POINT_WIDTH]>,
    tally_result: u64,
    curve: &Curve,
) -> (r: bool)
    requires
        2 * tally_result <= u64::MAX,
        encrypted_votes.len() <= u64::MAX,
    ensures
        r == spec_naive_verify_tally_result(encrypted_votes@, tally_result, *curve),
{
    let sum = vote_sum(encrypted_votes, curve);
    tally_matches(sum, encrypted_votes.len() as u64, tally_result, curve)
}

/// The sum of the first `k` votes of a list of votes that is given by its
/// elements, twelve for each vote.
pub open spec fn spec_vote_sum_of_elements(elements: Seq<Felt>, k: nat, curve: Curve) -> Projective
    decreases k,
{
    if k == 0 {
        Projective::spec_identity()
    } else {
        spec_vote_sum_of_elements(elements, (k - 1) as nat, curve).spec_add_mixed(
            Affine::spec_read(elements, AFFINE_POINT_WIDTH * (k - 1)),
            curve,
        )
    }
}

/// The sum of votes is the sum of the votes that their elements give.
pub proof fn lemma_vote_sum_of_elements(
    encrypted_votes: Seq<[Felt; AFFINE_POINT_WIDTH]>,
    k: nat,
    curve: Curve,
)
    requires
        k <= encrypted_votes.len(),
    ensures
        spec_vote_sum(encrypted_votes, k, curve) == spec_vote_sum_of_elements(
            crate::wire::spec_flatten(encrypted_votes),
            k,
            curve,
        ),
    decreases k,
{
    if k > 0 {
        lemma_vote_sum_of_elements(encrypted_votes, (k - 1) as nat, curve);
        let i = (k - 1) as int;
        let flat = crate::wire::spec_flatten(encrypted_votes);
        assert((i + 1) * AFFINE_POINT_WIDTH <= encrypted_votes.len() * AFFINE_POINT_WIDTH)
            by (nonlinear_arith)
            requires
                i < encrypted_votes.len(),
        ;
        assert forall|j: int| 0 <= j < AFFINE_POINT_WIDTH implies flat[AFFINE_POINT_WIDTH * i + j]
            == encrypted_votes[i][j] by {
            crate::air::lemma_row_of_cycle(i, AFFINE_POINT_WIDTH as int, j);
        }
        assert(Affine::spec_read(flat, AFFINE_POINT_WIDTH * i) == Affine::spec_read(
            encrypted_votes[i]@,
            0,
        ));
    }
}

} // verus!

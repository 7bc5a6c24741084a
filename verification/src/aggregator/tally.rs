//! The bookkeeping of the tallying phase: the valid votes, and the tally
//! once it is found.

use crate::chain_verifier::spec_verify_tally_result;
use crate::ecc::{Curve, AFFINE_POINT_WIDTH};
use crate::field::Felt;
use crate::tally::{
    lemma_vote_sum_of_elements, spec_tally_matches, spec_vote_sum, tally_matches, vote_sum,
};
use crate::wire::{
    lemma_count_round_trip, lemma_elements_round_trip, lemma_flatten_injective, read_count,
    read_rows, spec_all_canonical, spec_count_bytes, spec_elements_bytes, spec_flatten,
    spec_read_count, spec_read_elements, write_count, write_rows, DeserializationError,
    COUNT_BYTES,
};
use vstd::prelude::*;

verus! {

/// The errors of the tallying phase.
#[derive(Clone, Copy, Debug, PartialEq, Eq, Structural)]
pub enum TallierError {
    /// No number of votes for, from none to all, goes with the votes.
    InvalidTallyResult,
}

/// The aggregator of the tallying phase.
#[derive(Clone, Debug)]
pub struct VoteTallier {
    /// The valid votes of the casting phase.
    pub encrypted_votes: Vec<[Felt; AFFINE_POINT_WIDTH]>,
    /// The number of votes for, once it is found.
    pub tally_result: Option<u32>,
}

/// `t` votes for go with the votes.
pub open spec fn spec_is_tally(
    encrypted_votes: Seq<[Felt; AFFINE_POINT_WIDTH]>,
    t: int,
    curve: Curve,
) -> bool {
    spec_tally_matches(
        spec_vote_sum(encrypted_votes, encrypted_votes.len(), curve),
        encrypted_votes.len() as u64,
        t as u64,
        curve,
    )
}

/// The votes that bytes stand for: their number, and the twelve elements of
/// each.
pub open spec fn spec_parse(bytes: Seq<u8>) -> Result<(u32, Seq<Felt>), DeserializationError> {
    match spec_read_count(bytes, 0) {
        Err(e) => Err(e),
        Ok(num_votes) => match spec_read_elements(
            bytes,
            COUNT_BYTES as int,
            (num_votes * AFFINE_POINT_WIDTH) as nat,
        ) {
            Err(e) => Err(e),
            Ok(votes) => Ok((num_votes, votes)),
        },
    }
}

impl VoteTallier {
    /// The aggregator of the given votes, with no tally yet.
    pub fn new(encrypted_votes: Vec<[Felt; AFFINE_POINT_WIDTH]>) -> (r: VoteTallier)
        ensures
            r.encrypted_votes == encrypted_votes,
            r.tally_result is None,
    {
        VoteTallier { encrypted_votes, tally_result: None }
    }

    /// Finds the tally: the least number of votes for that goes with the
    /// votes. A tally that was found before is returned as it is.
    pub fn tally_votes(&mut self, curve: &Curve) -> (r: Result<u32, TallierError>)
        requires
            old(self).encrypted_votes@.len() <= u32::MAX,
        ensures
            final(self).encrypted_votes == old(self).encrypted_votes,
            old(self).tally_result matches Some(t) ==> r == Ok::<u32, TallierError>(t)
                && final(self).tally_result == old(self).tally_result,
            old(self).tally_result is None ==> match r {
                Ok(t) => {
                    &&& t <= old(self).encrypted_votes@.len()
                    &&& spec_is_tally(old(self).encrypted_votes@, t as int, *curve)
                    &&& forall|s: int|
                        0 <= s < t ==> !spec_is_tally(old(self).encrypted_votes@, s, *curve)
                    &&& final(self).tally_result == Some(t)
                },
                Err(e) => {
                    &&& forall|s: int|
                        0 <= s <= old(self).encrypted_votes@.len() ==> !spec_is_tally(
                            old(self).encrypted_votes@,
                            s,
                            *curve,
                        )
                    &&& final(self).tally_result is None
                },
            },
    {
        if let Some(t) = self.tally_result {
            return Ok(t);
        }
        let num_votes = self.encrypted_votes.len() as u32;
        let sum = vote_sum(&self.encrypted_votes, curve);
        let mut tally_result: u32 = 0;
        loop
            invariant
                self.encrypted_votes == old(self).encrypted_votes,
                old(self).tally_result is None,
                self.tally_result is None,
                num_votes == self.encrypted_votes@.len(),
                sum == spec_vote_sum(self.encrypted_votes@, self.encrypted_votes@.len(), *curve),
                tally_result <= num_votes,
                forall|s: int| 0 <= s < tally_result ==> !spec_is_tally(self.encrypted_votes@, s, *curve),
            decreases num_votes - tally_result,
        {
            if tally_matches(sum, num_votes as u64, tally_result as u64, curve) {
                self.tally_result = Some(tally_result);
                return Ok(tally_result);
            }
            if tally_result == num_votes {
                return Err(TallierError::InvalidTallyResult);
            }
            tally_result += 1;
        }
    }

    /// Every element is canonical, and the number of votes fits its four
    /// bytes.
    pub open spec fn wf(&self) -> bool {
        &&& spec_all_canonical(spec_flatten(self.encrypted_votes@))
        &&& self.encrypted_votes@.len() <= u32::MAX
    }

    /// The bytes of the aggregator: the number of votes, and the votes.
    pub open spec fn spec_to_bytes(&self) -> Seq<u8> {
        spec_count_bytes(self.encrypted_votes@.len() as u32) + spec_elements_bytes(
            spec_flatten(self.encrypted_votes@),
        )
    }

    /// What reading `bytes` gives: the aggregator of the votes that they
    /// stand for, with no tally, or the error of the first value that cannot
    /// be read.
    pub open spec fn spec_read(bytes: Seq<u8>, r: Result<VoteTallier, DeserializationError>) -> bool {
        match spec_parse(bytes) {
            Ok((num_votes, votes)) => r is Ok && r->Ok_0.encrypted_votes@.len() == num_votes
                && spec_flatten(r->Ok_0.encrypted_votes@) == votes && r->Ok_0.tally_result is None,
            Err(e) => r is Err && r->Err_0 == e,
        }
    }

    /// Appends the bytes of the aggregator to `target`.
    pub fn write_into(&self, target: &mut Vec<u8>)
        requires
            self.encrypted_votes@.len() <= u32::MAX,
            self.encrypted_votes@.len() * AFFINE_POINT_WIDTH <= usize::MAX,
        ensures
            final(target)@ == old(target)@ + self.spec_to_bytes(),
    {
        write_count(target, self.encrypted_votes.len() as u32);
        write_rows(target, &self.encrypted_votes);
        assert(target@ =~= old(target)@ + self.spec_to_bytes());
    }

    /// The bytes of the aggregator.
    pub fn to_bytes(&self) -> (r: Vec<u8>)
        requires
            self.encrypted_votes@.len() <= u32::MAX,
            self.encrypted_votes@.len() * AFFINE_POINT_WIDTH <= usize::MAX,
        ensures
            r@ == self.spec_to_bytes(),
    {
        let mut target: Vec<u8> = Vec::new();
        self.write_into(&mut target);
        assert(target@ =~= self.spec_to_bytes());
        target
    }

    /// Reads an aggregator from the start of `source`.
    pub fn from_bytes(source: &[u8]) -> (r: Result<VoteTallier, DeserializationError>)
        ensures
            VoteTallier::spec_read(source@, r),
    {
        let num_votes = match read_count(source, 0) {
            Ok(count) => count as usize,
            Err(e) => { return Err(e); },
        };
        let encrypted_votes = match read_rows::<AFFINE_POINT_WIDTH>(
            source,
            COUNT_BYTES,
            num_votes,
        ) {
            Ok(votes) => votes,
            Err(e) => { return Err(e); },
        };
        Ok(VoteTallier { encrypted_votes, tally_result: None })
    }
}

/// An aggregator that is written and read again holds the same votes:
/// whatever [`VoteTallier::from_bytes`] gives for the bytes of a well-formed
/// aggregator holds the votes that were written, and no tally.
pub proof fn lemma_round_trip(tallier: VoteTallier, read: Result<VoteTallier, DeserializationError>)
    requires
        tallier.wf(),
        VoteTallier::spec_read(tallier.spec_to_bytes(), read),
    ensures
        read is Ok,
        read->Ok_0.encrypted_votes@ == tallier.encrypted_votes@,
        read->Ok_0.tally_result is None,
{
    let count = spec_count_bytes(tallier.encrypted_votes@.len() as u32);
    let votes = spec_elements_bytes(spec_flatten(tallier.encrypted_votes@));
    let bytes = tallier.spec_to_bytes();
    lemma_count_round_trip(Seq::empty(), tallier.encrypted_votes@.len() as u32, votes);
    assert(Seq::<u8>::empty() + count + votes =~= bytes);
    lemma_elements_round_trip(count, spec_flatten(tallier.encrypted_votes@), Seq::empty());
    assert(count + votes + Seq::<u8>::empty() =~= bytes);
    lemma_flatten_injective(read->Ok_0.encrypted_votes@, tallier.encrypted_votes@);
}

/// The verifier of a tally agrees with the aggregator: on the bytes of a
/// well-formed aggregator it accepts a tally where that tally goes with the
/// votes, and refuses it where it does not. So it accepts what
/// [`VoteTallier::tally_votes`] finds, and nothing less.
pub proof fn lemma_verifier_agrees(tallier: VoteTallier, tally_result: u32, curve: Curve)
    requires
        tallier.wf(),
    ensures
        spec_verify_tally_result(tallier.spec_to_bytes(), tally_result, curve) == Ok::<
            bool,
            DeserializationError,
        >(spec_is_tally(tallier.encrypted_votes@, tally_result as int, curve)),
{
    let num_votes = tallier.encrypted_votes@.len();
    let count = spec_count_bytes(num_votes as u32);
    let flat = spec_flatten(tallier.encrypted_votes@);
    let votes = spec_elements_bytes(flat);
    let bytes = tallier.spec_to_bytes();
    lemma_count_round_trip(Seq::empty(), num_votes as u32, votes);
    assert(Seq::<u8>::empty() + count + votes =~= bytes);
    lemma_elements_round_trip(count, flat, Seq::empty());
    assert(count + votes + Seq::<u8>::empty() =~= bytes);
    lemma_vote_sum_of_elements(tallier.encrypted_votes@, num_votes, curve);
}

} // verus!

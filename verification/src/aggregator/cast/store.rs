//! The votes on their way to a file and back.
//!
//! The bytes of an aggregator are the number of voters (four bytes) and one
//! slot of 704 bytes for each voter: the voting key (twelve elements), and
//! either the encrypted vote (twelve elements), the proof points (48
//! elements) and the four proof scalars (32 bytes each), or as many zero
//! bytes, where the voter has not voted. A vote of twelve zeros thus reads
//! as no vote. Every number has its least significant byte first.

use crate::aggregator::cast::{lemma_num_votes_prefix, spec_num_votes, VoteCollector};
use crate::air::{array_of, is_power_of_two, spec_is_power_of_two};
use crate::cds::constants::PROOF_POINTS_WIDTH;
use crate::ecc::{Curve, AFFINE_POINT_WIDTH};
use crate::field::{Felt, ELEMENT_BYTES};
use crate::rescue::Rescue;
use crate::wire::{
    lemma_count_round_trip, lemma_elements_round_trip, read_byte_array, read_count, read_elements,
    spec_all_canonical, spec_count_bytes, spec_elements_bytes, spec_read_bytes, spec_read_count,
    spec_read_elements, write_bytes, write_count, write_elements, DeserializationError,
    BYTES_PER_AFFINE, BYTES_PER_PROOF_POINTS, BYTES_PER_SCALAR, COUNT_BYTES,
};
use vstd::prelude::*;

verus! {

/// Number of bytes of the slot of a voter.
pub const SLOT_BYTES: usize = 704;

/// Number of bytes of the four proof scalars of a vote.
pub const SCALARS_BYTES: usize = 128;

/// A vote with its proof, as plain values.
pub struct Ballot {
    pub encrypted_vote: Seq<Felt>,
    pub proof_points: Seq<Felt>,
    pub proof_scalars: Seq<u8>,
}

/// The slot of a voter as plain values: the voting key, and the vote if
/// there is one.
pub struct Slot {
    pub voting_key: Seq<Felt>,
    pub ballot: Option<Ballot>,
}

/// The bytes of four scalars, one after the other.
pub open spec fn spec_scalars_bytes(scalars: [[u8; 32]; 4]) -> Seq<u8> {
    scalars[0]@ + scalars[1]@ + scalars[2]@ + scalars[3]@
}

/// Every element is zero.
pub open spec fn spec_all_zero(elements: Seq<Felt>) -> bool {
    forall|i: int| 0 <= i < elements.len() ==> (#[trigger] elements[i]) == Felt::spec_zero()
}

/// `n` zero bytes.
pub open spec fn spec_zero_bytes(n: nat) -> Seq<u8> {
    Seq::new(n, |i: int| 0u8)
}

impl Ballot {
    /// The ballot has the widths of a vote with its proof, its elements are
    /// canonical, and its vote is not twelve zeros.
    pub open spec fn fits(self) -> bool {
        &&& self.encrypted_vote.len() == AFFINE_POINT_WIDTH
        &&& self.proof_points.len() == PROOF_POINTS_WIDTH
        &&& self.proof_scalars.len() == SCALARS_BYTES
        &&& spec_all_canonical(self.encrypted_vote)
        &&& spec_all_canonical(self.proof_points)
        &&& !spec_all_zero(self.encrypted_vote)
    }

    /// The bytes of the ballot.
    pub open spec fn spec_bytes(self) -> Seq<u8> {
        spec_elements_bytes(self.encrypted_vote) + spec_elements_bytes(self.proof_points)
            + self.proof_scalars
    }
}

impl Slot {
    /// The slot has the widths of a voter, with canonical elements.
    pub open spec fn fits(self) -> bool {
        &&& self.voting_key.len() == AFFINE_POINT_WIDTH
        &&& spec_all_canonical(self.voting_key)
        &&& self.ballot matches Some(ballot) ==> ballot.fits()
    }

    /// The bytes of the slot.
    pub open spec fn spec_bytes(self) -> Seq<u8> {
        spec_elements_bytes(self.voting_key) + match self.ballot {
            Some(ballot) => ballot.spec_bytes(),
            None => spec_zero_bytes((SLOT_BYTES - BYTES_PER_AFFINE) as nat),
        }
    }
}

/// The slot that stands in `bytes` from `offset` on, or the error of its
/// first value that cannot be read.
pub open spec fn spec_read_slot(bytes: Seq<u8>, offset: int) -> Result<Slot, DeserializationError> {
    let vote_at = offset + BYTES_PER_AFFINE;
    let points_at = vote_at + BYTES_PER_AFFINE;
    let scalars_at = points_at + BYTES_PER_PROOF_POINTS;
    match spec_read_elements(bytes, offset, AFFINE_POINT_WIDTH as nat) {
        Err(e) => Err(e),
        Ok(voting_key) => match spec_read_elements(bytes, vote_at, AFFINE_POINT_WIDTH as nat) {
            Err(e) => Err(e),
            Ok(encrypted_vote) => if spec_all_zero(encrypted_vote) {
                match spec_read_bytes(bytes, points_at, (BYTES_PER_PROOF_POINTS + SCALARS_BYTES) as nat) {
                    Err(e) => Err(e),
                    Ok(_) => Ok(Slot { voting_key, ballot: None }),
                }
            } else {
                match spec_read_elements(bytes, points_at, PROOF_POINTS_WIDTH as nat) {
                    Err(e) => Err(e),
                    Ok(proof_points) => match spec_read_bytes(
                        bytes,
                        scalars_at,
                        SCALARS_BYTES as nat,
                    ) {
                        Err(e) => Err(e),
                        Ok(proof_scalars) => Ok(
                            Slot {
                                voting_key,
                                ballot: Some(
                                    Ballot { encrypted_vote, proof_points, proof_scalars },
                                ),
                            },
                        ),
                    },
                }
            },
        },
    }
}

/// What was read of a slot.
pub struct SlotRead {
    pub voting_key: [Felt; AFFINE_POINT_WIDTH],
    pub encrypted_vote: Option<[Felt; AFFINE_POINT_WIDTH]>,
    pub proof_points: Option<[Felt; PROOF_POINTS_WIDTH]>,
    pub proof_scalars: Option<[[u8; 32]; 4]>,
}

impl View for SlotRead {
    type V = Slot;

    open spec fn view(&self) -> Slot {
        Slot {
            voting_key: self.voting_key@,
            ballot: match self.encrypted_vote {
                Some(vote) => Some(
                    Ballot {
                        encrypted_vote: vote@,
                        proof_points: self.proof_points->0@,
                        proof_scalars: spec_scalars_bytes(self.proof_scalars->0),
                    },
                ),
                None => None,
            },
        }
    }
}

impl SlotRead {
    /// Vote, points and scalars are there together or not at all.
    pub open spec fn wf(&self) -> bool {
        &&& self.encrypted_vote is Some <==> self.proof_points is Some
        &&& self.encrypted_vote is Some <==> self.proof_scalars is Some
    }
}

/// Whether every element is zero.
fn all_zero(elements: &Vec<Felt>) -> (r: bool)
    ensures
        r == spec_all_zero(elements@),
{
    let mut i: usize = 0;
    while i < elements.len()
        invariant
            i <= elements.len(),
            forall|j: int| 0 <= j < i ==> (#[trigger] elements@[j]) == Felt::spec_zero(),
        decreases elements.len() - i,
    {
        if elements[i].value != 0 {
            assert(elements@[i as int] != Felt::spec_zero());
            return false;
        }
        i += 1;
    }
    true
}

/// Reads the slot of a voter from `source` from `offset` on.
pub fn read_slot(source: &[u8], offset: usize) -> (r: Result<SlotRead, DeserializationError>)
    requires
        offset <= source.len(),
    ensures
        match spec_read_slot(source@, offset as int) {
            Ok(slot) => r is Ok && r->Ok_0@ == slot && r->Ok_0.wf() && offset + SLOT_BYTES
                <= source.len(),
            Err(e) => r is Err && r->Err_0 == e,
        },
{
    let key = match read_elements(source, offset, AFFINE_POINT_WIDTH) {
        Ok(key) => key,
        Err(e) => { return Err(e); },
    };
    let vote_at = offset + BYTES_PER_AFFINE;
    let vote = match read_elements(source, vote_at, AFFINE_POINT_WIDTH) {
        Ok(vote) => vote,
        Err(e) => { return Err(e); },
    };
    let points_at = vote_at + BYTES_PER_AFFINE;
    if all_zero(&vote) {
        if source.len() - points_at < BYTES_PER_PROOF_POINTS + SCALARS_BYTES {
            return Err(DeserializationError::UnexpectedEOF);
        }
        return Ok(
            SlotRead {
                voting_key: array_of(key.as_slice()),
                encrypted_vote: None,
                proof_points: None,
                proof_scalars: None,
            },
        );
    }
    let points = match read_elements(source, points_at, PROOF_POINTS_WIDTH) {
        Ok(points) => points,
        Err(e) => { return Err(e); },
    };
    let scalars_at = points_at + BYTES_PER_PROOF_POINTS;
    if source.len() - scalars_at < SCALARS_BYTES {
        return Err(DeserializationError::UnexpectedEOF);
    }
    let d1 = match read_byte_array::<32>(source, scalars_at) {
        Ok(scalar) => scalar,
        Err(e) => { return Err(e); },
    };
    let d2 = match read_byte_array::<32>(source, scalars_at + BYTES_PER_SCALAR) {
        Ok(scalar) => scalar,
        Err(e) => { return Err(e); },
    };
    let r1 = match read_byte_array::<32>(source, scalars_at + 2 * BYTES_PER_SCALAR) {
        Ok(scalar) => scalar,
        Err(e) => { return Err(e); },
    };
    let r2 = match read_byte_array::<32>(source, scalars_at + 3 * BYTES_PER_SCALAR) {
        Ok(scalar) => scalar,
        Err(e) => { return Err(e); },
    };
    let proof_scalars = [d1, d2, r1, r2];
    assert(spec_scalars_bytes(proof_scalars) =~= source@.subrange(
        scalars_at as int,
        scalars_at + SCALARS_BYTES,
    ));
    Ok(
        SlotRead {
            voting_key: array_of(key.as_slice()),
            encrypted_vote: Some(array_of(vote.as_slice())),
            proof_points: Some(array_of(points.as_slice())),
            proof_scalars: Some(proof_scalars),
        },
    )
}

/// The first `count` slots that stand in `bytes` from `offset` on, or the
/// error of the first value that cannot be read.
pub open spec fn spec_read_slots(bytes: Seq<u8>, offset: int, count: nat) -> Result<
    Seq<Slot>,
    DeserializationError,
>
    decreases count,
{
    if count == 0 {
        Ok(Seq::empty())
    } else {
        match spec_read_slots(bytes, offset, (count - 1) as nat) {
            Err(e) => Err(e),
            Ok(before) => match spec_read_slot(bytes, offset + SLOT_BYTES * (count - 1)) {
                Err(e) => Err(e),
                Ok(slot) => Ok(before.push(slot)),
            },
        }
    }
}

/// Where the slots cannot be read up to some number, they cannot be read
/// beyond it, for the same reason.
pub proof fn lemma_read_slots_error_stays(bytes: Seq<u8>, offset: int, failed: nat, count: nat)
    requires
        failed <= count,
        spec_read_slots(bytes, offset, failed) is Err,
    ensures
        spec_read_slots(bytes, offset, count) == spec_read_slots(bytes, offset, failed),
    decreases count,
{
    if failed < count {
        lemma_read_slots_error_stays(bytes, offset, failed, (count - 1) as nat);
    }
}

/// The bytes of the first `count` slots.
pub open spec fn spec_slots_bytes(slots: Seq<Slot>, count: nat) -> Seq<u8>
    decreases count,
{
    if count == 0 {
        Seq::empty()
    } else {
        spec_slots_bytes(slots, (count - 1) as nat) + slots[count - 1].spec_bytes()
    }
}

/// The slots that bytes stand for. A number of voters that no casting phase
/// has, fewer than two or no power of two, is refused.
pub open spec fn spec_parse(bytes: Seq<u8>) -> Result<Seq<Slot>, DeserializationError> {
    match spec_read_count(bytes, 0) {
        Err(e) => Err(e),
        Ok(num_voters) => if num_voters < 2 || !spec_is_power_of_two(num_voters as nat) {
            Err(DeserializationError::InvalidValue)
        } else {
            spec_read_slots(bytes, COUNT_BYTES as int, num_voters as nat)
        },
    }
}

impl VoteCollector {
    /// The slot of voter `i`, as plain values.
    pub open spec fn spec_slot(&self, i: int) -> Slot {
        Slot {
            voting_key: self.voting_keys@[i]@,
            ballot: match self.encrypted_votes@[i] {
                Some(vote) => Some(
                    Ballot {
                        encrypted_vote: vote@,
                        proof_points: self.proof_points@[i]->0@,
                        proof_scalars: spec_scalars_bytes(self.proof_scalars@[i]->0),
                    },
                ),
                None => None,
            },
        }
    }

    /// The slots of the voters, as plain values.
    pub open spec fn spec_slots(&self) -> Seq<Slot> {
        Seq::new(self.voting_keys@.len(), |i: int| self.spec_slot(i))
    }

    /// The aggregator can be written: it is well-formed, the number of its
    /// voters is one of a casting phase and fits its four bytes, its
    /// elements are canonical, and no vote is twelve zeros.
    pub open spec fn spec_storable(&self) -> bool {
        &&& self.wf()
        &&& 2 <= self.voting_keys@.len() <= u32::MAX
        &&& spec_is_power_of_two(self.voting_keys@.len())
        &&& forall|i: int| 0 <= i < self.voting_keys@.len() ==> (#[trigger] self.spec_slot(i)).fits()
    }

    /// The bytes of the aggregator.
    pub open spec fn spec_to_bytes(&self) -> Seq<u8> {
        spec_count_bytes(self.voting_keys@.len() as u32) + spec_slots_bytes(
            self.spec_slots(),
            self.voting_keys@.len(),
        )
    }

    /// The aggregator holds the slots that were parsed, and no proof.
    pub open spec fn spec_holds(&self, slots: Seq<Slot>, curve: Curve, rescue: Rescue) -> bool {
        &&& self.wf()
        &&& self.spec_slots() == slots
        &&& self.serialized_proof@.len() == 0
        &&& self.curve == curve
        &&& self.rescue == rescue
    }

    /// Appends the bytes of the aggregator to `target`.
    pub fn write_into(&self, target: &mut Vec<u8>)
        requires
            self.wf(),
            self.voting_keys@.len() <= u32::MAX,
        ensures
            final(target)@ == old(target)@ + self.spec_to_bytes(),
    {
        let n = self.voting_keys.len();
        write_count(target, n as u32);
        let ghost header = target@;
        let mut i: usize = 0;
        assert(target@ =~= header + spec_slots_bytes(self.spec_slots(), 0));
        while i < n
            invariant
                self.wf(),
                n == self.voting_keys@.len(),
                i <= n,
                target@ == header + spec_slots_bytes(self.spec_slots(), i as nat),
            decreases n - i,
        {
            let ghost before = target@;
            write_elements(target, &self.voting_keys[i]);
            match &self.encrypted_votes[i] {
                Some(vote) => {
                    assert(self.proof_points@[i as int] is Some);
                    assert(self.proof_scalars@[i as int] is Some);
                    write_elements(target, vote);
                    match &self.proof_points[i] {
                        Some(points) => { write_elements(target, points); },
                        None => {},
                    }
                    match &self.proof_scalars[i] {
                        Some(scalars) => {
                            write_bytes(target, &scalars[0]);
                            write_bytes(target, &scalars[1]);
                            write_bytes(target, &scalars[2]);
                            write_bytes(target, &scalars[3]);
                        },
                        None => {},
                    }
                },
                None => {
                    let zeros = [0u8;608];
                    write_bytes(target, &zeros);
                    assert(zeros@ =~= spec_zero_bytes((SLOT_BYTES - BYTES_PER_AFFINE) as nat));
                },
            }
            proof {
                assert(self.spec_slots()[i as int] == self.spec_slot(i as int));
                assert(target@ =~= before + self.spec_slot(i as int).spec_bytes());
            }
            i += 1;
        }
        assert(target@ =~= old(target)@ + self.spec_to_bytes());
    }

    /// The bytes of the aggregator.
    pub fn to_bytes(&self) -> (r: Vec<u8>)
        requires
            self.wf(),
            self.voting_keys@.len() <= u32::MAX,
        ensures
            r@ == self.spec_to_bytes(),
    {
        let mut target: Vec<u8> = Vec::new();
        self.write_into(&mut target);
        assert(target@ =~= self.spec_to_bytes());
        target
    }

    /// Reads an aggregator from the start of `source`. The bytes do not say
    /// on which curve and with which hash the votes were checked: the
    /// caller does.
    pub fn from_bytes(source: &[u8], curve: Curve, rescue: Rescue) -> (r: Result<
        VoteCollector,
        DeserializationError,
    >)
        ensures
            match spec_parse(source@) {
                Ok(slots) => r is Ok && r->Ok_0.spec_holds(slots, curve, rescue),
                Err(e) => r is Err && r->Err_0 == e,
            },
    {
        let num_voters = match read_count(source, 0) {
            Ok(count) => count as usize,
            Err(e) => { return Err(e); },
        };
        if num_voters < 2 || !is_power_of_two(num_voters) {
            return Err(DeserializationError::InvalidValue);
        }
        let mut voting_keys: Vec<[Felt; AFFINE_POINT_WIDTH]> = Vec::new();
        let mut encrypted_votes: Vec<Option<[Felt; AFFINE_POINT_WIDTH]>> = Vec::new();
        let mut proof_points: Vec<Option<[Felt; PROOF_POINTS_WIDTH]>> = Vec::new();
        let mut proof_scalars: Vec<Option<[[u8; 32]; 4]>> = Vec::new();
        let mut num_valid_votes: usize = 0;
        let ghost mut slots: Seq<Slot> = Seq::empty();
        let mut offset: usize = COUNT_BYTES;
        let mut k: usize = 0;
        while k < num_voters
            invariant
                spec_read_count(source@, 0) is Ok,
                spec_read_count(source@, 0)->Ok_0 == num_voters,
                num_voters >= 2,
                spec_is_power_of_two(num_voters as nat),
                k <= num_voters,
                offset == COUNT_BYTES + SLOT_BYTES * k,
                offset <= source.len(),
                voting_keys@.len() == k,
                encrypted_votes@.len() == k,
                proof_points@.len() == k,
                proof_scalars@.len() == k,
                slots.len() == k,
                forall|i: int|
                    0 <= i < k ==> (#[trigger] slots[i]) == (SlotRead {
                        voting_key: voting_keys@[i],
                        encrypted_vote: encrypted_votes@[i],
                        proof_points: proof_points@[i],
                        proof_scalars: proof_scalars@[i],
                    })@,
                forall|i: int|
                    0 <= i < k ==> ((#[trigger] encrypted_votes@[i]) is Some <==> proof_points@[i] is Some)
                        && (encrypted_votes@[i] is Some <==> proof_scalars@[i] is Some),
                num_valid_votes == spec_num_votes(encrypted_votes@, k as nat),
                num_valid_votes <= k,
                spec_read_slots(source@, COUNT_BYTES as int, k as nat) == Ok::<
                    Seq<Slot>,
                    DeserializationError,
                >(slots),
            decreases num_voters - k,
        {
            proof {
                assert(spec_read_slots(source@, COUNT_BYTES as int, (k + 1) as nat)
                    == match spec_read_slot(source@, offset as int) {
                    Err(e) => Err::<Seq<Slot>, DeserializationError>(e),
                    Ok(slot) => Ok(slots.push(slot)),
                });
            }
            let slot = match read_slot(source, offset) {
                Ok(slot) => slot,
                Err(e) => {
                    proof {
                        lemma_read_slots_error_stays(
                            source@,
                            COUNT_BYTES as int,
                            (k + 1) as nat,
                            num_voters as nat,
                        );
                    }
                    return Err(e);
                },
            };
            let ghost votes_before = encrypted_votes@;
            offset = offset + SLOT_BYTES;
            if slot.encrypted_vote.is_some() {
                num_valid_votes = num_valid_votes + 1;
            }
            voting_keys.push(slot.voting_key);
            encrypted_votes.push(slot.encrypted_vote);
            proof_points.push(slot.proof_points);
            proof_scalars.push(slot.proof_scalars);
            proof {
                slots = slots.push(slot@);
                lemma_num_votes_prefix(votes_before, encrypted_votes@, k as nat);
            }
            k += 1;
        }
        let blinding_keys = VoteCollector::compute_blinding_keys(&voting_keys, &curve);
        let collector = VoteCollector {
            voting_keys,
            blinding_keys,
            encrypted_votes,
            proof_points,
            proof_scalars,
            num_valid_votes,
            serialized_proof: Vec::new(),
            curve,
            rescue,
        };
        assert(collector.spec_slots() =~= slots);
        Ok(collector)
    }
}

// LAWS
// ================================================================================================

/// The bytes of zeros are zero bytes.
proof fn lemma_zero_elements_bytes(n: nat)
    ensures
        spec_elements_bytes(Seq::new(n, |i: int| Felt::spec_zero())) == spec_zero_bytes(
            ELEMENT_BYTES as nat * n,
        ),
    decreases n,
{
    let zeros = Seq::new(n, |i: int| Felt::spec_zero());
    if n == 0 {
        assert(spec_elements_bytes(zeros) =~= spec_zero_bytes(0));
    } else {
        lemma_zero_elements_bytes((n - 1) as nat);
        assert(zeros.drop_last() =~= Seq::new((n - 1) as nat, |i: int| Felt::spec_zero()));
        let word = vstd::bytes::spec_u64_to_le_bytes(0u64);
        assert(word =~= spec_zero_bytes(8)) by {
            vstd::bytes::spec_u64_to_le_bytes_to_open(0u64);
            assert(0u64 & 0xff == 0) by (bit_vector);
            assert((0u64 >> 8) & 0xff == 0) by (bit_vector);
            assert((0u64 >> 16) & 0xff == 0) by (bit_vector);
            assert((0u64 >> 24) & 0xff == 0) by (bit_vector);
            assert((0u64 >> 32) & 0xff == 0) by (bit_vector);
            assert((0u64 >> 40) & 0xff == 0) by (bit_vector);
            assert((0u64 >> 48) & 0xff == 0) by (bit_vector);
            assert((0u64 >> 56) & 0xff == 0) by (bit_vector);
        }
        assert(spec_elements_bytes(zeros) =~= spec_zero_bytes(ELEMENT_BYTES as nat * n));
    }
}

/// A slot that is written and read again is the same slot.
pub proof fn lemma_slot_round_trip(prefix: Seq<u8>, slot: Slot, suffix: Seq<u8>)
    requires
        slot.fits(),
    ensures
        slot.spec_bytes().len() == SLOT_BYTES,
        spec_read_slot(prefix + slot.spec_bytes() + suffix, prefix.len() as int) == Ok::<
            Slot,
            DeserializationError,
        >(slot),
{
    let key = spec_elements_bytes(slot.voting_key);
    let bytes = prefix + slot.spec_bytes() + suffix;
    let vote_at = prefix.len() + BYTES_PER_AFFINE;
    let points_at = vote_at + BYTES_PER_AFFINE;
    let scalars_at = points_at + BYTES_PER_PROOF_POINTS;
    match slot.ballot {
        Some(ballot) => {
            let vote = spec_elements_bytes(ballot.encrypted_vote);
            let points = spec_elements_bytes(ballot.proof_points);
            let scalars = ballot.proof_scalars;
            lemma_elements_round_trip(prefix, slot.voting_key, vote + points + scalars + suffix);
            assert(prefix + key + (vote + points + scalars + suffix) =~= bytes);
            lemma_elements_round_trip(prefix + key, ballot.encrypted_vote, points + scalars + suffix);
            assert(prefix + key + vote + (points + scalars + suffix) =~= bytes);
            lemma_elements_round_trip(prefix + key + vote, ballot.proof_points, scalars + suffix);
            assert(prefix + key + vote + points + (scalars + suffix) =~= bytes);
            assert(bytes.subrange(scalars_at, scalars_at + SCALARS_BYTES) =~= scalars);
        },
        None => {
            let zeros = Seq::new(AFFINE_POINT_WIDTH as nat, |i: int| Felt::spec_zero());
            let rest = spec_zero_bytes((BYTES_PER_PROOF_POINTS + SCALARS_BYTES) as nat);
            lemma_zero_elements_bytes(AFFINE_POINT_WIDTH as nat);
            let vote = spec_elements_bytes(zeros);
            assert(spec_zero_bytes((SLOT_BYTES - BYTES_PER_AFFINE) as nat) =~= vote + rest);
            lemma_elements_round_trip(prefix, slot.voting_key, vote + rest + suffix);
            assert(prefix + key + (vote + rest + suffix) =~= bytes);
            lemma_elements_round_trip(prefix + key, zeros, rest + suffix);
            assert(prefix + key + vote + (rest + suffix) =~= bytes);
        },
    }
}

/// The bytes of the first slots are the first bytes of the slots.
proof fn lemma_slots_bytes_prefix(slots: Seq<Slot>, count: nat, total: nat)
    requires
        count <= total <= slots.len(),
        forall|i: int| 0 <= i < total ==> (#[trigger] slots[i]).fits(),
    ensures
        spec_slots_bytes(slots, total).len() == SLOT_BYTES * total,
        spec_slots_bytes(slots, count).len() == SLOT_BYTES * count,
        spec_slots_bytes(slots, count) == spec_slots_bytes(slots, total).subrange(
            0,
            SLOT_BYTES * count,
        ),
    decreases total,
{
    if total == 0 {
        assert(spec_slots_bytes(slots, count) =~= spec_slots_bytes(slots, total).subrange(
            0,
            SLOT_BYTES * count,
        ));
    } else {
        lemma_slot_round_trip(Seq::empty(), slots[total - 1], Seq::empty());
        if count == total {
            lemma_slots_bytes_prefix(slots, (total - 1) as nat, (total - 1) as nat);
        } else {
            lemma_slots_bytes_prefix(slots, count, (total - 1) as nat);
        }
        assert(spec_slots_bytes(slots, count) =~= spec_slots_bytes(slots, total).subrange(
            0,
            SLOT_BYTES * count,
        ));
    }
}

/// Slots that are written and read again are the same slots.
pub proof fn lemma_slots_round_trip(prefix: Seq<u8>, slots: Seq<Slot>, suffix: Seq<u8>, count: nat)
    requires
        count <= slots.len(),
        forall|i: int| 0 <= i < slots.len() ==> (#[trigger] slots[i]).fits(),
    ensures
        spec_read_slots(
            prefix + spec_slots_bytes(slots, slots.len()) + suffix,
            prefix.len() as int,
            count,
        ) == Ok::<Seq<Slot>, DeserializationError>(slots.take(count as int)),
    decreases count,
{
    let all = spec_slots_bytes(slots, slots.len());
    let bytes = prefix + all + suffix;
    if count == 0 {
        assert(slots.take(0) =~= Seq::<Slot>::empty());
    } else {
        let k = (count - 1) as nat;
        lemma_slots_round_trip(prefix, slots, suffix, k);
        lemma_slots_bytes_prefix(slots, k, slots.len());
        lemma_slots_bytes_prefix(slots, count, slots.len());
        let before = spec_slots_bytes(slots, k);
        let slot = slots[k as int];
        let rest = all.subrange(SLOT_BYTES * count, all.len() as int);
        assert(spec_slots_bytes(slots, count) == before + slot.spec_bytes());
        assert(all =~= before + slot.spec_bytes() + rest);
        lemma_slot_round_trip(prefix + before, slot, rest + suffix);
        assert(prefix + before + slot.spec_bytes() + (rest + suffix) =~= bytes);
        assert(slots.take(count as int) =~= slots.take(k as int).push(slot));
    }
}

/// The bytes of an aggregator that can be written parse as its slots.
pub proof fn lemma_bytes_parse(collector: VoteCollector)
    requires
        collector.spec_storable(),
    ensures
        spec_parse(collector.spec_to_bytes()) == Ok::<Seq<Slot>, DeserializationError>(
            collector.spec_slots(),
        ),
{
    let slots = collector.spec_slots();
    let num_voters = collector.voting_keys@.len();
    let count = spec_count_bytes(num_voters as u32);
    let all = spec_slots_bytes(slots, num_voters);
    let bytes = collector.spec_to_bytes();
    lemma_count_round_trip(Seq::empty(), num_voters as u32, all);
    assert(Seq::<u8>::empty() + count + all =~= bytes);
    lemma_slots_round_trip(count, slots, Seq::empty(), num_voters);
    assert(count + all + Seq::<u8>::empty() =~= bytes);
    assert(slots.take(num_voters as int) =~= slots);
}

/// An aggregator that is written and read again holds the same votes:
/// whatever [`VoteCollector::from_bytes`] gives for the bytes of an
/// aggregator that can be written holds its voting keys, and for each voter
/// the vote, the proof points and the proof scalars that were written, or
/// none where there were none.
pub proof fn lemma_round_trip(collector: VoteCollector, read: VoteCollector, curve: Curve, rescue: Rescue)
    requires
        collector.spec_storable(),
        spec_parse(collector.spec_to_bytes()) matches Ok(slots) && read.spec_holds(
            slots,
            curve,
            rescue,
        ),
    ensures
        read.voting_keys@ == collector.voting_keys@,
        read.encrypted_votes@ == collector.encrypted_votes@,
        read.proof_points@ == collector.proof_points@,
        read.proof_scalars@ == collector.proof_scalars@,
        read.num_valid_votes == collector.num_valid_votes,
{
    lemma_bytes_parse(collector);
    let n = collector.voting_keys@.len() as int;
    assert(read.spec_slots().len() == n);
    assert forall|i: int| 0 <= i < n implies read.voting_keys@[i] == collector.voting_keys@[i]
        && read.encrypted_votes@[i] == collector.encrypted_votes@[i] && read.proof_points@[i]
        == collector.proof_points@[i] && read.proof_scalars@[i] == collector.proof_scalars@[i] by {
        assert(read.spec_slots()[i] == collector.spec_slots()[i]);
        assert(read.spec_slot(i) == collector.spec_slot(i));
        assert(read.voting_keys@[i] =~= collector.voting_keys@[i]);
        assert(read.encrypted_votes@[i] is Some <==> collector.encrypted_votes@[i] is Some);
        if collector.encrypted_votes@[i] is Some {
            let was = collector.spec_slot(i).ballot->0;
            let is = read.spec_slot(i).ballot->0;
            assert(is == was);
            assert(read.encrypted_votes@[i]->0 =~= collector.encrypted_votes@[i]->0);
            assert(read.proof_points@[i]->0 =~= collector.proof_points@[i]->0);
            let a = read.proof_scalars@[i]->0;
            let b = collector.proof_scalars@[i]->0;
            assert(spec_scalars_bytes(a) == spec_scalars_bytes(b));
            assert forall|j: int| 0 <= j < 4 implies a[j] == b[j] by {
                assert forall|m: int| 0 <= m < 32 implies a[j][m] == b[j][m] by {
                    assert(spec_scalars_bytes(a)[32 * j + m] == a[j][m]);
                    assert(spec_scalars_bytes(b)[32 * j + m] == b[j][m]);
                }
                assert(a[j] =~= b[j]);
            }
            assert(a =~= b);
        }
    }
    assert(read.voting_keys@ =~= collector.voting_keys@);
    assert(read.encrypted_votes@ =~= collector.encrypted_votes@);
    assert(read.proof_points@ =~= collector.proof_points@);
    assert(read.proof_scalars@ =~= collector.proof_scalars@);
}

} // verus!

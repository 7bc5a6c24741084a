//! The registrations on their way to a file and back.
//!
//! The bytes of an aggregator are the number of eligible voters (four
//! bytes), the root of their tree (seven elements), the number of
//! registrations (four bytes), and one record for each registration: the
//! voting key (twelve elements), the path (seven elements for each level of
//! the tree), the position of the leaf (eight bytes), the signature (six
//! elements and the 32 bytes of the scalar) and the address (20 bytes).
//! Every number has its least significant byte first.

use crate::aggregator::register::{Registration, VoterRegistar};
use crate::air::array_of;
use crate::ecc::{Curve, AFFINE_POINT_WIDTH, POINT_COORDINATE_WIDTH};
use crate::field::{Felt, ELEMENT_BYTES};
use crate::merkle::constants::MAX_TREE_DEPTH;
use crate::rescue::{Rescue, DIGEST_SIZE};
use crate::wire::{
    lemma_count_round_trip, lemma_elements_round_trip, read_byte_array, read_count, read_elements,
    spec_all_canonical, spec_count_bytes, spec_elements_bytes, spec_read_bytes, spec_read_count,
    spec_read_elements, write_bytes, write_count, write_elements, DeserializationError,
    BYTES_PER_ADDRESS, BYTES_PER_DIGEST, BYTES_PER_SCALAR, COUNT_BYTES,
};
use vstd::bytes::{
    lemma_auto_spec_u64_to_from_le_bytes, spec_u64_from_le_bytes, spec_u64_to_le_bytes,
    u64_from_le_bytes, u64_to_le_bytes,
};
use vstd::prelude::*;

verus! {

/// Number of bytes before the first record.
pub const HEADER_BYTES: usize = 64;

/// Number of bytes of a record, but for its path.
pub const RECORD_BYTES: usize = 204;

/// A registration as plain values.
pub struct Record {
    pub voting_key: Seq<Felt>,
    pub merkle_branch: Seq<Felt>,
    pub hash_index: usize,
    pub signature_r: Seq<Felt>,
    pub signature_s: Seq<u8>,
    pub address: Seq<u8>,
}

impl View for Registration {
    type V = Record;

    open spec fn view(&self) -> Record {
        Record {
            voting_key: self.voting_key@,
            merkle_branch: self.merkle_branch@,
            hash_index: self.hash_index,
            signature_r: self.signature.0@,
            signature_s: self.signature.1@,
            address: self.address@,
        }
    }
}

/// Number of bytes of a record of a tree of `depth` levels.
pub open spec fn spec_record_len(depth: nat) -> nat {
    RECORD_BYTES as nat + BYTES_PER_DIGEST as nat * depth
}

impl Record {
    /// The record has the widths of a registration with a tree of `depth`
    /// levels, and every element of it is canonical.
    pub open spec fn fits(self, depth: nat) -> bool {
        &&& self.voting_key.len() == AFFINE_POINT_WIDTH
        &&& self.merkle_branch.len() == DIGEST_SIZE * depth
        &&& self.signature_r.len() == POINT_COORDINATE_WIDTH
        &&& self.signature_s.len() == BYTES_PER_SCALAR
        &&& self.address.len() == BYTES_PER_ADDRESS
        &&& spec_all_canonical(self.voting_key)
        &&& spec_all_canonical(self.merkle_branch)
        &&& spec_all_canonical(self.signature_r)
    }

    /// The bytes of the record.
    pub open spec fn spec_bytes(self) -> Seq<u8> {
        spec_elements_bytes(self.voting_key) + spec_elements_bytes(self.merkle_branch)
            + spec_u64_to_le_bytes(self.hash_index as u64) + spec_elements_bytes(self.signature_r)
            + self.signature_s + self.address
    }
}

/// The record that stands in `bytes` from `offset` on, or the error of its
/// first value that cannot be read.
pub open spec fn spec_read_record(bytes: Seq<u8>, offset: int, depth: nat) -> Result<
    Record,
    DeserializationError,
> {
    let branch_at = offset + ELEMENT_BYTES * AFFINE_POINT_WIDTH;
    let index_at = branch_at + BYTES_PER_DIGEST * depth;
    let signature_at = index_at + 8;
    let scalar_at = signature_at + ELEMENT_BYTES * POINT_COORDINATE_WIDTH;
    let address_at = scalar_at + BYTES_PER_SCALAR;
    match spec_read_elements(bytes, offset, AFFINE_POINT_WIDTH as nat) {
        Err(e) => Err(e),
        Ok(voting_key) => match spec_read_elements(bytes, branch_at, DIGEST_SIZE as nat * depth) {
            Err(e) => Err(e),
            Ok(merkle_branch) => match spec_read_bytes(bytes, index_at, 8) {
                Err(e) => Err(e),
                Ok(word) => if spec_u64_from_le_bytes(word) > usize::MAX {
                    Err(DeserializationError::InvalidValue)
                } else {
                    match spec_read_elements(bytes, signature_at, POINT_COORDINATE_WIDTH as nat) {
                        Err(e) => Err(e),
                        Ok(signature_r) => match spec_read_bytes(
                            bytes,
                            scalar_at,
                            BYTES_PER_SCALAR as nat,
                        ) {
                            Err(e) => Err(e),
                            Ok(signature_s) => match spec_read_bytes(
                                bytes,
                                address_at,
                                BYTES_PER_ADDRESS as nat,
                            ) {
                                Err(e) => Err(e),
                                Ok(address) => Ok(
                                    Record {
                                        voting_key,
                                        merkle_branch,
                                        hash_index: spec_u64_from_le_bytes(word) as usize,
                                        signature_r,
                                        signature_s,
                                        address,
                                    },
                                ),
                            },
                        },
                    }
                },
            },
        },
    }
}

/// Reads the record of a registration from `source` from `offset` on.
pub fn read_record(source: &[u8], offset: usize, tree_depth: usize) -> (r: Result<
    Registration,
    DeserializationError,
>)
    requires
        offset <= source.len(),
        tree_depth <= MAX_TREE_DEPTH,
    ensures
        match spec_read_record(source@, offset as int, tree_depth as nat) {
            Ok(record) => r is Ok && r->Ok_0@ == record && offset + spec_record_len(
                tree_depth as nat,
            ) <= source.len(),
            Err(e) => r is Err && r->Err_0 == e,
        },
        r is Ok ==> r->Ok_0.merkle_branch.len() == DIGEST_SIZE * tree_depth,
{
    let key = match read_elements(source, offset, AFFINE_POINT_WIDTH) {
        Ok(key) => key,
        Err(e) => { return Err(e); },
    };
    let branch_at = offset + ELEMENT_BYTES * AFFINE_POINT_WIDTH;
    let merkle_branch = match read_elements(source, branch_at, DIGEST_SIZE * tree_depth) {
        Ok(branch) => branch,
        Err(e) => { return Err(e); },
    };
    let index_at = branch_at + BYTES_PER_DIGEST * tree_depth;
    let word = match read_byte_array::<8>(source, index_at) {
        Ok(word) => u64_from_le_bytes(word.as_slice()),
        Err(e) => { return Err(e); },
    };
    if word > usize::MAX as u64 {
        return Err(DeserializationError::InvalidValue);
    }
    let signature_at = index_at + 8;
    let signature_r = match read_elements(source, signature_at, POINT_COORDINATE_WIDTH) {
        Ok(r) => r,
        Err(e) => { return Err(e); },
    };
    let scalar_at = signature_at + ELEMENT_BYTES * POINT_COORDINATE_WIDTH;
    let signature_s = match read_byte_array::<BYTES_PER_SCALAR>(source, scalar_at) {
        Ok(s) => s,
        Err(e) => { return Err(e); },
    };
    let address_at = scalar_at + BYTES_PER_SCALAR;
    let address = match read_byte_array::<BYTES_PER_ADDRESS>(source, address_at) {
        Ok(address) => address,
        Err(e) => { return Err(e); },
    };
    Ok(
        Registration {
            voting_key: array_of(key.as_slice()),
            merkle_branch,
            hash_index: word as usize,
            signature: (array_of(signature_r.as_slice()), signature_s),
            address,
        },
    )
}

/// The first `count` records that stand in `bytes` from `offset` on, or the
/// error of the first value that cannot be read.
pub open spec fn spec_read_records(bytes: Seq<u8>, offset: int, depth: nat, count: nat) -> Result<
    Seq<Record>,
    DeserializationError,
>
    decreases count,
{
    if count == 0 {
        Ok(Seq::empty())
    } else {
        match spec_read_records(bytes, offset, depth, (count - 1) as nat) {
            Err(e) => Err(e),
            Ok(before) => match spec_read_record(
                bytes,
                offset + spec_record_len(depth) * (count - 1),
                depth,
            ) {
                Err(e) => Err(e),
                Ok(record) => Ok(before.push(record)),
            },
        }
    }
}

/// Where the records cannot be read up to some number, they cannot be read
/// beyond it, for the same reason.
pub proof fn lemma_read_records_error_stays(
    bytes: Seq<u8>,
    offset: int,
    depth: nat,
    failed: nat,
    count: nat,
)
    requires
        failed <= count,
        spec_read_records(bytes, offset, depth, failed) is Err,
    ensures
        spec_read_records(bytes, offset, depth, count) == spec_read_records(
            bytes,
            offset,
            depth,
            failed,
        ),
    decreases count,
{
    if failed < count {
        lemma_read_records_error_stays(bytes, offset, depth, failed, (count - 1) as nat);
    }
}

/// The bytes of the first `count` records.
pub open spec fn spec_records_bytes(records: Seq<Record>, count: nat) -> Seq<u8>
    decreases count,
{
    if count == 0 {
        Seq::empty()
    } else {
        spec_records_bytes(records, (count - 1) as nat) + records[count - 1].spec_bytes()
    }
}

/// What bytes hold of an aggregator: the number of eligible voters, the
/// root, and the records.
pub struct Parsed {
    pub num_elg_voters: u32,
    pub elg_root: Seq<Felt>,
    pub records: Seq<Record>,
}

/// The aggregator that bytes stand for, with a tree of `depth` levels.
pub open spec fn spec_parse(bytes: Seq<u8>, depth: nat) -> Result<Parsed, DeserializationError> {
    match spec_read_count(bytes, 0) {
        Err(e) => Err(e),
        Ok(num_elg_voters) => match spec_read_elements(
            bytes,
            COUNT_BYTES as int,
            DIGEST_SIZE as nat,
        ) {
            Err(e) => Err(e),
            Ok(elg_root) => match spec_read_count(bytes, HEADER_BYTES - COUNT_BYTES) {
                Err(e) => Err(e),
                Ok(num_regs) => match spec_read_records(
                    bytes,
                    HEADER_BYTES as int,
                    depth,
                    num_regs as nat,
                ) {
                    Err(e) => Err(e),
                    Ok(records) => Ok(Parsed { num_elg_voters, elg_root, records }),
                },
            },
        },
    }
}

impl VoterRegistar {
    /// Registration `i`, as plain values.
    pub open spec fn spec_record(&self, i: int) -> Record {
        Record {
            voting_key: self.voting_keys@[i]@,
            merkle_branch: self.merkle_branches@[i]@,
            hash_index: self.hash_indices@[i],
            signature_r: self.signatures@[i].0@,
            signature_s: self.signatures@[i].1@,
            address: self.addresses@[i]@,
        }
    }

    /// The registrations, as plain values.
    pub open spec fn spec_records(&self) -> Seq<Record> {
        Seq::new(self.voting_keys@.len(), |i: int| self.spec_record(i))
    }

    /// The aggregator can be written: it is well-formed, its numbers fit
    /// their four bytes, and its elements are canonical.
    pub open spec fn spec_storable(&self) -> bool {
        &&& self.wf()
        &&& self.num_elg_voters <= u32::MAX
        &&& self.voting_keys@.len() <= u32::MAX
        &&& spec_all_canonical(self.elg_root@)
        &&& forall|i: int|
            0 <= i < self.voting_keys@.len() ==> (#[trigger] self.spec_record(i)).fits(
                self.tree_depth as nat,
            )
    }

    /// The bytes of the aggregator.
    pub open spec fn spec_to_bytes(&self) -> Seq<u8> {
        spec_count_bytes(self.num_elg_voters as u32) + spec_elements_bytes(self.elg_root@)
            + spec_count_bytes(self.voting_keys@.len() as u32) + spec_records_bytes(
            self.spec_records(),
            self.voting_keys@.len(),
        )
    }

    /// The aggregator holds what was parsed, for a tree of `tree_depth`
    /// levels: the registrations are to be proved anew, and no proof is
    /// kept.
    pub open spec fn spec_holds(
        &self,
        parsed: Parsed,
        tree_depth: usize,
        curve: Curve,
        rescue: Rescue,
    ) -> bool {
        &&& self.wf()
        &&& self.num_elg_voters == parsed.num_elg_voters
        &&& self.elg_root@ == parsed.elg_root
        &&& self.spec_records() == parsed.records
        &&& self.dirty_flag == (parsed.records.len() > 0)
        &&& self.serialized_proof@.len() == 0
        &&& self.tree_depth == tree_depth
        &&& self.curve == curve
        &&& self.rescue == rescue
    }

    /// Appends the bytes of the aggregator to `target`.
    pub fn write_into(&self, target: &mut Vec<u8>)
        requires
            self.wf(),
            self.num_elg_voters <= u32::MAX,
            self.voting_keys@.len() <= u32::MAX,
        ensures
            final(target)@ == old(target)@ + self.spec_to_bytes(),
    {
        let n = self.voting_keys.len();
        write_count(target, self.num_elg_voters as u32);
        write_elements(target, &self.elg_root);
        write_count(target, n as u32);
        let ghost header = target@;
        let mut i: usize = 0;
        assert(target@ =~= header + spec_records_bytes(self.spec_records(), 0));
        while i < n
            invariant
                self.wf(),
                n == self.voting_keys@.len(),
                i <= n,
                target@ == header + spec_records_bytes(self.spec_records(), i as nat),
            decreases n - i,
        {
            let ghost before = target@;
            write_elements(target, &self.voting_keys[i]);
            write_elements(target, self.merkle_branches[i].as_slice());
            let word = u64_to_le_bytes(self.hash_indices[i] as u64);
            write_bytes(target, word.as_slice());
            write_elements(target, &self.signatures[i].0);
            write_bytes(target, &self.signatures[i].1);
            write_bytes(target, &self.addresses[i]);
            proof {
                assert(self.spec_records()[i as int] == self.spec_record(i as int));
                assert(target@ =~= before + self.spec_record(i as int).spec_bytes());
            }
            i += 1;
        }
        assert(target@ =~= old(target)@ + self.spec_to_bytes());
    }

    /// The bytes of the aggregator.
    pub fn to_bytes(&self) -> (r: Vec<u8>)
        requires
            self.wf(),
            self.num_elg_voters <= u32::MAX,
            self.voting_keys@.len() <= u32::MAX,
        ensures
            r@ == self.spec_to_bytes(),
    {
        let mut target: Vec<u8> = Vec::new();
        self.write_into(&mut target);
        assert(target@ =~= self.spec_to_bytes());
        target
    }

    /// Reads an aggregator from the start of `source`. The bytes do not say
    /// how deep the tree is, nor on which curve and with which hash the
    /// registrations were checked: the caller does.
    pub fn from_bytes(source: &[u8], tree_depth: usize, curve: Curve, rescue: Rescue) -> (r: Result<
        VoterRegistar,
        DeserializationError,
    >)
        requires
            tree_depth <= MAX_TREE_DEPTH,
        ensures
            match spec_parse(source@, tree_depth as nat) {
                Ok(parsed) => r is Ok && r->Ok_0.spec_holds(parsed, tree_depth, curve, rescue),
                Err(e) => r is Err && r->Err_0 == e,
            },
    {
        let num_elg_voters = match read_count(source, 0) {
            Ok(count) => count as usize,
            Err(e) => { return Err(e); },
        };
        let root = match read_elements(source, COUNT_BYTES, DIGEST_SIZE) {
            Ok(root) => root,
            Err(e) => { return Err(e); },
        };
        let num_regs = match read_count(source, HEADER_BYTES - COUNT_BYTES) {
            Ok(count) => count as usize,
            Err(e) => { return Err(e); },
        };
        let mut registar = VoterRegistar::new(
            array_of(root.as_slice()),
            num_elg_voters,
            tree_depth,
            curve,
            rescue,
        );
        let ghost depth = tree_depth as nat;
        let mut offset: usize = HEADER_BYTES;
        let mut k: usize = 0;
        assert(registar.spec_records() =~= Seq::<Record>::empty());
        while k < num_regs
            invariant
                tree_depth <= MAX_TREE_DEPTH,
                depth == tree_depth as nat,
                spec_read_count(source@, 0) is Ok,
                spec_read_count(source@, 0)->Ok_0 == num_elg_voters,
                spec_read_elements(source@, COUNT_BYTES as int, DIGEST_SIZE as nat) == Ok::<
                    Seq<Felt>,
                    DeserializationError,
                >(root@),
                spec_read_count(source@, HEADER_BYTES - COUNT_BYTES) is Ok,
                spec_read_count(source@, HEADER_BYTES - COUNT_BYTES)->Ok_0 == num_regs,
                k <= num_regs,
                offset == HEADER_BYTES + spec_record_len(depth) * k,
                offset <= source.len(),
                registar.wf(),
                registar.num_elg_voters == num_elg_voters,
                registar.elg_root@ == root@,
                registar.voting_keys@.len() == k,
                registar.merkle_branches@.len() == k,
                registar.hash_indices@.len() == k,
                registar.signatures@.len() == k,
                registar.addresses@.len() == k,
                registar.serialized_proof@.len() == 0,
                registar.tree_depth == tree_depth,
                registar.curve == curve,
                registar.rescue == rescue,
                spec_read_records(source@, HEADER_BYTES as int, depth, k as nat) == Ok::<
                    Seq<Record>,
                    DeserializationError,
                >(registar.spec_records()),
            decreases num_regs - k,
        {
            proof {
                assert(spec_read_records(source@, HEADER_BYTES as int, depth, (k + 1) as nat)
                    == match spec_read_record(source@, offset as int, depth) {
                    Err(e) => Err::<Seq<Record>, DeserializationError>(e),
                    Ok(record) => Ok(registar.spec_records().push(record)),
                });
            }
            let registration = match read_record(source, offset, tree_depth) {
                Ok(registration) => registration,
                Err(e) => {
                    proof {
                        lemma_read_records_error_stays(
                            source@,
                            HEADER_BYTES as int,
                            depth,
                            (k + 1) as nat,
                            num_regs as nat,
                        );
                    }
                    return Err(e);
                },
            };
            let ghost before = registar.spec_records();
            let ghost branches_before = registar.merkle_branches@;
            let ghost record = registration@;
            proof {
                assert(spec_record_len(depth) * (k + 1) == spec_record_len(depth) * k
                    + spec_record_len(depth)) by (nonlinear_arith);
            }
            offset = offset + (RECORD_BYTES + BYTES_PER_DIGEST * tree_depth);
            registar.voting_keys.push(registration.voting_key);
            registar.merkle_branches.push(registration.merkle_branch);
            registar.hash_indices.push(registration.hash_index);
            registar.signatures.push(registration.signature);
            registar.addresses.push(registration.address);
            proof {
                assert(registar.spec_records() =~= before.push(record));
                assert forall|i: int| 0 <= i < registar.merkle_branches@.len() implies (
                #[trigger] registar.merkle_branches@[i]).len() == tree_depth * DIGEST_SIZE by {
                    if i < k {
                        assert(registar.merkle_branches@[i] == branches_before[i]);
                    }
                }
            }
            k += 1;
        }
        let ghost records = registar.spec_records();
        registar.dirty_flag = num_regs > 0;
        assert(registar.spec_records() =~= records);
        Ok(registar)
    }
}

// LAWS
// ================================================================================================

/// A record that is written and read again is the same record.
pub proof fn lemma_record_round_trip(prefix: Seq<u8>, record: Record, suffix: Seq<u8>, depth: nat)
    requires
        record.fits(depth),
    ensures
        record.spec_bytes().len() == spec_record_len(depth),
        spec_read_record(prefix + record.spec_bytes() + suffix, prefix.len() as int, depth) == Ok::<
            Record,
            DeserializationError,
        >(record),
{
    let key = spec_elements_bytes(record.voting_key);
    let branch = spec_elements_bytes(record.merkle_branch);
    let index = spec_u64_to_le_bytes(record.hash_index as u64);
    let r = spec_elements_bytes(record.signature_r);
    let s = record.signature_s;
    let address = record.address;
    let bytes = prefix + record.spec_bytes() + suffix;
    lemma_auto_spec_u64_to_from_le_bytes();
    lemma_elements_round_trip(prefix, record.voting_key, branch + index + r + s + address + suffix);
    assert(prefix + key + (branch + index + r + s + address + suffix) =~= bytes);
    lemma_elements_round_trip(prefix + key, record.merkle_branch, index + r + s + address + suffix);
    assert(prefix + key + branch + (index + r + s + address + suffix) =~= bytes);
    lemma_elements_round_trip(prefix + key + branch + index, record.signature_r, s + address + suffix);
    assert(prefix + key + branch + index + r + (s + address + suffix) =~= bytes);
    let index_at = prefix.len() + ELEMENT_BYTES * AFFINE_POINT_WIDTH + BYTES_PER_DIGEST * depth;
    assert(bytes.subrange(index_at, index_at + 8) =~= index);
    let scalar_at = index_at + 8 + ELEMENT_BYTES * POINT_COORDINATE_WIDTH;
    assert(bytes.subrange(scalar_at, scalar_at + BYTES_PER_SCALAR) =~= s);
    let address_at = scalar_at + BYTES_PER_SCALAR;
    assert(bytes.subrange(address_at, address_at + BYTES_PER_ADDRESS) =~= address);
}

/// The bytes of the first records are the first bytes of the records.
proof fn lemma_records_bytes_prefix(records: Seq<Record>, count: nat, total: nat, depth: nat)
    requires
        count <= total <= records.len(),
        forall|i: int| 0 <= i < total ==> (#[trigger] records[i]).fits(depth),
    ensures
        spec_records_bytes(records, total).len() == spec_record_len(depth) * total,
        spec_records_bytes(records, count).len() == spec_record_len(depth) * count,
        spec_records_bytes(records, count) == spec_records_bytes(records, total).subrange(
            0,
            (spec_record_len(depth) * count) as int,
        ),
    decreases total,
{
    let len = spec_record_len(depth);
    if total == 0 {
        assert(spec_records_bytes(records, count) =~= spec_records_bytes(records, total).subrange(
            0,
            (len * count) as int,
        ));
    } else {
        let last = records[total - 1];
        lemma_record_round_trip(Seq::empty(), last, Seq::empty(), depth);
        assert(len * total == len * (total - 1) + len) by (nonlinear_arith);
        if count == total {
            lemma_records_bytes_prefix(records, (total - 1) as nat, (total - 1) as nat, depth);
            assert(spec_records_bytes(records, count) =~= spec_records_bytes(
                records,
                total,
            ).subrange(0, (len * count) as int));
        } else {
            lemma_records_bytes_prefix(records, count, (total - 1) as nat, depth);
            assert(len * count <= len * (total - 1)) by (nonlinear_arith)
                requires
                    count <= total - 1,
                    len >= 0,
            ;
            assert(spec_records_bytes(records, count) =~= spec_records_bytes(
                records,
                total,
            ).subrange(0, (len * count) as int));
        }
    }
}

/// Records that are written and read again are the same records.
pub proof fn lemma_records_round_trip(
    prefix: Seq<u8>,
    records: Seq<Record>,
    suffix: Seq<u8>,
    depth: nat,
    count: nat,
)
    requires
        count <= records.len(),
        forall|i: int| 0 <= i < records.len() ==> (#[trigger] records[i]).fits(depth),
    ensures
        spec_read_records(
            prefix + spec_records_bytes(records, records.len()) + suffix,
            prefix.len() as int,
            depth,
            count,
        ) == Ok::<Seq<Record>, DeserializationError>(records.take(count as int)),
    decreases count,
{
    let len = spec_record_len(depth);
    let all = spec_records_bytes(records, records.len());
    let bytes = prefix + all + suffix;
    if count == 0 {
        assert(records.take(0) =~= Seq::<Record>::empty());
    } else {
        let k = (count - 1) as nat;
        lemma_records_round_trip(prefix, records, suffix, depth, k);
        lemma_records_bytes_prefix(records, k, records.len(), depth);
        lemma_records_bytes_prefix(records, count, records.len(), depth);
        let before = spec_records_bytes(records, k);
        let record = records[k as int];
        assert(len * count == len * k + len) by (nonlinear_arith)
            requires
                count == k + 1,
        ;
        assert(len * count <= len * records.len()) by (nonlinear_arith)
            requires
                count <= records.len(),
                len >= 0,
        ;
        let rest = all.subrange((len * count) as int, all.len() as int);
        assert(spec_records_bytes(records, count) == before + record.spec_bytes());
        assert(all =~= before + record.spec_bytes() + rest);
        lemma_record_round_trip(prefix + before, record, rest + suffix, depth);
        assert(prefix + before + record.spec_bytes() + (rest + suffix) =~= bytes);
        assert(records.take(count as int) =~= records.take(k as int).push(record));
    }
}

/// The bytes of an aggregator that can be written parse as what it holds.
pub proof fn lemma_bytes_parse(registar: VoterRegistar)
    requires
        registar.spec_storable(),
    ensures
        spec_parse(registar.spec_to_bytes(), registar.tree_depth as nat) == Ok::<
            Parsed,
            DeserializationError,
        >(
            Parsed {
                num_elg_voters: registar.num_elg_voters as u32,
                elg_root: registar.elg_root@,
                records: registar.spec_records(),
            },
        ),
{
    let depth = registar.tree_depth as nat;
    let records = registar.spec_records();
    let num_regs = registar.voting_keys@.len();
    let elg = spec_count_bytes(registar.num_elg_voters as u32);
    let root = spec_elements_bytes(registar.elg_root@);
    let count = spec_count_bytes(num_regs as u32);
    let all = spec_records_bytes(records, num_regs);
    let bytes = registar.spec_to_bytes();
    lemma_count_round_trip(Seq::empty(), registar.num_elg_voters as u32, root + count + all);
    assert(Seq::<u8>::empty() + elg + (root + count + all) =~= bytes);
    lemma_elements_round_trip(elg, registar.elg_root@, count + all);
    assert(elg + root + (count + all) =~= bytes);
    lemma_count_round_trip(elg + root, num_regs as u32, all);
    lemma_records_round_trip(elg + root + count, records, Seq::empty(), depth, num_regs);
    assert(elg + root + count + all + Seq::<u8>::empty() =~= bytes);
    assert(records.take(num_regs as int) =~= records);
}

/// An aggregator that is written and read again holds the same
/// registrations: whatever [`VoterRegistar::from_bytes`] gives for the
/// bytes of an aggregator that can be written holds its number of eligible
/// voters, its root and its registrations.
pub proof fn lemma_round_trip(registar: VoterRegistar, read: VoterRegistar, curve: Curve, rescue: Rescue)
    requires
        registar.spec_storable(),
        spec_parse(registar.spec_to_bytes(), registar.tree_depth as nat) matches Ok(parsed)
            && read.spec_holds(parsed, registar.tree_depth, curve, rescue),
    ensures
        read.num_elg_voters == registar.num_elg_voters,
        read.elg_root == registar.elg_root,
        read.voting_keys@ == registar.voting_keys@,
        crate::merkle::nodes_view(read.merkle_branches@) == crate::merkle::nodes_view(
            registar.merkle_branches@,
        ),
        read.hash_indices@ == registar.hash_indices@,
        read.signatures@ == registar.signatures@,
        read.addresses@ == registar.addresses@,
        read.dirty_flag == (registar.voting_keys@.len() > 0),
{
    lemma_bytes_parse(registar);
    let n = registar.voting_keys@.len() as int;
    assert(read.elg_root =~= registar.elg_root);
    assert forall|i: int| 0 <= i < n implies read.spec_record(i) == registar.spec_record(i) by {
        assert(read.spec_records()[i] == registar.spec_records()[i]);
    }
    assert forall|i: int| 0 <= i < n implies read.voting_keys@[i] == registar.voting_keys@[i] by {
        assert(read.spec_record(i).voting_key == registar.spec_record(i).voting_key);
        assert(read.voting_keys@[i] =~= registar.voting_keys@[i]);
    }
    assert forall|i: int| 0 <= i < n implies read.merkle_branches@[i]@
        == registar.merkle_branches@[i]@ by {
        assert(read.spec_record(i).merkle_branch == registar.spec_record(i).merkle_branch);
    }
    assert forall|i: int| 0 <= i < n implies read.hash_indices@[i] == registar.hash_indices@[i] by {
        assert(read.spec_record(i).hash_index == registar.spec_record(i).hash_index);
    }
    assert forall|i: int| 0 <= i < n implies read.signatures@[i] == registar.signatures@[i] by {
        assert(read.spec_record(i).signature_r == registar.spec_record(i).signature_r);
        assert(read.spec_record(i).signature_s == registar.spec_record(i).signature_s);
        assert(read.signatures@[i].0 =~= registar.signatures@[i].0);
        assert(read.signatures@[i].1 =~= registar.signatures@[i].1);
    }
    assert forall|i: int| 0 <= i < n implies read.addresses@[i] == registar.addresses@[i] by {
        assert(read.spec_record(i).address == registar.spec_record(i).address);
        assert(read.addresses@[i] =~= registar.addresses@[i]);
    }
    assert(read.spec_records().len() == n);
    assert(read.voting_keys@ =~= registar.voting_keys@);
    assert(crate::merkle::nodes_view(read.merkle_branches@) =~= crate::merkle::nodes_view(
        registar.merkle_branches@,
    ));
    assert(read.hash_indices@ =~= registar.hash_indices@);
    assert(read.signatures@ =~= registar.signatures@);
    assert(read.addresses@ =~= registar.addresses@);
}

} // verus!

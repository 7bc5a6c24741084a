//! The wire layout of the public inputs of the proof of membership: the
//! root, the number of keys, and the keys.

use crate::air::array_of;
use crate::ecc::AFFINE_POINT_WIDTH;
use crate::field::Felt;
use crate::merkle::air::PublicInputs;
use crate::rescue::DIGEST_SIZE;
use crate::wire::{
    lemma_count_round_trip, lemma_elements_round_trip, lemma_flatten_injective, read_count,
    read_elements, read_rows, spec_all_canonical, spec_count_bytes, spec_elements_bytes,
    spec_flatten, spec_read_count, spec_read_elements, write_count, write_elements, write_rows,
    DeserializationError, BYTES_PER_DIGEST, COUNT_BYTES,
};
use vstd::prelude::*;

verus! {

/// What bytes hold of public inputs: the root, the number of keys, and the
/// elements of the keys, one key after the other.
pub struct Parsed {
    pub tree_root: Seq<Felt>,
    pub num_keys: u32,
    pub keys: Seq<Felt>,
}

/// The public inputs that bytes stand for: the seven elements of the root,
/// the number of keys, and the twelve elements of each key.
pub open spec fn spec_parse(bytes: Seq<u8>) -> Result<Parsed, DeserializationError> {
    match spec_read_elements(bytes, 0, DIGEST_SIZE as nat) {
        Err(e) => Err(e),
        Ok(tree_root) => match spec_read_count(bytes, BYTES_PER_DIGEST as int) {
            Err(e) => Err(e),
            Ok(num_keys) => match spec_read_elements(
                bytes,
                BYTES_PER_DIGEST + COUNT_BYTES,
                (num_keys * AFFINE_POINT_WIDTH) as nat,
            ) {
                Err(e) => Err(e),
                Ok(keys) => Ok(Parsed { tree_root, num_keys, keys }),
            },
        },
    }
}

impl PublicInputs {
    /// Every element is canonical, and the number of keys fits its four
    /// bytes.
    pub open spec fn wf(&self) -> bool {
        &&& spec_all_canonical(self.tree_root@)
        &&& spec_all_canonical(spec_flatten(self.voting_keys@))
        &&& self.voting_keys@.len() <= u32::MAX
    }

    /// The bytes of the public inputs.
    pub open spec fn spec_to_bytes(&self) -> Seq<u8> {
        spec_elements_bytes(self.tree_root@) + spec_count_bytes(self.voting_keys@.len() as u32)
            + spec_elements_bytes(spec_flatten(self.voting_keys@))
    }

    /// The public inputs hold what was parsed.
    pub open spec fn spec_holds(&self, parsed: Parsed) -> bool {
        &&& self.tree_root@ == parsed.tree_root
        &&& self.voting_keys@.len() == parsed.num_keys
        &&& spec_flatten(self.voting_keys@) == parsed.keys
    }

    /// What reading `bytes` gives: the public inputs that they stand for,
    /// or the error of the first value that cannot be read.
    pub open spec fn spec_read(bytes: Seq<u8>, r: Result<PublicInputs, DeserializationError>) -> bool {
        match spec_parse(bytes) {
            Ok(parsed) => r is Ok && r->Ok_0.spec_holds(parsed),
            Err(e) => r is Err && r->Err_0 == e,
        }
    }

    /// Appends the bytes of the public inputs to `target`.
    pub fn write_into(&self, target: &mut Vec<u8>)
        requires
            self.voting_keys@.len() <= u32::MAX,
            self.voting_keys@.len() * AFFINE_POINT_WIDTH <= usize::MAX,
        ensures
            final(target)@ == old(target)@ + self.spec_to_bytes(),
    {
        write_elements(target, &self.tree_root);
        write_count(target, self.voting_keys.len() as u32);
        write_rows(target, &self.voting_keys);
        assert(target@ =~= old(target)@ + self.spec_to_bytes());
    }

    /// The bytes of the public inputs.
    pub fn to_bytes(&self) -> (r: Vec<u8>)
        requires
            self.voting_keys@.len() <= u32::MAX,
            self.voting_keys@.len() * AFFINE_POINT_WIDTH <= usize::MAX,
        ensures
            r@ == self.spec_to_bytes(),
    {
        let mut target: Vec<u8> = Vec::new();
        self.write_into(&mut target);
        assert(target@ =~= self.spec_to_bytes());
        target
    }

    /// Reads public inputs from the start of `source`. What follows them is
    /// not looked at.
    pub fn from_bytes(source: &[u8]) -> (r: Result<PublicInputs, DeserializationError>)
        ensures
            PublicInputs::spec_read(source@, r),
    {
        let root = match read_elements(source, 0, DIGEST_SIZE) {
            Ok(root) => root,
            Err(e) => { return Err(e); },
        };
        let num_voters = match read_count(source, BYTES_PER_DIGEST) {
            Ok(count) => count as usize,
            Err(e) => { return Err(e); },
        };
        let voting_keys = match read_rows::<AFFINE_POINT_WIDTH>(
            source,
            BYTES_PER_DIGEST + COUNT_BYTES,
            num_voters,
        ) {
            Ok(keys) => keys,
            Err(e) => { return Err(e); },
        };
        Ok(PublicInputs { tree_root: array_of(root.as_slice()), voting_keys })
    }
}

/// The bytes of well-formed public inputs parse as what they hold.
pub proof fn lemma_bytes_parse(inputs: PublicInputs)
    requires
        inputs.wf(),
    ensures
        spec_parse(inputs.spec_to_bytes()) is Ok,
        inputs.spec_holds(spec_parse(inputs.spec_to_bytes())->Ok_0),
{
    let root = spec_elements_bytes(inputs.tree_root@);
    let count = spec_count_bytes(inputs.voting_keys@.len() as u32);
    let keys = spec_elements_bytes(spec_flatten(inputs.voting_keys@));
    let bytes = inputs.spec_to_bytes();
    lemma_elements_round_trip(Seq::empty(), inputs.tree_root@, count + keys);
    assert(Seq::<u8>::empty() + root + (count + keys) =~= bytes);
    lemma_count_round_trip(root, inputs.voting_keys@.len() as u32, keys);
    lemma_elements_round_trip(root + count, spec_flatten(inputs.voting_keys@), Seq::empty());
    assert(root + count + keys + Seq::<u8>::empty() =~= bytes);
}

/// Public inputs that are written and read again are the same: whatever
/// [`PublicInputs::from_bytes`] gives for the bytes of well-formed public
/// inputs holds the root and the keys that were written.
pub proof fn lemma_round_trip(inputs: PublicInputs, read: Result<PublicInputs, DeserializationError>)
    requires
        inputs.wf(),
        PublicInputs::spec_read(inputs.spec_to_bytes(), read),
    ensures
        read is Ok,
        read->Ok_0.tree_root == inputs.tree_root,
        read->Ok_0.voting_keys@ == inputs.voting_keys@,
{
    lemma_bytes_parse(inputs);
    lemma_flatten_injective(read->Ok_0.voting_keys@, inputs.voting_keys@);
    assert(read->Ok_0.tree_root =~= inputs.tree_root);
}

} // verus!

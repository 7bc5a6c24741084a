//! The wire layout of the public inputs of the proof of valid signatures:
//! the number of voters, the voting keys, the addresses, and the
//! signatures, each as the six elements of its commitment and the 32 bytes
//! of its scalar.

use crate::air::array_of;
use crate::ecc::{AFFINE_POINT_WIDTH, POINT_COORDINATE_WIDTH};
use crate::field::{Felt, ELEMENT_BYTES};
use crate::schnorr::air::PublicInputs;
use crate::schnorr::constants::ADDRESS_BYTES;
use crate::schnorr::Signature;
use crate::wire::{
    byte_rows_view, lemma_byte_rows_injective, lemma_byte_rows_round_trip, lemma_count_round_trip,
    lemma_elements_bytes_len, lemma_elements_round_trip, lemma_flatten_injective, read_byte_array,
    read_byte_rows, read_count, read_elements, read_rows, spec_all_canonical, spec_count_bytes,
    spec_elements_bytes, spec_flatten, spec_flatten_bytes, spec_read_byte_rows, spec_read_bytes,
    spec_read_count, spec_read_elements, write_byte_rows, write_bytes, write_count, write_elements,
    write_rows, DeserializationError, BYTES_PER_SCALAR, BYTES_PER_SIGNATURE, BYTES_PER_VOTING_KEY,
    COUNT_BYTES,
};
use vstd::prelude::*;

verus! {

/// Number of bytes of the commitment of a serialized signature.
pub const BYTES_PER_COMMITMENT: usize = 48;

// SIGNATURES
// ================================================================================================

/// The bytes of a signature.
pub open spec fn spec_signature_bytes(signature: Signature) -> Seq<u8> {
    spec_elements_bytes(signature.0@) + signature.1@
}

/// The bytes of a list of signatures.
pub open spec fn spec_signatures_bytes(signatures: Seq<Signature>) -> Seq<u8>
    decreases signatures.len(),
{
    if signatures.len() == 0 {
        Seq::empty()
    } else {
        spec_signatures_bytes(signatures.drop_last()) + spec_signature_bytes(signatures.last())
    }
}

/// What bytes hold of a signature.
pub type ParsedSignature = (Seq<Felt>, Seq<u8>);

/// The signature that the bytes from `offset` on stand for.
pub open spec fn spec_read_signature(bytes: Seq<u8>, offset: int) -> Result<
    ParsedSignature,
    DeserializationError,
> {
    match spec_read_elements(bytes, offset, POINT_COORDINATE_WIDTH as nat) {
        Err(e) => Err(e),
        Ok(commitment) => match spec_read_bytes(
            bytes,
            offset + BYTES_PER_COMMITMENT,
            BYTES_PER_SCALAR as nat,
        ) {
            Err(e) => Err(e),
            Ok(scalar) => Ok((commitment, scalar)),
        },
    }
}

/// The `count` signatures that the bytes from `offset` on stand for; the
/// error of the first that cannot be read.
pub open spec fn spec_read_signatures(bytes: Seq<u8>, offset: int, count: nat) -> Result<
    Seq<ParsedSignature>,
    DeserializationError,
>
    decreases count,
{
    if count == 0 {
        Ok(Seq::empty())
    } else {
        match spec_read_signatures(bytes, offset, (count - 1) as nat) {
            Err(e) => Err(e),
            Ok(before) => match spec_read_signature(
                bytes,
                offset + BYTES_PER_SIGNATURE * (count - 1),
            ) {
                Err(e) => Err(e),
                Ok(signature) => Ok(before.push(signature)),
            },
        }
    }
}

/// The views of a list of signatures.
pub open spec fn signatures_view(signatures: Seq<Signature>) -> Seq<ParsedSignature> {
    Seq::new(signatures.len(), |k: int| (signatures[k].0@, signatures[k].1@))
}

/// Appends the bytes of a list of signatures to `target`.
pub fn write_signatures(target: &mut Vec<u8>, signatures: &Vec<Signature>)
    ensures
        final(target)@ == old(target)@ + spec_signatures_bytes(signatures@),
{
    let n = signatures.len();
    let mut k: usize = 0;
    assert(signatures@.subrange(0, 0) =~= Seq::<Signature>::empty());
    assert(target@ =~= old(target)@ + spec_signatures_bytes(signatures@.subrange(0, 0)));
    while k < n
        invariant
            n == signatures.len(),
            k <= n,
            target@ == old(target)@ + spec_signatures_bytes(signatures@.subrange(0, k as int)),
        decreases n - k,
    {
        let signature = &signatures[k];
        write_elements(target, &signature.0);
        write_bytes(target, &signature.1);
        proof {
            let prefix = signatures@.subrange(0, k + 1);
            assert(prefix.drop_last() =~= signatures@.subrange(0, k as int));
            assert(prefix.last() == signatures@[k as int]);
            assert(target@ =~= old(target)@ + spec_signatures_bytes(prefix));
        }
        k += 1;
    }
    assert(signatures@.subrange(0, n as int) =~= signatures@);
}

/// Reads `count` signatures from the bytes of `source` from `offset` on.
pub fn read_signatures(source: &[u8], offset: usize, count: usize) -> (r: Result<
    Vec<Signature>,
    DeserializationError,
>)
    requires
        offset <= source.len(),
    ensures
        match spec_read_signatures(source@, offset as int, count as nat) {
            Ok(signatures) => r is Ok && signatures_view(r->Ok_0@) == signatures && offset
                + BYTES_PER_SIGNATURE * count <= source.len(),
            Err(e) => r is Err && r->Err_0 == e,
        },
{
    let mut signatures: Vec<Signature> = Vec::new();
    let mut at: usize = offset;
    let mut k: usize = 0;
    assert(signatures_view(signatures@) =~= Seq::<ParsedSignature>::empty());
    while k < count
        invariant
            k <= count,
            offset <= at <= source.len(),
            at == offset + BYTES_PER_SIGNATURE * k,
            signatures.len() == k,
            spec_read_signatures(source@, offset as int, k as nat) == Ok::<
                Seq<ParsedSignature>,
                DeserializationError,
            >(signatures_view(signatures@)),
        decreases count - k,
    {
        let commitment = match read_elements(source, at, POINT_COORDINATE_WIDTH) {
            Ok(elements) => elements,
            Err(e) => {
                proof {
                    lemma_signature_error_stays(
                        source@,
                        offset as int,
                        (k + 1) as nat,
                        count as nat,
                    );
                }
                return Err(e);
            },
        };
        let scalar = match read_byte_array::<BYTES_PER_SCALAR>(source, at + BYTES_PER_COMMITMENT) {
            Ok(scalar) => scalar,
            Err(e) => {
                proof {
                    lemma_signature_error_stays(
                        source@,
                        offset as int,
                        (k + 1) as nat,
                        count as nat,
                    );
                }
                return Err(e);
            },
        };
        let r_x: [Felt; POINT_COORDINATE_WIDTH] = array_of(commitment.as_slice());
        let ghost before = signatures_view(signatures@);
        signatures.push((r_x, scalar));
        assert(signatures_view(signatures@) =~= before.push((commitment@, scalar@)));
        at += BYTES_PER_SIGNATURE;
        k += 1;
    }
    Ok(signatures)
}

/// Once a signature cannot be read, no longer list can.
pub proof fn lemma_signature_error_stays(bytes: Seq<u8>, offset: int, failed: nat, count: nat)
    requires
        failed <= count,
        spec_read_signatures(bytes, offset, failed) is Err,
    ensures
        spec_read_signatures(bytes, offset, count) == spec_read_signatures(bytes, offset, failed),
    decreases count,
{
    if failed < count {
        lemma_signature_error_stays(bytes, offset, failed, (count - 1) as nat);
    }
}

/// The commitment of every signature is canonical.
pub open spec fn spec_signatures_canonical(signatures: Seq<Signature>) -> bool {
    forall|k: int| 0 <= k < signatures.len() ==> spec_all_canonical((#[trigger] signatures[k]).0@)
}

proof fn lemma_signatures_bytes_len(signatures: Seq<Signature>)
    ensures
        spec_signatures_bytes(signatures).len() == BYTES_PER_SIGNATURE * signatures.len(),
    decreases signatures.len(),
{
    if signatures.len() > 0 {
        lemma_signatures_bytes_len(signatures.drop_last());
        lemma_elements_bytes_len(signatures.last().0@);
    }
}

proof fn lemma_signatures_bytes_index(signatures: Seq<Signature>, i: int)
    requires
        0 <= i < signatures.len(),
    ensures
        spec_signatures_bytes(signatures).len() == BYTES_PER_SIGNATURE * signatures.len(),
        spec_signatures_bytes(signatures).subrange(
            BYTES_PER_SIGNATURE * i,
            BYTES_PER_SIGNATURE * (i + 1),
        ) == spec_signature_bytes(signatures[i]),
    decreases signatures.len(),
{
    lemma_signatures_bytes_len(signatures);
    lemma_signatures_bytes_len(signatures.drop_last());
    lemma_elements_bytes_len(signatures.last().0@);
    let all = spec_signatures_bytes(signatures);
    if i == signatures.len() - 1 {
        assert(all.subrange(BYTES_PER_SIGNATURE * i, BYTES_PER_SIGNATURE * (i + 1))
            =~= spec_signature_bytes(signatures.last()));
    } else {
        lemma_signatures_bytes_index(signatures.drop_last(), i);
        assert(all.subrange(BYTES_PER_SIGNATURE * i, BYTES_PER_SIGNATURE * (i + 1))
            =~= spec_signatures_bytes(signatures.drop_last()).subrange(
            BYTES_PER_SIGNATURE * i,
            BYTES_PER_SIGNATURE * (i + 1),
        ));
    }
}

proof fn lemma_signatures_read_prefix(
    prefix: Seq<u8>,
    signatures: Seq<Signature>,
    suffix: Seq<u8>,
    count: nat,
)
    requires
        spec_signatures_canonical(signatures),
        count <= signatures.len(),
    ensures
        spec_read_signatures(
            prefix + spec_signatures_bytes(signatures) + suffix,
            prefix.len() as int,
            count,
        ) == Ok::<Seq<ParsedSignature>, DeserializationError>(
            signatures_view(signatures).subrange(0, count as int),
        ),
    decreases count,
{
    let bytes = prefix + spec_signatures_bytes(signatures) + suffix;
    if count == 0 {
        assert(signatures_view(signatures).subrange(0, 0) =~= Seq::<ParsedSignature>::empty());
    } else {
        let i = (count - 1) as int;
        lemma_signatures_read_prefix(prefix, signatures, suffix, (count - 1) as nat);
        lemma_signatures_bytes_index(signatures, i);
        let signature = signatures[i];
        let at = prefix.len() + BYTES_PER_SIGNATURE * i;
        let record = spec_signature_bytes(signature);
        lemma_elements_bytes_len(signature.0@);
        assert(bytes.subrange(at, at + BYTES_PER_SIGNATURE) =~= record);
        assert(signature.1@.len() == BYTES_PER_SCALAR);
        assert(record.subrange(0, BYTES_PER_COMMITMENT as int) =~= spec_elements_bytes(
            signature.0@,
        ));
        assert(record.subrange(BYTES_PER_COMMITMENT as int, BYTES_PER_SIGNATURE as int)
            =~= signature.1@);
        assert(bytes.subrange(at, at + BYTES_PER_COMMITMENT) =~= record.subrange(
            0,
            BYTES_PER_COMMITMENT as int,
        ));
        assert(bytes.subrange(at + BYTES_PER_COMMITMENT, at + BYTES_PER_SIGNATURE)
            =~= record.subrange(BYTES_PER_COMMITMENT as int, BYTES_PER_SIGNATURE as int));
        // the record is read as the signature that it was written from
        let before = bytes.subrange(0, at);
        let after = bytes.subrange(at + BYTES_PER_COMMITMENT, bytes.len() as int);
        lemma_elements_round_trip(before, signature.0@, after);
        assert(before + spec_elements_bytes(signature.0@) + after =~= bytes);
        assert(bytes.subrange(at + BYTES_PER_COMMITMENT, at + BYTES_PER_SIGNATURE)
            =~= signature.1@);
        assert(signatures_view(signatures).subrange(0, i).push((signature.0@, signature.1@))
            =~= signatures_view(signatures).subrange(0, count as int));
    }
}

/// Reading the bytes of a list of signatures with canonical commitments
/// gives the list back, whatever stands before and behind them.
pub proof fn lemma_signatures_round_trip(
    prefix: Seq<u8>,
    signatures: Seq<Signature>,
    suffix: Seq<u8>,
)
    requires
        spec_signatures_canonical(signatures),
    ensures
        spec_signatures_bytes(signatures).len() == BYTES_PER_SIGNATURE * signatures.len(),
        spec_read_signatures(
            prefix + spec_signatures_bytes(signatures) + suffix,
            prefix.len() as int,
            signatures.len(),
        ) == Ok::<Seq<ParsedSignature>, DeserializationError>(signatures_view(signatures)),
{
    lemma_signatures_bytes_len(signatures);
    lemma_signatures_read_prefix(prefix, signatures, suffix, signatures.len());
    assert(signatures_view(signatures).subrange(0, signatures.len() as int) =~= signatures_view(
        signatures,
    ));
}

/// Two lists of signatures with the same views are the same list.
pub proof fn lemma_signatures_injective(a: Seq<Signature>, b: Seq<Signature>)
    requires
        signatures_view(a) == signatures_view(b),
    ensures
        a == b,
{
    assert(a.len() == signatures_view(a).len());
    assert(b.len() == signatures_view(b).len());
    assert forall|k: int| 0 <= k < a.len() implies a[k] == b[k] by {
        assert(signatures_view(a)[k] == (a[k].0@, a[k].1@));
        assert(signatures_view(b)[k] == (b[k].0@, b[k].1@));
        assert(a[k].0 =~= b[k].0);
        assert(a[k].1 =~= b[k].1);
    }
    assert(a =~= b);
}

// PUBLIC INPUTS
// ================================================================================================

/// What bytes hold of public inputs.
pub struct Parsed {
    pub num_voters: u32,
    pub voting_keys: Seq<Felt>,
    pub addresses: Seq<Seq<u8>>,
    pub signatures: Seq<ParsedSignature>,
}

/// The public inputs that bytes stand for: the number of voters, the keys,
/// the addresses and the signatures.
pub open spec fn spec_parse(bytes: Seq<u8>) -> Result<Parsed, DeserializationError> {
    match spec_read_count(bytes, 0) {
        Err(e) => Err(e),
        Ok(num_voters) => match spec_read_elements(
            bytes,
            COUNT_BYTES as int,
            (num_voters * AFFINE_POINT_WIDTH) as nat,
        ) {
            Err(e) => Err(e),
            Ok(voting_keys) => match spec_read_byte_rows::<ADDRESS_BYTES>(
                bytes,
                COUNT_BYTES + BYTES_PER_VOTING_KEY * num_voters,
                num_voters as nat,
            ) {
                Err(e) => Err(e),
                Ok(addresses) => match spec_read_signatures(
                    bytes,
                    COUNT_BYTES + (BYTES_PER_VOTING_KEY + ADDRESS_BYTES) * num_voters,
                    num_voters as nat,
                ) {
                    Err(e) => Err(e),
                    Ok(signatures) => Ok(Parsed { num_voters, voting_keys, addresses, signatures }),
                },
            },
        },
    }
}

impl PublicInputs {
    /// There is one address and one signature for each key, every element
    /// is canonical, and the number of voters fits its four bytes.
    pub open spec fn wf(&self) -> bool {
        &&& self.addresses@.len() == self.voting_keys@.len()
        &&& self.signatures@.len() == self.voting_keys@.len()
        &&& spec_all_canonical(spec_flatten(self.voting_keys@))
        &&& spec_signatures_canonical(self.signatures@)
        &&& self.voting_keys@.len() <= u32::MAX
    }

    /// The bytes of the public inputs.
    pub open spec fn spec_to_bytes(&self) -> Seq<u8> {
        spec_count_bytes(self.voting_keys@.len() as u32) + spec_elements_bytes(
            spec_flatten(self.voting_keys@),
        ) + spec_flatten_bytes(self.addresses@) + spec_signatures_bytes(self.signatures@)
    }

    /// The public inputs hold what was parsed.
    pub open spec fn spec_holds(&self, parsed: Parsed) -> bool {
        &&& self.voting_keys@.len() == parsed.num_voters
        &&& spec_flatten(self.voting_keys@) == parsed.voting_keys
        &&& byte_rows_view(self.addresses@) == parsed.addresses
        &&& signatures_view(self.signatures@) == parsed.signatures
    }

    /// What reading `bytes` gives: the public inputs that they stand for,
    /// or the error of the first value that cannot be read.
    pub open spec fn spec_read(bytes: Seq<u8>, r: Result<PublicInputs, DeserializationError>) -> bool {
        match spec_parse(bytes) {
            Ok(parsed) => r is Ok && r->Ok_0.spec_holds(parsed),
            Err(e) => r is Err && r->Err_0 == e,
        }
    }

    /// Appends the bytes of the public inputs to `target`.
    pub fn write_into(&self, target: &mut Vec<u8>)
        requires
            self.voting_keys@.len() <= u32::MAX,
            self.voting_keys@.len() * AFFINE_POINT_WIDTH <= usize::MAX,
        ensures
            final(target)@ == old(target)@ + self.spec_to_bytes(),
    {
        write_count(target, self.voting_keys.len() as u32);
        write_rows(target, &self.voting_keys);
        write_byte_rows(target, &self.addresses);
        write_signatures(target, &self.signatures);
        assert(target@ =~= old(target)@ + self.spec_to_bytes());
    }

    /// The bytes of the public inputs.
    pub fn to_bytes(&self) -> (r: Vec<u8>)
        requires
            self.voting_keys@.len() <= u32::MAX,
            self.voting_keys@.len() * AFFINE_POINT_WIDTH <= usize::MAX,
        ensures
            r@ == self.spec_to_bytes(),
    {
        let mut target: Vec<u8> = Vec::new();
        self.write_into(&mut target);
        assert(target@ =~= self.spec_to_bytes());
        target
    }

    /// Reads public inputs from the start of `source`. What follows them is
    /// not looked at.
    pub fn from_bytes(source: &[u8]) -> (r: Result<PublicInputs, DeserializationError>)
        ensures
            PublicInputs::spec_read(source@, r),
    {
        let num_voters = match read_count(source, 0) {
            Ok(count) => count as usize,
            Err(e) => { return Err(e); },
        };
        let voting_keys = match read_rows::<AFFINE_POINT_WIDTH>(source, COUNT_BYTES, num_voters) {
            Ok(keys) => keys,
            Err(e) => { return Err(e); },
        };
        let at = COUNT_BYTES + BYTES_PER_VOTING_KEY * num_voters;
        let addresses = match read_byte_rows::<ADDRESS_BYTES>(source, at, num_voters) {
            Ok(addresses) => addresses,
            Err(e) => { return Err(e); },
        };
        let at = at + ADDRESS_BYTES * num_voters;
        let signatures = match read_signatures(source, at, num_voters) {
            Ok(signatures) => signatures,
            Err(e) => { return Err(e); },
        };
        Ok(PublicInputs { voting_keys, addresses, signatures })
    }
}

/// The bytes of well-formed public inputs parse as what they hold.
pub proof fn lemma_bytes_parse(inputs: PublicInputs)
    requires
        inputs.wf(),
    ensures
        spec_parse(inputs.spec_to_bytes()) is Ok,
        inputs.spec_holds(spec_parse(inputs.spec_to_bytes())->Ok_0),
{
    let n = inputs.voting_keys@.len();
    let count = spec_count_bytes(n as u32);
    let keys = spec_elements_bytes(spec_flatten(inputs.voting_keys@));
    let addresses = spec_flatten_bytes(inputs.addresses@);
    let signatures = spec_signatures_bytes(inputs.signatures@);
    let bytes = inputs.spec_to_bytes();
    lemma_count_round_trip(Seq::empty(), n as u32, keys + addresses + signatures);
    assert(Seq::<u8>::empty() + count + (keys + addresses + signatures) =~= bytes);
    lemma_elements_round_trip(count, spec_flatten(inputs.voting_keys@), addresses + signatures);
    assert(count + keys + (addresses + signatures) =~= bytes);
    lemma_byte_rows_round_trip(count + keys, inputs.addresses@, signatures);
    assert(count + keys + addresses + signatures =~= bytes);
    lemma_signatures_round_trip(count + keys + addresses, inputs.signatures@, Seq::empty());
    assert(count + keys + addresses + signatures + Seq::<u8>::empty() =~= bytes);
    assert(n * AFFINE_POINT_WIDTH * ELEMENT_BYTES == BYTES_PER_VOTING_KEY * n);
}

/// Public inputs that are written and read again are the same: whatever
/// [`PublicInputs::from_bytes`] gives for the bytes of well-formed public
/// inputs holds the keys, the addresses and the signatures that were
/// written.
pub proof fn lemma_round_trip(inputs: PublicInputs, read: Result<PublicInputs, DeserializationError>)
    requires
        inputs.wf(),
        PublicInputs::spec_read(inputs.spec_to_bytes(), read),
    ensures
        read is Ok,
        read->Ok_0.voting_keys@ == inputs.voting_keys@,
        read->Ok_0.addresses@ == inputs.addresses@,
        read->Ok_0.signatures@ == inputs.signatures@,
{
    lemma_bytes_parse(inputs);
    lemma_flatten_injective(read->Ok_0.voting_keys@, inputs.voting_keys@);
    lemma_byte_rows_injective(read->Ok_0.addresses@, inputs.addresses@);
    lemma_signatures_injective(read->Ok_0.signatures@, inputs.signatures@);
}

} // verus!

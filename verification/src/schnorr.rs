//! The proof that a voter signed the registration of a voting key.
//!
//! A signature of the key `pk` on a message is a pair `(r_x, s)` with
//! `r_x` the `x` of `s * G + h * pk`, where `h` is the hash of `r_x` and the
//! message. The message binds the voting key to the address of the voter.

pub mod air;
pub mod completeness;
pub mod constants;
pub mod inputs;
pub mod prover;
pub mod trace;

use crate::constraint::{spec_write_range, write_range, zeros};
use crate::ecc::{
    Affine, Curve, Projective, AFFINE_POINT_WIDTH, POINT_COORDINATE_WIDTH,
};
use crate::field::Felt;
use crate::merkle::elements_equal;
use crate::rescue::{
    digest, digest_bytes, merge, spec_digest, spec_digest_bytes, spec_merge, Rescue, DIGEST_SIZE,
    RATE_WIDTH,
};
use crate::schnorr::constants::{MSG_LENGTH, NUM_HASH_ITER};
use vstd::prelude::*;

verus! {

/// A signature: the `x` of the commitment, and the scalar `s` as its bytes.
pub type Signature = ([Felt; POINT_COORDINATE_WIDTH], [u8; 32]);

/// Element `k` of an address: five of its bytes, most significant first, in
/// the five upper bytes of a 64-bit word.
pub open spec fn spec_address_element(address: Seq<u8>, k: int) -> Felt {
    Felt::spec_new(
        ((address[5 * k] as u64) << 56 | (address[5 * k + 1] as u64) << 48 | (address[5 * k
            + 2] as u64) << 40 | (address[5 * k + 3] as u64) << 32 | (address[5 * k + 4] as u64)
            << 24) as u64,
    )
}

/// The message that a voter signs: the voting key, the address in four
/// elements, and zeros.
pub open spec fn spec_prepare_message(voting_key: Seq<Felt>, address: Seq<u8>) -> Seq<Felt> {
    Seq::new(
        MSG_LENGTH as nat,
        |i: int|
            if i < AFFINE_POINT_WIDTH {
                voting_key[i]
            } else if i < AFFINE_POINT_WIDTH + 4 {
                spec_address_element(address, i - AFFINE_POINT_WIDTH)
            } else {
                Felt::spec_zero()
            },
    )
}

fn address_element(address: &[u8; 20], k: usize) -> (r: Felt)
    requires
        k < 4,
    ensures
        r == spec_address_element(address@, k as int),
{
    let word: u64 = (address[5 * k] as u64) << 56 | (address[5 * k + 1] as u64) << 48 | (address[5
        * k + 2] as u64) << 40 | (address[5 * k + 3] as u64) << 32 | (address[5 * k + 4] as u64)
        << 24;
    Felt::new(word)
}

/// Puts the message together that binds a voting key to an address.
pub fn prepare_message(voting_key: &[Felt; AFFINE_POINT_WIDTH], address: &[u8; 20]) -> (r: Vec<
    Felt,
>)
    ensures
        r@ == spec_prepare_message(voting_key@, address@),
        r.len() == MSG_LENGTH,
{
    let mut message = zeros(MSG_LENGTH);
    write_range(message.as_mut_slice(), 0, voting_key);
    message[AFFINE_POINT_WIDTH] = address_element(address, 0);
    message[AFFINE_POINT_WIDTH + 1] = address_element(address, 1);
    message[AFFINE_POINT_WIDTH + 2] = address_element(address, 2);
    message[AFFINE_POINT_WIDTH + 3] = address_element(address, 3);
    proof {
        reveal(spec_write_range);
    }
    assert(message@ =~= spec_prepare_message(voting_key@, address@));
    message
}

/// The message of each voter.
pub fn prepare_messages(
    voting_keys: &Vec<[Felt; AFFINE_POINT_WIDTH]>,
    addresses: &Vec<[u8; 20]>,
) -> (r: Vec<Vec<Felt>>)
    requires
        addresses.len() == voting_keys.len(),
    ensures
        r.len() == voting_keys.len(),
        forall|i: int|
            0 <= i < r.len() ==> (#[trigger] r@[i])@ == spec_prepare_message(
                voting_keys@[i]@,
                addresses@[i]@,
            ),
{
    let mut messages: Vec<Vec<Felt>> = Vec::with_capacity(voting_keys.len());
    let mut i: usize = 0;
    while i < voting_keys.len()
        invariant
            addresses.len() == voting_keys.len(),
            i <= voting_keys.len(),
            messages.len() == i,
            forall|j: int|
                0 <= j < i ==> (#[trigger] messages@[j])@ == spec_prepare_message(
                    voting_keys@[j]@,
                    addresses@[j]@,
                ),
        decreases voting_keys.len() - i,
    {
        messages.push(prepare_message(&voting_keys[i], &addresses[i]));
        i += 1;
    }
    messages
}

/// The digest of `input` merged with the first `k` chunks of a message.
pub open spec fn spec_hash_chain(input: Seq<Felt>, message: Seq<Felt>, k: nat, rescue: Rescue) -> Seq<
    Felt,
>
    decreases k,
{
    if k == 0 {
        spec_digest(input, rescue)
    } else {
        spec_merge(
            spec_hash_chain(input, message, (k - 1) as nat, rescue),
            message.subrange(RATE_WIDTH * (k - 1), RATE_WIDTH * k),
            rescue,
        )
    }
}

/// The hash of a commitment and a message.
pub open spec fn spec_hash_message(input: Seq<Felt>, message: Seq<Felt>, rescue: Rescue) -> Seq<
    Felt,
> {
    spec_hash_chain(input, message, (NUM_HASH_ITER - 1) as nat, rescue)
}

/// Hashes the `x` of a commitment and a message: the digest of the first,
/// merged with each of the four chunks of the second.
pub fn hash_message(input: &[Felt], message: &[Felt], rescue: &Rescue) -> (r: Vec<Felt>)
    requires
        message.len() == MSG_LENGTH,
    ensures
        r@ == spec_hash_message(input@, message@, *rescue),
        r.len() == DIGEST_SIZE,
{
    let mut h = digest(input, rescue);
    let mut k: usize = 0;
    while k < NUM_HASH_ITER - 1
        invariant
            message.len() == MSG_LENGTH,
            k <= NUM_HASH_ITER - 1,
            h.len() == DIGEST_SIZE,
            h@ == spec_hash_chain(input@, message@, k as nat, *rescue),
        decreases NUM_HASH_ITER - 1 - k,
    {
        h = merge(h.as_slice(), &message[RATE_WIDTH * k..RATE_WIDTH * (k + 1)], rescue);
        k += 1;
    }
    h
}

/// The signature is valid: `r_x` is the `x` of `s * G + h * pk`.
pub open spec fn spec_verify_signature(
    voting_key: Seq<Felt>,
    address: Seq<u8>,
    signature: Signature,
    curve: Curve,
    rescue: Rescue,
) -> bool {
    let message = spec_prepare_message(voting_key, address);
    let h = spec_digest_bytes(spec_hash_message(signature.0@, message, rescue));
    let commitment = curve.generator.spec_scalar_mul_bytes(signature.1@, curve).spec_add(
        Affine::spec_read(voting_key, 0).spec_scalar_mul_bytes(h, curve),
        curve,
    ).spec_to_affine(curve);
    commitment.x.spec_coefficients() == signature.0@
}

/// Checks a signature without a proof system.
pub fn verify_signature(
    voting_key: &[Felt; AFFINE_POINT_WIDTH],
    address: &[u8; 20],
    signature: &Signature,
    curve: &Curve,
    rescue: &Rescue,
) -> (r: bool)
    requires
        Affine::spec_read(voting_key@, 0).spec_is_on_curve(*curve),
    ensures
        r == spec_verify_signature(voting_key@, address@, *signature, *curve, *rescue),
{
    let s_point = curve.generator.scalar_mul_bytes(&signature.1, curve);
    let message = prepare_message(voting_key, address);
    let h = hash_message(&signature.0, message.as_slice(), rescue);
    let h_bytes = digest_bytes(h.as_slice());
    let h_pubkey_point = Affine::read(voting_key, 0).scalar_mul_bytes(&h_bytes, curve);
    let r_point = s_point.add(h_pubkey_point, curve).to_affine(curve);
    let mut x: Vec<Felt> = Vec::with_capacity(POINT_COORDINATE_WIDTH);
    r_point.x.append_to(&mut x);
    assert(x@ =~= r_point.x.spec_coefficients());
    elements_equal(x.as_slice(), &signature.0)
}

/// Every signature is valid.
pub open spec fn spec_naive_verify_signatures(
    voting_keys: Seq<[Felt; AFFINE_POINT_WIDTH]>,
    addresses: Seq<[u8; 20]>,
    signatures: Seq<Signature>,
    curve: Curve,
    rescue: Rescue,
) -> bool {
    forall|i: int|
        0 <= i < voting_keys.len() ==> #[trigger] spec_verify_signature(
            voting_keys[i]@,
            addresses[i]@,
            signatures[i],
            curve,
            rescue,
        )
}

/// Every key is on the curve.
pub open spec fn spec_keys_on_curve(voting_keys: Seq<[Felt; AFFINE_POINT_WIDTH]>, curve: Curve) -> bool {
    forall|i: int|
        0 <= i < voting_keys.len() ==> Affine::spec_read(
            (#[trigger] voting_keys[i])@,
            0,
        ).spec_is_on_curve(curve)
}

/// Checks the signature of every voter without a proof system.
pub fn naive_verify_signatures(
    voting_keys: &Vec<[Felt; AFFINE_POINT_WIDTH]>,
    addresses: &Vec<[u8; 20]>,
    signatures: &Vec<Signature>,
    curve: &Curve,
    rescue: &Rescue,
) -> (r: bool)
    requires
        addresses.len() == voting_keys.len(),
        signatures.len() == voting_keys.len(),
        spec_keys_on_curve(voting_keys@, *curve),
    ensures
        r == spec_naive_verify_signatures(
            voting_keys@,
            addresses@,
            signatures@,
            *curve,
            *rescue,
        ),
{
    let mut i: usize = 0;
    while i < voting_keys.len()
        invariant
            addresses.len() == voting_keys.len(),
            signatures.len() == voting_keys.len(),
            spec_keys_on_curve(voting_keys@, *curve),
            i <= voting_keys.len(),
            forall|j: int|
                0 <= j < i ==> #[trigger] spec_verify_signature(
                    voting_keys@[j]@,
                    addresses@[j]@,
                    signatures@[j],
                    *curve,
                    *rescue,
                ),
        decreases voting_keys.len() - i,
    {
        if !verify_signature(&voting_keys[i], &addresses[i], &signatures[i], curve, rescue) {
            return false;
        }
        i += 1;
    }
    true
}

/// The affine registers of a point.
pub fn projective_to_elements(point: Projective, curve: &Curve) -> (r: [Felt; AFFINE_POINT_WIDTH])
    ensures
        r@ == point.spec_to_affine(*curve).spec_registers(),
{
    let registers = point.to_affine(curve).to_vec();
    let mut result = [Felt::zero();AFFINE_POINT_WIDTH];
    write_range(&mut result, 0, registers.as_slice());
    proof {
        reveal(spec_write_range);
    }
    assert(result@ =~= registers@);
    result
}

} // verus!

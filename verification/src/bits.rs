//! The binary decomposition of a scalar.
//!
//! A scalar enters a trace as the bits of its 32 bytes, least significant
//! byte and bit first: one bit for each step of a double-and-add.

use bitvec::order::Lsb0;
use bitvec::view::AsBits;
use vstd::prelude::*;

verus! {

/// Bit `index` of a byte string, the least significant bit of the first byte
/// being bit zero.
pub open spec fn spec_bit_at(bytes: Seq<u8>, index: int) -> bool {
    (bytes[index / 8] >> ((index % 8) as u8)) & 1u8 == 1u8
}

/// Bit `index` of the bytes of a scalar.
///
/// Calls `bitvec`'s `AsBits::as_bits` with the order `Lsb0` and indexes the
/// bit slice. The contract restates what `Lsb0` documents: the bits of each
/// byte run from the least significant up, byte after byte.
#[verifier::external_body]
pub(crate) fn bit_at(bytes: &[u8; 32], index: usize) -> (b: bool)
    requires
        index < 256,
    ensures
        b == spec_bit_at(bytes@, index as int),
{
    bytes.as_bits::<Lsb0>()[index]
}

} // verus!

//! The wire layout of field elements: each element is one 64-bit word, least
//! significant byte first, and a list of elements is the concatenation of
//! its words.

use crate::field::{Felt, ELEMENT_BYTES, MODULUS};
use vstd::bytes::{
    lemma_auto_spec_u32_to_from_le_bytes, lemma_auto_spec_u64_to_from_le_bytes,
    spec_u32_from_le_bytes, spec_u32_to_le_bytes, spec_u64_from_le_bytes, spec_u64_to_le_bytes,
    u32_from_le_bytes, u32_to_le_bytes, u64_from_le_bytes, u64_to_le_bytes,
};
use vstd::prelude::*;

verus! {

/// The errors of reading a value from bytes.
#[derive(Clone, Copy, Debug, PartialEq, Eq, Structural)]
pub enum DeserializationError {
    /// The bytes end before the value does.
    UnexpectedEOF,
    /// A word is not the canonical form of a field element, or a count
    /// contradicts another.
    InvalidValue,
}

/// The eight bytes of an element.
pub open spec fn spec_element_bytes(e: Felt) -> Seq<u8> {
    spec_u64_to_le_bytes((e.value % MODULUS) as u64)
}

/// The bytes of a list of elements.
pub open spec fn spec_elements_bytes(elements: Seq<Felt>) -> Seq<u8>
    decreases elements.len(),
{
    if elements.len() == 0 {
        Seq::empty()
    } else {
        spec_elements_bytes(elements.drop_last()) + spec_element_bytes(elements.last())
    }
}

/// The bytes of a list of elements are eight for each element.
pub proof fn lemma_elements_bytes_len(elements: Seq<Felt>)
    ensures
        spec_elements_bytes(elements).len() == ELEMENT_BYTES * elements.len(),
    decreases elements.len(),
{
    lemma_auto_spec_u64_to_from_le_bytes();
    if elements.len() > 0 {
        lemma_elements_bytes_len(elements.drop_last());
    }
}

/// Appends the eight bytes of an element to `target`.
pub fn write_element(target: &mut Vec<u8>, e: Felt)
    ensures
        final(target)@ == old(target)@ + spec_element_bytes(e),
{
    let mut bytes = u64_to_le_bytes(e.as_int());
    target.append(&mut bytes);
}

/// Appends the bytes of a list of elements to `target`.
pub fn write_elements(target: &mut Vec<u8>, elements: &[Felt])
    ensures
        final(target)@ == old(target)@ + spec_elements_bytes(elements@),
{
    let n = elements.len();
    let mut i: usize = 0;
    assert(elements@.subrange(0, 0) =~= Seq::<Felt>::empty());
    assert(target@ =~= old(target)@ + spec_elements_bytes(elements@.subrange(0, 0)));
    while i < n
        invariant
            n == elements.len(),
            i <= n,
            target@ == old(target)@ + spec_elements_bytes(elements@.subrange(0, i as int)),
        decreases n - i,
    {
        write_element(target, elements[i]);
        proof {
            let prefix = elements@.subrange(0, i + 1);
            assert(prefix.drop_last() =~= elements@.subrange(0, i as int));
            assert(prefix.last() == elements@[i as int]);
            assert(target@ =~= old(target)@ + spec_elements_bytes(prefix));
        }
        i += 1;
    }
    assert(elements@.subrange(0, n as int) =~= elements@);
}

/// The element that eight bytes stand for, if they are its canonical form.
pub open spec fn spec_read_element(bytes: Seq<u8>) -> Option<Felt> {
    let word = spec_u64_from_le_bytes(bytes);
    if word < MODULUS {
        Some(Felt { value: word })
    } else {
        None
    }
}

/// Reads the element that the eight bytes of `source` from `offset` on stand
/// for. A word that is not below the modulus is no element.
pub fn read_element(source: &[u8], offset: usize) -> (r: Result<Felt, DeserializationError>)
    ensures
        offset + ELEMENT_BYTES > source.len() ==> r == Err::<Felt, DeserializationError>(
            DeserializationError::UnexpectedEOF,
        ),
        offset + ELEMENT_BYTES <= source.len() ==> r == match spec_read_element(
            source@.subrange(offset as int, offset + ELEMENT_BYTES),
        ) {
            Some(e) => Ok::<Felt, DeserializationError>(e),
            None => Err::<Felt, DeserializationError>(DeserializationError::InvalidValue),
        },
{
    if source.len() < ELEMENT_BYTES || offset > source.len() - ELEMENT_BYTES {
        return Err(DeserializationError::UnexpectedEOF);
    }
    let word = u64_from_le_bytes(&source[offset..offset + ELEMENT_BYTES]);
    if word < MODULUS {
        Ok(Felt { value: word })
    } else {
        Err(DeserializationError::InvalidValue)
    }
}

/// Reading the bytes of a canonical element gives the element back.
pub proof fn lemma_element_round_trip(e: Felt)
    requires
        e.is_canonical(),
    ensures
        spec_element_bytes(e).len() == ELEMENT_BYTES,
        spec_read_element(spec_element_bytes(e)) == Some(e),
{
    lemma_auto_spec_u64_to_from_le_bytes();
    vstd::arithmetic::div_mod::lemma_small_mod(e.value as nat, MODULUS as nat);
}

// COUNTS
// ================================================================================================

/// Number of bytes of a serialized count.
pub const COUNT_BYTES: usize = 4;

/// Number of bytes of a serialized point in affine coordinates.
pub const BYTES_PER_AFFINE: usize = 96;

/// Number of bytes of a serialized voting key.
pub const BYTES_PER_VOTING_KEY: usize = 96;

/// Number of bytes of a serialized digest.
pub const BYTES_PER_DIGEST: usize = 56;

/// Number of bytes of a scalar.
pub const BYTES_PER_SCALAR: usize = 32;

/// Number of bytes of an address.
pub const BYTES_PER_ADDRESS: usize = 20;

/// Number of bytes of a serialized signature: the six elements of the `x`
/// of its point, and its scalar.
pub const BYTES_PER_SIGNATURE: usize = 80;

/// Number of bytes of the four serialized proof points of a vote.
pub const BYTES_PER_PROOF_POINTS: usize = 384;

/// Number of bytes of the serialized outputs of a vote.
pub const BYTES_PER_OUTPUT: usize = 480;

/// The four bytes of a count.
pub open spec fn spec_count_bytes(count: u32) -> Seq<u8> {
    spec_u32_to_le_bytes(count)
}

/// Appends the four bytes of a count to `target`.
pub fn write_count(target: &mut Vec<u8>, count: u32)
    ensures
        final(target)@ == old(target)@ + spec_count_bytes(count),
{
    let mut bytes = u32_to_le_bytes(count);
    target.append(&mut bytes);
}

/// The count that the four bytes of `bytes` from `offset` on stand for.
pub open spec fn spec_read_count(bytes: Seq<u8>, offset: int) -> Result<u32, DeserializationError> {
    if offset + COUNT_BYTES > bytes.len() {
        Err(DeserializationError::UnexpectedEOF)
    } else {
        Ok(spec_u32_from_le_bytes(bytes.subrange(offset, offset + COUNT_BYTES)))
    }
}

/// Reads the count that the four bytes of `source` from `offset` on stand
/// for.
pub fn read_count(source: &[u8], offset: usize) -> (r: Result<u32, DeserializationError>)
    requires
        offset <= source.len(),
    ensures
        r == spec_read_count(source@, offset as int),
{
    if source.len() - offset < COUNT_BYTES {
        return Err(DeserializationError::UnexpectedEOF);
    }
    Ok(u32_from_le_bytes(&source[offset..offset + COUNT_BYTES]))
}

/// Reading the bytes of a count gives the count back.
pub proof fn lemma_count_round_trip(prefix: Seq<u8>, count: u32, suffix: Seq<u8>)
    ensures
        spec_count_bytes(count).len() == COUNT_BYTES,
        spec_read_count(prefix + spec_count_bytes(count) + suffix, prefix.len() as int) == Ok::<
            u32,
            DeserializationError,
        >(count),
{
    lemma_auto_spec_u32_to_from_le_bytes();
    let bytes = prefix + spec_count_bytes(count) + suffix;
    assert(bytes.subrange(prefix.len() as int, prefix.len() + COUNT_BYTES) =~= spec_count_bytes(
        count,
    ));
}

// LISTS OF ELEMENTS
// ================================================================================================

/// The `count` elements that the bytes from `offset` on stand for; the error
/// of the first that cannot be read.
pub open spec fn spec_read_elements(bytes: Seq<u8>, offset: int, count: nat) -> Result<
    Seq<Felt>,
    DeserializationError,
>
    decreases count,
{
    if count == 0 {
        Ok(Seq::empty())
    } else {
        match spec_read_elements(bytes, offset, (count - 1) as nat) {
            Err(e) => Err(e),
            Ok(before) => {
                let at = offset + ELEMENT_BYTES * (count - 1);
                if at + ELEMENT_BYTES > bytes.len() {
                    Err(DeserializationError::UnexpectedEOF)
                } else {
                    match spec_read_element(bytes.subrange(at, at + ELEMENT_BYTES)) {
                        Some(e) => Ok(before.push(e)),
                        None => Err(DeserializationError::InvalidValue),
                    }
                }
            },
        }
    }
}

/// Reads `count` elements from the bytes of `source` from `offset` on.
pub fn read_elements(source: &[u8], offset: usize, count: usize) -> (r: Result<
    Vec<Felt>,
    DeserializationError,
>)
    requires
        offset <= source.len(),
    ensures
        match spec_read_elements(source@, offset as int, count as nat) {
            Ok(elements) => r is Ok && r->Ok_0@ == elements && offset + ELEMENT_BYTES * count
                <= source.len(),
            Err(e) => r is Err && r->Err_0 == e,
        },
        r is Ok ==> r->Ok_0.len() == count,
{
    let mut elements: Vec<Felt> = Vec::new();
    let mut at: usize = offset;
    let mut i: usize = 0;
    while i < count
        invariant
            i <= count,
            offset <= at <= source.len(),
            at == offset + ELEMENT_BYTES * i,
            elements.len() == i,
            spec_read_elements(source@, offset as int, i as nat) == Ok::<
                Seq<Felt>,
                DeserializationError,
            >(elements@),
        decreases count - i,
    {
        match read_element(source, at) {
            Ok(e) => {
                elements.push(e);
                at += ELEMENT_BYTES;
            },
            Err(e) => {
                proof {
                    lemma_read_error_stays(source@, offset as int, (i + 1) as nat, count as nat);
                }
                return Err(e);
            },
        }
        i += 1;
    }
    Ok(elements)
}

/// Once an element cannot be read, no longer list can.
pub proof fn lemma_read_error_stays(bytes: Seq<u8>, offset: int, failed: nat, count: nat)
    requires
        failed <= count,
        spec_read_elements(bytes, offset, failed) is Err,
    ensures
        spec_read_elements(bytes, offset, count) == spec_read_elements(bytes, offset, failed),
    decreases count,
{
    if failed < count {
        lemma_read_error_stays(bytes, offset, failed, (count - 1) as nat);
    }
}

/// Every element of a list is canonical.
pub open spec fn spec_all_canonical(elements: Seq<Felt>) -> bool {
    forall|i: int| 0 <= i < elements.len() ==> (#[trigger] elements[i]).is_canonical()
}

/// Byte `k` of the bytes of a list of elements is a byte of element `k / 8`.
pub proof fn lemma_elements_bytes_index(elements: Seq<Felt>, i: int)
    requires
        0 <= i < elements.len(),
    ensures
        spec_elements_bytes(elements).len() == ELEMENT_BYTES * elements.len(),
        spec_elements_bytes(elements).subrange(ELEMENT_BYTES * i, ELEMENT_BYTES * (i + 1))
            == spec_element_bytes(elements[i]),
    decreases elements.len(),
{
    lemma_auto_spec_u64_to_from_le_bytes();
    lemma_elements_bytes_len(elements);
    lemma_elements_bytes_len(elements.drop_last());
    let all = spec_elements_bytes(elements);
    let before = spec_elements_bytes(elements.drop_last());
    if i == elements.len() - 1 {
        assert(all.subrange(ELEMENT_BYTES * i, ELEMENT_BYTES * (i + 1)) =~= spec_element_bytes(
            elements.last(),
        ));
    } else {
        lemma_elements_bytes_index(elements.drop_last(), i);
        assert(all.subrange(ELEMENT_BYTES * i, ELEMENT_BYTES * (i + 1)) =~= before.subrange(
            ELEMENT_BYTES * i,
            ELEMENT_BYTES * (i + 1),
        ));
    }
}

/// Reading the bytes of a list of canonical elements gives the list back,
/// whatever stands before and behind them.
pub proof fn lemma_elements_round_trip(prefix: Seq<u8>, elements: Seq<Felt>, suffix: Seq<u8>)
    requires
        spec_all_canonical(elements),
    ensures
        spec_elements_bytes(elements).len() == ELEMENT_BYTES * elements.len(),
        spec_read_elements(
            prefix + spec_elements_bytes(elements) + suffix,
            prefix.len() as int,
            elements.len(),
        ) == Ok::<Seq<Felt>, DeserializationError>(elements),
{
    lemma_elements_bytes_len(elements);
    lemma_elements_read_prefix(prefix, elements, suffix, elements.len());
    assert(elements.subrange(0, elements.len() as int) =~= elements);
}

proof fn lemma_elements_read_prefix(
    prefix: Seq<u8>,
    elements: Seq<Felt>,
    suffix: Seq<u8>,
    count: nat,
)
    requires
        spec_all_canonical(elements),
        count <= elements.len(),
    ensures
        spec_read_elements(
            prefix + spec_elements_bytes(elements) + suffix,
            prefix.len() as int,
            count,
        ) == Ok::<Seq<Felt>, DeserializationError>(elements.subrange(0, count as int)),
    decreases count,
{
    let bytes = prefix + spec_elements_bytes(elements) + suffix;
    if count == 0 {
        assert(elements.subrange(0, 0) =~= Seq::<Felt>::empty());
    } else {
        let i = (count - 1) as int;
        lemma_elements_read_prefix(prefix, elements, suffix, (count - 1) as nat);
        lemma_elements_bytes_index(elements, i);
        lemma_element_round_trip(elements[i]);
        let at = prefix.len() + ELEMENT_BYTES * i;
        assert(bytes.subrange(at, at + ELEMENT_BYTES) =~= spec_elements_bytes(elements).subrange(
            ELEMENT_BYTES * i,
            ELEMENT_BYTES * (i + 1),
        ));
        assert(elements.subrange(0, i).push(elements[i]) =~= elements.subrange(0, count as int));
    }
}

// TABLES OF ELEMENTS
// ================================================================================================

/// The rows of a table, one after the other.
pub open spec fn spec_flatten<const W: usize>(rows: Seq<[Felt; W]>) -> Seq<Felt> {
    Seq::new((rows.len() * W) as nat, |i: int| rows[i / (W as int)][i % (W as int)])
}

/// Appends the bytes of the rows of a table to `target`.
pub fn write_rows<const W: usize>(target: &mut Vec<u8>, rows: &Vec<[Felt; W]>)
    requires
        W > 0,
        rows.len() * W <= usize::MAX,
    ensures
        final(target)@ == old(target)@ + spec_elements_bytes(spec_flatten(rows@)),
{
    let n = rows.len();
    let mut flat: Vec<Felt> = Vec::new();
    let mut k: usize = 0;
    while k < n
        invariant
            W > 0,
            n == rows.len(),
            n * W <= usize::MAX,
            k <= n,
            flat.len() == k * W,
            forall|i: int| 0 <= i < flat.len() ==> flat@[i] == rows@[i / (W as int)][i % (W as int)],
        decreases n - k,
    {
        let row = &rows[k];
        let mut j: usize = 0;
        while j < W
            invariant
                W > 0,
                n == rows.len(),
                n * W <= usize::MAX,
                k < n,
                *row == rows@[k as int],
                j <= W,
                flat.len() == k * W + j,
                forall|i: int|
                    0 <= i < flat.len() ==> flat@[i] == rows@[i / (W as int)][i % (W as int)],
            decreases W - j,
        {
            proof {
                crate::air::lemma_row_of_cycle(k as int, W as int, j as int);
                assert((k + 1) * W <= n * W) by (nonlinear_arith)
                    requires
                        k < n,
                        W > 0,
                ;
            }
            flat.push(row[j]);
            j += 1;
        }
        proof {
            assert((k + 1) * W == k * W + W) by (nonlinear_arith);
        }
        k += 1;
    }
    assert(flat@ =~= spec_flatten(rows@));
    write_elements(target, flat.as_slice());
}

/// Reading a list is reading its first part and then the rest.
pub proof fn lemma_read_elements_split(bytes: Seq<u8>, offset: int, first: nat, rest: nat)
    ensures
        spec_read_elements(bytes, offset, first + rest) == match spec_read_elements(
            bytes,
            offset,
            first,
        ) {
            Err(e) => Err(e),
            Ok(before) => match spec_read_elements(bytes, offset + ELEMENT_BYTES * first, rest) {
                Err(e) => Err(e),
                Ok(after) => Ok(before + after),
            },
        },
    decreases rest,
{
    let whole = spec_read_elements(bytes, offset, first + rest);
    if rest == 0 {
        match spec_read_elements(bytes, offset, first) {
            Ok(before) => {
                assert(before + Seq::<Felt>::empty() =~= before);
            },
            Err(e) => {},
        }
    } else {
        lemma_read_elements_split(bytes, offset, first, (rest - 1) as nat);
        assert(offset + ELEMENT_BYTES * (first + rest - 1) == offset + ELEMENT_BYTES * first
            + ELEMENT_BYTES * (rest - 1));
        match spec_read_elements(bytes, offset, first) {
            Ok(before) => {
                match spec_read_elements(
                    bytes,
                    offset + ELEMENT_BYTES * first,
                    (rest - 1) as nat,
                ) {
                    Ok(after) => {
                        let at = offset + ELEMENT_BYTES * (first + rest - 1);
                        if at + ELEMENT_BYTES <= bytes.len() {
                            match spec_read_element(bytes.subrange(at, at + ELEMENT_BYTES)) {
                                Some(e) => {
                                    assert((before + after).push(e) =~= before + after.push(e));
                                },
                                None => {},
                            }
                        }
                    },
                    Err(e) => {},
                }
            },
            Err(e) => {},
        }
    }
}

/// Reads a table of `count` rows from the bytes of `source` from `offset`
/// on.
pub fn read_rows<const W: usize>(source: &[u8], offset: usize, count: usize) -> (r: Result<
    Vec<[Felt; W]>,
    DeserializationError,
>)
    requires
        W > 0,
        offset <= source.len(),
    ensures
        match spec_read_elements(source@, offset as int, (count * W) as nat) {
            Ok(elements) => r is Ok && spec_flatten(r->Ok_0@) == elements && r->Ok_0.len()
                == count && offset + ELEMENT_BYTES * (count * W) <= source.len(),
            Err(e) => r is Err && r->Err_0 == e,
        },
{
    let mut rows: Vec<[Felt; W]> = Vec::new();
    let mut at: usize = offset;
    let mut k: usize = 0;
    assert(spec_flatten(rows@) =~= Seq::<Felt>::empty());
    while k < count
        invariant
            W > 0,
            k <= count,
            offset <= at <= source.len(),
            at == offset + ELEMENT_BYTES * (k * W),
            rows.len() == k,
            spec_read_elements(source@, offset as int, (k * W) as nat) == Ok::<
                Seq<Felt>,
                DeserializationError,
            >(spec_flatten(rows@)),
        decreases count - k,
    {
        proof {
            lemma_read_elements_split(source@, offset as int, (k * W) as nat, W as nat);
            assert((k + 1) * W == k * W + W) by (nonlinear_arith);
        }
        let elements = match read_elements(source, at, W) {
            Ok(elements) => elements,
            Err(e) => {
                proof {
                    assert((k + 1) * W <= count * W) by (nonlinear_arith)
                        requires
                            k < count,
                            W > 0,
                    ;
                    lemma_read_error_stays(
                        source@,
                        offset as int,
                        ((k + 1) * W) as nat,
                        (count * W) as nat,
                    );
                }
                return Err(e);
            },
        };
        let mut row = [Felt::zero();W];
        let mut j: usize = 0;
        while j < W
            invariant
                elements.len() == W,
                j <= W,
                forall|m: int| 0 <= m < j ==> row[m] == elements@[m],
            decreases W - j,
        {
            row[j] = elements[j];
            j += 1;
        }
        let ghost before = spec_flatten(rows@);
        rows.push(row);
        proof {
            let got = spec_flatten(rows@);
            let expected = before + elements@;
            assert(got.len() == expected.len());
            assert forall|i: int| 0 <= i < got.len() implies got[i] == expected[i] by {
                vstd::arithmetic::div_mod::lemma_fundamental_div_mod(i, W as int);
                if i < k * W {
                    assert(W * k == k * W) by (nonlinear_arith);
                    vstd::arithmetic::div_mod::lemma_multiply_divide_lt(i, W as int, k as int);
                } else {
                    crate::air::lemma_row_of_cycle(k as int, W as int, i - k * W);
                }
            }
            assert(got =~= expected);
        }
        at += ELEMENT_BYTES * W;
        k += 1;
    }
    Ok(rows)
}

/// Two tables with the same elements in the same order are the same table.
pub proof fn lemma_flatten_injective<const W: usize>(a: Seq<[Felt; W]>, b: Seq<[Felt; W]>)
    requires
        W > 0,
        a.len() == b.len(),
        spec_flatten(a) == spec_flatten(b),
    ensures
        a == b,
{
    assert forall|k: int| 0 <= k < a.len() implies a[k] == b[k] by {
        assert forall|j: int| 0 <= j < W implies a[k][j] == b[k][j] by {
            crate::air::lemma_row_of_cycle(k, W as int, j);
            assert((k + 1) * W <= a.len() * W) by (nonlinear_arith)
                requires
                    k < a.len(),
                    W > 0,
            ;
            assert(spec_flatten(a)[k * W + j] == a[k][j]);
            assert(spec_flatten(b)[k * W + j] == b[k][j]);
        }
        assert(a[k] =~= b[k]);
    }
    assert(a =~= b);
}

// RAW BYTES
// ================================================================================================

/// The `count` bytes from `offset` on.
pub open spec fn spec_read_bytes(bytes: Seq<u8>, offset: int, count: nat) -> Result<
    Seq<u8>,
    DeserializationError,
> {
    if offset + count > bytes.len() {
        Err(DeserializationError::UnexpectedEOF)
    } else {
        Ok(bytes.subrange(offset, offset + count))
    }
}

/// Reads `N` bytes of `source` from `offset` on.
pub fn read_byte_array<const N: usize>(source: &[u8], offset: usize) -> (r: Result<
    [u8; N],
    DeserializationError,
>)
    requires
        offset <= source.len(),
    ensures
        match spec_read_bytes(source@, offset as int, N as nat) {
            Ok(bytes) => r is Ok && r->Ok_0@ == bytes && offset + N <= source.len(),
            Err(e) => r is Err && r->Err_0 == e,
        },
{
    if source.len() - offset < N {
        return Err(DeserializationError::UnexpectedEOF);
    }
    let mut out = [0u8;N];
    let mut i: usize = 0;
    while i < N
        invariant
            offset + N <= source.len(),
            i <= N,
            forall|j: int| 0 <= j < i ==> out[j] == source@[offset + j],
        decreases N - i,
    {
        out[i] = source[offset + i];
        i += 1;
    }
    assert(out@ =~= source@.subrange(offset as int, offset + N));
    Ok(out)
}

/// Appends bytes to `target`.
pub fn write_bytes(target: &mut Vec<u8>, bytes: &[u8])
    ensures
        final(target)@ == old(target)@ + bytes@,
{
    target.extend_from_slice(bytes);
}

/// The rows of a table of bytes, one after the other.
pub open spec fn spec_flatten_bytes<const W: usize>(rows: Seq<[u8; W]>) -> Seq<u8>
    decreases rows.len(),
{
    if rows.len() == 0 {
        Seq::empty()
    } else {
        spec_flatten_bytes(rows.drop_last()) + rows.last()@
    }
}

/// The rows of a table of bytes take `W` bytes each.
pub proof fn lemma_flatten_bytes_len<const W: usize>(rows: Seq<[u8; W]>)
    ensures
        spec_flatten_bytes(rows).len() == rows.len() * W,
    decreases rows.len(),
{
    if rows.len() > 0 {
        lemma_flatten_bytes_len(rows.drop_last());
        assert((rows.len() - 1) * W + W == rows.len() * W) by (nonlinear_arith);
    }
}

/// Appends the rows of a table of bytes to `target`.
pub fn write_byte_rows<const W: usize>(target: &mut Vec<u8>, rows: &Vec<[u8; W]>)
    ensures
        final(target)@ == old(target)@ + spec_flatten_bytes(rows@),
{
    let n = rows.len();
    let mut k: usize = 0;
    assert(rows@.subrange(0, 0) =~= Seq::<[u8; W]>::empty());
    assert(target@ =~= old(target)@ + spec_flatten_bytes(rows@.subrange(0, 0)));
    while k < n
        invariant
            n == rows.len(),
            k <= n,
            target@ == old(target)@ + spec_flatten_bytes(rows@.subrange(0, k as int)),
        decreases n - k,
    {
        write_bytes(target, &rows[k]);
        proof {
            let prefix = rows@.subrange(0, k + 1);
            assert(prefix.drop_last() =~= rows@.subrange(0, k as int));
            assert(prefix.last() == rows@[k as int]);
            assert(target@ =~= old(target)@ + spec_flatten_bytes(prefix));
        }
        k += 1;
    }
    assert(rows@.subrange(0, n as int) =~= rows@);
}

/// The `count` rows of `W` bytes from `offset` on.
pub open spec fn spec_read_byte_rows<const W: usize>(bytes: Seq<u8>, offset: int, count: nat) -> Result<
    Seq<Seq<u8>>,
    DeserializationError,
> {
    if offset + count * W > bytes.len() {
        Err(DeserializationError::UnexpectedEOF)
    } else {
        Ok(Seq::new(count, |k: int| bytes.subrange(offset + k * W, offset + (k + 1) * W)))
    }
}

/// The views of the rows of a table of bytes.
pub open spec fn byte_rows_view<const W: usize>(rows: Seq<[u8; W]>) -> Seq<Seq<u8>> {
    Seq::new(rows.len(), |k: int| rows[k]@)
}

/// Reads a table of `count` rows of `W` bytes from `source` from `offset`
/// on.
pub fn read_byte_rows<const W: usize>(source: &[u8], offset: usize, count: usize) -> (r: Result<
    Vec<[u8; W]>,
    DeserializationError,
>)
    requires
        offset <= source.len(),
    ensures
        match spec_read_byte_rows::<W>(source@, offset as int, count as nat) {
            Ok(rows) => r is Ok && byte_rows_view(r->Ok_0@) == rows && offset + count * W
                <= source.len(),
            Err(e) => r is Err && r->Err_0 == e,
        },
{
    let available = source.len() - offset;
    if W > 0 && count > available / W {
        proof {
            assert(count * W > available) by (nonlinear_arith)
                requires
                    W > 0,
                    count > available / W,
                    available >= 0,
            ;
        }
        return Err(DeserializationError::UnexpectedEOF);
    }
    proof {
        if W > 0 {
            assert(count * W <= available) by (nonlinear_arith)
                requires
                    W > 0,
                    count <= available / W,
                    available >= 0,
            ;
        } else {
            assert(count * W == 0) by (nonlinear_arith)
                requires
                    W == 0,
            ;
        }
    }
    let mut rows: Vec<[u8; W]> = Vec::new();
    let mut k: usize = 0;
    while k < count
        invariant
            offset + count * W <= source.len(),
            k <= count,
            rows.len() == k,
            forall|i: int|
                0 <= i < k ==> (#[trigger] rows@[i])@ == source@.subrange(
                    offset + i * W,
                    offset + (i + 1) * W,
                ),
        decreases count - k,
    {
        proof {
            assert((k + 1) * W == k * W + W) by (nonlinear_arith);
            assert((k + 1) * W <= count * W) by (nonlinear_arith)
                requires
                    k < count,
            ;
        }
        let row = match read_byte_array::<W>(source, offset + k * W) {
            Ok(row) => row,
            Err(e) => { return Err(e); },
        };
        rows.push(row);
        k += 1;
    }
    assert(byte_rows_view(rows@) =~= spec_read_byte_rows::<W>(
        source@,
        offset as int,
        count as nat,
    )->Ok_0);
    Ok(rows)
}

/// Reading the bytes of a table of bytes gives the table back, whatever
/// stands before and behind them.
pub proof fn lemma_byte_rows_round_trip<const W: usize>(
    prefix: Seq<u8>,
    rows: Seq<[u8; W]>,
    suffix: Seq<u8>,
)
    ensures
        spec_flatten_bytes(rows).len() == rows.len() * W,
        spec_read_byte_rows::<W>(
            prefix + spec_flatten_bytes(rows) + suffix,
            prefix.len() as int,
            rows.len(),
        ) == Ok::<Seq<Seq<u8>>, DeserializationError>(byte_rows_view(rows)),
{
    lemma_flatten_bytes_len(rows);
    let bytes = prefix + spec_flatten_bytes(rows) + suffix;
    let got = spec_read_byte_rows::<W>(bytes, prefix.len() as int, rows.len())->Ok_0;
    assert forall|k: int| 0 <= k < rows.len() implies got[k] == rows[k]@ by {
        lemma_flatten_bytes_row(rows, k);
        assert((k + 1) * W <= rows.len() * W) by (nonlinear_arith)
            requires
                k < rows.len(),
        ;
        assert((k + 1) * W == k * W + W) by (nonlinear_arith);
        assert(bytes.subrange(prefix.len() + k * W, prefix.len() + (k + 1) * W)
            =~= spec_flatten_bytes(rows).subrange(k * W, (k + 1) * W));
    }
    assert(got =~= byte_rows_view(rows));
}

proof fn lemma_flatten_bytes_row<const W: usize>(rows: Seq<[u8; W]>, k: int)
    requires
        0 <= k < rows.len(),
    ensures
        (k + 1) * W <= spec_flatten_bytes(rows).len(),
        spec_flatten_bytes(rows).subrange(k * W, (k + 1) * W) == rows[k]@,
    decreases rows.len(),
{
    lemma_flatten_bytes_len(rows);
    lemma_flatten_bytes_len(rows.drop_last());
    assert((k + 1) * W == k * W + W) by (nonlinear_arith);
    assert((k + 1) * W <= rows.len() * W) by (nonlinear_arith)
        requires
            k < rows.len(),
    ;
    assert((rows.len() - 1) * W + W == rows.len() * W) by (nonlinear_arith);
    let all = spec_flatten_bytes(rows);
    if k == rows.len() - 1 {
        assert(all.subrange(k * W, (k + 1) * W) =~= rows.last()@);
    } else {
        lemma_flatten_bytes_row(rows.drop_last(), k);
        assert((k + 1) * W <= (rows.len() - 1) * W) by (nonlinear_arith)
            requires
                k < rows.len() - 1,
        ;
        assert(all.subrange(k * W, (k + 1) * W) =~= spec_flatten_bytes(
            rows.drop_last(),
        ).subrange(k * W, (k + 1) * W));
    }
}

/// Two tables of bytes with the same rows are the same table.
pub proof fn lemma_byte_rows_injective<const W: usize>(a: Seq<[u8; W]>, b: Seq<[u8; W]>)
    requires
        byte_rows_view(a) == byte_rows_view(b),
    ensures
        a == b,
{
    assert(a.len() == byte_rows_view(a).len());
    assert(b.len() == byte_rows_view(b).len());
    assert forall|k: int| 0 <= k < a.len() implies a[k] == b[k] by {
        assert(byte_rows_view(a)[k] == a[k]@);
        assert(byte_rows_view(b)[k] == b[k]@);
        assert(a[k] =~= b[k]);
    }
    assert(a =~= b);
}

} // verus!

//! The verifier as a precompiled contract: it is called with the four bytes
//! of the method and the arguments of the call, and answers with words of 32
//! bytes.

use crate::chain_verifier::{spec_verify_tally_result, verify_tally_result, BYTES_PER_CAST};
use crate::ecc::{Curve, AFFINE_POINT_WIDTH};
use crate::merkle::elements_equal;
use crate::wire::{
    read_count, read_elements, spec_read_count, spec_read_elements, DeserializationError,
    BYTES_PER_AFFINE, BYTES_PER_DIGEST, BYTES_PER_OUTPUT, COUNT_BYTES,
};
use vstd::prelude::*;

verus! {

/// Number of bytes of the name of a method.
pub const SELECTOR_BYTES: usize = 4;

/// Number of bytes of a word of the answer.
pub const WORD_BYTES: usize = 32;

/// The errors of a call.
#[derive(Clone, Copy, Debug, PartialEq, Eq, Structural)]
pub enum PrecompileError {
    /// The call names no method of the verifier.
    InvalidMethod,
    /// The call costs more gas than it may.
    OutOfGas,
    /// The arguments go on after their end.
    UnconsumedBytes,
    /// The arguments cannot be read.
    DeserializationError,
}

/// The methods of the verifier.
#[derive(Clone, Copy, Debug, PartialEq, Eq, Structural)]
pub enum Method {
    CheckGenerator,
    VerifyRegister,
    VerifyCast,
    VerifyTally,
}

/// The method that four bytes name.
pub open spec fn spec_method(selector: Seq<u8>) -> Option<Method> {
    if selector == seq![248u8, 243u8, 181u8, 56u8] {
        Some(Method::CheckGenerator)
    } else if selector == seq![243u8, 90u8, 41u8, 19u8] {
        Some(Method::VerifyRegister)
    } else if selector == seq![199u8, 65u8, 76u8, 236u8] {
        Some(Method::VerifyCast)
    } else if selector == seq![151u8, 84u8, 187u8, 55u8] {
        Some(Method::VerifyTally)
    } else {
        None
    }
}

fn is_selector(input: &[u8], a: u8, b: u8, c: u8, d: u8) -> (r: bool)
    requires
        input.len() >= SELECTOR_BYTES,
    ensures
        r == (input@.subrange(0, SELECTOR_BYTES as int) == seq![a, b, c, d]),
{
    let r = input[0] == a && input[1] == b && input[2] == c && input[3] == d;
    proof {
        let selector = input@.subrange(0, SELECTOR_BYTES as int);
        if r {
            assert(selector =~= seq![a, b, c, d]);
        } else {
            assert(selector[0] == input@[0]);
            assert(selector[1] == input@[1]);
            assert(selector[2] == input@[2]);
            assert(selector[3] == input@[3]);
            assert(seq![a, b, c, d][0] == a);
            assert(seq![a, b, c, d][1] == b);
            assert(seq![a, b, c, d][2] == c);
            assert(seq![a, b, c, d][3] == d);
        }
    }
    r
}

/// Tells which method a call names by its first four bytes. The arguments
/// of the call follow them.
pub fn stark_verifier_run(input: &[u8]) -> (r: Result<Method, PrecompileError>)
    ensures
        input.len() < SELECTOR_BYTES ==> r == Err::<Method, PrecompileError>(
            PrecompileError::InvalidMethod,
        ),
        input.len() >= SELECTOR_BYTES ==> r == match spec_method(
            input@.subrange(0, SELECTOR_BYTES as int),
        ) {
            Some(method) => Ok::<Method, PrecompileError>(method),
            None => Err::<Method, PrecompileError>(PrecompileError::InvalidMethod),
        },
{
    if input.len() < SELECTOR_BYTES {
        return Err(PrecompileError::InvalidMethod);
    }
    if is_selector(input, 248, 243, 181, 56) {
        Ok(Method::CheckGenerator)
    } else if is_selector(input, 243, 90, 41, 19) {
        Ok(Method::VerifyRegister)
    } else if is_selector(input, 199, 65, 76, 236) {
        Ok(Method::VerifyCast)
    } else if is_selector(input, 151, 84, 187, 55) {
        Ok(Method::VerifyTally)
    } else {
        Err(PrecompileError::InvalidMethod)
    }
}

/// One word that holds a verdict in its last byte.
pub open spec fn spec_verdict_word(verdict: bool) -> Seq<u8> {
    Seq::new(
        WORD_BYTES as nat,
        |i: int|
            if i == WORD_BYTES - 1 && verdict {
                1u8
            } else {
                0u8
            },
    )
}

fn verdict_word(verdict: bool) -> (r: Vec<u8>)
    ensures
        r@ == spec_verdict_word(verdict),
{
    let mut output = vec![0u8; WORD_BYTES];
    if verdict {
        output[WORD_BYTES - 1] = 1;
    }
    assert(output@ =~= spec_verdict_word(verdict));
    output
}

/// The answer to a check of the generator: whether the arguments are the
/// twelve elements of the generator of the curve, and nothing else.
pub open spec fn spec_check_generator_run(input: Seq<u8>, curve: Curve) -> Result<
    Seq<u8>,
    PrecompileError,
> {
    if input.len() > BYTES_PER_AFFINE {
        Err(PrecompileError::UnconsumedBytes)
    } else {
        match spec_read_elements(input, 0, AFFINE_POINT_WIDTH as nat) {
            Err(e) => Err(PrecompileError::DeserializationError),
            Ok(generator) => Ok(spec_verdict_word(generator == curve.generator.spec_registers())),
        }
    }
}

/// Answers whether the arguments are the generator of the curve.
pub fn check_generator_run(input: &[u8], gas_limit: u64, curve: &Curve) -> (r: Result<
    (u64, Vec<u8>),
    PrecompileError,
>)
    ensures
        match spec_check_generator_run(input@, *curve) {
            Ok(output) => r is Ok && r->Ok_0.0 == 0 && r->Ok_0.1@ == output,
            Err(e) => r is Err && r->Err_0 == e,
        },
{
    let generator = read_elements(input, 0, AFFINE_POINT_WIDTH);
    if input.len() > BYTES_PER_AFFINE {
        return Err(PrecompileError::UnconsumedBytes);
    }
    match generator {
        Err(e) => Err(PrecompileError::DeserializationError),
        Ok(generator) => {
            let expected = curve.generator.to_vec();
            Ok((0, verdict_word(elements_equal(generator.as_slice(), expected.as_slice()))))
        },
    }
}

/// The answer to the verification of a proof of the registrations: one
/// word with the verdict, and one with the number of registrations, most
/// significant byte first.
pub open spec fn spec_register_answer(verdict: bool, count: Seq<u8>) -> Seq<u8> {
    spec_verdict_word(verdict) + Seq::new(
        WORD_BYTES as nat,
        |i: int|
            if i >= WORD_BYTES - COUNT_BYTES {
                count[WORD_BYTES - 1 - i]
            } else {
                0u8
            },
    )
}

/// The root of the tree and the proof of the registrations in the
/// arguments of a call.
pub fn register_arguments(input: &[u8]) -> (r: Result<(&[u8], &[u8]), PrecompileError>)
    ensures
        input.len() < BYTES_PER_DIGEST ==> r == Err::<(&[u8], &[u8]), PrecompileError>(
            PrecompileError::DeserializationError,
        ),
        input.len() >= BYTES_PER_DIGEST ==> r is Ok && r->Ok_0.0@ == input@.subrange(
            0,
            BYTES_PER_DIGEST as int,
        ) && r->Ok_0.1@ == input@.subrange(BYTES_PER_DIGEST as int, input.len() as int),
{
    if input.len() < BYTES_PER_DIGEST {
        return Err(PrecompileError::DeserializationError);
    }
    Ok((&input[0..BYTES_PER_DIGEST], &input[BYTES_PER_DIGEST..input.len()]))
}

/// Answers the verification of a proof of the registrations. `verdict` is
/// what the verification of the proof in `input` gave.
pub fn verify_register_proof_run(
    input: &[u8],
    gas_limit: u64,
    verdict: Result<bool, DeserializationError>,
) -> (r: Result<(u64, Vec<u8>), PrecompileError>)
    ensures
        verdict is Err || input.len() < BYTES_PER_DIGEST + COUNT_BYTES ==> r == Err::<
            (u64, Vec<u8>),
            PrecompileError,
        >(PrecompileError::DeserializationError),
        verdict is Ok && input.len() >= BYTES_PER_DIGEST + COUNT_BYTES ==> r is Ok && r->Ok_0.0
            == 0 && r->Ok_0.1@ == spec_register_answer(
            verdict->Ok_0,
            input@.subrange(BYTES_PER_DIGEST as int, BYTES_PER_DIGEST + COUNT_BYTES),
        ),
{
    let verified = match verdict {
        Ok(verified) => verified,
        Err(e) => { return Err(PrecompileError::DeserializationError); },
    };
    if input.len() < BYTES_PER_DIGEST + COUNT_BYTES {
        return Err(PrecompileError::DeserializationError);
    }
    let mut output = verdict_word(verified);
    let mut word: Vec<u8> = Vec::with_capacity(WORD_BYTES);
    let mut i: usize = 0;
    while i < WORD_BYTES
        invariant
            input.len() >= BYTES_PER_DIGEST + COUNT_BYTES,
            i <= WORD_BYTES,
            word.len() == i,
            forall|j: int|
                0 <= j < i ==> word@[j] == if j >= WORD_BYTES - COUNT_BYTES {
                    input@[BYTES_PER_DIGEST + WORD_BYTES - 1 - j]
                } else {
                    0u8
                },
        decreases WORD_BYTES - i,
    {
        if i >= WORD_BYTES - COUNT_BYTES {
            word.push(input[BYTES_PER_DIGEST + WORD_BYTES - 1 - i]);
        } else {
            word.push(0);
        }
        i += 1;
    }
    output.append(&mut word);
    assert(output@ =~= spec_register_answer(
        verified,
        input@.subrange(BYTES_PER_DIGEST as int, BYTES_PER_DIGEST + COUNT_BYTES),
    ));
    Ok((0, output))
}

/// The voting keys of the verifier and the proof of the votes in the
/// arguments of a call: the arguments start with the number of keys and the
/// keys.
pub fn cast_arguments(input: &[u8]) -> (r: Result<(&[u8], &[u8]), PrecompileError>)
    ensures
        match spec_read_count(input@, 0) {
            Err(e) => r == Err::<(&[u8], &[u8]), PrecompileError>(
                PrecompileError::DeserializationError,
            ),
            Ok(num_keys) => if COUNT_BYTES + BYTES_PER_AFFINE * num_keys > input.len() {
                r == Err::<(&[u8], &[u8]), PrecompileError>(PrecompileError::DeserializationError)
            } else {
                r is Ok && r->Ok_0.0@ == input@.subrange(
                    0,
                    COUNT_BYTES + BYTES_PER_AFFINE * num_keys,
                ) && r->Ok_0.1@ == input@.subrange(
                    COUNT_BYTES + BYTES_PER_AFFINE * num_keys,
                    input.len() as int,
                )
            },
        },
{
    let num_keys = match read_count(input, 0) {
        Ok(count) => count as usize,
        Err(e) => { return Err(PrecompileError::DeserializationError); },
    };
    if num_keys > (input.len() - COUNT_BYTES) / BYTES_PER_AFFINE {
        return Err(PrecompileError::DeserializationError);
    }
    let key_end = COUNT_BYTES + BYTES_PER_AFFINE * num_keys;
    Ok((&input[0..key_end], &input[key_end..input.len()]))
}

/// Whether the outputs of vote `j` in a proof of the votes of `num_votes`
/// votes are all zero.
pub open spec fn spec_outputs_vanish(cast_proof: Seq<u8>, num_votes: int, j: int) -> bool {
    let start = COUNT_BYTES + (BYTES_PER_CAST - BYTES_PER_OUTPUT) * num_votes + BYTES_PER_OUTPUT
        * j;
    forall|i: int| start <= i < start + BYTES_PER_OUTPUT ==> cast_proof[i] == 0
}

/// The answer to the verification of a proof of the votes: one word with
/// the verdict, the two words that introduce a list, and one byte for each
/// vote that tells whether its outputs are all zero, filled up to words.
pub open spec fn spec_cast_answer(verdict: bool, cast_proof: Seq<u8>, num_votes: int) -> Seq<u8> {
    spec_verdict_word(verdict) + Seq::new(
        (2 * WORD_BYTES + num_votes + (WORD_BYTES - num_votes % (WORD_BYTES as int))) as nat,
        |i: int|
            if i == WORD_BYTES - 1 {
                0x40u8
            } else if 2 * WORD_BYTES - COUNT_BYTES <= i < 2 * WORD_BYTES {
                cast_proof[2 * WORD_BYTES - 1 - i]
            } else if 2 * WORD_BYTES <= i < 2 * WORD_BYTES + num_votes && spec_outputs_vanish(
                cast_proof,
                num_votes,
                i - 2 * WORD_BYTES,
            ) {
                1u8
            } else {
                0u8
            },
    )
}

fn outputs_vanish(cast_proof: &[u8], num_votes: usize, j: usize) -> (r: bool)
    requires
        j < num_votes,
        COUNT_BYTES + BYTES_PER_CAST * num_votes <= cast_proof.len(),
    ensures
        r == spec_outputs_vanish(cast_proof@, num_votes as int, j as int),
{
    assert(COUNT_BYTES + 480 * num_votes + 480 * j + 480 <= COUNT_BYTES + 960 * num_votes);
    let start = COUNT_BYTES + (BYTES_PER_CAST - BYTES_PER_OUTPUT) * num_votes + BYTES_PER_OUTPUT
        * j;
    let mut i: usize = 0;
    while i < BYTES_PER_OUTPUT
        invariant
            start + BYTES_PER_OUTPUT <= cast_proof.len(),
            start == COUNT_BYTES + (BYTES_PER_CAST - BYTES_PER_OUTPUT) * num_votes
                + BYTES_PER_OUTPUT * j,
            i <= BYTES_PER_OUTPUT,
            forall|k: int| start <= k < start + i ==> cast_proof@[k] == 0,
        decreases BYTES_PER_OUTPUT - i,
    {
        if cast_proof[start + i] != 0 {
            return false;
        }
        i += 1;
    }
    true
}

/// Answers the verification of a proof of the votes. `cast_proof` is the
/// proof in the arguments of the call, and `verdict` is what its
/// verification gave.
pub fn verify_cast_proof_run(
    cast_proof: &[u8],
    gas_limit: u64,
    verdict: Result<bool, DeserializationError>,
) -> (r: Result<(u64, Vec<u8>), PrecompileError>)
    ensures
        match (verdict, spec_read_count(cast_proof@, 0)) {
            (Ok(verified), Ok(num_votes)) => if COUNT_BYTES + BYTES_PER_CAST * num_votes
                > cast_proof.len() {
                r == Err::<(u64, Vec<u8>), PrecompileError>(PrecompileError::DeserializationError)
            } else {
                r is Ok && r->Ok_0.0 == 0 && r->Ok_0.1@ == spec_cast_answer(
                    verified,
                    cast_proof@,
                    num_votes as int,
                )
            },
            _ => r == Err::<(u64, Vec<u8>), PrecompileError>(PrecompileError::DeserializationError),
        },
{
    let verified = match verdict {
        Ok(verified) => verified,
        Err(e) => { return Err(PrecompileError::DeserializationError); },
    };
    let num_votes = match read_count(cast_proof, 0) {
        Ok(count) => count as usize,
        Err(e) => { return Err(PrecompileError::DeserializationError); },
    };
    if num_votes > (cast_proof.len() - COUNT_BYTES) / BYTES_PER_CAST {
        return Err(PrecompileError::DeserializationError);
    }
    let tail = 2 * WORD_BYTES + num_votes + (WORD_BYTES - num_votes % WORD_BYTES);
    let mut output = verdict_word(verified);
    let mut list: Vec<u8> = Vec::new();
    let mut i: usize = 0;
    while i < tail
        invariant
            COUNT_BYTES + BYTES_PER_CAST * num_votes <= cast_proof.len(),
            tail == 2 * WORD_BYTES + num_votes + (WORD_BYTES - num_votes % WORD_BYTES),
            i <= tail,
            list.len() == i,
            forall|j: int|
                0 <= j < i ==> list@[j] == if j == WORD_BYTES - 1 {
                    0x40u8
                } else if 2 * WORD_BYTES - COUNT_BYTES <= j < 2 * WORD_BYTES {
                    cast_proof@[2 * WORD_BYTES - 1 - j]
                } else if 2 * WORD_BYTES <= j < 2 * WORD_BYTES + num_votes && spec_outputs_vanish(
                    cast_proof@,
                    num_votes as int,
                    j - 2 * WORD_BYTES,
                ) {
                    1u8
                } else {
                    0u8
                },
        decreases tail - i,
    {
        let byte: u8 = if i == WORD_BYTES - 1 {
            0x40
        } else if 2 * WORD_BYTES - COUNT_BYTES <= i && i < 2 * WORD_BYTES {
            cast_proof[2 * WORD_BYTES - 1 - i]
        } else if 2 * WORD_BYTES <= i && i < 2 * WORD_BYTES + num_votes && outputs_vanish(
            cast_proof,
            num_votes,
            i - 2 * WORD_BYTES,
        ) {
            1
        } else {
            0
        };
        list.push(byte);
        i += 1;
    }
    output.append(&mut list);
    assert(output@ =~= spec_cast_answer(verified, cast_proof@, num_votes as int));
    Ok((0, output))
}

/// The tally that the first four bytes of the arguments stand for, most
/// significant byte first.
pub open spec fn spec_tally_argument(input: Seq<u8>) -> u32 {
    ((input[0] as u32) << 24 | (input[1] as u32) << 16 | (input[2] as u32) << 8 | (
    input[3] as u32)) as u32
}

/// The answer to the verification of a tally: a tally above the number of
/// votes is wrong without a look at the votes.
pub open spec fn spec_verify_tally_result_run(input: Seq<u8>, curve: Curve) -> Result<
    Seq<u8>,
    PrecompileError,
> {
    if input.len() < 2 * COUNT_BYTES {
        Err(PrecompileError::DeserializationError)
    } else {
        let tally_result = spec_tally_argument(input);
        let votes = input.subrange(COUNT_BYTES as int, input.len() as int);
        if tally_result > spec_read_count(votes, 0)->Ok_0 {
            Ok(spec_verdict_word(false))
        } else {
            match spec_verify_tally_result(votes, tally_result, curve) {
                Ok(verdict) => Ok(spec_verdict_word(verdict)),
                Err(e) => Err(PrecompileError::DeserializationError),
            }
        }
    }
}

/// Answers the verification of a tally. The arguments are the tally, and
/// the votes as the verifier keeps them.
pub fn verify_tally_result_run(input: &[u8], gas_limit: u64, curve: &Curve) -> (r: Result<
    (u64, Vec<u8>),
    PrecompileError,
>)
    ensures
        match spec_verify_tally_result_run(input@, *curve) {
            Ok(answer) => r is Ok && r->Ok_0.0 == 0 && r->Ok_0.1@ == answer,
            Err(e) => r is Err && r->Err_0 == e,
        },
{
    if input.len() < 2 * COUNT_BYTES {
        return Err(PrecompileError::DeserializationError);
    }
    let tally_result: u32 = (input[0] as u32) << 24 | (input[1] as u32) << 16 | (input[2] as u32)
        << 8 | (input[3] as u32);
    let votes = &input[COUNT_BYTES..input.len()];
    let num_voters = match read_count(votes, 0) {
        Ok(count) => count,
        Err(e) => { return Err(PrecompileError::DeserializationError); },
    };
    if tally_result > num_voters {
        return Ok((0, verdict_word(false)));
    }
    match verify_tally_result(votes, tally_result, curve) {
        Ok(verdict) => Ok((0, verdict_word(verdict))),
        Err(e) => Err(PrecompileError::DeserializationError),
    }
}

} // verus!

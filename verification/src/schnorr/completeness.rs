//! Completeness of the proof of valid signatures at the end of a cycle: the
//! trace of a signature that the naive verifier accepts ends with the
//! commitment of the signature.
//!
//! The rows of a cycle are read as the two scalar multiplications that they
//! spell out: after `2 k` steps the two points are the generator times the
//! `k` most significant bits of `s`, and the voting key times those of `h`.

use crate::air::{lemma_row_of_cycle, spec_holds_at, spec_row_of};
use crate::constraint::{spec_fill_range, spec_write_range};
use crate::ecc::{Affine, Projective, PROJECTIVE_POINT_WIDTH};
use crate::field::Felt;
use crate::rescue::Rescue;
use crate::schnorr::air::{spec_commitment_values, spec_get_assertions};
use crate::schnorr::constants::{
    HASH, H_PK, SCALAR_BITS, SCALAR_MUL_LENGTH, SIG_CYCLE_LENGTH, S_G, TRACE_WIDTH,
};
use crate::schnorr::prover::{spec_challenge, spec_witness_shape, SchnorrProver};
use crate::schnorr::trace::{
    spec_final_step, spec_init_sig_verification_state, spec_scalar_mul_step, spec_update_hash,
};
use crate::schnorr::{spec_prepare_message, spec_verify_signature};
use vstd::prelude::*;

verus! {

/// A step of the hash leaves the registers before the hash state as they
/// are.
proof fn lemma_hash_keeps_the_points(step: int, message: Seq<Felt>, state: Seq<Felt>, rescue: Rescue)
    requires
        state.len() == TRACE_WIDTH,
    ensures
        spec_update_hash(step, message, state, rescue).len() == TRACE_WIDTH,
        forall|j: int|
            0 <= j < HASH ==> (#[trigger] spec_update_hash(step, message, state, rescue)[j])
                == state[j],
{
    reveal(spec_write_range);
    reveal(spec_fill_range);
}

/// The registers of a point hold the point.
proof fn lemma_read_registers(state: Seq<Felt>, offset: int, point: Projective)
    requires
        0 <= offset,
        offset + PROJECTIVE_POINT_WIDTH <= state.len(),
    ensures
        Projective::spec_read(spec_write_range(state, offset, point.spec_registers()), offset)
            == point,
{
    reveal(spec_write_range);
    reveal(Projective::spec_registers);
}

impl SchnorrProver {
    /// The rows of a cycle spell out two scalar multiplications: after
    /// `2 k` steps the point of `s` is the generator times the `k` most
    /// significant bits of `s`, and the point of `h` is the voting key times
    /// those of the challenge.
    pub proof fn lemma_rows_of_scalar_mul(&self, i: int, k: nat)
        requires
            0 <= i < self.voting_keys@.len(),
            i < self.addresses@.len(),
            i < self.signatures@.len(),
            k <= SCALAR_BITS,
        ensures
            ({
                let row = self.spec_trace_row(i, 2 * k);
                let key = self.voting_keys@[i]@;
                let h = spec_challenge(key, self.addresses@[i]@, self.signatures@[i], self.rescue);
                &&& row.len() == TRACE_WIDTH
                &&& Projective::spec_read(row, S_G as int)
                    == self.curve.generator.spec_mul_top_bits_of(
                    self.signatures@[i].1@,
                    k,
                    self.curve,
                )
                &&& Projective::spec_read(row, H_PK as int) == Affine::spec_read(
                    key,
                    0,
                ).spec_mul_top_bits_of(h, k, self.curve)
            }),
        decreases k,
    {
        let key = self.voting_keys@[i]@;
        let s = self.signatures@[i].1@;
        let h = spec_challenge(key, self.addresses@[i]@, self.signatures@[i], self.rescue);
        let message = spec_prepare_message(key, self.addresses@[i]@);
        let generator = self.curve.generator;
        let vkey = Affine::spec_read(key, 0);
        if k == 0 {
            // both points start at the identity
        } else {
            let j = (k - 1) as nat;
            let even = 2 * j as int;
            let odd = even + 1;
            self.lemma_rows_of_scalar_mul(i, j);
            let first = self.spec_trace_row(i, 2 * j);
            let second = self.spec_trace_row(i, 2 * j + 1);
            let third = self.spec_trace_row(i, 2 * k);
            // the doubling
            let hashed = spec_update_hash(even, message, first, self.rescue);
            lemma_hash_keeps_the_points(even, message, first, self.rescue);
            assert(second == spec_scalar_mul_step(even, key, s, h, hashed, self.curve));
            let s_before = generator.spec_mul_top_bits_of(s, j, self.curve);
            let h_before = vkey.spec_mul_top_bits_of(h, j, self.curve);
            assert(Projective::spec_read(hashed, S_G as int) == s_before);
            assert(Projective::spec_read(hashed, H_PK as int) == h_before);
            reveal(spec_write_range);
            reveal(Projective::spec_registers);
            reveal(Affine::spec_registers);
            assert(second.len() == TRACE_WIDTH);
            assert(Projective::spec_read(second, S_G as int) == s_before.spec_double(self.curve));
            assert(Projective::spec_read(second, H_PK as int) == h_before.spec_double(self.curve));
            // the addition
            let again = spec_update_hash(odd, message, second, self.rescue);
            lemma_hash_keeps_the_points(odd, message, second, self.rescue);
            assert(2 * k == 2 * j + 2);
            assert(third == spec_scalar_mul_step(odd, key, s, h, again, self.curve));
            assert(odd / 2 == j);
            assert(Affine::spec_read(generator.spec_registers(), 0) == generator);
        }
    }
}

impl SchnorrProver {
    /// The witness is one that the naive verifier accepts: it has the shape
    /// of a witness, and every signature is valid.
    pub open spec fn spec_accepted(&self) -> bool {
        &&& spec_witness_shape(
            self.voting_keys@.len(),
            self.addresses@.len(),
            self.signatures@.len(),
        ) is Ok
        &&& forall|i: int|
            0 <= i < self.voting_keys@.len() ==> #[trigger] spec_verify_signature(
                self.voting_keys@[i]@,
                self.addresses@[i]@,
                self.signatures@[i],
                self.curve,
                self.rescue,
            )
    }

    /// Row `step` of the cycle of signature `i` is row `i * 512 + step` of
    /// the trace.
    proof fn lemma_row_of_trace(&self, i: int, step: int)
        requires
            0 <= i < self.voting_keys@.len(),
            0 <= step < SIG_CYCLE_LENGTH,
        ensures
            ({
                let rows = self.spec_build_trace();
                &&& spec_row_of(step as usize, SIG_CYCLE_LENGTH, i) == i * SIG_CYCLE_LENGTH + step
                &&& 0 <= i * SIG_CYCLE_LENGTH + step < rows.len()
                &&& rows[i * SIG_CYCLE_LENGTH + step] == self.spec_trace_row(i, step as nat)
            }),
    {
        lemma_row_of_cycle(i, SIG_CYCLE_LENGTH as int, step);
    }

    /// The last row of the cycle of a valid signature holds the commitment
    /// of the signature where the point of `s` was.
    proof fn lemma_last_row(&self, i: int, c: int)
        requires
            0 <= i < self.voting_keys@.len(),
            self.spec_accepted(),
            0 <= c < 6,
        ensures
            self.spec_trace_row(i, (SIG_CYCLE_LENGTH - 1) as nat).len() == TRACE_WIDTH,
            self.spec_trace_row(i, (SIG_CYCLE_LENGTH - 1) as nat)[S_G + c]
                == self.signatures@[i].0[c],
    {
        let key = self.voting_keys@[i]@;
        let signature = self.signatures@[i];
        let h = spec_challenge(key, self.addresses@[i]@, signature, self.rescue);
        let message = spec_prepare_message(key, self.addresses@[i]@);
        self.lemma_rows_of_scalar_mul(i, SCALAR_BITS as nat);
        let before = self.spec_trace_row(i, SCALAR_MUL_LENGTH as nat);
        let last = self.spec_trace_row(i, (SIG_CYCLE_LENGTH - 1) as nat);
        let hashed = spec_update_hash(SCALAR_MUL_LENGTH as int, message, before, self.rescue);
        lemma_hash_keeps_the_points(SCALAR_MUL_LENGTH as int, message, before, self.rescue);
        assert(last == spec_final_step(hashed, self.curve));
        let s_point = self.curve.generator.spec_mul_top_bits_of(
            signature.1@,
            SCALAR_BITS as nat,
            self.curve,
        );
        let h_point = Affine::spec_read(key, 0).spec_mul_top_bits_of(
            h,
            SCALAR_BITS as nat,
            self.curve,
        );
        assert(Projective::spec_read(hashed, S_G as int) == s_point);
        assert(Projective::spec_read(hashed, H_PK as int) == h_point);
        let rhs = hashed.subrange(H_PK as int, H_PK + PROJECTIVE_POINT_WIDTH);
        assert(Projective::spec_read(rhs, 0) == h_point);
        let sum = s_point.spec_add(h_point, self.curve);
        lemma_read_registers(hashed, S_G as int, sum);
        let commitment = sum.spec_to_affine(self.curve);
        assert(spec_verify_signature(
            key,
            self.addresses@[i]@,
            signature,
            self.curve,
            self.rescue,
        ));
        assert(commitment.x.spec_coefficients() == signature.0@);
        reveal(spec_write_range);
        reveal(Affine::spec_registers);
        assert(last[S_G + c] == commitment.spec_registers()[c]);
        assert(commitment.spec_registers()[c] == commitment.x.spec_coefficients()[c]);
    }

    /// Completeness at the boundary, but for the limbs of the scalars: the
    /// trace of a witness that the naive verifier accepts meets the
    /// assertions on the first row of every cycle, and the assertion that
    /// every cycle ends with the commitment of its signature.
    pub proof fn lemma_trace_meets_assertions(&self, k: int)
        requires
            self.wf(),
            self.spec_accepted(),
            0 <= k < 60 || 64 <= k < 70,
        ensures
            spec_get_assertions(self.signatures@)[k].holds(self.spec_build_trace()),
    {
        let rows = self.spec_build_trace();
        let n = self.voting_keys@.len() as int;
        let cycle = SIG_CYCLE_LENGTH as int;
        if 46 <= k < 52 {
            // the commitments, on the first rows
            let c = k - 46;
            assert forall|m: int| 0 <= m < n implies spec_holds_at(
                rows,
                (c + HASH) as usize,
                #[trigger] spec_row_of(0, SIG_CYCLE_LENGTH, m),
                spec_commitment_values(self.signatures@, c)[m],
            ) by {
                self.lemma_row_of_trace(m, 0);
            }
        } else if k < 60 {
            // the other registers, on the first rows
            assert forall|m: int| 0 <= m && spec_row_of(0, SIG_CYCLE_LENGTH, m) < rows.len() implies {
                let row = rows[#[trigger] spec_row_of(0, SIG_CYCLE_LENGTH, m)];
                row == spec_init_sig_verification_state(self.signatures@[m].0@)
            } by {
                assert(m < n) by (nonlinear_arith)
                    requires
                        m * cycle < n * cycle,
                        cycle > 0,
                ;
                self.lemma_row_of_trace(m, 0);
            }
        } else {
            // the commitments, on the last rows
            let c = k - 64;
            assert forall|m: int| 0 <= m < n implies spec_holds_at(
                rows,
                (c + S_G) as usize,
                #[trigger] spec_row_of((SIG_CYCLE_LENGTH - 1) as usize, SIG_CYCLE_LENGTH, m),
                spec_commitment_values(self.signatures@, c)[m],
            ) by {
                self.lemma_row_of_trace(m, cycle - 1);
                self.lemma_last_row(m, c);
            }
        }
    }
}

} // verus!

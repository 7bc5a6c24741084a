//! Completeness of the proof of membership: the trace that the prover
//! builds is one that the constraint system accepts.
//!
//! At the boundary, the trace of a witness that the naive verifier accepts
//! meets every assertion. For this the rows of a cycle are read as the
//! permutations that they spell out: the first hashes the `x` of the key,
//! the second merges the `y`, and each of the others merges the sibling of
//! one level of the path, on the side that the position of the leaf
//! commands.
//!
//! Between the rows, every transition constraint vanishes on the trace of
//! any witness that has the shape of one, provided that the tables of the
//! hash are those of a permutation: that the inverse matrix undoes the
//! matrix and the cube undoes the cube root. That is a fact of the numbers
//! in the tables and of the field, which is taken as a premise here.

use crate::air::{lemma_row_of_cycle, spec_holds_at, spec_row_of};
use crate::constraint::{
    lemma_agg_off, lemma_agg_range_off, lemma_enforce_copy_satisfied, lemma_flags, spec_agg,
    spec_diff, spec_is_binary, spec_not, spec_write_range, spec_zeros,
};
use crate::ecc::{AFFINE_POINT_WIDTH, POINT_COORDINATE_WIDTH};
use crate::field::{lemma_add_zero, lemma_mul_zero, Felt};
use crate::merkle::air::{
    spec_assertion_at, spec_evaluate_transition, spec_get_assertions,
    spec_get_periodic_column_values, ASSERTIONS_PER_KEY,
};
use crate::merkle::constants::{
    spec_cycle_length, HASH, MAX_TREE_DEPTH, NUM_PERIODIC_COLUMNS, POSITION_BIT, TRACE_WIDTH,
};
use crate::merkle::prover::{spec_hash_message, spec_witness_shape, MerkleProver};
use crate::merkle::trace::{spec_position_bit, spec_update_merkle_verification_state};
use crate::merkle::{
    spec_ancestor, spec_hash_voting_key, spec_naive_verify_merkle_proofs, spec_path_digest,
    spec_verify_merkle_proof,
};
use crate::periodic::spec_values_at;
use crate::rescue::{
    lemma_first_half_is_canonical, lemma_round_meets_its_constraints, spec_absorb_chunk,
    spec_absorbed, spec_add_constants, spec_apply_matrix, spec_chunk, spec_digest,
    spec_first_half, spec_permutation, spec_round, spec_rounds, spec_second_half_undone,
    spec_tables_invert, Rescue, DIGEST_SIZE, HASH_CYCLE_LENGTH, NUM_HASH_ROUNDS, RATE_WIDTH,
    STATE_WIDTH,
};
use crate::wire::spec_all_canonical;
use vstd::prelude::*;

verus! {

/// The hash state of a row.
pub open spec fn spec_hash_state(row: Seq<Felt>) -> Seq<Felt> {
    row.subrange(HASH as int, TRACE_WIDTH as int)
}

/// The hash state that permutation `p` of the cycle of a key starts from:
/// the `x` of the key for the first; for each of the others the digest of
/// the one before and the next chunk of the message, on the sides that the
/// position commands.
pub open spec fn spec_phase_input(
    voting_key: Seq<Felt>,
    hash_message: Seq<Felt>,
    hash_index: usize,
    p: nat,
    rescue: Rescue,
) -> Seq<Felt>
    decreases p,
{
    if p == 0 {
        voting_key.subrange(0, POINT_COORDINATE_WIDTH as int).push(Felt::spec_zero()) + spec_zeros(
            RATE_WIDTH as nat,
        )
    } else {
        let digest = spec_permutation(
            spec_phase_input(voting_key, hash_message, hash_index, (p - 1) as nat, rescue),
            rescue,
        ).subrange(0, DIGEST_SIZE as int);
        let chunk = hash_message.subrange(RATE_WIDTH * (p - 1), RATE_WIDTH * p);
        if spec_position_bit(hash_index, p - 1) == 0 {
            digest + chunk
        } else {
            chunk + digest
        }
    }
}

/// The digest that permutation `p` of the cycle of a key ends with.
pub open spec fn spec_phase_digest(
    voting_key: Seq<Felt>,
    hash_message: Seq<Felt>,
    hash_index: usize,
    p: nat,
    rescue: Rescue,
) -> Seq<Felt> {
    spec_permutation(
        spec_phase_input(voting_key, hash_message, hash_index, p, rescue),
        rescue,
    ).subrange(0, DIGEST_SIZE as int)
}

/// The state after at least one round has the width of the hash state.
proof fn lemma_rounds_len(s: Seq<Felt>, n: nat, rescue: Rescue)
    requires
        n > 0 || s.len() == STATE_WIDTH,
    ensures
        spec_rounds(s, n, rescue).len() == STATE_WIDTH,
{
    reveal(spec_add_constants);
    reveal(spec_apply_matrix);
}

/// The state that a permutation of a cycle starts from has the width of the
/// hash state.
proof fn lemma_phase_input_len(
    voting_key: Seq<Felt>,
    hash_message: Seq<Felt>,
    hash_index: usize,
    p: nat,
    rescue: Rescue,
)
    requires
        voting_key.len() == AFFINE_POINT_WIDTH,
        RATE_WIDTH * p <= hash_message.len(),
    ensures
        spec_phase_input(voting_key, hash_message, hash_index, p, rescue).len() == STATE_WIDTH,
        spec_phase_digest(voting_key, hash_message, hash_index, p, rescue).len() == DIGEST_SIZE,
    decreases p,
{
    if p > 0 {
        lemma_phase_input_len(voting_key, hash_message, hash_index, (p - 1) as nat, rescue);
    }
    lemma_rounds_len(
        spec_phase_input(voting_key, hash_message, hash_index, p, rescue),
        NUM_HASH_ROUNDS as nat,
        rescue,
    );
}

impl MerkleProver {
    /// The rows of a cycle spell out its permutations: row `8 p + q` holds
    /// the state of permutation `p` after `q` rounds, and the position bit
    /// that came with its chunk.
    pub proof fn lemma_rows_of_rounds(
        &self,
        branches: Seq<Vec<Felt>>,
        hash_indices: Seq<usize>,
        i: int,
        p: nat,
        q: nat,
    )
        requires
            0 <= i < self.voting_keys@.len(),
            i < branches.len(),
            i < hash_indices.len(),
            self.tree_depth <= MAX_TREE_DEPTH,
            branches[i]@.len() == self.tree_depth * RATE_WIDTH,
            p <= self.tree_depth + 1,
            q < HASH_CYCLE_LENGTH,
        ensures
            ({
                let row = self.spec_trace_row(
                    branches,
                    hash_indices,
                    i,
                    (HASH_CYCLE_LENGTH * p + q) as nat,
                );
                let message = spec_hash_message(self.voting_keys@[i]@, branches[i]@);
                let index = (hash_indices[i] << 1) as usize;
                &&& row.len() == TRACE_WIDTH
                &&& spec_hash_state(row) == spec_rounds(
                    spec_phase_input(self.voting_keys@[i]@, message, index, p, self.rescue),
                    q,
                    self.rescue,
                )
                &&& p > 0 ==> row[POSITION_BIT as int] == Felt::spec_new(
                    spec_position_bit(index, p - 1) as u64,
                )
            }),
        decreases HASH_CYCLE_LENGTH * p + q,
    {
        let key = self.voting_keys@[i]@;
        let message = spec_hash_message(key, branches[i]@);
        let index = (hash_indices[i] << 1) as usize;
        let step = (HASH_CYCLE_LENGTH * p + q) as nat;
        let row = self.spec_trace_row(branches, hash_indices, i, step);
        let input = spec_phase_input(key, message, index, p, self.rescue);
        assert(message.len() == RATE_WIDTH * (self.tree_depth + 1));
        lemma_phase_input_len(key, message, index, p, self.rescue);
        if step == 0 {
            assert(spec_hash_state(row) =~= input);
        } else if q > 0 {
            // a round
            let before = self.spec_trace_row(branches, hash_indices, i, (step - 1) as nat);
            self.lemma_rows_of_rounds(branches, hash_indices, i, p, (q - 1) as nat);
            assert((step - 1) % (HASH_CYCLE_LENGTH as int) == q - 1);
            lemma_rounds_len(input, q, self.rescue);
            reveal(spec_write_range);
            assert(before.subrange(HASH as int, HASH + STATE_WIDTH) == spec_hash_state(before));
            assert(spec_hash_state(row) =~= spec_rounds(input, q, self.rescue));
        } else {
            // the next chunk enters
            let before = self.spec_trace_row(branches, hash_indices, i, (step - 1) as nat);
            self.lemma_rows_of_rounds(
                branches,
                hash_indices,
                i,
                (p - 1) as nat,
                (HASH_CYCLE_LENGTH - 1) as nat,
            );
            assert(step - 1 == HASH_CYCLE_LENGTH * (p - 1) + (HASH_CYCLE_LENGTH - 1));
            assert((step - 1) % (HASH_CYCLE_LENGTH as int) == HASH_CYCLE_LENGTH - 1);
            assert((step - 1) / (HASH_CYCLE_LENGTH as int) == p - 1);
            lemma_phase_input_len(key, message, index, (p - 1) as nat, self.rescue);
            let earlier = spec_phase_input(key, message, index, (p - 1) as nat, self.rescue);
            lemma_rounds_len(earlier, NUM_HASH_ROUNDS as nat, self.rescue);
            reveal(spec_write_range);
            let digest = spec_phase_digest(key, message, index, (p - 1) as nat, self.rescue);
            assert(before.subrange(HASH as int, HASH + RATE_WIDTH) =~= digest);
            assert(spec_hash_state(row) =~= input);
        }
    }
}

/// The ancestor of a leaf, `levels` levels up, is its position shifted by
/// as many bits.
proof fn lemma_ancestor_is_shift(position: usize, levels: usize)
    requires
        levels <= MAX_TREE_DEPTH,
    ensures
        spec_ancestor(position as nat, levels as nat) == position >> levels,
    decreases levels,
{
    if levels == 0 {
        assert(position >> 0usize == position) by (bit_vector);
    } else {
        let below = (levels - 1) as usize;
        lemma_ancestor_is_shift(position, below);
        assert(position >> levels == (position >> below) / 2) by (bit_vector)
            requires
                0 < levels <= 30,
                below == levels - 1,
        ;
    }
}

/// The bit that commands the side of a chunk: none for the `y` of the key,
/// and for the sibling of a level the lowest bit of the ancestor of the leaf
/// on that level.
proof fn lemma_position_bits(position: usize, p: usize)
    requires
        p <= MAX_TREE_DEPTH,
    ensures
        spec_position_bit((position << 1) as usize, 0) == 0,
        p > 0 ==> spec_position_bit((position << 1) as usize, p as int) == spec_ancestor(
            position as nat,
            (p - 1) as nat,
        ) % 2,
{
    let shifted = (position << 1) as usize;
    assert((shifted >> 0usize) & 1 == 0) by (bit_vector)
        requires
            shifted == position << 1,
    ;
    if p > 0 {
        let below = (p - 1) as usize;
        lemma_ancestor_is_shift(position, below);
        assert((shifted >> p) & 1 == (position >> below) % 2) by (bit_vector)
            requires
                shifted == position << 1,
                0 < p <= 30,
                below == p - 1,
        ;
    }
}

/// The first permutation of a cycle ends with the digest of the `x` of the
/// key, filled up to the rate with a zero.
proof fn lemma_first_digest(
    voting_key: Seq<Felt>,
    hash_message: Seq<Felt>,
    hash_index: usize,
    rescue: Rescue,
)
    requires
        voting_key.len() == AFFINE_POINT_WIDTH,
        spec_all_canonical(voting_key),
    ensures
        spec_phase_digest(voting_key, hash_message, hash_index, 0, rescue) == spec_digest(
            voting_key.subrange(0, POINT_COORDINATE_WIDTH as int).push(Felt::spec_zero()),
            rescue,
        ),
{
    let x = voting_key.subrange(0, POINT_COORDINATE_WIDTH as int).push(Felt::spec_zero());
    let input = spec_phase_input(voting_key, hash_message, hash_index, 0, rescue);
    let absorbed = spec_absorb_chunk(spec_absorbed(x, 0, rescue), spec_chunk(x, 0));
    assert(absorbed =~= input) by {
        assert forall|i: int| 0 <= i < STATE_WIDTH implies absorbed[i] == input[i] by {
            if i < RATE_WIDTH {
                assert(x[i].is_canonical()) by {
                    if i < POINT_COORDINATE_WIDTH {
                        assert(x[i] == voting_key[i]);
                    }
                }
                crate::field::lemma_commutative(Felt::spec_zero(), x[i]);
                crate::field::lemma_add_zero(x[i]);
            }
        }
    }
    assert(spec_absorbed(x, 1, rescue) == spec_permutation(absorbed, rescue));
}

/// The permutations of a cycle after the first follow the path of the key:
/// permutation `p` ends with the digest that the path reaches `p - 1`
/// levels above the leaf of the key.
proof fn lemma_phase_digests(
    voting_key: Seq<Felt>,
    branch: Seq<Felt>,
    position: usize,
    depth: nat,
    p: nat,
    rescue: Rescue,
)
    requires
        voting_key.len() == AFFINE_POINT_WIDTH,
        spec_all_canonical(voting_key),
        depth <= MAX_TREE_DEPTH,
        branch.len() == depth * RATE_WIDTH,
        1 <= p <= depth + 1,
    ensures
        spec_phase_digest(
            voting_key,
            spec_hash_message(voting_key, branch),
            (position << 1) as usize,
            p,
            rescue,
        ) == spec_path_digest(
            spec_hash_voting_key(voting_key, rescue),
            branch,
            position as nat,
            (p - 1) as nat,
            rescue,
        ),
    decreases p,
{
    let message = spec_hash_message(voting_key, branch);
    let index = (position << 1) as usize;
    let before = spec_phase_digest(voting_key, message, index, (p - 1) as nat, rescue);
    let chunk = message.subrange(RATE_WIDTH * (p - 1), RATE_WIDTH * p);
    lemma_position_bits(position, (p - 1) as usize);
    if p == 1 {
        lemma_first_digest(voting_key, message, index, rescue);
        assert(chunk =~= voting_key.subrange(
            POINT_COORDINATE_WIDTH as int,
            AFFINE_POINT_WIDTH as int,
        ).push(Felt::spec_zero()));
    } else {
        lemma_phase_digests(voting_key, branch, position, depth, (p - 1) as nat, rescue);
        assert(chunk =~= branch.subrange(DIGEST_SIZE * (p - 2), DIGEST_SIZE * (p - 1)));
    }
}

impl MerkleProver {
    /// The witness is one that the naive verifier accepts: it has the shape
    /// of a witness, the keys are canonical, and the path of every key
    /// leads to the root.
    pub open spec fn spec_accepted(&self, branches: Seq<Vec<Felt>>, hash_indices: Seq<usize>) -> bool {
        &&& spec_witness_shape(
            self.voting_keys@.len(),
            branches,
            hash_indices.len(),
            self.tree_depth as nat,
        ) is Ok
        &&& forall|i: int|
            0 <= i < self.voting_keys@.len() ==> spec_all_canonical(
                (#[trigger] self.voting_keys@[i])@,
            )
        &&& spec_naive_verify_merkle_proofs(
            self.tree_root@,
            self.voting_keys@,
            branches,
            hash_indices,
            self.tree_depth as nat,
            self.rescue,
        )
    }

    /// Row `step` of the cycle of key `i` is row `i * cycle + step` of the
    /// trace.
    proof fn lemma_row_of_trace(
        &self,
        branches: Seq<Vec<Felt>>,
        hash_indices: Seq<usize>,
        i: int,
        step: int,
    )
        requires
            0 <= i < self.voting_keys@.len(),
            0 <= step < spec_cycle_length(self.tree_depth as nat),
        ensures
            ({
                let cycle = spec_cycle_length(self.tree_depth as nat) as int;
                let rows = self.spec_build_trace(branches, hash_indices);
                &&& 0 <= i * cycle + step < rows.len()
                &&& rows[i * cycle + step] == self.spec_trace_row(
                    branches,
                    hash_indices,
                    i,
                    step as nat,
                )
            }),
    {
        let cycle = spec_cycle_length(self.tree_depth as nat) as int;
        let n = self.voting_keys@.len() as int;
        lemma_row_of_cycle(i, cycle, step);
        assert((i + 1) * cycle <= n * cycle) by (nonlinear_arith)
            requires
                i + 1 <= n,
                cycle >= 0,
        ;
        assert(i * cycle >= 0) by (nonlinear_arith)
            requires
                i >= 0,
                cycle >= 0,
        ;
    }

    /// Completeness at the boundary: the trace of a witness that the naive
    /// verifier accepts meets every boundary assertion of the constraint
    /// system for the root and the keys of the prover.
    pub proof fn lemma_trace_meets_assertions(
        &self,
        branches: Seq<Vec<Felt>>,
        hash_indices: Seq<usize>,
        k: int,
    )
        requires
            self.wf(),
            self.spec_accepted(branches, hash_indices),
            0 <= k < ASSERTIONS_PER_KEY * self.voting_keys@.len() + RATE_WIDTH,
        ensures
            spec_get_assertions(
                self.tree_root@,
                self.voting_keys@,
                spec_cycle_length(self.tree_depth as nat) as int,
            )[k].holds(self.spec_build_trace(branches, hash_indices)),
    {
        let depth = self.tree_depth as nat;
        let cycle = spec_cycle_length(depth) as int;
        let n = self.voting_keys@.len() as int;
        let rows = self.spec_build_trace(branches, hash_indices);
        let assertion = spec_assertion_at(self.tree_root@, self.voting_keys@, cycle, k);
        if k < ASSERTIONS_PER_KEY * n {
            let i = k / (ASSERTIONS_PER_KEY as int);
            let j = k % (ASSERTIONS_PER_KEY as int);
            let key = self.voting_keys@[i]@;
            let message = spec_hash_message(key, branches[i]@);
            let index = (hash_indices[i] << 1) as usize;
            assert((i * cycle) as usize == i * cycle) by {
                assert(i * cycle <= n * cycle) by (nonlinear_arith)
                    requires
                        0 <= i < n,
                        cycle >= 0,
                ;
                assert(i * cycle >= 0) by (nonlinear_arith)
                    requires
                        i >= 0,
                        cycle >= 0,
                ;
            }
            if j < 2 * POINT_COORDINATE_WIDTH && j % 2 == 1 || j == ASSERTIONS_PER_KEY - 1 {
                // on the row where the y of the key has entered the state
                self.lemma_row_of_trace(branches, hash_indices, i, HASH_CYCLE_LENGTH as int);
                self.lemma_rows_of_rounds(branches, hash_indices, i, 1, 0);
                lemma_position_bits(hash_indices[i], 0);
                lemma_phase_input_len(key, message, index, 0, self.rescue);
                lemma_phase_input_len(key, message, index, 1, self.rescue);
                let row = self.spec_trace_row(branches, hash_indices, i, HASH_CYCLE_LENGTH as nat);
                if j < 2 * POINT_COORDINATE_WIDTH {
                    assert(row[j / 2 + HASH + RATE_WIDTH] == spec_hash_state(row)[j / 2
                        + RATE_WIDTH]);
                }
            } else {
                // on the first row of the cycle
                self.lemma_row_of_trace(branches, hash_indices, i, 0);
            }
        } else {
            // on the last row of every cycle
            let c = k - ASSERTIONS_PER_KEY * n;
            assert forall|m: int|
                0 <= m && spec_row_of((cycle - 1) as usize, cycle as usize, m)
                    < rows.len() implies spec_holds_at(
                rows,
                (c + HASH) as usize,
                #[trigger] spec_row_of((cycle - 1) as usize, cycle as usize, m),
                self.tree_root@[c],
            ) by {
                assert(m < n) by (nonlinear_arith)
                    requires
                        cycle - 1 + m * cycle < n * cycle,
                        cycle > 0,
                ;
                let key = self.voting_keys@[m]@;
                let message = spec_hash_message(key, branches[m]@);
                let index = (hash_indices[m] << 1) as usize;
                self.lemma_row_of_trace(branches, hash_indices, m, cycle - 1);
                assert(m * cycle + (cycle - 1) == cycle - 1 + m * cycle);
                self.lemma_rows_of_rounds(
                    branches,
                    hash_indices,
                    m,
                    depth + 1,
                    (HASH_CYCLE_LENGTH - 1) as nat,
                );
                lemma_phase_digests(
                    key,
                    branches[m]@,
                    hash_indices[m],
                    depth,
                    depth + 1,
                    self.rescue,
                );
                assert(spec_verify_merkle_proof(
                    self.tree_root@,
                    self.voting_keys@[m]@,
                    branches[m]@,
                    hash_indices[m] as nat,
                    depth,
                    self.rescue,
                ));
                let row = self.spec_trace_row(branches, hash_indices, m, (cycle - 1) as nat);
                lemma_phase_input_len(key, message, index, depth + 1, self.rescue);
                assert(row[c + HASH] == spec_hash_state(row)[c]);
                assert(spec_phase_digest(key, message, index, depth + 1, self.rescue)[c]
                    == spec_hash_state(row)[c]);
            }
        }
    }
}

// TRANSITION CONSTRAINTS
// ================================================================================================

/// What the periodic columns tell a row of a cycle: whether it is the row of
/// a round, that the cycle goes on, and the constants of the round.
pub open spec fn spec_values_of_step(periodic_values: Seq<Felt>, step: int, rescue: Rescue) -> bool {
    let round = step % (HASH_CYCLE_LENGTH as int);
    &&& periodic_values.len() == NUM_PERIODIC_COLUMNS
    &&& periodic_values[0] == Felt::spec_from_bool(round < NUM_HASH_ROUNDS)
    &&& periodic_values[1] == Felt::spec_one()
    &&& round < NUM_HASH_ROUNDS ==> periodic_values.subrange(2, NUM_PERIODIC_COLUMNS as int)
        == rescue.ark[round]@
}

/// The transition constraints vanish on a row and the row that the
/// transition function makes of it, where the tables of the hash are those
/// of a permutation.
pub proof fn lemma_step_meets_constraints(
    current: Seq<Felt>,
    hash_message: Seq<Felt>,
    hash_index: usize,
    step: int,
    periodic_values: Seq<Felt>,
    rescue: Rescue,
)
    requires
        current.len() == TRACE_WIDTH,
        0 <= step,
        step % (HASH_CYCLE_LENGTH as int) >= NUM_HASH_ROUNDS ==> RATE_WIDTH * (step / (
        HASH_CYCLE_LENGTH as int) + 1) <= hash_message.len(),
        spec_values_of_step(periodic_values, step, rescue),
        spec_tables_invert(rescue),
    ensures
        spec_evaluate_transition(
            spec_zeros(TRACE_WIDTH as nat),
            current,
            spec_update_merkle_verification_state(step, hash_message, hash_index, current, rescue),
            periodic_values,
            rescue,
        ) == spec_zeros(TRACE_WIDTH as nat),
{
    reveal(spec_write_range);
    let zeros = spec_zeros(TRACE_WIDTH as nat);
    let next = spec_update_merkle_verification_state(step, hash_message, hash_index, current, rescue);
    let round = step % (HASH_CYCLE_LENGTH as int);
    let state = current.subrange(HASH as int, TRACE_WIDTH as int);
    assert(next.len() == TRACE_WIDTH);
    let after = next.subrange(HASH as int, TRACE_WIDTH as int);
    let ark = periodic_values.subrange(2, NUM_PERIODIC_COLUMNS as int);
    let digest = current.subrange(HASH as int, HASH + RATE_WIDTH);
    let bit = next[POSITION_BIT as int];
    let one = Felt::spec_one();
    let zero = Felt::spec_zero();
    lemma_flags();
    if round < NUM_HASH_ROUNDS {
        // the round
        assert(current.subrange(HASH as int, HASH + STATE_WIDTH) == state);
        assert(spec_round(state, ark, rescue).len() == STATE_WIDTH) by {
            reveal(spec_add_constants);
            reveal(spec_apply_matrix);
        }
        assert(after =~= spec_round(state, ark, rescue));
        lemma_first_half_is_canonical(state, ark, rescue);
        lemma_round_meets_its_constraints(zeros, HASH as int, state, ark, one, rescue);
        // nothing else is constrained
        lemma_agg_off(zeros, POSITION_BIT as int, spec_is_binary(bit));
        lemma_mul_zero(spec_not(bit));
        lemma_mul_zero(bit);
        lemma_agg_range_off(
            zeros,
            HASH as int,
            spec_diff(next.subrange(HASH as int, HASH + RATE_WIDTH), digest),
        );
        lemma_agg_range_off(
            zeros,
            HASH + RATE_WIDTH,
            spec_diff(next.subrange(HASH + RATE_WIDTH, TRACE_WIDTH as int), digest),
        );
    } else {
        // the next chunk enters
        let index = step / (HASH_CYCLE_LENGTH as int);
        let b = spec_position_bit(hash_index, index);
        assert(b == 0 || b == 1) by {
            let shift = index as usize;
            assert((hash_index >> shift) & 1 == 0 || (hash_index >> shift) & 1 == 1)
                by (bit_vector);
        }
        assert(bit == Felt::spec_new(b as u64));
        assert(bit == if b == 0 {
            zero
        } else {
            one
        });
        lemma_agg_range_off(
            zeros,
            HASH as int,
            spec_diff(spec_second_half_undone(after, ark, rescue), spec_first_half(state, ark, rescue)),
        );
        lemma_mul_zero(one);
        lemma_add_zero(zero);
        assert(spec_agg(zeros, POSITION_BIT as int, one, spec_is_binary(bit)) =~= zeros);
        if b == 0 {
            assert(next.subrange(HASH as int, HASH + RATE_WIDTH) =~= digest);
            lemma_enforce_copy_satisfied(zeros, HASH as int, digest, one);
            lemma_agg_range_off(
                zeros,
                HASH + RATE_WIDTH,
                spec_diff(next.subrange(HASH + RATE_WIDTH, TRACE_WIDTH as int), digest),
            );
        } else {
            assert(next.subrange(HASH + RATE_WIDTH, TRACE_WIDTH as int) =~= digest);
            lemma_agg_range_off(
                zeros,
                HASH as int,
                spec_diff(next.subrange(HASH as int, HASH + RATE_WIDTH), digest),
            );
            lemma_enforce_copy_satisfied(zeros, HASH + RATE_WIDTH, digest, one);
        }
    }
}

/// Where the mask of the cycle is zero, nothing is constrained.
pub proof fn lemma_masked_row_meets_constraints(
    current: Seq<Felt>,
    next: Seq<Felt>,
    periodic_values: Seq<Felt>,
    rescue: Rescue,
)
    requires
        periodic_values.len() == NUM_PERIODIC_COLUMNS,
        periodic_values[1] == Felt::spec_zero(),
    ensures
        spec_evaluate_transition(
            spec_zeros(TRACE_WIDTH as nat),
            current,
            next,
            periodic_values,
            rescue,
        ) == spec_zeros(TRACE_WIDTH as nat),
{
    let zeros = spec_zeros(TRACE_WIDTH as nat);
    let hash_flag = periodic_values[0];
    let bit = next[POSITION_BIT as int];
    let digest = current.subrange(HASH as int, HASH + RATE_WIDTH);
    let ark = periodic_values.subrange(2, NUM_PERIODIC_COLUMNS as int);
    lemma_mul_zero(hash_flag);
    lemma_mul_zero(spec_not(hash_flag));
    lemma_mul_zero(spec_not(bit));
    lemma_mul_zero(bit);
    lemma_agg_range_off(
        zeros,
        HASH as int,
        spec_diff(
            spec_second_half_undone(next.subrange(HASH as int, TRACE_WIDTH as int), ark, rescue),
            spec_first_half(current.subrange(HASH as int, TRACE_WIDTH as int), ark, rescue),
        ),
    );
    lemma_agg_off(zeros, POSITION_BIT as int, spec_is_binary(bit));
    lemma_agg_range_off(
        zeros,
        HASH as int,
        spec_diff(next.subrange(HASH as int, HASH + RATE_WIDTH), digest),
    );
    lemma_agg_range_off(
        zeros,
        HASH + RATE_WIDTH,
        spec_diff(next.subrange(HASH + RATE_WIDTH, TRACE_WIDTH as int), digest),
    );
}

impl MerkleProver {
    /// Completeness of the transitions: on every two consecutive rows of the
    /// trace of a witness that has the shape of one, with the values of the
    /// periodic columns on the first of the two, every transition constraint
    /// vanishes, where the tables of the hash are those of a permutation.
    pub proof fn lemma_trace_meets_constraints(
        &self,
        branches: Seq<Vec<Felt>>,
        hash_indices: Seq<usize>,
        r: int,
    )
        requires
            self.wf(),
            spec_witness_shape(
                self.voting_keys@.len(),
                branches,
                hash_indices.len(),
                self.tree_depth as nat,
            ) is Ok,
            spec_tables_invert(self.rescue),
            0 <= r,
            r + 1 < self.voting_keys@.len() * spec_cycle_length(self.tree_depth as nat),
        ensures
            ({
                let rows = self.spec_build_trace(branches, hash_indices);
                let columns = spec_get_periodic_column_values(
                    self.rescue,
                    spec_cycle_length(self.tree_depth as nat),
                );
                spec_evaluate_transition(
                    spec_zeros(TRACE_WIDTH as nat),
                    rows[r],
                    rows[r + 1],
                    spec_values_at(columns, r),
                    self.rescue,
                ) == spec_zeros(TRACE_WIDTH as nat)
            }),
    {
        let depth = self.tree_depth as nat;
        let cycle = spec_cycle_length(depth) as int;
        let n = self.voting_keys@.len() as int;
        let rows = self.spec_build_trace(branches, hash_indices);
        let columns = spec_get_periodic_column_values(self.rescue, cycle as nat);
        let values = spec_values_at(columns, r);
        let i = r / cycle;
        let s = r % cycle;
        vstd::arithmetic::div_mod::lemma_fundamental_div_mod(r, cycle);
        assert(cycle * i == i * cycle) by (nonlinear_arith);
        assert(0 <= i < n) by (nonlinear_arith)
            requires
                0 <= r < n * cycle,
                r == i * cycle + s,
                0 <= s < cycle,
        ;
        // the rows of a hash cycle are the same in every cycle of a key
        assert(r % (HASH_CYCLE_LENGTH as int) == s % (HASH_CYCLE_LENGTH as int)) by {
            assert(i * cycle == HASH_CYCLE_LENGTH * (i * (depth + 2))) by (nonlinear_arith)
                requires
                    cycle == (depth + 2) * HASH_CYCLE_LENGTH,
            ;
            vstd::arithmetic::div_mod::lemma_mod_multiples_vanish(
                i * (depth + 2),
                s,
                HASH_CYCLE_LENGTH as int,
            );
        }
        let p = (s / (HASH_CYCLE_LENGTH as int)) as nat;
        let q = (s % (HASH_CYCLE_LENGTH as int)) as nat;
        assert(p <= depth + 1);
        self.lemma_row_of_trace(branches, hash_indices, i, s);
        self.lemma_rows_of_rounds(branches, hash_indices, i, p, q);
        let current = self.spec_trace_row(branches, hash_indices, i, s as nat);
        if s < cycle - 1 {
            let message = spec_hash_message(self.voting_keys@[i]@, branches[i]@);
            self.lemma_row_of_trace(branches, hash_indices, i, s + 1);
            assert(rows[r + 1] == self.spec_trace_row(branches, hash_indices, i, (s + 1) as nat));
            assert(values[0] == Felt::spec_from_bool(q < NUM_HASH_ROUNDS));
            assert(values[1] == Felt::spec_one());
            if q < NUM_HASH_ROUNDS {
                assert(values.subrange(2, NUM_PERIODIC_COLUMNS as int) =~= self.rescue.ark[q as int]@);
            }
            lemma_step_meets_constraints(
                current,
                message,
                (hash_indices[i] << 1) as usize,
                s,
                values,
                self.rescue,
            );
        } else {
            assert(values[1] == Felt::spec_zero());
            lemma_masked_row_meets_constraints(rows[r], rows[r + 1], values, self.rescue);
        }
    }
}

} // verus!

//! The permutation hash: a sponge over a state of fourteen registers, of
//! which seven are absorbed and squeezed at a time.
//!
//! One round is two half rounds: cube every register, multiply by the MDS
//! matrix and add constants; then take the cube root of every register,
//! multiply by the MDS matrix and add constants. [`apply_round`] is the step
//! that the prover takes; [`enforce_round`] is the constraint that checks it,
//! and meets the step in the middle so that no cube root is evaluated
//! symbolically. The matrix and the round constants are tables that the
//! caller builds once.

use crate::constraint::{
    agg_range, all_canonical, diff, lemma_enforce_copy_satisfied, spec_agg_range, spec_diff,
    spec_write_range, spec_zeros, write_range, zeros,
};
use crate::field::{lemma_add_sub, lemma_canonical, Felt};
use crate::periodic::columns_view;
use crate::wire::{spec_element_bytes, write_element};
use vstd::prelude::*;

verus! {

/// Number of registers of the hash state.
pub const STATE_WIDTH: usize = 14;

/// Number of registers that one permutation absorbs.
pub const RATE_WIDTH: usize = 7;

/// Number of registers of a digest.
pub const DIGEST_SIZE: usize = 7;

/// Number of rounds of one permutation.
pub const NUM_HASH_ROUNDS: usize = 7;

/// Number of rows that one permutation takes in a trace: its rounds, and one
/// row in which the next chunk enters the state.
pub const HASH_CYCLE_LENGTH: usize = 8;

/// Number of constants of a round.
pub const ARK_WIDTH: usize = 28;

/// The exponent of the S-box.
pub const ALPHA: u64 = 3;

/// The exponent of the inverse S-box: the inverse of `ALPHA` modulo `p - 1`.
pub const INV_ALPHA: u64 = 3146514939656186539;

/// The tables of the permutation.
#[derive(Clone, Copy, Debug)]
pub struct Rescue {
    /// The MDS matrix, row by row.
    pub mds: [[Felt; STATE_WIDTH]; STATE_WIDTH],
    /// The inverse of the MDS matrix, row by row.
    pub inv_mds: [[Felt; STATE_WIDTH]; STATE_WIDTH],
    /// The constants of each round: those of the first half round, then
    /// those of the second.
    pub ark: [[Felt; ARK_WIDTH]; NUM_HASH_ROUNDS],
}

/// The rows of a matrix over the state.
pub open spec fn matrix_view(m: [[Felt; STATE_WIDTH]; STATE_WIDTH]) -> Seq<Seq<Felt>> {
    Seq::new(STATE_WIDTH as nat, |i: int| m[i]@)
}

/// A table of `rows` rows of `width` elements.
pub open spec fn spec_has_shape(m: Seq<Vec<Felt>>, rows: nat, width: nat) -> bool {
    &&& m.len() == rows
    &&& forall|i: int| 0 <= i < rows ==> (#[trigger] m[i]).len() == width
}

impl Rescue {
    /// The tables of a permutation, if they have its dimensions: two square
    /// matrices over the state, and one row of constants for each round.
    pub fn new(mds: Vec<Vec<Felt>>, inv_mds: Vec<Vec<Felt>>, ark: Vec<Vec<Felt>>) -> (r: Option<
        Rescue,
    >)
        ensures
            r is Some <==> spec_has_shape(mds@, STATE_WIDTH as nat, STATE_WIDTH as nat)
                && spec_has_shape(inv_mds@, STATE_WIDTH as nat, STATE_WIDTH as nat)
                && spec_has_shape(ark@, NUM_HASH_ROUNDS as nat, ARK_WIDTH as nat),
            r is Some ==> {
                &&& forall|i: int, j: int|
                    0 <= i < STATE_WIDTH && 0 <= j < STATE_WIDTH ==> #[trigger] r->0.mds[i][j]
                        == mds@[i]@[j]
                &&& forall|i: int, j: int|
                    0 <= i < STATE_WIDTH && 0 <= j < STATE_WIDTH ==> #[trigger] r->0.inv_mds[i][j]
                        == inv_mds@[i]@[j]
                &&& forall|i: int, j: int|
                    0 <= i < NUM_HASH_ROUNDS && 0 <= j < ARK_WIDTH ==> #[trigger] r->0.ark[i][j]
                        == ark@[i]@[j]
            },
    {
        if !has_shape(&mds, STATE_WIDTH, STATE_WIDTH) || !has_shape(
            &inv_mds,
            STATE_WIDTH,
            STATE_WIDTH,
        ) || !has_shape(&ark, NUM_HASH_ROUNDS, ARK_WIDTH) {
            return None;
        }
        let mut rescue = Rescue {
            mds: [[Felt::zero();STATE_WIDTH];STATE_WIDTH],
            inv_mds: [[Felt::zero();STATE_WIDTH];STATE_WIDTH],
            ark: [[Felt::zero();ARK_WIDTH];NUM_HASH_ROUNDS],
        };
        let mut i: usize = 0;
        while i < STATE_WIDTH
            invariant
                spec_has_shape(mds@, STATE_WIDTH as nat, STATE_WIDTH as nat),
                spec_has_shape(inv_mds@, STATE_WIDTH as nat, STATE_WIDTH as nat),
                i <= STATE_WIDTH,
                forall|k: int, j: int|
                    0 <= k < i && 0 <= j < STATE_WIDTH ==> #[trigger] rescue.mds[k][j]
                        == mds@[k]@[j],
                forall|k: int, j: int|
                    0 <= k < i && 0 <= j < STATE_WIDTH ==> #[trigger] rescue.inv_mds[k][j]
                        == inv_mds@[k]@[j],
            decreases STATE_WIDTH - i,
        {
            let mut row = [Felt::zero();STATE_WIDTH];
            let mut inv_row = [Felt::zero();STATE_WIDTH];
            let mut j: usize = 0;
            while j < STATE_WIDTH
                invariant
                    spec_has_shape(mds@, STATE_WIDTH as nat, STATE_WIDTH as nat),
                    spec_has_shape(inv_mds@, STATE_WIDTH as nat, STATE_WIDTH as nat),
                    i < STATE_WIDTH,
                    j <= STATE_WIDTH,
                    forall|m: int| 0 <= m < j ==> row[m] == mds@[i as int]@[m],
                    forall|m: int| 0 <= m < j ==> inv_row[m] == inv_mds@[i as int]@[m],
                decreases STATE_WIDTH - j,
            {
                row[j] = mds[i][j];
                inv_row[j] = inv_mds[i][j];
                j += 1;
            }
            rescue.mds[i] = row;
            rescue.inv_mds[i] = inv_row;
            i += 1;
        }
        let mut i: usize = 0;
        while i < NUM_HASH_ROUNDS
            invariant
                spec_has_shape(ark@, NUM_HASH_ROUNDS as nat, ARK_WIDTH as nat),
                i <= NUM_HASH_ROUNDS,
                forall|k: int, j: int|
                    0 <= k < STATE_WIDTH && 0 <= j < STATE_WIDTH ==> #[trigger] rescue.mds[k][j]
                        == mds@[k]@[j],
                forall|k: int, j: int|
                    0 <= k < STATE_WIDTH && 0 <= j < STATE_WIDTH ==> #[trigger] rescue.inv_mds[k][j]
                        == inv_mds@[k]@[j],
                forall|k: int, j: int|
                    0 <= k < i && 0 <= j < ARK_WIDTH ==> #[trigger] rescue.ark[k][j]
                        == ark@[k]@[j],
            decreases NUM_HASH_ROUNDS - i,
        {
            let mut row = [Felt::zero();ARK_WIDTH];
            let mut j: usize = 0;
            while j < ARK_WIDTH
                invariant
                    spec_has_shape(ark@, NUM_HASH_ROUNDS as nat, ARK_WIDTH as nat),
                    i < NUM_HASH_ROUNDS,
                    j <= ARK_WIDTH,
                    forall|m: int| 0 <= m < j ==> row[m] == ark@[i as int]@[m],
                decreases ARK_WIDTH - j,
            {
                row[j] = ark[i][j];
                j += 1;
            }
            rescue.ark[i] = row;
            i += 1;
        }
        Some(rescue)
    }
}

fn has_shape(m: &Vec<Vec<Felt>>, rows: usize, width: usize) -> (b: bool)
    ensures
        b == spec_has_shape(m@, rows as nat, width as nat),
{
    if m.len() != rows {
        return false;
    }
    let mut i: usize = 0;
    while i < rows
        invariant
            m.len() == rows,
            i <= rows,
            forall|j: int| 0 <= j < i ==> (#[trigger] m@[j]).len() == width,
        decreases rows - i,
    {
        if m[i].len() != width {
            return false;
        }
        i += 1;
    }
    true
}

// THE ROUND
// ================================================================================================

/// Every register cubed.
#[verifier::opaque]
pub open spec fn spec_sbox(s: Seq<Felt>) -> Seq<Felt> {
    Seq::new(s.len(), |i: int| s[i].spec_mul(s[i]).spec_mul(s[i]))
}

/// The cube root of every register.
#[verifier::opaque]
pub open spec fn spec_inv_sbox(s: Seq<Felt>) -> Seq<Felt> {
    Seq::new(s.len(), |i: int| s[i].spec_pow(INV_ALPHA as nat))
}

/// The sum of the products of the first `n` entries of a row and a state.
pub open spec fn spec_dot(row: Seq<Felt>, s: Seq<Felt>, n: nat) -> Felt
    decreases n,
{
    if n == 0 {
        Felt::spec_zero()
    } else {
        spec_dot(row, s, (n - 1) as nat).spec_add(row[n - 1].spec_mul(s[n - 1]))
    }
}

/// The product of a matrix and a state.
#[verifier::opaque]
pub open spec fn spec_apply_matrix(m: Seq<Seq<Felt>>, s: Seq<Felt>) -> Seq<Felt> {
    Seq::new(m.len(), |i: int| spec_dot(m[i], s, s.len()))
}

/// The state plus the constants that `ark` holds from `offset` on.
#[verifier::opaque]
pub open spec fn spec_add_constants(s: Seq<Felt>, ark: Seq<Felt>, offset: int) -> Seq<Felt> {
    Seq::new(s.len(), |i: int| s[i].spec_add(ark[offset + i]))
}

/// The state minus the constants that `ark` holds from `offset` on.
#[verifier::opaque]
pub open spec fn spec_sub_constants(s: Seq<Felt>, ark: Seq<Felt>, offset: int) -> Seq<Felt> {
    Seq::new(s.len(), |i: int| s[i].spec_sub(ark[offset + i]))
}

/// The state after the first half of a round.
pub open spec fn spec_first_half(s: Seq<Felt>, ark: Seq<Felt>, rescue: Rescue) -> Seq<Felt> {
    spec_add_constants(spec_apply_matrix(matrix_view(rescue.mds), spec_sbox(s)), ark, 0)
}

/// The state after a round with the constants `ark`.
pub open spec fn spec_round(s: Seq<Felt>, ark: Seq<Felt>, rescue: Rescue) -> Seq<Felt> {
    spec_add_constants(
        spec_apply_matrix(matrix_view(rescue.mds), spec_inv_sbox(spec_first_half(s, ark, rescue))),
        ark,
        STATE_WIDTH as int,
    )
}

/// The state before the second half of a round that ends in `s`, and after
/// its cube root: what the first half must have produced.
pub open spec fn spec_second_half_undone(s: Seq<Felt>, ark: Seq<Felt>, rescue: Rescue) -> Seq<
    Felt,
> {
    spec_sbox(spec_apply_matrix(matrix_view(rescue.inv_mds), spec_sub_constants(s, ark, STATE_WIDTH as int)))
}

fn sbox(s: &[Felt]) -> (r: Vec<Felt>)
    ensures
        r@ == spec_sbox(s@),
        r.len() == s.len(),
{
    let n = s.len();
    let mut r: Vec<Felt> = Vec::with_capacity(n);
    let mut i: usize = 0;
    while i < n
        invariant
            n == s.len(),
            i <= n,
            r.len() == i,
            forall|j: int| 0 <= j < i ==> r@[j] == s@[j].spec_mul(s@[j]).spec_mul(s@[j]),
        decreases n - i,
    {
        r.push(s[i].mul(s[i]).mul(s[i]));
        i += 1;
    }
    proof {
        reveal(spec_sbox);
    }
    assert(r@ =~= spec_sbox(s@));
    r
}

fn inv_sbox(s: &[Felt]) -> (r: Vec<Felt>)
    ensures
        r@ == spec_inv_sbox(s@),
        r.len() == s.len(),
{
    let n = s.len();
    let mut r: Vec<Felt> = Vec::with_capacity(n);
    let mut i: usize = 0;
    while i < n
        invariant
            n == s.len(),
            i <= n,
            r.len() == i,
            forall|j: int| 0 <= j < i ==> r@[j] == s@[j].spec_pow(INV_ALPHA as nat),
        decreases n - i,
    {
        r.push(s[i].pow(INV_ALPHA));
        i += 1;
    }
    proof {
        reveal(spec_inv_sbox);
    }
    assert(r@ =~= spec_inv_sbox(s@));
    r
}

fn dot(row: &[Felt], s: &[Felt]) -> (r: Felt)
    requires
        row.len() == s.len(),
    ensures
        r == spec_dot(row@, s@, s.len() as nat),
{
    let n = s.len();
    let mut acc = Felt::zero();
    let mut i: usize = 0;
    while i < n
        invariant
            n == s.len(),
            n == row.len(),
            i <= n,
            acc == spec_dot(row@, s@, i as nat),
        decreases n - i,
    {
        acc = acc.add(row[i].mul(s[i]));
        i += 1;
    }
    acc
}

fn apply_matrix(m: &[[Felt; STATE_WIDTH]; STATE_WIDTH], s: &[Felt]) -> (r: Vec<Felt>)
    requires
        s.len() == STATE_WIDTH,
    ensures
        r@ == spec_apply_matrix(matrix_view(*m), s@),
        r.len() == STATE_WIDTH,
{
    let mut r: Vec<Felt> = Vec::with_capacity(STATE_WIDTH);
    let mut i: usize = 0;
    while i < STATE_WIDTH
        invariant
            s.len() == STATE_WIDTH,
            i <= STATE_WIDTH,
            r.len() == i,
            forall|j: int| 0 <= j < i ==> r@[j] == spec_dot(m[j]@, s@, s.len() as nat),
        decreases STATE_WIDTH - i,
    {
        r.push(dot(&m[i], s));
        i += 1;
    }
    proof {
        reveal(spec_apply_matrix);
    }
    assert(r@ =~= spec_apply_matrix(matrix_view(*m), s@));
    r
}

fn add_constants(s: &[Felt], ark: &[Felt], offset: usize) -> (r: Vec<Felt>)
    requires
        offset + s.len() <= ark.len(),
    ensures
        r@ == spec_add_constants(s@, ark@, offset as int),
        r.len() == s.len(),
{
    let n = s.len();
    let mut r: Vec<Felt> = Vec::with_capacity(n);
    let mut i: usize = 0;
    while i < n
        invariant
            n == s.len(),
            offset + n <= ark.len(),
            i <= n,
            r.len() == i,
            forall|j: int| 0 <= j < i ==> r@[j] == s@[j].spec_add(ark@[offset + j]),
        decreases n - i,
    {
        r.push(s[i].add(ark[offset + i]));
        i += 1;
    }
    proof {
        reveal(spec_add_constants);
    }
    assert(r@ =~= spec_add_constants(s@, ark@, offset as int));
    r
}

fn sub_constants(s: &[Felt], ark: &[Felt], offset: usize) -> (r: Vec<Felt>)
    requires
        offset + s.len() <= ark.len(),
    ensures
        r@ == spec_sub_constants(s@, ark@, offset as int),
        r.len() == s.len(),
{
    let n = s.len();
    let mut r: Vec<Felt> = Vec::with_capacity(n);
    let mut i: usize = 0;
    while i < n
        invariant
            n == s.len(),
            offset + n <= ark.len(),
            i <= n,
            r.len() == i,
            forall|j: int| 0 <= j < i ==> r@[j] == s@[j].spec_sub(ark@[offset + j]),
        decreases n - i,
    {
        r.push(s[i].sub(ark[offset + i]));
        i += 1;
    }
    proof {
        reveal(spec_sub_constants);
    }
    assert(r@ =~= spec_sub_constants(s@, ark@, offset as int));
    r
}

/// The state after one round with the constants `ark`.
pub fn round(s: &[Felt], ark: &[Felt], rescue: &Rescue) -> (r: Vec<Felt>)
    requires
        s.len() == STATE_WIDTH,
        ark.len() == 2 * STATE_WIDTH,
    ensures
        r@ == spec_round(s@, ark@, *rescue),
        r.len() == STATE_WIDTH,
{
    let cubed = sbox(s);
    let mixed = apply_matrix(&rescue.mds, cubed.as_slice());
    let half = add_constants(mixed.as_slice(), ark, 0);
    let rooted = inv_sbox(half.as_slice());
    let mixed2 = apply_matrix(&rescue.mds, rooted.as_slice());
    add_constants(mixed2.as_slice(), ark, STATE_WIDTH)
}

/// The row after the hash state at `offset` went through the round of
/// `step`.
pub open spec fn spec_apply_round(state: Seq<Felt>, offset: int, step: int, rescue: Rescue) -> Seq<
    Felt,
> {
    spec_write_range(
        state,
        offset,
        spec_round(
            state.subrange(offset, offset + STATE_WIDTH),
            rescue.ark[step % (HASH_CYCLE_LENGTH as int)]@,
            rescue,
        ),
    )
}

/// Takes the hash state at `offset` through one round. The constants are
/// those of round `step % HASH_CYCLE_LENGTH`, which must be a round of the
/// permutation.
pub fn apply_round(state: &mut [Felt], offset: usize, step: usize, rescue: &Rescue)
    requires
        offset + STATE_WIDTH <= old(state).len(),
        step % HASH_CYCLE_LENGTH < NUM_HASH_ROUNDS,
    ensures
        final(state)@ == spec_apply_round(old(state)@, offset as int, step as int, *rescue),
        final(state).len() == old(state).len(),
{
    let ark = &rescue.ark[step % HASH_CYCLE_LENGTH];
    let after = round(&state[offset..offset + STATE_WIDTH], ark, rescue);
    write_range(state, offset, after.as_slice());
}

/// The constraints of a round: what the first half makes of `current`
/// equals what the second half, undone, makes of `next`.
pub open spec fn spec_enforce_round(
    result: Seq<Felt>,
    offset: int,
    current: Seq<Felt>,
    next: Seq<Felt>,
    ark: Seq<Felt>,
    flag: Felt,
    rescue: Rescue,
) -> Seq<Felt> {
    spec_agg_range(
        result,
        offset,
        flag,
        spec_diff(
            spec_second_half_undone(next, ark, rescue),
            spec_first_half(current, ark, rescue),
        ),
    )
}

/// Under `flag`, constrains the hash state `next` to follow from the hash
/// state `current` by one round with the constants `ark`. The constraints go
/// to the entries of `result` from `offset` on.
pub fn enforce_round(
    result: &mut [Felt],
    offset: usize,
    current: &[Felt],
    next: &[Felt],
    ark: &[Felt],
    flag: Felt,
    rescue: &Rescue,
)
    requires
        offset + STATE_WIDTH <= old(result).len(),
        current.len() == STATE_WIDTH,
        next.len() == STATE_WIDTH,
        ark.len() == 2 * STATE_WIDTH,
    ensures
        final(result)@ == spec_enforce_round(
            old(result)@,
            offset as int,
            current@,
            next@,
            ark@,
            flag,
            *rescue,
        ),
        final(result).len() == old(result).len(),
{
    let cubed = sbox(current);
    let mixed = apply_matrix(&rescue.mds, cubed.as_slice());
    let step1 = add_constants(mixed.as_slice(), ark, 0);
    let lowered = sub_constants(next, ark, STATE_WIDTH);
    let unmixed = apply_matrix(&rescue.inv_mds, lowered.as_slice());
    let step2 = sbox(unmixed.as_slice());
    let d = diff(step2.as_slice(), step1.as_slice());
    agg_range(result, offset, flag, d.as_slice());
}

/// The tables undo each other on a state `h`: the cubes of the cube roots
/// of `h` are `h`, and the inverse matrix takes the product of the matrix
/// and these cube roots back to them.
pub open spec fn spec_tables_undo(h: Seq<Felt>, rescue: Rescue) -> bool {
    let roots = spec_inv_sbox(h);
    &&& spec_sbox(roots) == h
    &&& spec_apply_matrix(
        matrix_view(rescue.inv_mds),
        spec_apply_matrix(matrix_view(rescue.mds), roots),
    ) == roots
}

/// The tables are those of a permutation: they undo each other on every
/// canonical state.
pub open spec fn spec_tables_invert(rescue: Rescue) -> bool {
    forall|h: Seq<Felt>|
        h.len() == STATE_WIDTH && all_canonical(h) ==> #[trigger] spec_tables_undo(h, rescue)
}

/// What the first half of a round makes of a state is a canonical state.
pub proof fn lemma_first_half_is_canonical(s: Seq<Felt>, ark: Seq<Felt>, rescue: Rescue)
    ensures
        spec_first_half(s, ark, rescue).len() == STATE_WIDTH,
        all_canonical(spec_first_half(s, ark, rescue)),
{
    reveal(spec_add_constants);
    reveal(spec_apply_matrix);
    let mixed = spec_apply_matrix(matrix_view(rescue.mds), spec_sbox(s));
    assert forall|i: int| 0 <= i < STATE_WIDTH implies (#[trigger] spec_first_half(
        s,
        ark,
        rescue,
    )[i]).is_canonical() by {
        lemma_canonical(mixed[i], ark[i], 0);
    }
}

/// A round meets its own constraints. Where the tables undo each other on
/// what the first half of a round makes of `current`, every constraint of
/// the round vanishes on `current` and the state that the round makes of
/// it: the result vector stays as it was.
pub proof fn lemma_round_meets_its_constraints(
    result: Seq<Felt>,
    offset: int,
    current: Seq<Felt>,
    ark: Seq<Felt>,
    flag: Felt,
    rescue: Rescue,
)
    requires
        all_canonical(result),
        spec_tables_undo(spec_first_half(current, ark, rescue), rescue),
    ensures
        spec_enforce_round(
            result,
            offset,
            current,
            spec_round(current, ark, rescue),
            ark,
            flag,
            rescue,
        ) == result,
{
    let h = spec_first_half(current, ark, rescue);
    let roots = spec_inv_sbox(h);
    let mixed = spec_apply_matrix(matrix_view(rescue.mds), roots);
    let next = spec_round(current, ark, rescue);
    let lowered = spec_sub_constants(next, ark, STATE_WIDTH as int);
    assert(lowered =~= mixed) by {
        reveal(spec_add_constants);
        reveal(spec_sub_constants);
        reveal(spec_apply_matrix);
        assert forall|i: int| 0 <= i < mixed.len() implies lowered[i] == mixed[i] by {
            lemma_dot_canonical(matrix_view(rescue.mds)[i], roots, roots.len());
            lemma_add_sub(mixed[i], ark[STATE_WIDTH + i]);
        }
    }
    assert(spec_second_half_undone(next, ark, rescue) == h);
    lemma_enforce_copy_satisfied(result, offset, h, flag);
}

/// A sum of products is canonical.
proof fn lemma_dot_canonical(row: Seq<Felt>, s: Seq<Felt>, n: nat)
    ensures
        spec_dot(row, s, n).is_canonical(),
    decreases n,
{
    if n > 0 {
        lemma_canonical(spec_dot(row, s, (n - 1) as nat), row[n - 1].spec_mul(s[n - 1]), 0);
    }
}

// PERIODIC COLUMNS
// ================================================================================================

/// The flag of the hash cycle: one on the rows of a round, zero on the last.
pub open spec fn spec_hash_cycle_mask() -> Seq<Felt> {
    Seq::new(
        HASH_CYCLE_LENGTH as nat,
        |i: int| Felt::spec_from_bool(i < NUM_HASH_ROUNDS),
    )
}

/// The flag of the hash cycle.
pub fn hash_cycle_mask() -> (r: Vec<Felt>)
    ensures
        r@ == spec_hash_cycle_mask(),
{
    let mut r: Vec<Felt> = Vec::with_capacity(HASH_CYCLE_LENGTH);
    let mut i: usize = 0;
    while i < HASH_CYCLE_LENGTH
        invariant
            i <= HASH_CYCLE_LENGTH,
            r.len() == i,
            forall|j: int| 0 <= j < i ==> r@[j] == Felt::spec_from_bool(j < NUM_HASH_ROUNDS),
        decreases HASH_CYCLE_LENGTH - i,
    {
        r.push(Felt::from_bool(i < NUM_HASH_ROUNDS));
        i += 1;
    }
    assert(r@ =~= spec_hash_cycle_mask());
    r
}

/// Column `j` of the round constants over one hash cycle: the constant of
/// each round, and zero on the last row.
pub open spec fn spec_round_constant_column(rescue: Rescue, j: int) -> Seq<Felt> {
    Seq::new(
        HASH_CYCLE_LENGTH as nat,
        |i: int|
            if i < NUM_HASH_ROUNDS {
                rescue.ark[i][j]
            } else {
                Felt::spec_zero()
            },
    )
}

/// The round constants as periodic columns.
pub open spec fn spec_round_constants(rescue: Rescue) -> Seq<Seq<Felt>> {
    Seq::new((2 * STATE_WIDTH) as nat, |j: int| spec_round_constant_column(rescue, j))
}

/// The round constants as periodic columns: one column for each constant of
/// a round, one row for each row of the hash cycle.
pub fn get_round_constants(rescue: &Rescue) -> (r: Vec<Vec<Felt>>)
    ensures
        columns_view(r@) == spec_round_constants(*rescue),
        r.len() == 2 * STATE_WIDTH,
{
    let mut r: Vec<Vec<Felt>> = Vec::with_capacity(2 * STATE_WIDTH);
    let mut j: usize = 0;
    while j < 2 * STATE_WIDTH
        invariant
            j <= 2 * STATE_WIDTH,
            r.len() == j,
            forall|k: int| 0 <= k < j ==> (#[trigger] r@[k])@ == spec_round_constant_column(*rescue, k),
        decreases 2 * STATE_WIDTH - j,
    {
        let mut column: Vec<Felt> = Vec::with_capacity(HASH_CYCLE_LENGTH);
        let mut i: usize = 0;
        while i < HASH_CYCLE_LENGTH
            invariant
                j < 2 * STATE_WIDTH,
                i <= HASH_CYCLE_LENGTH,
                column.len() == i,
                forall|k: int|
                    0 <= k < i ==> column@[k] == if k < NUM_HASH_ROUNDS {
                        rescue.ark[k][j as int]
                    } else {
                        Felt::spec_zero()
                    },
            decreases HASH_CYCLE_LENGTH - i,
        {
            if i < NUM_HASH_ROUNDS {
                column.push(rescue.ark[i][j]);
            } else {
                column.push(Felt::zero());
            }
            i += 1;
        }
        assert(column@ =~= spec_round_constant_column(*rescue, j as int));
        r.push(column);
        j += 1;
    }
    assert(columns_view(r@) =~= spec_round_constants(*rescue));
    r
}

// THE SPONGE
// ================================================================================================

/// The state after the first `n` rounds of the permutation.
pub open spec fn spec_rounds(s: Seq<Felt>, n: nat, rescue: Rescue) -> Seq<Felt>
    decreases n,
{
    if n == 0 {
        s
    } else {
        spec_round(spec_rounds(s, (n - 1) as nat, rescue), rescue.ark[n - 1]@, rescue)
    }
}

/// The state after the permutation.
pub open spec fn spec_permutation(s: Seq<Felt>, rescue: Rescue) -> Seq<Felt> {
    spec_rounds(s, NUM_HASH_ROUNDS as nat, rescue)
}

/// The state after the permutation.
pub fn permutation(s: &[Felt], rescue: &Rescue) -> (r: Vec<Felt>)
    requires
        s.len() == STATE_WIDTH,
    ensures
        r@ == spec_permutation(s@, *rescue),
        r.len() == STATE_WIDTH,
{
    let mut state = round(s, &rescue.ark[0], rescue);
    let mut n: usize = 1;
    assert(spec_rounds(s@, 0, *rescue) == s@);
    while n < NUM_HASH_ROUNDS
        invariant
            1 <= n <= NUM_HASH_ROUNDS,
            state.len() == STATE_WIDTH,
            state@ == spec_rounds(s@, n as nat, *rescue),
        decreases NUM_HASH_ROUNDS - n,
    {
        state = round(state.as_slice(), &rescue.ark[n], rescue);
        n += 1;
    }
    state
}

/// The digest of two digests: the first seven registers of the permutation
/// of `left` followed by `right`.
pub open spec fn spec_merge(left: Seq<Felt>, right: Seq<Felt>, rescue: Rescue) -> Seq<Felt> {
    spec_permutation(left + right, rescue).subrange(0, DIGEST_SIZE as int)
}

/// Two merged digests are a digest.
pub proof fn lemma_merge_is_a_digest(left: Seq<Felt>, right: Seq<Felt>, rescue: Rescue)
    ensures
        spec_merge(left, right, rescue).len() == DIGEST_SIZE,
{
    reveal(spec_add_constants);
    reveal(spec_apply_matrix);
    let before = spec_rounds(left + right, (NUM_HASH_ROUNDS - 1) as nat, rescue);
    assert(spec_permutation(left + right, rescue) == spec_round(
        before,
        rescue.ark[NUM_HASH_ROUNDS - 1]@,
        rescue,
    ));
    assert(spec_permutation(left + right, rescue).len() == STATE_WIDTH);
}

/// Merges two digests into one.
pub fn merge(left: &[Felt], right: &[Felt], rescue: &Rescue) -> (r: Vec<Felt>)
    requires
        left.len() == DIGEST_SIZE,
        right.len() == DIGEST_SIZE,
    ensures
        r@ == spec_merge(left@, right@, *rescue),
        r.len() == DIGEST_SIZE,
{
    let mut state: Vec<Felt> = Vec::with_capacity(STATE_WIDTH);
    state.extend_from_slice(left);
    state.extend_from_slice(right);
    assert(state@ =~= left@ + right@);
    let mut out = permutation(state.as_slice(), rescue);
    out.truncate(DIGEST_SIZE);
    out
}

/// Chunk `k` of a message, filled up with zeros to the rate.
pub open spec fn spec_chunk(message: Seq<Felt>, k: int) -> Seq<Felt> {
    Seq::new(
        RATE_WIDTH as nat,
        |i: int|
            if k * RATE_WIDTH + i < message.len() {
                message[k * RATE_WIDTH + i]
            } else {
                Felt::spec_zero()
            },
    )
}

/// The state with a chunk added to its first seven registers.
pub open spec fn spec_absorb_chunk(s: Seq<Felt>, chunk: Seq<Felt>) -> Seq<Felt> {
    Seq::new(
        s.len(),
        |i: int|
            if i < RATE_WIDTH {
                s[i].spec_add(chunk[i])
            } else {
                s[i]
            },
    )
}

/// The state of the sponge after the first `k` chunks of a message.
pub open spec fn spec_absorbed(message: Seq<Felt>, k: nat, rescue: Rescue) -> Seq<Felt>
    decreases k,
{
    if k == 0 {
        spec_zeros(STATE_WIDTH as nat)
    } else {
        spec_permutation(
            spec_absorb_chunk(
                spec_absorbed(message, (k - 1) as nat, rescue),
                spec_chunk(message, k - 1),
            ),
            rescue,
        )
    }
}

/// Number of chunks of a message of `len` elements.
pub open spec fn spec_num_chunks(len: nat) -> nat {
    ((len + RATE_WIDTH - 1) / (RATE_WIDTH as int)) as nat
}

/// The digest of a message: the first seven registers of the sponge after
/// it absorbed every chunk.
pub open spec fn spec_digest(message: Seq<Felt>, rescue: Rescue) -> Seq<Felt> {
    spec_absorbed(message, spec_num_chunks(message.len()), rescue).subrange(0, DIGEST_SIZE as int)
}

fn absorb_chunk(state: &[Felt], message: &[Felt], k: usize) -> (r: Vec<Felt>)
    requires
        state.len() == STATE_WIDTH,
        k * RATE_WIDTH <= message.len(),
    ensures
        r@ == spec_absorb_chunk(state@, spec_chunk(message@, k as int)),
        r.len() == STATE_WIDTH,
{
    let mut r: Vec<Felt> = Vec::with_capacity(STATE_WIDTH);
    let mut i: usize = 0;
    while i < STATE_WIDTH
        invariant
            state.len() == STATE_WIDTH,
            k * RATE_WIDTH <= message.len(),
            i <= STATE_WIDTH,
            r.len() == i,
            forall|j: int|
                0 <= j < i ==> r@[j] == if j < RATE_WIDTH {
                    state@[j].spec_add(spec_chunk(message@, k as int)[j])
                } else {
                    state@[j]
                },
        decreases STATE_WIDTH - i,
    {
        if i < RATE_WIDTH {
            let base = k * RATE_WIDTH;
            let m = if i < message.len() - base {
                message[base + i]
            } else {
                Felt::zero()
            };
            r.push(state[i].add(m));
        } else {
            r.push(state[i]);
        }
        i += 1;
    }
    assert(r@ =~= spec_absorb_chunk(state@, spec_chunk(message@, k as int)));
    r
}

/// The digest of a message of any length.
pub fn digest(message: &[Felt], rescue: &Rescue) -> (r: Vec<Felt>)
    ensures
        r@ == spec_digest(message@, *rescue),
        r.len() == DIGEST_SIZE,
{
    let len = message.len();
    let chunks: usize = len / RATE_WIDTH + if len % RATE_WIDTH == 0 {
        0
    } else {
        1
    };
    assert(chunks == spec_num_chunks(len as nat));
    let mut state = zeros(STATE_WIDTH);
    let mut k: usize = 0;
    while k < chunks
        invariant
            len == message.len(),
            chunks == spec_num_chunks(len as nat),
            k <= chunks,
            state.len() == STATE_WIDTH,
            state@ == spec_absorbed(message@, k as nat, *rescue),
        decreases chunks - k,
    {
        assert(k * RATE_WIDTH <= len);
        let absorbed = absorb_chunk(state.as_slice(), message, k);
        state = permutation(absorbed.as_slice(), rescue);
        k += 1;
    }
    state.truncate(DIGEST_SIZE);
    state
}

// DIGESTS AS SCALARS
// ================================================================================================

/// The first four elements of a digest as 32 bytes.
pub open spec fn spec_digest_bytes(h: Seq<Felt>) -> Seq<u8> {
    spec_element_bytes(h[0]) + spec_element_bytes(h[1]) + spec_element_bytes(h[2])
        + spec_element_bytes(h[3])
}

/// The first four elements of a digest as the bytes of a scalar.
pub fn digest_bytes(h: &[Felt]) -> (r: [u8; 32])
    requires
        h.len() >= 4,
    ensures
        r@ == spec_digest_bytes(h@),
{
    let mut bytes: Vec<u8> = Vec::with_capacity(32);
    write_element(&mut bytes, h[0]);
    write_element(&mut bytes, h[1]);
    write_element(&mut bytes, h[2]);
    write_element(&mut bytes, h[3]);
    proof {
        vstd::bytes::lemma_auto_spec_u64_to_from_le_bytes();
        assert(bytes@ =~= spec_digest_bytes(h@));
        assert(bytes.len() == 32);
    }
    let mut r = [0u8;32];
    let mut i: usize = 0;
    while i < 32
        invariant
            i <= 32,
            bytes.len() == 32,
            forall|j: int| 0 <= j < i ==> r@[j] == bytes@[j],
        decreases 32 - i,
    {
        r[i] = bytes[i];
        i += 1;
    }
    assert(r@ =~= bytes@);
    r
}

} // verus!

//! Building blocks shared by every constraint system.
//!
//! A transition constraint is a polynomial that must vanish on each pair of
//! consecutive rows. An evaluation accumulates `flag * value` into one entry
//! of the result vector, so that several gadgets, each under its own flag,
//! can share a register. A register group is addressed by the offset of its
//! first register.

use crate::field::Felt;
use vstd::prelude::*;

verus! {

/// `1 - v`: the complement of a flag.
pub open spec fn spec_not(v: Felt) -> Felt {
    Felt::spec_one().spec_sub(v)
}

/// `v^2 - v`: zero exactly on the two binary values.
pub open spec fn spec_is_binary(v: Felt) -> Felt {
    v.spec_mul(v).spec_sub(v)
}

/// `a - b`: zero exactly when the two are equal.
pub open spec fn spec_are_equal(a: Felt, b: Felt) -> Felt {
    a.spec_sub(b)
}

/// `bit * a + (1 - bit) * b`: `a` where the bit is one, `b` where it is zero.
pub open spec fn spec_mux(bit: Felt, a: Felt, b: Felt) -> Felt {
    bit.spec_mul(a).spec_add(spec_not(bit).spec_mul(b))
}

/// The result vector after `flag * value` was added to entry `index`.
pub open spec fn spec_agg(result: Seq<Felt>, index: int, flag: Felt, value: Felt) -> Seq<Felt> {
    result.update(index, result[index].spec_add(flag.spec_mul(value)))
}

/// The result vector after `flag * values[i]` was added to entry
/// `offset + i`, for each `i`.
#[verifier::opaque]
pub open spec fn spec_agg_range(result: Seq<Felt>, offset: int, flag: Felt, values: Seq<Felt>) -> Seq<
    Felt,
> {
    Seq::new(
        result.len(),
        |i: int|
            if offset <= i < offset + values.len() {
                result[i].spec_add(flag.spec_mul(values[i - offset]))
            } else {
                result[i]
            },
    )
}

/// The state after `values` was written over the registers from `offset` on.
#[verifier::opaque]
pub open spec fn spec_write_range(state: Seq<Felt>, offset: int, values: Seq<Felt>) -> Seq<Felt> {
    Seq::new(
        state.len(),
        |i: int|
            if offset <= i < offset + values.len() {
                values[i - offset]
            } else {
                state[i]
            },
    )
}

/// The state after `value` was written to the registers `start..end`.
#[verifier::opaque]
pub open spec fn spec_fill_range(state: Seq<Felt>, start: int, end: int, value: Felt) -> Seq<Felt> {
    Seq::new(
        state.len(),
        |i: int|
            if start <= i < end {
                value
            } else {
                state[i]
            },
    )
}

/// `a[i] - b[i]` for each `i`.
#[verifier::opaque]
pub open spec fn spec_diff(a: Seq<Felt>, b: Seq<Felt>) -> Seq<Felt> {
    Seq::new(a.len(), |i: int| a[i].spec_sub(b[i]))
}

/// `a[i] + b[i]` for each `i`.
#[verifier::opaque]
pub open spec fn spec_sum(a: Seq<Felt>, b: Seq<Felt>) -> Seq<Felt> {
    Seq::new(a.len(), |i: int| a[i].spec_add(b[i]))
}

/// `bit * a[i] + (1 - bit) * b[i]` for each `i`.
#[verifier::opaque]
pub open spec fn spec_select(bit: Felt, a: Seq<Felt>, b: Seq<Felt>) -> Seq<Felt> {
    Seq::new(a.len(), |i: int| spec_mux(bit, a[i], b[i]))
}

/// A sequence of `n` zeros.
pub open spec fn spec_zeros(n: nat) -> Seq<Felt> {
    Seq::new(n, |i: int| Felt::spec_zero())
}

/// Every element is canonical.
pub open spec fn all_canonical(s: Seq<Felt>) -> bool {
    forall|i: int| 0 <= i < s.len() ==> (#[trigger] s[i]).is_canonical()
}

pub fn not(v: Felt) -> (r: Felt)
    ensures
        r == spec_not(v),
{
    Felt::one().sub(v)
}

pub fn is_binary(v: Felt) -> (r: Felt)
    ensures
        r == spec_is_binary(v),
{
    v.mul(v).sub(v)
}

pub fn are_equal(a: Felt, b: Felt) -> (r: Felt)
    ensures
        r == spec_are_equal(a, b),
{
    a.sub(b)
}

pub fn mux(bit: Felt, a: Felt, b: Felt) -> (r: Felt)
    ensures
        r == spec_mux(bit, a, b),
{
    bit.mul(a).add(not(bit).mul(b))
}

/// A vector of `n` zeros.
pub fn zeros(n: usize) -> (v: Vec<Felt>)
    ensures
        v@ == spec_zeros(n as nat),
{
    let v = vec![Felt::zero(); n];
    assert(v@ =~= spec_zeros(n as nat));
    v
}

/// Adds `flag * value` to entry `index` of the result vector.
pub fn agg_constraint(result: &mut [Felt], index: usize, flag: Felt, value: Felt)
    requires
        index < old(result).len(),
    ensures
        final(result)@ == spec_agg(old(result)@, index as int, flag, value),
        final(result).len() == old(result).len(),
{
    let r = result[index].add(flag.mul(value));
    result[index] = r;
}

/// Adds `flag * values[i]` to entry `offset + i` of the result vector, for
/// each `i`.
pub fn agg_range(result: &mut [Felt], offset: usize, flag: Felt, values: &[Felt])
    requires
        offset + values.len() <= old(result).len(),
    ensures
        final(result)@ == spec_agg_range(old(result)@, offset as int, flag, values@),
        final(result).len() == old(result).len(),
{
    let n = values.len();
    let mut i: usize = 0;
    while i < n
        invariant
            n == values.len(),
            i <= n,
            offset + n <= result.len(),
            result.len() == old(result).len(),
            forall|j: int|
                0 <= j < result.len() ==> result@[j] == if offset <= j < offset + i {
                    old(result)@[j].spec_add(flag.spec_mul(values@[j - offset]))
                } else {
                    old(result)@[j]
                },
        decreases n - i,
    {
        let r = result[offset + i].add(flag.mul(values[i]));
        result[offset + i] = r;
        i += 1;
    }
    proof {
        reveal(spec_agg_range);
    }
    assert(result@ =~= spec_agg_range(old(result)@, offset as int, flag, values@));
}

/// Writes `values` over the registers from `offset` on.
pub fn write_range(state: &mut [Felt], offset: usize, values: &[Felt])
    requires
        offset + values.len() <= old(state).len(),
    ensures
        final(state)@ == spec_write_range(old(state)@, offset as int, values@),
        final(state).len() == old(state).len(),
{
    let n = values.len();
    let mut i: usize = 0;
    while i < n
        invariant
            n == values.len(),
            i <= n,
            offset + n <= state.len(),
            state.len() == old(state).len(),
            forall|j: int|
                0 <= j < state.len() ==> state@[j] == if offset <= j < offset + i {
                    values@[j - offset]
                } else {
                    old(state)@[j]
                },
        decreases n - i,
    {
        state[offset + i] = values[i];
        i += 1;
    }
    proof {
        reveal(spec_write_range);
    }
    assert(state@ =~= spec_write_range(old(state)@, offset as int, values@));
}

/// Writes `value` to the registers `start..end`.
pub fn fill_range(state: &mut [Felt], start: usize, end: usize, value: Felt)
    requires
        start <= end <= old(state).len(),
    ensures
        final(state)@ == spec_fill_range(old(state)@, start as int, end as int, value),
        final(state).len() == old(state).len(),
{
    let mut i: usize = start;
    while i < end
        invariant
            start <= i <= end,
            end <= state.len(),
            state.len() == old(state).len(),
            forall|j: int|
                0 <= j < state.len() ==> state@[j] == if start <= j < i {
                    value
                } else {
                    old(state)@[j]
                },
        decreases end - i,
    {
        state[i] = value;
        i += 1;
    }
    proof {
        reveal(spec_fill_range);
    }
    assert(state@ =~= spec_fill_range(old(state)@, start as int, end as int, value));
}

/// `a[i] - b[i]` for each `i`.
pub fn diff(a: &[Felt], b: &[Felt]) -> (r: Vec<Felt>)
    requires
        a.len() == b.len(),
    ensures
        r@ == spec_diff(a@, b@),
        r.len() == a.len(),
{
    let n = a.len();
    let mut r: Vec<Felt> = Vec::with_capacity(n);
    let mut i: usize = 0;
    while i < n
        invariant
            n == a.len(),
            n == b.len(),
            i <= n,
            r.len() == i,
            forall|j: int| 0 <= j < i ==> r@[j] == a@[j].spec_sub(b@[j]),
        decreases n - i,
    {
        r.push(a[i].sub(b[i]));
        i += 1;
    }
    proof {
        reveal(spec_diff);
    }
    assert(r@ =~= spec_diff(a@, b@));
    r
}

/// `a[i] + b[i]` for each `i`.
pub fn sum(a: &[Felt], b: &[Felt]) -> (r: Vec<Felt>)
    requires
        a.len() == b.len(),
    ensures
        r@ == spec_sum(a@, b@),
        r.len() == a.len(),
{
    let n = a.len();
    let mut r: Vec<Felt> = Vec::with_capacity(n);
    let mut i: usize = 0;
    while i < n
        invariant
            n == a.len(),
            n == b.len(),
            i <= n,
            r.len() == i,
            forall|j: int| 0 <= j < i ==> r@[j] == a@[j].spec_add(b@[j]),
        decreases n - i,
    {
        r.push(a[i].add(b[i]));
        i += 1;
    }
    proof {
        reveal(spec_sum);
    }
    assert(r@ =~= spec_sum(a@, b@));
    r
}

/// `bit * a[i] + (1 - bit) * b[i]` for each `i`.
pub fn select(bit: Felt, a: &[Felt], b: &[Felt]) -> (r: Vec<Felt>)
    requires
        a.len() == b.len(),
    ensures
        r@ == spec_select(bit, a@, b@),
        r.len() == a.len(),
{
    let n = a.len();
    let mut r: Vec<Felt> = Vec::with_capacity(n);
    let mut i: usize = 0;
    while i < n
        invariant
            n == a.len(),
            n == b.len(),
            i <= n,
            r.len() == i,
            forall|j: int| 0 <= j < i ==> r@[j] == spec_mux(bit, a@[j], b@[j]),
        decreases n - i,
    {
        r.push(mux(bit, a[i], b[i]));
        i += 1;
    }
    proof {
        reveal(spec_select);
    }
    assert(r@ =~= spec_select(bit, a@, b@));
    r
}

/// The constraints of a copy: the registers of `next` equal those of
/// `current`.
pub open spec fn spec_enforce_copy(
    result: Seq<Felt>,
    offset: int,
    current: Seq<Felt>,
    next: Seq<Felt>,
    flag: Felt,
) -> Seq<Felt> {
    spec_agg_range(result, offset, flag, spec_diff(next, current))
}

/// Under `flag`, constrains each register of `next` to equal the register of
/// `current` at the same place. The constraints go to the entries of `result`
/// from `offset` on.
pub fn enforce_copy(result: &mut [Felt], offset: usize, current: &[Felt], next: &[Felt], flag: Felt)
    requires
        current.len() == next.len(),
        offset + next.len() <= old(result).len(),
    ensures
        final(result)@ == spec_enforce_copy(old(result)@, offset as int, current@, next@, flag),
        final(result).len() == old(result).len(),
{
    let d = diff(next, current);
    agg_range(result, offset, flag, d.as_slice());
}

/// The state after one step of double-and-add in the field: the accumulator
/// is doubled and the bit is added to it.
pub open spec fn spec_double_and_add_step(state: Seq<Felt>, acc: int, bit: int) -> Seq<Felt> {
    state.update(acc, state[acc].spec_double().spec_add(state[bit]))
}

/// Doubles the accumulator register and adds the bit register to it.
pub fn apply_double_and_add_step(state: &mut [Felt], acc: usize, bit: usize)
    requires
        acc < old(state).len(),
        bit < old(state).len(),
    ensures
        final(state)@ == spec_double_and_add_step(old(state)@, acc as int, bit as int),
        final(state).len() == old(state).len(),
{
    let r = state[acc].double().add(state[bit]);
    state[acc] = r;
}

/// The constraint of one step of double-and-add in the field: the next
/// accumulator is twice the current one plus the next bit.
pub open spec fn spec_enforce_double_and_add_step(
    result: Seq<Felt>,
    current: Seq<Felt>,
    next: Seq<Felt>,
    acc: int,
    bit: int,
    flag: Felt,
) -> Seq<Felt> {
    spec_agg(
        result,
        acc,
        flag,
        spec_are_equal(next[acc], current[acc].spec_double().spec_add(next[bit])),
    )
}

/// Under `flag`, constrains the accumulator register of `next` to be twice
/// that of `current` plus the bit register of `next`. That the bit is binary
/// is left to the gadget that owns the bit register.
pub fn enforce_double_and_add_step_constrained(
    result: &mut [Felt],
    current: &[Felt],
    next: &[Felt],
    acc: usize,
    bit: usize,
    flag: Felt,
)
    requires
        acc < old(result).len(),
        acc < current.len(),
        acc < next.len(),
        bit < next.len(),
    ensures
        final(result)@ == spec_enforce_double_and_add_step(
            old(result)@,
            current@,
            next@,
            acc as int,
            bit as int,
            flag,
        ),
        final(result).len() == old(result).len(),
{
    let expected = current[acc].double().add(next[bit]);
    agg_constraint(result, acc, flag, are_equal(next[acc], expected));
}

/// The constraints of a limb that is put together from bits, on a doubling
/// row: where `flag` selects the limb, it is doubled and takes the bit of
/// the next row; where it does not, it keeps its value.
pub open spec fn spec_enforce_limb_step(
    result: Seq<Felt>,
    current: Seq<Felt>,
    next: Seq<Felt>,
    register: int,
    bit: int,
    flag: Felt,
    doubling_flag: Felt,
) -> Seq<Felt> {
    spec_agg(
        spec_enforce_double_and_add_step(
            result,
            current,
            next,
            register,
            bit,
            flag.spec_mul(doubling_flag),
        ),
        register,
        spec_not(flag).spec_mul(doubling_flag),
        spec_are_equal(current[register], next[register]),
    )
}

/// Under `doubling_flag`, constrains the limb in `register`: to be doubled
/// and to take the bit in the register `bit` of `next` where `flag` is set,
/// and to keep its value where it is not.
pub fn enforce_limb_step(
    result: &mut [Felt],
    current: &[Felt],
    next: &[Felt],
    register: usize,
    bit: usize,
    flag: Felt,
    doubling_flag: Felt,
)
    requires
        register < old(result).len(),
        register < current.len(),
        register < next.len(),
        bit < next.len(),
    ensures
        final(result)@ == spec_enforce_limb_step(
            old(result)@,
            current@,
            next@,
            register as int,
            bit as int,
            flag,
            doubling_flag,
        ),
        final(result).len() == old(result).len(),
{
    enforce_double_and_add_step_constrained(
        result,
        current,
        next,
        register,
        bit,
        flag.mul(doubling_flag),
    );
    agg_constraint(
        result,
        register,
        not(flag).mul(doubling_flag),
        are_equal(current[register], next[register]),
    );
}

/// A copy constraint vanishes when the next registers are the current ones.
pub proof fn lemma_enforce_copy_satisfied(
    result: Seq<Felt>,
    offset: int,
    current: Seq<Felt>,
    flag: Felt,
)
    requires
        all_canonical(result),
    ensures
        spec_enforce_copy(result, offset, current, current, flag) == result,
{
    reveal(spec_agg_range);
    reveal(spec_diff);
    let out = spec_enforce_copy(result, offset, current, current, flag);
    assert forall|i: int| 0 <= i < result.len() implies out[i] == result[i] by {
        if offset <= i < offset + current.len() {
            crate::field::lemma_sub_self(current[i - offset]);
            crate::field::lemma_mul_zero(flag);
            crate::field::lemma_add_zero(result[i]);
        }
    }
    assert(out =~= result);
}

/// The constraint of a double-and-add step vanishes on the state that the
/// step produces.
pub proof fn lemma_double_and_add_satisfied(
    result: Seq<Felt>,
    current: Seq<Felt>,
    next: Seq<Felt>,
    acc: int,
    bit: int,
    flag: Felt,
)
    requires
        all_canonical(result),
        0 <= acc < result.len(),
        0 <= acc < next.len(),
        0 <= bit < next.len(),
        acc != bit,
        current.len() == next.len(),
        spec_double_and_add_step(current.update(bit, next[bit]), acc, bit) == next,
    ensures
        spec_enforce_double_and_add_step(result, current, next, acc, bit, flag) == result,
{
    let out = spec_enforce_double_and_add_step(result, current, next, acc, bit, flag);
    let before = current.update(bit, next[bit]);
    assert(next[acc] == before[acc].spec_double().spec_add(before[bit]));
    crate::field::lemma_sub_self(next[acc]);
    crate::field::lemma_mul_zero(flag);
    crate::field::lemma_add_zero(result[acc]);
    assert(out =~= result);
}

/// A constraint under a flag that is zero adds nothing.
pub proof fn lemma_agg_off(result: Seq<Felt>, index: int, value: Felt)
    requires
        0 <= index < result.len(),
        result[index].is_canonical(),
    ensures
        spec_agg(result, index, Felt::spec_zero(), value) == result,
{
    crate::field::lemma_mul_zero(value);
    crate::field::lemma_add_zero(result[index]);
    assert(spec_agg(result, index, Felt::spec_zero(), value) =~= result);
}

/// Constraints under a flag that is zero add nothing.
pub proof fn lemma_agg_range_off(result: Seq<Felt>, offset: int, values: Seq<Felt>)
    requires
        all_canonical(result),
    ensures
        spec_agg_range(result, offset, Felt::spec_zero(), values) == result,
{
    reveal(spec_agg_range);
    let out = spec_agg_range(result, offset, Felt::spec_zero(), values);
    assert forall|i: int| 0 <= i < result.len() implies out[i] == result[i] by {
        if offset <= i < offset + values.len() {
            crate::field::lemma_mul_zero(values[i - offset]);
            crate::field::lemma_add_zero(result[i]);
        }
    }
    assert(out =~= result);
}

/// The arithmetic of flags: products and complements of zero and one, and
/// the constraint of a bit on the two bits.
pub proof fn lemma_flags()
    ensures
        Felt::spec_one().spec_mul(Felt::spec_one()) == Felt::spec_one(),
        Felt::spec_one().spec_mul(Felt::spec_zero()) == Felt::spec_zero(),
        spec_not(Felt::spec_one()) == Felt::spec_zero(),
        spec_not(Felt::spec_zero()) == Felt::spec_one(),
        spec_is_binary(Felt::spec_zero()) == Felt::spec_zero(),
        spec_is_binary(Felt::spec_one()) == Felt::spec_zero(),
{
    reveal(Felt::spec_mul);
    reveal(Felt::spec_sub);
}

} // verus!

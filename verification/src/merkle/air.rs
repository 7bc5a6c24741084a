//! The constraint system of the proof of membership.

use crate::air::{
    assertions_view, degrees_view, lemma_cycle_lengths_are_powers_of_two, lemma_row_of_cycle,
    spec_holds_at, spec_is_power_of_two, spec_row_of, AirContext, Assertion, AssertionView,
    DegreeView, ProofOptions, TraceInfo, TransitionConstraintDegree,
};
use crate::constraint::{
    agg_constraint, enforce_copy, is_binary, not, spec_agg, spec_enforce_copy, spec_is_binary,
    spec_not,
};
use crate::ecc::{AFFINE_POINT_WIDTH, POINT_COORDINATE_WIDTH};
use crate::field::Felt;
use crate::merkle::constants::{
    cycle_length, spec_cycle_length, spec_valid_depth, HASH, MAX_TREE_DEPTH, NUM_PERIODIC_COLUMNS,
    POSITION_BIT, TRACE_WIDTH,
};
use crate::periodic::{columns_view, flag_column, spec_flag_column};
use crate::rescue::{
    enforce_round, get_round_constants, hash_cycle_mask, spec_enforce_round, spec_hash_cycle_mask,
    spec_round_constant_column, Rescue, DIGEST_SIZE, HASH_CYCLE_LENGTH, RATE_WIDTH,
};
use vstd::prelude::*;

verus! {

/// What the verifier knows: the root of the tree and the keys that are
/// proved to be in it.
#[derive(Clone, Debug)]
pub struct PublicInputs {
    pub tree_root: [Felt; DIGEST_SIZE],
    pub voting_keys: Vec<[Felt; AFFINE_POINT_WIDTH]>,
}

/// The constraint system of the proofs of membership of a list of keys.
#[derive(Clone, Debug)]
pub struct MerkleAir {
    pub context: AirContext,
    pub tree_root: [Felt; DIGEST_SIZE],
    pub voting_keys: Vec<[Felt; AFFINE_POINT_WIDTH]>,
    pub tree_depth: usize,
    pub rescue: Rescue,
}

/// The transition constraints on a pair of rows: a round of the hash on the
/// rows of a round; on the others, a position bit in the next row that is
/// binary, and a digest that stays in the first half of the hash state
/// where the bit is zero, and moves to the second where it is one.
pub open spec fn spec_evaluate_transition(
    result: Seq<Felt>,
    current: Seq<Felt>,
    next: Seq<Felt>,
    periodic_values: Seq<Felt>,
    rescue: Rescue,
) -> Seq<Felt> {
    let hash_flag = periodic_values[0];
    let cycle_mask = periodic_values[1];
    let hash_init_flag = cycle_mask.spec_mul(spec_not(hash_flag));
    let bit = next[POSITION_BIT as int];
    let digest = current.subrange(HASH as int, HASH + RATE_WIDTH);
    let r = spec_enforce_round(
        result,
        HASH as int,
        current.subrange(HASH as int, TRACE_WIDTH as int),
        next.subrange(HASH as int, TRACE_WIDTH as int),
        periodic_values.subrange(2, NUM_PERIODIC_COLUMNS as int),
        cycle_mask.spec_mul(hash_flag),
        rescue,
    );
    let r = spec_agg(r, POSITION_BIT as int, hash_init_flag, spec_is_binary(bit));
    let r = spec_enforce_copy(
        r,
        HASH as int,
        digest,
        next.subrange(HASH as int, HASH + RATE_WIDTH),
        hash_init_flag.spec_mul(spec_not(bit)),
    );
    spec_enforce_copy(
        r,
        HASH + RATE_WIDTH,
        digest,
        next.subrange(HASH + RATE_WIDTH, TRACE_WIDTH as int),
        hash_init_flag.spec_mul(bit),
    )
}

/// The declared degree of constraint `i` for a cycle of `cycle` rows.
pub open spec fn spec_degree_at(i: int, cycle: usize) -> DegreeView {
    DegreeView {
        base: if i == 0 {
            2
        } else {
            3
        },
        cycles: seq![HASH_CYCLE_LENGTH, cycle],
    }
}

/// The declared degrees of the transition constraints.
pub open spec fn spec_transition_constraint_degrees(cycle: usize) -> Seq<DegreeView> {
    Seq::new(TRACE_WIDTH as nat, |i: int| spec_degree_at(i, cycle))
}

/// The declared degrees of the transition constraints, one for each
/// register of the trace, for a cycle of `cycle` rows.
pub fn transition_constraint_degrees(cycle: usize) -> (r: Vec<TransitionConstraintDegree>)
    requires
        cycle >= 2,
        spec_is_power_of_two(cycle as nat),
    ensures
        degrees_view(r@) == spec_transition_constraint_degrees(cycle),
        r.len() == TRACE_WIDTH,
{
    let mut degrees: Vec<TransitionConstraintDegree> = Vec::with_capacity(TRACE_WIDTH);
    let mut i: usize = 0;
    while i < TRACE_WIDTH
        invariant
            cycle >= 2,
            spec_is_power_of_two(cycle as nat),
            i <= TRACE_WIDTH,
            degrees.len() == i,
            forall|k: int| 0 <= k < i ==> (#[trigger] degrees@[k])@ == spec_degree_at(k, cycle),
        decreases TRACE_WIDTH - i,
    {
        let mut cycles: Vec<usize> = Vec::with_capacity(2);
        cycles.push(HASH_CYCLE_LENGTH);
        cycles.push(cycle);
        proof {
            lemma_cycle_lengths_are_powers_of_two();
            assert(cycles@ =~= seq![HASH_CYCLE_LENGTH, cycle]);
        }
        let base: usize = if i == 0 {
            2
        } else {
            3
        };
        degrees.push(TransitionConstraintDegree::with_cycles(base, cycles));
        i += 1;
    }
    assert(degrees_view(degrees@) =~~= spec_transition_constraint_degrees(cycle));
    degrees
}

/// Number of assertions that pin the start of the cycle of a key.
pub const ASSERTIONS_PER_KEY: usize = 21;

/// Assertion `k` of the constraint system, in the order of
/// [`MerkleAir::get_assertions`].
pub open spec fn spec_assertion_at(
    tree_root: Seq<Felt>,
    voting_keys: Seq<[Felt; AFFINE_POINT_WIDTH]>,
    cycle: int,
    k: int,
) -> AssertionView {
    let n = voting_keys.len() as int;
    if k < ASSERTIONS_PER_KEY * n {
        let key = k / (ASSERTIONS_PER_KEY as int);
        let j = k % (ASSERTIONS_PER_KEY as int);
        let first = (key * cycle) as usize;
        if j < 2 * POINT_COORDINATE_WIDTH {
            if j % 2 == 0 {
                // the x of the key starts the first permutation
                AssertionView::Single {
                    column: (j / 2 + HASH) as usize,
                    step: first,
                    value: voting_keys[key][j / 2],
                }
            } else {
                // the y of the key enters the second
                AssertionView::Single {
                    column: (j / 2 + HASH + RATE_WIDTH) as usize,
                    step: (first + HASH_CYCLE_LENGTH) as usize,
                    value: voting_keys[key][j / 2 + POINT_COORDINATE_WIDTH],
                }
            }
        } else if j < ASSERTIONS_PER_KEY - 1 {
            // the rest of the hash state starts at zero
            AssertionView::Single {
                column: (j - POINT_COORDINATE_WIDTH + HASH) as usize,
                step: first,
                value: Felt::spec_zero(),
            }
        } else {
            // the y of the key goes to the second half of the state
            AssertionView::Single {
                column: POSITION_BIT,
                step: (first + HASH_CYCLE_LENGTH) as usize,
                value: Felt::spec_zero(),
            }
        }
    } else {
        // each cycle ends with the root
        let i = k - ASSERTIONS_PER_KEY * n;
        AssertionView::Periodic {
            column: (i + HASH) as usize,
            first_step: (cycle - 1) as usize,
            stride: cycle as usize,
            value: tree_root[i],
        }
    }
}

/// The boundary assertions of the constraint system.
pub open spec fn spec_get_assertions(
    tree_root: Seq<Felt>,
    voting_keys: Seq<[Felt; AFFINE_POINT_WIDTH]>,
    cycle: int,
) -> Seq<AssertionView> {
    Seq::new(
        (ASSERTIONS_PER_KEY * voting_keys.len() + RATE_WIDTH) as nat,
        |k: int| spec_assertion_at(tree_root, voting_keys, cycle, k),
    )
}

/// Periodic column `c` of the constraint system: the flag of a hash round,
/// the mask of the cycle, and the round constants.
pub open spec fn spec_periodic_column(rescue: Rescue, cycle: nat, c: int) -> Seq<Felt> {
    if c == 0 {
        spec_hash_cycle_mask()
    } else if c == 1 {
        spec_flag_column(cycle, 0, cycle - 1, 1, 1)
    } else {
        spec_round_constant_column(rescue, c - 2)
    }
}

/// The periodic columns of the constraint system.
pub open spec fn spec_get_periodic_column_values(rescue: Rescue, cycle: nat) -> Seq<Seq<Felt>> {
    Seq::new(NUM_PERIODIC_COLUMNS as nat, |c: int| spec_periodic_column(rescue, cycle, c))
}

impl MerkleAir {
    /// The depth is valid, and the trace fits the machine.
    pub open spec fn wf(&self) -> bool {
        &&& spec_valid_depth(self.tree_depth as nat)
        &&& self.voting_keys@.len() * spec_cycle_length(self.tree_depth as nat) <= usize::MAX
    }

    /// The constraint system for the given public inputs and a tree of depth
    /// `tree_depth`.
    pub fn new(
        trace_info: TraceInfo,
        pub_inputs: PublicInputs,
        options: ProofOptions,
        tree_depth: usize,
        rescue: Rescue,
    ) -> (r: MerkleAir)
        requires
            trace_info.width == TRACE_WIDTH,
            spec_valid_depth(tree_depth as nat),
        ensures
            r.context.trace_info == trace_info,
            r.context.options == options,
            degrees_view(r.context.transition_constraint_degrees@)
                == spec_transition_constraint_degrees(
                spec_cycle_length(tree_depth as nat) as usize,
            ),
            r.tree_root == pub_inputs.tree_root,
            r.voting_keys == pub_inputs.voting_keys,
            r.tree_depth == tree_depth,
            r.rescue == rescue,
    {
        let degrees = transition_constraint_degrees(cycle_length(tree_depth));
        MerkleAir {
            context: AirContext::new(trace_info, degrees, options),
            tree_root: pub_inputs.tree_root,
            voting_keys: pub_inputs.voting_keys,
            tree_depth,
            rescue,
        }
    }

    /// The context of the constraint system.
    pub fn context(&self) -> (r: &AirContext)
        ensures
            *r == self.context,
    {
        &self.context
    }

    /// Evaluates the transition constraints on a pair of consecutive rows
    /// and the values of the periodic columns on the first of them, and adds
    /// each to its entry of `result`.
    pub fn evaluate_transition(
        &self,
        current: &[Felt],
        next: &[Felt],
        periodic_values: &[Felt],
        result: &mut [Felt],
    )
        requires
            current.len() == TRACE_WIDTH,
            next.len() == TRACE_WIDTH,
            periodic_values.len() == NUM_PERIODIC_COLUMNS,
            old(result).len() == TRACE_WIDTH,
        ensures
            final(result)@ == spec_evaluate_transition(
                old(result)@,
                current@,
                next@,
                periodic_values@,
                self.rescue,
            ),
            final(result).len() == TRACE_WIDTH,
    {
        let hash_flag = periodic_values[0];
        let cycle_mask = periodic_values[1];
        let ark = &periodic_values[2..NUM_PERIODIC_COLUMNS];

        // when hash_flag = 1, the constraints of a round are enforced
        enforce_round(
            result,
            HASH,
            &current[HASH..TRACE_WIDTH],
            &next[HASH..TRACE_WIDTH],
            ark,
            cycle_mask.mul(hash_flag),
            &self.rescue,
        );

        // when hash_flag = 0, the digest is put where the next permutation needs it
        let hash_init_flag = cycle_mask.mul(not(hash_flag));
        let bit = next[POSITION_BIT];
        agg_constraint(result, POSITION_BIT, hash_init_flag, is_binary(bit));
        enforce_copy(
            result,
            HASH,
            &current[HASH..HASH + RATE_WIDTH],
            &next[HASH..HASH + RATE_WIDTH],
            hash_init_flag.mul(not(bit)),
        );
        enforce_copy(
            result,
            HASH + RATE_WIDTH,
            &current[HASH..HASH + RATE_WIDTH],
            &next[HASH + RATE_WIDTH..TRACE_WIDTH],
            hash_init_flag.mul(bit),
        );
    }

    /// The boundary assertions: the key at the start of each cycle, and the
    /// root at its end.
    pub fn get_assertions(&self) -> (r: Vec<Assertion>)
        requires
            self.wf(),
        ensures
            assertions_view(r@) == spec_get_assertions(
                self.tree_root@,
                self.voting_keys@,
                spec_cycle_length(self.tree_depth as nat) as int,
            ),
    {
        let n = self.voting_keys.len();
        let cycle = cycle_length(self.tree_depth);
        let ghost root = self.tree_root@;
        let ghost keys = self.voting_keys@;
        let mut assertions: Vec<Assertion> = Vec::new();

        // START OF CYCLE
        let mut key_index: usize = 0;
        while key_index < n
            invariant
                n == self.voting_keys.len(),
                keys == self.voting_keys@,
                16 <= cycle,
                n * cycle <= usize::MAX,
                key_index <= n,
                assertions.len() == ASSERTIONS_PER_KEY * key_index,
                forall|k: int|
                    0 <= k < assertions.len() ==> (#[trigger] assertions@[k])@
                        == spec_assertion_at(root, keys, cycle as int, k),
            decreases n - key_index,
        {
            assert(key_index * cycle + cycle <= n * cycle) by (nonlinear_arith)
                requires
                    key_index < n,
            ;
            let first = key_index * cycle;
            let voting_key = &self.voting_keys[key_index];
            let ghost base = assertions.len();
            let mut i: usize = 0;
            while i < POINT_COORDINATE_WIDTH
                invariant
                    n == self.voting_keys.len(),
                    keys == self.voting_keys@,
                    key_index < n,
                    *voting_key == keys[key_index as int],
                    first == key_index * cycle,
                    first + cycle <= usize::MAX,
                    16 <= cycle,
                    base == ASSERTIONS_PER_KEY * key_index,
                    i <= POINT_COORDINATE_WIDTH,
                    assertions.len() == base + 2 * i,
                    forall|k: int|
                        0 <= k < assertions.len() ==> (#[trigger] assertions@[k])@
                            == spec_assertion_at(root, keys, cycle as int, k),
                decreases POINT_COORDINATE_WIDTH - i,
            {
                assertions.push(Assertion::single(i + HASH, first, voting_key[i]));
                assertions.push(
                    Assertion::single(
                        i + HASH + RATE_WIDTH,
                        first + HASH_CYCLE_LENGTH,
                        voting_key[i + POINT_COORDINATE_WIDTH],
                    ),
                );
                i += 1;
            }
            let mut i: usize = POINT_COORDINATE_WIDTH + HASH;
            while i < TRACE_WIDTH
                invariant
                    n == self.voting_keys.len(),
                    keys == self.voting_keys@,
                    key_index < n,
                    first == key_index * cycle,
                    first + cycle <= usize::MAX,
                    16 <= cycle,
                    base == ASSERTIONS_PER_KEY * key_index,
                    POINT_COORDINATE_WIDTH + HASH <= i <= TRACE_WIDTH,
                    assertions.len() == base + 2 * POINT_COORDINATE_WIDTH + (i
                        - POINT_COORDINATE_WIDTH - HASH),
                    forall|k: int|
                        0 <= k < assertions.len() ==> (#[trigger] assertions@[k])@
                            == spec_assertion_at(root, keys, cycle as int, k),
                decreases TRACE_WIDTH - i,
            {
                assertions.push(Assertion::single(i, first, Felt::zero()));
                i += 1;
            }
            assertions.push(
                Assertion::single(POSITION_BIT, first + HASH_CYCLE_LENGTH, Felt::zero()),
            );
            key_index += 1;
        }

        // END OF CYCLE
        let mut i: usize = 0;
        while i < RATE_WIDTH
            invariant
                n == self.voting_keys.len(),
                keys == self.voting_keys@,
                root == self.tree_root@,
                16 <= cycle,
                spec_is_power_of_two(cycle as nat),
                i <= RATE_WIDTH,
                assertions.len() == ASSERTIONS_PER_KEY * n + i,
                forall|k: int|
                    0 <= k < assertions.len() ==> (#[trigger] assertions@[k])@
                        == spec_assertion_at(root, keys, cycle as int, k),
            decreases RATE_WIDTH - i,
        {
            assertions.push(Assertion::periodic(i + HASH, cycle - 1, cycle, self.tree_root[i]));
            i += 1;
        }
        assert(assertions_view(assertions@) =~= spec_get_assertions(root, keys, cycle as int));
        assertions
    }

    /// The periodic columns of the constraint system.
    pub fn get_periodic_column_values(&self) -> (r: Vec<Vec<Felt>>)
        requires
            self.wf(),
        ensures
            columns_view(r@) == spec_get_periodic_column_values(
                self.rescue,
                spec_cycle_length(self.tree_depth as nat),
            ),
            r.len() == NUM_PERIODIC_COLUMNS,
    {
        let cycle = cycle_length(self.tree_depth);
        let mut result: Vec<Vec<Felt>> = Vec::with_capacity(NUM_PERIODIC_COLUMNS);
        result.push(hash_cycle_mask());
        result.push(flag_column(cycle, 0, cycle - 1, 1, 1));
        let mut constants = get_round_constants(&self.rescue);
        let ghost round_constants = columns_view(constants@);
        result.append(&mut constants);
        proof {
            let expected = spec_get_periodic_column_values(self.rescue, cycle as nat);
            let got = columns_view(result@);
            assert forall|c: int| 0 <= c < NUM_PERIODIC_COLUMNS implies got[c] == expected[c] by {
                if c >= 2 {
                    assert(got[c] == round_constants[c - 2]);
                }
            }
            assert(got =~= expected);
        }
        result
    }
}

// THE PUBLIC INPUTS ARE BOUND
// ================================================================================================

/// A trace meets every boundary assertion of the constraint system for a
/// root and a list of keys.
pub open spec fn spec_meets_assertions(
    rows: Seq<Seq<Felt>>,
    tree_root: Seq<Felt>,
    voting_keys: Seq<[Felt; AFFINE_POINT_WIDTH]>,
    cycle: int,
) -> bool {
    forall|k: int|
        0 <= k < ASSERTIONS_PER_KEY * voting_keys.len() + RATE_WIDTH ==> (#[trigger] spec_get_assertions(
            tree_root,
            voting_keys,
            cycle,
        )[k]).holds(rows)
}

/// The boundary assertions bind the public inputs: a trace cannot meet the
/// assertions for two roots or two lists of keys that differ in a single
/// element. A proof for public inputs of which one element was changed is
/// therefore a proof of another trace.
pub proof fn lemma_assertions_bind_inputs(
    rows: Seq<Seq<Felt>>,
    tree_root: Seq<Felt>,
    voting_keys: Seq<[Felt; AFFINE_POINT_WIDTH]>,
    other_root: Seq<Felt>,
    other_keys: Seq<[Felt; AFFINE_POINT_WIDTH]>,
    depth: nat,
)
    requires
        depth <= MAX_TREE_DEPTH,
        voting_keys.len() > 0,
        voting_keys.len() == other_keys.len(),
        voting_keys.len() * spec_cycle_length(depth) <= usize::MAX,
        rows.len() == voting_keys.len() * spec_cycle_length(depth),
        tree_root.len() == DIGEST_SIZE,
        other_root.len() == DIGEST_SIZE,
        spec_meets_assertions(rows, tree_root, voting_keys, spec_cycle_length(depth) as int),
        spec_meets_assertions(rows, other_root, other_keys, spec_cycle_length(depth) as int),
    ensures
        other_root == tree_root,
        other_keys == voting_keys,
{
    let cycle = spec_cycle_length(depth) as int;
    let n = voting_keys.len() as int;
    let mine = spec_get_assertions(tree_root, voting_keys, cycle);
    let theirs = spec_get_assertions(other_root, other_keys, cycle);
    assert forall|c: int| 0 <= c < DIGEST_SIZE implies other_root[c] == tree_root[c] by {
        let k = ASSERTIONS_PER_KEY * n + c;
        assert(mine[k].holds(rows));
        assert(theirs[k].holds(rows));
        // the last row of the first cycle
        let row = spec_row_of((cycle - 1) as usize, cycle as usize, 0);
        assert(row == cycle - 1);
        assert(cycle <= n * cycle) by (nonlinear_arith)
            requires
                n >= 1,
                cycle >= 0,
        ;
        assert(spec_holds_at(rows, (c + HASH) as usize, row, tree_root[c]));
        assert(spec_holds_at(rows, (c + HASH) as usize, row, other_root[c]));
    }
    assert(other_root =~= tree_root);
    assert forall|i: int| 0 <= i < n implies other_keys[i] == voting_keys[i] by {
        assert(0 <= i * cycle && (i + 1) * cycle <= n * cycle && (i + 1) * cycle == i * cycle
            + cycle) by (nonlinear_arith)
            requires
                0 <= i < n,
                cycle >= 0,
        ;
        assert forall|c: int| 0 <= c < AFFINE_POINT_WIDTH implies other_keys[i][c]
            == voting_keys[i][c] by {
            let j = if c < POINT_COORDINATE_WIDTH {
                2 * c
            } else {
                2 * (c - POINT_COORDINATE_WIDTH) + 1
            };
            let k = ASSERTIONS_PER_KEY * i + j;
            assert(k / (ASSERTIONS_PER_KEY as int) == i && k % (ASSERTIONS_PER_KEY as int) == j) by {
                lemma_row_of_cycle(i, ASSERTIONS_PER_KEY as int, j);
                assert(i * ASSERTIONS_PER_KEY == ASSERTIONS_PER_KEY * i) by (nonlinear_arith);
            }
            assert(k < ASSERTIONS_PER_KEY * n) by (nonlinear_arith)
                requires
                    k == ASSERTIONS_PER_KEY * i + j,
                    j < ASSERTIONS_PER_KEY,
                    0 <= i < n,
            ;
            assert(mine[k].holds(rows));
            assert(theirs[k].holds(rows));
        }
        assert(other_keys[i] =~= voting_keys[i]);
    }
    assert(other_keys =~= voting_keys);
}

} // verus!

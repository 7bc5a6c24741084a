//! The prover of membership: from the keys and their paths to the execution
//! trace and the public inputs.

use crate::air::{
    copy_of, is_power_of_two, lemma_row_of_cycle, spec_is_power_of_two, ProofOptions, TraceTable,
    WitnessError,
};
use crate::constraint::zeros;
use crate::ecc::{AFFINE_POINT_WIDTH, POINT_COORDINATE_WIDTH};
use crate::field::Felt;
use crate::merkle::air::PublicInputs;
use crate::merkle::constants::{
    cycle_length, spec_cycle_length, spec_valid_depth, MAX_TREE_DEPTH, TRACE_WIDTH,
};
use crate::merkle::trace::{
    init_merkle_verification_state, spec_init_merkle_verification_state,
    spec_update_merkle_verification_state, update_merkle_verification_state,
};
use crate::rescue::{Rescue, DIGEST_SIZE, RATE_WIDTH};
use vstd::prelude::*;

verus! {

/// The prover of the membership of a list of keys.
#[derive(Clone, Debug)]
pub struct MerkleProver {
    pub options: ProofOptions,
    pub tree_root: [Felt; DIGEST_SIZE],
    pub voting_keys: Vec<[Felt; AFFINE_POINT_WIDTH]>,
    pub tree_depth: usize,
    pub rescue: Rescue,
}

/// Every branch holds one sibling for each level of the tree.
pub open spec fn spec_branches_fit(branches: Seq<Vec<Felt>>, tree_depth: nat) -> bool {
    forall|i: int| 0 <= i < branches.len() ==> (#[trigger] branches[i]).len() == tree_depth * RATE_WIDTH
}

/// The shape of a witness: one branch and one position for each key, one
/// sibling for each level in every branch, and a power of two of keys.
pub open spec fn spec_witness_shape(
    voting_keys: nat,
    branches: Seq<Vec<Felt>>,
    hash_indices: nat,
    tree_depth: nat,
) -> Result<(), WitnessError> {
    if branches.len() != voting_keys || hash_indices != voting_keys || !spec_branches_fit(
        branches,
        tree_depth,
    ) {
        Err(WitnessError::WrongLength)
    } else if !spec_is_power_of_two(voting_keys) {
        Err(WitnessError::NotPowerOfTwo)
    } else {
        Ok(())
    }
}

/// The message that the cycle of a key hashes after the `x` of the key: its
/// `y`, filled up to the rate with a zero, and the siblings along the path.
pub open spec fn spec_hash_message(voting_key: Seq<Felt>, branch: Seq<Felt>) -> Seq<Felt> {
    voting_key.subrange(POINT_COORDINATE_WIDTH as int, AFFINE_POINT_WIDTH as int).push(
        Felt::spec_zero(),
    ) + branch
}

fn branches_fit(branches: &Vec<Vec<Felt>>, tree_depth: usize) -> (b: bool)
    requires
        tree_depth <= MAX_TREE_DEPTH,
    ensures
        b == spec_branches_fit(branches@, tree_depth as nat),
{
    let mut i: usize = 0;
    while i < branches.len()
        invariant
            tree_depth <= MAX_TREE_DEPTH,
            i <= branches.len(),
            forall|j: int| 0 <= j < i ==> (#[trigger] branches@[j]).len() == tree_depth * RATE_WIDTH,
        decreases branches.len() - i,
    {
        if branches[i].len() != tree_depth * RATE_WIDTH {
            return false;
        }
        i += 1;
    }
    true
}

/// A copy of a list of keys.
pub fn copy_of_keys(keys: &Vec<[Felt; AFFINE_POINT_WIDTH]>) -> (r: Vec<[Felt; AFFINE_POINT_WIDTH]>)
    ensures
        r@ == keys@,
{
    let mut r: Vec<[Felt; AFFINE_POINT_WIDTH]> = Vec::with_capacity(keys.len());
    let mut i: usize = 0;
    while i < keys.len()
        invariant
            i <= keys.len(),
            r.len() == i,
            forall|j: int| 0 <= j < i ==> r@[j] == keys@[j],
        decreases keys.len() - i,
    {
        r.push(keys[i]);
        i += 1;
    }
    assert(r@ =~= keys@);
    r
}

impl MerkleProver {
    /// The depth is valid, and the trace fits the machine.
    pub open spec fn wf(&self) -> bool {
        &&& spec_valid_depth(self.tree_depth as nat)
        &&& self.voting_keys@.len() * spec_cycle_length(self.tree_depth as nat) <= usize::MAX
    }

    /// The prover of the membership of `voting_keys` in the tree of depth
    /// `tree_depth` with the root `tree_root`.
    pub fn new(
        options: ProofOptions,
        tree_root: [Felt; DIGEST_SIZE],
        voting_keys: Vec<[Felt; AFFINE_POINT_WIDTH]>,
        tree_depth: usize,
        rescue: Rescue,
    ) -> (r: MerkleProver)
        ensures
            r.options == options,
            r.tree_root == tree_root,
            r.voting_keys == voting_keys,
            r.tree_depth == tree_depth,
            r.rescue == rescue,
    {
        MerkleProver { options, tree_root, voting_keys, tree_depth, rescue }
    }

    /// The parameters of the proof.
    pub fn options(&self) -> (r: &ProofOptions)
        ensures
            *r == self.options,
    {
        &self.options
    }

    /// Row `step` of the cycle of key `i`: the first row is the initial
    /// state, and each row follows from the one before by the transition
    /// function on the path of the key.
    pub open spec fn spec_trace_row(
        &self,
        branches: Seq<Vec<Felt>>,
        hash_indices: Seq<usize>,
        i: int,
        step: nat,
    ) -> Seq<Felt>
        decreases step,
    {
        if step == 0 {
            spec_init_merkle_verification_state(self.voting_keys@[i]@)
        } else {
            spec_update_merkle_verification_state(
                step - 1,
                spec_hash_message(self.voting_keys@[i]@, branches[i]@),
                hash_indices[i] << 1,
                self.spec_trace_row(branches, hash_indices, i, (step - 1) as nat),
                self.rescue,
            )
        }
    }

    /// The execution trace of the paths: one cycle for each key, in the
    /// order of the keys.
    pub open spec fn spec_build_trace(&self, branches: Seq<Vec<Felt>>, hash_indices: Seq<usize>) -> Seq<
        Seq<Felt>,
    > {
        let cycle = spec_cycle_length(self.tree_depth as nat) as int;
        Seq::new(
            (self.voting_keys@.len() * cycle) as nat,
            |r: int| self.spec_trace_row(branches, hash_indices, r / cycle, (r % cycle) as nat),
        )
    }

    /// Builds the execution trace of the paths of the keys. `branches` holds
    /// the siblings along the path of each key, from the leaf up, and
    /// `hash_indices` the position of the leaf of each key. A witness that
    /// has not the shape that a trace needs is refused.
    pub fn build_trace(&self, branches: Vec<Vec<Felt>>, hash_indices: Vec<usize>) -> (r: Result<
        TraceTable,
        WitnessError,
    >)
        requires
            self.wf(),
        ensures
            match spec_witness_shape(
                self.voting_keys@.len(),
                branches@,
                hash_indices@.len(),
                self.tree_depth as nat,
            ) {
                Ok(()) => r is Ok && r->Ok_0.spec_rows() == self.spec_build_trace(
                    branches@,
                    hash_indices@,
                ) && r->Ok_0.has_width(TRACE_WIDTH as nat) && r->Ok_0.rows@.len()
                    == self.voting_keys@.len() * spec_cycle_length(self.tree_depth as nat),
                Err(e) => r is Err && r->Err_0 == e,
            },
    {
        let n = self.voting_keys.len();
        let depth = self.tree_depth;
        if branches.len() != n || hash_indices.len() != n || !branches_fit(&branches, depth) {
            return Err(WitnessError::WrongLength);
        }
        if !is_power_of_two(n) {
            return Err(WitnessError::NotPowerOfTwo);
        }
        let cycle = cycle_length(depth);
        let mut rows: Vec<Vec<Felt>> = Vec::new();
        let mut i: usize = 0;
        while i < n
            invariant
                self.wf(),
                n == self.voting_keys.len(),
                n == branches.len(),
                n == hash_indices.len(),
                depth == self.tree_depth,
                spec_branches_fit(branches@, depth as nat),
                cycle == spec_cycle_length(depth as nat),
                i <= n,
                rows.len() == i * cycle,
                forall|r: int| 0 <= r < rows.len() ==> (#[trigger] rows@[r]).len() == TRACE_WIDTH,
                forall|r: int|
                    0 <= r < rows.len() ==> (#[trigger] rows@[r])@ == self.spec_trace_row(
                        branches@,
                        hash_indices@,
                        r / (cycle as int),
                        (r % (cycle as int)) as nat,
                    ),
            decreases n - i,
        {
            let hash_index = hash_indices[i] << 1;
            let voting_key = &self.voting_keys[i];
            let mut hash_message: Vec<Felt> = Vec::with_capacity((depth + 1) * RATE_WIDTH);
            hash_message.extend_from_slice(&voting_key[POINT_COORDINATE_WIDTH..AFFINE_POINT_WIDTH]);
            hash_message.push(Felt::zero());
            hash_message.extend_from_slice(branches[i].as_slice());
            assert(hash_message@ =~= spec_hash_message(voting_key@, branches@[i as int]@));
            assert(hash_message.len() == (depth + 1) * RATE_WIDTH);

            let mut state = zeros(TRACE_WIDTH);
            init_merkle_verification_state(voting_key, state.as_mut_slice());
            rows.push(copy_of(state.as_slice()));
            proof {
                lemma_row_of_cycle(i as int, cycle as int, 0);
            }
            let mut step: usize = 0;
            while step < cycle - 1
                invariant
                    self.wf(),
                    n == self.voting_keys.len(),
                    n == branches.len(),
                    n == hash_indices.len(),
                    depth == self.tree_depth,
                    cycle == spec_cycle_length(depth as nat),
                    i < n,
                    *voting_key == self.voting_keys@[i as int],
                    hash_index == hash_indices@[i as int] << 1,
                    hash_message@ == spec_hash_message(voting_key@, branches@[i as int]@),
                    hash_message.len() == (depth + 1) * RATE_WIDTH,
                    step <= cycle - 1,
                    state.len() == TRACE_WIDTH,
                    state@ == self.spec_trace_row(
                        branches@,
                        hash_indices@,
                        i as int,
                        step as nat,
                    ),
                    rows.len() == i * cycle + step + 1,
                    forall|r: int|
                        0 <= r < rows.len() ==> (#[trigger] rows@[r]).len() == TRACE_WIDTH,
                    forall|r: int|
                        0 <= r < rows.len() ==> (#[trigger] rows@[r])@ == self.spec_trace_row(
                            branches@,
                            hash_indices@,
                            r / (cycle as int),
                            (r % (cycle as int)) as nat,
                        ),
                decreases cycle - 1 - step,
            {
                update_merkle_verification_state(
                    step,
                    hash_message.as_slice(),
                    hash_index,
                    state.as_mut_slice(),
                    &self.rescue,
                );
                rows.push(copy_of(state.as_slice()));
                proof {
                    lemma_row_of_cycle(i as int, cycle as int, step + 1);
                }
                step += 1;
            }
            proof {
                lemma_row_of_cycle(i as int, cycle as int, cycle - 1);
            }
            i += 1;
        }
        let trace = TraceTable { rows };
        assert(trace.spec_rows() =~= self.spec_build_trace(branches@, hash_indices@));
        Ok(trace)
    }

    /// The public inputs that go with a trace: the root and the keys.
    pub fn get_pub_inputs(&self, trace: &TraceTable) -> (r: PublicInputs)
        ensures
            r.tree_root == self.tree_root,
            r.voting_keys@ == self.voting_keys@,
    {
        let voting_keys = copy_of_keys(&self.voting_keys);
        PublicInputs { tree_root: self.tree_root, voting_keys }
    }
}

} // verus!

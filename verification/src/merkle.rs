//! The proof that a voting key belongs to the tree of eligible voters.
//!
//! Besides the constraint system and its prover, this module holds the tree
//! itself: how it is built over the hashes of the keys, and how a path from
//! a leaf to the root is checked without a proof system.

pub mod air;
pub mod completeness;
pub mod constants;
pub mod inputs;
pub mod prover;
pub mod trace;

use crate::air::copy_of;
use crate::ecc::{AFFINE_POINT_WIDTH, POINT_COORDINATE_WIDTH};
use crate::field::Felt;
use crate::merkle::constants::MAX_TREE_DEPTH;
use crate::merkle::prover::spec_branches_fit;
use crate::rescue::{
    digest, lemma_merge_is_a_digest, merge, spec_digest, spec_merge, Rescue, DIGEST_SIZE,
};
use vstd::prelude::*;

verus! {

/// The leaf of a key: the digest of its `x`, merged with its `y`, each
/// filled up to the rate with a zero.
pub open spec fn spec_hash_voting_key(voting_key: Seq<Felt>, rescue: Rescue) -> Seq<Felt> {
    spec_merge(
        spec_digest(
            voting_key.subrange(0, POINT_COORDINATE_WIDTH as int).push(Felt::spec_zero()),
            rescue,
        ),
        voting_key.subrange(POINT_COORDINATE_WIDTH as int, AFFINE_POINT_WIDTH as int).push(
            Felt::spec_zero(),
        ),
        rescue,
    )
}

/// Hashes a key into its leaf.
pub fn hash_voting_key(voting_key: &[Felt], rescue: &Rescue) -> (r: Vec<Felt>)
    requires
        voting_key.len() == AFFINE_POINT_WIDTH,
    ensures
        r@ == spec_hash_voting_key(voting_key@, *rescue),
        r.len() == DIGEST_SIZE,
{
    let mut x = copy_of(&voting_key[0..POINT_COORDINATE_WIDTH]);
    x.push(Felt::zero());
    let mut y = copy_of(&voting_key[POINT_COORDINATE_WIDTH..AFFINE_POINT_WIDTH]);
    y.push(Felt::zero());
    let h = digest(x.as_slice(), rescue);
    merge(h.as_slice(), y.as_slice(), rescue)
}

/// The digest of two nodes of the tree.
pub fn merge_hash(left: &[Felt], right: &[Felt], rescue: &Rescue) -> (r: Vec<Felt>)
    requires
        left.len() == DIGEST_SIZE,
        right.len() == DIGEST_SIZE,
    ensures
        r@ == spec_merge(left@, right@, *rescue),
        r.len() == DIGEST_SIZE,
{
    merge(left, right, rescue)
}

/// The position, `levels` levels up, of the ancestor of the leaf at
/// position `position`.
pub open spec fn spec_ancestor(position: nat, levels: nat) -> nat
    decreases levels,
{
    if levels == 0 {
        position
    } else {
        spec_ancestor(position, (levels - 1) as nat) / 2
    }
}

/// The position of the sibling of the node at `position`.
pub open spec fn spec_sibling(position: nat) -> nat {
    if position % 2 == 0 {
        position + 1
    } else {
        (position - 1) as nat
    }
}

/// The digest that the path of a leaf reaches `levels` levels up: at each
/// level the digest is merged with the sibling, on the left where the
/// position is even, on the right where it is odd.
pub open spec fn spec_path_digest(
    leaf: Seq<Felt>,
    branch: Seq<Felt>,
    hash_index: nat,
    levels: nat,
    rescue: Rescue,
) -> Seq<Felt>
    decreases levels,
{
    if levels == 0 {
        leaf
    } else {
        let below = spec_path_digest(leaf, branch, hash_index, (levels - 1) as nat, rescue);
        let sibling = branch.subrange(DIGEST_SIZE * (levels - 1), DIGEST_SIZE * levels);
        if spec_ancestor(hash_index, (levels - 1) as nat) % 2 == 0 {
            spec_merge(below, sibling, rescue)
        } else {
            spec_merge(sibling, below, rescue)
        }
    }
}

/// The path of the key leads to the root.
pub open spec fn spec_verify_merkle_proof(
    tree_root: Seq<Felt>,
    voting_key: Seq<Felt>,
    branch: Seq<Felt>,
    hash_index: nat,
    tree_depth: nat,
    rescue: Rescue,
) -> bool {
    spec_path_digest(
        spec_hash_voting_key(voting_key, rescue),
        branch,
        hash_index,
        tree_depth,
        rescue,
    ) == tree_root
}

/// Whether two lists of elements are equal.
pub fn elements_equal(a: &[Felt], b: &[Felt]) -> (r: bool)
    ensures
        r == (a@ == b@),
{
    if a.len() != b.len() {
        return false;
    }
    let mut i: usize = 0;
    while i < a.len()
        invariant
            a.len() == b.len(),
            i <= a.len(),
            forall|j: int| 0 <= j < i ==> a@[j] == b@[j],
        decreases a.len() - i,
    {
        if a[i] != b[i] {
            return false;
        }
        i += 1;
    }
    assert(a@ =~= b@);
    true
}

/// Checks the path of a key: whether the leaf of the key, merged level by
/// level with the siblings of `branch`, gives the root.
pub fn verify_merkle_proof(
    tree_root: &[Felt],
    voting_key: &[Felt],
    branch: &[Felt],
    hash_index: usize,
    tree_depth: usize,
    rescue: &Rescue,
) -> (r: bool)
    requires
        voting_key.len() == AFFINE_POINT_WIDTH,
        tree_depth <= MAX_TREE_DEPTH,
        branch.len() == tree_depth * DIGEST_SIZE,
    ensures
        r == spec_verify_merkle_proof(
            tree_root@,
            voting_key@,
            branch@,
            hash_index as nat,
            tree_depth as nat,
            *rescue,
        ),
{
    let mut h = hash_voting_key(voting_key, rescue);
    let mut position = hash_index;
    let mut i: usize = 0;
    while i < tree_depth
        invariant
            tree_depth <= MAX_TREE_DEPTH,
            branch.len() == tree_depth * DIGEST_SIZE,
            i <= tree_depth,
            h.len() == DIGEST_SIZE,
            position == spec_ancestor(hash_index as nat, i as nat),
            h@ == spec_path_digest(
                spec_hash_voting_key(voting_key@, *rescue),
                branch@,
                hash_index as nat,
                i as nat,
                *rescue,
            ),
        decreases tree_depth - i,
    {
        let sibling = &branch[i * DIGEST_SIZE..(i + 1) * DIGEST_SIZE];
        if position % 2 == 0 {
            h = merge_hash(h.as_slice(), sibling, rescue);
        } else {
            h = merge_hash(sibling, h.as_slice(), rescue);
        }
        position = position / 2;
        i += 1;
    }
    elements_equal(h.as_slice(), tree_root)
}

/// Every key has a path to the root.
pub open spec fn spec_naive_verify_merkle_proofs(
    tree_root: Seq<Felt>,
    voting_keys: Seq<[Felt; AFFINE_POINT_WIDTH]>,
    branches: Seq<Vec<Felt>>,
    hash_indices: Seq<usize>,
    tree_depth: nat,
    rescue: Rescue,
) -> bool {
    forall|i: int|
        0 <= i < voting_keys.len() ==> #[trigger] spec_verify_merkle_proof(
            tree_root,
            voting_keys[i]@,
            branches[i]@,
            hash_indices[i] as nat,
            tree_depth,
            rescue,
        )
}

/// Checks the path of every key without a proof system.
pub fn naive_verify_merkle_proofs(
    tree_root: &[Felt],
    voting_keys: &Vec<[Felt; AFFINE_POINT_WIDTH]>,
    branches: &Vec<Vec<Felt>>,
    hash_indices: &Vec<usize>,
    tree_depth: usize,
    rescue: &Rescue,
) -> (r: bool)
    requires
        tree_depth <= MAX_TREE_DEPTH,
        branches.len() == voting_keys.len(),
        hash_indices.len() == voting_keys.len(),
        spec_branches_fit(branches@, tree_depth as nat),
    ensures
        r == spec_naive_verify_merkle_proofs(
            tree_root@,
            voting_keys@,
            branches@,
            hash_indices@,
            tree_depth as nat,
            *rescue,
        ),
{
    let mut i: usize = 0;
    while i < voting_keys.len()
        invariant
            tree_depth <= MAX_TREE_DEPTH,
            branches.len() == voting_keys.len(),
            hash_indices.len() == voting_keys.len(),
            spec_branches_fit(branches@, tree_depth as nat),
            i <= voting_keys.len(),
            forall|j: int|
                0 <= j < i ==> #[trigger] spec_verify_merkle_proof(
                    tree_root@,
                    voting_keys@[j]@,
                    branches@[j]@,
                    hash_indices@[j] as nat,
                    tree_depth as nat,
                    *rescue,
                ),
        decreases voting_keys.len() - i,
    {
        if !verify_merkle_proof(
            tree_root,
            &voting_keys[i],
            branches[i].as_slice(),
            hash_indices[i],
            tree_depth,
            rescue,
        ) {
            return false;
        }
        i += 1;
    }
    true
}

// THE TREE
// ================================================================================================

/// `2^levels`.
pub open spec fn spec_pow2(levels: nat) -> nat
    decreases levels,
{
    if levels == 0 {
        1
    } else {
        2 * spec_pow2((levels - 1) as nat)
    }
}

/// The node at `position` of level `level` of the tree over `leaves`: a leaf
/// on level zero, and the digest of its two children above.
pub open spec fn spec_node(leaves: Seq<Seq<Felt>>, level: nat, position: int, rescue: Rescue) -> Seq<
    Felt,
>
    decreases level,
{
    if level == 0 {
        leaves[position]
    } else {
        spec_merge(
            spec_node(leaves, (level - 1) as nat, 2 * position, rescue),
            spec_node(leaves, (level - 1) as nat, 2 * position + 1, rescue),
            rescue,
        )
    }
}

/// The first `levels` siblings along the path of the leaf at `position`.
pub open spec fn spec_branch(
    leaves: Seq<Seq<Felt>>,
    position: nat,
    levels: nat,
    rescue: Rescue,
) -> Seq<Felt>
    decreases levels,
{
    if levels == 0 {
        Seq::empty()
    } else {
        spec_branch(leaves, position, (levels - 1) as nat, rescue) + spec_node(
            leaves,
            (levels - 1) as nat,
            spec_sibling(spec_ancestor(position, (levels - 1) as nat)) as int,
            rescue,
        )
    }
}

/// The leaves with the hashes of the first `m` keys put at their positions.
pub open spec fn spec_placed_leaves(
    leaves: Seq<Seq<Felt>>,
    voting_keys: Seq<[Felt; AFFINE_POINT_WIDTH]>,
    hash_indices: Seq<usize>,
    m: nat,
    rescue: Rescue,
) -> Seq<Seq<Felt>>
    decreases m,
{
    if m == 0 {
        leaves
    } else {
        spec_placed_leaves(leaves, voting_keys, hash_indices, (m - 1) as nat, rescue).update(
            hash_indices[m - 1] as int,
            spec_hash_voting_key(voting_keys[m - 1]@, rescue),
        )
    }
}

/// The view of a list of nodes.
pub open spec fn nodes_view(nodes: Seq<Vec<Felt>>) -> Seq<Seq<Felt>> {
    Seq::new(nodes.len(), |i: int| nodes[i]@)
}

/// Every node holds a digest.
pub open spec fn spec_all_digests(nodes: Seq<Vec<Felt>>) -> bool {
    forall|i: int| 0 <= i < nodes.len() ==> (#[trigger] nodes[i]).len() == DIGEST_SIZE
}

/// Computes the root of the tree over `leaves`, and the siblings along the
/// path of each of the leaves at `hash_indices`, level by level from the
/// leaves up.
pub fn calculate_merkle_proof(
    leaves: Vec<Vec<Felt>>,
    hash_indices: &Vec<usize>,
    tree_depth: usize,
    rescue: &Rescue,
) -> (r: (Vec<Felt>, Vec<Vec<Felt>>))
    requires
        tree_depth <= MAX_TREE_DEPTH,
        leaves.len() == spec_pow2(tree_depth as nat),
        spec_all_digests(leaves@),
        forall|i: int| 0 <= i < hash_indices.len() ==> (#[trigger] hash_indices@[i]) < leaves.len(),
    ensures
        r.0@ == spec_node(nodes_view(leaves@), tree_depth as nat, 0, *rescue),
        r.0.len() == DIGEST_SIZE,
        r.1.len() == hash_indices.len(),
        forall|i: int|
            0 <= i < hash_indices.len() ==> (#[trigger] r.1@[i])@ == spec_branch(
                nodes_view(leaves@),
                hash_indices@[i] as nat,
                tree_depth as nat,
                *rescue,
            ),
        spec_branches_fit(r.1@, tree_depth as nat),
{
    let n = hash_indices.len();
    let ghost all_leaves = nodes_view(leaves@);
    let mut nodes = leaves;
    let mut positions: Vec<usize> = Vec::with_capacity(n);
    let mut branches: Vec<Vec<Felt>> = Vec::with_capacity(n);
    let mut i: usize = 0;
    while i < n
        invariant
            n == hash_indices.len(),
            i <= n,
            positions.len() == i,
            branches.len() == i,
            forall|j: int| 0 <= j < i ==> positions@[j] == hash_indices@[j],
            forall|j: int| 0 <= j < i ==> (#[trigger] branches@[j])@ == Seq::<Felt>::empty(),
        decreases n - i,
    {
        positions.push(hash_indices[i]);
        branches.push(Vec::new());
        i += 1;
    }
    let mut level: usize = 0;
    while level < tree_depth
        invariant
            tree_depth <= MAX_TREE_DEPTH,
            n == hash_indices.len(),
            level <= tree_depth,
            nodes.len() == spec_pow2((tree_depth - level) as nat),
            spec_all_digests(nodes@),
            forall|m: int|
                0 <= m < nodes.len() ==> (#[trigger] nodes@[m])@ == spec_node(
                    all_leaves,
                    level as nat,
                    m,
                    *rescue,
                ),
            positions.len() == n,
            branches.len() == n,
            forall|j: int|
                0 <= j < n ==> (#[trigger] positions@[j]) == spec_ancestor(
                    hash_indices@[j] as nat,
                    level as nat,
                ) && positions@[j] < nodes.len(),
            forall|j: int|
                0 <= j < n ==> (#[trigger] branches@[j])@ == spec_branch(
                    all_leaves,
                    hash_indices@[j] as nat,
                    level as nat,
                    *rescue,
                ),
            forall|j: int| 0 <= j < n ==> (#[trigger] branches@[j]).len() == level * DIGEST_SIZE,
        decreases tree_depth - level,
    {
        let len = nodes.len();
        assert(len == 2 * spec_pow2((tree_depth - level - 1) as nat));
        // the siblings of this level
        let mut j: usize = 0;
        while j < n
            invariant
                n == hash_indices.len(),
                len == nodes.len(),
                len % 2 == 0,
                level < tree_depth,
                tree_depth <= MAX_TREE_DEPTH,
                spec_all_digests(nodes@),
                forall|m: int|
                    0 <= m < nodes.len() ==> (#[trigger] nodes@[m])@ == spec_node(
                        all_leaves,
                        level as nat,
                        m,
                        *rescue,
                    ),
                positions.len() == n,
                branches.len() == n,
                j <= n,
                forall|k: int|
                    0 <= k < j ==> (#[trigger] positions@[k]) == spec_ancestor(
                        hash_indices@[k] as nat,
                        (level + 1) as nat,
                    ) && positions@[k] < len / 2,
                forall|k: int|
                    j <= k < n ==> (#[trigger] positions@[k]) == spec_ancestor(
                        hash_indices@[k] as nat,
                        level as nat,
                    ) && positions@[k] < len,
                forall|k: int|
                    0 <= k < j ==> (#[trigger] branches@[k])@ == spec_branch(
                        all_leaves,
                        hash_indices@[k] as nat,
                        (level + 1) as nat,
                        *rescue,
                    ),
                forall|k: int|
                    j <= k < n ==> (#[trigger] branches@[k])@ == spec_branch(
                        all_leaves,
                        hash_indices@[k] as nat,
                        level as nat,
                        *rescue,
                    ),
                forall|k: int|
                    0 <= k < j ==> (#[trigger] branches@[k]).len() == (level + 1) * DIGEST_SIZE,
                forall|k: int| j <= k < n ==> (#[trigger] branches@[k]).len() == level * DIGEST_SIZE,
            decreases n - j,
        {
            let position = positions[j];
            let sibling = if position % 2 == 0 {
                position + 1
            } else {
                position - 1
            };
            let mut branch: Vec<Felt> = Vec::with_capacity((level + 1) * DIGEST_SIZE);
            branch.extend_from_slice(branches[j].as_slice());
            branch.extend_from_slice(nodes[sibling].as_slice());
            assert(branch@ =~= spec_branch(
                all_leaves,
                hash_indices@[j as int] as nat,
                (level + 1) as nat,
                *rescue,
            ));
            branches[j] = branch;
            positions[j] = position / 2;
            j += 1;
        }
        // the nodes of the next level
        let mut above: Vec<Vec<Felt>> = Vec::with_capacity(len / 2);
        let mut m: usize = 0;
        while m < len / 2
            invariant
                len == nodes.len(),
                len % 2 == 0,
                spec_all_digests(nodes@),
                forall|k: int|
                    0 <= k < nodes.len() ==> (#[trigger] nodes@[k])@ == spec_node(
                        all_leaves,
                        level as nat,
                        k,
                        *rescue,
                    ),
                m <= len / 2,
                above.len() == m,
                spec_all_digests(above@),
                forall|k: int|
                    0 <= k < m ==> (#[trigger] above@[k])@ == spec_node(
                        all_leaves,
                        (level + 1) as nat,
                        k,
                        *rescue,
                    ),
            decreases len / 2 - m,
        {
            above.push(merge_hash(nodes[2 * m].as_slice(), nodes[2 * m + 1].as_slice(), rescue));
            m += 1;
        }
        nodes = above;
        level += 1;
    }
    assert(nodes.len() == 1);
    let root = copy_of(nodes[0].as_slice());
    (root, branches)
}

/// Builds the tree of eligible voters: puts the hash of each key at its
/// position among `leaves`, and computes the root and the path of each key.
/// Where two keys share a position, the later one takes it.
pub fn build_merkle_tree_from(
    voting_keys: &Vec<[Felt; AFFINE_POINT_WIDTH]>,
    leaves: Vec<Vec<Felt>>,
    hash_indices: &Vec<usize>,
    tree_depth: usize,
    rescue: &Rescue,
) -> (r: (Vec<Felt>, Vec<Vec<Felt>>))
    requires
        tree_depth <= MAX_TREE_DEPTH,
        leaves.len() == spec_pow2(tree_depth as nat),
        spec_all_digests(leaves@),
        hash_indices.len() == voting_keys.len(),
        forall|i: int| 0 <= i < hash_indices.len() ==> (#[trigger] hash_indices@[i]) < leaves.len(),
    ensures
        r.0@ == spec_node(
            spec_placed_leaves(
                nodes_view(leaves@),
                voting_keys@,
                hash_indices@,
                voting_keys@.len(),
                *rescue,
            ),
            tree_depth as nat,
            0,
            *rescue,
        ),
        r.0.len() == DIGEST_SIZE,
        r.1.len() == voting_keys.len(),
        forall|i: int|
            0 <= i < hash_indices.len() ==> (#[trigger] r.1@[i])@ == spec_branch(
                spec_placed_leaves(
                    nodes_view(leaves@),
                    voting_keys@,
                    hash_indices@,
                    voting_keys@.len(),
                    *rescue,
                ),
                hash_indices@[i] as nat,
                tree_depth as nat,
                *rescue,
            ),
        spec_branches_fit(r.1@, tree_depth as nat),
{
    let n = voting_keys.len();
    let ghost before = nodes_view(leaves@);
    let mut placed = leaves;
    let mut i: usize = 0;
    while i < n
        invariant
            n == voting_keys.len(),
            n == hash_indices.len(),
            placed.len() == before.len(),
            forall|k: int| 0 <= k < n ==> (#[trigger] hash_indices@[k]) < placed.len(),
            spec_all_digests(placed@),
            i <= n,
            nodes_view(placed@) == spec_placed_leaves(
                before,
                voting_keys@,
                hash_indices@,
                i as nat,
                *rescue,
            ),
        decreases n - i,
    {
        let ghost old_view = nodes_view(placed@);
        let leaf = hash_voting_key(&voting_keys[i], rescue);
        placed[hash_indices[i]] = leaf;
        assert(nodes_view(placed@) =~= old_view.update(
            hash_indices@[i as int] as int,
            spec_hash_voting_key(voting_keys@[i as int]@, *rescue),
        ));
        i += 1;
    }
    calculate_merkle_proof(placed, hash_indices, tree_depth, rescue)
}

// LAWS
// ================================================================================================

/// The leaves of a tree of `depth` levels: as many as the tree has places,
/// each a digest.
pub open spec fn spec_leaves_fit(leaves: Seq<Seq<Felt>>, depth: nat) -> bool {
    &&& leaves.len() == spec_pow2(depth)
    &&& forall|i: int| 0 <= i < leaves.len() ==> (#[trigger] leaves[i]).len() == DIGEST_SIZE
}

/// The ancestor of a leaf, `levels` levels up, is a place of its level.
proof fn lemma_ancestor_in_level(position: nat, levels: nat, depth: nat)
    requires
        levels <= depth,
        position < spec_pow2(depth),
    ensures
        spec_ancestor(position, levels) < spec_pow2((depth - levels) as nat),
    decreases levels,
{
    if levels > 0 {
        lemma_ancestor_in_level(position, (levels - 1) as nat, depth);
        assert(spec_pow2((depth - levels + 1) as nat) == 2 * spec_pow2((depth - levels) as nat));
    }
}

/// A node of the tree is a digest.
proof fn lemma_node_is_a_digest(
    leaves: Seq<Seq<Felt>>,
    level: nat,
    position: int,
    depth: nat,
    rescue: Rescue,
)
    requires
        spec_leaves_fit(leaves, depth),
        level <= depth,
        0 <= position < spec_pow2((depth - level) as nat),
    ensures
        spec_node(leaves, level, position, rescue).len() == DIGEST_SIZE,
{
    if level > 0 {
        lemma_merge_is_a_digest(
            spec_node(leaves, (level - 1) as nat, 2 * position, rescue),
            spec_node(leaves, (level - 1) as nat, 2 * position + 1, rescue),
            rescue,
        );
    }
}

/// The siblings of the first `levels` levels, and where the sibling of each
/// level stands among them.
proof fn lemma_branch_layout(
    leaves: Seq<Seq<Felt>>,
    position: nat,
    levels: nat,
    depth: nat,
    rescue: Rescue,
)
    requires
        spec_leaves_fit(leaves, depth),
        position < leaves.len(),
        levels <= depth,
    ensures
        spec_branch(leaves, position, levels, rescue).len() == levels * DIGEST_SIZE,
        forall|k: int|
            0 <= k < levels ==> #[trigger] spec_branch(leaves, position, levels, rescue).subrange(
                DIGEST_SIZE * k,
                DIGEST_SIZE * (k + 1),
            ) == spec_node(
                leaves,
                k as nat,
                spec_sibling(spec_ancestor(position, k as nat)) as int,
                rescue,
            ),
    decreases levels,
{
    if levels > 0 {
        let below = (levels - 1) as nat;
        let shorter = spec_branch(leaves, position, below, rescue);
        let longer = spec_branch(leaves, position, levels, rescue);
        let place = spec_sibling(spec_ancestor(position, below));
        let last = spec_node(leaves, below, place as int, rescue);
        lemma_branch_layout(leaves, position, below, depth, rescue);
        lemma_ancestor_in_level(position, below, depth);
        assert(spec_pow2((depth - below) as nat) == 2 * spec_pow2((depth - levels) as nat));
        lemma_node_is_a_digest(leaves, below, place as int, depth, rescue);
        assert forall|k: int| 0 <= k < levels implies #[trigger] longer.subrange(
            DIGEST_SIZE * k,
            DIGEST_SIZE * (k + 1),
        ) == spec_node(
            leaves,
            k as nat,
            spec_sibling(spec_ancestor(position, k as nat)) as int,
            rescue,
        ) by {
            if k < below {
                assert(longer.subrange(DIGEST_SIZE * k, DIGEST_SIZE * (k + 1)) =~= shorter.subrange(
                    DIGEST_SIZE * k,
                    DIGEST_SIZE * (k + 1),
                ));
            } else {
                assert(longer.subrange(DIGEST_SIZE * k, DIGEST_SIZE * (k + 1)) =~= last);
            }
        }
    }
}

/// The path of a leaf, merged with the siblings of its branch, reaches at
/// every level the node that the tree has above the leaf.
proof fn lemma_path_reaches_ancestor(
    leaves: Seq<Seq<Felt>>,
    position: nat,
    levels: nat,
    depth: nat,
    rescue: Rescue,
)
    requires
        spec_leaves_fit(leaves, depth),
        position < leaves.len(),
        levels <= depth,
    ensures
        spec_path_digest(
            leaves[position as int],
            spec_branch(leaves, position, depth, rescue),
            position,
            levels,
            rescue,
        ) == spec_node(leaves, levels, spec_ancestor(position, levels) as int, rescue),
    decreases levels,
{
    if levels > 0 {
        let below = (levels - 1) as nat;
        let branch = spec_branch(leaves, position, depth, rescue);
        lemma_path_reaches_ancestor(leaves, position, below, depth, rescue);
        lemma_branch_layout(leaves, position, depth, depth, rescue);
        assert(branch.subrange(DIGEST_SIZE * (levels - 1), DIGEST_SIZE * levels)
            == branch.subrange(DIGEST_SIZE * (below as int), DIGEST_SIZE * (below + 1)));
    }
}

/// Every path of a tree leads to its root: the leaf at `position`, merged
/// level by level with the siblings that [`calculate_merkle_proof`] gives
/// for it, is the root that it gives.
pub proof fn lemma_branch_leads_to_root(
    leaves: Seq<Seq<Felt>>,
    position: nat,
    depth: nat,
    rescue: Rescue,
)
    requires
        spec_leaves_fit(leaves, depth),
        position < leaves.len(),
    ensures
        spec_path_digest(
            leaves[position as int],
            spec_branch(leaves, position, depth, rescue),
            position,
            depth,
            rescue,
        ) == spec_node(leaves, depth, 0, rescue),
{
    lemma_path_reaches_ancestor(leaves, position, depth, depth, rescue);
    lemma_ancestor_in_level(position, depth, depth);
}

/// Placing keys changes neither the number of the leaves nor that they are
/// digests, and the last key put at a position is the one found there.
proof fn lemma_placed_leaves(
    leaves: Seq<Seq<Felt>>,
    voting_keys: Seq<[Felt; AFFINE_POINT_WIDTH]>,
    hash_indices: Seq<usize>,
    m: nat,
    depth: nat,
    rescue: Rescue,
)
    requires
        spec_leaves_fit(leaves, depth),
        m <= voting_keys.len(),
        hash_indices.len() == voting_keys.len(),
        forall|i: int| 0 <= i < hash_indices.len() ==> (#[trigger] hash_indices[i]) < leaves.len(),
    ensures
        spec_leaves_fit(spec_placed_leaves(leaves, voting_keys, hash_indices, m, rescue), depth),
        forall|i: int|
            0 <= i < m && (forall|j: int| i < j < m ==> hash_indices[j] != hash_indices[i])
                ==> spec_placed_leaves(leaves, voting_keys, hash_indices, m, rescue)[(
            #[trigger] hash_indices[i]) as int] == spec_hash_voting_key(voting_keys[i]@, rescue),
    decreases m,
{
    if m > 0 {
        lemma_placed_leaves(leaves, voting_keys, hash_indices, (m - 1) as nat, depth, rescue);
        let key = voting_keys[m - 1]@;
        lemma_merge_is_a_digest(
            spec_digest(key.subrange(0, POINT_COORDINATE_WIDTH as int).push(Felt::spec_zero()), rescue),
            key.subrange(POINT_COORDINATE_WIDTH as int, AFFINE_POINT_WIDTH as int).push(
                Felt::spec_zero(),
            ),
            rescue,
        );
    }
}

/// A tree that was built verifies: where no two keys share a position, the
/// path that [`build_merkle_tree_from`] gives for a key passes
/// [`verify_merkle_proof`] against the root that it gives.
pub proof fn lemma_built_tree_verifies(
    leaves: Seq<Seq<Felt>>,
    voting_keys: Seq<[Felt; AFFINE_POINT_WIDTH]>,
    hash_indices: Seq<usize>,
    depth: nat,
    rescue: Rescue,
    i: int,
)
    requires
        spec_leaves_fit(leaves, depth),
        hash_indices.len() == voting_keys.len(),
        forall|k: int| 0 <= k < hash_indices.len() ==> (#[trigger] hash_indices[k]) < leaves.len(),
        forall|j: int, k: int|
            0 <= j < k < hash_indices.len() ==> hash_indices[j] != hash_indices[k],
        0 <= i < voting_keys.len(),
    ensures
        ({
            let placed = spec_placed_leaves(
                leaves,
                voting_keys,
                hash_indices,
                voting_keys.len(),
                rescue,
            );
            spec_verify_merkle_proof(
                spec_node(placed, depth, 0, rescue),
                voting_keys[i]@,
                spec_branch(placed, hash_indices[i] as nat, depth, rescue),
                hash_indices[i] as nat,
                depth,
                rescue,
            )
        }),
{
    let placed = spec_placed_leaves(leaves, voting_keys, hash_indices, voting_keys.len(), rescue);
    lemma_placed_leaves(leaves, voting_keys, hash_indices, voting_keys.len(), depth, rescue);
    lemma_branch_leads_to_root(placed, hash_indices[i] as nat, depth, rescue);
}

} // verus!

//! A Merkle tree of field elements over the two-input Poseidon hash, and the
//! membership proofs it hands out.
use vstd::prelude::*;

use crate::field::{poseidon, poseidon_hash, Fr};

verus! {

/// `2^h`.
pub open spec fn two_pow(h: nat) -> nat
    decreases h,
{
    if h == 0 {
        1
    } else {
        2 * two_pow((h - 1) as nat)
    }
}

/// Whether `n` is a power of two.
pub open spec fn is_pow2(n: nat) -> bool {
    exists|h: nat| two_pow(h) == n
}

/// The hash of an ordered pair of nodes.
pub open spec fn hash_pair(left: Fr, right: Fr) -> Fr {
    poseidon_hash(seq![left, right])
}

/// The level above `s`: the hash of each consecutive pair.
pub open spec fn parent_level(s: Seq<Fr>) -> Seq<Fr> {
    Seq::new(s.len() / 2, |j: int| hash_pair(s[2 * j], s[2 * j + 1]))
}

/// Level `i` of the tree over `leaves` (level 0 holds the leaves).
pub open spec fn tree_level(leaves: Seq<Fr>, i: nat) -> Seq<Fr>
    decreases i,
{
    if i == 0 {
        leaves
    } else {
        parent_level(tree_level(leaves, (i - 1) as nat))
    }
}

/// The root of the tree of height `h` over `leaves`.
pub open spec fn merkle_root(leaves: Seq<Fr>, h: nat) -> Fr {
    tree_level(leaves, h)[0]
}

/// The position on level `k` of the ancestor of the leaf at `index`.
pub open spec fn ancestor_index(index: nat, k: nat) -> nat
    decreases k,
{
    if k == 0 {
        index
    } else {
        ancestor_index(index, (k - 1) as nat) / 2
    }
}

/// The other member of the pair that holds position `p`.
pub open spec fn sibling(p: nat) -> nat {
    if p % 2 == 0 {
        p + 1
    } else {
        (p - 1) as nat
    }
}

/// The siblings met on the way from the leaf at `index` to the root, bottom first.
pub open spec fn proof_path(leaves: Seq<Fr>, h: nat, index: nat) -> Seq<Fr> {
    Seq::new(h, |k: int| tree_level(leaves, k as nat)[sibling(ancestor_index(index, k as nat)) as int])
}

/// For each level, bottom first, whether the ancestor of the leaf at `index` is the
/// right member of its pair (1) or the left one (0).
pub open spec fn proof_indices(h: nat, index: nat) -> Seq<usize> {
    Seq::new(h, |k: int| (ancestor_index(index, k as nat) % 2) as usize)
}

/// The root that a path recomputes from `node`: at each step the node is hashed
/// with the next path element, on the left when its index is 0 and on the right
/// otherwise.
pub open spec fn fold_path(node: Fr, elements: Seq<Fr>, indices: Seq<usize>) -> Fr
    decreases elements.len(),
{
    if elements.len() == 0 {
        node
    } else {
        let next = if indices[0] == 0 {
            hash_pair(node, elements[0])
        } else {
            hash_pair(elements[0], node)
        };
        fold_path(next, elements.drop_first(), indices.drop_first())
    }
}

/// Powers of two are positive.
pub proof fn lemma_two_pow_pos(h: nat)
    ensures
        two_pow(h) >= 1,
    decreases h,
{
    if h > 0 {
        lemma_two_pow_pos((h - 1) as nat);
    }
}

/// Level `i` of a tree of height `h` holds `2^(h - i)` nodes.
pub proof fn lemma_level_len(leaves: Seq<Fr>, h: nat, i: nat)
    requires
        leaves.len() == two_pow(h),
        i <= h,
    ensures
        tree_level(leaves, i).len() == two_pow((h - i) as nat),
    decreases i,
{
    if i > 0 {
        lemma_level_len(leaves, h, (i - 1) as nat);
    }
}

/// The ancestor of a leaf on level `k` lies within that level.
pub proof fn lemma_ancestor_bound(index: nat, h: nat, k: nat)
    requires
        index < two_pow(h),
        k <= h,
    ensures
        ancestor_index(index, k) < two_pow((h - k) as nat),
    decreases k,
{
    if k > 0 {
        lemma_ancestor_bound(index, h, (k - 1) as nat);
    }
}

/// The pair that holds position `p` hashes to the parent's position `p / 2`.
proof fn lemma_parent_of(s: Seq<Fr>, p: nat)
    requires
        s.len() % 2 == 0,
        p < s.len(),
    ensures
        sibling(p) < s.len(),
        p / 2 < parent_level(s).len(),
        p % 2 == 0 ==> parent_level(s)[(p / 2) as int] == hash_pair(s[p as int], s[sibling(p) as int]),
        p % 2 != 0 ==> parent_level(s)[(p / 2) as int] == hash_pair(s[sibling(p) as int], s[p as int]),
{
}

/// Folding the rest of the path from the ancestor on level `i` yields the root.
proof fn lemma_fold_from(leaves: Seq<Fr>, h: nat, index: nat, i: nat)
    requires
        leaves.len() == two_pow(h),
        index < leaves.len(),
        i <= h,
    ensures
        fold_path(
            tree_level(leaves, i)[ancestor_index(index, i) as int],
            proof_path(leaves, h, index).skip(i as int),
            proof_indices(h, index).skip(i as int),
        ) == merkle_root(leaves, h),
    decreases h - i,
{
    let path = proof_path(leaves, h, index);
    let idx = proof_indices(h, index);
    if i == h {
        lemma_ancestor_bound(index, h, h);
        assert(path.skip(i as int).len() == 0);
    } else {
        lemma_fold_from(leaves, h, index, i + 1);
        let level = tree_level(leaves, i);
        let p = ancestor_index(index, i);
        lemma_level_len(leaves, h, i);
        lemma_ancestor_bound(index, h, i);
        lemma_two_pow_pos((h - i - 1) as nat);
        assert(two_pow((h - i) as nat) == 2 * two_pow((h - i - 1) as nat));
        lemma_parent_of(level, p);
        assert(path.skip(i as int)[0] == level[sibling(p) as int]);
        assert(idx.skip(i as int)[0] == (p % 2) as usize);
        assert(path.skip(i as int).drop_first() =~= path.skip((i + 1) as int));
        assert(idx.skip(i as int).drop_first() =~= idx.skip((i + 1) as int));
        assert(tree_level(leaves, i + 1) == parent_level(level));
    }
}

/// A membership proof recomputes the root: folding the path handed out for the leaf
/// at `index` from that leaf gives the root of the tree.
pub proof fn lemma_proof_recomputes_root(leaves: Seq<Fr>, h: nat, index: nat)
    requires
        leaves.len() == two_pow(h),
        index < leaves.len(),
    ensures
        fold_path(leaves[index as int], proof_path(leaves, h, index), proof_indices(h, index))
            == merkle_root(leaves, h),
{
    lemma_fold_from(leaves, h, index, 0);
    assert(proof_path(leaves, h, index).skip(0) =~= proof_path(leaves, h, index));
    assert(proof_indices(h, index).skip(0) =~= proof_indices(h, index));
}

/// Whether `n` is a power of two, tested on its bits.
pub fn is_power_of_two(n: usize) -> (r: bool)
    ensures
        r == is_pow2(n as nat),
{
    let r = n != 0 && n & (n - 1) == 0;
    proof {
        if r {
            lemma_bits_pow2(n);
        } else if is_pow2(n as nat) {
            let h = choose|h: nat| two_pow(h) == n as nat;
            lemma_pow2_bits(n, h);
        }
    }
    r
}

proof fn lemma_bits_pow2(n: usize)
    requires
        n != 0,
        n & ((n - 1) as usize) == 0,
    ensures
        is_pow2(n as nat),
    decreases n,
{
    if n == 1 {
        assert(two_pow(0) == 1);
    } else {
        let m = n / 2;
        assert(n != 0 && n & ((n - 1) as usize) == 0 && n != 1 ==> n % 2 == 0 && m != 0 && m & ((m - 1) as usize) == 0)
            by (bit_vector)
            requires
                m == n / 2,
        ;
        lemma_bits_pow2(m);
        let h = choose|h: nat| two_pow(h) == m as nat;
        assert(two_pow(h + 1) == n as nat);
    }
}

proof fn lemma_pow2_bits(n: usize, h: nat)
    requires
        two_pow(h) == n as nat,
    ensures
        n != 0,
        n & ((n - 1) as usize) == 0,
    decreases h,
{
    if h == 0 {
        assert(n == 1);
        assert(1usize & ((1usize - 1) as usize) == 0) by (bit_vector);
    } else {
        lemma_two_pow_pos((h - 1) as nat);
        let m = (n / 2) as usize;
        assert(two_pow((h - 1) as nat) == m as nat);
        lemma_pow2_bits(m, (h - 1) as nat);
        assert(m != 0 && m & ((m - 1) as usize) == 0 && n == 2 * m ==> n & ((n - 1) as usize) == 0) by (bit_vector);
    }
}


/// An inner node of the tree: two children and their hash.
#[derive(Clone, Copy, Debug)]
struct MerkleTreeNode {
    left: Fr,
    right: Fr,
    value: Fr,
}

spec fn node_of(left: Fr, right: Fr) -> MerkleTreeNode {
    MerkleTreeNode { left, right, value: hash_pair(left, right) }
}

impl MerkleTreeNode {
    fn new(left: Fr, right: Fr) -> (r: MerkleTreeNode)
        requires
            left.wf(),
            right.wf(),
        ensures
            r == node_of(left, right),
            r.value.wf(),
    {
        let inputs = vec![left, right];
        assert(inputs@ =~= seq![left, right]);
        let value = poseidon(inputs);
        MerkleTreeNode { left, right, value }
    }
}

/// A membership proof: the root, the leaf, the siblings on the way up (bottom
/// first) and, for each of them, whether the path's node is the right member of
/// its pair (1) or the left one (0).
#[allow(non_snake_case)]
#[derive(Clone, Debug)]
pub struct Proof {
    pub root: Fr,
    pub leaf: Fr,
    pub pathElements: Vec<Fr>,
    pub pathIndices: Vec<usize>,
}

/// A Merkle tree over a power-of-two number of leaves.
#[derive(Debug)]
pub struct MerkleTree {
    height: usize,
    leaves: Vec<Fr>,
    root: Option<MerkleTreeNode>,
    inner_nodes: Vec<Vec<MerkleTreeNode>>,
}

/// Whether `nodes` is the level of inner nodes built over `below`.
spec fn is_node_level(nodes: Seq<MerkleTreeNode>, below: Seq<Fr>) -> bool {
    &&& nodes.len() == below.len() / 2
    &&& forall|j: int|
        0 <= j < nodes.len() ==> #[trigger] nodes[j] == node_of(below[2 * j], below[2 * j + 1])
            && nodes[j].value.wf()
}

impl MerkleTree {
    /// The leaves, in order.
    pub closed spec fn leaf_values(&self) -> Seq<Fr> {
        self.leaves@
    }

    /// The height: the leaves number `2^height`.
    pub closed spec fn tree_height(&self) -> nat {
        self.height as nat
    }

    /// Whether the inner nodes and the root have been built.
    pub closed spec fn is_built(&self) -> bool {
        self.root is Some
    }

    /// The tree's invariant: `2^height` canonical leaves and, once built, the inner
    /// levels and the root that hash them.
    pub closed spec fn wf(&self) -> bool {
        let h = self.height as nat;
        let leaves = self.leaves@;
        &&& leaves.len() == two_pow(h)
        &&& forall|i: int| 0 <= i < leaves.len() ==> (#[trigger] leaves[i]).wf()
        &&& self.root is Some ==> {
            &&& h >= 2
            &&& self.inner_nodes@.len() == h - 1
            &&& forall|i: int|
                0 <= i < h - 1 ==> is_node_level(
                    #[trigger] self.inner_nodes@[i]@,
                    tree_level(leaves, i as nat),
                )
            &&& self.root == Some(
                node_of(tree_level(leaves, (h - 1) as nat)[0], tree_level(leaves, (h - 1) as nat)[1]),
            )
        }
    }

    /// A tree over `leaves`, not yet built; their number must be a power of two.
    pub fn new(leaves: Vec<Fr>) -> (r: MerkleTree)
        requires
            is_pow2(leaves@.len()),
            forall|i: int| 0 <= i < leaves@.len() ==> (#[trigger] leaves@[i]).wf(),
        ensures
            r.wf(),
            !r.is_built(),
            r.leaf_values() == leaves@,
            two_pow(r.tree_height()) == leaves@.len(),
    {
        let n = leaves.len();
        let mut m = n;
        let mut height: usize = 0;
        assert(two_pow(0) == 1);
        while m > 1
            invariant
                two_pow(height as nat) * m == n,
                is_pow2(m as nat),
                n == leaves@.len(),
                height <= n,
            decreases m,
        {
            let ghost k = choose|k: nat| two_pow(k) == m as nat;
            proof {
                if k == 0 {
                    assert(false);
                }
                lemma_two_pow_pos((k - 1) as nat);
                assert(two_pow(((k - 1) as nat)) == m / 2);
                assert(two_pow((height + 1) as nat) * (m / 2) == two_pow(height as nat) * m)
                    by (nonlinear_arith)
                    requires
                        two_pow((height + 1) as nat) == 2 * two_pow(height as nat),
                        m == 2 * (m / 2),
                ;
                lemma_two_pow_ge((height + 1) as nat);
                assert(two_pow((height + 1) as nat) <= n) by (nonlinear_arith)
                    requires
                        two_pow((height + 1) as nat) * (m / 2) == n,
                        m / 2 >= 1,
                ;
            }
            m = m / 2;
            height = height + 1;
        }
        proof {
            let k = choose|k: nat| two_pow(k) == m as nat;
            lemma_two_pow_pos(k);
            assert(m == 1);
            assert(two_pow(height as nat) == n);
        }
        MerkleTree { height, leaves, root: None, inner_nodes: Vec::new() }
    }

    /// Builds the inner levels and the root; the leaves must number at least four.
    pub fn build_tree(&mut self)
        requires
            old(self).wf(),
            old(self).tree_height() >= 2,
        ensures
            final(self).wf(),
            final(self).is_built(),
            final(self).leaf_values() == old(self).leaf_values(),
            final(self).tree_height() == old(self).tree_height(),
    {
        let h = self.height;
        let ghost leaves = self.leaves@;
        proof {
            lemma_level_len(leaves, h as nat, 0);
            lemma_two_pow_pos((h - 1) as nat);
        }
        let mut inner: Vec<Vec<MerkleTreeNode>> = Vec::with_capacity(h - 1);
        let first = hash_leaf_level(&self.leaves);
        inner.push(first);
        let mut i: usize = 1;
        while i < h - 1
            invariant
                2 <= h,
                leaves == self.leaves@,
                h == self.height,
                leaves.len() == two_pow(h as nat),
                1 <= i <= h - 1,
                inner@.len() == i,
                forall|k: int|
                    0 <= k < i ==> is_node_level(#[trigger] inner@[k]@, tree_level(leaves, k as nat)),
            decreases h - i,
        {
            proof {
                lemma_level_len(leaves, h as nat, i as nat);
                lemma_level_len(leaves, h as nat, (i - 1) as nat);
                lemma_two_pow_pos((h - i - 1) as nat);
                assert(is_node_level(inner@[i - 1]@, tree_level(leaves, (i - 1) as nat)));
            }
            let next = hash_node_level(&inner[i - 1]);
            proof {
                let below = tree_level(leaves, i as nat);
                let prev = inner@[i - 1]@;
                assert forall|j: int| 0 <= j < prev.len() implies #[trigger] prev[j].value == below[j] by {
                    assert(tree_level(leaves, i as nat) == parent_level(tree_level(leaves, (i - 1) as nat)));
                }
                assert(is_node_level(next@, below));
            }
            inner.push(next);
            i = i + 1;
        }
        proof {
            lemma_level_len(leaves, h as nat, (h - 2) as nat);
            lemma_level_len(leaves, h as nat, (h - 1) as nat);
            reveal_with_fuel(two_pow, 3);
            assert(two_pow(2) == 4);
            assert(is_node_level(inner@[h - 2]@, tree_level(leaves, (h - 2) as nat)));
        }
        let last = &inner[h - 2];
        let left = last[0].value;
        let right = last[1].value;
        proof {
            let lv = inner@[h - 2]@;
            assert(tree_level(leaves, (h - 1) as nat) == parent_level(tree_level(leaves, (h - 2) as nat)));
            assert(lv[0].value == tree_level(leaves, (h - 1) as nat)[0]);
            assert(lv[1].value == tree_level(leaves, (h - 1) as nat)[1]);
        }
        let root = MerkleTreeNode::new(left, right);
        self.inner_nodes = inner;
        self.root = Some(root);
    }

    /// The membership proof of the leaf at `leaf_index`; the tree must be built.
    pub fn generate_proof(&self, leaf_index: usize) -> (r: Proof)
        requires
            self.wf(),
            self.is_built(),
            leaf_index < self.leaf_values().len(),
        ensures
            r.root == merkle_root(self.leaf_values(), self.tree_height()),
            r.leaf == self.leaf_values()[leaf_index as int],
            r.pathElements@ == proof_path(self.leaf_values(), self.tree_height(), leaf_index as nat),
            r.pathIndices@ == proof_indices(self.tree_height(), leaf_index as nat),
    {
        let ghost leaves = self.leaves@;
        let ghost hh = self.height as nat;
        let ghost path_spec = proof_path(leaves, hh, leaf_index as nat);
        let ghost idx_spec = proof_indices(hh, leaf_index as nat);
        proof {
            lemma_level_len(leaves, hh, 0);
            lemma_two_pow_pos((hh - 1) as nat);
        }
        let leaf_fr = self.leaves[leaf_index];
        let mut path_elements: Vec<Fr> = Vec::new();
        let mut path_indices: Vec<usize> = Vec::new();
        let sibling_index = if leaf_index % 2 == 0 {
            leaf_index + 1
        } else {
            leaf_index - 1
        };
        path_elements.push(self.leaves[sibling_index]);
        path_indices.push(leaf_index % 2);
        let mut parent_index = leaf_index / 2;
        let mut level: usize = 0;
        let n_levels = self.inner_nodes.len();
        proof {
            assert(ancestor_index(leaf_index as nat, 0) == leaf_index);
            assert(ancestor_index(leaf_index as nat, 1) == leaf_index / 2);
            assert(path_elements@ =~= path_spec.take(1));
            assert(path_indices@ =~= idx_spec.take(1));
        }
        while level < n_levels
            invariant
                self.wf(),
                self.is_built(),
                leaves == self.leaves@,
                hh == self.height,
                n_levels == self.inner_nodes@.len(),
                n_levels == hh - 1,
                leaf_index < leaves.len(),
                path_spec == proof_path(leaves, hh, leaf_index as nat),
                idx_spec == proof_indices(hh, leaf_index as nat),
                level <= n_levels,
                parent_index == ancestor_index(leaf_index as nat, (level + 1) as nat),
                path_elements@ == path_spec.take(level + 1),
                path_indices@ == idx_spec.take(level + 1),
            decreases n_levels - level,
        {
            let level_nodes = &self.inner_nodes[level];
            proof {
                assert(is_node_level(self.inner_nodes@[level as int]@, tree_level(leaves, level as nat)));
                lemma_level_len(leaves, hh, level as nat);
                lemma_level_len(leaves, hh, (level + 1) as nat);
                lemma_ancestor_bound(leaf_index as nat, hh, (level + 1) as nat);
                lemma_two_pow_pos((hh - level - 2) as nat);
                assert(two_pow((hh - level - 1) as nat) == 2 * two_pow((hh - level - 2) as nat));
            }
            let sibling_parent_index = if parent_index % 2 == 0 {
                parent_index + 1
            } else {
                parent_index - 1
            };
            let sibling_hash = level_nodes[sibling_parent_index].value;
            proof {
                assert(tree_level(leaves, (level + 1) as nat) == parent_level(tree_level(leaves, level as nat)));
                assert(sibling_hash == path_spec[level + 1]);
            }
            path_elements.push(sibling_hash);
            path_indices.push(parent_index % 2);
            parent_index = parent_index / 2;
            level = level + 1;
            proof {
                assert(path_elements@ =~= path_spec.take(level + 1));
                assert(path_indices@ =~= idx_spec.take(level + 1));
            }
        }
        let root_fr = match &self.root {
            Some(node) => node.value,
            None => leaf_fr,
        };
        proof {
            assert(path_elements@ =~= path_spec);
            assert(path_indices@ =~= idx_spec);
            lemma_level_len(leaves, hh, (hh - 1) as nat);
            let top = tree_level(leaves, (hh - 1) as nat);
            reveal_with_fuel(two_pow, 2);
            assert(two_pow(1) == 2);
            assert(tree_level(leaves, hh) == parent_level(top));
            assert(parent_level(top)[0] == hash_pair(top[0], top[1]));
            assert(root_fr == hash_pair(top[0], top[1]));
        }
        Proof { root: root_fr, leaf: leaf_fr, pathElements: path_elements, pathIndices: path_indices }
    }
}

proof fn lemma_two_pow_ge(h: nat)
    ensures
        two_pow(h) >= h + 1,
    decreases h,
{
    if h > 0 {
        lemma_two_pow_ge((h - 1) as nat);
    }
}

/// The inner nodes over a level of values.
fn hash_leaf_level(values: &Vec<Fr>) -> (r: Vec<MerkleTreeNode>)
    requires
        values@.len() % 2 == 0,
        forall|i: int| 0 <= i < values@.len() ==> (#[trigger] values@[i]).wf(),
    ensures
        is_node_level(r@, values@),
{
    let n = values.len();
    let mut r: Vec<MerkleTreeNode> = Vec::new();
    let mut j: usize = 0;
    while j < n
        invariant
            n == values@.len(),
            n % 2 == 0,
            j % 2 == 0,
            j <= n,
            r@.len() == j / 2,
            forall|i: int| 0 <= i < values@.len() ==> (#[trigger] values@[i]).wf(),
            forall|k: int|
                0 <= k < r@.len() ==> #[trigger] r@[k] == node_of(values@[2 * k], values@[2 * k + 1])
                    && r@[k].value.wf(),
        decreases n - j,
    {
        let node = MerkleTreeNode::new(values[j], values[j + 1]);
        r.push(node);
        j = j + 2;
    }
    r
}

/// The inner nodes over a level of inner nodes, hashing their values.
fn hash_node_level(nodes: &Vec<MerkleTreeNode>) -> (r: Vec<MerkleTreeNode>)
    requires
        nodes@.len() % 2 == 0,
        forall|i: int| 0 <= i < nodes@.len() ==> (#[trigger] nodes@[i]).value.wf(),
    ensures
        r@.len() == nodes@.len() / 2,
        forall|k: int|
            0 <= k < r@.len() ==> #[trigger] r@[k] == node_of(nodes@[2 * k].value, nodes@[2 * k + 1].value)
                && r@[k].value.wf(),
{
    let n = nodes.len();
    let mut r: Vec<MerkleTreeNode> = Vec::new();
    let mut j: usize = 0;
    while j < n
        invariant
            n == nodes@.len(),
            n % 2 == 0,
            j % 2 == 0,
            j <= n,
            r@.len() == j / 2,
            forall|i: int| 0 <= i < nodes@.len() ==> (#[trigger] nodes@[i]).value.wf(),
            forall|k: int|
                0 <= k < r@.len() ==> #[trigger] r@[k] == node_of(nodes@[2 * k].value, nodes@[2 * k + 1].value)
                    && r@[k].value.wf(),
        decreases n - j,
    {
        let node = MerkleTreeNode::new(nodes[j].value, nodes[j + 1].value);
        r.push(node);
        j = j + 2;
    }
    r
}

} // verus!

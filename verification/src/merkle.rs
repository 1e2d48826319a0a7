//! Merkle proof verification.
//!
//! A proof is an ordered list of sibling hashes, bottom of the tree to the
//! top, together with the leaf's index. Verification recomputes the root:
//! at each level the running hash is the left child when the running index
//! is even and the right child when it is odd, and the index is halved.
//! The recomputed hash must equal the committed root exactly; no bound is
//! checked between the proof's length and the tree's depth, a wrong length
//! simply yields a wrong hash.

use vstd::prelude::*;
use vstd::arithmetic::power2::{pow2, lemma_pow2_pos, lemma_pow2_unfold, lemma2_to64};
use vstd::arithmetic::div_mod::{
    lemma_div_basics, lemma_div_denominator, lemma_fundamental_div_mod,
    lemma_fundamental_div_mod_converse_div, lemma_mod_add_multiples_vanish, lemma_mod_mod,
    lemma_mod_multiples_basic, lemma_small_mod,
};
use crate::hashing::{bytes_eq, copy_bytes, hash_pair, keccak_of};

verus! {

/// The views of a sequence of byte vectors.
pub open spec fn views_of(items: Seq<Vec<u8>>) -> Seq<Seq<u8>> {
    Seq::new(items.len(), |i: int| items[i]@)
}

/// One verification step: the running hash is the left child when the
/// running index is even, the right child when it is odd.
pub open spec fn combine(node: Seq<u8>, sibling: Seq<u8>, index: nat) -> Seq<u8> {
    if index % 2 == 0 {
        keccak_of(node + sibling)
    } else {
        keccak_of(sibling + node)
    }
}

/// The root recomputed from a leaf by consuming the sibling hashes in
/// order, halving the index at each level.
pub open spec fn merkle_root_from(leaf: Seq<u8>, siblings: Seq<Seq<u8>>, index: nat) -> Seq<u8>
    decreases siblings.len(),
{
    if siblings.len() == 0 {
        leaf
    } else {
        merkle_root_from(combine(leaf, siblings[0], index), siblings.drop_first(), index / 2)
    }
}

/// Whether a leaf, sibling path and index recompute exactly the given root.
pub open spec fn proof_checks(leaf: Seq<u8>, siblings: Seq<Seq<u8>>, index: nat, root: Seq<u8>) -> bool {
    merkle_root_from(leaf, siblings, index) == root
}

/// Verify that a leaf is part of a Merkle tree with the given root.
pub fn verify_proof(leaf: &Vec<u8>, siblings: &Vec<Vec<u8>>, index: u64, root: &Vec<u8>) -> (valid: bool)
    ensures
        valid == proof_checks(leaf@, views_of(siblings@), index as nat, root@),
{
    let mut computed = copy_bytes(leaf);
    let mut idx: u64 = index;
    let mut i: usize = 0;
    proof {
        assert(views_of(siblings@).skip(0) =~= views_of(siblings@));
    }
    while i < siblings.len()
        invariant
            i <= siblings.len(),
            merkle_root_from(computed@, views_of(siblings@).skip(i as int), idx as nat)
                == merkle_root_from(leaf@, views_of(siblings@), index as nat),
        decreases siblings.len() - i,
    {
        let sibling = &siblings[i];
        proof {
            let rest = views_of(siblings@).skip(i as int);
            assert(rest[0] == siblings@[i as int]@);
            assert(rest.drop_first() =~= views_of(siblings@).skip(i as int + 1));
        }
        if idx % 2 == 0 {
            computed = hash_pair(&computed, sibling);
        } else {
            computed = hash_pair(sibling, &computed);
        }
        idx = idx / 2;
        i += 1;
    }
    proof {
        assert(views_of(siblings@).skip(siblings@.len() as int) =~= Seq::<Seq<u8>>::empty());
    }
    bytes_eq(&computed, root)
}

/// For a fixed leaf, sibling path and index the recomputed root is unique,
/// so at most one root value passes verification: whenever one root is
/// accepted, every different root is rejected.
pub proof fn lemma_at_most_one_root(
    leaf: Seq<u8>,
    siblings: Seq<Seq<u8>>,
    index: nat,
    first: Seq<u8>,
    second: Seq<u8>,
)
    requires
        first != second,
    ensures
        !(proof_checks(leaf, siblings, index, first) && proof_checks(leaf, siblings, index, second)),
{
}

/// A hash tree as committed to by a campaign: a leaf hash, or a node whose
/// hash is the digest of its children's hashes concatenated.
pub enum MerkleTree {
    Leaf { hash: Seq<u8> },
    Node { left: Box<MerkleTree>, right: Box<MerkleTree> },
}

impl MerkleTree {
    /// Height of the left spine; for a perfect tree, the distance from the
    /// root to every leaf.
    pub open spec fn depth(self) -> nat
        decreases self,
    {
        match self {
            MerkleTree::Leaf { .. } => 0,
            MerkleTree::Node { left, .. } => 1 + left.depth(),
        }
    }

    /// Every leaf sits at the same depth.
    pub open spec fn is_perfect(self) -> bool
        decreases self,
    {
        match self {
            MerkleTree::Leaf { .. } => true,
            MerkleTree::Node { left, right } => {
                left.is_perfect() && right.is_perfect() && left.depth() == right.depth()
            },
        }
    }

    /// The hash at the root.
    pub open spec fn root_hash(self) -> Seq<u8>
        decreases self,
    {
        match self {
            MerkleTree::Leaf { hash } => hash,
            MerkleTree::Node { left, right } => keccak_of(left.root_hash() + right.root_hash()),
        }
    }

    /// The leaf hash at a position, counting leaves left to right.
    pub open spec fn leaf_at(self, position: nat) -> Seq<u8>
        decreases self,
    {
        match self {
            MerkleTree::Leaf { hash } => hash,
            MerkleTree::Node { left, right } => {
                if position < pow2(left.depth()) {
                    left.leaf_at(position)
                } else {
                    right.leaf_at((position - pow2(left.depth())) as nat)
                }
            },
        }
    }

    /// The sibling path for the leaf at a position, bottom to top.
    pub open spec fn proof_at(self, position: nat) -> Seq<Seq<u8>>
        decreases self,
    {
        match self {
            MerkleTree::Leaf { .. } => Seq::empty(),
            MerkleTree::Node { left, right } => {
                if position < pow2(left.depth()) {
                    left.proof_at(position).push(right.root_hash())
                } else {
                    right.proof_at((position - pow2(left.depth())) as nat).push(left.root_hash())
                }
            },
        }
    }
}

/// Recomputing a root over a split sibling path equals recomputing over the
/// front part first and feeding the result, with the index shifted down by
/// the front's length, into the back part.
proof fn lemma_merkle_root_append(leaf: Seq<u8>, front: Seq<Seq<u8>>, back: Seq<Seq<u8>>, index: nat)
    ensures
        merkle_root_from(leaf, front + back, index)
            == merkle_root_from(merkle_root_from(leaf, front, index), back, index / pow2(front.len())),
    decreases front.len(),
{
    if front.len() == 0 {
        assert(front + back =~= back);
        lemma2_to64();
        lemma_div_basics(index as int);
    } else {
        let combined = combine(leaf, front[0], index);
        assert((front + back)[0] == front[0]);
        assert((front + back).drop_first() =~= front.drop_first() + back);
        lemma_merkle_root_append(combined, front.drop_first(), back, index / 2);
        lemma_pow2_pos((front.len() - 1) as nat);
        lemma_div_denominator(index as int, 2, pow2((front.len() - 1) as nat) as int);
        lemma_pow2_unfold(front.len());
    }
}

/// Generalisation over all indices congruent to the leaf's position modulo
/// the number of leaves: only the low bits of the index steer verification.
proof fn lemma_tree_proof_congruent(t: MerkleTree, position: nat, index: nat)
    requires
        t.is_perfect(),
        position < pow2(t.depth()),
        index % pow2(t.depth()) == position,
    ensures
        t.proof_at(position).len() == t.depth(),
        merkle_root_from(t.leaf_at(position), t.proof_at(position), index) == t.root_hash(),
    decreases t,
{
    match t {
        MerkleTree::Leaf { .. } => {},
        MerkleTree::Node { left, right } => {
            let h = left.depth();
            lemma_pow2_pos(h);
            lemma_pow2_unfold(t.depth());
            // pow2(depth) == pow2(h) * 2, so reducing the index modulo the
            // subtree's leaf count factors through the tree's leaf count.
            lemma_mod_mod(index as int, pow2(h) as int, 2);
            lemma_fundamental_div_mod(index as int, pow2(t.depth()) as int);
            let q = index as int / pow2(t.depth()) as int;
            assert(index as int == pow2(t.depth()) as int * q + position as int);
            assert(pow2(t.depth()) as int * q == pow2(h) as int * (2 * q)) by (nonlinear_arith)
                requires pow2(t.depth()) == 2 * pow2(h),
            ;
            if position < pow2(h) {
                lemma_small_mod(position, pow2(h));
                lemma_tree_proof_congruent(*left, position, index);
                assert(t.proof_at(position) =~= left.proof_at(position) + seq![right.root_hash()]);
                lemma_merkle_root_append(
                    t.leaf_at(position),
                    left.proof_at(position),
                    seq![right.root_hash()],
                    index,
                );
                // index == pow2(h) * (2q) + position with position < pow2(h),
                // so the index left after the subtree's levels is even.
                lemma_fundamental_div_mod_converse_div(
                    index as int,
                    pow2(h) as int,
                    2 * q,
                    position as int,
                );
                lemma_mod_multiples_basic(q, 2);
                let shifted = (index / pow2(h)) as nat;
                assert(shifted % 2 == 0);
                let single = seq![right.root_hash()];
                assert(single[0] == right.root_hash());
                assert(single.drop_first() =~= Seq::<Seq<u8>>::empty());
                let stepped = combine(left.root_hash(), right.root_hash(), shifted);
                assert(merkle_root_from(left.root_hash(), single, shifted)
                    == merkle_root_from(stepped, single.drop_first(), shifted / 2));
                assert(merkle_root_from(stepped, single.drop_first(), shifted / 2) == stepped);
            } else {
                let sub = (position - pow2(h)) as nat;
                lemma_mod_add_multiples_vanish(sub as int, pow2(h) as int);
                lemma_small_mod(sub, pow2(h));
                assert(index % pow2(h) == sub);
                lemma_tree_proof_congruent(*right, sub, index);
                assert(t.proof_at(position) =~= right.proof_at(sub) + seq![left.root_hash()]);
                lemma_merkle_root_append(
                    t.leaf_at(position),
                    right.proof_at(sub),
                    seq![left.root_hash()],
                    index,
                );
                // index == pow2(h) * (2q + 1) + sub with sub < pow2(h), so
                // the index left after the subtree's levels is odd.
                assert(index as int == pow2(h) as int * (2 * q + 1) + sub as int) by (nonlinear_arith)
                    requires
                        index as int == pow2(h) as int * (2 * q) + position as int,
                        position as int == sub as int + pow2(h) as int,
                ;
                lemma_fundamental_div_mod_converse_div(
                    index as int,
                    pow2(h) as int,
                    2 * q + 1,
                    sub as int,
                );
                lemma_mod_multiples_basic(q, 2);
                let shifted = (index / pow2(h)) as nat;
                assert(shifted % 2 == 1) by (nonlinear_arith)
                    requires shifted == 2 * q + 1, q >= 0,
                ;
                let single = seq![left.root_hash()];
                assert(single[0] == left.root_hash());
                assert(single.drop_first() =~= Seq::<Seq<u8>>::empty());
                let stepped = combine(right.root_hash(), left.root_hash(), shifted);
                assert(merkle_root_from(right.root_hash(), single, shifted)
                    == merkle_root_from(stepped, single.drop_first(), shifted / 2));
                assert(merkle_root_from(stepped, single.drop_first(), shifted / 2) == stepped);
            }
        },
    }
}

/// Completeness: in a perfect tree, every leaf together with its sibling
/// path and its own position recomputes exactly the tree's root, so
/// verification accepts it.
pub proof fn lemma_tree_proof_verifies(t: MerkleTree, position: nat)
    requires
        t.is_perfect(),
        position < pow2(t.depth()),
    ensures
        proof_checks(t.leaf_at(position), t.proof_at(position), position, t.root_hash()),
{
    lemma_pow2_pos(t.depth());
    lemma_small_mod(position, pow2(t.depth()));
    lemma_tree_proof_congruent(t, position, position);
}

} // verus!

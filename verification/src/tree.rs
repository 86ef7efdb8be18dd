//! The tree builder: hashes every leaf, then folds each layer pairwise into
//! the next until one digest, the root, remains.

use crate::hashing::hash_data;
use crate::hashing::sha256_hex_of;
use vstd::prelude::*;
use vstd::string::StringExecFns;

verus! {

/// Why no root could be produced.
#[derive(Clone, Copy, Debug, PartialEq, Eq)]
pub enum MerkleError {
    /// The leaf sequence was empty: there is no digest to return.
    EmptyInput,
}

/// The parent digest of two ordered child digests: the children's hexadecimal
/// renderings are concatenated, left child first, and the concatenation is
/// hashed. Swapping the children changes the input to the hash, so sibling
/// order is significant.
pub open spec fn combine(left: Seq<char>, right: Seq<char>) -> Seq<char> {
    sha256_hex_of(left + right)
}

/// The bottom layer of the tree: the digest of each leaf, in leaf order.
/// Duplicate leaves are hashed independently, never deduplicated.
pub open spec fn leaf_layer(leaves: Seq<Seq<char>>) -> Seq<Seq<char>> {
    Seq::new(leaves.len(), |i: int| sha256_hex_of(leaves[i]))
}

/// An odd-length layer with its last digest repeated; an even-length layer
/// unchanged. Applied before pairing at every level of the fold.
pub open spec fn pad_even(layer: Seq<Seq<char>>) -> Seq<Seq<char>> {
    if layer.len() % 2 == 1 {
        layer.push(layer.last())
    } else {
        layer
    }
}

/// One fold step: the padded layer's consecutive, non-overlapping pairs are
/// combined in index order, pair `i` producing digest `i` of the next layer.
pub open spec fn next_layer(layer: Seq<Seq<char>>) -> Seq<Seq<char>> {
    Seq::new(pad_even(layer).len() / 2, |i: int| combine(pad_even(layer)[2 * i], pad_even(layer)[2 * i + 1]))
}

/// The single digest a non-empty layer folds down to: the layer's only
/// element once one remains, else the fold of the next layer.
pub open spec fn fold_to_root(layer: Seq<Seq<char>>) -> Seq<char>
    recommends
        layer.len() >= 1,
    decreases layer.len(),
{
    if layer.len() <= 1 {
        layer[0]
    } else {
        fold_to_root(next_layer(layer))
    }
}

/// The Merkle root of a non-empty leaf sequence: the fold of its leaf layer.
pub open spec fn root_of(leaves: Seq<Seq<char>>) -> Seq<char>
    recommends
        leaves.len() >= 1,
{
    fold_to_root(leaf_layer(leaves))
}

/// The text of each leaf, in order.
pub open spec fn leaf_views(leaves: Seq<&str>) -> Seq<Seq<char>> {
    Seq::new(leaves.len(), |i: int| leaves[i]@)
}

/// The text of each digest in an executable layer, in order.
pub open spec fn digest_views(layer: Seq<String>) -> Seq<Seq<char>> {
    Seq::new(layer.len(), |i: int| layer[i]@)
}

/// Builds the Merkle root of `leaves`: every leaf is hashed to form the
/// bottom layer, and layers are folded pairwise (an odd layer repeating its
/// last digest first) until one digest remains. An empty leaf sequence has
/// no root and is rejected; every other input succeeds.
pub fn merkle_tree(leaves: Vec<&str>) -> (r: Result<String, MerkleError>)
    ensures
        leaves@.len() == 0 ==> r == Err::<String, MerkleError>(MerkleError::EmptyInput),
        leaves@.len() > 0 ==> (r matches Ok(root) && root@ == root_of(leaf_views(leaves@))),
{
    if leaves.len() == 0 {
        return Err(MerkleError::EmptyInput);
    }
    let mut layer: Vec<String> = Vec::new();
    let mut i: usize = 0;
    while i < leaves.len()
        invariant
            i <= leaves.len(),
            layer@.len() == i,
            forall|j: int| 0 <= j < i ==> layer@[j]@ == sha256_hex_of(leaves@[j]@),
        decreases leaves.len() - i,
    {
        layer.push(hash_data(leaves[i]));
        i = i + 1;
    }
    proof {
        assert(digest_views(layer@) =~= leaf_layer(leaf_views(leaves@)));
    }
    while layer.len() > 1
        invariant
            layer@.len() >= 1,
            leaves@.len() >= 1,
            fold_to_root(digest_views(layer@)) == root_of(leaf_views(leaves@)),
        decreases layer@.len(),
    {
        let ghost entry_layer: Seq<Seq<char>> = digest_views(layer@);
        if layer.len() % 2 == 1 {
            let last = layer[layer.len() - 1].clone();
            layer.push(last);
        }
        proof {
            assert(digest_views(layer@) =~= pad_even(entry_layer));
        }
        let mut new_layer: Vec<String> = Vec::new();
        let mut i: usize = 0;
        while i < layer.len()
            invariant
                layer@.len() % 2 == 0,
                i % 2 == 0,
                i <= layer@.len(),
                new_layer@.len() == i / 2,
                forall|j: int|
                    0 <= j < i / 2 ==> new_layer@[j]@ == combine(
                        digest_views(layer@)[2 * j],
                        digest_views(layer@)[2 * j + 1],
                    ),
            decreases layer@.len() - i,
        {
            let combined = layer[i].clone().concat(layer[i + 1].as_str());
            new_layer.push(hash_data(combined.as_str()));
            i = i + 2;
        }
        proof {
            assert(digest_views(new_layer@) =~= next_layer(entry_layer));
        }
        layer = new_layer;
    }
    let root = layer[0].clone();
    Ok(root)
}

/// The root is a function of the leaf sequence alone: two builds over equal
/// leaf sequences agree, with no hidden state between calls.
pub proof fn lemma_root_deterministic(first: Seq<Seq<char>>, second: Seq<Seq<char>>)
    requires
        first.len() >= 1,
        first == second,
    ensures
        root_of(first) == root_of(second),
{
}

/// A single leaf is its own root: the fold never runs, and the root is the
/// hash of that one leaf.
pub proof fn lemma_single_leaf(leaf: Seq<char>)
    ensures
        root_of(seq![leaf]) == sha256_hex_of(leaf),
{
    assert(leaf_layer(seq![leaf]) =~= seq![sha256_hex_of(leaf)]);
}

/// Two leaves fold in one step: the root combines the two leaf digests in
/// leaf order.
pub proof fn lemma_two_leaves(left: Seq<char>, right: Seq<char>)
    ensures
        root_of(seq![left, right]) == combine(sha256_hex_of(left), sha256_hex_of(right)),
{
    let bottom = leaf_layer(seq![left, right]);
    assert(bottom =~= seq![sha256_hex_of(left), sha256_hex_of(right)]);
    assert(next_layer(bottom) =~= seq![combine(sha256_hex_of(left), sha256_hex_of(right))]);
    assert(fold_to_root(bottom) == fold_to_root(next_layer(bottom)));
    assert(fold_to_root(next_layer(bottom)) == next_layer(bottom)[0]);
}

/// Three leaves force the duplicate-last-digest padding: the third digest is
/// paired with a copy of itself, and the root combines the two resulting
/// parents.
pub proof fn lemma_three_leaves(first: Seq<char>, second: Seq<char>, third: Seq<char>)
    ensures
        root_of(seq![first, second, third]) == combine(
            combine(sha256_hex_of(first), sha256_hex_of(second)),
            combine(sha256_hex_of(third), sha256_hex_of(third)),
        ),
{
    let bottom = leaf_layer(seq![first, second, third]);
    let pair_left = combine(sha256_hex_of(first), sha256_hex_of(second));
    let pair_right = combine(sha256_hex_of(third), sha256_hex_of(third));
    assert(bottom =~= seq![sha256_hex_of(first), sha256_hex_of(second), sha256_hex_of(third)]);
    assert(pad_even(bottom) =~= seq![
        sha256_hex_of(first),
        sha256_hex_of(second),
        sha256_hex_of(third),
        sha256_hex_of(third),
    ]);
    assert(next_layer(bottom) =~= seq![pair_left, pair_right]);
    assert(next_layer(next_layer(bottom)) =~= seq![combine(pair_left, pair_right)]);
    assert(fold_to_root(bottom) == fold_to_root(next_layer(bottom)));
    assert(fold_to_root(next_layer(bottom)) == fold_to_root(next_layer(next_layer(bottom))));
    assert(fold_to_root(next_layer(next_layer(bottom))) == next_layer(next_layer(bottom))[0]);
}

} // verus!

//! Merkle trees over 32-byte hashes: the root, the branch that leads from the
//! first leaf to it, and folding such a branch.

use vstd::prelude::*;

use crate::digest::{double_sha256, sha256d};

verus! {

/// The hash of two children.
pub open spec fn node(left: Seq<u8>, right: Seq<u8>) -> Seq<u8> {
    double_sha256(left + right)
}

/// The hash reached from a first leaf by joining it, on the right, with each
/// hash of a branch in turn.
pub open spec fn fold_branch(leaf: Seq<u8>, branch: Seq<Seq<u8>>) -> Seq<u8>
    decreases branch.len(),
{
    if branch.len() == 0 {
        leaf
    } else {
        node(fold_branch(leaf, branch.drop_last()), branch.last())
    }
}

/// The layer above a layer: neighbours are joined, and a last hash without a
/// neighbour is joined with itself.
pub open spec fn layer_above(layer: Seq<Seq<u8>>) -> Seq<Seq<u8>> {
    Seq::new(
        (layer.len() + 1) / 2,
        |i: int|
            node(
                layer[2 * i],
                if 2 * i + 1 < layer.len() {
                    layer[2 * i + 1]
                } else {
                    layer[2 * i]
                },
            ),
    )
}

/// The root of the tree over a non-empty layer.
pub open spec fn merkle_root(layer: Seq<Seq<u8>>) -> Seq<u8>
    recommends
        layer.len() > 0,
    decreases layer.len(),
{
    if layer.len() <= 1 {
        layer[0]
    } else {
        merkle_root(layer_above(layer))
    }
}

/// The neighbours of the first leaf and of the nodes above it, from the bottom
/// layer up.
pub open spec fn first_leaf_branch(layer: Seq<Seq<u8>>) -> Seq<Seq<u8>>
    decreases layer.len(),
{
    if layer.len() <= 1 {
        Seq::empty()
    } else {
        seq![layer[1]] + first_leaf_branch(layer_above(layer))
    }
}

/// The hashes of a list, each as a byte string.
pub open spec fn hashes(list: Seq<[u8; 32]>) -> Seq<Seq<u8>> {
    list.map_values(|h: [u8; 32]| h@)
}

/// A copy of a list of hashes.
pub fn copy_hashes(list: &[[u8; 32]]) -> (r: Vec<[u8; 32]>)
    ensures
        r@ == list@,
{
    let mut out: Vec<[u8; 32]> = Vec::new();
    while out.len() < list.len()
        invariant
            out@.len() <= list@.len(),
            out@ == list@.take(out@.len() as int),
        decreases list@.len() - out@.len(),
    {
        let h = list[out.len()];
        out.push(h);
    }
    assert(out@ == list@);
    out
}

fn join(left: &[u8; 32], right: &[u8; 32]) -> (r: [u8; 32])
    ensures
        r@ == node(left@, right@),
{
    let mut buf = [0u8; 64];
    let mut i: usize = 0;
    while i < 32
        invariant
            i <= 32,
            forall|k: int| 0 <= k < i ==> buf@[k] == left@[k],
            forall|k: int| 0 <= k < i ==> buf@[32 + k] == right@[k],
        decreases 32 - i,
    {
        buf[i] = left[i];
        buf[32 + i] = right[i];
        i = i + 1;
    }
    assert(buf@ =~= left@ + right@);
    sha256d(buf.as_slice())
}

/// Folds a branch onto a first leaf.
pub fn fold(leaf: [u8; 32], branch: &[[u8; 32]]) -> (r: [u8; 32])
    ensures
        r@ == fold_branch(leaf@, hashes(branch@)),
{
    let mut cur = leaf;
    let mut i: usize = 0;
    while i < branch.len()
        invariant
            i <= branch@.len(),
            cur@ == fold_branch(leaf@, hashes(branch@).take(i as int)),
        decreases branch@.len() - i,
    {
        cur = join(&cur, &branch[i]);
        i = i + 1;
        assert(hashes(branch@).take(i as int).drop_last() == hashes(branch@).take(i - 1));
    }
    assert(hashes(branch@).take(i as int) == hashes(branch@));
    cur
}

fn next_layer(layer: &Vec<[u8; 32]>) -> (r: Vec<[u8; 32]>)
    ensures
        hashes(r@) == layer_above(hashes(layer@)),
{
    let mut next: Vec<[u8; 32]> = Vec::new();
    let n: usize = layer.len() / 2;
    let ghost above = layer_above(hashes(layer@));
    while next.len() < n
        invariant
            n == layer@.len() / 2,
            layer@.len() <= usize::MAX,
            next@.len() <= n,
            above == layer_above(hashes(layer@)),
            hashes(next@) == above.take(next@.len() as int),
        decreases n - next@.len(),
    {
        let i: usize = next.len();
        let h = join(&layer[2 * i], &layer[2 * i + 1]);
        next.push(h);
        assert(hashes(next@) =~= above.take(next@.len() as int));
    }
    if layer.len() % 2 == 1 {
        let last = layer[layer.len() - 1];
        let h = join(&last, &last);
        let ghost joined = hashes(next@);
        next.push(h);
        assert(2 * n == layer@.len() - 1);
        assert(above[n as int] == node(last@, last@));
        assert(hashes(next@) =~= joined.push(h@));
        assert(above =~= above.take(n as int).push(above[n as int]));
    } else {
        assert(above =~= above.take(n as int));
    }
    next
}

/// The branch of the first leaf of a tree.
pub fn branch_of_first(leaves: &[[u8; 32]]) -> (r: Vec<[u8; 32]>)
    ensures
        hashes(r@) == first_leaf_branch(hashes(leaves@)),
{
    let mut layer = copy_hashes(leaves);
    let mut path: Vec<[u8; 32]> = Vec::new();
    assert(hashes(path@) + first_leaf_branch(hashes(layer@)) == first_leaf_branch(hashes(leaves@)));
    while layer.len() > 1
        invariant
            hashes(path@) + first_leaf_branch(hashes(layer@)) == first_leaf_branch(hashes(leaves@)),
        decreases layer@.len(),
    {
        let ghost done = hashes(path@);
        let sibling = layer[1];
        let next = next_layer(&layer);
        path.push(sibling);
        proof {
            let above = layer_above(hashes(layer@));
            assert(hashes(next@).len() == next@.len());
            assert(hashes(path@) == done.push(sibling@));
            assert(done + (seq![sibling@] + first_leaf_branch(above)) == done.push(sibling@)
                + first_leaf_branch(above));
        }
        layer = next;
    }
    assert(hashes(path@) + first_leaf_branch(hashes(layer@)) == hashes(path@));
    path
}

proof fn lemma_fold_front(leaf: Seq<u8>, first: Seq<u8>, rest: Seq<Seq<u8>>)
    ensures
        fold_branch(leaf, seq![first] + rest) == fold_branch(node(leaf, first), rest),
    decreases rest.len(),
{
    let all = seq![first] + rest;
    if rest.len() == 0 {
        assert(all.drop_last() == Seq::<Seq<u8>>::empty());
        assert(fold_branch(leaf, all.drop_last()) == leaf);
    } else {
        lemma_fold_front(leaf, first, rest.drop_last());
        assert(all.drop_last() == seq![first] + rest.drop_last());
    }
}

/// Folding the branch of the first leaf onto that leaf gives the root.
pub proof fn law_branch_leads_to_root(leaves: Seq<Seq<u8>>)
    requires
        leaves.len() > 0,
    ensures
        fold_branch(leaves[0], first_leaf_branch(leaves)) == merkle_root(leaves),
    decreases leaves.len(),
{
    if leaves.len() > 1 {
        let above = layer_above(leaves);
        law_branch_leads_to_root(above);
        lemma_fold_front(leaves[0], leaves[1], first_leaf_branch(above));
        assert(above[0] == node(leaves[0], leaves[1]));
    }
}

/// The branch of the first leaf does not depend on that leaf: it can be worked
/// out with any hash in its place.
pub proof fn law_branch_ignores_first_leaf(leaves: Seq<Seq<u8>>, other: Seq<u8>)
    requires
        leaves.len() > 0,
    ensures
        first_leaf_branch(leaves.update(0, other)) == first_leaf_branch(leaves),
    decreases leaves.len(),
{
    if leaves.len() > 1 {
        let changed = leaves.update(0, other);
        let above = layer_above(leaves);
        let above_changed = layer_above(changed);
        assert(above_changed =~= above.update(0, above_changed[0])) by {
            assert forall|i: int| 0 < i < above.len() implies above_changed[i] == above[i] by {
                assert(changed[2 * i] == leaves[2 * i]);
                if 2 * i + 1 < leaves.len() {
                    assert(changed[2 * i + 1] == leaves[2 * i + 1]);
                }
            }
        }
        law_branch_ignores_first_leaf(above, above_changed[0]);
    }
}

/// A branch worked out with any hash as the first leaf leads from each possible
/// first leaf to the root of the tree with that leaf.
pub proof fn law_branch_serves_every_first_leaf(leaves: Seq<Seq<u8>>, leaf: Seq<u8>)
    requires
        leaves.len() > 0,
    ensures
        fold_branch(leaf, first_leaf_branch(leaves)) == merkle_root(leaves.update(0, leaf)),
{
    law_branch_ignores_first_leaf(leaves, leaf);
    law_branch_leads_to_root(leaves.update(0, leaf));
}

}

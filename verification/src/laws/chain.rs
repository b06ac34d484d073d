//! Hashes, Merkle trees and targets, from the hash function and arithmetic alone.

use vstd::prelude::*;

use crate::bytes::{be_value, bytes_span, le_value};
use crate::digest::{double_sha256, sha256};
use crate::laws::encoding::{lemma_span_is_power, pow256};
use crate::merkle::{
    first_leaf_branch, fold_branch, hashes, layer_above, merkle_root, node,
};
use crate::target::{
    compact_bytes, law_compact_target_value, law_share_target_value, share_target,
};

verus! {

/// A byte string is hashed, and its digest is hashed once more.
pub proof fn law_hash_is_taken_twice(data: Seq<u8>)
    ensures
        double_sha256(data) == sha256(sha256(data)),
{
}

/// A list of hashes is seen hash by hash, in order.
pub proof fn law_hashes_are_seen_in_order(list: Seq<[u8; 32]>, i: int)
    ensures
        hashes(list).len() == list.len(),
        0 <= i < list.len() ==> hashes(list)[i] == list[i]@,
{
}

/// Two children are hashed twice as one byte string, the left one first.
pub proof fn law_node_hashes_its_children(left: Seq<u8>, right: Seq<u8>)
    ensures
        node(left, right) == sha256(sha256(left + right)),
{
}

/// A branch is folded from its first hash on: each is put to the right of what was
/// reached so far, and both are hashed twice. Nothing is done for an empty branch.
pub proof fn law_branch_is_folded_hash_by_hash(leaf: Seq<u8>, branch: Seq<Seq<u8>>, next: Seq<u8>)
    ensures
        fold_branch(leaf, Seq::empty()) == leaf,
        fold_branch(leaf, branch.push(next)) == sha256(sha256(fold_branch(leaf, branch) + next)),
{
    assert(branch.push(next).drop_last() =~= branch);
}

/// The layer above has half as many hashes, rounded up: each of two neighbours
/// hashed together, and the last of an odd number with itself.
pub proof fn law_layer_joins_neighbours(layer: Seq<Seq<u8>>, i: int)
    requires
        0 <= i,
    ensures
        layer_above(layer).len() == layer.len() / 2 + layer.len() % 2,
        2 * i + 1 < layer.len() ==> layer_above(layer)[i] == sha256(
            sha256(layer[2 * i] + layer[2 * i + 1]),
        ),
        2 * i + 1 == layer.len() ==> layer_above(layer)[i] == sha256(
            sha256(layer[2 * i] + layer[2 * i]),
        ),
{
}

/// The root of one leaf is the leaf, and the root of more is the root of the layer
/// above them.
pub proof fn law_root_goes_up_by_layers(layer: Seq<Seq<u8>>)
    ensures
        layer.len() == 1 ==> merkle_root(layer) == layer[0],
        layer.len() > 1 ==> merkle_root(layer) == merkle_root(layer_above(layer)),
{
}

/// The branch of the first leaf begins with its neighbour and goes on with the
/// branch in the layer above; one leaf has none.
pub proof fn law_branch_goes_up_by_layers(layer: Seq<Seq<u8>>)
    ensures
        layer.len() <= 1 ==> first_leaf_branch(layer).len() == 0,
        layer.len() > 1 ==> {
            &&& first_leaf_branch(layer)[0] == layer[1]
            &&& first_leaf_branch(layer).len() == 1 + first_leaf_branch(layer_above(layer)).len()
            &&& first_leaf_branch(layer).skip(1) == first_leaf_branch(layer_above(layer))
        },
{
    if layer.len() > 1 {
        assert(first_leaf_branch(layer).skip(1) =~= first_leaf_branch(layer_above(layer)));
    }
}

/// The number that compact bits stand for: the three lower bytes times `256` to the
/// power of the upper byte less three, and zero where that byte is below three or
/// above thirty-two.
pub open spec fn bits_number(bits: u32) -> int {
    let exponent = bits as int / 0x100_0000;
    if 3 <= exponent <= 32 {
        (bits as int % 0x100_0000) * pow256(exponent - 3)
    } else {
        0
    }
}

/// A target expanded from compact bits, read highest byte first, is the number that
/// the bits stand for.
pub proof fn law_target_is_number_of_bits(bits: u32)
    ensures
        compact_bytes(bits).len() == 32,
        be_value(compact_bytes(bits)) == bits_number(bits),
{
    law_compact_target_value(bits);
    let exponent = bits as int / 0x100_0000;
    if 3 <= exponent <= 32 {
        lemma_span_is_power((exponent - 3) as nat);
    }
}

/// A share target, read lowest byte first, is the lower six bytes of the quotient
/// times `256` to the power twenty-six.
pub proof fn law_share_target_is_scaled_quotient(quotient: u64)
    ensures
        share_target(quotient).len() == 32,
        le_value(share_target(quotient)) == pow256(26) * (quotient as int % 0x1_0000_0000_0000),
{
    law_share_target_value(quotient);
    lemma_span_is_power(26);
    assert(bytes_span(26) == pow256(26));
}

}

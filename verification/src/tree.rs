//! The standard bottom-up tree construction over an allocation table, and
//! the completeness and soundness of the sibling paths it generates.

use vstd::prelude::*;
use crate::hash::keccak_of;
use crate::merkle::{hash_pair, merkle_climb, merkle_verifies};

verus! {

/// `n` is a power of two.
pub open spec fn is_pow2(n: nat) -> bool
    decreases n,
{
    if n == 0 {
        false
    } else if n == 1 {
        true
    } else {
        n % 2 == 0 && is_pow2(n / 2)
    }
}

/// One level up: adjacent nodes hashed pairwise, the left sibling first.
pub open spec fn combine_level(nodes: Seq<Seq<u8>>) -> Seq<Seq<u8>> {
    Seq::new((nodes.len() / 2) as nat, |i: int| hash_pair(nodes[2 * i], nodes[2 * i + 1]))
}

/// The root of the tree built bottom-up from `leaves` (meaningful when the
/// number of leaves is a power of two).
pub open spec fn merkle_root_of(leaves: Seq<Seq<u8>>) -> Seq<u8>
    decreases leaves.len(),
{
    if leaves.len() <= 1 {
        if leaves.len() == 1 {
            leaves[0]
        } else {
            Seq::empty()
        }
    } else {
        merkle_root_of(combine_level(leaves))
    }
}

/// The sibling path from the leaf at `index` up to the root of the tree
/// built over `leaves`.
pub open spec fn merkle_proof_for(leaves: Seq<Seq<u8>>, index: nat) -> Seq<Seq<u8>>
    decreases leaves.len(),
{
    if leaves.len() <= 1 {
        Seq::empty()
    } else {
        let sib = if index % 2 == 0 {
            leaves[index as int + 1]
        } else {
            leaves[index as int - 1]
        };
        seq![sib] + merkle_proof_for(combine_level(leaves), index / 2)
    }
}

/// Proof completeness: in the tree built over a power-of-two allocation
/// table, the generated sibling path carries every leaf, at its own index,
/// up to the tree's root.
pub proof fn lemma_merkle_completeness(leaves: Seq<Seq<u8>>, index: nat)
    requires
        is_pow2(leaves.len()),
        index < leaves.len(),
    ensures
        merkle_verifies(
            leaves[index as int],
            merkle_proof_for(leaves, index),
            merkle_root_of(leaves),
            index,
        ),
    decreases leaves.len(),
{
    if leaves.len() == 1 {
        assert(merkle_proof_for(leaves, index) =~= Seq::<Seq<u8>>::empty());
    } else {
        assert(leaves.len() % 2 == 0 && is_pow2(leaves.len() / 2));
        let next = combine_level(leaves);
        let sib = if index % 2 == 0 {
            leaves[index as int + 1]
        } else {
            leaves[index as int - 1]
        };
        let rest = merkle_proof_for(next, index / 2);
        let path = merkle_proof_for(leaves, index);
        assert(path == seq![sib] + rest);
        assert(path[0] == sib);
        assert(path.drop_first() =~= rest);
        let i2 = (index / 2) as int;
        assert(next[i2] == hash_pair(leaves[2 * i2], leaves[2 * i2 + 1]));
        if index % 2 == 0 {
            assert(2 * i2 == index as int);
        } else {
            assert(2 * i2 == index as int - 1);
        }
        assert(index / 2 < next.len());
        lemma_merkle_completeness(next, index / 2);
        assert(merkle_root_of(leaves) == merkle_root_of(next));
    }
}

/// Two to the power `k`.
pub open spec fn pow2(k: nat) -> nat
    decreases k,
{
    if k == 0 {
        1nat
    } else {
        2 * pow2((k - 1) as nat)
    }
}

pub proof fn lemma_pow2_pos(k: nat)
    ensures
        pow2(k) >= 1,
    decreases k,
{
    if k > 0 {
        lemma_pow2_pos((k - 1) as nat)
    }
}

/// Every element of `s` is 32 bytes long.
pub open spec fn all_digests(s: Seq<Seq<u8>>) -> bool {
    forall|i: int| 0 <= i < s.len() ==> (#[trigger] s[i]).len() == 32
}

/// The hash has fixed-width output: every digest is 32 bytes long. (This is
/// what is documented of the hash; it is a hypothesis here, not a theorem.)
pub open spec fn fixed_width_hash() -> bool {
    forall|x: Seq<u8>| (#[trigger] keccak_of(x)).len() == 32
}

/// Two distinct inputs with one and the same digest.
pub open spec fn keccak_collision(a: Seq<u8>, b: Seq<u8>) -> bool {
    a != b && keccak_of(a) == keccak_of(b)
}

/// Proof soundness: under a fixed-width hash, a sibling path of the tree's
/// height that carries any value other than the committed leaf up to the
/// tree's own root exhibits a hash collision. Contrapositively, as long as
/// no collision can be found, no such proof exists.
pub proof fn lemma_merkle_soundness(
    leaves: Seq<Seq<u8>>,
    index: nat,
    node: Seq<u8>,
    path: Seq<Seq<u8>>,
)
    requires
        fixed_width_hash(),
        is_pow2(leaves.len()),
        index < leaves.len(),
        all_digests(leaves),
        node.len() == 32,
        all_digests(path),
        pow2(path.len()) == leaves.len(),
        merkle_verifies(node, path, merkle_root_of(leaves), index),
        node != leaves[index as int],
    ensures
        exists|a: Seq<u8>, b: Seq<u8>| keccak_collision(a, b),
    decreases leaves.len(),
{
    if leaves.len() == 1 {
        // the path is empty, so the climb is the node itself, which then
        // both equals and differs from the single leaf
        assert(path.len() == 0) by {
            if path.len() > 0 {
                lemma_pow2_pos((path.len() - 1) as nat);
            }
        }
        assert(false);
    } else {
        assert(leaves.len() % 2 == 0 && is_pow2(leaves.len() / 2));
        assert(path.len() >= 1) by {
            if path.len() == 0 {
                assert(pow2(0) == 1);
            }
        }
        let next = combine_level(leaves);
        let i2 = (index / 2) as int;
        assert(next[i2] == hash_pair(leaves[2 * i2], leaves[2 * i2 + 1]));
        assert forall|i: int| 0 <= i < next.len() implies (#[trigger] next[i]).len() == 32 by {
            assert(next[i] == keccak_of(leaves[2 * i] + leaves[2 * i + 1]));
        }
        let parent = if index % 2 == 0 {
            hash_pair(node, path[0])
        } else {
            hash_pair(path[0], node)
        };
        let inp1 = if index % 2 == 0 {
            node + path[0]
        } else {
            path[0] + node
        };
        let inp2 = leaves[2 * i2] + leaves[2 * i2 + 1];
        assert(parent == keccak_of(inp1));
        if parent == next[i2] {
            if inp1 != inp2 {
                assert(keccak_collision(inp1, inp2));
            } else {
                // equal 64-byte inputs put the node itself back at its slot
                // in the table, against the hypothesis
                assert(leaves[2 * i2].len() == 32 && leaves[2 * i2 + 1].len() == 32);
                if index % 2 == 0 {
                    assert(2 * i2 == index as int);
                    assert forall|j: int| 0 <= j < 32 implies node[j] == leaves[index as int][j] by {
                        assert(inp1[j] == node[j]);
                        assert(inp2[j] == leaves[index as int][j]);
                    }
                    assert(node =~= leaves[index as int]);
                } else {
                    assert(2 * i2 + 1 == index as int);
                    assert forall|j: int| 0 <= j < 32 implies node[j] == leaves[index as int][j] by {
                        assert(inp1[32 + j] == node[j]);
                        assert(inp2[32 + j] == leaves[index as int][j]);
                    }
                    assert(node =~= leaves[index as int]);
                }
                assert(false);
            }
        } else {
            // the mismatch persists one level up: recurse on the smaller tree
            assert(merkle_climb(node, path, index) == merkle_climb(
                parent,
                path.drop_first(),
                index / 2,
            ));
            assert(merkle_root_of(leaves) == merkle_root_of(next));
            assert(pow2(path.drop_first().len()) == next.len()) by {
                assert(path.drop_first().len() == (path.len() - 1) as nat);
            }
            assert(all_digests(path.drop_first())) by {
                assert forall|i: int| 0 <= i < path.drop_first().len() implies (
                #[trigger] path.drop_first()[i]).len() == 32 by {
                    assert(path.drop_first()[i] == path[i + 1]);
                }
            }
            assert(index / 2 < next.len());
            lemma_merkle_soundness(next, index / 2, parent, path.drop_first());
        }
    }
}

} // verus!

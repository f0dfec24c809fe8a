//! Canonical leaf encodings and Merkle path verification.
//!
//! A leaf commits to one allocation entry; a proof is the ordered sequence of
//! sibling digests from the leaf to the root, with the leaf's table index
//! choosing, bit by bit, on which side the running node stands.

use vstd::prelude::*;
use vstd::bytes::{spec_u32_to_le_bytes, spec_u64_to_le_bytes, u32_to_le_bytes, u64_to_le_bytes};
use crate::hash::{bytes32_eq, keccak256, keccak_of, push_bytes};

verus! {

/// The digest of an ordered pair of sibling nodes: the hash of their
/// concatenation, left first.
pub open spec fn hash_pair(left: Seq<u8>, right: Seq<u8>) -> Seq<u8> {
    keccak_of(left + right)
}

/// Canonical wallet-identity leaf bytes:
/// `wallet (32B) || epoch:LE64 || amount:LE64 || index:LE32`.
pub open spec fn leaf_bytes(claimer: Seq<u8>, epoch: u64, amount: u64, index: u32) -> Seq<u8> {
    claimer + spec_u64_to_le_bytes(epoch) + spec_u64_to_le_bytes(amount) + spec_u32_to_le_bytes(
        index,
    )
}

/// The wallet-identity (V1) leaf digest.
pub open spec fn spec_leaf_hash(claimer: Seq<u8>, epoch: u64, amount: u64, index: u32) -> Seq<
    u8,
> {
    keccak_of(leaf_bytes(claimer, epoch, amount, index))
}

/// Canonical off-chain-identity leaf bytes:
/// `user_key (32B) || epoch:LE64 || amount:LE64 || index:LE32 || salt (32B)`.
pub open spec fn leaf_bytes_v2(
    user_key: Seq<u8>,
    epoch: u64,
    amount: u64,
    index: u32,
    salt: Seq<u8>,
) -> Seq<u8> {
    user_key + spec_u64_to_le_bytes(epoch) + spec_u64_to_le_bytes(amount) + spec_u32_to_le_bytes(
        index,
    ) + salt
}

/// The off-chain-identity (V2) leaf digest.
pub open spec fn spec_leaf_hash_v2(
    user_key: Seq<u8>,
    epoch: u64,
    amount: u64,
    index: u32,
    salt: Seq<u8>,
) -> Seq<u8> {
    keccak_of(leaf_bytes_v2(user_key, epoch, amount, index, salt))
}

/// The root reconstructed by walking the proof upward from `node`: at each
/// step the low bit of `index` says whether the node is the left (bit 0) or
/// the right (bit 1) child, and the index is halved.
pub open spec fn merkle_climb(node: Seq<u8>, path: Seq<Seq<u8>>, index: nat) -> Seq<u8>
    decreases path.len(),
{
    if path.len() == 0 {
        node
    } else {
        let parent = if index % 2 == 0 {
            hash_pair(node, path[0])
        } else {
            hash_pair(path[0], node)
        };
        merkle_climb(parent, path.drop_first(), index / 2)
    }
}

/// True exactly when `path` carries `node` at position `index` up to `root`.
pub open spec fn merkle_verifies(node: Seq<u8>, path: Seq<Seq<u8>>, root: Seq<u8>, index: nat) -> bool {
    merkle_climb(node, path, index) == root
}

/// The digest of one ordered pair of sibling nodes.
pub fn hash_nodes(left: &[u8; 32], right: &[u8; 32]) -> (r: [u8; 32])
    ensures
        r@ == hash_pair(left@, right@),
{
    let mut data: Vec<u8> = Vec::new();
    push_bytes(&mut data, left.as_slice());
    push_bytes(&mut data, right.as_slice());
    keccak256(data.as_slice())
}

/// The wallet-identity (V1) leaf digest of one allocation entry.
pub fn leaf_hash(claimer: &[u8; 32], epoch: u64, amount: u64, index: u32) -> (r: [u8; 32])
    ensures
        r@ == spec_leaf_hash(claimer@, epoch, amount, index),
{
    let mut data: Vec<u8> = Vec::new();
    push_bytes(&mut data, claimer.as_slice());
    let epoch_b = u64_to_le_bytes(epoch);
    push_bytes(&mut data, epoch_b.as_slice());
    let amt_b = u64_to_le_bytes(amount);
    push_bytes(&mut data, amt_b.as_slice());
    let idx_b = u32_to_le_bytes(index);
    push_bytes(&mut data, idx_b.as_slice());
    keccak256(data.as_slice())
}

/// The off-chain-identity (V2) leaf digest of one allocation entry.
pub fn leaf_hash_v2(
    user_key: &[u8; 32],
    epoch: u64,
    amount: u64,
    index: u32,
    salt: &[u8; 32],
) -> (r: [u8; 32])
    ensures
        r@ == spec_leaf_hash_v2(user_key@, epoch, amount, index, salt@),
{
    let mut data: Vec<u8> = Vec::new();
    push_bytes(&mut data, user_key.as_slice());
    let epoch_b = u64_to_le_bytes(epoch);
    push_bytes(&mut data, epoch_b.as_slice());
    let amt_b = u64_to_le_bytes(amount);
    push_bytes(&mut data, amt_b.as_slice());
    let idx_b = u32_to_le_bytes(index);
    push_bytes(&mut data, idx_b.as_slice());
    push_bytes(&mut data, salt.as_slice());
    keccak256(data.as_slice())
}

/// Recomputes the root from `node`, the sibling path and the leaf index, and
/// compares it byte-exactly to `root`.
pub fn verify_merkle(node: [u8; 32], proof_nodes: &Vec<[u8; 32]>, root: [u8; 32], index: u32) -> (r:
    bool)
    ensures
        r == merkle_verifies(
            node@,
            proof_nodes@.map_values(|p: [u8; 32]| p@),
            root@,
            index as nat,
        ),
{
    let ghost path = proof_nodes@.map_values(|p: [u8; 32]| p@);
    proof {
        assert(path.skip(0) =~= path);
    }
    let mut cur = node;
    let mut idx = index;
    let mut i: usize = 0;
    while i < proof_nodes.len()
        invariant
            0 <= i <= proof_nodes@.len(),
            path == proof_nodes@.map_values(|p: [u8; 32]| p@),
            merkle_climb(cur@, path.skip(i as int), idx as nat) == merkle_climb(
                node@,
                path,
                index as nat,
            ),
        decreases proof_nodes@.len() - i,
    {
        let sib = proof_nodes[i];
        proof {
            assert(idx & 1 == idx % 2) by (bit_vector);
            assert(idx >> 1 == idx / 2) by (bit_vector);
            assert(path.skip(i as int)[0] == sib@);
            assert(path.skip(i as int).drop_first() =~= path.skip(i as int + 1));
        }
        cur = if (idx & 1) == 0 {
            hash_nodes(&cur, &sib)
        } else {
            hash_nodes(&sib, &cur)
        };
        idx = idx >> 1;
        i += 1;
    }
    proof {
        assert(path.skip(path.len() as int) =~= Seq::<Seq<u8>>::empty());
    }
    bytes32_eq(&cur, &root)
}

} // verus!

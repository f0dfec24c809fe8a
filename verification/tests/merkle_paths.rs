use xess_claim::merkle::{hash_nodes, leaf_hash, leaf_hash_v2, verify_merkle};

fn key(b: u8) -> [u8; 32] {
    [b; 32]
}

fn pair(l: &[u8; 32], r: &[u8; 32]) -> [u8; 32] {
    solana_program::keccak::hashv(&[l, r]).to_bytes()
}

fn reference_leaf_v1(wallet: &[u8; 32], epoch: u64, amount: u64, index: u32) -> [u8; 32] {
    solana_program::keccak::hashv(&[
        wallet,
        &epoch.to_le_bytes(),
        &amount.to_le_bytes(),
        &index.to_le_bytes(),
    ])
    .to_bytes()
}

fn reference_leaf_v2(
    user_key: &[u8; 32],
    epoch: u64,
    amount: u64,
    index: u32,
    salt: &[u8; 32],
) -> [u8; 32] {
    solana_program::keccak::hashv(&[
        user_key,
        &epoch.to_le_bytes(),
        &amount.to_le_bytes(),
        &index.to_le_bytes(),
        salt,
    ])
    .to_bytes()
}

/// A 4-leaf tree: leaves, level-one nodes, and the root.
fn four_leaf_tree(leaves: &[[u8; 32]; 4]) -> ([u8; 32], [u8; 32], [u8; 32]) {
    let n01 = pair(&leaves[0], &leaves[1]);
    let n23 = pair(&leaves[2], &leaves[3]);
    let root = pair(&n01, &n23);
    (n01, n23, root)
}

#[test]
fn leaf_encoding_matches_reference_v1() {
    let w = key(0xa1);
    let got = leaf_hash(&w, 7, 100, 0);
    let want = reference_leaf_v1(&w, 7, 100, 0);
    assert_eq!(got, want);
    // the digest is a real hash, not the input handed back
    assert_ne!(got, w);
    assert_ne!(leaf_hash(&w, 7, 100, 1), got);
}

#[test]
fn leaf_encoding_matches_reference_v2() {
    let k = key(0x51);
    let salt = key(0x77);
    let got = leaf_hash_v2(&k, 9, 250, 3, &salt);
    let want = reference_leaf_v2(&k, 9, 250, 3, &salt);
    assert_eq!(got, want);
    assert_ne!(got, k);
    // the salt takes part in the digest
    assert_ne!(leaf_hash_v2(&k, 9, 250, 3, &key(0x78)), got);
}

#[test]
fn pair_hash_matches_reference_and_is_order_sensitive() {
    let a = key(1);
    let b = key(2);
    assert_eq!(hash_nodes(&a, &b), pair(&a, &b));
    assert_ne!(hash_nodes(&a, &b), hash_nodes(&b, &a));
    assert_ne!(hash_nodes(&a, &b), a);
}

#[test]
fn four_leaf_paths_all_verify() {
    let leaves = [
        reference_leaf_v1(&key(0xa1), 7, 100, 0),
        reference_leaf_v1(&key(0xb2), 7, 200, 1),
        reference_leaf_v1(&key(0xc3), 7, 50, 2),
        reference_leaf_v1(&key(0xd4), 7, 75, 3),
    ];
    let (n01, n23, root) = four_leaf_tree(&leaves);
    assert!(verify_merkle(leaves[0], &vec![leaves[1], n23], root, 0));
    assert!(verify_merkle(leaves[1], &vec![leaves[0], n23], root, 1));
    assert!(verify_merkle(leaves[2], &vec![leaves[3], n01], root, 2));
    assert!(verify_merkle(leaves[3], &vec![leaves[2], n01], root, 3));
}

#[test]
fn flipping_the_low_index_bit_changes_the_outcome() {
    let leaves = [
        reference_leaf_v1(&key(0xa1), 7, 100, 0),
        reference_leaf_v1(&key(0xb2), 7, 200, 1),
        reference_leaf_v1(&key(0xc3), 7, 50, 2),
        reference_leaf_v1(&key(0xd4), 7, 75, 3),
    ];
    let (_n01, n23, root) = four_leaf_tree(&leaves);
    let path = vec![leaves[1], n23];
    assert!(verify_merkle(leaves[0], &path, root, 0));
    assert!(!verify_merkle(leaves[0], &path, root, 1));
}

#[test]
fn single_leaf_tree_verifies_with_empty_path() {
    let leaf = reference_leaf_v1(&key(0x0f), 1, 42, 0);
    assert!(verify_merkle(leaf, &vec![], leaf, 0));
    assert!(!verify_merkle(leaf, &vec![], key(0x10), 0));
}

#[test]
fn wrong_sibling_fails() {
    let leaves = [
        reference_leaf_v1(&key(0xa1), 7, 100, 0),
        reference_leaf_v1(&key(0xb2), 7, 200, 1),
        reference_leaf_v1(&key(0xc3), 7, 50, 2),
        reference_leaf_v1(&key(0xd4), 7, 75, 3),
    ];
    let (_n01, n23, root) = four_leaf_tree(&leaves);
    assert!(!verify_merkle(leaves[0], &vec![leaves[2], n23], root, 0));
    assert!(!verify_merkle(leaves[0], &vec![leaves[1]], root, 0));
}

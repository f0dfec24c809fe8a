//! Engine-wide laws, stated over the instruction transitions: a claim
//! identity redeems at most once per epoch, and distinct wallet identities
//! never get in each other's way.

use vstd::prelude::*;
use crate::state::{
    has_root, has_v1_receipt, has_v2_receipt, root_for, v1_claim_err, v1_post_state, v2_claim_err,
    v2_post_state, Claim, ClaimV2, Receipt, ReceiptV2, StateView, XessError,
};
use crate::merkle::{merkle_verifies, spec_leaf_hash};

verus! {

/// Uniqueness of wallet-identity claims: once a claim for (epoch, wallet)
/// has succeeded, every further claim for the same pair fails, whatever
/// amount, index, proof and accounts it brings; and whenever the retry's
/// proof verifies and its asset types match, it fails precisely with the
/// create-once condition.
pub proof fn lemma_v1_claim_unique(
    s: StateView,
    a1: Claim,
    amount1: u64,
    index1: u32,
    path1: Seq<Seq<u8>>,
    a2: Claim,
    amount2: u64,
    index2: u32,
    path2: Seq<Seq<u8>>,
    epoch: u64,
)
    requires
        a2.claimer@ == a1.claimer@,
        v1_claim_err(s, a1, epoch, amount1, index1, path1) is None,
    ensures
        v1_claim_err(
            v1_post_state(s, a1, epoch, amount1, index1),
            a2,
            epoch,
            amount2,
            index2,
            path2,
        ) is Some,
        (merkle_verifies(
            spec_leaf_hash(a2.claimer@, epoch, amount2, index2),
            path2,
            root_for(s, epoch),
            index2 as nat,
        ) && a2.vault_ata.mint@ == s.config.xess_mint@ && a2.user_ata.mint@
            == s.config.xess_mint@) ==> v1_claim_err(
            v1_post_state(s, a1, epoch, amount1, index1),
            a2,
            epoch,
            amount2,
            index2,
            path2,
        ) == Some(XessError::AlreadyExists),
{
    let post = v1_post_state(s, a1, epoch, amount1, index1);
    assert(post.roots == s.roots);
    let i = choose|i: int| 0 <= i < s.roots.len() && s.roots[i].epoch == epoch;
    assert(post.roots[i].epoch == epoch);
    assert(has_root(post, epoch));
    let n = s.receipts.len() as int;
    assert(post.receipts[n] == (Receipt {
        epoch,
        claimer: a1.claimer,
        amount: amount1,
        index: index1,
    }));
    assert(has_v1_receipt(post, epoch, a2.claimer@));
}

/// Uniqueness of off-chain-identity claims: once a claim for
/// (epoch, user_key) has succeeded, every further claim for the same pair
/// fails — to whichever wallet it would route the funds, and whatever salt,
/// amount, index, proof and accounts it brings.
pub proof fn lemma_v2_claim_unique(
    s: StateView,
    a1: ClaimV2,
    amount1: u64,
    index1: u32,
    salt1: [u8; 32],
    path1: Seq<Seq<u8>>,
    a2: ClaimV2,
    amount2: u64,
    index2: u32,
    salt2: [u8; 32],
    path2: Seq<Seq<u8>>,
    epoch: u64,
    user_key: [u8; 32],
)
    requires
        v2_claim_err(s, a1, epoch, amount1, index1, user_key, salt1, path1) is None,
    ensures
        v2_claim_err(
            v2_post_state(s, a1, epoch, amount1, index1, user_key),
            a2,
            epoch,
            amount2,
            index2,
            user_key,
            salt2,
            path2,
        ) is Some,
{
    let post = v2_post_state(s, a1, epoch, amount1, index1, user_key);
    assert(post.roots == s.roots);
    let i = choose|i: int| 0 <= i < s.roots.len() && s.roots[i].epoch == epoch;
    assert(post.roots[i].epoch == epoch);
    assert(has_root(post, epoch));
    let n = s.receipts_v2.len() as int;
    assert(post.receipts_v2[n] == (ReceiptV2 {
        epoch,
        user_key,
        claimed_to: a1.claimer,
        amount: amount1,
        index: index1,
    }));
    assert(has_v2_receipt(post, epoch, user_key@));
}

/// Distinct wallet identities never collide under the wallet-identity
/// protocol: a successful claim leaves every other wallet's receipt
/// standing — present or absent — exactly as it was, for every epoch.
pub proof fn lemma_v1_wallets_independent(
    s: StateView,
    a1: Claim,
    epoch: u64,
    amount: u64,
    index: u32,
    path: Seq<Seq<u8>>,
    epoch2: u64,
    other: Seq<u8>,
)
    requires
        v1_claim_err(s, a1, epoch, amount, index, path) is None,
        other != a1.claimer@,
    ensures
        has_v1_receipt(v1_post_state(s, a1, epoch, amount, index), epoch2, other)
            == has_v1_receipt(s, epoch2, other),
{
    let post = v1_post_state(s, a1, epoch, amount, index);
    let n = s.receipts.len() as int;
    if has_v1_receipt(post, epoch2, other) {
        let i = choose|i: int|
            0 <= i < post.receipts.len() && post.receipts[i].epoch == epoch2
                && post.receipts[i].claimer@ == other;
        assert(i < n);
        assert(s.receipts[i].epoch == epoch2 && s.receipts[i].claimer@ == other);
        assert(has_v1_receipt(s, epoch2, other));
    }
    if has_v1_receipt(s, epoch2, other) {
        let i = choose|i: int|
            0 <= i < s.receipts.len() && s.receipts[i].epoch == epoch2 && s.receipts[i].claimer@
                == other;
        assert(post.receipts[i].epoch == epoch2 && post.receipts[i].claimer@ == other);
        assert(has_v1_receipt(post, epoch2, other));
    }
}

} // verus!

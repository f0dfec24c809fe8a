use xess_claim::state::{
    Claim, ClaimState, ClaimV2, Initialize, SetAdmin, SetEpochRoot, SetMint, TokenAccount,
    XessError,
};

fn key(b: u8) -> [u8; 32] {
    [b; 32]
}

fn pair(l: &[u8; 32], r: &[u8; 32]) -> [u8; 32] {
    solana_program::keccak::hashv(&[l, r]).to_bytes()
}

fn reference_leaf_v1(wallet: &[u8; 32], epoch: u64, amount: u64, index: u32) -> [u8; 32] {
    solana_program::keccak::hashv(&[
        wallet,
        &epoch.to_le_bytes(),
        &amount.to_le_bytes(),
        &index.to_le_bytes(),
    ])
    .to_bytes()
}

fn reference_leaf_v2(
    user_key: &[u8; 32],
    epoch: u64,
    amount: u64,
    index: u32,
    salt: &[u8; 32],
) -> [u8; 32] {
    solana_program::keccak::hashv(&[
        user_key,
        &epoch.to_le_bytes(),
        &amount.to_le_bytes(),
        &index.to_le_bytes(),
        salt,
    ])
    .to_bytes()
}

const ADMIN: u8 = 0x01;
const MINT: u8 = 0x02;
const VAULT_AUTH: u8 = 0x03;
const WALLET_A: u8 = 0xa1;
const WALLET_B: u8 = 0xb2;
const WALLET_C: u8 = 0xc3;
const WALLET_D: u8 = 0xd4;

/// The epoch-7 allocation table `[(A,100,0), (B,200,1), (C,50,2), (D,75,3)]`
/// as a 4-leaf tree: (leaves, level-one nodes, root).
fn epoch7_tree() -> ([[u8; 32]; 4], [u8; 32], [u8; 32], [u8; 32]) {
    let leaves = [
        reference_leaf_v1(&key(WALLET_A), 7, 100, 0),
        reference_leaf_v1(&key(WALLET_B), 7, 200, 1),
        reference_leaf_v1(&key(WALLET_C), 7, 50, 2),
        reference_leaf_v1(&key(WALLET_D), 7, 75, 3),
    ];
    let n01 = pair(&leaves[0], &leaves[1]);
    let n23 = pair(&leaves[2], &leaves[3]);
    let root = pair(&n01, &n23);
    (leaves, n01, n23, root)
}

fn fresh_state() -> ClaimState {
    let init = Initialize {
        xess_mint: key(MINT),
        vault_authority: key(VAULT_AUTH),
        vault_authority_bump: 254,
    };
    ClaimState::initialize(&init, key(ADMIN))
}

fn state_with_epoch7() -> (ClaimState, [[u8; 32]; 4], [u8; 32], [u8; 32]) {
    let (leaves, n01, n23, root) = epoch7_tree();
    let mut s = fresh_state();
    let r = s.set_epoch_root(&SetEpochRoot { admin: key(ADMIN) }, 7, root);
    assert_eq!(r, Ok(()));
    (s, leaves, n01, n23)
}

fn accounts_for(wallet: u8, vault_balance: u64, user_balance: u64) -> Claim {
    Claim {
        claimer: key(wallet),
        vault_ata: TokenAccount { mint: key(MINT), owner: key(VAULT_AUTH), amount: vault_balance },
        user_ata: TokenAccount { mint: key(MINT), owner: key(wallet), amount: user_balance },
    }
}

#[test]
fn initialize_captures_config() {
    let s = fresh_state();
    assert_eq!(s.config.admin, key(ADMIN));
    assert_eq!(s.config.xess_mint, key(MINT));
    assert_eq!(s.config.vault_authority, key(VAULT_AUTH));
    assert_eq!(s.config.vault_authority_bump, 254);
    assert!(s.roots.is_empty());
    assert!(s.receipts.is_empty());
    assert!(s.receipts_v2.is_empty());
}

#[test]
fn admin_gating_on_all_three_operations() {
    let mut s = fresh_state();
    let outsider = key(0x99);
    assert_eq!(
        s.set_epoch_root(&SetEpochRoot { admin: outsider }, 1, key(0x11)),
        Err(XessError::NotAdmin)
    );
    assert!(s.roots.is_empty());
    assert_eq!(s.set_admin(&SetAdmin { admin: outsider }, outsider), Err(XessError::NotAdmin));
    assert_eq!(s.config.admin, key(ADMIN));
    assert_eq!(s.set_mint(&SetMint { admin: outsider }, key(0x12)), Err(XessError::NotAdmin));
    assert_eq!(s.config.xess_mint, key(MINT));

    assert_eq!(s.set_epoch_root(&SetEpochRoot { admin: key(ADMIN) }, 1, key(0x11)), Ok(()));
    assert_eq!(s.roots.len(), 1);
    assert_eq!(s.roots[0].epoch, 1);
    assert_eq!(s.roots[0].root, key(0x11));
    assert_eq!(s.set_mint(&SetMint { admin: key(ADMIN) }, key(0x12)), Ok(()));
    assert_eq!(s.config.xess_mint, key(0x12));
    assert_eq!(s.set_admin(&SetAdmin { admin: key(ADMIN) }, key(0x13)), Ok(()));
    assert_eq!(s.config.admin, key(0x13));
    // the old administrator has lost the role
    assert_eq!(
        s.set_admin(&SetAdmin { admin: key(ADMIN) }, key(ADMIN)),
        Err(XessError::NotAdmin)
    );
}

#[test]
fn epoch_roots_are_create_once() {
    let mut s = fresh_state();
    assert_eq!(s.set_epoch_root(&SetEpochRoot { admin: key(ADMIN) }, 5, key(0x21)), Ok(()));
    assert_eq!(
        s.set_epoch_root(&SetEpochRoot { admin: key(ADMIN) }, 5, key(0x22)),
        Err(XessError::AlreadyExists)
    );
    assert_eq!(s.roots.len(), 1);
    assert_eq!(s.roots[0].root, key(0x21));
    assert_eq!(s.set_epoch_root(&SetEpochRoot { admin: key(ADMIN) }, 6, key(0x22)), Ok(()));
}

#[test]
fn epoch7_scenario_claim_transfer_and_double_claim() {
    let (mut s, leaves, _n01, n23) = state_with_epoch7();
    let mut accounts = accounts_for(WALLET_A, 1000, 5);
    let path = vec![leaves[1], n23];

    let r = s.claim(&mut accounts, 7, 100, 0, &path);
    assert_eq!(r, Ok(()));
    assert_eq!(accounts.vault_ata.amount, 900);
    assert_eq!(accounts.user_ata.amount, 105);
    assert_eq!(s.receipts.len(), 1);
    assert_eq!(s.receipts[0].epoch, 7);
    assert_eq!(s.receipts[0].claimer, key(WALLET_A));
    assert_eq!(s.receipts[0].amount, 100);
    assert_eq!(s.receipts[0].index, 0);

    // the identical resubmission fails on the create-once receipt
    let mut again = accounts_for(WALLET_A, 900, 105);
    assert_eq!(s.claim(&mut again, 7, 100, 0, &path), Err(XessError::AlreadyExists));
    assert_eq!(again.vault_ata.amount, 900);
    assert_eq!(again.user_ata.amount, 105);
    assert_eq!(s.receipts.len(), 1);
}

#[test]
fn claim_with_wrong_index_fails_bad_proof() {
    let (mut s, leaves, _n01, n23) = state_with_epoch7();
    let mut accounts = accounts_for(WALLET_A, 1000, 0);
    let path = vec![leaves[1], n23];
    assert_eq!(s.claim(&mut accounts, 7, 100, 1, &path), Err(XessError::BadProof));
    assert!(s.receipts.is_empty());
    assert_eq!(accounts.vault_ata.amount, 1000);
}

#[test]
fn claim_against_unpublished_epoch_fails_bad_epoch() {
    let (mut s, leaves, _n01, n23) = state_with_epoch7();
    let mut accounts = accounts_for(WALLET_A, 1000, 0);
    let path = vec![leaves[1], n23];
    assert_eq!(s.claim(&mut accounts, 8, 100, 0, &path), Err(XessError::BadEpoch));
}

#[test]
fn claim_with_wrong_mints_fails_bad_mint() {
    let (mut s, leaves, _n01, n23) = state_with_epoch7();
    let path = vec![leaves[1], n23];
    let mut accounts = accounts_for(WALLET_A, 1000, 0);
    accounts.vault_ata.mint = key(0x55);
    assert_eq!(s.claim(&mut accounts, 7, 100, 0, &path), Err(XessError::BadMint));
    let mut accounts = accounts_for(WALLET_A, 1000, 0);
    accounts.user_ata.mint = key(0x55);
    assert_eq!(s.claim(&mut accounts, 7, 100, 0, &path), Err(XessError::BadMint));
}

#[test]
fn claim_transfer_failure_conditions() {
    let (mut s, leaves, _n01, n23) = state_with_epoch7();
    let path = vec![leaves[1], n23];
    // a vault cell owned by someone other than the derived authority
    let mut accounts = accounts_for(WALLET_A, 1000, 0);
    accounts.vault_ata.owner = key(0x66);
    assert_eq!(s.claim(&mut accounts, 7, 100, 0, &path), Err(XessError::BadOwner));
    // an underfunded vault
    let mut accounts = accounts_for(WALLET_A, 99, 0);
    assert_eq!(s.claim(&mut accounts, 7, 100, 0, &path), Err(XessError::InsufficientBalance));
    // a destination balance that would overflow
    let mut accounts = accounts_for(WALLET_A, 1000, u64::MAX - 50);
    assert_eq!(s.claim(&mut accounts, 7, 100, 0, &path), Err(XessError::BalanceOverflow));
    // nothing was recorded by the failed attempts
    assert!(s.receipts.is_empty());
}

#[test]
fn distinct_wallets_never_collide() {
    let (mut s, leaves, n01, n23) = state_with_epoch7();
    let mut a = accounts_for(WALLET_A, 1000, 0);
    assert_eq!(s.claim(&mut a, 7, 100, 0, &vec![leaves[1], n23]), Ok(()));
    // A's receipt does not stand in B's way
    let mut b = accounts_for(WALLET_B, 900, 0);
    assert_eq!(s.claim(&mut b, 7, 200, 1, &vec![leaves[0], n23]), Ok(()));
    assert_eq!(b.user_ata.amount, 200);
    let mut c = accounts_for(WALLET_C, 700, 0);
    assert_eq!(s.claim(&mut c, 7, 50, 2, &vec![leaves[3], n01]), Ok(()));
    assert_eq!(s.receipts.len(), 3);
}

fn v2_accounts(wallet: u8, vault_balance: u64, user_balance: u64) -> ClaimV2 {
    ClaimV2 {
        claimer: key(wallet),
        vault_ata: TokenAccount { mint: key(MINT), owner: key(VAULT_AUTH), amount: vault_balance },
        user_ata: TokenAccount { mint: key(MINT), owner: key(wallet), amount: user_balance },
    }
}

/// A 2-leaf V2 tree for epoch 11: `[(K1, 300, 0, salt1), (K2, 400, 1, salt2)]`.
fn v2_tree() -> ([[u8; 32]; 2], [u8; 32]) {
    let leaves = [
        reference_leaf_v2(&key(0x41), 11, 300, 0, &key(0x71)),
        reference_leaf_v2(&key(0x42), 11, 400, 1, &key(0x72)),
    ];
    let root = pair(&leaves[0], &leaves[1]);
    (leaves, root)
}

#[test]
fn v2_claim_succeeds_and_is_keyed_by_user_key() {
    let (leaves, root) = v2_tree();
    let mut s = fresh_state();
    assert_eq!(s.set_epoch_root(&SetEpochRoot { admin: key(ADMIN) }, 11, root), Ok(()));

    let mut w1 = v2_accounts(WALLET_A, 1000, 0);
    let r = s.claim_v2(&mut w1, 11, 300, 0, key(0x41), key(0x71), &vec![leaves[1]]);
    assert_eq!(r, Ok(()));
    assert_eq!(w1.vault_ata.amount, 700);
    assert_eq!(w1.user_ata.amount, 300);
    assert_eq!(s.receipts_v2.len(), 1);
    assert_eq!(s.receipts_v2[0].epoch, 11);
    assert_eq!(s.receipts_v2[0].user_key, key(0x41));
    assert_eq!(s.receipts_v2[0].claimed_to, key(WALLET_A));
    assert_eq!(s.receipts_v2[0].amount, 300);

    // the same off-chain identity cannot redeem again, even to another wallet
    let mut w2 = v2_accounts(WALLET_B, 700, 0);
    assert_eq!(
        s.claim_v2(&mut w2, 11, 300, 0, key(0x41), key(0x71), &vec![leaves[1]]),
        Err(XessError::AlreadyExists)
    );
    assert_eq!(w2.user_ata.amount, 0);
    assert_eq!(s.receipts_v2.len(), 1);

    // a different off-chain identity still redeems, from any wallet it likes
    let mut w2 = v2_accounts(WALLET_B, 700, 0);
    assert_eq!(
        s.claim_v2(&mut w2, 11, 400, 1, key(0x42), key(0x72), &vec![leaves[0]]),
        Ok(())
    );
    assert_eq!(w2.user_ata.amount, 400);
}

#[test]
fn v2_ownership_checks() {
    let (leaves, root) = v2_tree();
    let mut s = fresh_state();
    assert_eq!(s.set_epoch_root(&SetEpochRoot { admin: key(ADMIN) }, 11, root), Ok(()));

    // the destination cell must be owned by the caller
    let mut a = v2_accounts(WALLET_A, 1000, 0);
    a.user_ata.owner = key(WALLET_B);
    assert_eq!(
        s.claim_v2(&mut a, 11, 300, 0, key(0x41), key(0x71), &vec![leaves[1]]),
        Err(XessError::BadOwner)
    );

    // the vault cell must be owned by the derived authority
    let mut a = v2_accounts(WALLET_A, 1000, 0);
    a.vault_ata.owner = key(0x66);
    assert_eq!(
        s.claim_v2(&mut a, 11, 300, 0, key(0x41), key(0x71), &vec![leaves[1]]),
        Err(XessError::BadOwner)
    );

    // a wrong salt is a wrong leaf, so a bad proof
    let mut a = v2_accounts(WALLET_A, 1000, 0);
    assert_eq!(
        s.claim_v2(&mut a, 11, 300, 0, key(0x41), key(0x79), &vec![leaves[1]]),
        Err(XessError::BadProof)
    );
    assert!(s.receipts_v2.is_empty());
}

#[test]
fn v1_and_v2_ledgers_are_separate() {
    let (leaves, _n01, n23, root) = epoch7_tree();
    let mut s = fresh_state();
    assert_eq!(s.set_epoch_root(&SetEpochRoot { admin: key(ADMIN) }, 7, root), Ok(()));
    let mut a = accounts_for(WALLET_A, 1000, 0);
    assert_eq!(s.claim(&mut a, 7, 100, 0, &vec![leaves[1], n23]), Ok(()));
    assert_eq!(s.receipts.len(), 1);
    assert_eq!(s.receipts_v2.len(), 0);
}

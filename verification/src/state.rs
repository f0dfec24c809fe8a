//! The engine's persistent records and the six instruction transitions.
//!
//! The deployment's state is a single configuration record, a create-once
//! registry of epoch roots, and a create-once ledger of receipts. Every
//! operation either fully applies its transition or fails with an error and
//! leaves every record and account exactly as it was.

use vstd::prelude::*;
use crate::hash::bytes32_eq;
use crate::merkle::{
    leaf_hash, leaf_hash_v2, merkle_verifies, spec_leaf_hash, spec_leaf_hash_v2, verify_merkle,
};

verus! {

/// Why an invocation was rejected. A rejected invocation changes nothing.
#[derive(Clone, Copy, PartialEq, Eq, Structural, Debug)]
pub enum XessError {
    /// The caller is not the stored administrator.
    NotAdmin,
    /// No published root matches the supplied epoch.
    BadEpoch,
    /// The recomputed Merkle root differs from the published root.
    BadProof,
    /// A token account's asset type differs from the configured one.
    BadMint,
    /// A token account's registered owner differs from the expected identity.
    BadOwner,
    /// The addressed create-once record already exists.
    AlreadyExists,
    /// The vault holds less than the requested amount.
    InsufficientBalance,
    /// Crediting the destination would overflow its balance.
    BalanceOverflow,
}

/// The singleton configuration: administrator, accepted asset type, and the
/// signing authority re-derived from the configuration's address and the
/// stored derivation parameter.
#[derive(Clone, Copy, Debug)]
pub struct Config {
    pub admin: [u8; 32],
    pub xess_mint: [u8; 32],
    pub vault_authority: [u8; 32],
    pub vault_authority_bump: u8,
}

/// One create-once registry entry: the Merkle root published for an epoch.
#[derive(Clone, Copy, Debug)]
pub struct EpochRoot {
    pub epoch: u64,
    pub root: [u8; 32],
}

/// A wallet-identity claim receipt, keyed by (epoch, claimer).
#[derive(Clone, Copy, Debug)]
pub struct Receipt {
    pub epoch: u64,
    pub claimer: [u8; 32],
    pub amount: u64,
    pub index: u32,
}

/// An off-chain-identity claim receipt, keyed by (epoch, user_key); the
/// receiving wallet is recorded but plays no part in the key.
#[derive(Clone, Copy, Debug)]
pub struct ReceiptV2 {
    pub epoch: u64,
    pub user_key: [u8; 32],
    pub claimed_to: [u8; 32],
    pub amount: u64,
    pub index: u32,
}

/// A fungible-token balance cell: its asset type, registered owner, and
/// balance.
#[derive(Clone, Copy, Debug)]
pub struct TokenAccount {
    pub mint: [u8; 32],
    pub owner: [u8; 32],
    pub amount: u64,
}

/// The per-call inputs of `initialize`: the asset-type descriptor and the
/// derived signing authority with its derivation parameter.
#[derive(Clone, Copy, Debug)]
pub struct Initialize {
    pub xess_mint: [u8; 32],
    pub vault_authority: [u8; 32],
    pub vault_authority_bump: u8,
}

/// The per-call inputs of `set_epoch_root`: the signing caller.
#[derive(Clone, Copy, Debug)]
pub struct SetEpochRoot {
    pub admin: [u8; 32],
}

/// The per-call inputs of `set_admin`: the signing caller.
#[derive(Clone, Copy, Debug)]
pub struct SetAdmin {
    pub admin: [u8; 32],
}

/// The per-call inputs of `set_mint`: the signing caller.
#[derive(Clone, Copy, Debug)]
pub struct SetMint {
    pub admin: [u8; 32],
}

/// The per-call accounts of `claim`: the signing claimant wallet, the vault's
/// balance cell and the claimant's balance cell.
#[derive(Clone, Copy, Debug)]
pub struct Claim {
    pub claimer: [u8; 32],
    pub vault_ata: TokenAccount,
    pub user_ata: TokenAccount,
}

/// The per-call accounts of `claim_v2`: the signing destination wallet, the
/// vault's balance cell and the destination balance cell.
#[derive(Clone, Copy, Debug)]
pub struct ClaimV2 {
    pub claimer: [u8; 32],
    pub vault_ata: TokenAccount,
    pub user_ata: TokenAccount,
}

/// The whole deployment's records.
pub struct ClaimState {
    pub config: Config,
    pub roots: Vec<EpochRoot>,
    pub receipts: Vec<Receipt>,
    pub receipts_v2: Vec<ReceiptV2>,
}

/// The mathematical content of a `ClaimState`.
pub ghost struct StateView {
    pub config: Config,
    pub roots: Seq<EpochRoot>,
    pub receipts: Seq<Receipt>,
    pub receipts_v2: Seq<ReceiptV2>,
}

impl View for ClaimState {
    type V = StateView;

    open spec fn view(&self) -> StateView {
        StateView {
            config: self.config,
            roots: self.roots@,
            receipts: self.receipts@,
            receipts_v2: self.receipts_v2@,
        }
    }
}

impl StateView {
    /// Every create-once key is held by at most one record: epochs in the
    /// registry, (epoch, claimer) among receipts, (epoch, user_key) among
    /// V2 receipts.
    pub open spec fn wf(self) -> bool {
        &&& forall|i: int, j: int|
            0 <= i < j < self.roots.len() ==> self.roots[i].epoch != self.roots[j].epoch
        &&& forall|i: int, j: int|
            0 <= i < j < self.receipts.len() ==> !(self.receipts[i].epoch
                == self.receipts[j].epoch && self.receipts[i].claimer@
                == self.receipts[j].claimer@)
        &&& forall|i: int, j: int|
            0 <= i < j < self.receipts_v2.len() ==> !(self.receipts_v2[i].epoch
                == self.receipts_v2[j].epoch && self.receipts_v2[i].user_key@
                == self.receipts_v2[j].user_key@)
    }
}

/// A root has been published for `epoch`.
pub open spec fn has_root(s: StateView, epoch: u64) -> bool {
    exists|i: int| 0 <= i < s.roots.len() && s.roots[i].epoch == epoch
}

/// The root published for `epoch` (meaningful when `has_root` and `wf` hold).
pub open spec fn root_for(s: StateView, epoch: u64) -> Seq<u8> {
    let i = choose|i: int| 0 <= i < s.roots.len() && s.roots[i].epoch == epoch;
    s.roots[i].root@
}

/// A wallet-identity receipt exists for (epoch, claimer).
pub open spec fn has_v1_receipt(s: StateView, epoch: u64, claimer: Seq<u8>) -> bool {
    exists|i: int|
        0 <= i < s.receipts.len() && s.receipts[i].epoch == epoch && s.receipts[i].claimer@
            == claimer
}

/// An off-chain-identity receipt exists for (epoch, user_key).
pub open spec fn has_v2_receipt(s: StateView, epoch: u64, user_key: Seq<u8>) -> bool {
    exists|i: int|
        0 <= i < s.receipts_v2.len() && s.receipts_v2[i].epoch == epoch
            && s.receipts_v2[i].user_key@ == user_key
}

/// Why `set_epoch_root` rejects, or `None` when it succeeds.
pub open spec fn set_epoch_root_err(s: StateView, caller: Seq<u8>, epoch: u64) -> Option<
    XessError,
> {
    if caller != s.config.admin@ {
        Some(XessError::NotAdmin)
    } else if has_root(s, epoch) {
        Some(XessError::AlreadyExists)
    } else {
        None
    }
}

/// Why `claim` rejects, or `None` when it succeeds. The conditions are
/// ordered as the protocol checks them: epoch binding, proof, asset types,
/// the create-once receipt, then the transfer's own failure conditions.
pub open spec fn v1_claim_err(
    s: StateView,
    a: Claim,
    epoch: u64,
    amount: u64,
    index: u32,
    path: Seq<Seq<u8>>,
) -> Option<XessError> {
    if !has_root(s, epoch) {
        Some(XessError::BadEpoch)
    } else if !merkle_verifies(
        spec_leaf_hash(a.claimer@, epoch, amount, index),
        path,
        root_for(s, epoch),
        index as nat,
    ) {
        Some(XessError::BadProof)
    } else if a.vault_ata.mint@ != s.config.xess_mint@ {
        Some(XessError::BadMint)
    } else if a.user_ata.mint@ != s.config.xess_mint@ {
        Some(XessError::BadMint)
    } else if has_v1_receipt(s, epoch, a.claimer@) {
        Some(XessError::AlreadyExists)
    } else if a.vault_ata.owner@ != s.config.vault_authority@ {
        Some(XessError::BadOwner)
    } else if a.vault_ata.amount < amount {
        Some(XessError::InsufficientBalance)
    } else if a.user_ata.amount as int + amount as int > u64::MAX as int {
        Some(XessError::BalanceOverflow)
    } else {
        None
    }
}

/// The records after a successful `claim`: one new receipt, nothing else.
pub open spec fn v1_post_state(
    s: StateView,
    a: Claim,
    epoch: u64,
    amount: u64,
    index: u32,
) -> StateView {
    StateView {
        receipts: s.receipts.push(
            Receipt { epoch, claimer: a.claimer, amount, index },
        ),
        ..s
    }
}

/// The accounts after a successful `claim`: the vault debited and the
/// claimant credited by the claimed amount.
pub open spec fn v1_post_accounts(a: Claim, amount: u64) -> Claim {
    Claim {
        vault_ata: TokenAccount { amount: (a.vault_ata.amount - amount) as u64, ..a.vault_ata },
        user_ata: TokenAccount { amount: (a.user_ata.amount + amount) as u64, ..a.user_ata },
        ..a
    }
}

/// Why `claim_v2` rejects, or `None` when it succeeds, in the order the
/// protocol checks them: epoch binding, destination ownership, proof, asset
/// types, vault ownership, the create-once receipt, then the transfer's own
/// failure conditions.
pub open spec fn v2_claim_err(
    s: StateView,
    a: ClaimV2,
    epoch: u64,
    amount: u64,
    index: u32,
    user_key: [u8; 32],
    salt: [u8; 32],
    path: Seq<Seq<u8>>,
) -> Option<XessError> {
    if !has_root(s, epoch) {
        Some(XessError::BadEpoch)
    } else if a.user_ata.owner@ != a.claimer@ {
        Some(XessError::BadOwner)
    } else if !merkle_verifies(
        spec_leaf_hash_v2(user_key@, epoch, amount, index, salt@),
        path,
        root_for(s, epoch),
        index as nat,
    ) {
        Some(XessError::BadProof)
    } else if a.vault_ata.mint@ != s.config.xess_mint@ {
        Some(XessError::BadMint)
    } else if a.user_ata.mint@ != s.config.xess_mint@ {
        Some(XessError::BadMint)
    } else if a.vault_ata.owner@ != s.config.vault_authority@ {
        Some(XessError::BadOwner)
    } else if has_v2_receipt(s, epoch, user_key@) {
        Some(XessError::AlreadyExists)
    } else if a.vault_ata.amount < amount {
        Some(XessError::InsufficientBalance)
    } else if a.user_ata.amount as int + amount as int > u64::MAX as int {
        Some(XessError::BalanceOverflow)
    } else {
        None
    }
}

/// The records after a successful `claim_v2`: one new V2 receipt recording
/// the receiving wallet, nothing else.
pub open spec fn v2_post_state(
    s: StateView,
    a: ClaimV2,
    epoch: u64,
    amount: u64,
    index: u32,
    user_key: [u8; 32],
) -> StateView {
    StateView {
        receipts_v2: s.receipts_v2.push(
            ReceiptV2 { epoch, user_key, claimed_to: a.claimer, amount, index },
        ),
        ..s
    }
}

/// The accounts after a successful `claim_v2`.
pub open spec fn v2_post_accounts(a: ClaimV2, amount: u64) -> ClaimV2 {
    ClaimV2 {
        vault_ata: TokenAccount { amount: (a.vault_ata.amount - amount) as u64, ..a.vault_ata },
        user_ata: TokenAccount { amount: (a.user_ata.amount + amount) as u64, ..a.user_ata },
        ..a
    }
}

/// Publishing a root for a fresh epoch keeps the registry's keys unique.
pub proof fn lemma_push_root_wf(s: StateView, entry: EpochRoot)
    requires
        s.wf(),
        !has_root(s, entry.epoch),
    ensures
        (StateView { roots: s.roots.push(entry), ..s }).wf(),
{
    let t = StateView { roots: s.roots.push(entry), ..s };
    assert forall|i: int, j: int| 0 <= i < j < t.roots.len() implies t.roots[i].epoch
        != t.roots[j].epoch by {
        assert(t.roots[i] == s.roots.push(entry)[i]);
        if j < s.roots.len() {
            assert(s.roots[i].epoch != s.roots[j].epoch);
        } else {
            assert(t.roots[j] == entry);
            if s.roots[i].epoch == entry.epoch {
                assert(has_root(s, entry.epoch));
            }
        }
    }
}

/// Appending a receipt whose (epoch, claimer) key is absent keeps the
/// ledger's keys unique.
pub proof fn lemma_push_receipt_wf(s: StateView, rec: Receipt)
    requires
        s.wf(),
        !has_v1_receipt(s, rec.epoch, rec.claimer@),
    ensures
        (StateView { receipts: s.receipts.push(rec), ..s }).wf(),
{
    let t = StateView { receipts: s.receipts.push(rec), ..s };
    assert forall|i: int, j: int| 0 <= i < j < t.receipts.len() implies !(t.receipts[i].epoch
        == t.receipts[j].epoch && t.receipts[i].claimer@ == t.receipts[j].claimer@) by {
        assert(t.receipts[i] == s.receipts.push(rec)[i]);
        if j < s.receipts.len() {
            assert(!(s.receipts[i].epoch == s.receipts[j].epoch && s.receipts[i].claimer@
                == s.receipts[j].claimer@));
        } else {
            assert(t.receipts[j] == rec);
            if s.receipts[i].epoch == rec.epoch && s.receipts[i].claimer@ == rec.claimer@ {
                assert(has_v1_receipt(s, rec.epoch, rec.claimer@));
            }
        }
    }
}

/// Appending a V2 receipt whose (epoch, user_key) key is absent keeps the
/// ledger's keys unique.
pub proof fn lemma_push_receipt_v2_wf(s: StateView, rec: ReceiptV2)
    requires
        s.wf(),
        !has_v2_receipt(s, rec.epoch, rec.user_key@),
    ensures
        (StateView { receipts_v2: s.receipts_v2.push(rec), ..s }).wf(),
{
    let t = StateView { receipts_v2: s.receipts_v2.push(rec), ..s };
    assert forall|i: int, j: int| 0 <= i < j < t.receipts_v2.len() implies !(
    t.receipts_v2[i].epoch == t.receipts_v2[j].epoch && t.receipts_v2[i].user_key@
        == t.receipts_v2[j].user_key@) by {
        assert(t.receipts_v2[i] == s.receipts_v2.push(rec)[i]);
        if j < s.receipts_v2.len() {
            assert(!(s.receipts_v2[i].epoch == s.receipts_v2[j].epoch && s.receipts_v2[i].user_key@
                == s.receipts_v2[j].user_key@));
        } else {
            assert(t.receipts_v2[j] == rec);
            if s.receipts_v2[i].epoch == rec.epoch && s.receipts_v2[i].user_key@ == rec.user_key@ {
                assert(has_v2_receipt(s, rec.epoch, rec.user_key@));
            }
        }
    }
}

impl ClaimState {
    /// Bootstrap: the one-time creation of the configuration record, with
    /// empty registry and ledger.
    pub fn initialize(accounts: &Initialize, admin: [u8; 32]) -> (s: ClaimState)
        ensures
            s@.config == (Config {
                admin,
                xess_mint: accounts.xess_mint,
                vault_authority: accounts.vault_authority,
                vault_authority_bump: accounts.vault_authority_bump,
            }),
            s@.roots =~= Seq::<EpochRoot>::empty(),
            s@.receipts =~= Seq::<Receipt>::empty(),
            s@.receipts_v2 =~= Seq::<ReceiptV2>::empty(),
            s@.wf(),
    {
        ClaimState {
            config: Config {
                admin,
                xess_mint: accounts.xess_mint,
                vault_authority: accounts.vault_authority,
                vault_authority_bump: accounts.vault_authority_bump,
            },
            roots: Vec::new(),
            receipts: Vec::new(),
            receipts_v2: Vec::new(),
        }
    }

    /// The registry entry published for `epoch`, if any.
    fn find_root(&self, epoch: u64) -> (r: Option<EpochRoot>)
        requires
            self@.wf(),
        ensures
            match r {
                Some(e) => has_root(self@, epoch) && e.epoch == epoch && e.root@ == root_for(
                    self@,
                    epoch,
                ),
                None => !has_root(self@, epoch),
            },
    {
        let mut i: usize = 0;
        while i < self.roots.len()
            invariant
                self@.wf(),
                0 <= i <= self@.roots.len(),
                forall|j: int| 0 <= j < i ==> self@.roots[j].epoch != epoch,
            decreases self@.roots.len() - i,
        {
            if self.roots[i].epoch == epoch {
                proof {
                    assert(has_root(self@, epoch));
                    let k = choose|k: int|
                        0 <= k < self@.roots.len() && self@.roots[k].epoch == epoch;
                    if k < i as int {
                        assert(self@.roots[k].epoch != epoch);
                    } else if (i as int) < k {
                        assert(self@.roots[i as int].epoch != self@.roots[k].epoch);
                    }
                    assert(k == i);
                }
                return Some(self.roots[i]);
            }
            i += 1;
        }
        None
    }

    /// A wallet-identity receipt exists for (epoch, claimer).
    fn receipt_exists(&self, epoch: u64, claimer: &[u8; 32]) -> (r: bool)
        ensures
            r == has_v1_receipt(self@, epoch, claimer@),
    {
        let mut i: usize = 0;
        while i < self.receipts.len()
            invariant
                0 <= i <= self@.receipts.len(),
                forall|j: int|
                    0 <= j < i ==> !(self@.receipts[j].epoch == epoch
                        && self@.receipts[j].claimer@ == claimer@),
            decreases self@.receipts.len() - i,
        {
            if self.receipts[i].epoch == epoch && bytes32_eq(&self.receipts[i].claimer, claimer) {
                return true;
            }
            i += 1;
        }
        false
    }

    /// An off-chain-identity receipt exists for (epoch, user_key).
    fn receipt_v2_exists(&self, epoch: u64, user_key: &[u8; 32]) -> (r: bool)
        ensures
            r == has_v2_receipt(self@, epoch, user_key@),
    {
        let mut i: usize = 0;
        while i < self.receipts_v2.len()
            invariant
                0 <= i <= self@.receipts_v2.len(),
                forall|j: int|
                    0 <= j < i ==> !(self@.receipts_v2[j].epoch == epoch
                        && self@.receipts_v2[j].user_key@ == user_key@),
            decreases self@.receipts_v2.len() - i,
        {
            if self.receipts_v2[i].epoch == epoch && bytes32_eq(
                &self.receipts_v2[i].user_key,
                user_key,
            ) {
                return true;
            }
            i += 1;
        }
        false
    }

    /// Publishes the root for a fresh epoch; admin-gated and create-once.
    pub fn set_epoch_root(
        &mut self,
        accounts: &SetEpochRoot,
        epoch: u64,
        root: [u8; 32],
    ) -> (r: Result<(), XessError>)
        requires
            old(self)@.wf(),
        ensures
            final(self)@.wf(),
            match set_epoch_root_err(old(self)@, accounts.admin@, epoch) {
                Some(e) => r == Result::<(), XessError>::Err(e) && final(self)@ == old(self)@,
                None => r == Result::<(), XessError>::Ok(()) && final(self)@ == (StateView {
                    roots: old(self)@.roots.push(EpochRoot { epoch, root }),
                    ..old(self)@
                }),
            },
    {
        if !bytes32_eq(&accounts.admin, &self.config.admin) {
            return Err(XessError::NotAdmin);
        }
        if self.find_root(epoch).is_some() {
            return Err(XessError::AlreadyExists);
        }
        self.roots.push(EpochRoot { epoch, root });
        proof {
            lemma_push_root_wf(old(self)@, EpochRoot { epoch, root });
            assert(self@ == (StateView {
                roots: old(self)@.roots.push(EpochRoot { epoch, root }),
                ..old(self)@
            }));
        }
        Ok(())
    }

    /// Rotates the administrator identity; admin-gated.
    pub fn set_admin(&mut self, accounts: &SetAdmin, new_admin: [u8; 32]) -> (r: Result<
        (),
        XessError,
    >)
        requires
            old(self)@.wf(),
        ensures
            final(self)@.wf(),
            accounts.admin@ != old(self)@.config.admin@ ==> r == Result::<(), XessError>::Err(
                XessError::NotAdmin,
            ) && final(self)@ == old(self)@,
            accounts.admin@ == old(self)@.config.admin@ ==> r == Result::<(), XessError>::Ok(())
                && final(self)@ == (StateView {
                config: Config { admin: new_admin, ..old(self)@.config },
                ..old(self)@
            }),
    {
        if !bytes32_eq(&accounts.admin, &self.config.admin) {
            return Err(XessError::NotAdmin);
        }
        self.config.admin = new_admin;
        Ok(())
    }

    /// Rotates the accepted asset type; admin-gated.
    pub fn set_mint(&mut self, accounts: &SetMint, new_mint: [u8; 32]) -> (r: Result<
        (),
        XessError,
    >)
        requires
            old(self)@.wf(),
        ensures
            final(self)@.wf(),
            accounts.admin@ != old(self)@.config.admin@ ==> r == Result::<(), XessError>::Err(
                XessError::NotAdmin,
            ) && final(self)@ == old(self)@,
            accounts.admin@ == old(self)@.config.admin@ ==> r == Result::<(), XessError>::Ok(())
                && final(self)@ == (StateView {
                config: Config { xess_mint: new_mint, ..old(self)@.config },
                ..old(self)@
            }),
    {
        if !bytes32_eq(&accounts.admin, &self.config.admin) {
            return Err(XessError::NotAdmin);
        }
        self.config.xess_mint = new_mint;
        Ok(())
    }

    /// The wallet-identity claim protocol: binds the epoch, verifies the
    /// Merkle proof for the caller's wallet, creates the create-once receipt,
    /// and moves the claimed amount from the vault to the caller. All or
    /// nothing: on any error every record and account is unchanged.
    pub fn claim(
        &mut self,
        accounts: &mut Claim,
        epoch: u64,
        amount: u64,
        index: u32,
        proof_nodes: &Vec<[u8; 32]>,
    ) -> (r: Result<(), XessError>)
        requires
            old(self)@.wf(),
        ensures
            final(self)@.wf(),
            ({
                let path = proof_nodes@.map_values(|p: [u8; 32]| p@);
                match v1_claim_err(old(self)@, *old(accounts), epoch, amount, index, path) {
                    Some(e) => r == Result::<(), XessError>::Err(e) && final(self)@ == old(self)@
                        && *final(accounts) == *old(accounts),
                    None => r == Result::<(), XessError>::Ok(()) && final(self)@ == v1_post_state(
                        old(self)@,
                        *old(accounts),
                        epoch,
                        amount,
                        index,
                    ) && *final(accounts) == v1_post_accounts(*old(accounts), amount),
                }
            }),
    {
        let root_entry = match self.find_root(epoch) {
            Some(e) => e,
            None => {
                return Err(XessError::BadEpoch);
            },
        };
        let leaf = leaf_hash(&accounts.claimer, epoch, amount, index);
        if !verify_merkle(leaf, proof_nodes, root_entry.root, index) {
            return Err(XessError::BadProof);
        }
        if !bytes32_eq(&accounts.vault_ata.mint, &self.config.xess_mint) {
            return Err(XessError::BadMint);
        }
        if !bytes32_eq(&accounts.user_ata.mint, &self.config.xess_mint) {
            return Err(XessError::BadMint);
        }
        if self.receipt_exists(epoch, &accounts.claimer) {
            return Err(XessError::AlreadyExists);
        }
        if !bytes32_eq(&accounts.vault_ata.owner, &self.config.vault_authority) {
            return Err(XessError::BadOwner);
        }
        if accounts.vault_ata.amount < amount {
            return Err(XessError::InsufficientBalance);
        }
        if amount > u64::MAX - accounts.user_ata.amount {
            return Err(XessError::BalanceOverflow);
        }
        self.receipts.push(
            Receipt { epoch, claimer: accounts.claimer, amount, index },
        );
        accounts.vault_ata.amount = accounts.vault_ata.amount - amount;
        accounts.user_ata.amount = accounts.user_ata.amount + amount;
        proof {
            let rec = Receipt { epoch, claimer: old(accounts).claimer, amount, index };
            lemma_push_receipt_wf(old(self)@, rec);
            assert(self@ == (StateView {
                receipts: old(self)@.receipts.push(rec),
                ..old(self)@
            }));
        }
        Ok(())
    }

    /// The off-chain-identity claim protocol: binds the epoch, checks that
    /// the destination is owned by the caller and the vault by the derived
    /// authority, verifies the Merkle proof for (user_key, salt), creates the
    /// create-once receipt keyed by the off-chain identity, and moves the
    /// claimed amount. All or nothing: on any error every record and account
    /// is unchanged.
    pub fn claim_v2(
        &mut self,
        accounts: &mut ClaimV2,
        epoch: u64,
        amount: u64,
        index: u32,
        user_key: [u8; 32],
        salt: [u8; 32],
        proof_nodes: &Vec<[u8; 32]>,
    ) -> (r: Result<(), XessError>)
        requires
            old(self)@.wf(),
        ensures
            final(self)@.wf(),
            ({
                let path = proof_nodes@.map_values(|p: [u8; 32]| p@);
                match v2_claim_err(
                    old(self)@,
                    *old(accounts),
                    epoch,
                    amount,
                    index,
                    user_key,
                    salt,
                    path,
                ) {
                    Some(e) => r == Result::<(), XessError>::Err(e) && final(self)@ == old(self)@
                        && *final(accounts) == *old(accounts),
                    None => r == Result::<(), XessError>::Ok(()) && final(self)@ == v2_post_state(
                        old(self)@,
                        *old(accounts),
                        epoch,
                        amount,
                        index,
                        user_key,
                    ) && *final(accounts) == v2_post_accounts(*old(accounts), amount),
                }
            }),
    {
        let root_entry = match self.find_root(epoch) {
            Some(e) => e,
            None => {
                return Err(XessError::BadEpoch);
            },
        };
        if !bytes32_eq(&accounts.user_ata.owner, &accounts.claimer) {
            return Err(XessError::BadOwner);
        }
        let leaf = leaf_hash_v2(&user_key, epoch, amount, index, &salt);
        if !verify_merkle(leaf, proof_nodes, root_entry.root, index) {
            return Err(XessError::BadProof);
        }
        if !bytes32_eq(&accounts.vault_ata.mint, &self.config.xess_mint) {
            return Err(XessError::BadMint);
        }
        if !bytes32_eq(&accounts.user_ata.mint, &self.config.xess_mint) {
            return Err(XessError::BadMint);
        }
        if !bytes32_eq(&accounts.vault_ata.owner, &self.config.vault_authority) {
            return Err(XessError::BadOwner);
        }
        if self.receipt_v2_exists(epoch, &user_key) {
            return Err(XessError::AlreadyExists);
        }
        if accounts.vault_ata.amount < amount {
            return Err(XessError::InsufficientBalance);
        }
        if amount > u64::MAX - accounts.user_ata.amount {
            return Err(XessError::BalanceOverflow);
        }
        self.receipts_v2.push(
            ReceiptV2 { epoch, user_key, claimed_to: accounts.claimer, amount, index },
        );
        accounts.vault_ata.amount = accounts.vault_ata.amount - amount;
        accounts.user_ata.amount = accounts.user_ata.amount + amount;
        proof {
            let rec = ReceiptV2 {
                epoch,
                user_key,
                claimed_to: old(accounts).claimer,
                amount,
                index,
            };
            lemma_push_receipt_v2_wf(old(self)@, rec);
            assert(self@ == (StateView {
                receipts_v2: old(self)@.receipts_v2.push(rec),
                ..old(self)@
            }));
        }
        Ok(())
    }
}

} // verus!

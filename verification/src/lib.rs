//! A Merkle-committed airdrop claim engine: an administrator publishes one
//! root per distribution epoch, recipients prove membership in the committed
//! allocation table and withdraw their allocation exactly once, under either
//! a wallet identity or a salted off-chain identity. Every operation carries
//! a contract that pins its result and its effect on the records.

pub mod hash;
pub mod laws;
pub mod merkle;
pub mod state;
pub mod tree;

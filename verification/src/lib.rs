//! Cached on-chain accounts for decentralised exchanges on Solana.
//!
//! An account is kept as its raw bytes together with the value decoded from
//! them. A pool groups the accounts that belong to one exchange instance,
//! derives the addresses of its dependent accounts, and is refreshed from the
//! answers of batched fetches.
pub mod common;
pub mod mint;
pub mod orca;

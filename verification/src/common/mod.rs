//! Abstractions shared by every exchange: account keys, byte sources, cached
//! accounts and pools.
pub mod account;
pub mod account_map;
pub mod deserialize;
pub mod key;
pub mod pool;
pub mod rpc;
pub mod state;

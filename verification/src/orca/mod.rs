//! Orca Whirlpools: address derivation and the pool of cached accounts.
pub mod deserialize;
pub mod pda;
pub mod pool;

//! SPL token mints.
pub mod deserialize;

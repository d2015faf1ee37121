//! The message interpreter of a Filecoin node: which messages of a tipset are executed, in which
//! order, and what becomes of their results; and the cache of blocks known to be bad.

pub mod actors;
pub mod amount;
pub mod bad_block_cache;
pub mod cron;
pub mod error;
pub mod execution;
pub mod identifiers;
pub mod laws;
pub mod message;
pub mod receipt;
pub mod step_laws;
pub mod tipset;
pub mod value_laws;
pub mod vm;

//! Watching a shared feed: the stream buffer, discovery rules and relay records.

pub mod buffer;
pub mod core_abi;
pub mod discovery;
pub mod records;
pub mod transport;

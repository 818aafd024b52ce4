//! The record of transfers: the log on disk and the replica of the wallets
//! that it backs.

pub mod events;
pub mod replica_manager;
pub mod store;

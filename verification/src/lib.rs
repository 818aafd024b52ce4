//! The core of a storage and value-transfer node: chunk replication over an
//! XOR address space, payment-gated writes, a replica of the section wallet,
//! and the role state machine of a node, with every rule stated as a contract.

pub mod adult;
pub mod chunk_store;
pub mod codec;
pub mod crypto;
pub mod data_handler;
pub mod handler;
pub mod holder;
pub mod holder_index;
pub mod messages;
pub mod mock_crust_detail;
pub mod msg_wrapping;
pub mod name;
pub mod node;
pub mod payment;
pub mod transfers;

//! A single-node ledger with Ethereum semantics and the confidential
//! execution context that is threaded through every mined block.

pub mod primitives;
pub mod hashing;
pub mod transaction;
pub mod receipt;
pub mod error;
pub mod decode;
pub mod filter;
pub mod keys;
pub mod confidential;
pub mod chain_state;
pub mod blockchain;
pub mod execution;
pub mod text;
pub mod rpc_apis;
pub mod web3;
pub mod pubsub;
pub mod chain_lemmas;
pub mod eth_filter;
pub mod shutdown;
pub mod rich;

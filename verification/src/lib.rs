//! A small client layer for an EVM-compatible chain: amounts and fee
//! policies, key handling and signing, the submission state machine and
//! batched read calls. Network traffic is left to the caller.

pub mod abi;
pub mod amount;
pub mod batch;
pub mod error;
pub mod fees;
pub mod primitives;
pub mod reader;
pub mod signer;
pub mod submitter;
pub mod transaction;

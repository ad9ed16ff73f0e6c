//! Transaction requests, signatures, signed transactions and receipts.

use vstd::prelude::*;
use crate::amount::Wei;
use crate::fees::{GasPolicy, TRANSFER_GAS_LIMIT};
use crate::primitives::{Address, Hash32};

verus! {

/// A transfer of value that is to be signed and handed to the node.
#[derive(Clone, Copy, Debug, PartialEq, Eq)]
pub struct TransactionRequest {
    pub from: Address,
    pub to: Address,
    pub value: Wei,
    pub gas_limit: u64,
    pub gas_policy: GasPolicy,
    pub chain_id: u64,
    /// The sender's transaction count; the submitter fills it in where it
    /// is absent.
    pub nonce: Option<u64>,
}

impl TransactionRequest {
    /// A plain transfer: the gas limit is that of a transfer between two
    /// accounts, and the nonce is left open.
    pub fn transfer(
        from: Address,
        to: Address,
        value: Wei,
        gas_policy: GasPolicy,
        chain_id: u64,
    ) -> (r: TransactionRequest)
        ensures
            r == (TransactionRequest {
                from,
                to,
                value,
                gas_limit: TRANSFER_GAS_LIMIT,
                gas_policy,
                chain_id,
                nonce: None,
            }),
    {
        TransactionRequest {
            from,
            to,
            value,
            gas_limit: TRANSFER_GAS_LIMIT,
            gas_policy,
            chain_id,
            nonce: None,
        }
    }

    /// The same request with another gas limit.
    pub fn with_gas_limit(self, gas_limit: u64) -> (r: TransactionRequest)
        ensures
            r == (TransactionRequest { gas_limit, ..self }),
    {
        TransactionRequest { gas_limit, ..self }
    }

    /// The same request with its nonce set.
    pub fn with_nonce(self, nonce: u64) -> (r: TransactionRequest)
        ensures
            r == (TransactionRequest { nonce: Some(nonce), ..self }),
    {
        TransactionRequest { nonce: Some(nonce), ..self }
    }

    /// The request with its nonce filled in from the sender's transaction
    /// count where it had none; a nonce that is set stays.
    pub fn fill_nonce(self, next_nonce: u64) -> (r: TransactionRequest)
        ensures
            r.nonce == Some(
                match self.nonce {
                    Some(n) => n,
                    None => next_nonce,
                },
            ),
            r == (TransactionRequest { nonce: r.nonce, ..self }),
    {
        match self.nonce {
            Some(_) => self,
            None => TransactionRequest { nonce: Some(next_nonce), ..self },
        }
    }
}

/// An ECDSA signature over secp256k1: `r` and `s` as four 64-bit limbs
/// each, least significant first, and the recovery value `v`.
#[derive(Clone, Copy, Debug, PartialEq, Eq)]
pub struct Signature {
    pub r: [u64; 4],
    pub s: [u64; 4],
    pub v: u64,
}

/// Whether the transaction did what it was sent to do.
#[derive(Clone, Copy, Debug, PartialEq, Eq, Structural)]
pub enum ExecutionStatus {
    Success,
    Failure,
}

/// What the chain records of a transaction that a block includes.
#[derive(Clone, Copy, Debug, PartialEq, Eq)]
pub struct Receipt {
    pub transaction_hash: Hash32,
    /// The block that holds the transaction; absent while it is not
    /// mined.
    pub block_number: Option<u64>,
    pub gas_used: Wei,
    pub status: ExecutionStatus,
}

} // verus!

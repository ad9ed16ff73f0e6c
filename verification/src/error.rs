//! The failures that the client reports.

use vstd::prelude::*;

verus! {

/// Why an operation of the client failed.
#[derive(Clone, Copy, Debug, PartialEq, Eq, Structural)]
pub enum ErrorKind {
    /// The node could not be reached, or did not answer in time.
    TransportError,
    /// An answer of the node, or the data a contract returned, is
    /// malformed.
    DecodeError,
    /// The signing material is not a private key.
    InvalidKey,
    /// The node reports no fee data.
    EstimationUnavailable,
    /// The node refused the transaction when it was handed in.
    BroadcastRejected,
    /// No receipt was seen before the deadline.
    TimedOut,
    /// The signer produced no signature that recovers to its own address,
    /// or the chain id is too large to be signed for.
    SigningFailed,
}

impl ErrorKind {
    /// Whether the failure ends the process with a failure of its own. A
    /// timeout does not: the transaction may still be mined.
    pub open spec fn fatal(self) -> bool {
        !(self is TimedOut)
    }

    /// The exit code of a process that ends with this failure: zero after
    /// a timeout, one after any other failure.
    pub fn exit_code(&self) -> (r: u8)
        ensures
            r == (if self.fatal() {
                1u8
            } else {
                0u8
            }),
    {
        match self {
            ErrorKind::TimedOut => 0,
            _ => 1,
        }
    }

    /// The name of the failure.
    pub fn name(&self) -> (r: &'static str)
        ensures
            r@ == (match *self {
                ErrorKind::TransportError => "TransportError"@,
                ErrorKind::DecodeError => "DecodeError"@,
                ErrorKind::InvalidKey => "InvalidKey"@,
                ErrorKind::EstimationUnavailable => "EstimationUnavailable"@,
                ErrorKind::BroadcastRejected => "BroadcastRejected"@,
                ErrorKind::TimedOut => "TimedOut"@,
                ErrorKind::SigningFailed => "SigningFailed"@,
            }),
    {
        match self {
            ErrorKind::TransportError => "TransportError",
            ErrorKind::DecodeError => "DecodeError",
            ErrorKind::InvalidKey => "InvalidKey",
            ErrorKind::EstimationUnavailable => "EstimationUnavailable",
            ErrorKind::BroadcastRejected => "BroadcastRejected",
            ErrorKind::TimedOut => "TimedOut",
            ErrorKind::SigningFailed => "SigningFailed",
        }
    }
}

} // verus!

//! Failures of an oversized transfer.

use vstd::prelude::*;

use crate::text::opt_text;

verus! {

/// Why a transfer failed.
#[derive(Debug, PartialEq, Eq)]
pub enum OversizedTransferError {
    /// A limit of the receiver's policy was exceeded.
    Policy(String),
    /// A frame arrived out of sequence or was malformed.
    Sequence(String),
    /// The chunks do not form a complete payload.
    Reassembly(String),
    /// The payload does not match its declared length or digest.
    Digest(String),
    /// The transfer was aborted.
    Abort { token: String, reason: Option<String> },
}

/// Model of [`OversizedTransferError`].
pub enum TransferErrorV {
    Policy(Seq<char>),
    Sequence(Seq<char>),
    Reassembly(Seq<char>),
    Digest(Seq<char>),
    Abort { token: Seq<char>, reason: Option<Seq<char>> },
}

impl View for OversizedTransferError {
    type V = TransferErrorV;

    open spec fn view(&self) -> TransferErrorV {
        match self {
            OversizedTransferError::Policy(s) => TransferErrorV::Policy(s@),
            OversizedTransferError::Sequence(s) => TransferErrorV::Sequence(s@),
            OversizedTransferError::Reassembly(s) => TransferErrorV::Reassembly(s@),
            OversizedTransferError::Digest(s) => TransferErrorV::Digest(s@),
            OversizedTransferError::Abort { token, reason } => TransferErrorV::Abort {
                token: token@,
                reason: opt_text(*reason),
            },
        }
    }
}

impl OversizedTransferError {
    /// An abort of the transfer `token`.
    pub fn abort(token: String, reason: Option<String>) -> (r: Self)
        ensures
            r@ == (TransferErrorV::Abort { token: token@, reason: opt_text(reason) }),
    {
        OversizedTransferError::Abort { token, reason }
    }

    /// Whether the failure is an abort.
    pub fn is_abort(&self) -> (r: bool)
        ensures
            r == (self@ is Abort),
    {
        match self {
            OversizedTransferError::Abort { .. } => true,
            _ => false,
        }
    }
}

} // verus!

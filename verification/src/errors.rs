//! Error taxonomy of the pipeline.
//!
//! `ValidationError` covers every caller-input fault; `SubmissionError`
//! covers faults of the chain interaction.  Both are plain enums so that
//! contracts can state exactly which error each input produces.

use vstd::prelude::*;

verus! {

/// A caller-input fault, recoverable locally; maps to a 4xx-style reply.
#[derive(Clone, Copy, Debug, PartialEq, Eq, Structural)]
pub enum ValidationError {
    /// A field the operation requires is absent from the payload; the
    /// transport layer maps a failed deserialization onto this variant.
    MissingField,
    /// `recipients` and `values` have different lengths.
    LengthMismatch,
    /// An address string is not the canonical 0x-prefixed 40-hex-digit form.
    InvalidAddress,
    /// An amount string is empty or holds a non-digit character.
    InvalidAmount,
    /// A token-kind string is neither "eth" nor "erc20" (case-insensitive).
    UnknownTokenKind,
    /// The recipient list is empty.
    EmptyRecipientList,
    /// A 256-bit amount computation (parse or sum) exceeds the chain word size.
    AmountOverflow,
    /// A fungible-token operation lacks its token address.
    MissingTokenAddress,
}

impl ValidationError {
    /// Human-readable description for the transport layer.
    pub fn message(&self) -> (r: &'static str) {
        match self {
            ValidationError::MissingField => "a required field is missing",
            ValidationError::LengthMismatch => "recipients and values differ in length",
            ValidationError::InvalidAddress => "invalid address",
            ValidationError::InvalidAmount => "invalid amount",
            ValidationError::UnknownTokenKind => "unknown token kind",
            ValidationError::EmptyRecipientList => "recipient list is empty",
            ValidationError::AmountOverflow => "amount exceeds the 256-bit word size",
            ValidationError::MissingTokenAddress => "token address is required",
        }
    }
}

/// A fault of the chain interaction; maps to a 5xx-style reply.
///
/// After `InclusionTimeout` or `ReceiptMissing` the transaction's true
/// on-chain state is unknown: the submission may still succeed later.
#[derive(Clone, Copy, Debug, PartialEq, Eq, Structural)]
pub enum SubmissionError {
    /// The node refused the submission; the transaction never entered the pool.
    NodeRejected,
    /// The call could not be signed; nothing was sent.
    SigningFailed,
    /// The node accepted the submission but inclusion polling never completed.
    InclusionTimeout,
    /// Polling finished without yielding a receipt.
    ReceiptMissing,
}

impl SubmissionError {
    /// True when the transaction may still be executed on chain even though
    /// this error was reported.
    pub fn outcome_unknown(&self) -> (r: bool)
        ensures
            r <==> (*self == SubmissionError::InclusionTimeout
                || *self == SubmissionError::ReceiptMissing),
    {
        match self {
            SubmissionError::InclusionTimeout => true,
            SubmissionError::ReceiptMissing => true,
            SubmissionError::NodeRejected => false,
            SubmissionError::SigningFailed => false,
        }
    }

    /// Human-readable description for the transport layer.
    pub fn message(&self) -> (r: &'static str) {
        match self {
            SubmissionError::NodeRejected => "the node rejected the transaction",
            SubmissionError::SigningFailed => "the transaction could not be signed",
            SubmissionError::InclusionTimeout =>
                "inclusion was not confirmed in time; the on-chain outcome is unknown",
            SubmissionError::ReceiptMissing =>
                "no receipt was found; the on-chain outcome is unknown",
        }
    }
}

} // verus!

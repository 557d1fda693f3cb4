//! Request-validation-and-transaction-dispatch pipeline for a fixed
//! disperse/collect escrow contract.
//!
//! The crate turns already-deserialized request payloads into fully
//! validated contract invocations (method, argument tuple, attached
//! native value), and models the submit-then-await-inclusion protocol
//! as an explicit state machine.  All parsing, validation, dispatch and
//! state-machine logic is verified; network I/O and JSON transport live
//! outside this crate.

pub mod address;
pub mod amount;
pub mod dispatch;
pub mod errors;
pub mod submit;
pub mod token;
pub mod validate;

//! Transaction submitter, modeled as an explicit state machine.
//!
//! Submitting a prepared invocation is one state-changing chain call
//! followed by one await for inclusion.  The decisions — which step to
//! take next and how each chain event changes the state — are pure and
//! verified here; the driver that actually talks to the node performs
//! the returned action, feeds the resulting event back in, and repeats
//! until the state is terminal.
//!
//! There is exactly one submission attempt and one await: terminal
//! states absorb every further event, so no work proceeds past
//! `Included` or `Failed`.  Submission is not idempotent; a driver must
//! not restart the machine on an ambiguous failure (`InclusionTimeout`,
//! `ReceiptMissing`) without its own deduplication, since the
//! transaction may still execute on chain.

use vstd::prelude::*;
use crate::errors::SubmissionError;

verus! {

/// What the chain client reported back for the step the driver performed.
#[derive(Clone, Debug, PartialEq, Eq)]
pub enum SubmitEvent {
    /// The node accepted the submission into its pool.
    Accepted,
    /// The node refused the submission; nothing is on chain.
    Rejected,
    /// The call could not be signed; nothing was sent.
    SigningFailed,
    /// Inclusion was confirmed; the receipt carries the transaction hash.
    Included { tx_hash: String },
    /// Polling finished, but no receipt was found.
    ReceiptMissing,
    /// Polling never completed within the allotted time.
    TimedOut,
}

/// The submitter's state: ready to submit, awaiting inclusion, or one
/// of the two terminal outcomes.
#[derive(Clone, Debug, PartialEq, Eq)]
pub enum SubmitState {
    /// Constructed; the submission has not been sent.
    Ready,
    /// Submitted and accepted; awaiting inclusion.
    Pending,
    /// Terminal: included in a block, with the transaction identifier.
    Included { tx_hash: String },
    /// Terminal: the submission failed, or its outcome is unknown.
    Failed { error: SubmissionError },
}

/// What the driver must do next for a given state.
#[derive(Clone, Copy, Debug, PartialEq, Eq, Structural)]
pub enum SubmitAction {
    /// Send the signed call to the node (the first suspension point).
    Submit,
    /// Await inclusion of the accepted transaction (the second one).
    AwaitInclusion,
    /// Nothing: the state is terminal; report the outcome.
    Report,
}

/// Whether a state is terminal.
pub open spec fn is_terminal(s: SubmitState) -> bool {
    s is Included || s is Failed
}

/// The successor state: how `e` changes `s`.  Events that cannot belong
/// to the current step are ignored, and terminal states absorb
/// everything.
pub open spec fn spec_on_event(s: SubmitState, e: SubmitEvent) -> SubmitState {
    match s {
        SubmitState::Ready => match e {
            SubmitEvent::Accepted => SubmitState::Pending,
            SubmitEvent::Rejected => SubmitState::Failed {
                error: SubmissionError::NodeRejected,
            },
            SubmitEvent::SigningFailed => SubmitState::Failed {
                error: SubmissionError::SigningFailed,
            },
            _ => s,
        },
        SubmitState::Pending => match e {
            SubmitEvent::Included { tx_hash } => SubmitState::Included { tx_hash },
            SubmitEvent::ReceiptMissing => SubmitState::Failed {
                error: SubmissionError::ReceiptMissing,
            },
            SubmitEvent::TimedOut => SubmitState::Failed {
                error: SubmissionError::InclusionTimeout,
            },
            _ => s,
        },
        _ => s,
    }
}

impl SubmitState {
    /// A fresh submitter for one prepared invocation.
    pub fn initial() -> (r: SubmitState)
        ensures
            r == SubmitState::Ready,
    {
        SubmitState::Ready
    }

    /// The action the driver must perform in this state: submit once,
    /// await once, then only report.
    pub fn next_action(&self) -> (r: SubmitAction)
        ensures
            *self == SubmitState::Ready ==> r == SubmitAction::Submit,
            *self == SubmitState::Pending ==> r == SubmitAction::AwaitInclusion,
            is_terminal(*self) ==> r == SubmitAction::Report,
    {
        match self {
            SubmitState::Ready => SubmitAction::Submit,
            SubmitState::Pending => SubmitAction::AwaitInclusion,
            SubmitState::Included { .. } => SubmitAction::Report,
            SubmitState::Failed { .. } => SubmitAction::Report,
        }
    }

    /// Applies one chain event.  A node rejection and an inclusion
    /// timeout end in distinct failures; terminal states never change.
    pub fn on_event(self, e: SubmitEvent) -> (r: SubmitState)
        ensures
            r == spec_on_event(self, e),
            is_terminal(self) ==> r == self,
            self == SubmitState::Ready && e == SubmitEvent::Rejected ==> r
                == (SubmitState::Failed { error: SubmissionError::NodeRejected }),
            self == SubmitState::Pending && e == SubmitEvent::TimedOut ==> r
                == (SubmitState::Failed { error: SubmissionError::InclusionTimeout }),
    {
        match self {
            SubmitState::Ready => match e {
                SubmitEvent::Accepted => SubmitState::Pending,
                SubmitEvent::Rejected => SubmitState::Failed {
                    error: SubmissionError::NodeRejected,
                },
                SubmitEvent::SigningFailed => SubmitState::Failed {
                    error: SubmissionError::SigningFailed,
                },
                _ => SubmitState::Ready,
            },
            SubmitState::Pending => match e {
                SubmitEvent::Included { tx_hash } => SubmitState::Included { tx_hash },
                SubmitEvent::ReceiptMissing => SubmitState::Failed {
                    error: SubmissionError::ReceiptMissing,
                },
                SubmitEvent::TimedOut => SubmitState::Failed {
                    error: SubmissionError::InclusionTimeout,
                },
                _ => SubmitState::Pending,
            },
            other => other,
        }
    }

    /// True when the submitter has reached a terminal outcome.
    pub fn is_settled(&self) -> (r: bool)
        ensures
            r == is_terminal(*self),
    {
        match self {
            SubmitState::Included { .. } => true,
            SubmitState::Failed { .. } => true,
            _ => false,
        }
    }
}

/// Terminal states are fixed points: once the submitter has settled,
/// no sequence of further events moves it.
pub proof fn lemma_terminal_absorbs(s: SubmitState, e: SubmitEvent)
    requires
        is_terminal(s),
    ensures
        spec_on_event(s, e) == s,
{
}

} // verus!

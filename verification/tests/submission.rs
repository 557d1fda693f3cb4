//! Tests of the submitter state machine: one submission, one await,
//! distinct terminal failures, and absorption of late events.

use disperse_collect::errors::{SubmissionError, ValidationError};
use disperse_collect::submit::{SubmitAction, SubmitEvent, SubmitState};

#[test]
fn every_error_has_a_distinct_message() {
    let validation = [
        ValidationError::MissingField,
        ValidationError::LengthMismatch,
        ValidationError::InvalidAddress,
        ValidationError::InvalidAmount,
        ValidationError::UnknownTokenKind,
        ValidationError::EmptyRecipientList,
        ValidationError::AmountOverflow,
        ValidationError::MissingTokenAddress,
    ];
    for (i, a) in validation.iter().enumerate() {
        assert!(!a.message().is_empty());
        for b in &validation[i + 1..] {
            assert_ne!(a.message(), b.message());
        }
    }
    let submission = [
        SubmissionError::NodeRejected,
        SubmissionError::SigningFailed,
        SubmissionError::InclusionTimeout,
        SubmissionError::ReceiptMissing,
    ];
    for (i, a) in submission.iter().enumerate() {
        assert!(!a.message().is_empty());
        for b in &submission[i + 1..] {
            assert_ne!(a.message(), b.message());
        }
    }
}

#[test]
fn happy_path_reaches_included() {
    let s = SubmitState::initial();
    assert_eq!(s, SubmitState::Ready);
    assert_eq!(s.next_action(), SubmitAction::Submit);
    let s = s.on_event(SubmitEvent::Accepted);
    assert_eq!(s, SubmitState::Pending);
    assert_eq!(s.next_action(), SubmitAction::AwaitInclusion);
    let s = s.on_event(SubmitEvent::Included { tx_hash: "0xabc123".to_string() });
    assert_eq!(s, SubmitState::Included { tx_hash: "0xabc123".to_string() });
    assert!(s.is_settled());
    assert_eq!(s.next_action(), SubmitAction::Report);
}

#[test]
fn node_rejection_is_distinct_from_inclusion_timeout() {
    // The node refuses the submission: the transaction never reached it.
    let rejected = SubmitState::initial().on_event(SubmitEvent::Rejected);
    assert_eq!(rejected, SubmitState::Failed { error: SubmissionError::NodeRejected });

    // The node accepts, but inclusion polling never completes.
    let timed_out =
        SubmitState::initial().on_event(SubmitEvent::Accepted).on_event(SubmitEvent::TimedOut);
    assert_eq!(timed_out, SubmitState::Failed { error: SubmissionError::InclusionTimeout });

    assert_ne!(rejected, timed_out);
}

#[test]
fn signing_failure_and_missing_receipt_have_their_own_errors() {
    let s = SubmitState::initial().on_event(SubmitEvent::SigningFailed);
    assert_eq!(s, SubmitState::Failed { error: SubmissionError::SigningFailed });

    let s = SubmitState::initial()
        .on_event(SubmitEvent::Accepted)
        .on_event(SubmitEvent::ReceiptMissing);
    assert_eq!(s, SubmitState::Failed { error: SubmissionError::ReceiptMissing });
}

#[test]
fn ambiguous_failures_say_the_outcome_is_unknown() {
    assert!(SubmissionError::InclusionTimeout.outcome_unknown());
    assert!(SubmissionError::ReceiptMissing.outcome_unknown());
    assert!(!SubmissionError::NodeRejected.outcome_unknown());
    assert!(!SubmissionError::SigningFailed.outcome_unknown());
}

#[test]
fn terminal_states_absorb_every_event() {
    let included = SubmitState::Included { tx_hash: "0x1".to_string() };
    for e in [
        SubmitEvent::Accepted,
        SubmitEvent::Rejected,
        SubmitEvent::SigningFailed,
        SubmitEvent::Included { tx_hash: "0x2".to_string() },
        SubmitEvent::ReceiptMissing,
        SubmitEvent::TimedOut,
    ] {
        assert_eq!(included.clone().on_event(e.clone()), included);
        let failed = SubmitState::Failed { error: SubmissionError::NodeRejected };
        assert_eq!(failed.clone().on_event(e), failed);
    }
}

#[test]
fn stale_events_are_ignored() {
    // Inclusion events cannot arrive before the submission was accepted.
    let s = SubmitState::initial().on_event(SubmitEvent::TimedOut);
    assert_eq!(s, SubmitState::Ready);
    let s = SubmitState::initial().on_event(SubmitEvent::Included { tx_hash: "0x1".to_string() });
    assert_eq!(s, SubmitState::Ready);
    // Pool events cannot arrive again while awaiting inclusion.
    let s = SubmitState::initial().on_event(SubmitEvent::Accepted).on_event(SubmitEvent::Rejected);
    assert_eq!(s, SubmitState::Pending);
}

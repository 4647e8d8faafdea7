use forge::error::TransferError;
use forge::session::{PushAction, PushEvent, PushPhase, PushSession};
use forge::transfer::TransferState;

#[test]
fn chunk_one_byte_over_the_limit_aborts_the_push() {
    let mut s = PushSession::start(100, 1000, 0);
    assert_eq!(s.step(PushEvent::Chunk(60)), PushAction::Continue);
    assert_eq!(s.step(PushEvent::Chunk(41)), PushAction::Abort);
    assert_eq!(s.phase, PushPhase::Done(TransferState::Rejected(TransferError::PayloadTooLarge)));
    assert_eq!(s.received, 60);
}

#[test]
fn payload_exactly_at_the_limit_goes_on_to_validation() {
    let mut s = PushSession::start(100, 1000, 0);
    assert_eq!(s.step(PushEvent::Chunk(100)), PushAction::Continue);
    assert_eq!(s.step(PushEvent::PayloadComplete), PushAction::Validate);
    assert_eq!(s.step(PushEvent::Valid), PushAction::Apply);
    assert_eq!(s.step(PushEvent::Applied(TransferState::Committed)), PushAction::Finish);
    assert_eq!(s.phase, PushPhase::Done(TransferState::Committed));
}

#[test]
fn invalid_objects_reject_the_push() {
    let mut s = PushSession::start(100, 1000, 0);
    s.step(PushEvent::PayloadComplete);
    assert_eq!(s.step(PushEvent::Invalid(TransferError::HashMismatch)), PushAction::Finish);
    assert_eq!(s.phase, PushPhase::Done(TransferState::Rejected(TransferError::HashMismatch)));
}

#[test]
fn slow_or_vanished_client_aborts_while_receiving() {
    let mut s = PushSession::start(100, 1000, 5000);
    assert_eq!(s.step(PushEvent::Tick(6000)), PushAction::Continue);
    assert_eq!(s.step(PushEvent::Tick(6001)), PushAction::Abort);
    assert_eq!(s.phase, PushPhase::Done(TransferState::Failed(TransferError::Timeout)));
    let mut t = PushSession::start(100, 1000, 0);
    assert_eq!(t.step(PushEvent::Disconnected), PushAction::Abort);
}

#[test]
fn applying_runs_to_completion() {
    let mut s = PushSession::start(100, 10, 0);
    s.step(PushEvent::PayloadComplete);
    s.step(PushEvent::Valid);
    assert_eq!(s.step(PushEvent::Disconnected), PushAction::Ignore);
    assert_eq!(s.step(PushEvent::Tick(1_000_000)), PushAction::Ignore);
    assert_eq!(s.phase, PushPhase::Applying);
    assert_eq!(s.step(PushEvent::StorageFailed), PushAction::Finish);
    assert_eq!(s.phase, PushPhase::Done(TransferState::Failed(TransferError::StorageIo)));
    assert_eq!(s.step(PushEvent::Chunk(1)), PushAction::Ignore);
}

//! The life of one push as a state machine. The caller streams the payload,
//! runs validation and the apply step, and watches the clock; each thing
//! that happens is handed to `PushSession::step`, which decides the next
//! phase and what the caller does next.
use vstd::prelude::*;
use crate::error::TransferError;
use crate::transfer::TransferState;

verus! {

/// Where a push stands.
#[derive(Clone, Copy, Debug, PartialEq, Eq, Structural)]
pub enum PushPhase {
    /// The payload is arriving.
    Receiving,
    /// The payload is complete and its objects are being checked.
    Validating,
    /// Objects are being stored and the ref batch applied.
    Applying,
    /// The push has ended.
    Done(TransferState),
}

/// Something that happened to a push.
#[derive(Clone, Copy, Debug, PartialEq, Eq, Structural)]
pub enum PushEvent {
    /// A chunk of the payload of this many bytes arrived.
    Chunk(u64),
    /// The whole payload has arrived.
    PayloadComplete,
    /// The client went away.
    Disconnected,
    /// The clock reads this many milliseconds.
    Tick(u64),
    /// Validation found every object sound.
    Valid,
    /// Validation found this fault.
    Invalid(TransferError),
    /// The apply step finished with this state.
    Applied(TransferState),
    /// Storage failed while applying.
    StorageFailed,
}

/// What the caller does next.
#[derive(Clone, Copy, Debug, PartialEq, Eq, Structural)]
pub enum PushAction {
    /// Keep receiving.
    Continue,
    /// Check the received objects.
    Validate,
    /// Store the objects and apply the ref batch.
    Apply,
    /// Stop and drop what was received; nothing was stored.
    Abort,
    /// Report the push's end.
    Finish,
    /// Nothing to do; the event does not apply to this phase.
    Ignore,
}

/// One push in progress.
#[derive(Clone, Copy, Debug, PartialEq, Eq, Structural)]
pub struct PushSession {
    pub phase: PushPhase,
    pub received: u64,
    pub push_body_limit: u64,
    pub started_at_ms: u64,
    pub receive_timeout_ms: u64,
}

/// Whether the clock reading `now` is past the receive-and-validate window.
pub open spec fn timed_out(s: PushSession, now: u64) -> bool {
    now >= s.started_at_ms && now - s.started_at_ms > s.receive_timeout_ms
}

/// The session after `e` and the caller's next action.
pub open spec fn spec_step(s: PushSession, e: PushEvent) -> (PushSession, PushAction) {
    match s.phase {
        PushPhase::Receiving => match e {
            PushEvent::Chunk(n) => if n > s.push_body_limit - s.received {
                (
                    PushSession {
                        phase: PushPhase::Done(TransferState::Rejected(TransferError::PayloadTooLarge)),
                        ..s
                    },
                    PushAction::Abort,
                )
            } else {
                (PushSession { received: (s.received + n) as u64, ..s }, PushAction::Continue)
            },
            PushEvent::PayloadComplete => (PushSession { phase: PushPhase::Validating, ..s }, PushAction::Validate),
            PushEvent::Disconnected => (
                PushSession { phase: PushPhase::Done(TransferState::Failed(TransferError::Timeout)), ..s },
                PushAction::Abort,
            ),
            PushEvent::Tick(now) => if timed_out(s, now) {
                (
                    PushSession { phase: PushPhase::Done(TransferState::Failed(TransferError::Timeout)), ..s },
                    PushAction::Abort,
                )
            } else {
                (s, PushAction::Continue)
            },
            _ => (s, PushAction::Ignore),
        },
        PushPhase::Validating => match e {
            PushEvent::Valid => (PushSession { phase: PushPhase::Applying, ..s }, PushAction::Apply),
            PushEvent::Invalid(err) => (
                PushSession { phase: PushPhase::Done(TransferState::Rejected(err)), ..s },
                PushAction::Finish,
            ),
            PushEvent::Disconnected => (
                PushSession { phase: PushPhase::Done(TransferState::Failed(TransferError::Timeout)), ..s },
                PushAction::Abort,
            ),
            PushEvent::Tick(now) => if timed_out(s, now) {
                (
                    PushSession { phase: PushPhase::Done(TransferState::Failed(TransferError::Timeout)), ..s },
                    PushAction::Abort,
                )
            } else {
                (s, PushAction::Ignore)
            },
            _ => (s, PushAction::Ignore),
        },
        PushPhase::Applying => match e {
            PushEvent::Applied(state) => (PushSession { phase: PushPhase::Done(state), ..s }, PushAction::Finish),
            PushEvent::StorageFailed => (
                PushSession { phase: PushPhase::Done(TransferState::Failed(TransferError::StorageIo)), ..s },
                PushAction::Finish,
            ),
            _ => (s, PushAction::Ignore),
        },
        PushPhase::Done(_) => (s, PushAction::Ignore),
    }
}

impl PushSession {
    /// The session is never past its limit.
    pub open spec fn wf(self) -> bool {
        self.received <= self.push_body_limit
    }

    /// A push that starts receiving at `now_ms`.
    pub fn start(push_body_limit: u64, receive_timeout_ms: u64, now_ms: u64) -> (r: PushSession)
        ensures
            r.wf(),
            r.phase == PushPhase::Receiving,
            r.received == 0,
            r.push_body_limit == push_body_limit,
            r.started_at_ms == now_ms,
            r.receive_timeout_ms == receive_timeout_ms,
    {
        PushSession { phase: PushPhase::Receiving, received: 0, push_body_limit, started_at_ms: now_ms, receive_timeout_ms }
    }

    fn is_timed_out(&self, now: u64) -> (r: bool)
        ensures
            r == timed_out(*self, now),
    {
        now >= self.started_at_ms && now - self.started_at_ms > self.receive_timeout_ms
    }

    /// Moves the session on by one event and says what the caller does next.
    pub fn step(&mut self, e: PushEvent) -> (r: PushAction)
        requires
            old(self).wf(),
        ensures
            final(self).wf(),
            (*final(self), r) == spec_step(*old(self), e),
    {
        let s = *self;
        let done_timeout = PushSession { phase: PushPhase::Done(TransferState::Failed(TransferError::Timeout)), ..s };
        match self.phase {
            PushPhase::Receiving => match e {
                PushEvent::Chunk(n) => {
                    if n > self.push_body_limit - self.received {
                        self.phase = PushPhase::Done(TransferState::Rejected(TransferError::PayloadTooLarge));
                        PushAction::Abort
                    } else {
                        self.received = self.received + n;
                        PushAction::Continue
                    }
                },
                PushEvent::PayloadComplete => {
                    self.phase = PushPhase::Validating;
                    PushAction::Validate
                },
                PushEvent::Disconnected => {
                    *self = done_timeout;
                    PushAction::Abort
                },
                PushEvent::Tick(now) => {
                    if s.is_timed_out(now) {
                        *self = done_timeout;
                        PushAction::Abort
                    } else {
                        PushAction::Continue
                    }
                },
                _ => PushAction::Ignore,
            },
            PushPhase::Validating => match e {
                PushEvent::Valid => {
                    self.phase = PushPhase::Applying;
                    PushAction::Apply
                },
                PushEvent::Invalid(err) => {
                    self.phase = PushPhase::Done(TransferState::Rejected(err));
                    PushAction::Finish
                },
                PushEvent::Disconnected => {
                    *self = done_timeout;
                    PushAction::Abort
                },
                PushEvent::Tick(now) => {
                    if s.is_timed_out(now) {
                        *self = done_timeout;
                        PushAction::Abort
                    } else {
                        PushAction::Ignore
                    }
                },
                _ => PushAction::Ignore,
            },
            PushPhase::Applying => match e {
                PushEvent::Applied(state) => {
                    self.phase = PushPhase::Done(state);
                    PushAction::Finish
                },
                PushEvent::StorageFailed => {
                    self.phase = PushPhase::Done(TransferState::Failed(TransferError::StorageIo));
                    PushAction::Finish
                },
                _ => PushAction::Ignore,
            },
            PushPhase::Done(_) => PushAction::Ignore,
        }
    }
}

/// A chunk that takes the received total past the limit, even by one byte,
/// ends the push as `PayloadTooLarge` and tells the caller to abort.
pub proof fn lemma_oversized_chunk_aborts(s: PushSession, n: u64)
    requires
        s.wf(),
        s.phase == PushPhase::Receiving,
        s.received + n == s.push_body_limit + 1,
    ensures
        spec_step(s, PushEvent::Chunk(n)).0.phase == PushPhase::Done(
            TransferState::Rejected(TransferError::PayloadTooLarge),
        ),
        spec_step(s, PushEvent::Chunk(n)).1 == PushAction::Abort,
{
}

/// Once applying has begun, neither a disconnect nor the clock stops it.
pub proof fn lemma_applying_not_cancelled(s: PushSession, now: u64)
    requires
        s.phase == PushPhase::Applying,
    ensures
        spec_step(s, PushEvent::Disconnected) == (s, PushAction::Ignore),
        spec_step(s, PushEvent::Tick(now)) == (s, PushAction::Ignore),
{
}

/// A push that has ended stays ended.
pub proof fn lemma_done_is_final(s: PushSession, e: PushEvent)
    requires
        s.phase is Done,
    ensures
        spec_step(s, e) == (s, PushAction::Ignore),
{
}

} // verus!

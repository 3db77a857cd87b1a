//! Decisions of one receive session of a change feed.
//!
//! A session first makes sure the subscription exists, then receives messages
//! until its timer runs out. Each message addressed to this feed's controller
//! is handed to the channel and then acknowledged; the acknowledgment comes
//! after the hand-off, not after the message has been dispatched. The caller
//! performs each action against the broker and reports back what happened.

use crate::config::FeedConfig;
use vstd::prelude::*;

verus! {

/// Why a session failed.
#[derive(Debug, Clone, Copy, PartialEq, Eq, Structural)]
pub enum SessionError {
    /// The subscription was missing and could not be created.
    SubscriptionCreation,
    /// The receive stream failed.
    Stream,
}

/// Where a session stands.
#[derive(Debug, Clone, Copy, PartialEq, Eq, Structural)]
pub enum Phase {
    /// Not started.
    Idle,
    /// Waiting for the subscription to be created.
    Provisioning,
    /// Receiving messages until the deadline.
    Receiving,
    /// The timer ran out; the session ended normally.
    Finished,
    /// The session ended with an error.
    Failed(SessionError),
}

/// What the broker answered to a request to create the subscription.
#[derive(Debug, Clone, Copy, PartialEq, Eq, Structural)]
pub enum CreateOutcome {
    Created,
    /// Another caller created it first; this counts as success.
    AlreadyExists,
    Failed,
}

/// What the caller is to do next.
#[derive(Debug, Clone, Copy, PartialEq, Eq)]
pub enum Action {
    /// Create the subscription with ordering enabled and the feed's filter.
    CreateSubscription,
    /// Start the receive stream; the deadline is set.
    StartReceiving,
    /// Push the payload onto the channel (waiting while it is full), then
    /// acknowledge the message.
    ForwardThenAck,
    /// Acknowledge the message without forwarding it.
    AckOnly,
    /// Nothing to do; keep receiving.
    Continue,
    /// Cancel the receive stream and return this result from the session.
    Finish(Result<(), SessionError>),
    /// The event does not apply in this phase.
    Ignore,
}

/// State of one session.
#[derive(Debug, Clone, Copy, PartialEq, Eq)]
pub struct Session {
    pub phase: Phase,
    pub timeout_secs: u64,
    /// When receiving, the instant (in milliseconds) at which the timer fires.
    pub deadline_ms: u64,
}

/// `now + timeout`, in milliseconds, capped at the largest instant.
pub open spec fn deadline_after(now_ms: u64, timeout_secs: u64) -> u64 {
    if now_ms + timeout_secs * 1000 > u64::MAX {
        u64::MAX
    } else {
        (now_ms + timeout_secs * 1000) as u64
    }
}

pub open spec fn receiving_from(s: Session, now_ms: u64) -> Session {
    Session { phase: Phase::Receiving, deadline_ms: deadline_after(now_ms, s.timeout_secs), ..s }
}

pub open spec fn begin_step(s: Session, now_ms: u64, subscription_exists: bool) -> (Session, Action) {
    if s.phase != Phase::Idle {
        (s, Action::Ignore)
    } else if subscription_exists {
        (receiving_from(s, now_ms), Action::StartReceiving)
    } else {
        (Session { phase: Phase::Provisioning, ..s }, Action::CreateSubscription)
    }
}

pub open spec fn create_step(s: Session, now_ms: u64, outcome: CreateOutcome) -> (Session, Action) {
    if s.phase != Phase::Provisioning {
        (s, Action::Ignore)
    } else if outcome == CreateOutcome::Failed {
        (
            Session { phase: Phase::Failed(SessionError::SubscriptionCreation), ..s },
            Action::Finish(Err(SessionError::SubscriptionCreation)),
        )
    } else {
        (receiving_from(s, now_ms), Action::StartReceiving)
    }
}

pub open spec fn finished(s: Session) -> (Session, Action) {
    (Session { phase: Phase::Finished, ..s }, Action::Finish(Ok(())))
}

pub open spec fn message_step(s: Session, now_ms: u64, addressed_here: bool) -> (Session, Action) {
    if s.phase != Phase::Receiving {
        (s, Action::Ignore)
    } else if now_ms >= s.deadline_ms {
        finished(s)
    } else if addressed_here {
        (s, Action::ForwardThenAck)
    } else {
        (s, Action::AckOnly)
    }
}

pub open spec fn tick_step(s: Session, now_ms: u64) -> (Session, Action) {
    if s.phase != Phase::Receiving {
        (s, Action::Ignore)
    } else if now_ms >= s.deadline_ms {
        finished(s)
    } else {
        (s, Action::Continue)
    }
}

pub open spec fn stream_end_step(s: Session, failed: bool) -> (Session, Action) {
    if s.phase != Phase::Receiving {
        (s, Action::Ignore)
    } else if failed {
        (
            Session { phase: Phase::Failed(SessionError::Stream), ..s },
            Action::Finish(Err(SessionError::Stream)),
        )
    } else {
        finished(s)
    }
}

fn deadline(now_ms: u64, timeout_secs: u64) -> (r: u64)
    ensures
        r == deadline_after(now_ms, timeout_secs),
{
    if timeout_secs > (u64::MAX - now_ms) / 1000 {
        u64::MAX
    } else {
        assert(timeout_secs * 1000 <= u64::MAX - now_ms) by (nonlinear_arith)
            requires
                timeout_secs <= (u64::MAX - now_ms) / 1000,
        ;
        now_ms + timeout_secs * 1000
    }
}

impl Session {
    /// A session of `config` that has not started.
    pub fn new(config: &FeedConfig) -> (r: Session)
        ensures
            r.phase == Phase::Idle,
            r.timeout_secs == config.timeout_secs,
            r.deadline_ms == 0,
    {
        Session { phase: Phase::Idle, timeout_secs: config.timeout_secs, deadline_ms: 0 }
    }

    /// Starts the session, told whether the subscription already exists.
    pub fn begin(&mut self, now_ms: u64, subscription_exists: bool) -> (r: Action)
        ensures
            (*final(self), r) == begin_step(*old(self), now_ms, subscription_exists),
    {
        if self.phase != Phase::Idle {
            Action::Ignore
        } else if subscription_exists {
            self.deadline_ms = deadline(now_ms, self.timeout_secs);
            self.phase = Phase::Receiving;
            Action::StartReceiving
        } else {
            self.phase = Phase::Provisioning;
            Action::CreateSubscription
        }
    }

    /// Takes the broker's answer to the creation request.
    pub fn subscription_created(&mut self, now_ms: u64, outcome: CreateOutcome) -> (r: Action)
        ensures
            (*final(self), r) == create_step(*old(self), now_ms, outcome),
    {
        if self.phase != Phase::Provisioning {
            Action::Ignore
        } else if outcome == CreateOutcome::Failed {
            self.phase = Phase::Failed(SessionError::SubscriptionCreation);
            Action::Finish(Err(SessionError::SubscriptionCreation))
        } else {
            self.deadline_ms = deadline(now_ms, self.timeout_secs);
            self.phase = Phase::Receiving;
            Action::StartReceiving
        }
    }

    /// A message arrived whose `controller_id` attribute is `attribute`.
    pub fn message(&mut self, config: &FeedConfig, now_ms: u64, attribute: &String) -> (r: Action)
        ensures
            (*final(self), r) == message_step(
                *old(self),
                now_ms,
                attribute@ == config.controller_id@,
            ),
    {
        if self.phase != Phase::Receiving {
            Action::Ignore
        } else if now_ms >= self.deadline_ms {
            self.phase = Phase::Finished;
            Action::Finish(Ok(()))
        } else if config.accepts(attribute) {
            Action::ForwardThenAck
        } else {
            Action::AckOnly
        }
    }

    /// The clock reads `now_ms`.
    pub fn tick(&mut self, now_ms: u64) -> (r: Action)
        ensures
            (*final(self), r) == tick_step(*old(self), now_ms),
    {
        if self.phase != Phase::Receiving {
            Action::Ignore
        } else if now_ms >= self.deadline_ms {
            self.phase = Phase::Finished;
            Action::Finish(Ok(()))
        } else {
            Action::Continue
        }
    }

    /// The receive stream ended, with an error when `failed`.
    pub fn stream_ended(&mut self, failed: bool) -> (r: Action)
        ensures
            (*final(self), r) == stream_end_step(*old(self), failed),
    {
        if self.phase != Phase::Receiving {
            Action::Ignore
        } else if failed {
            self.phase = Phase::Failed(SessionError::Stream);
            Action::Finish(Err(SessionError::Stream))
        } else {
            self.phase = Phase::Finished;
            Action::Finish(Ok(()))
        }
    }

    /// The session's result once it has ended.
    pub fn outcome(&self) -> (r: Option<Result<(), SessionError>>)
        ensures
            r == match self.phase {
                Phase::Finished => Some(Ok::<(), SessionError>(())),
                Phase::Failed(e) => Some(Err(e)),
                _ => None,
            },
    {
        match self.phase {
            Phase::Finished => Some(Ok(())),
            Phase::Failed(e) => Some(Err(e)),
            _ => None,
        }
    }
}

/// Session bound: once receiving has started at `start_ms`, the first tick
/// or message at or after `start_ms` plus the timeout ends the session
/// successfully.
pub proof fn lemma_session_bound(s: Session, start_ms: u64, now_ms: u64, addressed_here: bool)
    requires
        s.phase == Phase::Idle || s.phase == Phase::Provisioning,
        now_ms >= start_ms + s.timeout_secs * 1000,
    ensures
        ({
            let r = if s.phase == Phase::Idle {
                begin_step(s, start_ms, true).0
            } else {
                create_step(s, start_ms, CreateOutcome::Created).0
            };
            &&& r.phase == Phase::Receiving
            &&& tick_step(r, now_ms) == finished(r)
            &&& message_step(r, now_ms, addressed_here) == finished(r)
        }),
{
}

/// Filter isolation: a message addressed to another controller is never
/// forwarded, whatever state the session is in.
pub proof fn lemma_filter_isolation(
    config: FeedConfig,
    s: Session,
    now_ms: u64,
    attribute: Seq<char>,
)
    requires
        attribute != config.controller_id@,
    ensures
        message_step(s, now_ms, attribute == config.controller_id@).1 != Action::ForwardThenAck,
{
}

} // verus!

//! The orchestrator of one synchronisation cycle, as a machine that is
//! handed what happened and answers what to do next.
//!
//! The machine performs nothing itself. Its caller performs each action
//! (reads the store, sends the request, parses the response) and hands back
//! the event that came of it. A cycle runs
//! `ReadWatermark`, `CollectLocal`, `Exchange`, then for a full cycle
//! `DecodeRemote` and `ApplyRemote`, then `AdvanceWatermark`, and ends in
//! `Done`; a failure in any phase ends it in `Failed`, before anything
//! further is done.
//!
//! The store's lock is to be held exactly while the machine is in a phase
//! for which `holds_lock` is true: from the read of the watermark through
//! the collection, and from the application through the advance of the
//! watermark; never while the request is under way.

use vstd::prelude::*;
use vstd::string::*;
use crate::errors::{
    NetworkFault, NetworkFaultView, StoreFault, StoreFaultView, SyncError, SyncErrorView,
    SyncStatus,
};
use crate::exchange::{
    frame_request, is_success, request_of, status_is_success, ExchangeRequest, RequestView,
};
use crate::records::{text_of, BundleView, SyncBundle};
use crate::store::mark_of;
use crate::table::ConflictPolicy;

verus! {

/// Where a cycle stands.
#[derive(Clone, Copy, Debug, PartialEq, Eq, Structural)]
pub enum Phase {
    /// The persisted watermark is being read.
    ReadWatermark,
    /// The rows changed since the watermark are being collected.
    CollectLocal,
    /// The request is under way.
    Exchange,
    /// The body of the response is being parsed (full cycle only).
    DecodeRemote,
    /// The remote bundle is being applied (full cycle only).
    ApplyRemote,
    /// The time of completion is being recorded as the new watermark.
    AdvanceWatermark,
    /// The cycle has completed.
    Done,
    /// The cycle has failed.
    Failed,
}

/// Whether the store's lock is held during `phase`.
pub open spec fn lock_held_in(phase: Phase) -> bool {
    phase is ReadWatermark || phase is CollectLocal || phase is ApplyRemote
        || phase is AdvanceWatermark
}

/// Whether a cycle in `phase` has ended.
pub open spec fn is_terminal(phase: Phase) -> bool {
    phase is Done || phase is Failed
}

/// The view of an `Event`.
pub enum EventView {
    WatermarkRead(Option<Seq<char>>),
    Collected(BundleView),
    Replied { status: u16, body: Seq<char> },
    Decoded(BundleView),
    Malformed(Seq<char>),
    Applied,
    Advanced,
    StoreFailed(StoreFaultView),
    NetworkFailed(Seq<char>),
}

/// What came of the action that the machine asked for.
#[derive(Debug, PartialEq, Eq)]
pub enum Event {
    /// The persisted watermark, `None` where none was ever recorded.
    WatermarkRead(Option<String>),
    /// The rows changed since the watermark.
    Collected(SyncBundle),
    /// A response came, with this status and this body.
    Replied { status: u16, body: String },
    /// The body held this bundle.
    Decoded(SyncBundle),
    /// The body did not hold a bundle.
    Malformed(String),
    /// The bundle was applied and the transaction committed.
    Applied,
    /// The new watermark was recorded.
    Advanced,
    /// The store failed; whatever was being written was rolled back.
    StoreFailed(StoreFault),
    /// No response came.
    NetworkFailed(String),
}

impl View for Event {
    type V = EventView;

    open spec fn view(&self) -> EventView {
        match self {
            Event::WatermarkRead(w) => EventView::WatermarkRead(text_of(*w)),
            Event::Collected(b) => EventView::Collected(b@),
            Event::Replied { status, body } => EventView::Replied { status: *status, body: body@ },
            Event::Decoded(b) => EventView::Decoded(b@),
            Event::Malformed(d) => EventView::Malformed(d@),
            Event::Applied => EventView::Applied,
            Event::Advanced => EventView::Advanced,
            Event::StoreFailed(f) => EventView::StoreFailed(f@),
            Event::NetworkFailed(d) => EventView::NetworkFailed(d@),
        }
    }
}

/// The view of an `Action`.
pub enum ActionView {
    ReadWatermark,
    Collect { since: Seq<char> },
    Exchange { request: RequestView },
    Decode { body: Seq<char> },
    Apply { bundle: BundleView, policy: ConflictPolicy },
    Advance,
    Finish(SyncStatus),
    Abort(SyncErrorView),
}

/// What the caller is to do next.
#[derive(Debug, PartialEq, Eq)]
pub enum Action {
    /// Read the persisted watermark.
    ReadWatermark,
    /// Collect the rows modified strictly later than `since`.
    Collect { since: String },
    /// Send `request`, once.
    Exchange { request: ExchangeRequest },
    /// Parse `body` as a bundle.
    Decode { body: String },
    /// Apply `bundle` in one transaction, under `policy`.
    Apply { bundle: SyncBundle, policy: ConflictPolicy },
    /// Record the present time as the watermark.
    Advance,
    /// The cycle has completed: report the status.
    Finish(SyncStatus),
    /// The cycle has failed: report the error and do nothing further.
    Abort(SyncError),
}

impl View for Action {
    type V = ActionView;

    open spec fn view(&self) -> ActionView {
        match self {
            Action::ReadWatermark => ActionView::ReadWatermark,
            Action::Collect { since } => ActionView::Collect { since: since@ },
            Action::Exchange { request } => ActionView::Exchange { request: request@ },
            Action::Decode { body } => ActionView::Decode { body: body@ },
            Action::Apply { bundle, policy } => ActionView::Apply {
                bundle: bundle@,
                policy: *policy,
            },
            Action::Advance => ActionView::Advance,
            Action::Finish(s) => ActionView::Finish(*s),
            Action::Abort(e) => ActionView::Abort(e@),
        }
    }
}

/// The view of a `SyncCycle`.
pub struct CycleView {
    pub phase: Phase,
    pub push_only: bool,
    pub token: Seq<char>,
    pub policy: ConflictPolicy,
}

/// The status that a completed cycle reports.
pub open spec fn status_of(push_only: bool) -> SyncStatus {
    if push_only {
        SyncStatus::PushCompleted
    } else {
        SyncStatus::SyncCompleted
    }
}

/// The phase that follows when `event` arrives in cycle `c`, and the action
/// that the machine answers. An event that the phase does not await fails
/// the cycle; a cycle that has ended stays as it is.
pub open spec fn next(c: CycleView, event: EventView) -> (Phase, ActionView) {
    let failed = |e: SyncErrorView| (Phase::Failed, ActionView::Abort(e));
    match (c.phase, event) {
        (Phase::ReadWatermark, EventView::WatermarkRead(w)) => (
            Phase::CollectLocal,
            ActionView::Collect { since: mark_of(w) },
        ),
        (Phase::CollectLocal, EventView::Collected(b)) => (
            Phase::Exchange,
            ActionView::Exchange { request: request_of(b, c.token) },
        ),
        (Phase::Exchange, EventView::NetworkFailed(d)) => failed(
            SyncErrorView::NetworkError(NetworkFaultView::Unreachable(d)),
        ),
        (Phase::Exchange, EventView::Replied { status, body }) => if !is_success(status) {
            failed(SyncErrorView::NetworkError(NetworkFaultView::Status { code: status, body }))
        } else if c.push_only {
            (Phase::AdvanceWatermark, ActionView::Advance)
        } else {
            (Phase::DecodeRemote, ActionView::Decode { body })
        },
        (Phase::DecodeRemote, EventView::Decoded(b)) => (
            Phase::ApplyRemote,
            ActionView::Apply { bundle: b, policy: c.policy },
        ),
        (Phase::DecodeRemote, EventView::Malformed(d)) => failed(
            SyncErrorView::SerializationError(d),
        ),
        (Phase::ApplyRemote, EventView::Applied) => (Phase::AdvanceWatermark, ActionView::Advance),
        (Phase::AdvanceWatermark, EventView::Advanced) => (
            Phase::Done,
            ActionView::Finish(status_of(c.push_only)),
        ),
        (Phase::ReadWatermark, EventView::StoreFailed(f)) => failed(SyncErrorView::StoreError(f)),
        (Phase::CollectLocal, EventView::StoreFailed(f)) => failed(SyncErrorView::StoreError(f)),
        (Phase::ApplyRemote, EventView::StoreFailed(f)) => failed(SyncErrorView::StoreError(f)),
        (Phase::AdvanceWatermark, EventView::StoreFailed(f)) => failed(
            SyncErrorView::StoreError(f),
        ),
        (Phase::Done, _) => (Phase::Done, ActionView::Abort(SyncErrorView::OutOfTurn)),
        _ => failed(SyncErrorView::OutOfTurn),
    }
}

/// One synchronisation cycle.
pub struct SyncCycle {
    phase: Phase,
    push_only: bool,
    token: String,
    policy: ConflictPolicy,
}

impl View for SyncCycle {
    type V = CycleView;

    closed spec fn view(&self) -> CycleView {
        CycleView {
            phase: self.phase,
            push_only: self.push_only,
            token: self.token@,
            policy: self.policy,
        }
    }
}

impl SyncCycle {
    /// A cycle about to start, for the bearer credential `token`. With
    /// `push_only` the local changes are sent and nothing is asked of the
    /// remote side. What the remote side sends replaces what is there,
    /// whatever the timestamps. The first action of every cycle is
    /// `Action::ReadWatermark`.
    pub fn new(token: String, push_only: bool) -> (r: (SyncCycle, Action))
        ensures
            r.0@ == (CycleView {
                phase: Phase::ReadWatermark,
                push_only,
                token: token@,
                policy: ConflictPolicy::RemoteWins,
            }),
            r.1@ == ActionView::ReadWatermark,
    {
        SyncCycle::with_policy(token, push_only, ConflictPolicy::RemoteWins)
    }

    /// A cycle about to start, in which what the remote side sends is
    /// weighed against what is there under `policy`.
    pub fn with_policy(token: String, push_only: bool, policy: ConflictPolicy) -> (r: (
        SyncCycle,
        Action,
    ))
        ensures
            r.0@ == (CycleView { phase: Phase::ReadWatermark, push_only, token: token@, policy }),
            r.1@ == ActionView::ReadWatermark,
    {
        (
            SyncCycle { phase: Phase::ReadWatermark, push_only, token, policy },
            Action::ReadWatermark,
        )
    }

    /// Where the cycle stands.
    pub fn phase(&self) -> (r: Phase)
        ensures
            r == self@.phase,
    {
        self.phase
    }

    /// Whether the cycle only sends.
    pub fn push_only(&self) -> (r: bool)
        ensures
            r == self@.push_only,
    {
        self.push_only
    }

    /// Whether the store's lock is to be held in the present phase.
    pub fn holds_lock(&self) -> (r: bool)
        ensures
            r == lock_held_in(self@.phase),
    {
        match self.phase {
            Phase::ReadWatermark => true,
            Phase::CollectLocal => true,
            Phase::ApplyRemote => true,
            Phase::AdvanceWatermark => true,
            _ => false,
        }
    }

    /// Whether the cycle has ended.
    pub fn is_over(&self) -> (r: bool)
        ensures
            r == is_terminal(self@.phase),
    {
        match self.phase {
            Phase::Done => true,
            Phase::Failed => true,
            _ => false,
        }
    }

    fn fail(&mut self, error: SyncError) -> (action: Action)
        ensures
            final(self)@ == (CycleView { phase: Phase::Failed, ..old(self)@ }),
            action@ == ActionView::Abort(error@),
    {
        self.phase = Phase::Failed;
        Action::Abort(error)
    }

    /// Takes what came of the last action and answers the next one.
    pub fn step(&mut self, event: Event) -> (action: Action)
        ensures
            final(self)@ == (CycleView { phase: next(old(self)@, event@).0, ..old(self)@ }),
            action@ == next(old(self)@, event@).1,
    {
        match (self.phase, event) {
            (Phase::ReadWatermark, Event::WatermarkRead(w)) => {
                self.phase = Phase::CollectLocal;
                let since = match w {
                    Some(s) => s,
                    None => String::from_str("1970-01-01 00:00:00"),
                };
                Action::Collect { since }
            },
            (Phase::CollectLocal, Event::Collected(b)) => {
                self.phase = Phase::Exchange;
                Action::Exchange { request: frame_request(b, self.token.as_str()) }
            },
            (Phase::Exchange, Event::NetworkFailed(d)) => self.fail(
                SyncError::NetworkError(NetworkFault::Unreachable(d)),
            ),
            (Phase::Exchange, Event::Replied { status, body }) => {
                if !status_is_success(status) {
                    self.fail(SyncError::NetworkError(NetworkFault::Status { code: status, body }))
                } else if self.push_only {
                    self.phase = Phase::AdvanceWatermark;
                    Action::Advance
                } else {
                    self.phase = Phase::DecodeRemote;
                    Action::Decode { body }
                }
            },
            (Phase::DecodeRemote, Event::Decoded(b)) => {
                self.phase = Phase::ApplyRemote;
                Action::Apply { bundle: b, policy: self.policy }
            },
            (Phase::DecodeRemote, Event::Malformed(d)) => self.fail(
                SyncError::SerializationError(d),
            ),
            (Phase::ApplyRemote, Event::Applied) => {
                self.phase = Phase::AdvanceWatermark;
                Action::Advance
            },
            (Phase::AdvanceWatermark, Event::Advanced) => {
                self.phase = Phase::Done;
                if self.push_only {
                    Action::Finish(SyncStatus::PushCompleted)
                } else {
                    Action::Finish(SyncStatus::SyncCompleted)
                }
            },
            (Phase::ReadWatermark, Event::StoreFailed(f)) => self.fail(SyncError::StoreError(f)),
            (Phase::CollectLocal, Event::StoreFailed(f)) => self.fail(SyncError::StoreError(f)),
            (Phase::ApplyRemote, Event::StoreFailed(f)) => self.fail(SyncError::StoreError(f)),
            (Phase::AdvanceWatermark, Event::StoreFailed(f)) => self.fail(
                SyncError::StoreError(f),
            ),
            (Phase::Done, _) => Action::Abort(SyncError::OutOfTurn),
            _ => self.fail(SyncError::OutOfTurn),
        }
    }
}

/// The guard that lets one cycle at a time run on a store. Two cycles that
/// ran at once could both read one watermark and both advance it.
pub struct SingleFlight {
    busy: bool,
}

impl View for SingleFlight {
    type V = bool;

    /// Whether a cycle is under way.
    closed spec fn view(&self) -> bool {
        self.busy
    }
}

impl SingleFlight {
    /// A guard under which no cycle is under way.
    pub fn new() -> (r: SingleFlight)
        ensures
            !r@,
    {
        SingleFlight { busy: false }
    }

    /// Whether a cycle is under way.
    pub fn is_busy(&self) -> (r: bool)
        ensures
            r == self@,
    {
        self.busy
    }

    /// Starts a cycle unless one is under way. A cycle that is refused
    /// fails at once with `AlreadyRunning`, and the cycle under way is not
    /// disturbed.
    pub fn try_begin(&mut self, token: String, push_only: bool, policy: ConflictPolicy) -> (r:
        Result<(SyncCycle, Action), SyncError>)
        ensures
            final(self)@,
            match r {
                Ok(started) => !old(self)@ && started.0@ == (CycleView {
                    phase: Phase::ReadWatermark,
                    push_only,
                    token: token@,
                    policy,
                }) && started.1@ == ActionView::ReadWatermark,
                Err(e) => old(self)@ && e@ == SyncErrorView::AlreadyRunning,
            },
    {
        if self.busy {
            Err(SyncError::AlreadyRunning)
        } else {
            self.busy = true;
            Ok(SyncCycle::with_policy(token, push_only, policy))
        }
    }

    /// Marks the cycle under way as over, so that the next one may start.
    pub fn finish(&mut self)
        ensures
            !final(self)@,
    {
        self.busy = false;
    }
}

} // verus!

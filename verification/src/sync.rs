//! The synchronisation engine: collecting the local changes, applying the
//! remote ones, and a whole cycle run against a store.

use vstd::prelude::*;
use vstd::pervasive::unreached;
use vstd::string::*;
use crate::cycle::{Action, Event, SyncCycle};
use crate::errors::{NetworkFaultView, SyncError, SyncErrorView, SyncStatus};
use crate::exchange::{is_success, request_of, ExchangeRequest, RequestView};
use crate::records::{BundleView, SyncBundle};
use crate::store::{advanced, applied, collected, mark_of, Store, StoreView};
use crate::table::ConflictPolicy;

verus! {

/// The change collector: every assistant, topic and message of `store`
/// modified strictly later than `last_sync`, tombstones included, in the
/// order of the tables, together with `last_sync` itself.
pub fn fetch_local_changes(store: &Store, last_sync: &str) -> (bundle: SyncBundle)
    ensures
        bundle@ == collected(store@, last_sync@),
{
    store.changes_since(last_sync)
}

/// The view of the result of an application.
pub open spec fn apply_result(r: Result<(), SyncError>) -> Result<(), SyncErrorView> {
    match r {
        Ok(()) => Ok(()),
        Err(e) => Err(e@),
    }
}

/// The change applier under a chosen policy: applies `bundle` to `store` as
/// one transaction, assistants before topics before messages. Either every
/// row is written, or the store stays as it was and the error names the
/// row that was refused.
pub fn apply_cloud_changes_with(
    store: &mut Store,
    bundle: SyncBundle,
    policy: ConflictPolicy,
) -> (r: Result<(), SyncError>)
    ensures
        match applied(policy, old(store)@, bundle@) {
            Ok(post) => r is Ok && final(store)@ == post,
            Err(f) => apply_result(r) == Err::<(), SyncErrorView>(SyncErrorView::StoreError(f))
                && final(store)@ == old(store)@,
        },
{
    match store.apply(&bundle, policy) {
        Ok(()) => Ok(()),
        Err(f) => Err(SyncError::StoreError(f)),
    }
}

/// The change applier: applies `bundle` to `store` as one transaction,
/// assistants before topics before messages, the incoming row replacing the
/// local row of its identity whatever their timestamps. Either every row is
/// written, or the store stays as it was and the error names the row that
/// was refused.
pub fn apply_cloud_changes(store: &mut Store, bundle: SyncBundle) -> (r: Result<(), SyncError>)
    ensures
        match applied(ConflictPolicy::RemoteWins, old(store)@, bundle@) {
            Ok(post) => r is Ok && final(store)@ == post,
            Err(f) => apply_result(r) == Err::<(), SyncErrorView>(SyncErrorView::StoreError(f))
                && final(store)@ == old(store)@,
        },
{
    apply_cloud_changes_with(store, bundle, ConflictPolicy::RemoteWins)
}

/// The view of what parsing a body gave.
pub open spec fn decoded_view(d: Result<SyncBundle, String>) -> Result<BundleView, Seq<char>> {
    match d {
        Ok(b) => Ok(b@),
        Err(m) => Err(m@),
    }
}

/// The view of a `Reply`.
pub enum ReplyView {
    Unreachable(Seq<char>),
    Response { status: u16, body: Seq<char>, decoded: Result<BundleView, Seq<char>> },
}

/// What the remote side did with the one request of a cycle.
#[derive(Debug, PartialEq, Eq)]
pub enum Reply {
    /// No response came. Carries the transport's description.
    Unreachable(String),
    /// A response came. `decoded` is what parsing `body` as a bundle gives:
    /// the bundle, or the parser's description of what is wrong.
    Response { status: u16, body: String, decoded: Result<SyncBundle, String> },
}

impl View for Reply {
    type V = ReplyView;

    open spec fn view(&self) -> ReplyView {
        match self {
            Reply::Unreachable(d) => ReplyView::Unreachable(d@),
            Reply::Response { status, body, decoded } => ReplyView::Response {
                status: *status,
                body: body@,
                decoded: decoded_view(*decoded),
            },
        }
    }
}

/// The view of how a cycle ended.
pub open spec fn outcome_view(r: Result<SyncStatus, SyncError>) -> Result<
    SyncStatus,
    SyncErrorView,
> {
    match r {
        Ok(s) => Ok(s),
        Err(e) => Err(e@),
    }
}

/// The view of a `SyncReport`.
pub struct ReportView {
    pub request: RequestView,
    pub outcome: Result<SyncStatus, SyncErrorView>,
}

/// What a cycle sent and how it ended.
#[derive(Debug, PartialEq, Eq)]
pub struct SyncReport {
    pub request: ExchangeRequest,
    pub outcome: Result<SyncStatus, SyncError>,
}

impl View for SyncReport {
    type V = ReportView;

    open spec fn view(&self) -> ReportView {
        ReportView { request: self.request@, outcome: outcome_view(self.outcome) }
    }
}

/// The request of a cycle that starts from the store `pre`: the rows
/// changed since its watermark, for the credential `token`.
pub open spec fn cycle_request(pre: StoreView, token: Seq<char>) -> RequestView {
    request_of(collected(pre, mark_of(pre.watermark)), token)
}

/// The store after a cycle that starts from `pre`, is answered by `reply`
/// and completes at `now`.
///
/// A cycle without a successful response leaves the store as it was. A
/// push-only cycle with a successful response records `now` and changes no
/// row. A full cycle with a successful response applies the bundle of the
/// body and then records `now`; where the body holds no bundle, or a row of
/// the bundle is refused, the store stays as it was.
pub open spec fn store_after_cycle(
    pre: StoreView,
    push_only: bool,
    policy: ConflictPolicy,
    reply: ReplyView,
    now: Seq<char>,
) -> StoreView {
    match reply {
        ReplyView::Unreachable(_) => pre,
        ReplyView::Response { status, body, decoded } => if !is_success(status) {
            pre
        } else if push_only {
            advanced(pre, now)
        } else {
            match decoded {
                Err(_) => pre,
                Ok(b) => match applied(policy, pre, b) {
                    Err(_) => pre,
                    Ok(post) => advanced(post, now),
                },
            }
        },
    }
}

/// How a cycle that starts from `pre` and is answered by `reply` ends.
pub open spec fn cycle_outcome(
    pre: StoreView,
    push_only: bool,
    policy: ConflictPolicy,
    reply: ReplyView,
) -> Result<SyncStatus, SyncErrorView> {
    match reply {
        ReplyView::Unreachable(d) => Err(
            SyncErrorView::NetworkError(NetworkFaultView::Unreachable(d)),
        ),
        ReplyView::Response { status, body, decoded } => if !is_success(status) {
            Err(SyncErrorView::NetworkError(NetworkFaultView::Status { code: status, body }))
        } else if push_only {
            Ok(SyncStatus::PushCompleted)
        } else {
            match decoded {
                Err(d) => Err(SyncErrorView::SerializationError(d)),
                Ok(b) => match applied(policy, pre, b) {
                    Err(f) => Err(SyncErrorView::StoreError(f)),
                    Ok(_) => Ok(SyncStatus::SyncCompleted),
                },
            }
        },
    }
}

/// Runs one cycle on `store`: reads the watermark, collects the local
/// changes, frames the request for the credential `token`, takes `reply`
/// for what sending it gave, applies the remote bundle under `policy`
/// unless `push_only`, and records `now` as the watermark. Every step is
/// taken as the orchestrator of `SyncCycle` answers it.
pub fn perform_sync_with(
    store: &mut Store,
    token: &str,
    push_only: bool,
    policy: ConflictPolicy,
    reply: Reply,
    now: &str,
) -> (report: SyncReport)
    ensures
        report@.request == cycle_request(old(store)@, token@),
        report@.outcome == cycle_outcome(old(store)@, push_only, policy, reply@),
        final(store)@ == store_after_cycle(old(store)@, push_only, policy, reply@, now@),
{
    let (mut cycle, _) = SyncCycle::with_policy(String::from_str(token), push_only, policy);
    let to_collect = cycle.step(Event::WatermarkRead(store.watermark()));
    let since = match to_collect {
        Action::Collect { since } => since,
        _ => unreached(),
    };
    let to_exchange = cycle.step(Event::Collected(fetch_local_changes(store, since.as_str())));
    let request = match to_exchange {
        Action::Exchange { request } => request,
        _ => unreached(),
    };
    let (answered, decoded) = match reply {
        Reply::Unreachable(d) => (Event::NetworkFailed(d), None),
        Reply::Response { status, body, decoded } => (
            Event::Replied { status, body },
            Some(decoded),
        ),
    };
    let after_exchange = cycle.step(answered);
    let after_decode = match after_exchange {
        Action::Decode { body: _ } => match decoded {
            Some(Ok(b)) => cycle.step(Event::Decoded(b)),
            Some(Err(d)) => cycle.step(Event::Malformed(d)),
            None => unreached(),
        },
        other => other,
    };
    let after_apply = match after_decode {
        Action::Apply { bundle, policy } => match store.apply(&bundle, policy) {
            Ok(()) => cycle.step(Event::Applied),
            Err(f) => cycle.step(Event::StoreFailed(f)),
        },
        other => other,
    };
    let last = match after_apply {
        Action::Advance => {
            store.advance_watermark(now);
            cycle.step(Event::Advanced)
        },
        other => other,
    };
    let outcome = match last {
        Action::Finish(s) => Ok(s),
        Action::Abort(e) => Err(e),
        _ => unreached(),
    };
    SyncReport { request, outcome }
}

/// Runs one cycle on `store`, what the remote side sends replacing what is
/// there whatever the timestamps: reads the watermark, collects the local
/// changes, frames the request for the credential `token`, takes `reply`
/// for what sending it gave, applies the remote bundle unless `push_only`,
/// and records `now` as the watermark.
pub fn perform_sync(
    store: &mut Store,
    token: &str,
    push_only: bool,
    reply: Reply,
    now: &str,
) -> (report: SyncReport)
    ensures
        report@.request == cycle_request(old(store)@, token@),
        report@.outcome == cycle_outcome(
            old(store)@,
            push_only,
            ConflictPolicy::RemoteWins,
            reply@,
        ),
        final(store)@ == store_after_cycle(
            old(store)@,
            push_only,
            ConflictPolicy::RemoteWins,
            reply@,
            now@,
        ),
{
    perform_sync_with(store, token, push_only, ConflictPolicy::RemoteWins, reply, now)
}

} // verus!

use aio_core::cycle::{Action, Event, Phase, SingleFlight, SyncCycle};
use aio_core::errors::{NetworkFault, StoreFault, SyncError, SyncStatus};
use aio_core::exchange::{bearer, frame_request, status_is_success};
use aio_core::records::{SyncAssistant, SyncBundle, SyncMessage, SyncTopic};
use aio_core::store::Store;
use aio_core::sync::{
    apply_cloud_changes, apply_cloud_changes_with, fetch_local_changes, perform_sync,
    perform_sync_with, Reply,
};
use aio_core::table::ConflictPolicy;

const T0: &str = "2024-01-01 00:00:00";
const T1: &str = "2024-01-02 08:30:00";
const T2: &str = "2024-01-03 09:00:00";
const T5: &str = "2024-01-06 12:00:00";
const T9: &str = "2024-01-10 23:59:59";
const NOW: &str = "2024-02-01 10:00:00";

fn assistant(id: &str, name: &str, updated_at: &str, is_deleted: bool) -> SyncAssistant {
    SyncAssistant {
        id: id.to_string(),
        name: name.to_string(),
        prompt: format!("prompt of {}", name),
        updated_at: updated_at.to_string(),
        is_deleted,
    }
}

fn topic(id: &str, assistant_id: &str, updated_at: &str) -> SyncTopic {
    SyncTopic {
        id: id.to_string(),
        assistant_id: assistant_id.to_string(),
        name: format!("topic {}", id),
        summary: None,
        updated_at: updated_at.to_string(),
        is_deleted: false,
    }
}

fn message(id: &str, topic_id: &str, updated_at: &str) -> SyncMessage {
    SyncMessage {
        id: id.to_string(),
        topic_id: topic_id.to_string(),
        role: "user".to_string(),
        content: "\"hello\"".to_string(),
        model_id: Some("gpt-4".to_string()),
        display_files: None,
        display_text: Some("hello".to_string()),
        timestamp: updated_at.to_string(),
        updated_at: updated_at.to_string(),
        is_deleted: false,
    }
}

fn bundle(
    assistants: Vec<SyncAssistant>,
    topics: Vec<SyncTopic>,
    messages: Vec<SyncMessage>,
) -> SyncBundle {
    SyncBundle { assistants, topics, messages, last_sync_time: T0.to_string() }
}

/// Assistant A1 with topic T1 and two messages, all modified at T1; the
/// watermark is T0.
fn small_store() -> Store {
    let mut store = Store::new();
    store.put_assistant(assistant("A1", "One", T1, false));
    store.put_topic(topic("T1", "A1", T1)).unwrap();
    store.put_message(message("M1", "T1", T1)).unwrap();
    store.put_message(message("M2", "T1", T1)).unwrap();
    store.advance_watermark(T0);
    store
}

fn snapshot(store: &Store) -> (Vec<SyncAssistant>, Vec<SyncTopic>, Vec<SyncMessage>, Option<String>) {
    (
        store.assistants().clone(),
        store.topics().clone(),
        store.messages().clone(),
        store.watermark(),
    )
}

fn ok_response(decoded: Result<SyncBundle, String>) -> Reply {
    Reply::Response { status: 200, body: "{}".to_string(), decoded }
}

#[test]
fn fresh_store_starts_from_the_epoch() {
    let store = Store::new();
    assert_eq!(store.watermark(), None);
    assert_eq!(store.last_sync_time(), "1970-01-01 00:00:00");
    assert!(store.assistants().is_empty());
    assert!(store.topics().is_empty());
    assert!(store.messages().is_empty());
}

#[test]
fn first_cycle_uploads_all_history() {
    let mut store = Store::new();
    store.put_assistant(assistant("A1", "One", "1999-12-31 23:59:59", false));
    store.put_assistant(assistant("A2", "Two", T1, true));
    let sent = fetch_local_changes(&store, &store.last_sync_time());
    assert_eq!(sent.assistants.len(), 2);
    assert_eq!(sent.last_sync_time, "1970-01-01 00:00:00");
}

#[test]
fn put_assistant_appends_then_replaces_in_place() {
    let mut store = Store::new();
    store.put_assistant(assistant("A1", "One", T1, false));
    store.put_assistant(assistant("A2", "Two", T1, false));
    store.put_assistant(assistant("A1", "Uno", T2, true));
    assert_eq!(store.assistants().len(), 2);
    assert_eq!(store.assistants()[0], assistant("A1", "Uno", T2, true));
    assert_eq!(store.assistants()[1], assistant("A2", "Two", T1, false));
}

#[test]
fn put_topic_without_its_assistant_is_refused() {
    let mut store = Store::new();
    let r = store.put_topic(topic("T1", "A1", T1));
    assert_eq!(
        r,
        Err(StoreFault::OrphanTopic { topic: "T1".to_string(), assistant: "A1".to_string() })
    );
    assert!(store.topics().is_empty());
}

#[test]
fn put_message_without_its_topic_is_refused() {
    let mut store = Store::new();
    store.put_assistant(assistant("A1", "One", T1, false));
    let r = store.put_message(message("M1", "T1", T1));
    assert_eq!(
        r,
        Err(StoreFault::OrphanMessage { message: "M1".to_string(), topic: "T1".to_string() })
    );
    assert!(store.messages().is_empty());
}

#[test]
fn collection_is_an_exact_partition() {
    let mut store = Store::new();
    store.put_assistant(assistant("before", "b", "2024-01-01 09:59:59", false));
    store.put_assistant(assistant("at", "a", "2024-01-01 10:00:00", false));
    store.put_assistant(assistant("after", "c", "2024-01-01 10:00:01", false));
    store.put_assistant(assistant("gone", "d", "2024-03-01 00:00:00", true));
    store.put_topic(topic("t-old", "at", "2023-12-31 23:59:59")).unwrap();
    store.put_topic(topic("t-new", "at", "2024-01-01 10:00:01")).unwrap();
    store.put_message(message("m-old", "t-old", "2024-01-01 10:00:00")).unwrap();
    store.put_message(message("m-new", "t-old", "2024-01-02 00:00:00")).unwrap();
    let got = fetch_local_changes(&store, "2024-01-01 10:00:00");
    let ids: Vec<&str> = got.assistants.iter().map(|a| a.id.as_str()).collect();
    assert_eq!(ids, vec!["after", "gone"]);
    let ids: Vec<&str> = got.topics.iter().map(|t| t.id.as_str()).collect();
    assert_eq!(ids, vec!["t-new"]);
    let ids: Vec<&str> = got.messages.iter().map(|m| m.id.as_str()).collect();
    assert_eq!(ids, vec!["m-new"]);
    assert_eq!(got.last_sync_time, "2024-01-01 10:00:00");
    assert!(got.assistants[1].is_deleted);
}

#[test]
fn collection_copies_every_field() {
    let store = small_store();
    let got = fetch_local_changes(&store, T0);
    assert_eq!(got.assistants, vec![assistant("A1", "One", T1, false)]);
    assert_eq!(got.topics, vec![topic("T1", "A1", T1)]);
    assert_eq!(got.messages, vec![message("M1", "T1", T1), message("M2", "T1", T1)]);
}

#[test]
fn push_only_cycle_advances_the_watermark_and_changes_no_row() {
    let mut store = small_store();
    let (assistants, topics, messages, _) = snapshot(&store);
    let report = perform_sync(
        &mut store,
        "secret",
        true,
        ok_response(Err("not consulted".to_string())),
        NOW,
    );
    assert_eq!(report.outcome, Ok(SyncStatus::PushCompleted));
    assert_eq!(report.request.body.assistants.len(), 1);
    assert_eq!(report.request.body.topics.len(), 1);
    assert_eq!(report.request.body.messages.len(), 2);
    assert_eq!(report.request.body.last_sync_time, T0);
    assert_eq!(report.request.url, "http://localhost:8080/api/sync/exchange");
    assert_eq!(report.request.authorization, "Bearer secret");
    assert_eq!(store.watermark(), Some(NOW.to_string()));
    assert!(NOW > T1);
    assert_eq!(store.assistants(), &assistants);
    assert_eq!(store.topics(), &topics);
    assert_eq!(store.messages(), &messages);
}

#[test]
fn remote_tombstone_overwrites_a_live_local_row() {
    let mut store = Store::new();
    store.put_assistant(assistant("A1", "One", T2, false));
    let r = apply_cloud_changes(&mut store, bundle(vec![assistant("A1", "One", T5, true)], vec![], vec![]));
    assert_eq!(r, Ok(()));
    assert_eq!(store.assistants().len(), 1);
    assert!(store.assistants()[0].is_deleted);
    assert_eq!(store.assistants()[0].updated_at, T5);
}

#[test]
fn remote_tombstone_of_an_unknown_row_is_inserted() {
    let mut store = Store::new();
    store.put_assistant(assistant("A1", "One", T2, false));
    let r = apply_cloud_changes(&mut store, bundle(vec![assistant("A2", "Two", T9, true)], vec![], vec![]));
    assert_eq!(r, Ok(()));
    assert_eq!(store.assistants().len(), 2);
    assert_eq!(store.assistants()[1], assistant("A2", "Two", T9, true));
    assert_eq!(store.assistants()[0], assistant("A1", "One", T2, false));
}

#[test]
fn remote_row_wins_even_when_the_local_row_is_newer() {
    let mut store = small_store();
    store.put_assistant(assistant("A1", "Local", T9, false));
    let incoming = assistant("A1", "Remote", T2, true);
    let r = apply_cloud_changes(&mut store, bundle(vec![incoming.clone()], vec![], vec![]));
    assert_eq!(r, Ok(()));
    assert_eq!(store.assistants()[0], incoming);
}

#[test]
fn apply_overwrites_every_field_of_topics_and_messages() {
    let mut store = small_store();
    store.put_assistant(assistant("A2", "Two", T1, false));
    store.put_topic(topic("T2", "A2", T1)).unwrap();
    let mut t = topic("T1", "A2", T5);
    t.name = "renamed".to_string();
    t.summary = Some("sum".to_string());
    t.is_deleted = true;
    let mut m = message("M1", "T2", T5);
    m.role = "assistant".to_string();
    m.content = "[1,2]".to_string();
    m.model_id = None;
    m.display_files = Some("[{\"name\":\"a.txt\"}]".to_string());
    m.display_text = None;
    m.timestamp = T0.to_string();
    m.is_deleted = true;
    let r = apply_cloud_changes(&mut store, bundle(vec![], vec![t.clone()], vec![m.clone()]));
    assert_eq!(r, Ok(()));
    assert_eq!(store.topics()[0], t);
    assert_eq!(store.messages()[0], m);
    assert_eq!(store.messages()[1], message("M2", "T1", T1));
}

#[test]
fn last_of_two_incoming_rows_of_one_identity_stays() {
    let mut store = Store::new();
    let r = apply_cloud_changes(
        &mut store,
        bundle(vec![assistant("A1", "first", T5, false), assistant("A1", "second", T2, true)], vec![], vec![]),
    );
    assert_eq!(r, Ok(()));
    assert_eq!(store.assistants(), &vec![assistant("A1", "second", T2, true)]);
}

#[test]
fn owners_in_the_same_bundle_are_written_first() {
    let mut store = Store::new();
    let r = apply_cloud_changes(
        &mut store,
        bundle(
            vec![assistant("A7", "Seven", T5, true)],
            vec![topic("T7", "A7", T5)],
            vec![message("M7", "T7", T5)],
        ),
    );
    assert_eq!(r, Ok(()));
    assert_eq!(store.assistants().len(), 1);
    assert_eq!(store.topics(), &vec![topic("T7", "A7", T5)]);
    assert_eq!(store.messages(), &vec![message("M7", "T7", T5)]);
}

#[test]
fn orphan_topic_rolls_the_whole_bundle_back() {
    let mut store = small_store();
    let before = snapshot(&store);
    let r = apply_cloud_changes(
        &mut store,
        bundle(
            vec![assistant("A1", "changed", T5, true), assistant("A3", "Three", T5, false)],
            vec![topic("T3", "A3", T5), topic("T4", "missing", T5), topic("T5", "nobody", T5)],
            vec![message("M9", "T3", T5)],
        ),
    );
    assert_eq!(
        r,
        Err(SyncError::StoreError(StoreFault::OrphanTopic {
            topic: "T4".to_string(),
            assistant: "missing".to_string(),
        }))
    );
    assert_eq!(snapshot(&store), before);
}

#[test]
fn orphan_message_rolls_the_whole_bundle_back() {
    let mut store = small_store();
    let before = snapshot(&store);
    let r = apply_cloud_changes(
        &mut store,
        bundle(
            vec![assistant("A3", "Three", T5, false)],
            vec![topic("T3", "A3", T5)],
            vec![message("M8", "T3", T5), message("M9", "nowhere", T5)],
        ),
    );
    assert_eq!(
        r,
        Err(SyncError::StoreError(StoreFault::OrphanMessage {
            message: "M9".to_string(),
            topic: "nowhere".to_string(),
        }))
    );
    assert_eq!(snapshot(&store), before);
}

#[test]
fn newer_wins_keeps_a_local_row_that_is_strictly_newer() {
    let mut store = Store::new();
    store.put_assistant(assistant("A1", "Local", T5, false));
    store.put_assistant(assistant("A2", "Local", T2, false));
    store.put_assistant(assistant("A3", "Local", T2, false));
    let r = apply_cloud_changes_with(
        &mut store,
        bundle(
            vec![
                assistant("A1", "Remote", T2, true),
                assistant("A2", "Remote", T5, true),
                assistant("A3", "Remote", T2, true),
            ],
            vec![],
            vec![],
        ),
        ConflictPolicy::NewerWins,
    );
    assert_eq!(r, Ok(()));
    assert_eq!(store.assistants()[0], assistant("A1", "Local", T5, false));
    assert_eq!(store.assistants()[1], assistant("A2", "Remote", T5, true));
    assert_eq!(store.assistants()[2], assistant("A3", "Remote", T2, true));
}

#[test]
fn newer_wins_does_not_refuse_a_row_it_does_not_write() {
    let mut store = small_store();
    store.put_topic(topic("T1", "A1", T9)).unwrap();
    let before = snapshot(&store);
    let r = apply_cloud_changes_with(
        &mut store,
        bundle(vec![], vec![topic("T1", "missing", T2)], vec![]),
        ConflictPolicy::NewerWins,
    );
    assert_eq!(r, Ok(()));
    assert_eq!(snapshot(&store), before);
    let r = apply_cloud_changes(&mut store, bundle(vec![], vec![topic("T1", "missing", T2)], vec![]));
    assert!(r.is_err());
    assert_eq!(snapshot(&store), before);
}

#[test]
fn full_cycle_applies_the_remote_bundle_and_advances() {
    let mut store = small_store();
    let remote = bundle(
        vec![assistant("A1", "One", T5, true), assistant("A2", "Two", T9, true)],
        vec![topic("T2", "A2", T9)],
        vec![],
    );
    let report = perform_sync(&mut store, "tok", false, ok_response(Ok(remote)), NOW);
    assert_eq!(report.outcome, Ok(SyncStatus::SyncCompleted));
    assert_eq!(report.request.body.messages.len(), 2);
    assert_eq!(store.watermark(), Some(NOW.to_string()));
    assert_eq!(store.assistants().len(), 2);
    assert!(store.assistants()[0].is_deleted);
    assert_eq!(store.assistants()[0].updated_at, T5);
    assert_eq!(store.topics().len(), 2);
    assert_eq!(store.messages().len(), 2);
}

#[test]
fn failed_exchange_leaves_the_store_as_it_was() {
    let mut store = small_store();
    let before = snapshot(&store);
    let report = perform_sync(&mut store, "tok", false, Reply::Unreachable("refused".to_string()), NOW);
    assert_eq!(
        report.outcome,
        Err(SyncError::NetworkError(NetworkFault::Unreachable("refused".to_string())))
    );
    assert_eq!(snapshot(&store), before);
    let report = perform_sync(
        &mut store,
        "tok",
        true,
        Reply::Response {
            status: 503,
            body: "try later".to_string(),
            decoded: Ok(bundle(vec![assistant("A9", "Nine", T9, false)], vec![], vec![])),
        },
        NOW,
    );
    assert_eq!(
        report.outcome,
        Err(SyncError::NetworkError(NetworkFault::Status { code: 503, body: "try later".to_string() }))
    );
    assert_eq!(snapshot(&store), before);
}

#[test]
fn malformed_body_leaves_the_store_as_it_was() {
    let mut store = small_store();
    let before = snapshot(&store);
    let report =
        perform_sync(&mut store, "tok", false, ok_response(Err("expected value".to_string())), NOW);
    assert_eq!(report.outcome, Err(SyncError::SerializationError("expected value".to_string())));
    assert_eq!(snapshot(&store), before);
}

#[test]
fn failed_apply_leaves_the_store_and_the_watermark_as_they_were() {
    let mut store = small_store();
    let before = snapshot(&store);
    let remote = bundle(vec![assistant("A1", "changed", T9, true)], vec![topic("TX", "nobody", T9)], vec![]);
    let report = perform_sync(&mut store, "tok", false, ok_response(Ok(remote)), NOW);
    assert_eq!(
        report.outcome,
        Err(SyncError::StoreError(StoreFault::OrphanTopic {
            topic: "TX".to_string(),
            assistant: "nobody".to_string(),
        }))
    );
    assert_eq!(snapshot(&store), before);
    assert_eq!(store.watermark(), Some(T0.to_string()));
}

#[test]
fn retried_cycle_collects_the_same_changes_again() {
    let mut store = small_store();
    let first = perform_sync(&mut store, "tok", true, Reply::Unreachable("down".to_string()), NOW);
    let second = perform_sync(&mut store, "tok", true, ok_response(Err(String::new())), NOW);
    assert_eq!(first.request, second.request);
    assert_eq!(second.outcome, Ok(SyncStatus::PushCompleted));
    let third = perform_sync(&mut store, "tok", true, ok_response(Err(String::new())), T9);
    assert!(third.request.body.assistants.is_empty());
    assert!(third.request.body.messages.is_empty());
    assert_eq!(third.request.body.last_sync_time, NOW);
}

#[test]
fn watermark_after_a_completed_cycle_is_the_completion_time() {
    let mut store = small_store();
    let report = perform_sync(&mut store, "tok", false, ok_response(Ok(bundle(vec![], vec![], vec![]))), T9);
    assert_eq!(report.outcome, Ok(SyncStatus::SyncCompleted));
    let after = store.watermark().unwrap();
    assert_eq!(after, T9);
    assert!(after.as_str() >= T0);
}

#[test]
fn orchestrator_walks_a_full_cycle() {
    let (mut cycle, first) = SyncCycle::new("tok".to_string(), false);
    assert_eq!(first, Action::ReadWatermark);
    assert_eq!(cycle.phase(), Phase::ReadWatermark);
    assert!(cycle.holds_lock());
    assert!(!cycle.push_only());

    let a = cycle.step(Event::WatermarkRead(None));
    assert_eq!(a, Action::Collect { since: "1970-01-01 00:00:00".to_string() });
    assert_eq!(cycle.phase(), Phase::CollectLocal);
    assert!(cycle.holds_lock());

    let local = bundle(vec![assistant("A1", "One", T1, false)], vec![], vec![]);
    let a = cycle.step(Event::Collected(local.clone()));
    assert_eq!(a, Action::Exchange { request: frame_request(local, "tok") });
    assert_eq!(cycle.phase(), Phase::Exchange);
    assert!(!cycle.holds_lock());

    let a = cycle.step(Event::Replied { status: 200, body: "{..}".to_string() });
    assert_eq!(a, Action::Decode { body: "{..}".to_string() });
    assert_eq!(cycle.phase(), Phase::DecodeRemote);
    assert!(!cycle.holds_lock());

    let remote = bundle(vec![assistant("A2", "Two", T5, false)], vec![], vec![]);
    let a = cycle.step(Event::Decoded(remote.clone()));
    assert_eq!(a, Action::Apply { bundle: remote, policy: ConflictPolicy::RemoteWins });
    assert_eq!(cycle.phase(), Phase::ApplyRemote);
    assert!(cycle.holds_lock());

    let a = cycle.step(Event::Applied);
    assert_eq!(a, Action::Advance);
    assert_eq!(cycle.phase(), Phase::AdvanceWatermark);
    assert!(cycle.holds_lock());

    let a = cycle.step(Event::Advanced);
    assert_eq!(a, Action::Finish(SyncStatus::SyncCompleted));
    assert_eq!(cycle.phase(), Phase::Done);
    assert!(!cycle.holds_lock());
    assert!(cycle.is_over());
}

#[test]
fn orchestrator_skips_decode_and_apply_when_only_pushing() {
    let (mut cycle, _) = SyncCycle::new("tok".to_string(), true);
    let a = cycle.step(Event::WatermarkRead(Some(T1.to_string())));
    assert_eq!(a, Action::Collect { since: T1.to_string() });
    cycle.step(Event::Collected(bundle(vec![], vec![], vec![])));
    let a = cycle.step(Event::Replied { status: 204, body: "ignored".to_string() });
    assert_eq!(a, Action::Advance);
    assert_eq!(cycle.phase(), Phase::AdvanceWatermark);
    let a = cycle.step(Event::Advanced);
    assert_eq!(a, Action::Finish(SyncStatus::PushCompleted));
}

#[test]
fn orchestrator_aborts_on_each_kind_of_failure() {
    let (mut cycle, _) = SyncCycle::new("tok".to_string(), false);
    let a = cycle.step(Event::StoreFailed(StoreFault::Backend("locked".to_string())));
    assert_eq!(a, Action::Abort(SyncError::StoreError(StoreFault::Backend("locked".to_string()))));
    assert_eq!(cycle.phase(), Phase::Failed);
    assert!(!cycle.holds_lock());

    let (mut cycle, _) = SyncCycle::new("tok".to_string(), false);
    cycle.step(Event::WatermarkRead(None));
    cycle.step(Event::Collected(bundle(vec![], vec![], vec![])));
    let a = cycle.step(Event::Replied { status: 199, body: "early".to_string() });
    assert_eq!(
        a,
        Action::Abort(SyncError::NetworkError(NetworkFault::Status {
            code: 199,
            body: "early".to_string(),
        }))
    );
    assert_eq!(cycle.phase(), Phase::Failed);

    let (mut cycle, _) = SyncCycle::new("tok".to_string(), false);
    cycle.step(Event::WatermarkRead(None));
    cycle.step(Event::Collected(bundle(vec![], vec![], vec![])));
    cycle.step(Event::Replied { status: 299, body: "x".to_string() });
    let a = cycle.step(Event::Malformed("eof".to_string()));
    assert_eq!(a, Action::Abort(SyncError::SerializationError("eof".to_string())));
    assert!(cycle.is_over());
}

#[test]
fn orchestrator_refuses_events_out_of_turn() {
    let (mut cycle, _) = SyncCycle::new("tok".to_string(), false);
    let a = cycle.step(Event::Applied);
    assert_eq!(a, Action::Abort(SyncError::OutOfTurn));
    assert_eq!(cycle.phase(), Phase::Failed);
    let a = cycle.step(Event::WatermarkRead(None));
    assert_eq!(a, Action::Abort(SyncError::OutOfTurn));
    assert_eq!(cycle.phase(), Phase::Failed);

    let (mut cycle, _) = SyncCycle::new("tok".to_string(), true);
    cycle.step(Event::WatermarkRead(None));
    cycle.step(Event::Collected(bundle(vec![], vec![], vec![])));
    cycle.step(Event::Replied { status: 200, body: String::new() });
    cycle.step(Event::Advanced);
    assert_eq!(cycle.phase(), Phase::Done);
    let a = cycle.step(Event::Advanced);
    assert_eq!(a, Action::Abort(SyncError::OutOfTurn));
    assert_eq!(cycle.phase(), Phase::Done);
}

#[test]
fn request_is_framed_for_the_exchange_endpoint() {
    assert_eq!(bearer("abc.def"), "Bearer abc.def");
    assert_eq!(bearer(""), "Bearer ");
    let r = frame_request(bundle(vec![], vec![], vec![]), "t0k");
    assert_eq!(r.url, "http://localhost:8080/api/sync/exchange");
    assert_eq!(r.authorization, "Bearer t0k");
    assert_eq!(r.body, bundle(vec![], vec![], vec![]));
}

#[test]
fn success_is_a_status_from_200_to_299() {
    assert!(!status_is_success(199));
    assert!(status_is_success(200));
    assert!(status_is_success(204));
    assert!(status_is_success(299));
    assert!(!status_is_success(300));
    assert!(!status_is_success(404));
    assert!(!status_is_success(0));
    assert!(!status_is_success(u16::MAX));
}

#[test]
fn errors_and_statuses_have_one_message_each() {
    assert_eq!(SyncStatus::PushCompleted.message(), "Push completed");
    assert_eq!(SyncStatus::SyncCompleted.message(), "Sync successful");
    assert_eq!(
        SyncError::NetworkError(NetworkFault::Unreachable("timed out".to_string())).message(),
        "Network error: timed out"
    );
    assert_eq!(
        SyncError::NetworkError(NetworkFault::Status { code: 500, body: "boom".to_string() })
            .message(),
        "boom"
    );
    assert_eq!(
        SyncError::StoreError(StoreFault::Backend("disk full".to_string())).message(),
        "disk full"
    );
    assert_eq!(
        SyncError::StoreError(StoreFault::OrphanTopic {
            topic: "T".to_string(),
            assistant: "A".to_string(),
        })
        .message(),
        "topic T names an assistant that is not stored: A"
    );
    assert_eq!(
        SyncError::StoreError(StoreFault::OrphanMessage {
            message: "M".to_string(),
            topic: "T".to_string(),
        })
        .message(),
        "message M names a topic that is not stored: T"
    );
    assert_eq!(SyncError::SerializationError("bad json".to_string()).message(), "bad json");
    assert_eq!(SyncError::OutOfTurn.message(), "synchronisation steps out of turn");
}

#[test]
fn cycle_hands_its_policy_to_the_application() {
    let (mut cycle, _) = SyncCycle::with_policy("tok".to_string(), false, ConflictPolicy::NewerWins);
    cycle.step(Event::WatermarkRead(None));
    cycle.step(Event::Collected(bundle(vec![], vec![], vec![])));
    cycle.step(Event::Replied { status: 200, body: String::new() });
    let a = cycle.step(Event::Decoded(bundle(vec![], vec![], vec![])));
    assert_eq!(
        a,
        Action::Apply { bundle: bundle(vec![], vec![], vec![]), policy: ConflictPolicy::NewerWins }
    );
}

#[test]
fn full_cycle_under_newer_wins_keeps_the_newer_local_row() {
    let mut store = small_store();
    store.put_assistant(assistant("A1", "Local", T9, false));
    let remote = bundle(vec![assistant("A1", "Remote", T5, true)], vec![], vec![]);
    let report = perform_sync_with(
        &mut store,
        "tok",
        false,
        ConflictPolicy::NewerWins,
        ok_response(Ok(remote)),
        NOW,
    );
    assert_eq!(report.outcome, Ok(SyncStatus::SyncCompleted));
    assert_eq!(store.assistants()[0], assistant("A1", "Local", T9, false));
    assert_eq!(store.watermark(), Some(NOW.to_string()));
}

#[test]
fn second_cycle_is_refused_while_the_first_is_under_way() {
    let mut flight = SingleFlight::new();
    assert!(!flight.is_busy());
    let first = flight.try_begin("tok".to_string(), true, ConflictPolicy::RemoteWins);
    let (cycle, action) = first.unwrap();
    assert_eq!(action, Action::ReadWatermark);
    assert_eq!(cycle.phase(), Phase::ReadWatermark);
    assert!(cycle.push_only());
    assert!(flight.is_busy());
    let second = flight.try_begin("tok".to_string(), false, ConflictPolicy::RemoteWins);
    assert_eq!(second.err(), Some(SyncError::AlreadyRunning));
    assert!(flight.is_busy());
    flight.finish();
    assert!(!flight.is_busy());
    assert!(flight.try_begin("tok".to_string(), false, ConflictPolicy::NewerWins).is_ok());
    assert_eq!(SyncError::AlreadyRunning.message(), "a synchronisation is already running");
}

#[test]
fn lock_is_held_in_two_stretches_of_a_cycle() {
    let (mut cycle, _) = SyncCycle::new("tok".to_string(), false);
    let mut held = vec![cycle.holds_lock()];
    let events = vec![
        Event::WatermarkRead(None),
        Event::Collected(bundle(vec![], vec![], vec![])),
        Event::Replied { status: 200, body: String::new() },
        Event::Decoded(bundle(vec![], vec![], vec![])),
        Event::Applied,
        Event::Advanced,
    ];
    for e in events {
        cycle.step(e);
        held.push(cycle.holds_lock());
    }
    assert_eq!(held, vec![true, true, false, false, true, true, false]);
    let taken = 1 + held.windows(2).filter(|w| !w[0] && w[1]).count();
    assert_eq!(taken, 2);
}

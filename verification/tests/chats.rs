use aio_core::chats::{
    delete_assistant, live_messages, live_topics, load_assistants, save_assistant,
    AssistantBranch, TopicBranch,
};
use aio_core::order::sort_by_rank;
use aio_core::records::{SyncAssistant, SyncMessage, SyncTopic};
use aio_core::store::Store;
use aio_core::sync::fetch_local_changes;

const T1: &str = "2024-01-02 08:30:00";
const T2: &str = "2024-01-03 09:00:00";
const T3: &str = "2024-01-04 10:00:00";
const NOW: &str = "2024-02-01 10:00:00";

fn assistant(id: &str, updated_at: &str, is_deleted: bool) -> SyncAssistant {
    SyncAssistant {
        id: id.to_string(),
        name: format!("name of {}", id),
        prompt: format!("prompt of {}", id),
        updated_at: updated_at.to_string(),
        is_deleted,
    }
}

fn topic(id: &str, assistant_id: &str, updated_at: &str, is_deleted: bool) -> SyncTopic {
    SyncTopic {
        id: id.to_string(),
        assistant_id: assistant_id.to_string(),
        name: format!("topic {}", id),
        summary: Some(format!("summary {}", id)),
        updated_at: updated_at.to_string(),
        is_deleted,
    }
}

fn message(id: &str, topic_id: &str, timestamp: &str, is_deleted: bool) -> SyncMessage {
    SyncMessage {
        id: id.to_string(),
        topic_id: topic_id.to_string(),
        role: "user".to_string(),
        content: format!("\"content of {}\"", id),
        model_id: Some("gpt-4".to_string()),
        display_files: Some("[{\"name\":\"a.txt\"}]".to_string()),
        display_text: None,
        timestamp: timestamp.to_string(),
        updated_at: timestamp.to_string(),
        is_deleted,
    }
}

/// Two assistants: A with topics TA1 (messages M1, M2) and TA2 (M3), B with
/// topic TB (M4).
fn two_assistants() -> Store {
    let mut s = Store::new();
    s.put_assistant(assistant("B", T1, false));
    s.put_assistant(assistant("A", T1, false));
    s.put_topic(topic("TA1", "A", T1, false)).unwrap();
    s.put_topic(topic("TB", "B", T1, false)).unwrap();
    s.put_topic(topic("TA2", "A", T1, false)).unwrap();
    s.put_message(message("M1", "TA1", T2, false)).unwrap();
    s.put_message(message("M4", "TB", T1, false)).unwrap();
    s.put_message(message("M2", "TA1", T1, false)).unwrap();
    s.put_message(message("M3", "TA2", T1, false)).unwrap();
    s.advance_watermark(T3);
    s
}

fn bury<T: Clone>(row: &T, f: impl Fn(&mut T)) -> T {
    let mut r = row.clone();
    f(&mut r);
    r
}

#[test]
fn deleting_an_assistant_buries_all_that_belongs_to_it() {
    let mut s = two_assistants();
    let before = two_assistants();
    delete_assistant(&mut s, "A", NOW);
    assert_eq!(s.assistants().len(), 2);
    assert_eq!(s.topics().len(), 3);
    assert_eq!(s.messages().len(), 4);
    assert_eq!(s.assistants()[0], before.assistants()[0]);
    assert_eq!(
        s.assistants()[1],
        bury(&before.assistants()[1], |a| {
            a.is_deleted = true;
            a.updated_at = NOW.to_string();
        })
    );
    for (i, t) in s.topics().iter().enumerate() {
        let old = &before.topics()[i];
        if old.assistant_id == "A" {
            assert_eq!(
                *t,
                bury(old, |t| {
                    t.is_deleted = true;
                    t.updated_at = NOW.to_string();
                })
            );
        } else {
            assert_eq!(t, old);
        }
    }
    for (i, m) in s.messages().iter().enumerate() {
        let old = &before.messages()[i];
        if old.topic_id == "TB" {
            assert_eq!(m, old);
        } else {
            assert_eq!(
                *m,
                bury(old, |m| {
                    m.is_deleted = true;
                    m.updated_at = NOW.to_string();
                })
            );
            assert_eq!(m.timestamp, old.timestamp);
        }
    }
    assert_eq!(s.watermark(), Some(T3.to_string()));
}

#[test]
fn deleting_an_unknown_assistant_changes_nothing() {
    let mut s = two_assistants();
    delete_assistant(&mut s, "nobody", NOW);
    let before = two_assistants();
    assert_eq!(s.assistants(), before.assistants());
    assert_eq!(s.topics(), before.topics());
    assert_eq!(s.messages(), before.messages());
}

#[test]
fn tombstones_of_a_deletion_are_collected_by_the_next_cycle() {
    let mut s = two_assistants();
    assert!(fetch_local_changes(&s, T3).assistants.is_empty());
    delete_assistant(&mut s, "B", NOW);
    let sent = fetch_local_changes(&s, T3);
    assert_eq!(sent.assistants.len(), 1);
    assert!(sent.assistants[0].is_deleted);
    assert_eq!(sent.topics.len(), 1);
    assert_eq!(sent.messages.len(), 1);
    assert_eq!(sent.messages[0].id, "M4");
    assert!(sent.messages[0].is_deleted);
}

#[test]
fn load_shows_what_is_not_deleted_in_order() {
    let mut s = two_assistants();
    s.put_assistant(assistant("0-gone", T1, true));
    s.put_topic(topic("TA3", "A", T1, true)).unwrap();
    s.put_message(message("M5", "TA1", T1, true)).unwrap();
    s.put_message(message("M6", "TA1", "2024-01-01 00:00:00", false)).unwrap();
    let shown = load_assistants(&s);
    let ids: Vec<&str> = shown.iter().map(|a| a.assistant.id.as_str()).collect();
    assert_eq!(ids, vec!["A", "B"]);
    let topics: Vec<&str> = shown[0].topics.iter().map(|t| t.topic.id.as_str()).collect();
    assert_eq!(topics, vec!["TA1", "TA2"]);
    let messages: Vec<&str> = shown[0].topics[0].messages.iter().map(|m| m.id.as_str()).collect();
    assert_eq!(messages, vec!["M6", "M2", "M1"]);
    assert_eq!(shown[0].topics[1].messages, vec![message("M3", "TA2", T1, false)]);
    assert_eq!(shown[1].topics.len(), 1);
    assert_eq!(shown[1].topics[0].topic, topic("TB", "B", T1, false));
    assert_eq!(shown[1].assistant, assistant("B", T1, false));
    assert!(load_assistants(&Store::new()).is_empty());
}

#[test]
fn load_after_delete_shows_nothing_of_the_assistant() {
    let mut s = two_assistants();
    delete_assistant(&mut s, "A", NOW);
    let shown = load_assistants(&s);
    assert_eq!(shown.len(), 1);
    assert_eq!(shown[0].assistant.id, "B");
    assert!(live_topics(&s, &"A".to_string()).is_empty());
    assert!(live_messages(s.messages(), &"TA1".to_string()).is_empty());
    assert_eq!(live_messages(s.messages(), &"TB".to_string()).len(), 1);
}

#[test]
fn messages_of_one_time_stay_in_the_order_of_the_table() {
    let items = vec![
        message("c", "T", T2, false),
        message("a", "T", T1, false),
        message("d", "T", T2, false),
        message("b", "T", T1, false),
        message("e", "T", "2023", false),
    ];
    let sorted = sort_by_rank(&items);
    let ids: Vec<&str> = sorted.iter().map(|m| m.id.as_str()).collect();
    assert_eq!(ids, vec!["e", "a", "b", "c", "d"]);
    assert!(sort_by_rank(&Vec::<SyncMessage>::new()).is_empty());
    let mut expected = items.clone();
    expected.sort_by(|x, y| x.timestamp.cmp(&y.timestamp));
    assert_eq!(sorted, expected);
}

#[test]
fn assistants_are_ordered_by_the_bytes_of_their_identities() {
    let items: Vec<SyncAssistant> =
        ["b", "B", "a10", "a9", "é", "", "a"].iter().map(|id| assistant(id, T1, false)).collect();
    let sorted = sort_by_rank(&items);
    let ids: Vec<&str> = sorted.iter().map(|a| a.id.as_str()).collect();
    assert_eq!(ids, vec!["", "B", "a", "a10", "a9", "b", "é"]);
}

fn draft_message(id: &str, content: &str) -> SyncMessage {
    SyncMessage {
        id: id.to_string(),
        topic_id: "ignored".to_string(),
        role: "assistant".to_string(),
        content: content.to_string(),
        model_id: None,
        display_files: None,
        display_text: Some("shown".to_string()),
        timestamp: "ignored".to_string(),
        updated_at: "ignored".to_string(),
        is_deleted: true,
    }
}

fn draft(id: &str, topics: Vec<TopicBranch>) -> AssistantBranch {
    AssistantBranch {
        assistant: SyncAssistant {
            id: id.to_string(),
            name: "saved name".to_string(),
            prompt: "saved prompt".to_string(),
            updated_at: "ignored".to_string(),
            is_deleted: true,
        },
        topics,
    }
}

fn draft_topic(id: &str, messages: Vec<SyncMessage>) -> TopicBranch {
    TopicBranch {
        topic: SyncTopic {
            id: id.to_string(),
            assistant_id: "ignored".to_string(),
            name: "saved topic".to_string(),
            summary: None,
            updated_at: "ignored".to_string(),
            is_deleted: true,
        },
        messages,
    }
}

#[test]
fn saving_a_new_assistant_inserts_all_of_it() {
    let mut s = Store::new();
    save_assistant(
        &mut s,
        &draft("N", vec![draft_topic("TN", vec![draft_message("MN1", "1"), draft_message("MN2", "2")])]),
        NOW,
    );
    assert_eq!(
        s.assistants(),
        &vec![SyncAssistant {
            id: "N".to_string(),
            name: "saved name".to_string(),
            prompt: "saved prompt".to_string(),
            updated_at: NOW.to_string(),
            is_deleted: false,
        }]
    );
    assert_eq!(
        s.topics(),
        &vec![SyncTopic {
            id: "TN".to_string(),
            assistant_id: "N".to_string(),
            name: "saved topic".to_string(),
            summary: None,
            updated_at: NOW.to_string(),
            is_deleted: false,
        }]
    );
    assert_eq!(s.messages().len(), 2);
    assert_eq!(
        s.messages()[1],
        SyncMessage {
            id: "MN2".to_string(),
            topic_id: "TN".to_string(),
            role: "assistant".to_string(),
            content: "2".to_string(),
            model_id: None,
            display_files: None,
            display_text: Some("shown".to_string()),
            timestamp: NOW.to_string(),
            updated_at: NOW.to_string(),
            is_deleted: false,
        }
    );
}

#[test]
fn saving_buries_the_messages_that_are_no_longer_given() {
    let mut s = two_assistants();
    let before = two_assistants();
    save_assistant(
        &mut s,
        &draft("A", vec![draft_topic("TA1", vec![draft_message("M2", "edited"), draft_message("M9", "new")])]),
        NOW,
    );
    assert_eq!(s.assistants()[0], before.assistants()[0]);
    assert_eq!(s.assistants()[1].name, "saved name");
    assert_eq!(s.assistants()[1].updated_at, NOW);
    let m1 = &s.messages()[0];
    assert_eq!(m1.id, "M1");
    assert!(m1.is_deleted);
    assert_eq!(m1.updated_at, NOW);
    assert_eq!(m1.content, before.messages()[0].content);
    assert_eq!(s.messages()[1], before.messages()[1]);
    let m2 = &s.messages()[2];
    assert_eq!(
        *m2,
        SyncMessage {
            id: "M2".to_string(),
            topic_id: "TA1".to_string(),
            role: "user".to_string(),
            content: "edited".to_string(),
            model_id: None,
            display_files: None,
            display_text: Some("shown".to_string()),
            timestamp: T1.to_string(),
            updated_at: NOW.to_string(),
            is_deleted: false,
        }
    );
    assert_eq!(s.messages()[3], before.messages()[3]);
    assert_eq!(s.messages()[4].id, "M9");
    assert_eq!(s.messages()[4].topic_id, "TA1");
    assert_eq!(s.messages()[4].timestamp, NOW);
    assert_eq!(s.messages().len(), 5);
    assert_eq!(s.topics()[2], before.topics()[2]);
    assert_eq!(s.topics()[0].name, "saved topic");
    assert_eq!(s.topics()[0].summary, None);
    assert_eq!(s.topics()[0].assistant_id, "A");
}

#[test]
fn saving_a_topic_without_messages_buries_all_its_messages() {
    let mut s = two_assistants();
    save_assistant(&mut s, &draft("A", vec![draft_topic("TA1", vec![])]), NOW);
    let buried: Vec<&str> =
        s.messages().iter().filter(|m| m.is_deleted).map(|m| m.id.as_str()).collect();
    assert_eq!(buried, vec!["M1", "M2"]);
}

#[test]
fn saving_leaves_a_known_topic_with_its_assistant_and_revives_tombstones() {
    let mut s = two_assistants();
    delete_assistant(&mut s, "B", T2);
    save_assistant(&mut s, &draft("A", vec![draft_topic("TB", vec![draft_message("M4", "back")])]), NOW);
    let tb = s.topics().iter().find(|t| t.id == "TB").unwrap();
    assert_eq!(tb.assistant_id, "B");
    assert!(!tb.is_deleted);
    assert_eq!(tb.updated_at, NOW);
    let m4 = s.messages().iter().find(|m| m.id == "M4").unwrap();
    assert!(!m4.is_deleted);
    assert_eq!(m4.content, "back");
    assert_eq!(m4.topic_id, "TB");
    assert_eq!(m4.role, "user");
    let b = s.assistants().iter().find(|a| a.id == "B").unwrap();
    assert!(b.is_deleted);
    assert_eq!(s.assistants().len(), 2);
}

#[test]
fn saved_rows_are_collected_by_the_next_cycle() {
    let mut s = two_assistants();
    save_assistant(&mut s, &draft("A", vec![draft_topic("TA2", vec![draft_message("M3", "x")])]), NOW);
    let sent = fetch_local_changes(&s, T3);
    let ids: Vec<&str> = sent.assistants.iter().map(|a| a.id.as_str()).collect();
    assert_eq!(ids, vec!["A"]);
    let ids: Vec<&str> = sent.topics.iter().map(|t| t.id.as_str()).collect();
    assert_eq!(ids, vec!["TA2"]);
    let ids: Vec<&str> = sent.messages.iter().map(|m| m.id.as_str()).collect();
    assert_eq!(ids, vec!["M3"]);
}

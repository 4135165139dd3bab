use aio_core::llm::{
    chat_request, chat_url, chunk_payload, done_payload, error_payload, models_url, read_line,
    read_lines, summary_outcome, summary_request, summary_url, task_key, ChatContent,
    ChatMessage, LineBuffer, SseStep,
};
use aio_core::models::Message;

fn msg(role: &str, content: &str) -> Message {
    Message {
        id: "m".to_string(),
        role: role.to_string(),
        content: content.to_string(),
        model_id: None,
        display_files: None,
        display_text: Some("shown".to_string()),
        updated_at: "2024-01-01 00:00:00".to_string(),
    }
}

#[test]
fn chat_url_ends_with_the_completions_path_once() {
    assert_eq!(chat_url("https://api.x.com/v1"), "https://api.x.com/v1/chat/completions");
    assert_eq!(chat_url("https://api.x.com/v1/"), "https://api.x.com/v1/chat/completions");
    assert_eq!(chat_url("https://api.x.com/v1///"), "https://api.x.com/v1/chat/completions");
    assert_eq!(chat_url("https://api.x.com/v1/chat/completions"), "https://api.x.com/v1/chat/completions");
    assert_eq!(chat_url("https://api.x.com/v1/chat/completions/"), "https://api.x.com/v1/chat/completions");
    assert_eq!(chat_url(""), "/chat/completions");
}

#[test]
fn models_url_drops_the_completions_path() {
    assert_eq!(models_url("https://api.x.com/v1"), "https://api.x.com/v1/models");
    assert_eq!(models_url("https://api.x.com/v1/"), "https://api.x.com/v1/models");
    assert_eq!(models_url("https://api.x.com/v1/chat/completions"), "https://api.x.com/v1/models");
    assert_eq!(models_url("https://api.x.com/v1/chat/completions/"), "https://api.x.com/v1/models");
    assert_eq!(models_url("h/chat/completions/v1"), "h/chat/completions/v1/models");
    assert_eq!(models_url("h/chat/completions/v1/chat/completions"), "h/v1/models");
}

#[test]
fn summary_url_drops_every_completions_path_and_adds_one() {
    assert_eq!(summary_url("https://api.x.com/v1"), "https://api.x.com/v1/chat/completions");
    assert_eq!(summary_url("https://api.x.com/v1/chat/completions/"), "https://api.x.com/v1/chat/completions");
    assert_eq!(summary_url("h/chat/completions/v1"), "h/v1/chat/completions");
}

#[test]
fn task_key_joins_the_two_identities() {
    assert_eq!(task_key("a1", "t9"), "a1-t9");
    assert_eq!(task_key("", ""), "-");
}

#[test]
fn chat_request_carries_role_and_content_only() {
    let r = chat_request("gpt-4", &vec![msg("user", "\"hi\""), msg("assistant", "[{\"type\":\"text\"}]")]);
    assert_eq!(r.model, "gpt-4");
    assert!(r.stream);
    assert_eq!(
        r.messages,
        vec![
            ChatMessage { role: "user".to_string(), content: ChatContent::Json("\"hi\"".to_string()) },
            ChatMessage {
                role: "assistant".to_string(),
                content: ChatContent::Json("[{\"type\":\"text\"}]".to_string()),
            },
        ]
    );
    assert!(chat_request("m", &vec![]).messages.is_empty());
}

#[test]
fn summary_request_ends_with_the_instruction() {
    let r = summary_request("gpt-4", &vec![msg("user", "\"hi\"")]);
    assert!(!r.stream);
    assert_eq!(r.messages.len(), 2);
    assert_eq!(r.messages[0].role, "user");
    assert_eq!(
        r.messages[1],
        ChatMessage {
            role: "system".to_string(),
            content: ChatContent::Text(
                "请简要总结以上对话的核心内容和用户需求，作为后续交流的长期记忆（500字以内）。".to_string()
            ),
        }
    );
}

#[test]
fn summary_outcome_prefers_the_error() {
    assert_eq!(summary_outcome(Some(Some("quota".to_string())), Some("text".to_string())), Err("quota".to_string()));
    assert_eq!(summary_outcome(Some(None), None), Err("API Error".to_string()));
    assert_eq!(summary_outcome(None, Some("the summary".to_string())), Ok("the summary".to_string()));
    assert_eq!(summary_outcome(None, None), Ok("无法生成总结".to_string()));
}

#[test]
fn lines_are_read_as_steps() {
    assert_eq!(read_line("data: [DONE]"), Some(SseStep::Done));
    assert_eq!(read_line("data: {\"a\":1}"), Some(SseStep::Data("{\"a\":1}".to_string())));
    assert_eq!(read_line("data: "), Some(SseStep::Data(String::new())));
    assert_eq!(read_line("data: [DONE] "), Some(SseStep::Data("[DONE] ".to_string())));
    assert_eq!(read_line(""), None);
    assert_eq!(read_line("data:{}"), None);
    assert_eq!(read_line(": keep-alive"), None);
    assert_eq!(read_line("event: x"), None);
}

#[test]
fn steps_stop_at_the_end_of_the_stream() {
    let lines: Vec<String> = ["", "data: 1", "noise", "data: 2", "data: [DONE]", "data: 3"]
        .iter()
        .map(|s| s.to_string())
        .collect();
    assert_eq!(
        read_lines(&lines),
        vec![SseStep::Data("1".to_string()), SseStep::Data("2".to_string()), SseStep::Done]
    );
    assert_eq!(read_lines(&vec![]), vec![]);
}

#[test]
fn buffer_keeps_the_incomplete_line() {
    let mut b = LineBuffer::new();
    assert_eq!(b.feed("data: {\"x\""), Vec::<String>::new());
    assert_eq!(b.pending(), "data: {\"x\"");
    assert_eq!(b.feed(":1}\r\n\r\n  data: two  \nda"), vec!["data: {\"x\":1}", "", "data: two"]);
    assert_eq!(b.pending(), "da");
    assert_eq!(b.feed("ta: [DONE]\n"), vec!["data: [DONE]"]);
    assert_eq!(b.pending(), "");
    assert_eq!(b.feed(""), Vec::<String>::new());
    assert_eq!(b.feed("\n"), vec![""]);
}

#[test]
fn buffer_reads_steps_across_chunks() {
    let mut b = LineBuffer::new();
    assert_eq!(b.read("data: {\"choices\""), vec![]);
    assert_eq!(b.read(":[]}\n\ndata: [DO"), vec![SseStep::Data("{\"choices\":[]}".to_string())]);
    assert_eq!(b.read("NE]\ndata: late\n"), vec![SseStep::Done]);
}

#[test]
fn payloads_for_the_interface() {
    let p = chunk_payload("a", "t", "Hel");
    assert_eq!((p.assistant_id.as_str(), p.topic_id.as_str(), p.content.as_str(), p.done), ("a", "t", "Hel", false));
    let p = done_payload("a", "t");
    assert_eq!((p.assistant_id.as_str(), p.topic_id.as_str(), p.content.as_str(), p.done), ("a", "t", "", true));
    let p = error_payload("a", "t", "connection reset");
    assert_eq!(p.content, "\n[Error: connection reset]");
    assert!(p.done);
}

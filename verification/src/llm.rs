//! Talking to a chat completion service: the addresses of its endpoints,
//! the requests, and the reading of a streamed answer line by line.

use vstd::prelude::*;
use vstd::string::*;
use crate::models::{Message, StreamPayload};
use crate::text::{
    chars_of, ends_with, find_char, first_index_of, has_prefix, has_suffix, remove_all,
    starts_with, trim, trim_end_matches, trimmed, without, without_trailing,
};

verus! {

/// The path of the chat completion endpoint.
pub open spec fn completions_path() -> Seq<char> {
    "/chat/completions"@
}

/// The address of the chat completion endpoint for the configured address
/// `api_url`: the address without the slashes at its end, and the path
/// after it unless the address already ends with it.
pub open spec fn chat_url_of(api_url: Seq<char>) -> Seq<char> {
    let base = without_trailing(api_url, '/');
    if has_suffix(base, completions_path()) {
        base
    } else {
        base + completions_path()
    }
}

/// The address of the endpoint that lists the models, for the configured
/// address `api_url`: the address without the slashes at its end, without
/// every occurrence of the chat completion path where it ends with that
/// path, and `/models` after it.
pub open spec fn models_url_of(api_url: Seq<char>) -> Seq<char> {
    let base = without_trailing(api_url, '/');
    if has_suffix(base, completions_path()) {
        without(base, completions_path()) + "/models"@
    } else {
        base + "/models"@
    }
}

/// The address that a summary is asked of, for the configured address
/// `api_url`: the address without the slashes at its end and without every
/// occurrence of the chat completion path, and that path after it.
pub open spec fn summary_url_of(api_url: Seq<char>) -> Seq<char> {
    without(without_trailing(api_url, '/'), completions_path()) + completions_path()
}

/// The address of the chat completion endpoint.
pub fn chat_url(api_url: &str) -> (r: String)
    ensures
        r@ == chat_url_of(api_url@),
{
    let base = trim_end_matches(api_url, '/');
    let mut out = String::from_str(base);
    if !ends_with(base, "/chat/completions") {
        out.append("/chat/completions");
    }
    out
}

/// The address of the endpoint that lists the models.
pub fn models_url(api_url: &str) -> (r: String)
    ensures
        r@ == models_url_of(api_url@),
{
    let base = trim_end_matches(api_url, '/');
    let mut out = if ends_with(base, "/chat/completions") {
        remove_all(base, "/chat/completions")
    } else {
        String::from_str(base)
    };
    out.append("/models");
    out
}

/// The address that a summary is asked of.
pub fn summary_url(api_url: &str) -> (r: String)
    ensures
        r@ == summary_url_of(api_url@),
{
    let mut out = remove_all(trim_end_matches(api_url, '/'), "/chat/completions");
    out.append("/chat/completions");
    out
}

/// The key under which the streaming task of a conversation is kept: the
/// assistant's identity, a hyphen, the topic's identity.
pub fn task_key(assistant_id: &str, topic_id: &str) -> (r: String)
    ensures
        r@ == assistant_id@ + "-"@ + topic_id@,
{
    let mut out = String::from_str(assistant_id);
    out.append("-");
    out.append(topic_id);
    out
}

/// The view of a `ChatContent`.
pub enum ChatContentView {
    Json(Seq<char>),
    Text(Seq<char>),
}

/// The content of a message of a request.
#[derive(Debug, PartialEq, Eq)]
pub enum ChatContent {
    /// A structured value, as serialised text.
    Json(String),
    /// Plain text.
    Text(String),
}

impl View for ChatContent {
    type V = ChatContentView;

    open spec fn view(&self) -> ChatContentView {
        match self {
            ChatContent::Json(t) => ChatContentView::Json(t@),
            ChatContent::Text(t) => ChatContentView::Text(t@),
        }
    }
}

/// The view of a `ChatMessage`.
pub struct ChatMessageView {
    pub role: Seq<char>,
    pub content: ChatContentView,
}

/// A message of a request: who speaks, and what.
#[derive(Debug, PartialEq, Eq)]
pub struct ChatMessage {
    pub role: String,
    pub content: ChatContent,
}

impl View for ChatMessage {
    type V = ChatMessageView;

    open spec fn view(&self) -> ChatMessageView {
        ChatMessageView { role: self.role@, content: self.content@ }
    }
}

/// The view of a `ChatRequest`.
pub struct ChatRequestView {
    pub model: Seq<char>,
    pub messages: Seq<ChatMessageView>,
    pub stream: bool,
}

/// The body of a request to the chat completion endpoint.
#[derive(Debug, PartialEq, Eq)]
pub struct ChatRequest {
    pub model: String,
    pub messages: Vec<ChatMessage>,
    pub stream: bool,
}

impl View for ChatRequest {
    type V = ChatRequestView;

    open spec fn view(&self) -> ChatRequestView {
        ChatRequestView {
            model: self.model@,
            messages: chat_views(self.messages@),
            stream: self.stream,
        }
    }
}

/// What a message of the history becomes in a request: its role and its
/// content, nothing else.
pub open spec fn sent_form(m: Message) -> ChatMessageView {
    ChatMessageView { role: m.role@, content: ChatContentView::Json(m.content@) }
}

/// The messages of a history as a request carries them, in order.
pub open spec fn sent_forms(history: Seq<Message>) -> Seq<ChatMessageView> {
    history.map_values(|m: Message| sent_form(m))
}

/// What the model is asked at the end of a history to be summarised.
pub open spec fn summary_instruction() -> ChatMessageView {
    ChatMessageView {
        role: "system"@,
        content: ChatContentView::Text(
            "请简要总结以上对话的核心内容和用户需求，作为后续交流的长期记忆（500字以内）。"@,
        ),
    }
}

/// The views of a sequence of messages of a request.
pub open spec fn chat_views(items: Seq<ChatMessage>) -> Seq<ChatMessageView> {
    items.map_values(|m: ChatMessage| m@)
}

fn request_messages(history: &Vec<Message>) -> (out: Vec<ChatMessage>)
    ensures
        chat_views(out@) == sent_forms(history@),
{
    let mut out: Vec<ChatMessage> = Vec::new();
    let mut i: usize = 0;
    while i < history.len()
        invariant
            i <= history.len(),
            chat_views(out@) == sent_forms(history@.take(i as int)),
        decreases history.len() - i,
    {
        let ghost before = out@;
        let m = ChatMessage {
            role: history[i].role.clone(),
            content: ChatContent::Json(history[i].content.clone()),
        };
        out.push(m);
        proof {
            assert(history@.take(i + 1) == history@.take(i as int).push(history@[i as int]));
            assert(chat_views(out@) =~= chat_views(before).push(m@));
            assert(sent_forms(history@.take(i + 1)) =~= sent_forms(history@.take(i as int)).push(
                sent_form(history@[i as int]),
            ));
        }
        i += 1;
    }
    proof {
        assert(history@.take(history.len() as int) == history@);
    }
    out
}

/// The request for a streamed answer to `history` from `model`: the
/// messages of the history in order, each with its role and its content,
/// and the stream switched on.
pub fn chat_request(model: &str, history: &Vec<Message>) -> (r: ChatRequest)
    ensures
        r@ == (ChatRequestView {
            model: model@,
            messages: sent_forms(history@),
            stream: true,
        }),
{
    ChatRequest {
        model: String::from_str(model),
        messages: request_messages(history),
        stream: true,
    }
}

/// The request for a summary of `history` from `model`: the messages of
/// the history in order, then the instruction to summarise them, and the
/// stream switched off.
pub fn summary_request(model: &str, history: &Vec<Message>) -> (r: ChatRequest)
    ensures
        r@ == (ChatRequestView {
            model: model@,
            messages: sent_forms(history@).push(summary_instruction()),
            stream: false,
        }),
{
    let mut messages = request_messages(history);
    let instruction = ChatMessage {
        role: String::from_str("system"),
        content: ChatContent::Text(
            String::from_str(
                "请简要总结以上对话的核心内容和用户需求，作为后续交流的长期记忆（500字以内）。",
            ),
        ),
    };
    messages.push(instruction);
    let r = ChatRequest { model: String::from_str(model), messages, stream: false };
    proof {
        assert(r@.messages =~= sent_forms(history@).push(summary_instruction()));
    }
    r
}

/// What is made of the answer to a request for a summary. `error` is the
/// answer's member `error` where it has one, given by the text of its
/// message where that is a text; `content` is the text of the first
/// choice's message where there is one.
pub open spec fn summary_of(
    error: Option<Option<Seq<char>>>,
    content: Option<Seq<char>>,
) -> Result<Seq<char>, Seq<char>> {
    match error {
        Some(Some(message)) => Err(message),
        Some(None) => Err("API Error"@),
        None => match content {
            Some(text) => Ok(text),
            None => Ok("无法生成总结"@),
        },
    }
}

/// The view of the outcome of a request for a summary.
pub open spec fn summary_view(r: Result<String, String>) -> Result<Seq<char>, Seq<char>> {
    match r {
        Ok(t) => Ok(t@),
        Err(t) => Err(t@),
    }
}

/// The summary that an answer holds, or the error that it reports: an
/// answer with a member `error` fails with that error's message, or with
/// `API Error` where it has none; any other answer gives the text of its
/// first choice, or a notice that no summary could be made.
pub fn summary_outcome(error: Option<Option<String>>, content: Option<String>) -> (r: Result<
    String,
    String,
>)
    ensures
        summary_view(r) == summary_of(
            match error {
                Some(Some(m)) => Some(Some(m@)),
                Some(None) => Some(None),
                None => None,
            },
            match content {
                Some(t) => Some(t@),
                None => None,
            },
        ),
{
    match error {
        Some(Some(message)) => Err(message),
        Some(None) => Err(String::from_str("API Error")),
        None => match content {
            Some(text) => Ok(text),
            None => Ok(String::from_str("无法生成总结")),
        },
    }
}

/// The complete lines of `s`, each without the white space at its start
/// and at its end. A line is complete when a line feed ends it.
pub open spec fn lines_of(s: Seq<char>) -> Seq<Seq<char>>
    decreases s.len(),
{
    let end = first_index_of(s, '\n');
    if end < 0 || end >= s.len() {
        Seq::empty()
    } else {
        seq![trimmed(s.take(end))] + lines_of(s.skip(end + 1))
    }
}

/// What is left of `s` behind its last complete line.
pub open spec fn remainder_of(s: Seq<char>) -> Seq<char>
    decreases s.len(),
{
    let end = first_index_of(s, '\n');
    if end < 0 || end >= s.len() {
        s
    } else {
        remainder_of(s.skip(end + 1))
    }
}

/// The view of an `SseStep`.
pub enum SseStepView {
    Data(Seq<char>),
    Done,
}

/// What a line of a streamed answer asks for.
#[derive(Debug, PartialEq, Eq)]
pub enum SseStep {
    /// The line carries this JSON text.
    Data(String),
    /// The line says that the stream has ended.
    Done,
}

impl View for SseStep {
    type V = SseStepView;

    open spec fn view(&self) -> SseStepView {
        match self {
            SseStep::Data(t) => SseStepView::Data(t@),
            SseStep::Done => SseStepView::Done,
        }
    }
}

/// What a line asks for: `data: [DONE]` ends the stream, any other line
/// that begins with `data: ` carries what follows that prefix, and any
/// other line, the empty one included, asks for nothing.
pub open spec fn step_of(line: Seq<char>) -> Option<SseStepView> {
    if line == "data: [DONE]"@ {
        Some(SseStepView::Done)
    } else if has_prefix(line, "data: "@) {
        Some(SseStepView::Data(line.skip(6)))
    } else {
        None
    }
}

/// What the lines ask for, in order, up to and including the first end of
/// the stream. What follows the end of the stream is dropped.
pub open spec fn steps_of(lines: Seq<Seq<char>>) -> Seq<SseStepView>
    decreases lines.len(),
{
    if lines.len() == 0 {
        Seq::empty()
    } else {
        match step_of(lines[0]) {
            Some(SseStepView::Done) => seq![SseStepView::Done],
            Some(step) => seq![step] + steps_of(lines.skip(1)),
            None => steps_of(lines.skip(1)),
        }
    }
}

/// What the line asks for.
pub fn read_line(line: &str) -> (r: Option<SseStep>)
    ensures
        match r {
            Some(step) => step_of(line@) == Some(step@),
            None => step_of(line@) is None,
        },
{
    if String::from_str(line) == String::from_str("data: [DONE]") {
        Some(SseStep::Done)
    } else if starts_with(line, "data: ") {
        proof {
            reveal_strlit("data: ");
        }
        let text = chars_of(line);
        let rest = line.substring_char(6, text.len());
        proof {
            assert(line@.skip(6) =~= line@.subrange(6, line@.len() as int));
        }
        Some(SseStep::Data(String::from_str(rest)))
    } else {
        None
    }
}

/// The views of a sequence of texts.
pub open spec fn texts(items: Seq<String>) -> Seq<Seq<char>> {
    items.map_values(|t: String| t@)
}

/// The views of a sequence of steps.
pub open spec fn steps(items: Seq<SseStep>) -> Seq<SseStepView> {
    items.map_values(|s: SseStep| s@)
}

/// What the lines ask for, in order, up to and including the first end of
/// the stream.
pub fn read_lines(lines: &Vec<String>) -> (out: Vec<SseStep>)
    ensures
        steps(out@) == steps_of(texts(lines@)),
{
    let mut out: Vec<SseStep> = Vec::new();
    let mut i: usize = 0;
    let ghost all = texts(lines@);
    proof {
        assert(all.skip(0) == all);
        assert(steps(out@) =~= Seq::<SseStepView>::empty());
        assert(steps(out@) + steps_of(all) =~= steps_of(all));
    }
    while i < lines.len()
        invariant
            i <= lines.len(),
            all == texts(lines@),
            steps(out@) + steps_of(all.skip(i as int)) == steps_of(all),
        decreases lines.len() - i,
    {
        let ghost before = out@;
        let ghost rest = all.skip(i as int);
        proof {
            assert(rest[0] == lines@[i as int]@);
            assert(rest.skip(1) == all.skip(i + 1));
        }
        match read_line(lines[i].as_str()) {
            Some(SseStep::Done) => {
                out.push(SseStep::Done);
                proof {
                    assert(steps(out@) =~= steps(before) + seq![SseStepView::Done]);
                }
                return out;
            },
            Some(step) => {
                out.push(step);
                proof {
                    assert(steps(out@) =~= steps(before) + seq![step@]);
                    assert((steps(before) + seq![step@]) + steps_of(rest.skip(1)) =~= steps(before)
                        + (seq![step@] + steps_of(rest.skip(1))));
                }
            },
            None => {},
        }
        i += 1;
    }
    proof {
        assert(all.skip(lines.len() as int).len() == 0);
        assert(steps(out@) + Seq::<SseStepView>::empty() =~= steps(out@));
    }
    out
}

/// The text of a streamed answer that has arrived and does not yet make a
/// complete line.
pub struct LineBuffer {
    pending: String,
}

impl View for LineBuffer {
    type V = Seq<char>;

    closed spec fn view(&self) -> Seq<char> {
        self.pending@
    }
}

impl LineBuffer {
    /// A buffer that holds nothing.
    pub fn new() -> (r: LineBuffer)
        ensures
            r@ == Seq::<char>::empty(),
    {
        LineBuffer { pending: String::new() }
    }

    /// What the buffer holds.
    pub fn pending(&self) -> (r: &str)
        ensures
            r@ == self@,
    {
        self.pending.as_str()
    }

    /// Takes in `text` and hands out the lines that it completes, each
    /// without the white space around it. What follows the last line feed
    /// stays in the buffer.
    pub fn feed(&mut self, text: &str) -> (lines: Vec<String>)
        ensures
            texts(lines@) == lines_of(old(self)@ + text@),
            final(self)@ == remainder_of(old(self)@ + text@),
    {
        let mut whole = self.pending.clone();
        whole.append(text);
        let all = chars_of(whole.as_str());
        let mut lines: Vec<String> = Vec::new();
        let mut from: usize = 0;
        proof {
            assert(whole@.skip(0) == whole@);
            assert(texts(lines@) =~= Seq::<Seq<char>>::empty());
            assert(texts(lines@) + lines_of(whole@) =~= lines_of(whole@));
        }
        loop
            invariant
                from <= all.len(),
                all@ == whole@,
                whole@ == old(self)@ + text@,
                texts(lines@) + lines_of(whole@.skip(from as int)) == lines_of(whole@),
                remainder_of(whole@.skip(from as int)) == remainder_of(whole@),
            decreases all.len() - from,
        {
            let ghost rest = whole@.skip(from as int);
            let ghost before = lines@;
            let end = find_char(&all, from, '\n');
            if end == all.len() {
                proof {
                    assert(lines_of(rest) =~= Seq::<Seq<char>>::empty());
                    assert(texts(lines@) + Seq::<Seq<char>>::empty() =~= texts(lines@));
                    assert(rest =~= whole@.subrange(from as int, all.len() as int));
                }
                self.pending = String::from_str(whole.as_str().substring_char(from, all.len()));
                return lines;
            }
            let line = trim(whole.as_str().substring_char(from, end));
            proof {
                assert(rest.take(end - from) =~= whole@.subrange(from as int, end as int));
                assert(rest.skip(end - from + 1) =~= whole@.skip(end + 1));
            }
            let kept = String::from_str(line);
            lines.push(kept);
            proof {
                assert(texts(lines@) =~= texts(before) + seq![kept@]);
                assert((texts(before) + seq![kept@]) + lines_of(whole@.skip(end + 1)) =~= texts(
                    before,
                ) + (seq![kept@] + lines_of(whole@.skip(end + 1))));
            }
            from = end + 1;
        }
    }

    /// Takes in `text` and hands out what the lines that it completes ask
    /// for, up to and including the first end of the stream.
    pub fn read(&mut self, text: &str) -> (out: Vec<SseStep>)
        ensures
            steps(out@) == steps_of(lines_of(old(self)@ + text@)),
            final(self)@ == remainder_of(old(self)@ + text@),
    {
        let lines = self.feed(text);
        read_lines(&lines)
    }
}

/// A piece of the answer for the interface.
pub fn chunk_payload(assistant_id: &str, topic_id: &str, content: &str) -> (r: StreamPayload)
    ensures
        r.assistant_id@ == assistant_id@,
        r.topic_id@ == topic_id@,
        r.content@ == content@,
        !r.done,
{
    StreamPayload {
        assistant_id: String::from_str(assistant_id),
        topic_id: String::from_str(topic_id),
        content: String::from_str(content),
        done: false,
    }
}

/// The piece that tells the interface that the answer is complete: no
/// text, and the stream done.
pub fn done_payload(assistant_id: &str, topic_id: &str) -> (r: StreamPayload)
    ensures
        r.assistant_id@ == assistant_id@,
        r.topic_id@ == topic_id@,
        r.content@ == Seq::<char>::empty(),
        r.done,
{
    StreamPayload {
        assistant_id: String::from_str(assistant_id),
        topic_id: String::from_str(topic_id),
        content: String::new(),
        done: true,
    }
}

/// The piece that tells the interface that the stream has failed: the
/// error between `[Error: ` and `]` on a line of its own, and the stream
/// done.
pub fn error_payload(assistant_id: &str, topic_id: &str, error: &str) -> (r: StreamPayload)
    ensures
        r.assistant_id@ == assistant_id@,
        r.topic_id@ == topic_id@,
        r.content@ == "\n[Error: "@ + error@ + "]"@,
        r.done,
{
    let mut content = String::from_str("\n[Error: ");
    content.append(error);
    content.append("]");
    StreamPayload {
        assistant_id: String::from_str(assistant_id),
        topic_id: String::from_str(topic_id),
        content,
        done: true,
    }
}

} // verus!

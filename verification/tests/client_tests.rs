use cli_chat::client::{build_request, FragmentSink, OpenAIClient, Transport};
use cli_chat::config::{ApiConfig, ChatModel};
use cli_chat::models::{ChatError, ChatRequest, ChatResponse, Choice, Message, ResponseMessage, Role};
use cli_chat::session::Session;

struct FixedReply {
    reply: Option<Result<ChatResponse, String>>,
    seen_messages: usize,
    seen_stream: Option<bool>,
}

impl FixedReply {
    fn new(reply: Result<ChatResponse, String>) -> FixedReply {
        FixedReply { reply: Some(reply), seen_messages: 0, seen_stream: None }
    }
}

impl Transport for FixedReply {
    fn send(&mut self, request: &ChatRequest) -> Result<ChatResponse, String> {
        self.seen_messages = request.messages.len();
        self.seen_stream = request.stream;
        self.reply.take().expect("one blocking call expected")
    }

    fn open_stream(&mut self, _request: &ChatRequest) -> Result<(), String> {
        Err("no stream scripted".to_string())
    }

    fn next_chunk(&mut self) -> Result<Option<Vec<u8>>, String> {
        Ok(None)
    }
}

struct ScriptedStream {
    open_result: Result<(), String>,
    chunks: Vec<Result<Option<Vec<u8>>, String>>,
}

impl Transport for ScriptedStream {
    fn send(&mut self, _request: &ChatRequest) -> Result<ChatResponse, String> {
        Err("no blocking call scripted".to_string())
    }

    fn open_stream(&mut self, _request: &ChatRequest) -> Result<(), String> {
        self.open_result.clone()
    }

    fn next_chunk(&mut self) -> Result<Option<Vec<u8>>, String> {
        if self.chunks.is_empty() {
            Ok(None)
        } else {
            self.chunks.remove(0)
        }
    }
}

struct CollectSink {
    got: Vec<String>,
}

impl FragmentSink for CollectSink {
    fn emit(&mut self, fragment: &str) {
        self.got.push(fragment.to_string());
    }
}

fn ok_response(text: &str) -> ChatResponse {
    ChatResponse {
        choices: vec![Choice { message: ResponseMessage { content: text.to_string() } }],
    }
}

fn client() -> OpenAIClient {
    OpenAIClient::new(ApiConfig::new(Some("k".to_string()), ChatModel::Gpt35Turbo))
        .expect("a keyed config is accepted")
}

fn data_chunk(text: &str) -> Result<Option<Vec<u8>>, String> {
    let line = format!("data: {{\"choices\":[{{\"delta\":{{\"content\":\"{}\"}}}}]}}\n", text);
    Ok(Some(line.into_bytes()))
}

#[test]
fn blocking_success_appends_one_turn() {
    let mut c = client();
    let mut t = FixedReply::new(Ok(ok_response("Hello!")));
    let r = c.chat(&mut t, "hi");
    assert_eq!(r, Ok("Hello!".to_string()));
    assert_eq!(c.context_length(), 1);
    let history = c.show_context();
    assert_eq!(history.len(), 2);
    assert!(history[0].role == Role::User);
    assert_eq!(history[0].content, "hi");
    assert!(history[1].role == Role::Assistant);
    assert_eq!(history[1].content, "Hello!");
    assert_eq!(t.seen_messages, 1);
    assert_eq!(t.seen_stream, Some(false));
}

#[test]
fn two_blocking_successes_are_two_turns() {
    let mut c = client();
    let mut t1 = FixedReply::new(Ok(ok_response("first")));
    let mut t2 = FixedReply::new(Ok(ok_response("second")));
    c.chat(&mut t1, "a").unwrap();
    c.chat(&mut t2, "b").unwrap();
    assert_eq!(c.context_length(), 2);
    assert_eq!(c.show_context().len(), 4);
    // the second request carried the whole history plus the new prompt
    assert_eq!(t2.seen_messages, 3);
}

#[test]
fn empty_candidate_list_is_malformed_response() {
    let mut c = client();
    let mut t = FixedReply::new(Ok(ChatResponse { choices: vec![] }));
    let r = c.chat(&mut t, "hi");
    assert_eq!(r, Err(ChatError::MalformedResponse));
    // the user message stays appended with no paired reply
    let history = c.show_context();
    assert_eq!(history.len(), 1);
    assert!(history[0].role == Role::User);
    assert_eq!(history[0].content, "hi");
    assert_eq!(c.context_length(), 0);
}

#[test]
fn connection_failure_is_transport_error() {
    let mut c = client();
    let mut t = FixedReply::new(Err("connection refused".to_string()));
    let r = c.chat(&mut t, "hi");
    assert_eq!(r, Err(ChatError::Transport("connection refused".to_string())));
    assert_eq!(c.show_context().len(), 1);
}

#[test]
fn missing_api_key_is_config_error() {
    let r = OpenAIClient::new(ApiConfig::new(None, ChatModel::Gpt4o));
    assert!(matches!(r, Err(ChatError::Config(_))));
}

#[test]
fn set_model_changes_the_config() {
    let mut c = client();
    assert_eq!(c.get_config().model.as_str(), "gpt-3.5-turbo");
    c.set_model(ChatModel::Gpt4o);
    assert_eq!(c.get_config().model.as_str(), "gpt-4o");
}

#[test]
fn clear_context_resets_the_conversation() {
    let mut c = client();
    let mut t = FixedReply::new(Ok(ok_response("yes")));
    c.chat(&mut t, "anything").unwrap();
    c.clear_context();
    assert_eq!(c.context_length(), 0);
    assert!(c.show_context().is_empty());
}

#[test]
fn request_lists_messages_in_snapshot_order() {
    let mut session = Session::new();
    session.append(Message::system("be brief"));
    session.append(Message::user("one"));
    session.append(Message::assistant("two"));
    let req = build_request(&session, ChatModel::Gpt4omini, true);
    assert_eq!(req.model, "gpt-4o-mini");
    assert_eq!(req.stream, Some(true));
    let snap = session.snapshot();
    assert_eq!(req.messages.len(), snap.len());
    for i in 0..snap.len() {
        assert!(req.messages[i].role == snap[i].role);
        assert_eq!(req.messages[i].content, snap[i].content);
    }
}

#[test]
fn streaming_success_appends_the_accumulated_reply() {
    let mut c = client();
    let mut t = ScriptedStream {
        open_result: Ok(()),
        chunks: vec![data_chunk("Hel"), data_chunk("lo"), Ok(Some(b"data: [DONE]\n".to_vec()))],
    };
    let mut sink = CollectSink { got: vec![] };
    let r = c.chat_stream(&mut t, &mut sink, "hi");
    assert_eq!(r, Ok(()));
    assert_eq!(sink.got, vec!["Hel".to_string(), "lo".to_string()]);
    let history = c.show_context();
    assert_eq!(history.len(), 2);
    assert!(history[1].role == Role::Assistant);
    assert_eq!(history[1].content, "Hello");
    assert_eq!(c.context_length(), 1);
}

#[test]
fn streaming_end_without_sentinel_still_completes() {
    let mut c = client();
    let mut t = ScriptedStream { open_result: Ok(()), chunks: vec![data_chunk("partial")] };
    let mut sink = CollectSink { got: vec![] };
    let r = c.chat_stream(&mut t, &mut sink, "hi");
    assert_eq!(r, Ok(()));
    let history = c.show_context();
    assert_eq!(history.len(), 2);
    assert_eq!(history[1].content, "partial");
}

#[test]
fn streaming_open_failure_leaves_only_the_prompt() {
    let mut c = client();
    let mut t = ScriptedStream { open_result: Err("down".to_string()), chunks: vec![] };
    let mut sink = CollectSink { got: vec![] };
    let r = c.chat_stream(&mut t, &mut sink, "hi");
    assert_eq!(r, Err(ChatError::Transport("down".to_string())));
    let history = c.show_context();
    assert_eq!(history.len(), 1);
    assert!(history[0].role == Role::User);
}

#[test]
fn streaming_midstream_failure_discards_the_partial_reply() {
    let mut c = client();
    let mut t = ScriptedStream {
        open_result: Ok(()),
        chunks: vec![data_chunk("some"), Err("reset".to_string())],
    };
    let mut sink = CollectSink { got: vec![] };
    let r = c.chat_stream(&mut t, &mut sink, "hi");
    assert_eq!(r, Err(ChatError::Transport("reset".to_string())));
    // the fragment was shown as it arrived, but nothing was committed
    assert_eq!(sink.got, vec!["some".to_string()]);
    assert_eq!(c.show_context().len(), 1);
}

#[test]
fn scoped_override_restores_history_on_success() {
    let mut c = client();
    let mut t1 = FixedReply::new(Ok(ok_response("Hello!")));
    c.chat(&mut t1, "hi").unwrap();
    let before = c.show_context();
    let mut t2 = FixedReply::new(Ok(ok_response("```shell\nls -la\n```")));
    let r = c.generate_shell_command(&mut t2, "list files");
    assert_eq!(r, Ok("ls -la".to_string()));
    let after = c.show_context();
    assert_eq!(after.len(), before.len());
    for i in 0..after.len() {
        assert!(after[i].role == before[i].role);
        assert_eq!(after[i].content, before[i].content);
    }
    // the inner call saw the temporary history, not the conversation:
    // the instruction, the prompt, and the prompt the blocking path
    // re-appends
    assert_eq!(t2.seen_messages, 3);
}

#[test]
fn scoped_override_restores_history_on_failure() {
    let mut c = client();
    let mut t1 = FixedReply::new(Ok(ok_response("Hello!")));
    c.chat(&mut t1, "hi").unwrap();
    let before = c.show_context();
    let mut t2 = FixedReply::new(Err("down".to_string()));
    let r = c.generate_shell_command(&mut t2, "list files");
    assert_eq!(r, Err(ChatError::Transport("down".to_string())));
    let after = c.show_context();
    assert_eq!(after.len(), before.len());
    for i in 0..after.len() {
        assert!(after[i].role == before[i].role);
        assert_eq!(after[i].content, before[i].content);
    }
}

#[test]
fn scoped_override_strips_stray_backticks() {
    let mut c = client();
    let mut t = FixedReply::new(Ok(ok_response("  `pwd`  ")));
    let r = c.generate_shell_command(&mut t, "where am i");
    assert_eq!(r, Ok("pwd".to_string()));
    assert!(c.show_context().is_empty());
}

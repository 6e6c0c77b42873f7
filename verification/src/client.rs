//! The chat orchestrator: request building, the blocking and streaming
//! call flows, and the scoped side-task override.
//!
//! The network itself stays with the embedding application, which
//! supplies a `Transport`; nothing is assumed of it, and the contracts
//! here state what happens to the conversation for every outcome it
//! can produce.

use vstd::prelude::*;
use vstd::string::StringExecFns;
use crate::config::{model_name, ApiConfig, ChatModel};
use crate::decoder::StreamDecoder;
use crate::models::{
    assistant_message, user_message, ChatError, ChatRequest, ChatResponse, Message, MessageView,
    RequestView,
};
use crate::session::{turn_count_of, with_turn, Session};
use crate::text::{strip_formatting, strip_spec};

verus! {

/// Model of the request built from a history, a model and a flag: the
/// model's wire identifier, the very same messages, and the flag.
pub open spec fn built_request(
    history: Seq<MessageView>,
    model: ChatModel,
    stream: bool,
) -> RequestView {
    RequestView { model: model_name(model), messages: history, stream: Some(stream) }
}

/// Builds the wire request for the session as it stands.  Pure: the
/// session is read, never changed, and the payload is rebuilt on every
/// call.
pub fn build_request(session: &Session, model: ChatModel, stream: bool) -> (req: ChatRequest)
    ensures
        req@ == built_request(session@, model, stream),
{
    ChatRequest {
        model: String::from_str(model.as_str()),
        messages: session.snapshot(),
        stream: Some(stream),
    }
}

/// Law: the request lists the messages of the history it was built
/// from, in the same order, whatever the history, the model and the
/// flag.
pub proof fn lemma_request_preserves_order(
    history: Seq<MessageView>,
    model: ChatModel,
    stream: bool,
)
    ensures
        built_request(history, model, stream).messages == history,
{
}

/// The transport the embedding application supplies: one blocking
/// exchange, or a stream read chunk by chunk.  Nothing is assumed of
/// its behaviour; the orchestrator handles every outcome.
pub trait Transport {
    /// Performs one blocking exchange; an error describes a connection
    /// failure.
    fn send(&mut self, request: &ChatRequest) -> Result<ChatResponse, String>;

    /// Opens a streaming exchange; an error describes a connection
    /// failure.
    fn open_stream(&mut self, request: &ChatRequest) -> Result<(), String>;

    /// The next raw chunk of the open stream, `None` at its end.
    fn next_chunk(&mut self) -> Result<Option<Vec<u8>>, String>;
}

/// Where streamed fragments go as they arrive, one at a time.
pub trait FragmentSink {
    /// Receives one fragment.
    fn emit(&mut self, fragment: &str);
}

/// The credential of an optional key, as the model sees it.
pub open spec fn key_view(k: Option<String>) -> Option<Seq<char>> {
    match k {
        Some(s) => Some(s@),
        None => None,
    }
}

/// Mathematical model of the client: the credential, the selected
/// model, and the conversation history.
pub struct ClientView {
    pub api_key: Option<Seq<char>>,
    pub model: ChatModel,
    pub history: Seq<MessageView>,
}

/// The conversational client: a configuration and the single session
/// it drives.  One conversation, one in-flight call at a time.
pub struct OpenAIClient {
    config: ApiConfig,
    session: Session,
}

impl View for OpenAIClient {
    type V = ClientView;

    closed spec fn view(&self) -> ClientView {
        ClientView {
            api_key: key_view(self.config.api_key),
            model: self.config.model,
            history: self.session@,
        }
    }
}

impl OpenAIClient {
    /// A client over a loaded configuration, starting with an empty
    /// history; refused exactly when the credential is absent, since a
    /// call could never be authenticated.
    pub fn new(config: ApiConfig) -> (r: Result<OpenAIClient, ChatError>)
        ensures
            (config.api_key is None ==> (r matches Err(e) && e is Config)),
            (config.api_key matches Some(k) ==> (r matches Ok(c) && c@ == (ClientView {
                api_key: Some(k@),
                model: config.model,
                history: Seq::<MessageView>::empty(),
            }))),
    {
        if config.api_key.is_some() {
            Ok(OpenAIClient { config, session: Session::new() })
        } else {
            Err(
                ChatError::Config(
                    "API key not found. Please set OPENAI_API_KEY environment variable or configure it in the config file.".to_owned(),
                ),
            )
        }
    }

    /// The configuration as it stands.
    pub fn get_config(&self) -> (c: &ApiConfig)
        ensures
            key_view(c.api_key) == self@.api_key,
            c.model == self@.model,
    {
        &self.config
    }

    /// Selects another model; the caller persists the configuration.
    pub fn set_model(&mut self, model: ChatModel)
        ensures
            final(self)@ == (ClientView { model, ..old(self)@ }),
    {
        self.config.model = model;
    }

    /// Drops the conversation history and nothing else.
    pub fn clear_context(&mut self)
        ensures
            final(self)@ == (ClientView { history: Seq::<MessageView>::empty(), ..old(self)@ }),
    {
        self.session.clear();
    }

    /// The number of completed turns.
    pub fn context_length(&self) -> (n: usize)
        ensures
            n == turn_count_of(self@.history),
    {
        self.session.turn_count()
    }

    /// A read-only copy of the conversation history, in order.
    pub fn show_context(&self) -> (out: Vec<Message>)
        ensures
            out.deep_view() == self@.history,
    {
        self.session.snapshot()
    }

    /// Finishes a blocking turn from the transport's outcome.  A
    /// connection failure surfaces as `Transport` and an empty
    /// candidate list as `MalformedResponse`, each leaving the history
    /// unchanged; otherwise the first candidate's text is appended as
    /// the assistant reply and returned.
    pub fn apply_blocking_outcome(&mut self, outcome: Result<ChatResponse, String>) -> (r: Result<
        String,
        ChatError,
    >)
        ensures
            final(self)@.api_key == old(self)@.api_key,
            final(self)@.model == old(self)@.model,
            (outcome matches Err(m) ==> r == Err::<String, ChatError>(ChatError::Transport(m))
                && final(self)@ == old(self)@),
            (outcome matches Ok(resp) ==> ({
                &&& resp.choices@.len() == 0 ==> r == Err::<String, ChatError>(
                    ChatError::MalformedResponse,
                ) && final(self)@ == old(self)@
                &&& resp.choices@.len() > 0 ==> (r matches Ok(text) && text@ == resp.contents()[0]
                    && final(self)@.history == old(self)@.history.push(
                    assistant_message(resp.contents()[0]),
                ))
            })),
    {
        match outcome {
            Err(m) => Err(ChatError::Transport(m)),
            Ok(resp) => {
                match resp.first_content() {
                    Err(e) => Err(e),
                    Ok(text) => {
                        let text = text.clone();
                        self.session.append(Message::assistant(text.as_str()));
                        Ok(text)
                    },
                }
            },
        }
    }

    /// One blocking turn: appends the user prompt, sends the request
    /// built from the whole history, and on success appends the
    /// assistant reply and returns it.  On any failure the user prompt
    /// stays appended with no paired reply, which `context_length`
    /// makes observable.
    pub fn chat<T: Transport>(&mut self, transport: &mut T, prompt: &str) -> (r: Result<
        String,
        ChatError,
    >)
        ensures
            final(self)@.api_key == old(self)@.api_key,
            final(self)@.model == old(self)@.model,
            (r matches Ok(text) ==> final(self)@.history == with_turn(
                old(self)@.history,
                prompt@,
                text@,
            )),
            (r is Err ==> final(self)@.history == old(self)@.history.push(user_message(prompt@))),
            (r matches Err(e) ==> (e is Transport || e is MalformedResponse)),
    {
        self.session.append(Message::user(prompt));
        let request = build_request(&self.session, self.config.model, false);
        let outcome = transport.send(&request);
        self.apply_blocking_outcome(outcome)
    }

    /// One streaming turn: appends the user prompt, opens the stream,
    /// decodes each chunk and hands every fragment to the sink in
    /// arrival order, and on completion — the sentinel or the end of
    /// the stream — appends the accumulated reply as the assistant
    /// message.  A connection failure, before or during the stream,
    /// discards the partial reply and leaves only the user prompt
    /// appended.
    pub fn chat_stream<T: Transport, S: FragmentSink>(
        &mut self,
        transport: &mut T,
        sink: &mut S,
        prompt: &str,
    ) -> (r: Result<(), ChatError>)
        ensures
            final(self)@.api_key == old(self)@.api_key,
            final(self)@.model == old(self)@.model,
            (r is Ok ==> (exists|reply: Seq<char>|
                final(self)@.history == with_turn(old(self)@.history, prompt@, reply))),
            (r matches Err(e) ==> final(self)@.history == old(self)@.history.push(
                user_message(prompt@),
            ) && e is Transport),
    {
        self.session.append(Message::user(prompt));
        let request = build_request(&self.session, self.config.model, true);
        match transport.open_stream(&request) {
            Err(m) => {
                return Err(ChatError::Transport(m));
            },
            Ok(_) => {},
        }
        let mut decoder = StreamDecoder::new();
        let mut budget: usize = usize::MAX;
        while budget > 0
            invariant
                decoder.wf(),
                self@.history == old(self)@.history.push(user_message(prompt@)),
                self@.api_key == old(self)@.api_key,
                self@.model == old(self)@.model,
            decreases budget,
        {
            budget = budget - 1;
            match transport.next_chunk() {
                Err(m) => {
                    return Err(ChatError::Transport(m));
                },
                Ok(None) => {
                    break ;
                },
                Ok(Some(chunk)) => {
                    let frags = decoder.feed_chunk(chunk.as_slice());
                    let mut i: usize = 0;
                    let n = frags.len();
                    while i < n
                        invariant
                            i <= n,
                            n == frags.len(),
                        decreases n - i,
                    {
                        sink.emit(frags[i].as_str());
                        i = i + 1;
                    }
                    if decoder.is_done() {
                        break ;
                    }
                },
            }
        }
        let reply = decoder.into_reply();
        let ghost reply_view = reply@;
        self.session.append(Message::assistant(reply.as_str()));
        proof {
            assert(final(self)@.history == with_turn(old(self)@.history, prompt@, reply_view));
        }
        Ok(())
    }

    /// A scoped side task that turns a description into a shell
    /// command.  The visible history is set aside, a temporary history
    /// of the command-generation instruction and the user prompt is
    /// installed, and one blocking call is made — the blocking path
    /// appends the prompt once more inside the temporary history, as
    /// reusing it implies; that duplicate is discarded with the rest.
    /// The captured history is restored before returning, after
    /// success and failure alike, and a successful reply is returned
    /// with formatting wrappers stripped.
    pub fn generate_shell_command<T: Transport>(&mut self, transport: &mut T, prompt: &str) -> (r:
        Result<String, ChatError>)
        ensures
            final(self)@ == old(self)@,
            (r matches Ok(text) ==> (exists|raw: Seq<char>| text@ == strip_spec(raw))),
            (r matches Err(e) ==> (e is Transport || e is MalformedResponse)),
    {
        let saved = self.session.take_history();
        self.session.append(
            Message::system(
                "You are a command line expert. Generate shell commands based on user descriptions. Return ONLY the command itself, no markdown formatting, no backticks, no explanation. The command should be a single line. Ensure the command is safe and won't cause damage to the system.",
            ),
        );
        self.session.append(Message::user(prompt));
        let inner = self.chat(transport, prompt);
        self.session.restore(saved);
        match inner {
            Ok(text) => {
                let stripped = strip_formatting(text.as_str());
                proof {
                    assert(stripped@ == strip_spec(text@));
                }
                Ok(stripped)
            },
            Err(e) => Err(e),
        }
    }
}

} // verus!

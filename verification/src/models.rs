//! The message model and the wire-format request and response shapes.

use vstd::prelude::*;

verus! {

/// The speaker of one conversation message.
#[derive(Clone, Copy, PartialEq, Eq, Structural, Debug)]
pub enum Role {
    System,
    User,
    Assistant,
}

/// Mathematical model of one message: a role and the text it carries.
pub struct MessageView {
    pub role: Role,
    pub content: Seq<char>,
}

/// One message of the conversation.  Immutable once constructed; the
/// content may be empty but is never absent.
#[derive(Debug)]
pub struct Message {
    pub role: Role,
    pub content: String,
}

impl View for Message {
    type V = MessageView;

    open spec fn view(&self) -> MessageView {
        MessageView { role: self.role, content: self.content@ }
    }
}

impl DeepView for Message {
    type V = MessageView;

    open spec fn deep_view(&self) -> MessageView {
        self@
    }
}

/// The model of a user message with the given content.
pub open spec fn user_message(content: Seq<char>) -> MessageView {
    MessageView { role: Role::User, content }
}

/// The model of an assistant message with the given content.
pub open spec fn assistant_message(content: Seq<char>) -> MessageView {
    MessageView { role: Role::Assistant, content }
}

/// The model of a system message with the given content.
pub open spec fn system_message(content: Seq<char>) -> MessageView {
    MessageView { role: Role::System, content }
}

impl Message {
    /// A message spoken by the user.
    pub fn user(content: &str) -> (m: Message)
        ensures
            m@ == user_message(content@),
    {
        Message { role: Role::User, content: content.to_owned() }
    }

    /// A message spoken by the assistant.
    pub fn assistant(content: &str) -> (m: Message)
        ensures
            m@ == assistant_message(content@),
    {
        Message { role: Role::Assistant, content: content.to_owned() }
    }

    /// A system instruction message.
    pub fn system(content: &str) -> (m: Message)
        ensures
            m@ == system_message(content@),
    {
        Message { role: Role::System, content: content.to_owned() }
    }
}

impl Clone for Message {
    fn clone(&self) -> (res: Self)
        ensures
            res@ == self@,
    {
        Message { role: self.role, content: self.content.clone() }
    }
}

/// The errors a call can surface: a network failure, a response without
/// the expected shape, or a configuration problem reported by the
/// embedding application.
#[derive(Debug, PartialEq, Eq)]
pub enum ChatError {
    Transport(String),
    MalformedResponse,
    Config(String),
}

/// Mathematical model of a request payload.
pub struct RequestView {
    pub model: Seq<char>,
    pub messages: Seq<MessageView>,
    pub stream: Option<bool>,
}

/// The wire-format request payload: a model identifier, the ordered
/// conversation history, and the streaming flag.  Derived from the
/// session on every call, never cached.
#[derive(Debug)]
pub struct ChatRequest {
    pub model: String,
    pub messages: Vec<Message>,
    pub stream: Option<bool>,
}

impl View for ChatRequest {
    type V = RequestView;

    open spec fn view(&self) -> RequestView {
        RequestView {
            model: self.model@,
            messages: self.messages.deep_view(),
            stream: self.stream,
        }
    }
}

/// The message inside one candidate of a blocking response.
#[derive(Debug)]
pub struct ResponseMessage {
    pub content: String,
}

/// One candidate of a blocking response.
#[derive(Debug)]
pub struct Choice {
    pub message: ResponseMessage,
}

/// A blocking response: a list of candidates, of which the first carries
/// the reply text.
#[derive(Debug)]
pub struct ChatResponse {
    pub choices: Vec<Choice>,
}

impl ChatResponse {
    /// The candidate texts, in order.
    pub open spec fn contents(&self) -> Seq<Seq<char>> {
        self.choices@.map_values(|c: Choice| c.message.content@)
    }

    /// The reply text of the first candidate, or `MalformedResponse`
    /// exactly when the candidate list is empty.
    pub fn first_content(&self) -> (r: Result<&String, ChatError>)
        ensures
            self.choices@.len() == 0 ==> (r matches Err(e) && e == ChatError::MalformedResponse),
            self.choices@.len() > 0 ==> (r matches Ok(s) && s@ == self.contents()[0]),
    {
        if self.choices.len() == 0 {
            Err(ChatError::MalformedResponse)
        } else {
            Ok(&self.choices[0].message.content)
        }
    }
}

/// The optional text fragment of one streamed frame; absence means the
/// frame carries no text, not an error.
#[derive(Debug)]
pub struct DeltaContent {
    pub content: Option<String>,
}

/// One candidate inside a streamed frame.
#[derive(Debug)]
pub struct StreamChoice {
    pub delta: DeltaContent,
}

/// A streamed frame: a list of candidates, each holding an optional
/// text delta.
#[derive(Debug)]
pub struct StreamResponse {
    pub choices: Vec<StreamChoice>,
}

} // verus!

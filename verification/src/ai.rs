//! The exchange with the text-analysis service, up to the wire: what is
//! asked of it, and what is made of its answer. Sending is left to the caller.

use crate::text::{chars_of, owned, push_all, string_of};
use vstd::prelude::*;

verus! {

/// What is asked of the service.
#[derive(Debug, PartialEq, Eq, Clone, Copy, Structural)]
pub enum AiOp {
    Summarize,
    Keywords,
}

/// Who speaks in a message of the exchange.
#[derive(Debug, PartialEq, Eq, Clone, Copy, Structural)]
pub enum Role {
    System,
    User,
}

/// One message of the exchange.
pub struct ChatMessage {
    pub role: Role,
    pub content: String,
}

/// The exchange that is sent: the model asked, and the messages in order.
pub struct ChatRequest {
    pub model: String,
    pub messages: Vec<ChatMessage>,
}

/// A request together with the credential that it is sent under.
pub struct ChatCall {
    pub api_key: String,
    pub request: ChatRequest,
}

/// Why an analysis gave no text.
pub enum AiError {
    /// The environment holds no credential for the service.
    MissingCredential,
    /// The exchange with the service failed; the text says how.
    Transport(String),
}

/// The model that is asked.
pub open spec fn model_name() -> Seq<char> {
    "gpt-4o-latest"@
}

/// The instruction that opens the exchange.
pub open spec fn instruction_of(op: AiOp) -> Seq<char> {
    match op {
        AiOp::Summarize => "You are a helpful assistant that summarizes notes."@,
        AiOp::Keywords => "You are a helpful assistant that extracts keywords."@,
    }
}

/// The message that carries the note.
pub open spec fn prompt_of(op: AiOp, content: Seq<char>) -> Seq<char> {
    match op {
        AiOp::Summarize => "Summarize:\n\n"@ + content,
        AiOp::Keywords => "Extract keywords:\n\n"@ + content,
    }
}

/// The text that stands for an answer without choices.
pub open spec fn placeholder_of(op: AiOp) -> Seq<char> {
    match op {
        AiOp::Summarize => "No summary received."@,
        AiOp::Keywords => "No keywords received."@,
    }
}

/// The text of an answer: that of its first choice, or the placeholder.
pub open spec fn reply_of(op: AiOp, choices: Seq<Seq<char>>) -> Seq<char> {
    if choices.len() > 0 {
        choices[0]
    } else {
        placeholder_of(op)
    }
}

/// What is shown for an error.
pub open spec fn error_text(error: AiError) -> Seq<char> {
    match error {
        AiError::MissingCredential => "Please set OPENAI_API_KEY!"@,
        AiError::Transport(text) => text@,
    }
}

/// `request` asks for `op` on the note text `content`: the instruction
/// from the system first, then the note from the user.
pub open spec fn asks_for(request: ChatRequest, op: AiOp, content: Seq<char>) -> bool {
    &&& request.model@ == model_name()
    &&& request.messages@.len() == 2
    &&& request.messages@[0].role == Role::System
    &&& request.messages@[0].content@ == instruction_of(op)
    &&& request.messages@[1].role == Role::User
    &&& request.messages@[1].content@ == prompt_of(op, content)
}

impl AiError {
    /// What is shown for the error.
    pub fn message(&self) -> (r: String)
        ensures
            r@ == error_text(*self),
    {
        match self {
            AiError::MissingCredential => owned("Please set OPENAI_API_KEY!"),
            AiError::Transport(text) => text.clone(),
        }
    }
}

/// The exchange that asks for `op` on the note text `content`.
pub fn chat_request(op: AiOp, content: &str) -> (r: ChatRequest)
    ensures
        asks_for(r, op, content@),
{
    let instruction = match op {
        AiOp::Summarize => owned("You are a helpful assistant that summarizes notes."),
        AiOp::Keywords => owned("You are a helpful assistant that extracts keywords."),
    };
    let mut prompt = match op {
        AiOp::Summarize => chars_of("Summarize:\n\n"),
        AiOp::Keywords => chars_of("Extract keywords:\n\n"),
    };
    push_all(&mut prompt, &chars_of(content));
    let mut messages: Vec<ChatMessage> = Vec::new();
    messages.push(ChatMessage { role: Role::System, content: instruction });
    messages.push(ChatMessage { role: Role::User, content: string_of(&prompt) });
    ChatRequest { model: owned("gpt-4o-latest"), messages }
}

/// The call to make for `op` on `content`, where the environment gave the
/// credential `key`. Without a credential nothing is sent.
pub fn openai_request(op: AiOp, content: &str, key: Option<String>) -> (r: Result<
    ChatCall,
    AiError,
>)
    ensures
        match key {
            Some(k) => r matches Ok(call) && call.api_key == k && asks_for(
                call.request,
                op,
                content@,
            ),
            None => r matches Err(e) && e == AiError::MissingCredential,
        },
{
    match key {
        Some(k) => Ok(ChatCall { api_key: k, request: chat_request(op, content) }),
        None => Err(AiError::MissingCredential),
    }
}

/// The text of an answer with the choices `choices`.
pub fn first_choice(op: AiOp, choices: &Vec<String>) -> (r: String)
    ensures
        r@ == reply_of(op, choices.deep_view()),
{
    if choices.len() > 0 {
        choices[0].clone()
    } else {
        match op {
            AiOp::Summarize => owned("No summary received."),
            AiOp::Keywords => owned("No keywords received."),
        }
    }
}

/// What an analysis comes to, once the service has answered with the texts
/// of its choices, or the exchange has failed with a description.
pub fn openai_result(op: AiOp, outcome: Result<Vec<String>, String>) -> (r: Result<
    String,
    AiError,
>)
    ensures
        match outcome {
            Ok(choices) => r matches Ok(text) && text@ == reply_of(op, choices.deep_view()),
            Err(why) => r matches Err(e) && e == AiError::Transport(why),
        },
{
    match outcome {
        Ok(choices) => Ok(first_choice(op, &choices)),
        Err(why) => Err(AiError::Transport(why)),
    }
}

} // verus!

//! Data exchanged between the host and its plugins.

use crate::strmap::StrMap;
use crate::text::concat3;
use vstd::prelude::*;

verus! {

/// What a plugin is asked to do.
pub enum Action {
    GetTools,
    ExecuteTool,
    Chat,
    SetTyping,
    FormatSend,
    Login,
    CheckLogin,
    PreparePoll,
}

/// The answer of a tool.
pub struct ToolExecutionResponse {
    pub result: String,
    pub error: Option<String>,
}

/// A tool call the model made; its arguments are JSON text.
pub struct ChatToolCall {
    pub id: String,
    pub name: String,
    pub arguments: String,
}

/// A provider's answer to a chat request.
pub struct ChatResponse {
    pub content: String,
    pub tool_calls: Vec<ChatToolCall>,
    pub error: Option<String>,
}

/// A message that a channel received.
pub struct InboundMessage {
    pub channel: String,
    pub chat_id: String,
    pub content: String,
    pub media: Vec<String>,
}

impl InboundMessage {
    /// The key of the conversation it belongs to: `channel:chat_id`.
    pub fn session_key(&self) -> (r: String)
        ensures
            r@ == self.channel@ + ":"@ + self.chat_id@,
    {
        concat3(self.channel.as_str(), ":", self.chat_id.as_str())
    }
}

/// A message from the agent to a channel.
pub struct OutboundMessage {
    pub chat_id: String,
    pub content: String,
    pub reply_to: Option<String>,
    pub media: Vec<String>,
    pub metadata: StrMap<String>,
}

/// Metadata about a command that a plugin offers.
pub struct CommandInfo {
    pub name: String,
    pub description: String,
}

/// A call of a plugin's command.
pub struct CommandRequest {
    pub command: String,
    pub args: String,
    pub channel: String,
    pub chat_id: String,
}

/// What a plugin's command answered.
pub struct CommandResponse {
    pub success: bool,
    pub content: String,
    pub error: Option<String>,
}

/// The state of a QR code login.
pub struct QrStatusResponse {
    pub status: String,
    pub token: Option<String>,
    pub base_url: Option<String>,
    pub error: Option<String>,
}

/// Asks for the state of a QR code login.
pub struct QrStatusParams {
    pub temp_token: String,
}

/// The messages a poll of a channel brought.
pub struct PollResponse {
    pub messages: Vec<InboundMessage>,
    pub get_updates_buf: String,
    pub error: Option<String>,
}

/// Asks a channel for new messages.
pub struct PollParams {
    pub token: String,
    pub get_updates_buf: String,
}

/// Whether sending a message worked.
pub struct SendResponse {
    pub success: bool,
    pub error: Option<String>,
}

/// Starts or stops the typing indicator in a chat.
pub struct SetTypingParams {
    pub token: String,
    pub chat_id: String,
    pub typing: bool,
}

} // verus!

verus! {

/// What a channel plugin answers to a login request.
pub struct LoginOutput {
    pub status: String,
    pub qr_url: Option<String>,
    pub temp_token: Option<String>,
    pub token: Option<String>,
    pub base_url: Option<String>,
    pub error: Option<String>,
}

/// What a channel plugin answers when asked whether a QR login went through.
pub struct CheckLoginOutput {
    pub status: String,
    pub token: Option<String>,
    pub base_url: Option<String>,
    pub error: Option<String>,
}

} // verus!

verus! {

/// An HTTP request a plugin asks the host to make for it.
pub struct HttpEffect {
    pub method: String,
    pub url: String,
    pub headers: StrMap<String>,
    pub body: Option<String>,
    pub timeout_ms: u32,
}

} // verus!

//! Events, errors and payloads delivered to the shell's callbacks.
//!
//! Two orthogonal error layers exist: transport-level conditions
//! (`NetworkError`, delivered through the error callback) and
//! protocol-level failures (embedded in each event's `result`,
//! delivered through the success callback).

use vstd::prelude::*;
use crate::domain::{ConversationId, UserId, UuidValue};

verus! {

/// The envelope delivered to callbacks: every callback receives
/// exactly one envelope, tagged with the generation of the request.
#[derive(Clone, Debug, PartialEq, Eq)]
pub struct WithGeneration<T> {
    pub generation: u64,
    pub result: T,
}

/// Transport-level failure conditions, distinct from protocol-level
/// failures carried inside the events.
#[derive(Clone, Copy, Debug, PartialEq, Eq, Structural)]
pub enum NetworkError {
    Aborted,
    SysCancelled,
    UsrCancelled,
    Timeout,
}

/// Either a completed event or a transport-level failure.
pub type NetworkResult = Result<NetworkEvent, NetworkError>;

/// The sum of all event kinds a task can complete with.
#[derive(Debug, PartialEq, Eq)]
pub enum NetworkEvent {
    Captcha(CaptchaEvent),
    Signup(SignupEvent),
    Login(LoginEvent),
    Session(SessionEvent),
    Chat(MessageEvent),
}

#[derive(Debug, PartialEq, Eq)]
pub struct CaptchaEvent {
    pub result: Result<CaptchaData, CaptchaError>,
}

#[derive(Clone, Debug, PartialEq, Eq)]
pub struct CaptchaData {
    pub id: UuidValue,
    pub image_base64: String,
}

impl CaptchaData {
    /// At most the first 64 characters of the encoded image, for
    /// human-readable summaries.
    pub fn image_preview(&self) -> (r: String)
        ensures
            r@ == self.image_base64@.take(if self.image_base64@.len() < 64 {
                self.image_base64@.len() as int
            } else {
                64
            }),
    {
        let n = self.image_base64.as_str().unicode_len();
        let end = if n < 64 { n } else { 64 };
        let preview = self.image_base64.as_str().substring_char(0, end);
        preview.to_owned()
    }
}

#[derive(Clone, Copy, Debug, PartialEq, Eq, Structural)]
pub enum CaptchaError {
    FallbackError,
}

#[derive(Debug, PartialEq, Eq)]
pub struct SignupEvent {
    pub result: Result<(), SignupError>,
}

#[derive(Clone, Copy, Debug, PartialEq, Eq, Structural)]
pub enum SignupError {
    DuplicateName,
    WeakPassword,
    WrongCaptcha,
    FallbackError,
}

#[derive(Debug, PartialEq, Eq)]
pub struct LoginEvent {
    pub result: Result<TokenInfo, LoginError>,
}

#[derive(Clone, Debug, PartialEq, Eq)]
pub struct TokenInfo {
    pub user_id: UserId,
    pub access_token: String,
}

#[derive(Clone, Copy, Debug, PartialEq, Eq, Structural)]
pub enum LoginError {
    Unauthorized,
    WrongCaptcha,
    FallbackError,
}

#[derive(Debug, PartialEq, Eq)]
pub struct SessionEvent {
    pub result: Result<ChatMetaData, ChatConnError>,
}

#[derive(Clone, Copy, Debug, PartialEq, Eq, Structural)]
pub struct ChatMetaData;

#[derive(Clone, Copy, Debug, PartialEq, Eq, Structural)]
pub enum ChatConnError {
    FallbackError,
}

#[derive(Debug, PartialEq, Eq)]
pub struct MessageEvent {
    pub result: Result<MessageSent, MessageError>,
}

#[derive(Clone, Copy, Debug, PartialEq, Eq, Structural)]
pub struct MessageSent;

#[derive(Clone, Copy, Debug, PartialEq, Eq, Structural)]
pub enum MessageError {
    MissingSession,
    FallbackError,
}

/// A server-pushed message handed to the session's stream callback.
#[derive(Clone, Debug, PartialEq, Eq)]
pub enum StreamMessage {
    Distribute(ChatMessage),
}

#[derive(Clone, Debug, PartialEq, Eq)]
pub struct ChatMessage {
    pub sender: UserId,
    pub conversation_id: ConversationId,
    pub content: String,
}

} // verus!

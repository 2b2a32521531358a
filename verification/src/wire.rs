//! The frames exchanged with the chat server over the WebSocket.
//!
//! Outbound, the client sends `Send` frames tagged with a
//! per-connection `message_seq`; inbound, the server either
//! acknowledges a specific `message_seq` (`ACK`) or pushes a chat
//! message from another participant (`Distribute`).

use vstd::prelude::*;
use crate::domain::{ConversationId, UserId};

verus! {

/// The body shared by outbound sends and inbound distributes.
#[derive(Debug, PartialEq, Eq)]
pub struct ChatContent {
    pub conversation_id: ConversationId,
    pub content: String,
}

/// Payload of an outbound send.
#[derive(Debug, PartialEq, Eq)]
pub struct SendMessage {
    pub message_seq: u64,
    pub content: ChatContent,
}

/// A frame from the client to the server.
#[derive(Debug, PartialEq, Eq)]
pub enum ClientToServer {
    Send(SendMessage),
}

/// Server acknowledgement of one outbound send.
#[derive(Clone, Copy, Debug, PartialEq, Eq, Structural)]
pub struct Ack {
    pub message_seq: u64,
}

/// A chat message pushed by the server.
#[derive(Debug, PartialEq, Eq)]
pub struct Distribute {
    pub sender: UserId,
    pub content: ChatContent,
}

/// A frame from the server to the client.
#[derive(Debug, PartialEq, Eq)]
pub enum ServerToClient {
    Ack(Ack),
    Distribute(Distribute),
}

/// Build the outbound frame for one chat send.
pub fn make_send_frame(
    message_seq: u64,
    conversation_id: ConversationId,
    content: String,
) -> (f: ClientToServer)
    ensures
        f == (ClientToServer::Send(SendMessage {
            message_seq,
            content: ChatContent { conversation_id, content },
        })),
{
    ClientToServer::Send(SendMessage { message_seq, content: ChatContent { conversation_id, content } })
}

} // verus!

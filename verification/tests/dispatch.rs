use client_side::dispatch::{Dispatcher, InboundAction};
use client_side::domain::{ConversationId, UserId, UuidValue};
use client_side::events::{ChatConnError, ChatMetaData, MessageError, MessageSent};
use client_side::wire::{Ack, ChatContent, Distribute, ServerToClient};

fn distribute(sender_bits: u128, conv_bits: u128, text: &str) -> ServerToClient {
    ServerToClient::Distribute(Distribute {
        sender: UserId(UuidValue::from_bits(sender_bits)),
        content: ChatContent {
            conversation_id: ConversationId(UuidValue::from_bits(conv_bits)),
            content: text.to_string(),
        },
    })
}

#[test]
fn send_without_session_fails_immediately() {
    let mut d = Dispatcher::new();
    assert_eq!(d.begin_send(), Err(MessageError::MissingSession));
}

#[test]
fn send_after_connect_is_acknowledged() {
    let mut d = Dispatcher::new();
    let e = d.install_session(true);
    assert_eq!(e.result, Ok(ChatMetaData));
    let seq = d.begin_send().unwrap();
    assert_eq!(seq, 0);
    let a = d.handle_frame(&ServerToClient::Ack(Ack { message_seq: seq }));
    assert_eq!(a, InboundAction::NotifySent(seq));
    let done = d.finish_send(seq);
    assert_eq!(done.result, Ok(MessageSent));
}

#[test]
fn message_seq_is_monotonic() {
    let mut d = Dispatcher::new();
    d.install_session(true);
    assert_eq!(d.begin_send(), Ok(0));
    assert_eq!(d.begin_send(), Ok(1));
    assert_eq!(d.begin_send(), Ok(2));
}

#[test]
fn late_or_duplicate_ack_is_discarded() {
    let mut d = Dispatcher::new();
    d.install_session(true);
    let a = d.handle_frame(&ServerToClient::Ack(Ack { message_seq: 9 }));
    assert_eq!(a, InboundAction::DropLateAck(9));
    let seq = d.begin_send().unwrap();
    let first = d.handle_frame(&ServerToClient::Ack(Ack { message_seq: seq }));
    assert_eq!(first, InboundAction::NotifySent(seq));
    let second = d.handle_frame(&ServerToClient::Ack(Ack { message_seq: seq }));
    assert_eq!(second, InboundAction::DropLateAck(seq));
}

#[test]
fn abandoned_send_drops_its_ack() {
    let mut d = Dispatcher::new();
    d.install_session(true);
    let seq = d.begin_send().unwrap();
    d.abandon_send(seq);
    let a = d.handle_frame(&ServerToClient::Ack(Ack { message_seq: seq }));
    assert_eq!(a, InboundAction::DropLateAck(seq));
}

#[test]
fn stream_deliveries_keep_wire_order() {
    let mut d = Dispatcher::new();
    d.install_session(true);
    let seq = d.begin_send().unwrap();
    let frames = vec![
        distribute(1, 7, "first"),
        ServerToClient::Ack(Ack { message_seq: seq }),
        distribute(2, 7, "second"),
    ];
    let deliveries = d.route_frames(&frames);
    assert_eq!(deliveries.len(), 2);
    assert_eq!(deliveries[0].content, "first");
    assert_eq!(deliveries[0].sender, UserId(UuidValue::from_bits(1)));
    assert_eq!(deliveries[1].content, "second");
    assert_eq!(deliveries[1].sender, UserId(UuidValue::from_bits(2)));
    let done = d.finish_send(seq);
    assert_eq!(done.result, Ok(MessageSent));
}

#[test]
fn acks_never_reach_the_stream() {
    let mut d = Dispatcher::new();
    d.install_session(true);
    let frames = vec![
        ServerToClient::Ack(Ack { message_seq: 3 }),
        ServerToClient::Ack(Ack { message_seq: 4 }),
    ];
    let deliveries = d.route_frames(&frames);
    assert!(deliveries.is_empty());
}

#[test]
fn second_connect_while_live_is_rejected() {
    let mut d = Dispatcher::new();
    assert_eq!(d.install_session(true).result, Ok(ChatMetaData));
    assert_eq!(
        d.install_session(true).result,
        Err(ChatConnError::FallbackError)
    );
}

#[test]
fn failed_connect_reports_fallback_error() {
    let mut d = Dispatcher::new();
    assert_eq!(
        d.install_session(false).result,
        Err(ChatConnError::FallbackError)
    );
    // no session was installed
    assert_eq!(d.begin_send(), Err(MessageError::MissingSession));
}

#[test]
fn closing_session_stops_accepting_sends() {
    let mut d = Dispatcher::new();
    d.install_session(true);
    d.mark_closing();
    assert_eq!(d.begin_send(), Err(MessageError::MissingSession));
    d.mark_closed();
    assert_eq!(d.begin_send(), Err(MessageError::MissingSession));
    // a fresh connect is possible once the old session is fully closed
    assert_eq!(d.install_session(true).result, Ok(ChatMetaData));
    assert_eq!(d.begin_send(), Ok(0));
}

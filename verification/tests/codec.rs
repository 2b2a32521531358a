use client_side::codec::{encode_client, encode_server, parse_server, uuid_hyphenated};
use client_side::domain::{ConversationId, UserId, UuidValue};
use client_side::wire::{make_send_frame, Ack, ChatContent, ClientToServer, Distribute,
    SendMessage, ServerToClient};

#[test]
fn nil_uuid_renders_all_zero() {
    assert_eq!(
        uuid_hyphenated(UuidValue::nil()),
        "00000000-0000-0000-0000-000000000000"
    );
}

#[test]
fn uuid_rendering_groups_and_lowercases() {
    let u = UuidValue::from_bits(0x00112233_4455_6677_8899_aabbccddeeffu128);
    assert_eq!(uuid_hyphenated(u), "00112233-4455-6677-8899-aabbccddeeff");
}

#[test]
fn send_frame_encodes_canonically() {
    let f = make_send_frame(0, ConversationId(UuidValue::nil()), "Hello".to_string());
    assert_eq!(
        encode_client(&f),
        "{\"Send\":{\"message_seq\":0,\"content\":{\"conversation_id\":\
         \"00000000-0000-0000-0000-000000000000\",\"content\":\"Hello\"}}}"
    );
}

#[test]
fn send_frame_escapes_content() {
    let f = make_send_frame(
        12345,
        ConversationId(UuidValue::from_bits(7)),
        "a\"b\\c\nd\te\u{1}".to_string(),
    );
    assert_eq!(
        encode_client(&f),
        "{\"Send\":{\"message_seq\":12345,\"content\":{\"conversation_id\":\
         \"00000000-0000-0000-0000-000000000007\",\"content\":\
         \"a\\\"b\\\\c\\nd\\te\\u0001\"}}}"
    );
}

#[test]
fn ack_frame_encodes_and_parses() {
    let f = ServerToClient::Ack(Ack { message_seq: 7 });
    let text = encode_server(&f);
    assert_eq!(text, "{\"ACK\":{\"message_seq\":7}}");
    assert_eq!(parse_server(&text), Some(ServerToClient::Ack(Ack { message_seq: 7 })));
}

fn sample_distribute(text: &str) -> ServerToClient {
    ServerToClient::Distribute(Distribute {
        sender: UserId(UuidValue::from_bits(0xdeadbeef)),
        content: ChatContent {
            conversation_id: ConversationId(UuidValue::from_bits(42)),
            content: text.to_string(),
        },
    })
}

#[test]
fn distribute_frame_round_trips() {
    let f = sample_distribute("Hello");
    let text = encode_server(&f);
    assert_eq!(
        text,
        "{\"Distribute\":{\"sender\":\"00000000-0000-0000-0000-0000deadbeef\",\
         \"content\":{\"conversation_id\":\"00000000-0000-0000-0000-00000000002a\",\
         \"content\":\"Hello\"}}}"
    );
    assert_eq!(parse_server(&text), Some(sample_distribute("Hello")));
}

#[test]
fn tricky_content_round_trips() {
    for text in [
        "",
        "with \"quotes\" and \\backslashes\\",
        "line\nbreaks\r\ttabs",
        "control \u{1}\u{8}\u{c}\u{1f} chars",
        "unicode \u{fc}\u{4e16}\u{1f600} text",
    ] {
        let f = sample_distribute(text);
        let encoded = encode_server(&f);
        assert_eq!(parse_server(&encoded), Some(sample_distribute(text)), "{text:?}");
    }
}

#[test]
fn ack_with_large_seq_round_trips() {
    let f = ServerToClient::Ack(Ack { message_seq: u64::MAX });
    let text = encode_server(&f);
    assert_eq!(text, "{\"ACK\":{\"message_seq\":18446744073709551615}}");
    assert_eq!(parse_server(&text), Some(f));
}

#[test]
fn parser_rejects_non_canonical_text() {
    // not a frame at all
    assert_eq!(parse_server("hello"), None);
    assert_eq!(parse_server(""), None);
    // wrong tag
    assert_eq!(parse_server("{\"Ack\":{\"message_seq\":7}}"), None);
    // trailing garbage
    assert_eq!(parse_server("{\"ACK\":{\"message_seq\":7}} "), None);
    // leading zero is not canonical
    assert_eq!(parse_server("{\"ACK\":{\"message_seq\":07}}"), None);
    // number too large for u64
    assert_eq!(parse_server("{\"ACK\":{\"message_seq\":18446744073709551616}}"), None);
    // uppercase hex in a UUID is not canonical
    assert_eq!(
        parse_server(
            "{\"Distribute\":{\"sender\":\"00000000-0000-0000-0000-0000DEADBEEF\",\
             \"content\":{\"conversation_id\":\"00000000-0000-0000-0000-000000000000\",\
             \"content\":\"x\"}}}"
        ),
        None
    );
    // unterminated string
    assert_eq!(
        parse_server(
            "{\"Distribute\":{\"sender\":\"00000000-0000-0000-0000-000000000000\",\
             \"content\":{\"conversation_id\":\"00000000-0000-0000-0000-000000000000\",\
             \"content\":\"x"
        ),
        None
    );
}

#[test]
fn client_frames_nest_the_content_object() {
    let f = ClientToServer::Send(SendMessage {
        message_seq: 1,
        content: ChatContent {
            conversation_id: ConversationId(UuidValue::nil()),
            content: "Hi".to_string(),
        },
    });
    let text = encode_client(&f);
    assert!(text.starts_with("{\"Send\":{\"message_seq\":1,"));
    assert!(text.ends_with("\"content\":\"Hi\"}}}"));
}

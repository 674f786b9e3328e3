use chat_cli::chars::chars_of;
use chat_cli::message::{
    parse_message, message_json, Message, ChatMessage, ChatMessagePayload, HeartbeatMessage,
    MessageContent, MessageDetail, MessageNormal, MessageReplay, MessageTarget,
    MessageTargetGroup, MessageTargetUser,
};
use chat_cli::sse::{decode_frame, extract_data};
use chat_cli::wire::{parse_i64, push_i64_str};

fn parse_str(s: &str) -> Option<Message> {
    parse_message(&chars_of(s))
}

fn to_string(v: Vec<char>) -> String {
    v.into_iter().collect()
}

#[test]
fn test_get_friend_history() {
    let history = "{\"ChatMessage\":{\"mid\":98,\"payload\":{\"from_uid\":10,\"created_at\":\"2024-09-12T23:15:05.264972+08:00\",\"target\":{\"User\":{\"uid\":11}},\"detail\":{\"Normal\":{\"content\":{\"content\":\"hello world!!!!!\"}}}}}}";
    let result = parse_str(history);
    match result {
        Some(msg) => {
            println!("{:?}", msg);
            match msg {
                Message::ChatMessage(c) => {
                    assert_eq!(c.mid, 98);
                    assert_eq!(c.payload.from_uid, 10);
                    assert_eq!(c.payload.created_at, "2024-09-12T23:15:05.264972+08:00");
                    assert_eq!(
                        c.payload.target,
                        MessageTarget::User(MessageTargetUser { uid: 11 })
                    );
                    assert_eq!(c.payload.detail.get_content(), "hello world!!!!!");
                }
                Message::Heartbeat(_) => panic!("not a heartbeat"),
            }
        }
        None => {
            panic!("failed to parse event data");
        }
    }
}

#[test]
fn chat_message_round_trips() {
    let m = Message::ChatMessage(ChatMessage {
        mid: -5,
        payload: ChatMessagePayload {
            from_uid: 7,
            created_at: "2024-01-01T00:00:00+00:00".to_string(),
            target: MessageTarget::Group(MessageTargetGroup { gid: 3 }),
            detail: MessageDetail::Replay(MessageReplay {
                mid: 90,
                content: MessageContent { content: "a \"quoted\" \\ reply".to_string() },
            }),
        },
    });
    let encoded = to_string(message_json(&m));
    let back = parse_str(&encoded).expect("canonical form must parse");
    match back {
        Message::ChatMessage(c) => {
            assert_eq!(c.mid, -5);
            assert_eq!(c.payload.from_uid, 7);
            assert_eq!(c.payload.target, MessageTarget::Group(MessageTargetGroup { gid: 3 }));
            match c.payload.detail {
                MessageDetail::Replay(r) => {
                    assert_eq!(r.mid, 90);
                    assert_eq!(r.content.content, "a \"quoted\" \\ reply");
                }
                _ => panic!("wrong detail"),
            }
        }
        _ => panic!("wrong variant"),
    }
}

#[test]
fn heartbeat_round_trips() {
    let m = Message::Heartbeat(HeartbeatMessage { time: "2024-09-12T23:15:05+08:00".to_string() });
    let encoded = to_string(message_json(&m));
    assert_eq!(encoded, "{\"Heartbeat\":{\"time\":\"2024-09-12T23:15:05+08:00\"}}");
    match parse_str(&encoded) {
        Some(Message::Heartbeat(h)) => assert_eq!(h.time, "2024-09-12T23:15:05+08:00"),
        _ => panic!("heartbeat must parse"),
    }
}

#[test]
fn control_characters_are_escaped_and_recovered() {
    let m = Message::ChatMessage(ChatMessage {
        mid: 1,
        payload: ChatMessagePayload {
            from_uid: 2,
            created_at: "t".to_string(),
            target: MessageTarget::User(MessageTargetUser { uid: 3 }),
            detail: MessageDetail::Normal(MessageNormal {
                content: MessageContent { content: "a\nb\tc\u{1}d".to_string() },
            }),
        },
    });
    let encoded = to_string(message_json(&m));
    assert!(encoded.contains("a\\nb\\tc\\u0001d"));
    match parse_str(&encoded) {
        Some(Message::ChatMessage(c)) => {
            assert_eq!(c.payload.detail.get_content(), "a\nb\tc\u{1}d")
        }
        _ => panic!("must parse"),
    }
}

#[test]
fn serializer_output_is_real_json() {
    let m = Message::ChatMessage(ChatMessage {
        mid: 42,
        payload: ChatMessagePayload {
            from_uid: 10,
            created_at: "now".to_string(),
            target: MessageTarget::User(MessageTargetUser { uid: 11 }),
            detail: MessageDetail::Normal(MessageNormal {
                content: MessageContent { content: "hi \"there\"".to_string() },
            }),
        },
    });
    let encoded = to_string(message_json(&m));
    let v: serde_json::Value = serde_json::from_str(&encoded).expect("valid JSON");
    let chat = v.get("ChatMessage").expect("tagged");
    assert_eq!(chat.get("mid").unwrap().as_i64(), Some(42));
    let payload = chat.get("payload").unwrap();
    assert_eq!(payload.get("from_uid").unwrap().as_i64(), Some(10));
    assert_eq!(payload.get("created_at").unwrap().as_str(), Some("now"));
    assert_eq!(
        payload.get("target").unwrap().get("User").unwrap().get("uid").unwrap().as_i64(),
        Some(11)
    );
    assert_eq!(
        payload
            .get("detail")
            .unwrap()
            .get("Normal")
            .unwrap()
            .get("content")
            .unwrap()
            .get("content")
            .unwrap()
            .as_str(),
        Some("hi \"there\"")
    );
}

#[test]
fn malformed_events_are_refused() {
    assert!(parse_str("").is_none());
    assert!(parse_str("{}").is_none());
    assert!(parse_str("{\"Unknown\":{}}").is_none());
    // non-canonical number
    assert!(parse_str("{\"Heartbeat\":{\"time\":\"t\"}}extra").is_none());
    assert!(
        parse_str("{\"ChatMessage\":{\"mid\":007,\"payload\":{\"from_uid\":1,\"created_at\":\"t\",\"target\":{\"User\":{\"uid\":2}},\"detail\":{\"Normal\":{\"content\":{\"content\":\"x\"}}}}}}")
            .is_none()
    );
    // unterminated string
    assert!(parse_str("{\"Heartbeat\":{\"time\":\"t}}").is_none());
}

#[test]
fn numbers_round_trip_at_the_edges() {
    for n in [0i64, 1, -1, 99, i64::MAX, i64::MIN] {
        let mut v: Vec<char> = Vec::new();
        push_i64_str(&mut v, n);
        let (x, j) = parse_i64(&v, 0).expect("canonical number parses");
        assert_eq!(x, n);
        assert_eq!(j, v.len());
    }
    assert_eq!(parse_i64(&chars_of("-0"), 0), None);
    assert_eq!(parse_i64(&chars_of("01"), 0), None);
    assert_eq!(parse_i64(&chars_of(""), 0), None);
    assert_eq!(parse_i64(&chars_of("9223372036854775808"), 0), None);
    assert_eq!(parse_i64(&chars_of("-9223372036854775808"), 0), Some((i64::MIN, 20)));
}

#[test]
fn frames_carry_their_data_line() {
    let d = extract_data(&chars_of("event: x\ndata: {\"a\":1}\n\n")).expect("data line");
    let s: String = d.into_iter().collect();
    assert_eq!(s, "{\"a\":1}");
    // repeated prefixes are stripped, crlf endings handled
    let d2 = extract_data(&chars_of("data:data: payload\r\nrest\r\n")).expect("data line");
    let s2: String = d2.into_iter().collect();
    assert_eq!(s2, "payload");
    assert!(extract_data(&chars_of("no data here\n")).is_none());
    assert!(extract_data(&chars_of("data:   \n")).is_none());
    assert!(extract_data(&chars_of("")).is_none());
}

#[test]
fn frames_decode_to_events() {
    let frame = "data: {\"Heartbeat\":{\"time\":\"t\"}}\n\n";
    match decode_frame(frame) {
        Some(Message::Heartbeat(h)) => assert_eq!(h.time, "t"),
        _ => panic!("heartbeat frame must decode"),
    }
    assert!(decode_frame("data: not json\n\n").is_none());
    assert!(decode_frame(": keepalive\n\n").is_none());
}

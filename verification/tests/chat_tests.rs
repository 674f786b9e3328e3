use chat_cli::chat::{
    group_history_line, handle_frame, handle_input, history_line, latest_group_mid, latest_mid,
    open_conversation, open_group_conversation, read_index_json, replace_whitespace, send_body,
    ChatState, Friend, GroupHistoryMsg, InputAction, UpdateReadIndex, UserHistoryMsg,
};
use chat_cli::snapshot::{ConversationSnapshot, ConversationSummary, PollOutcome};

fn chat_frame(mid: i64, from: i32, to: i32, text: &str) -> String {
    format!(
        "data: {{\"ChatMessage\":{{\"mid\":{},\"payload\":{{\"from_uid\":{},\"created_at\":\"t\",\"target\":{{\"User\":{{\"uid\":{}}}}},\"detail\":{{\"Normal\":{{\"content\":{{\"content\":\"{}\"}}}}}}}}}}}}\n\n",
        mid, from, to, text
    )
}

const HEARTBEAT_FRAME: &str = "data: {\"Heartbeat\":{\"time\":\"t\"}}\n\n";

#[test]
fn peer_messages_render_and_push_exactly_once_each() {
    let mut state = ChatState { peer_uid: 10, last_seen_mid: None };
    // N chat messages of this conversation interleaved with M heartbeats
    let frames = vec![
        chat_frame(1, 10, 11, "one"),
        HEARTBEAT_FRAME.to_string(),
        chat_frame(2, 11, 10, "two"),
        HEARTBEAT_FRAME.to_string(),
        HEARTBEAT_FRAME.to_string(),
        chat_frame(3, 10, 11, "three"),
    ];
    let mut renders = 0;
    let mut pushes = 0;
    for f in &frames {
        let step = handle_frame(&mut state, f);
        if step.render.is_some() {
            renders += 1;
        }
        if let Some(p) = step.push {
            pushes += 1;
            match p {
                UpdateReadIndex::User { target_uid, .. } => assert_eq!(target_uid, 10),
                _ => panic!("pushes of this view name the peer"),
            }
        }
    }
    assert_eq!(renders, 3);
    assert_eq!(pushes, 3);
    assert_eq!(state.last_seen_mid, Some(3));
}

#[test]
fn heartbeats_never_touch_the_read_position() {
    let mut state = ChatState { peer_uid: 10, last_seen_mid: Some(7) };
    let step = handle_frame(&mut state, HEARTBEAT_FRAME);
    assert!(step.render.is_none());
    assert!(step.push.is_none());
    assert_eq!(state, ChatState { peer_uid: 10, last_seen_mid: Some(7) });
}

#[test]
fn other_conversations_are_dropped() {
    let mut state = ChatState { peer_uid: 10, last_seen_mid: Some(7) };
    // from 5 to 6: neither side is the open peer
    let step = handle_frame(&mut state, &chat_frame(9, 5, 6, "elsewhere"));
    assert!(step.render.is_none());
    assert!(step.push.is_none());
    assert_eq!(state.last_seen_mid, Some(7));
}

#[test]
fn malformed_frames_are_dropped() {
    let mut state = ChatState { peer_uid: 10, last_seen_mid: Some(7) };
    let step = handle_frame(&mut state, "data: {broken\n\n");
    assert!(step.render.is_none() && step.push.is_none());
    assert_eq!(state.last_seen_mid, Some(7));
}

#[test]
fn rendered_lines_attribute_the_sender() {
    let mut state = ChatState { peer_uid: 10, last_seen_mid: None };
    let step = handle_frame(&mut state, &chat_frame(1, 10, 11, "hi"));
    let line = step.render.expect("rendered");
    assert!(line.from_peer);
    assert_eq!(line.content, "hi");
    assert_eq!(line.created_at, "t");
    let step2 = handle_frame(&mut state, &chat_frame(2, 11, 10, "yo"));
    assert!(!step2.render.expect("rendered").from_peer);
}

#[test]
fn exit_always_terminates_on_input() {
    assert!(matches!(handle_input("exit"), InputAction::Exit));
    assert!(matches!(handle_input("  exit \n"), InputAction::Exit));
    assert!(matches!(handle_input("exit now"), InputAction::Send(_)));
    assert!(matches!(handle_input("EXIT"), InputAction::Send(_)));
    assert!(matches!(handle_input("   \n"), InputAction::Ignore));
    assert!(matches!(handle_input(""), InputAction::Ignore));
    match handle_input(" hello world \n") {
        InputAction::Send(s) => assert_eq!(s, "helloworld"),
        _ => panic!("a non-empty line is sent"),
    }
}

#[test]
fn whitespace_is_collapsed_before_sending() {
    assert_eq!(replace_whitespace("a b\tc\r\nd"), "abcd");
    assert_eq!(replace_whitespace("   "), "");
    assert_eq!(replace_whitespace("x"), "x");
}

#[test]
fn send_body_is_the_documented_json() {
    assert_eq!(send_body("hi"), "{\"msg\":\"hi\"}");
    assert_eq!(send_body("say\"so\""), "{\"msg\":\"say\\\"so\\\"\"}");
}

#[test]
fn read_index_bodies_are_the_documented_json() {
    assert_eq!(
        read_index_json(&UpdateReadIndex::User { target_uid: 5, mid: 9 }),
        "{\"User\":{\"target_uid\":5,\"mid\":9}}"
    );
    assert_eq!(
        read_index_json(&UpdateReadIndex::Group { target_gid: -2, mid: 31 }),
        "{\"Group\":{\"target_gid\":-2,\"mid\":31}}"
    );
}

fn msg(mid: i64, from: i32) -> UserHistoryMsg {
    UserHistoryMsg { mid, msg: "m".to_string(), time: "t".to_string(), from_uid: from }
}

#[test]
fn opening_a_conversation_pushes_the_latest_mid_once() {
    let friend = Friend { id: 4, name: "dana".to_string() };
    let history = vec![msg(1, 4), msg(2, 9)];
    let (state, push) = open_conversation(&friend, &history);
    assert_eq!(state, ChatState { peer_uid: 4, last_seen_mid: Some(2) });
    assert_eq!(push, Some(UpdateReadIndex::User { target_uid: 4, mid: 2 }));
    // no history: nothing to mark read
    let (state2, push2) = open_conversation(&friend, &Vec::new());
    assert_eq!(state2, ChatState { peer_uid: 4, last_seen_mid: None });
    assert_eq!(push2, None);
    assert_eq!(latest_mid(&history), Some(2));
    assert_eq!(latest_mid(&Vec::new()), None);
}

#[test]
fn history_lines_attribute_like_the_live_stream() {
    let friend = Friend { id: 4, name: "dana".to_string() };
    let line = history_line(&msg(1, 4), &friend);
    assert!(line.from_peer);
    let line2 = history_line(&msg(2, 9), &friend);
    assert!(!line2.from_peer);
    assert_eq!(line2.content, "m");
}

fn summary(uid: i32, name: &str) -> ConversationSummary {
    ConversationSummary::User {
        uid,
        user_name: name.to_string(),
        mid: 1,
        msg: "m".to_string(),
        msg_time: "t".to_string(),
        unread: None,
    }
}

#[test]
fn failed_polls_keep_the_previous_snapshot() {
    let mut snap = ConversationSnapshot::new();
    assert_eq!(snap.items.len(), 0);
    snap.apply_poll(PollOutcome::Fetched { list: vec![summary(1, "a"), summary(2, "b")] });
    assert_eq!(snap.items.len(), 2);
    // a transient error (the poll yielded nothing) never blanks the list
    snap.apply_poll(PollOutcome::Failed);
    assert_eq!(snap.items.len(), 2);
    match &snap.items[0] {
        ConversationSummary::User { user_name, .. } => assert_eq!(user_name, "a"),
        _ => panic!("user entry"),
    }
    // the next successful poll replaces it wholesale
    snap.apply_poll(PollOutcome::Fetched { list: vec![summary(3, "c")] });
    assert_eq!(snap.items.len(), 1);
}

fn gmsg(mid: i64, from: i32, name: &str) -> GroupHistoryMsg {
    GroupHistoryMsg {
        mid,
        msg: "m".to_string(),
        time: "t".to_string(),
        from_uid: from,
        name_of_from_uid: name.to_string(),
    }
}

#[test]
fn group_history_attributes_against_the_logged_in_user() {
    let mine = group_history_line(&gmsg(1, 10, "me"), 10);
    assert!(mine.from_self);
    let theirs = group_history_line(&gmsg(2, 11, "dana"), 10);
    assert!(!theirs.from_self);
    assert_eq!(theirs.sender_name, "dana");
    assert_eq!(theirs.content, "m");
}

#[test]
fn opening_a_group_pushes_the_latest_mid_once() {
    let history = vec![gmsg(4, 10, "me"), gmsg(9, 11, "dana")];
    assert_eq!(latest_group_mid(&history), Some(9));
    assert_eq!(
        open_group_conversation(3, &history),
        Some(UpdateReadIndex::Group { target_gid: 3, mid: 9 })
    );
    assert_eq!(latest_group_mid(&Vec::new()), None);
    assert_eq!(open_group_conversation(3, &Vec::new()), None);
}

#[test]
fn cursor_moves_stay_inside_the_list() {
    let mut snap = ConversationSnapshot::new();
    snap.select_next();
    assert_eq!(snap.selected, None);
    snap.apply_poll(PollOutcome::Fetched { list: vec![summary(1, "a"), summary(2, "b")] });
    snap.select_next();
    assert_eq!(snap.selected, Some(0));
    snap.select_next();
    assert_eq!(snap.selected, Some(1));
    snap.select_next();
    assert_eq!(snap.selected, Some(1));
    snap.select_previous();
    assert_eq!(snap.selected, Some(0));
    snap.select_previous();
    assert_eq!(snap.selected, Some(0));
    snap.select_last();
    assert_eq!(snap.selected, Some(1));
    snap.select_first();
    assert_eq!(snap.selected, Some(0));
    assert!(snap.selected_summary().is_some());
    // with nothing selected, stepping back lands on the last entry
    let mut snap2 = ConversationSnapshot::new();
    snap2.apply_poll(PollOutcome::Fetched { list: vec![summary(1, "a"), summary(2, "b")] });
    snap2.select_previous();
    assert_eq!(snap2.selected, Some(1));
}

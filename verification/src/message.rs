//! Inbound events of the realtime stream: chat messages and heartbeats,
//! with their wire encoding.
//!
//! The wire form is the JSON the backend emits for these types: compact,
//! fields in declaration order, strings escaped canonically. `spec_message_json`
//! defines that form; `parse_message` accepts exactly it (a malformed frame
//! is reported as `None` and dropped by the caller), and
//! `lemma_message_round_trip` shows every well-formed event is accepted.

use vstd::prelude::*;
use crate::chars::string_of;
use crate::wire::{
    esc, lit_at, spec_eat_lit, spec_i64_str, spec_parse_i64, spec_unesc, eat_lit, parse_i64,
    parse_string, push_escaped, push_i64_str, push_lit, lemma_lit_at_split, lemma_unesc_esc,
    lemma_parse_i64_round_trip, is_digit,
};
use crate::chars::chars_of;

verus! {

// ----------------------------------------------------------------------
// the event types
// ----------------------------------------------------------------------
#[derive(Clone, Copy, Debug, Hash, Eq, PartialEq, Structural)]
pub struct MessageTargetUser {
    pub uid: i32,
}

#[derive(Clone, Copy, Debug, Hash, Eq, PartialEq, Structural)]
pub struct MessageTargetGroup {
    pub gid: i32,
}

/// Whom a message is addressed to.
#[derive(Clone, Copy, Debug, Hash, Eq, PartialEq, Structural)]
pub enum MessageTarget {
    User(MessageTargetUser),
    Group(MessageTargetGroup),
}

#[derive(Clone, Debug)]
pub struct MessageContent {
    pub content: String,
}

#[derive(Clone, Debug)]
pub struct MessageNormal {
    pub content: MessageContent,
}

#[derive(Clone, Debug)]
pub struct MessageReplay {
    pub mid: i64,
    pub content: MessageContent,
}

/// A plain message, or a reply to an earlier message.
#[derive(Clone, Debug)]
pub enum MessageDetail {
    Normal(MessageNormal),
    Replay(MessageReplay),
}

#[derive(Clone, Debug)]
pub struct ChatMessagePayload {
    /// Sender id.
    pub from_uid: i32,
    /// The create time of the message, as the backend wrote it.
    pub created_at: String,
    /// Message target.
    pub target: MessageTarget,
    /// Message detail.
    pub detail: MessageDetail,
}

#[derive(Clone, Debug)]
pub struct ChatMessage {
    /// Message id.
    pub mid: i64,
    pub payload: ChatMessagePayload,
}

/// A liveness signal; carries nothing the client shows.
#[derive(Clone, Debug)]
pub struct HeartbeatMessage {
    pub time: String,
}

/// One frame of the event stream.
#[derive(Clone, Debug)]
pub enum Message {
    ChatMessage(ChatMessage),
    Heartbeat(HeartbeatMessage),
}

// ----------------------------------------------------------------------
// mathematical views
// ----------------------------------------------------------------------
pub enum DetailV {
    Normal { content: Seq<char> },
    Replay { mid: int, content: Seq<char> },
}

pub struct PayloadV {
    pub from_uid: int,
    pub created_at: Seq<char>,
    pub target: MessageTarget,
    pub detail: DetailV,
}

pub enum MessageV {
    Chat { mid: int, payload: PayloadV },
    Heartbeat { time: Seq<char> },
}

impl View for MessageDetail {
    type V = DetailV;

    open spec fn view(&self) -> DetailV {
        match self {
            MessageDetail::Normal(n) => DetailV::Normal { content: n.content.content@ },
            MessageDetail::Replay(r) => DetailV::Replay {
                mid: r.mid as int,
                content: r.content.content@,
            },
        }
    }
}

impl View for ChatMessagePayload {
    type V = PayloadV;

    open spec fn view(&self) -> PayloadV {
        PayloadV {
            from_uid: self.from_uid as int,
            created_at: self.created_at@,
            target: self.target,
            detail: self.detail@,
        }
    }
}

impl View for Message {
    type V = MessageV;

    open spec fn view(&self) -> MessageV {
        match self {
            Message::ChatMessage(c) => MessageV::Chat { mid: c.mid as int, payload: c.payload@ },
            Message::Heartbeat(h) => MessageV::Heartbeat { time: h.time@ },
        }
    }
}

/// The text of the message, whatever its shape.
pub open spec fn spec_detail_content(d: DetailV) -> Seq<char> {
    match d {
        DetailV::Normal { content } => content,
        DetailV::Replay { content, .. } => content,
    }
}

impl MessageDetail {
    /// The text of the message, whatever its shape.
    pub fn get_content(&self) -> (r: String)
        ensures
            r@ == spec_detail_content(self@),
    {
        match self {
            MessageDetail::Normal(msg) => msg.content.content.clone(),
            MessageDetail::Replay(msg) => msg.content.content.clone(),
        }
    }
}

/// Numeric fields fit the wire types.
pub open spec fn detail_wf(d: DetailV) -> bool {
    match d {
        DetailV::Normal { .. } => true,
        DetailV::Replay { mid, .. } => i64::MIN <= mid <= i64::MAX,
    }
}

pub open spec fn payload_wf(p: PayloadV) -> bool {
    i32::MIN <= p.from_uid <= i32::MAX && detail_wf(p.detail)
}

pub open spec fn message_wf(m: MessageV) -> bool {
    match m {
        MessageV::Chat { mid, payload } => i64::MIN <= mid <= i64::MAX && payload_wf(payload),
        MessageV::Heartbeat { .. } => true,
    }
}

// ----------------------------------------------------------------------
// the wire form
// ----------------------------------------------------------------------
/// A string body as it stands on the wire: escaped, with the closing quote.
/// (The opening quote belongs to the literal before it.)
pub open spec fn spec_qbody(s: Seq<char>) -> Seq<char> {
    esc(s) + seq!['"']
}

pub open spec fn spec_target_json(t: MessageTarget) -> Seq<char> {
    match t {
        MessageTarget::User(u) => "{\"User\":{\"uid\":"@ + spec_i64_str(u.uid as int) + "}}"@,
        MessageTarget::Group(g) => "{\"Group\":{\"gid\":"@ + spec_i64_str(g.gid as int) + "}}"@,
    }
}

pub open spec fn spec_detail_json(d: DetailV) -> Seq<char> {
    match d {
        DetailV::Normal { content } => "{\"Normal\":{\"content\":{\"content\":\""@ + spec_qbody(
            content,
        ) + "}}}"@,
        DetailV::Replay { mid, content } => "{\"Replay\":{\"mid\":"@ + spec_i64_str(mid)
            + ",\"content\":{\"content\":\""@ + spec_qbody(content) + "}}}"@,
    }
}

pub open spec fn spec_payload_json(p: PayloadV) -> Seq<char> {
    "{\"from_uid\":"@ + spec_i64_str(p.from_uid) + ",\"created_at\":\""@ + spec_qbody(
        p.created_at,
    ) + ",\"target\":"@ + spec_target_json(p.target) + ",\"detail\":"@ + spec_detail_json(
        p.detail,
    ) + "}"@
}

/// The wire form of one event, exactly as the backend writes it.
pub open spec fn spec_message_json(m: MessageV) -> Seq<char> {
    match m {
        MessageV::Chat { mid, payload } => "{\"ChatMessage\":{\"mid\":"@ + spec_i64_str(mid)
            + ",\"payload\":"@ + spec_payload_json(payload) + "}}"@,
        MessageV::Heartbeat { time } => "{\"Heartbeat\":{\"time\":\""@ + spec_qbody(time) + "}}"@,
    }
}

// ----------------------------------------------------------------------
// parsing: specification twins
// ----------------------------------------------------------------------
pub open spec fn spec_parse_target(v: Seq<char>, p: int) -> Option<(MessageTarget, int)> {
    match spec_eat_lit(v, p, "{\"User\":{\"uid\":"@) {
        Some(p1) => match spec_parse_i64(v, p1) {
            Some((x, p2)) => if i32::MIN <= x <= i32::MAX {
                match spec_eat_lit(v, p2, "}}"@) {
                    Some(p3) => Some(
                        (MessageTarget::User(MessageTargetUser { uid: x as i32 }), p3),
                    ),
                    None => None,
                }
            } else {
                None
            },
            None => None,
        },
        None => match spec_eat_lit(v, p, "{\"Group\":{\"gid\":"@) {
            Some(p1) => match spec_parse_i64(v, p1) {
                Some((x, p2)) => if i32::MIN <= x <= i32::MAX {
                    match spec_eat_lit(v, p2, "}}"@) {
                        Some(p3) => Some(
                            (MessageTarget::Group(MessageTargetGroup { gid: x as i32 }), p3),
                        ),
                        None => None,
                    }
                } else {
                    None
                },
                None => None,
            },
            None => None,
        },
    }
}

pub open spec fn spec_parse_detail(v: Seq<char>, p: int) -> Option<(DetailV, int)> {
    match spec_eat_lit(v, p, "{\"Normal\":{\"content\":{\"content\":\""@) {
        Some(p1) => match spec_unesc(v, p1) {
            Some((t, p2)) => match spec_eat_lit(v, p2, "}}}"@) {
                Some(p3) => Some((DetailV::Normal { content: t }, p3)),
                None => None,
            },
            None => None,
        },
        None => match spec_eat_lit(v, p, "{\"Replay\":{\"mid\":"@) {
            Some(p1) => match spec_parse_i64(v, p1) {
                Some((mid, p2)) => match spec_eat_lit(v, p2, ",\"content\":{\"content\":\""@) {
                    Some(p3) => match spec_unesc(v, p3) {
                        Some((t, p4)) => match spec_eat_lit(v, p4, "}}}"@) {
                            Some(p5) => Some(
                                (DetailV::Replay { mid: mid as int, content: t }, p5),
                            ),
                            None => None,
                        },
                        None => None,
                    },
                    None => None,
                },
                None => None,
            },
            None => None,
        },
    }
}

pub open spec fn spec_parse_payload(v: Seq<char>, p: int) -> Option<(PayloadV, int)> {
    match spec_eat_lit(v, p, "{\"from_uid\":"@) {
        Some(p1) => match spec_parse_i64(v, p1) {
            Some((x, p2)) => if i32::MIN <= x <= i32::MAX {
                match spec_eat_lit(v, p2, ",\"created_at\":\""@) {
                    Some(p3) => match spec_unesc(v, p3) {
                        Some((created, p4)) => match spec_eat_lit(v, p4, ",\"target\":"@) {
                            Some(p5) => match spec_parse_target(v, p5) {
                                Some((target, p6)) => match spec_eat_lit(v, p6, ",\"detail\":"@) {
                                    Some(p7) => match spec_parse_detail(v, p7) {
                                        Some((detail, p8)) => match spec_eat_lit(v, p8, "}"@) {
                                            Some(p9) => Some(
                                                (
                                                    PayloadV {
                                                        from_uid: x as int,
                                                        created_at: created,
                                                        target,
                                                        detail,
                                                    },
                                                    p9,
                                                ),
                                            ),
                                            None => None,
                                        },
                                        None => None,
                                    },
                                    None => None,
                                },
                                None => None,
                            },
                            None => None,
                        },
                        None => None,
                    },
                    None => None,
                }
            } else {
                None
            },
            None => None,
        },
        None => None,
    }
}

/// What parsing a whole frame body yields. The frame must be consumed to
/// its end.
pub open spec fn spec_parse_message(v: Seq<char>) -> Option<MessageV> {
    match spec_eat_lit(v, 0, "{\"ChatMessage\":{\"mid\":"@) {
        Some(p1) => match spec_parse_i64(v, p1) {
            Some((mid, p2)) => match spec_eat_lit(v, p2, ",\"payload\":"@) {
                Some(p3) => match spec_parse_payload(v, p3) {
                    Some((payload, p4)) => match spec_eat_lit(v, p4, "}}"@) {
                        Some(p5) => if p5 == v.len() {
                            Some(MessageV::Chat { mid: mid as int, payload })
                        } else {
                            None
                        },
                        None => None,
                    },
                    None => None,
                },
                None => None,
            },
            None => None,
        },
        None => match spec_eat_lit(v, 0, "{\"Heartbeat\":{\"time\":\""@) {
            Some(p1) => match spec_unesc(v, p1) {
                Some((t, p2)) => match spec_eat_lit(v, p2, "}}"@) {
                    Some(p3) => if p3 == v.len() {
                        Some(MessageV::Heartbeat { time: t })
                    } else {
                        None
                    },
                    None => None,
                },
                None => None,
            },
            None => None,
        },
    }
}

// ----------------------------------------------------------------------
// parsing: executable
// ----------------------------------------------------------------------
pub fn parse_target(v: &Vec<char>, i: usize) -> (r: Option<(MessageTarget, usize)>)
    requires
        i <= v@.len(),
    ensures
        r matches Some((t, j)) ==> i <= j <= v@.len() && spec_parse_target(v@, i as int) == Some(
            (t, j as int),
        ),
        r is None ==> spec_parse_target(v@, i as int) is None,
{
    match eat_lit(v, i, "{\"User\":{\"uid\":") {
        Some(p1) => match parse_i64(v, p1) {
            Some((x, p2)) => {
                if i32::MIN as i64 <= x && x <= i32::MAX as i64 {
                    match eat_lit(v, p2, "}}") {
                        Some(p3) => Some(
                            (MessageTarget::User(MessageTargetUser { uid: x as i32 }), p3),
                        ),
                        None => None,
                    }
                } else {
                    None
                }
            },
            None => None,
        },
        None => match eat_lit(v, i, "{\"Group\":{\"gid\":") {
            Some(p1) => match parse_i64(v, p1) {
                Some((x, p2)) => {
                    if i32::MIN as i64 <= x && x <= i32::MAX as i64 {
                        match eat_lit(v, p2, "}}") {
                            Some(p3) => Some(
                                (MessageTarget::Group(MessageTargetGroup { gid: x as i32 }), p3),
                            ),
                            None => None,
                        }
                    } else {
                        None
                    }
                },
                None => None,
            },
            None => None,
        },
    }
}

pub fn parse_detail(v: &Vec<char>, i: usize) -> (r: Option<(MessageDetail, usize)>)
    requires
        i <= v@.len(),
    ensures
        r matches Some((d, j)) ==> i <= j <= v@.len() && spec_parse_detail(v@, i as int) == Some(
            (d@, j as int),
        ),
        r is None ==> spec_parse_detail(v@, i as int) is None,
{
    match eat_lit(v, i, "{\"Normal\":{\"content\":{\"content\":\"") {
        Some(p1) => match parse_string(v, p1) {
            Some((t, p2)) => match eat_lit(v, p2, "}}}") {
                Some(p3) => Some(
                    (
                        MessageDetail::Normal(
                            MessageNormal { content: MessageContent { content: string_of(&t) } },
                        ),
                        p3,
                    ),
                ),
                None => None,
            },
            None => None,
        },
        None => match eat_lit(v, i, "{\"Replay\":{\"mid\":") {
            Some(p1) => match parse_i64(v, p1) {
                Some((mid, p2)) => match eat_lit(v, p2, ",\"content\":{\"content\":\"") {
                    Some(p3) => match parse_string(v, p3) {
                        Some((t, p4)) => match eat_lit(v, p4, "}}}") {
                            Some(p5) => Some(
                                (
                                    MessageDetail::Replay(
                                        MessageReplay {
                                            mid,
                                            content: MessageContent { content: string_of(&t) },
                                        },
                                    ),
                                    p5,
                                ),
                            ),
                            None => None,
                        },
                        None => None,
                    },
                    None => None,
                },
                None => None,
            },
            None => None,
        },
    }
}

pub fn parse_payload(v: &Vec<char>, i: usize) -> (r: Option<(ChatMessagePayload, usize)>)
    requires
        i <= v@.len(),
    ensures
        r matches Some((pl, j)) ==> i <= j <= v@.len() && spec_parse_payload(v@, i as int)
            == Some((pl@, j as int)),
        r is None ==> spec_parse_payload(v@, i as int) is None,
{
    match eat_lit(v, i, "{\"from_uid\":") {
        Some(p1) => match parse_i64(v, p1) {
            Some((x, p2)) => {
                if i32::MIN as i64 <= x && x <= i32::MAX as i64 {
                    match eat_lit(v, p2, ",\"created_at\":\"") {
                        Some(p3) => match parse_string(v, p3) {
                            Some((created, p4)) => match eat_lit(v, p4, ",\"target\":") {
                                Some(p5) => match parse_target(v, p5) {
                                    Some((target, p6)) => match eat_lit(v, p6, ",\"detail\":") {
                                        Some(p7) => match parse_detail(v, p7) {
                                            Some((detail, p8)) => match eat_lit(v, p8, "}") {
                                                Some(p9) => Some(
                                                    (
                                                        ChatMessagePayload {
                                                            from_uid: x as i32,
                                                            created_at: string_of(&created),
                                                            target,
                                                            detail,
                                                        },
                                                        p9,
                                                    ),
                                                ),
                                                None => None,
                                            },
                                            None => None,
                                        },
                                        None => None,
                                    },
                                    None => None,
                                },
                                None => None,
                            },
                            None => None,
                        },
                        None => None,
                    }
                } else {
                    None
                }
            },
            None => None,
        },
        None => None,
    }
}

/// Parses one frame body. Returns exactly what [`spec_parse_message`]
/// says: the decoded event on the canonical wire form, `None` on anything
/// else.
pub fn parse_message(v: &Vec<char>) -> (r: Option<Message>)
    ensures
        r matches Some(m) ==> spec_parse_message(v@) == Some(m@),
        r is None ==> spec_parse_message(v@) is None,
{
    match eat_lit(v, 0, "{\"ChatMessage\":{\"mid\":") {
        Some(p1) => match parse_i64(v, p1) {
            Some((mid, p2)) => match eat_lit(v, p2, ",\"payload\":") {
                Some(p3) => match parse_payload(v, p3) {
                    Some((payload, p4)) => match eat_lit(v, p4, "}}") {
                        Some(p5) => {
                            if p5 == v.len() {
                                Some(Message::ChatMessage(ChatMessage { mid, payload }))
                            } else {
                                None
                            }
                        },
                        None => None,
                    },
                    None => None,
                },
                None => None,
            },
            None => None,
        },
        None => match eat_lit(v, 0, "{\"Heartbeat\":{\"time\":\"") {
            Some(p1) => match parse_string(v, p1) {
                Some((t, p2)) => match eat_lit(v, p2, "}}") {
                    Some(p3) => {
                        if p3 == v.len() {
                            Some(Message::Heartbeat(HeartbeatMessage { time: string_of(&t) }))
                        } else {
                            None
                        }
                    },
                    None => None,
                },
                None => None,
            },
            None => None,
        },
    }
}

// ----------------------------------------------------------------------
// writing
// ----------------------------------------------------------------------
/// Appends an escaped string body with its closing quote.
pub(crate) fn push_qbody(out: &mut Vec<char>, s: &str)
    ensures
        final(out)@ == old(out)@ + spec_qbody(s@),
{
    let cs = chars_of(s);
    push_escaped(out, &cs);
    out.push('"');
    assert(out@ =~= old(out)@ + spec_qbody(s@));
}

/// The wire form of one event, as a character vector.
#[verifier::rlimit(50)]
pub fn message_json(m: &Message) -> (r: Vec<char>)
    ensures
        r@ == spec_message_json(m@),
{
    let mut out: Vec<char> = Vec::new();
    match m {
        Message::ChatMessage(c) => {
            push_lit(&mut out, "{\"ChatMessage\":{\"mid\":");
            push_i64_str(&mut out, c.mid);
            push_lit(&mut out, ",\"payload\":");
            push_lit(&mut out, "{\"from_uid\":");
            push_i64_str(&mut out, c.payload.from_uid as i64);
            push_lit(&mut out, ",\"created_at\":\"");
            push_qbody(&mut out, c.payload.created_at.as_str());
            push_lit(&mut out, ",\"target\":");
            match &c.payload.target {
                MessageTarget::User(u) => {
                    push_lit(&mut out, "{\"User\":{\"uid\":");
                    push_i64_str(&mut out, u.uid as i64);
                    push_lit(&mut out, "}}");
                },
                MessageTarget::Group(g) => {
                    push_lit(&mut out, "{\"Group\":{\"gid\":");
                    push_i64_str(&mut out, g.gid as i64);
                    push_lit(&mut out, "}}");
                },
            }
            push_lit(&mut out, ",\"detail\":");
            match &c.payload.detail {
                MessageDetail::Normal(n) => {
                    push_lit(&mut out, "{\"Normal\":{\"content\":{\"content\":\"");
                    push_qbody(&mut out, n.content.content.as_str());
                    push_lit(&mut out, "}}}");
                },
                MessageDetail::Replay(rp) => {
                    push_lit(&mut out, "{\"Replay\":{\"mid\":");
                    push_i64_str(&mut out, rp.mid);
                    push_lit(&mut out, ",\"content\":{\"content\":\"");
                    push_qbody(&mut out, rp.content.content.as_str());
                    push_lit(&mut out, "}}}");
                },
            }
            push_lit(&mut out, "}");
            push_lit(&mut out, "}}");
            assert(out@ =~= spec_message_json(m@));
        },
        Message::Heartbeat(h) => {
            push_lit(&mut out, "{\"Heartbeat\":{\"time\":\"");
            push_qbody(&mut out, h.time.as_str());
            push_lit(&mut out, "}}");
            assert(out@ =~= spec_message_json(m@));
        },
    }
    out
}

// ----------------------------------------------------------------------
// round trip
// ----------------------------------------------------------------------
/// A canonically written target, standing at `p`, parses back to itself.
pub proof fn lemma_target_round_trip(v: Seq<char>, p: int, t: MessageTarget)
    requires
        lit_at(v, p, spec_target_json(t)),
    ensures
        spec_parse_target(v, p) == Some((t, p + spec_target_json(t).len())),
{
    reveal_strlit("{\"User\":{\"uid\":");
    reveal_strlit("{\"Group\":{\"gid\":");
    reveal_strlit("}}");
    let w = spec_target_json(t);
    match t {
        MessageTarget::User(u) => {
            let l1 = "{\"User\":{\"uid\":"@;
            let num = spec_i64_str(u.uid as int);
            let l2 = "}}"@;
            lemma_lit_at_split(v, p, l1 + num, l2);
            lemma_lit_at_split(v, p, l1, num);
            let q = p + l1.len() + num.len();
            assert(v[q] == '}') by {
                assert(v.subrange(q, q + 2)[0] == l2[0]);
            }
            assert(!is_digit('}'));
            lemma_parse_i64_round_trip(v, p + l1.len(), u.uid as i64);
        },
        MessageTarget::Group(g) => {
            let l1 = "{\"Group\":{\"gid\":"@;
            let num = spec_i64_str(g.gid as int);
            let l2 = "}}"@;
            lemma_lit_at_split(v, p, l1 + num, l2);
            lemma_lit_at_split(v, p, l1, num);
            let lu = "{\"User\":{\"uid\":"@;
            assert(spec_eat_lit(v, p, lu) is None) by {
                if lit_at(v, p, lu) {
                    assert(v.subrange(p, p + lu.len())[2] == lu[2]);
                    assert(v.subrange(p, p + l1.len())[2] == l1[2]);
                }
            }
            let q = p + l1.len() + num.len();
            assert(v[q] == '}') by {
                assert(v.subrange(q, q + 2)[0] == l2[0]);
            }
            assert(!is_digit('}'));
            lemma_parse_i64_round_trip(v, p + l1.len(), g.gid as i64);
        },
    }
}

/// A canonically written detail, standing at `p`, parses back to itself.
pub proof fn lemma_detail_round_trip(v: Seq<char>, p: int, d: DetailV)
    requires
        detail_wf(d),
        lit_at(v, p, spec_detail_json(d)),
    ensures
        spec_parse_detail(v, p) == Some((d, p + spec_detail_json(d).len())),
{
    reveal_strlit("{\"Normal\":{\"content\":{\"content\":\"");
    reveal_strlit("{\"Replay\":{\"mid\":");
    reveal_strlit(",\"content\":{\"content\":\"");
    reveal_strlit("}}}");
    match d {
        DetailV::Normal { content } => {
            let l1 = "{\"Normal\":{\"content\":{\"content\":\""@;
            let qb = spec_qbody(content);
            let l2 = "}}}"@;
            lemma_lit_at_split(v, p, l1 + qb, l2);
            lemma_lit_at_split(v, p, l1, qb);
            lemma_unesc_esc(v, p + l1.len(), content);
        },
        DetailV::Replay { mid, content } => {
            let l1 = "{\"Replay\":{\"mid\":"@;
            let num = spec_i64_str(mid);
            let l2 = ",\"content\":{\"content\":\""@;
            let qb = spec_qbody(content);
            let l3 = "}}}"@;
            lemma_lit_at_split(v, p, l1 + num + l2 + qb, l3);
            lemma_lit_at_split(v, p, l1 + num + l2, qb);
            lemma_lit_at_split(v, p, l1 + num, l2);
            lemma_lit_at_split(v, p, l1, num);
            let ln = "{\"Normal\":{\"content\":{\"content\":\""@;
            assert(spec_eat_lit(v, p, ln) is None) by {
                if lit_at(v, p, ln) {
                    assert(v.subrange(p, p + ln.len())[2] == ln[2]);
                    assert(v.subrange(p, p + l1.len())[2] == l1[2]);
                }
            }
            let q = p + l1.len() + num.len();
            assert(v[q] == ',') by {
                assert(v.subrange(q, q + l2.len())[0] == l2[0]);
            }
            assert(!is_digit(','));
            lemma_parse_i64_round_trip(v, p + l1.len(), mid as i64);
            lemma_unesc_esc(v, q + l2.len(), content);
        },
    }
}

/// A canonically written payload, standing at `p`, parses back to itself.
pub proof fn lemma_payload_round_trip(v: Seq<char>, p: int, pl: PayloadV)
    requires
        payload_wf(pl),
        lit_at(v, p, spec_payload_json(pl)),
    ensures
        spec_parse_payload(v, p) == Some((pl, p + spec_payload_json(pl).len())),
{
    reveal_strlit("{\"from_uid\":");
    reveal_strlit(",\"created_at\":\"");
    reveal_strlit(",\"target\":");
    reveal_strlit(",\"detail\":");
    reveal_strlit("}");
    let l1 = "{\"from_uid\":"@;
    let num = spec_i64_str(pl.from_uid);
    let l2 = ",\"created_at\":\""@;
    let qb = spec_qbody(pl.created_at);
    let l3 = ",\"target\":"@;
    let tj = spec_target_json(pl.target);
    let l4 = ",\"detail\":"@;
    let dj = spec_detail_json(pl.detail);
    let l5 = "}"@;
    lemma_lit_at_split(v, p, l1 + num + l2 + qb + l3 + tj + l4 + dj, l5);
    lemma_lit_at_split(v, p, l1 + num + l2 + qb + l3 + tj + l4, dj);
    lemma_lit_at_split(v, p, l1 + num + l2 + qb + l3 + tj, l4);
    lemma_lit_at_split(v, p, l1 + num + l2 + qb + l3, tj);
    lemma_lit_at_split(v, p, l1 + num + l2 + qb, l3);
    lemma_lit_at_split(v, p, l1 + num + l2, qb);
    lemma_lit_at_split(v, p, l1 + num, l2);
    lemma_lit_at_split(v, p, l1, num);
    let q = p + l1.len() + num.len();
    assert(v[q] == ',') by {
        assert(v.subrange(q, q + l2.len())[0] == l2[0]);
    }
    assert(!is_digit(','));
    lemma_parse_i64_round_trip(v, p + l1.len(), pl.from_uid as i64);
    lemma_unesc_esc(v, q + l2.len(), pl.created_at);
    lemma_target_round_trip(v, q + l2.len() + qb.len() + l3.len(), pl.target);
    lemma_detail_round_trip(v, q + l2.len() + qb.len() + l3.len() + tj.len() + l4.len(), pl.detail);
}

/// Round trip: every well-formed event, written canonically, parses back
/// to exactly itself. Together with the parsers' exact contracts this pins
/// the codec down in both directions.
pub proof fn lemma_message_round_trip(m: MessageV)
    requires
        message_wf(m),
    ensures
        spec_parse_message(spec_message_json(m)) == Some(m),
{
    reveal_strlit("{\"ChatMessage\":{\"mid\":");
    reveal_strlit("{\"Heartbeat\":{\"time\":\"");
    reveal_strlit(",\"payload\":");
    reveal_strlit("}}");
    let v = spec_message_json(m);
    assert(lit_at(v, 0, v)) by {
        assert(v.subrange(0, v.len() as int) =~= v);
    }
    match m {
        MessageV::Chat { mid, payload } => {
            let l1 = "{\"ChatMessage\":{\"mid\":"@;
            let num = spec_i64_str(mid);
            let l2 = ",\"payload\":"@;
            let pj = spec_payload_json(payload);
            let l3 = "}}"@;
            lemma_lit_at_split(v, 0, l1 + num + l2 + pj, l3);
            lemma_lit_at_split(v, 0, l1 + num + l2, pj);
            lemma_lit_at_split(v, 0, l1 + num, l2);
            lemma_lit_at_split(v, 0, l1, num);
            let q: int = l1.len() + num.len() as int;
            assert(v[q] == ',') by {
                assert(v.subrange(q, q + l2.len())[0] == l2[0]);
            }
            assert(!is_digit(','));
            lemma_parse_i64_round_trip(v, l1.len() as int, mid as i64);
            lemma_payload_round_trip(v, q + l2.len(), payload);
        },
        MessageV::Heartbeat { time } => {
            let l1 = "{\"Heartbeat\":{\"time\":\""@;
            let qb = spec_qbody(time);
            let l2 = "}}"@;
            lemma_lit_at_split(v, 0, l1 + qb, l2);
            lemma_lit_at_split(v, 0, l1, qb);
            let lc = "{\"ChatMessage\":{\"mid\":"@;
            assert(spec_eat_lit(v, 0, lc) is None) by {
                if lit_at(v, 0, lc) {
                    assert(v.subrange(0, lc.len() as int)[2] == lc[2]);
                    assert(v.subrange(0, l1.len() as int)[2] == l1[2]);
                }
            }
            lemma_unesc_esc(v, l1.len() as int, time);
        },
    }
}


} // verus!

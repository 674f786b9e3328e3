//! The realtime chat multiplexer: the decisions of the event loop for one
//! open conversation. Inbound frames and local input lines come in; what
//! to render, what read index to push, when to stop, and what to send come
//! out. All I/O around these decisions stays outside the crate.

use vstd::prelude::*;
use crate::chars::{is_space, is_space_char, chars_of, string_of, slice_range};
use crate::message::{
    Message, MessageV, MessageTarget, MessageTargetUser, spec_detail_content, spec_qbody,
    push_qbody,
};
use crate::sse::{
    decode_frame, spec_decode_frame, spec_trim, lemma_back_span_unique, lemma_span_to_unique,
};
use crate::wire::{push_lit, spec_i64_str, push_i64_str, at_lit, lit_at};

verus! {

/// A chat peer: the other side of an open conversation.
#[derive(Clone, Debug)]
pub struct Friend {
    pub id: i32,
    pub name: String,
}

/// One message of the stored history with a friend.
#[derive(Clone, Debug)]
pub struct UserHistoryMsg {
    /// id of the message
    pub mid: i64,
    /// text of the message
    pub msg: String,
    /// when it was sent, as the backend wrote it
    pub time: String,
    /// id of the sender
    pub from_uid: i32,
}

/// The read position pushed to the backend: the last message id considered
/// read in one conversation.
#[derive(Clone, Copy, Debug, PartialEq, Eq, Structural)]
pub enum UpdateReadIndex {
    User { target_uid: i32, mid: i64 },
    Group { target_gid: i32, mid: i64 },
}

/// The state of one open conversation.
#[derive(Clone, Copy, Debug, PartialEq, Eq, Structural)]
pub struct ChatState {
    /// id of the peer of this conversation
    pub peer_uid: i32,
    /// the id of the last message seen here, if any
    pub last_seen_mid: Option<i64>,
}

/// One line for the terminal: who wrote it, when, and what.
#[derive(Clone, Debug)]
pub struct RenderLine {
    /// whether the sender id equals the peer id (the client labels the
    /// line with the peer's name then, and as its own otherwise)
    pub from_peer: bool,
    pub created_at: String,
    pub content: String,
}

/// What one inbound frame asks the caller to do.
pub struct FrameStep {
    pub render: Option<RenderLine>,
    pub push: Option<UpdateReadIndex>,
}

/// A chat message addressed to or coming from the peer of the open
/// conversation. Heartbeats and messages of other conversations are not.
pub open spec fn spec_relevant(m: MessageV, peer: i32) -> bool {
    match m {
        MessageV::Chat { payload, .. } => payload.from_uid == peer as int || payload.target
            == MessageTarget::User(MessageTargetUser { uid: peer }),
        MessageV::Heartbeat { .. } => false,
    }
}

/// Whether a decoded frame is a chat message of this conversation.
pub open spec fn is_relevant_chat(d: Option<MessageV>, peer: i32) -> bool {
    match d {
        Some(m) => spec_relevant(m, peer),
        None => false,
    }
}

/// Whether a decoded frame is a heartbeat.
pub open spec fn is_heartbeat(d: Option<MessageV>) -> bool {
    match d {
        Some(m) => m is Heartbeat,
        None => false,
    }
}

/// Handles one frame of the event stream.
///
/// A heartbeat or an undecodable frame changes nothing and asks for
/// nothing; a chat message of another conversation is dropped; a chat
/// message of this conversation is rendered, advances `last_seen_mid`,
/// and asks for one read-index push — and nothing else ever does.
pub fn handle_frame(state: &mut ChatState, frame: &str) -> (r: FrameStep)
    ensures
        final(state).peer_uid == old(state).peer_uid,
        r.render is Some <==> is_relevant_chat(spec_decode_frame(frame@), old(state).peer_uid),
        r.push is Some <==> is_relevant_chat(spec_decode_frame(frame@), old(state).peer_uid),
        !is_relevant_chat(spec_decode_frame(frame@), old(state).peer_uid) ==> *final(state)
            == *old(state),
        spec_decode_frame(frame@) matches Some(MessageV::Chat { mid, payload }) ==> (spec_relevant(
            MessageV::Chat { mid, payload },
            old(state).peer_uid,
        ) ==> {
            &&& final(state).last_seen_mid matches Some(sm) && sm as int == mid
            &&& r.push == Some(
                UpdateReadIndex::User {
                    target_uid: old(state).peer_uid,
                    mid: final(state).last_seen_mid->Some_0,
                },
            )
            &&& r.render matches Some(line) && line.from_peer == (payload.from_uid == old(
                state,
            ).peer_uid as int) && line.created_at@ == payload.created_at && line.content@
                == spec_detail_content(payload.detail)
        }),

{
    match decode_frame(frame) {
        None => FrameStep { render: None, push: None },
        Some(Message::Heartbeat(_)) => FrameStep { render: None, push: None },
        Some(Message::ChatMessage(c)) => {
            let from_peer = c.payload.from_uid == state.peer_uid;
            let to_peer = match &c.payload.target {
                MessageTarget::User(u) => u.uid == state.peer_uid,
                MessageTarget::Group(_) => false,
            };
            if from_peer || to_peer {
                state.last_seen_mid = Some(c.mid);
                FrameStep {
                    render: Some(
                        RenderLine {
                            from_peer,
                            created_at: c.payload.created_at,
                            content: c.payload.detail.get_content(),
                        },
                    ),
                    push: Some(UpdateReadIndex::User { target_uid: state.peer_uid, mid: c.mid }),
                }
            } else {
                FrameStep { render: None, push: None }
            }
        },
    }
}

/// The last message id of a fetched history, if there is any history.
pub fn latest_mid(history: &Vec<UserHistoryMsg>) -> (r: Option<i64>)
    ensures
        history@.len() == 0 ==> r is None,
        history@.len() > 0 ==> r == Some(history@.last().mid),
{
    if history.len() == 0 {
        None
    } else {
        Some(history[history.len() - 1].mid)
    }
}

/// Opens a conversation: the initial state records the latest stored
/// message, and exactly one read-index push is asked for — none when there
/// is no history to mark read.
pub fn open_conversation(friend: &Friend, history: &Vec<UserHistoryMsg>) -> (r: (
    ChatState,
    Option<UpdateReadIndex>,
))
    ensures
        r.0.peer_uid == friend.id,
        history@.len() == 0 ==> r.0.last_seen_mid is None && r.1 is None,
        history@.len() > 0 ==> r.0.last_seen_mid == Some(history@.last().mid) && r.1 == Some(
            UpdateReadIndex::User { target_uid: friend.id, mid: history@.last().mid },
        ),
{
    let last = latest_mid(history);
    let push = match last {
        Some(mid) => Some(UpdateReadIndex::User { target_uid: friend.id, mid }),
        None => None,
    };
    (ChatState { peer_uid: friend.id, last_seen_mid: last }, push)
}

/// One line of the stored history, attributed the way the live stream is:
/// by comparing the sender to the peer id.
pub fn history_line(m: &UserHistoryMsg, friend: &Friend) -> (r: RenderLine)
    ensures
        r.from_peer == (m.from_uid == friend.id),
        r.created_at@ == m.time@,
        r.content@ == m.msg@,
{
    RenderLine {
        from_peer: m.from_uid == friend.id,
        created_at: m.time.clone(),
        content: m.msg.clone(),
    }
}

// ----------------------------------------------------------------------
// group history
// ----------------------------------------------------------------------
/// One message of the stored history of a group.
#[derive(Clone, Debug)]
pub struct GroupHistoryMsg {
    /// id of the message
    pub mid: i64,
    /// text of the message
    pub msg: String,
    /// when it was sent, as the backend wrote it
    pub time: String,
    /// id of the sender
    pub from_uid: i32,
    /// name of the sender
    pub name_of_from_uid: String,
}

/// One line of a group's history: who wrote it, when, and what. A group
/// message is attributed against the logged-in user, not against a peer:
/// the reader's own messages are labelled as their own, anyone else's by
/// the sender's name.
#[derive(Clone, Debug)]
pub struct GroupRenderLine {
    /// whether the sender is the logged-in user
    pub from_self: bool,
    pub sender_name: String,
    pub time: String,
    pub content: String,
}

/// Attributes one stored group message against the logged-in user.
pub fn group_history_line(m: &GroupHistoryMsg, self_uid: i32) -> (r: GroupRenderLine)
    ensures
        r.from_self == (m.from_uid == self_uid),
        r.sender_name@ == m.name_of_from_uid@,
        r.time@ == m.time@,
        r.content@ == m.msg@,
{
    GroupRenderLine {
        from_self: m.from_uid == self_uid,
        sender_name: m.name_of_from_uid.clone(),
        time: m.time.clone(),
        content: m.msg.clone(),
    }
}

/// The last message id of a fetched group history, if there is any.
pub fn latest_group_mid(history: &Vec<GroupHistoryMsg>) -> (r: Option<i64>)
    ensures
        history@.len() == 0 ==> r is None,
        history@.len() > 0 ==> r == Some(history@.last().mid),
{
    if history.len() == 0 {
        None
    } else {
        Some(history[history.len() - 1].mid)
    }
}

/// Opens a group view: exactly one read-index push for the latest stored
/// message is asked for — none when there is no history to mark read.
pub fn open_group_conversation(gid: i32, history: &Vec<GroupHistoryMsg>) -> (r: Option<
    UpdateReadIndex,
>)
    ensures
        history@.len() == 0 ==> r is None,
        history@.len() > 0 ==> r == Some(
            UpdateReadIndex::Group { target_gid: gid, mid: history@.last().mid },
        ),
{
    match latest_group_mid(history) {
        Some(mid) => Some(UpdateReadIndex::Group { target_gid: gid, mid }),
        None => None,
    }
}

// ----------------------------------------------------------------------
// local input
// ----------------------------------------------------------------------
/// What a completed local input line asks the caller to do.
pub enum InputAction {
    /// close the stream and leave the conversation
    Exit,
    /// post this body to the peer's send endpoint
    Send(String),
    /// nothing: the line was blank
    Ignore,
}

/// The line with every whitespace character removed, as the client sends
/// it.
pub open spec fn spec_collapse(s: Seq<char>) -> Seq<char>
    decreases s.len(),
{
    if s.len() == 0 {
        Seq::<char>::empty()
    } else {
        spec_collapse(s.drop_last()) + (if is_space(s.last()) {
            Seq::<char>::empty()
        } else {
            seq![s.last()]
        })
    }
}

/// Removes every whitespace character from the text.
pub fn replace_whitespace(text: &str) -> (r: String)
    ensures
        r@ == spec_collapse(text@),
{
    let cs = chars_of(text);
    let mut out: Vec<char> = Vec::new();
    let mut i: usize = 0;
    proof {
        assert(cs@.subrange(0, 0) =~= Seq::<char>::empty());
    }
    while i < cs.len()
        invariant
            i <= cs@.len(),
            cs@ == text@,
            out@ == spec_collapse(cs@.subrange(0, i as int)),
        decreases cs@.len() - i,
    {
        proof {
            assert(cs@.subrange(0, i + 1).drop_last() =~= cs@.subrange(0, i as int));
            assert(cs@.subrange(0, i + 1).last() == cs@[i as int]);
        }
        if !is_space_char(cs[i]) {
            out.push(cs[i]);
        }
        i = i + 1;
    }
    proof {
        assert(cs@.subrange(0, cs@.len() as int) =~= cs@);
    }
    string_of(&out)
}

/// The sentinel exit line, after trimming.
pub open spec fn is_exit_line(s: Seq<char>) -> bool {
    spec_trim(s) == "exit"@
}

/// Decides what to do with one completed input line: the sentinel `exit`
/// (after trimming) always ends the loop; a blank line does nothing; any
/// other line is collapsed and sent.
pub fn handle_input(line: &str) -> (r: InputAction)
    ensures
        (r is Exit) <==> is_exit_line(line@),
        !is_exit_line(line@) && spec_trim(line@).len() == 0 ==> r is Ignore,
        !is_exit_line(line@) && spec_trim(line@).len() > 0 ==> (r matches InputAction::Send(s)
            && s@ == spec_collapse(line@)),
{
    let cs = chars_of(line);
    let n = cs.len();
    // trim in place: first the back, then the front
    let mut b: usize = n;
    while b > 0 && is_space_char(cs[b - 1])
        invariant
            b <= n,
            n == cs@.len(),
            forall|k: int| b <= k < n ==> is_space(cs@[k]),
        decreases b,
    {
        b = b - 1;
    }
    let mut a: usize = 0;
    while a < b && is_space_char(cs[a])
        invariant
            a <= b <= n,
            n == cs@.len(),
            forall|k: int| 0 <= k < a ==> is_space(cs@[k]),
        decreases b - a,
    {
        a = a + 1;
    }
    proof {
        lemma_back_span_unique(cs@, 0, cs@.len() as int, b as int);
        lemma_span_to_unique(cs@, 0, b as int, a as int);
        assert(spec_trim(cs@) =~= cs@.subrange(a as int, b as int));
    }
    let trimmed = slice_range(&cs, a, b);
    let is_exit = trimmed.len() == 4 && at_lit(&trimmed, 0, "exit");
    proof {
        assert(cs@ == line@);
        assert(trimmed@ == spec_trim(line@));
        reveal_strlit("exit");
        if trimmed@.len() == 4 && lit_at(trimmed@, 0, "exit"@) {
            assert(trimmed@.subrange(0, 4) =~= trimmed@);
            assert(trimmed@ == "exit"@);
        }
        if trimmed@ == "exit"@ {
            assert(trimmed@.len() == 4);
            assert(trimmed@.subrange(0, 4) =~= trimmed@);
            assert(lit_at(trimmed@, 0, "exit"@));
        }
        assert(is_exit == (spec_trim(line@) == "exit"@));
    }
    if is_exit {
        InputAction::Exit
    } else if trimmed.len() == 0 {
        InputAction::Ignore
    } else {
        InputAction::Send(replace_whitespace(line))
    }
}

// ----------------------------------------------------------------------
// outbound bodies
// ----------------------------------------------------------------------
/// The body of a send request, as the backend accepts it.
pub open spec fn spec_send_body(msg: Seq<char>) -> Seq<char> {
    "{\"msg\":\""@ + spec_qbody(msg) + "}"@
}

/// Writes the body of a send request for an already collapsed message.
pub fn send_body(msg: &str) -> (r: String)
    ensures
        r@ == spec_send_body(msg@),
{
    let mut out: Vec<char> = Vec::new();
    push_lit(&mut out, "{\"msg\":\"");
    push_qbody(&mut out, msg);
    push_lit(&mut out, "}");
    proof {
        assert(out@ =~= spec_send_body(msg@));
    }
    string_of(&out)
}

/// The body of a read-index push, as the backend accepts it.
pub open spec fn spec_read_index_json(ri: UpdateReadIndex) -> Seq<char> {
    match ri {
        UpdateReadIndex::User { target_uid, mid } => "{\"User\":{\"target_uid\":"@ + spec_i64_str(
            target_uid as int,
        ) + ",\"mid\":"@ + spec_i64_str(mid as int) + "}}"@,
        UpdateReadIndex::Group { target_gid, mid } => "{\"Group\":{\"target_gid\":"@
            + spec_i64_str(target_gid as int) + ",\"mid\":"@ + spec_i64_str(mid as int) + "}}"@,
    }
}

/// Writes the body of a read-index push.
pub fn read_index_json(ri: &UpdateReadIndex) -> (r: String)
    ensures
        r@ == spec_read_index_json(*ri),
{
    let mut out: Vec<char> = Vec::new();
    match ri {
        UpdateReadIndex::User { target_uid, mid } => {
            push_lit(&mut out, "{\"User\":{\"target_uid\":");
            push_i64_str(&mut out, *target_uid as i64);
            push_lit(&mut out, ",\"mid\":");
            push_i64_str(&mut out, *mid);
            push_lit(&mut out, "}}");
        },
        UpdateReadIndex::Group { target_gid, mid } => {
            push_lit(&mut out, "{\"Group\":{\"target_gid\":");
            push_i64_str(&mut out, *target_gid as i64);
            push_lit(&mut out, ",\"mid\":");
            push_i64_str(&mut out, *mid);
            push_lit(&mut out, "}}");
        },
    }
    proof {
        assert(out@ =~= spec_read_index_json(*ri));
    }
    string_of(&out)
}

// ----------------------------------------------------------------------
// the stream as a whole
// ----------------------------------------------------------------------
/// An abstract run of the inbound side of the loop: the read position and
/// how many renders and read-index pushes have happened.
pub struct RunV {
    pub last_seen: Option<i64>,
    pub renders: nat,
    pub pushes: nat,
}

/// What one frame does to a run, mirroring [`handle_frame`].
pub open spec fn spec_step_run(peer: i32, s: RunV, frame: Seq<char>) -> RunV {
    let d = spec_decode_frame(frame);
    if is_relevant_chat(d, peer) {
        RunV {
            last_seen: match d {
                Some(MessageV::Chat { mid, .. }) => Some(mid as i64),
                _ => s.last_seen,
            },
            renders: s.renders + 1,
            pushes: s.pushes + 1,
        }
    } else {
        s
    }
}

/// A whole sequence of frames folded over the run.
pub open spec fn spec_run(peer: i32, s: RunV, frames: Seq<Seq<char>>) -> RunV
    decreases frames.len(),
{
    if frames.len() == 0 {
        s
    } else {
        spec_step_run(peer, spec_run(peer, s, frames.drop_last()), frames.last())
    }
}

/// How many frames of the stream decode to chat messages of this
/// conversation.
pub open spec fn spec_chat_count(peer: i32, frames: Seq<Seq<char>>) -> nat
    decreases frames.len(),
{
    if frames.len() == 0 {
        0
    } else {
        spec_chat_count(peer, frames.drop_last()) + (if is_relevant_chat(
            spec_decode_frame(frames.last()),
            peer,
        ) {
            1nat
        } else {
            0nat
        })
    }
}

/// Over any stream, renders and read-index pushes both happen exactly once
/// per chat message of the open conversation — heartbeats and frames of
/// other conversations add none of either.
pub proof fn lemma_renders_and_pushes_count(peer: i32, s0: RunV, frames: Seq<Seq<char>>)
    ensures
        spec_run(peer, s0, frames).renders == s0.renders + spec_chat_count(peer, frames),
        spec_run(peer, s0, frames).pushes == s0.pushes + spec_chat_count(peer, frames),
    decreases frames.len(),
{
    if frames.len() > 0 {
        lemma_renders_and_pushes_count(peer, s0, frames.drop_last());
    }
}

/// A stream of heartbeats alone leaves the whole run where it was: no
/// render, no read-index push, and `last_seen_mid` untouched.
pub proof fn lemma_heartbeats_are_silent(peer: i32, s0: RunV, frames: Seq<Seq<char>>)
    requires
        forall|k: int| 0 <= k < frames.len() ==> is_heartbeat(
            #[trigger] spec_decode_frame(frames[k]),
        ),
    ensures
        spec_run(peer, s0, frames) == s0,
    decreases frames.len(),
{
    if frames.len() > 0 {
        assert forall|k: int| 0 <= k < frames.len() - 1 implies is_heartbeat(
            #[trigger] spec_decode_frame(frames.drop_last()[k]),
        ) by {
            assert(frames.drop_last()[k] == frames[k]);
        }
        lemma_heartbeats_are_silent(peer, s0, frames.drop_last());
        assert(is_heartbeat(spec_decode_frame(frames.last())));
    }
}

} // verus!

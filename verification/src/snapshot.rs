//! The recent-conversation list: a snapshot replaced wholesale by the
//! background poller and read by the UI, with a cursor for the selected
//! entry.
//!
//! The poller publishes a full list or nothing: a failed poll leaves the
//! previous snapshot in place (stale but available), so a reader never
//! sees a half-written or blanked list.

use vstd::prelude::*;

verus! {

/// One entry of the recent-conversation list.
#[derive(Clone, Debug)]
pub enum ConversationSummary {
    User {
        /// id of the friend
        uid: i32,
        /// name of the friend
        user_name: String,
        /// id of the last message
        mid: i64,
        /// text of the last message
        msg: String,
        /// when it was sent, as the backend wrote it
        msg_time: String,
        /// unread count, when the backend reports one
        unread: Option<String>,
    },
    Group {
        /// id of the group
        gid: i32,
        /// name of the group
        group_name: String,
        /// id of the last sender
        uid: i32,
        /// name of the last sender
        user_name: String,
        /// id of the last message
        mid: i64,
        /// text of the last message
        msg: String,
        /// when it was sent, as the backend wrote it
        msg_time: String,
        /// unread count, when the backend reports one
        unread: Option<String>,
    },
}

/// The shared snapshot: the latest published list and the cursor.
pub struct ConversationSnapshot {
    pub items: Vec<ConversationSummary>,
    pub selected: Option<usize>,
}

/// One observed outcome of a poll cycle.
pub enum PollOutcome {
    Fetched { list: Vec<ConversationSummary> },
    Failed,
}

/// What one poll outcome does to the published list.
pub open spec fn spec_apply_poll(items: Seq<ConversationSummary>, o: PollOutcome) -> Seq<
    ConversationSummary,
> {
    match o {
        PollOutcome::Fetched { list } => list@,
        PollOutcome::Failed => items,
    }
}

/// The published list after a whole sequence of poll outcomes.
pub open spec fn spec_apply_polls(
    items: Seq<ConversationSummary>,
    os: Seq<PollOutcome>,
) -> Seq<ConversationSummary>
    decreases os.len(),
{
    if os.len() == 0 {
        items
    } else {
        spec_apply_poll(spec_apply_polls(items, os.drop_last()), os.last())
    }
}

/// The most recently fetched list in a sequence of outcomes.
pub open spec fn spec_last_fetched(os: Seq<PollOutcome>) -> Option<Seq<ConversationSummary>>
    decreases os.len(),
{
    if os.len() == 0 {
        None
    } else {
        match os.last() {
            PollOutcome::Fetched { list } => Some(list@),
            PollOutcome::Failed => spec_last_fetched(os.drop_last()),
        }
    }
}

impl ConversationSnapshot {
    /// The empty snapshot shown before the first successful poll.
    pub fn new() -> (r: Self)
        ensures
            r.items@ =~= Seq::<ConversationSummary>::empty(),
            r.selected is None,
    {
        ConversationSnapshot { items: Vec::new(), selected: None }
    }

    /// Applies one poll outcome: a fetched list replaces the items
    /// wholesale; a failure keeps the previous list, so a transient error
    /// never blanks the screen. The cursor is left where it was.
    pub fn apply_poll(&mut self, outcome: PollOutcome)
        ensures
            final(self).items@ == spec_apply_poll(old(self).items@, outcome),
            final(self).selected == old(self).selected,
            outcome matches PollOutcome::Fetched { list } ==> final(self).items@ == list@,
            outcome is Failed ==> final(self).items@ == old(self).items@,
    {
        match outcome {
            PollOutcome::Fetched { list } => {
                self.items = list;
            },
            PollOutcome::Failed => {},
        }
    }

    /// Moves the cursor to the next entry, clamped to the end of the list;
    /// on an empty list the cursor stays away.
    pub fn select_next(&mut self)
        ensures
            final(self).items@ == old(self).items@,
            old(self).items@.len() == 0 ==> final(self).selected is None,
            old(self).items@.len() > 0 ==> final(self).selected == Some(
                match old(self).selected {
                    Some(i) => if i + 1 < old(self).items@.len() {
                        (i + 1) as usize
                    } else {
                        (old(self).items@.len() - 1) as usize
                    },
                    None => 0usize,
                },
            ),
    {
        if self.items.len() == 0 {
            self.selected = None;
        } else {
            self.selected = Some(
                match self.selected {
                    Some(i) => if i < self.items.len() - 1 {
                        i + 1
                    } else {
                        self.items.len() - 1
                    },
                    None => 0,
                },
            );
        }
    }

    /// Moves the cursor to the previous entry, stopping at the first;
    /// with no entry selected it lands on the last one.
    pub fn select_previous(&mut self)
        ensures
            final(self).items@ == old(self).items@,
            old(self).items@.len() == 0 ==> final(self).selected is None,
            old(self).items@.len() > 0 ==> final(self).selected == Some(
                match old(self).selected {
                    Some(i) => if i > 0 {
                        (i - 1) as usize
                    } else {
                        0usize
                    },
                    None => (old(self).items@.len() - 1) as usize,
                },
            ),
    {
        if self.items.len() == 0 {
            self.selected = None;
        } else {
            self.selected = Some(
                match self.selected {
                    Some(i) => if i > 0 {
                        i - 1
                    } else {
                        0
                    },
                    None => self.items.len() - 1,
                },
            );
        }
    }

    /// Moves the cursor to the first entry.
    pub fn select_first(&mut self)
        ensures
            final(self).items@ == old(self).items@,
            old(self).items@.len() == 0 ==> final(self).selected is None,
            old(self).items@.len() > 0 ==> final(self).selected == Some(0usize),
    {
        if self.items.len() == 0 {
            self.selected = None;
        } else {
            self.selected = Some(0);
        }
    }

    /// Moves the cursor to the last entry.
    pub fn select_last(&mut self)
        ensures
            final(self).items@ == old(self).items@,
            old(self).items@.len() == 0 ==> final(self).selected is None,
            old(self).items@.len() > 0 ==> final(self).selected == Some(
                (old(self).items@.len() - 1) as usize,
            ),
    {
        if self.items.len() == 0 {
            self.selected = None;
        } else {
            self.selected = Some(self.items.len() - 1);
        }
    }

    /// The entry under the cursor, when the cursor points into the list.
    pub fn selected_summary(&self) -> (r: Option<&ConversationSummary>)
        ensures
            match self.selected {
                Some(i) => if i < self.items@.len() {
                    r == Some(&self.items[i as int])
                } else {
                    r is None
                },
                None => r is None,
            },
    {
        match self.selected {
            Some(i) => {
                if i < self.items.len() {
                    Some(&self.items[i])
                } else {
                    None
                }
            },
            None => None,
        }
    }
}

/// Stale-but-available: after any sequence of poll successes and failures
/// the published list is exactly the most recently fetched one — a failed
/// cycle never blanks or tears it — and it is the initial list only while
/// nothing was ever fetched.
pub proof fn lemma_snapshot_is_last_fetched(
    items0: Seq<ConversationSummary>,
    os: Seq<PollOutcome>,
)
    ensures
        spec_last_fetched(os) matches Some(l) ==> spec_apply_polls(items0, os) == l,
        spec_last_fetched(os) is None ==> spec_apply_polls(items0, os) == items0,
    decreases os.len(),
{
    if os.len() > 0 {
        lemma_snapshot_is_last_fetched(items0, os.drop_last());
    }
}

} // verus!

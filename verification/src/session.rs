//! The session store: the authenticated identity (claims plus bearer token)
//! for the current process, and the renewal state machine that keeps it
//! fresh.
//!
//! The store is owned by one place and handed to the background tasks; all
//! concurrent access goes through a lock held by the caller. The invariant
//! is that claims and token are either both present or both absent — no
//! task ever observes a half-updated session.

use vstd::prelude::*;

verus! {

/// The role claim carried by the bearer token.
#[derive(Clone, Copy, Debug, PartialEq, Eq, Structural)]
pub enum Role {
    User,
    Admin,
}

/// The claim set decoded from a bearer token.
#[derive(Debug)]
pub struct User {
    pub id: i32,
    pub name: String,
    pub email: Option<String>,
    pub phone: Option<String>,
    pub dgraph_uid: String,
    pub role: Role,
    /// Expiry instant as a unix timestamp; validated with zero leeway.
    pub exp: i64,
}

impl Default for User {
    fn default() -> (r: Self)
        ensures
            r.id == 0 && r.name@ == Seq::<char>::empty(),
            r.email is None && r.phone is None,
            r.dgraph_uid@ == Seq::<char>::empty(),
            r.role == Role::User && r.exp == 0,
    {
        Self {
            id: 0,
            name: String::new(),
            email: None,
            phone: None,
            dgraph_uid: String::new(),
            role: Role::User,
            exp: 0,
        }
    }
}

impl Clone for User {
    fn clone(&self) -> (r: Self)
        ensures
            r == *self,
    {
        User {
            id: self.id,
            name: self.name.clone(),
            email: match &self.email {
                Some(s) => Some(s.clone()),
                None => None,
            },
            phone: match &self.phone {
                Some(s) => Some(s.clone()),
                None => None,
            },
            dgraph_uid: self.dgraph_uid.clone(),
            role: self.role,
            exp: self.exp,
        }
    }
}

/// The mathematical reading of a claim set.
pub struct UserV {
    pub id: int,
    pub name: Seq<char>,
    pub email: Option<Seq<char>>,
    pub phone: Option<Seq<char>>,
    pub dgraph_uid: Seq<char>,
    pub role: Role,
    pub exp: int,
}

impl View for User {
    type V = UserV;

    open spec fn view(&self) -> UserV {
        UserV {
            id: self.id as int,
            name: self.name@,
            email: match &self.email {
                Some(s) => Some(s@),
                None => None,
            },
            phone: match &self.phone {
                Some(s) => Some(s@),
                None => None,
            },
            dgraph_uid: self.dgraph_uid@,
            role: self.role,
            exp: self.exp as int,
        }
    }
}

/// The session store: claims and bearer token, both present or both absent.
pub struct Session {
    pub user: Option<User>,
    pub token: Option<String>,
}

/// One observed outcome of a renewal (or login) attempt, as the store saw
/// it: either a token was successfully issued and decoded together with its
/// claims, or the attempt failed and the store was left alone.
pub enum RenewOutcome {
    Issued { user: User, token: String },
    Failed,
}

impl Session {
    /// Both fields present, or both absent: never a half-populated session.
    pub open spec fn inv(self) -> bool {
        self.user is Some <==> self.token is Some
    }

    /// The logged-out session.
    pub fn empty() -> (r: Self)
        ensures
            r.user is None,
            r.token is None,
            r.inv(),
    {
        Session { user: None, token: None }
    }

    /// Replaces claims and token together; called by login and by a
    /// successful renewal. The store never holds a mixed pair.
    pub fn set(&mut self, user: User, token: String)
        ensures
            final(self).user == Some(user),
            final(self).token == Some(token),
            final(self).inv(),
    {
        self.user = Some(user);
        self.token = Some(token);
    }

    /// Logs out: clears both fields atomically. This is the sole
    /// cancellation signal for the background tasks.
    pub fn clear(&mut self)
        ensures
            final(self).user is None,
            final(self).token is None,
            final(self).inv(),
    {
        self.user = None;
        self.token = None;
    }

    /// The pair currently held, or `None` if either half is absent.
    pub fn snapshot(&self) -> (r: Option<(&User, &String)>)
        ensures
            r is Some <==> (self.user is Some && self.token is Some),
            r matches Some((u, t)) ==> self.user == Some(*u)
                && self.token == Some(*t),
    {
        match (&self.user, &self.token) {
            (Some(u), Some(t)) => Some((u, t)),
            _ => None,
        }
    }

    /// Whether a background task observing this store must terminate.
    pub fn is_cleared(&self) -> (r: bool)
        ensures
            r <==> self.token is None,
    {
        self.token.is_none()
    }

    /// Applies one renewal outcome: an issued token replaces the pair
    /// wholesale, a failure leaves the previous token in use.
    pub fn apply_renewal(&mut self, outcome: RenewOutcome)
        ensures
            *final(self) == spec_apply_renewal(*old(self), outcome),
            final(self).inv() == match outcome {
                RenewOutcome::Issued { .. } => true,
                RenewOutcome::Failed => old(self).inv(),
            },
    {
        match outcome {
            RenewOutcome::Issued { user, token } => {
                self.user = Some(user);
                self.token = Some(token);
            }
            RenewOutcome::Failed => {}
        }
    }
}

/// What one renewal outcome does to the store.
pub open spec fn spec_apply_renewal(s: Session, outcome: RenewOutcome) -> Session {
    match outcome {
        RenewOutcome::Issued { user, token } => Session {
            user: Some(user),
            token: Some(token),
        },
        RenewOutcome::Failed => s,
    }
}

/// The store after a whole sequence of renewal outcomes.
pub open spec fn spec_apply_renewals(s0: Session, outcomes: Seq<RenewOutcome>) -> Session
    decreases outcomes.len(),
{
    if outcomes.len() == 0 {
        s0
    } else {
        spec_apply_renewal(spec_apply_renewals(s0, outcomes.drop_last()), outcomes.last())
    }
}

/// The most recent successfully issued pair in a sequence of outcomes.
pub open spec fn spec_last_issued(outcomes: Seq<RenewOutcome>) -> Option<(User, String)>
    decreases outcomes.len(),
{
    if outcomes.len() == 0 {
        None
    } else {
        match outcomes.last() {
            RenewOutcome::Issued { user, token } => Some((user, token)),
            RenewOutcome::Failed => spec_last_issued(outcomes.drop_last()),
        }
    }
}

/// For every sequence of renewal successes and failures, the store holds
/// exactly the most recently issued claims/token pair — never a failed
/// candidate — and falls back to its initial state when nothing was ever
/// issued. Claims and token always move together.
pub proof fn lemma_store_holds_last_issued(s0: Session, outcomes: Seq<RenewOutcome>)
    ensures
        spec_last_issued(outcomes) matches Some((u, t)) ==> spec_apply_renewals(s0, outcomes)
            == (Session { user: Some(u), token: Some(t) }),
        spec_last_issued(outcomes) is None ==> spec_apply_renewals(s0, outcomes) == s0,
    decreases outcomes.len(),
{
    if outcomes.len() > 0 {
        lemma_store_holds_last_issued(s0, outcomes.drop_last());
    }
}

} // verus!

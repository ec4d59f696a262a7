//! Sessions: at most one private exchange per actor, and at most one
//! outstanding wait per session.
//!
//! Starting a session takes two calls around the transport: `claim` decides
//! whether a channel may be created at all, and `open` records what the
//! transport gave back. A refused claim means no channel is created.

use vstd::prelude::*;

verus! {

broadcast use vstd::std_specs::hash::group_hash_axioms;

/// The private channel and the anchor message created for a session.
#[derive(Clone, Copy, Debug, PartialEq, Eq, Structural)]
pub struct PrivateChannel {
    pub channel: u64,
    pub anchor: u64,
}

/// One actor's session: its channel once created, and whether a wait is
/// outstanding.
#[derive(Clone, Copy, Debug, PartialEq, Eq, Structural)]
pub struct SessionRecord {
    pub actor: u64,
    pub channel: Option<PrivateChannel>,
    pub waiting: bool,
}

#[derive(Clone, Copy, Debug, PartialEq, Eq, Structural)]
pub enum SessionError {
    /// The actor already has a session, or the session already has a wait.
    AlreadyActive,
    /// The transport refused to create the private channel.
    CannotInitiate,
    /// The actor has no open session.
    NotActive,
}

impl SessionError {
    /// The notice shown for this error.
    pub fn message(&self) -> (r: &'static str)
        ensures
            r@ == match *self {
                SessionError::AlreadyActive => "You already have an open conversation with me"@,
                SessionError::CannotInitiate => "I could not send you a direct message. Please check your privacy settings"@,
                SessionError::NotActive => "There is no open conversation"@,
            },
    {
        match self {
            SessionError::AlreadyActive => "You already have an open conversation with me",
            SessionError::CannotInitiate => "I could not send you a direct message. Please check your privacy settings",
            SessionError::NotActive => "There is no open conversation",
        }
    }
}

/// A claimed session whose channel is not yet created.
pub open spec fn pending(actor: u64) -> SessionRecord {
    SessionRecord { actor, channel: None, waiting: false }
}

/// What `claim` does to the sessions `m`.
pub open spec fn claim_spec(m: Map<u64, SessionRecord>, actor: u64) -> (Result<(), SessionError>, Map<u64, SessionRecord>) {
    if m.contains_key(actor) {
        (Err(SessionError::AlreadyActive), m)
    } else {
        (Ok(()), m.insert(actor, pending(actor)))
    }
}

/// What `open` does to the sessions `m`, given what the transport returned.
pub open spec fn open_spec(m: Map<u64, SessionRecord>, actor: u64, created: Option<PrivateChannel>) -> (Result<(), SessionError>, Map<u64, SessionRecord>) {
    if !m.contains_key(actor) || m[actor].channel is Some {
        (Err(SessionError::NotActive), m)
    } else {
        match created {
            None => (Err(SessionError::CannotInitiate), m.remove(actor)),
            Some(c) => (Ok(()), m.insert(actor, SessionRecord { actor, channel: Some(c), waiting: false })),
        }
    }
}

/// What `begin_wait` does to the sessions `m`.
pub open spec fn begin_wait_spec(m: Map<u64, SessionRecord>, actor: u64) -> (Result<(), SessionError>, Map<u64, SessionRecord>) {
    if !m.contains_key(actor) || m[actor].channel is None {
        (Err(SessionError::NotActive), m)
    } else if m[actor].waiting {
        (Err(SessionError::AlreadyActive), m)
    } else {
        (Ok(()), m.insert(actor, SessionRecord { waiting: true, ..m[actor] }))
    }
}

/// The live sessions, by actor.
pub struct Sessions {
    pub active: std::collections::HashMap<u64, SessionRecord>,
}

impl Sessions {
    pub fn new() -> (r: Sessions)
        ensures
            r.active@ == Map::<u64, SessionRecord>::empty(),
    {
        Sessions { active: std::collections::HashMap::new() }
    }

    /// The actor's session, if it has one.
    pub fn get(&self, actor: u64) -> (r: Option<SessionRecord>)
        ensures
            match r {
                Some(s) => self.active@.contains_key(actor) && s == self.active@[actor],
                None => !self.active@.contains_key(actor),
            },
    {
        match self.active.get(&actor) {
            Some(s) => Some(*s),
            None => None,
        }
    }

    /// Reserves a session for the actor before any channel is created.
    /// An actor that already has one is refused, and nothing changes.
    pub fn claim(&mut self, actor: u64) -> (r: Result<(), SessionError>)
        ensures
            (r, final(self).active@) == claim_spec(old(self).active@, actor),
    {
        if self.active.contains_key(&actor) {
            return Err(SessionError::AlreadyActive);
        }
        self.active.insert(actor, SessionRecord { actor, channel: None, waiting: false });
        Ok(())
    }

    /// Records the outcome of creating the claimed session's channel. A
    /// refusal by the transport drops the claim.
    pub fn open(&mut self, actor: u64, created: Option<PrivateChannel>) -> (r: Result<(), SessionError>)
        ensures
            (r, final(self).active@) == open_spec(old(self).active@, actor, created),
    {
        let claimed = match self.active.get(&actor) {
            Some(s) => s.channel.is_none(),
            None => false,
        };
        if !claimed {
            return Err(SessionError::NotActive);
        }
        match created {
            None => {
                self.active.remove(&actor);
                Err(SessionError::CannotInitiate)
            }
            Some(c) => {
                self.active.insert(actor, SessionRecord { actor, channel: Some(c), waiting: false });
                Ok(())
            }
        }
    }

    /// Marks a wait as outstanding on the actor's open session. A second wait
    /// while one is pending is refused, not queued.
    pub fn begin_wait(&mut self, actor: u64) -> (r: Result<(), SessionError>)
        ensures
            (r, final(self).active@) == begin_wait_spec(old(self).active@, actor),
    {
        let cur = match self.active.get(&actor) {
            Some(s) => *s,
            None => {
                return Err(SessionError::NotActive);
            }
        };
        if cur.channel.is_none() {
            return Err(SessionError::NotActive);
        }
        if cur.waiting {
            return Err(SessionError::AlreadyActive);
        }
        self.active.insert(actor, SessionRecord { waiting: true, ..cur });
        Ok(())
    }

    /// Marks the actor's outstanding wait as finished.
    pub fn end_wait(&mut self, actor: u64)
        ensures
            final(self).active@ == if old(self).active@.contains_key(actor) {
                old(self).active@.insert(actor, SessionRecord { waiting: false, ..old(self).active@[actor] })
            } else {
                old(self).active@
            },
    {
        let cur = match self.active.get(&actor) {
            Some(s) => *s,
            None => {
                return;
            }
        };
        self.active.insert(actor, SessionRecord { waiting: false, ..cur });
    }

    /// Releases the actor's session. Disposing of a session that is gone
    /// changes nothing.
    pub fn dispose(&mut self, actor: u64)
        ensures
            final(self).active@ == old(self).active@.remove(actor),
    {
        self.active.remove(&actor);
    }
}

/// Once an actor has claimed a session, whether or not its channel has been
/// created since, a second claim for the same actor is refused and changes
/// nothing.
pub proof fn lemma_second_claim_refused(m: Map<u64, SessionRecord>, actor: u64, created: Option<PrivateChannel>)
    requires
        claim_spec(m, actor).0 is Ok,
    ensures
        ({
            let m1 = claim_spec(m, actor).1;
            &&& claim_spec(m1, actor) == (Err::<(), SessionError>(SessionError::AlreadyActive), m1)
            &&& open_spec(m1, actor, created).0 is Ok ==> {
                let m2 = open_spec(m1, actor, created).1;
                claim_spec(m2, actor) == (Err::<(), SessionError>(SessionError::AlreadyActive), m2)
            }
        }),
{
}

/// Disposing twice is disposing once.
pub proof fn lemma_dispose_idempotent(m: Map<u64, SessionRecord>, actor: u64)
    ensures
        m.remove(actor).remove(actor) == m.remove(actor),
{
    assert(m.remove(actor).remove(actor) =~= m.remove(actor));
}

} // verus!

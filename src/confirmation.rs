//! The yes/no confirmation protocol: an affirm and a deny marker are attached
//! to a message, and the first timely Add of one of them by the right actor
//! decides.

use vstd::prelude::*;
use crate::marker::{EventKind, Marker, ReactionEvent};

verus! {

#[derive(Clone, Copy, Debug, PartialEq, Eq, Structural)]
pub enum ConfirmationOutcome {
    Confirmed,
    Declined,
    TimedOut,
}

/// A decided answer to a yes/no question.
#[derive(Clone, Copy, Debug, PartialEq, Eq, Structural)]
pub enum YesOrNo {
    Yes,
    No,
}

impl ConfirmationOutcome {
    /// The answer, or `None` for a wait that timed out.
    pub fn yes_or_no(&self) -> (r: Option<YesOrNo>)
        ensures
            r == match *self {
                ConfirmationOutcome::Confirmed => Some(YesOrNo::Yes),
                ConfirmationOutcome::Declined => Some(YesOrNo::No),
                ConfirmationOutcome::TimedOut => None::<YesOrNo>,
            },
    {
        match self {
            ConfirmationOutcome::Confirmed => Some(YesOrNo::Yes),
            ConfirmationOutcome::Declined => Some(YesOrNo::No),
            ConfirmationOutcome::TimedOut => None,
        }
    }
}

/// One pending confirmation: its two markers, the actor whose answer counts
/// (`None`: anyone), and the wait, which began at `started_at` and lasts
/// `timeout_secs`.
#[derive(Clone, Copy, Debug, PartialEq, Eq, Structural)]
pub struct Confirmation {
    pub affirm: Marker,
    pub deny: Marker,
    pub required_actor: Option<u64>,
    pub timeout_secs: u64,
    pub started_at: u64,
}

/// The event answers the confirmation: an Add of the affirm or deny marker by
/// the required actor, if one is set.
pub open spec fn answers(c: Confirmation, ev: ReactionEvent) -> bool {
    &&& ev.kind == EventKind::Add
    &&& (ev.marker == c.affirm || ev.marker == c.deny)
    &&& (c.required_actor matches Some(a) ==> ev.actor == a)
}

/// What an answering event decides.
pub open spec fn verdict(c: Confirmation, ev: ReactionEvent) -> ConfirmationOutcome {
    if ev.timestamp > c.started_at + c.timeout_secs {
        ConfirmationOutcome::TimedOut
    } else if ev.marker == c.affirm {
        ConfirmationOutcome::Confirmed
    } else {
        ConfirmationOutcome::Declined
    }
}

/// The outcome over the delivered events: the first answering event decides,
/// and with none the wait times out.
pub open spec fn confirm_spec(c: Confirmation, events: Seq<ReactionEvent>) -> ConfirmationOutcome
    decreases events.len(),
{
    if events.len() == 0 {
        ConfirmationOutcome::TimedOut
    } else if answers(c, events[0]) {
        verdict(c, events[0])
    } else {
        confirm_spec(c, events.drop_first())
    }
}

impl Confirmation {
    /// A confirmation on the given markers that starts waiting at `now`.
    pub fn new(affirm: Marker, deny: Marker, required_actor: Option<u64>, timeout_secs: u64, now: u64) -> (r: Self)
        ensures
            r == (Confirmation { affirm, deny, required_actor, timeout_secs, started_at: now }),
    {
        Confirmation { affirm, deny, required_actor, timeout_secs, started_at: now }
    }

    /// The markers to attach, affirm first.
    pub fn markers(&self) -> (r: Vec<Marker>)
        ensures
            r@ == seq![self.affirm, self.deny],
    {
        let mut r: Vec<Marker> = Vec::new();
        r.push(self.affirm);
        r.push(self.deny);
        r
    }

    /// The decision one event makes, or `None` when it does not answer and
    /// the wait goes on.
    pub fn decide(&self, ev: &ReactionEvent) -> (r: Option<ConfirmationOutcome>)
        ensures
            r == if answers(*self, *ev) {
                Some(verdict(*self, *ev))
            } else {
                None::<ConfirmationOutcome>
            },
    {
        let kind_ok = match ev.kind {
            EventKind::Add => true,
            EventKind::Remove => false,
        };
        let actor_ok = match self.required_actor {
            Some(a) => ev.actor == a,
            None => true,
        };
        if !kind_ok || !actor_ok || !(ev.marker == self.affirm || ev.marker == self.deny) {
            return None;
        }
        if ev.timestamp > self.started_at && ev.timestamp - self.started_at > self.timeout_secs {
            Some(ConfirmationOutcome::TimedOut)
        } else if ev.marker == self.affirm {
            Some(ConfirmationOutcome::Confirmed)
        } else {
            Some(ConfirmationOutcome::Declined)
        }
    }
}

/// Runs a confirmation over the events delivered, in order.
pub fn run_confirmation(c: &Confirmation, events: &Vec<ReactionEvent>) -> (r: ConfirmationOutcome)
    ensures
        r == confirm_spec(*c, events@),
{
    let n = events.len();
    let mut k: usize = 0;
    assert(events@.subrange(0, n as int) =~= events@);
    while k < n
        invariant
            n == events@.len(),
            k <= n,
            confirm_spec(*c, events@.subrange(k as int, n as int)) == confirm_spec(*c, events@),
        decreases n - k,
    {
        let ghost rest = events@.subrange(k as int, n as int);
        assert(rest[0] == events@[k as int]);
        assert(rest.drop_first() =~= events@.subrange(k + 1, n as int));
        match c.decide(&events[k]) {
            Some(o) => {
                return o;
            }
            None => {}
        }
        k = k + 1;
    }
    ConfirmationOutcome::TimedOut
}

} // verus!

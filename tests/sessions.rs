use raid_helper::confirmation::{run_confirmation, Confirmation, ConfirmationOutcome};
use raid_helper::marker::{affirm_marker, deny_marker, EventKind, Marker, ReactionEvent};
use raid_helper::session::{PrivateChannel, SessionError, Sessions};

#[test]
fn second_session_is_refused() {
    let mut s = Sessions::new();
    assert_eq!(s.claim(5), Ok(()));
    assert_eq!(s.claim(5), Err(SessionError::AlreadyActive));
    assert_eq!(s.open(5, Some(PrivateChannel { channel: 10, anchor: 11 })), Ok(()));
    assert_eq!(s.claim(5), Err(SessionError::AlreadyActive));
    assert_eq!(s.get(5).unwrap().channel, Some(PrivateChannel { channel: 10, anchor: 11 }));
    assert_eq!(s.claim(6), Ok(()));
}

#[test]
fn refused_channel_drops_claim() {
    let mut s = Sessions::new();
    assert_eq!(s.claim(5), Ok(()));
    assert_eq!(s.open(5, None), Err(SessionError::CannotInitiate));
    assert!(s.get(5).is_none());
    assert_eq!(s.claim(5), Ok(()));
    assert_eq!(s.open(9, Some(PrivateChannel { channel: 1, anchor: 2 })), Err(SessionError::NotActive));
}

#[test]
fn one_wait_at_a_time() {
    let mut s = Sessions::new();
    assert_eq!(s.begin_wait(5), Err(SessionError::NotActive));
    s.claim(5).unwrap();
    assert_eq!(s.begin_wait(5), Err(SessionError::NotActive));
    s.open(5, Some(PrivateChannel { channel: 1, anchor: 2 })).unwrap();
    assert_eq!(s.begin_wait(5), Ok(()));
    assert_eq!(s.begin_wait(5), Err(SessionError::AlreadyActive));
    s.end_wait(5);
    assert_eq!(s.begin_wait(5), Ok(()));
}

#[test]
fn dispose_is_idempotent() {
    let mut s = Sessions::new();
    s.claim(5).unwrap();
    s.dispose(5);
    s.dispose(5);
    assert!(s.get(5).is_none());
    assert_eq!(s.claim(5), Ok(()));
}

#[test]
fn session_error_messages() {
    assert_eq!(SessionError::AlreadyActive.message(), "You already have an open conversation with me");
    assert_eq!(SessionError::NotActive.message(), "There is no open conversation");
}

fn conf(actor: Option<u64>) -> Confirmation {
    Confirmation::new(affirm_marker(), deny_marker(), actor, 180, 100)
}

#[test]
fn confirmation_outcomes() {
    let c = conf(Some(1));
    let yes = vec![ReactionEvent::new(affirm_marker(), EventKind::Add, 1, 110)];
    assert_eq!(run_confirmation(&c, &yes), ConfirmationOutcome::Confirmed);
    let no = vec![ReactionEvent::new(deny_marker(), EventKind::Add, 1, 110)];
    assert_eq!(run_confirmation(&c, &no), ConfirmationOutcome::Declined);
    let none: Vec<ReactionEvent> = vec![];
    assert_eq!(run_confirmation(&c, &none), ConfirmationOutcome::TimedOut);
    let late = vec![ReactionEvent::new(affirm_marker(), EventKind::Add, 1, 281)];
    assert_eq!(run_confirmation(&c, &late), ConfirmationOutcome::TimedOut);
    let on_time = vec![ReactionEvent::new(affirm_marker(), EventKind::Add, 1, 280)];
    assert_eq!(run_confirmation(&c, &on_time), ConfirmationOutcome::Confirmed);
}

#[test]
fn confirmation_ignores_other_actors_removals_and_markers() {
    let c = conf(Some(1));
    let events = vec![
        ReactionEvent::new(affirm_marker(), EventKind::Add, 2, 101),
        ReactionEvent::new(affirm_marker(), EventKind::Remove, 1, 102),
        ReactionEvent::new(Marker::Custom(3), EventKind::Add, 1, 103),
        ReactionEvent::new(deny_marker(), EventKind::Add, 1, 104),
    ];
    assert_eq!(run_confirmation(&c, &events), ConfirmationOutcome::Declined);
    assert_eq!(c.decide(&events[0]), None);
    assert_eq!(conf(None).decide(&events[0]), Some(ConfirmationOutcome::Confirmed));
    assert_eq!(c.markers(), vec![affirm_marker(), deny_marker()]);
}

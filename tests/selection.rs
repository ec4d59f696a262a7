use raid_helper::marker::{affirm_marker, deny_marker, EventKind, Marker, ReactionEvent};
use raid_helper::selection::{run_selection, Selection, SelectableItem, SelectionConfig, SelectionOutcome, Step};

const ACTOR: u64 = 42;

fn green() -> Marker {
    Marker::Unicode('\u{1F7E2}')
}

fn blue() -> Marker {
    Marker::Unicode('\u{1F535}')
}

fn item(id: i64, code: &str, marker: Option<Marker>) -> SelectableItem {
    SelectableItem { id, code: code.to_string(), title: code.to_uppercase(), marker }
}

fn config() -> SelectionConfig {
    SelectionConfig { affirm: affirm_marker(), deny: deny_marker(), timeout_secs: 5, required_actor: None }
}

/// Items A (green) and B (blue), nothing selected, started at time 0.
fn two_items() -> Selection {
    Selection::new(config(), vec![], vec![item(1, "a", Some(green())), item(2, "b", Some(blue()))], 0)
}

fn ev(marker: Marker, kind: EventKind, at: u64) -> ReactionEvent {
    ReactionEvent::new(marker, kind, ACTOR, at)
}

#[test]
fn run_select_one_then_affirm() {
    let events = vec![ev(blue(), EventKind::Add, 1), ev(affirm_marker(), EventKind::Add, 2)];
    match run_selection(two_items(), &events) {
        SelectionOutcome::Selected { selected, unselected } => {
            assert_eq!(selected, vec![2]);
            assert_eq!(unselected, vec![1]);
        }
        _ => panic!("expected a selection"),
    }
}

#[test]
fn run_add_remove_then_affirm() {
    let events = vec![
        ev(blue(), EventKind::Add, 1),
        ev(blue(), EventKind::Remove, 2),
        ev(affirm_marker(), EventKind::Add, 3),
    ];
    match run_selection(two_items(), &events) {
        SelectionOutcome::Selected { selected, unselected } => {
            assert!(selected.is_empty());
            assert_eq!(unselected, vec![1, 2]);
        }
        _ => panic!("expected a selection"),
    }
}

#[test]
fn run_deny_cancels() {
    let events = vec![ev(deny_marker(), EventKind::Add, 1)];
    assert!(matches!(run_selection(two_items(), &events), SelectionOutcome::Canceled));
}

#[test]
fn run_silence_times_out() {
    let events: Vec<ReactionEvent> = vec![];
    assert!(matches!(run_selection(two_items(), &events), SelectionOutcome::TimedOut));
    let late = vec![ev(affirm_marker(), EventKind::Add, 6)];
    assert!(matches!(run_selection(two_items(), &late), SelectionOutcome::TimedOut));
}

#[test]
fn timeout_restarts_each_iteration() {
    // Each event comes within 5 s of the previous one, 12 s in all.
    let events = vec![
        ev(green(), EventKind::Add, 4),
        ev(blue(), EventKind::Add, 8),
        ev(affirm_marker(), EventKind::Add, 12),
    ];
    match run_selection(two_items(), &events) {
        SelectionOutcome::Selected { selected, unselected } => {
            assert_eq!(selected, vec![1, 2]);
            assert!(unselected.is_empty());
        }
        _ => panic!("expected a selection"),
    }
}

#[test]
fn unknown_marker_changes_nothing_and_keeps_deadline() {
    let mut sel = two_items();
    let stray = ev(Marker::Custom(999), EventKind::Add, 3);
    assert_eq!(sel.handle(&stray), Step::Ignored);
    assert_eq!(sel.selected(), Vec::<i64>::new());
    assert_eq!(sel.clock, 0);
    // The deadline is still 5 s after the start.
    assert_eq!(sel.handle(&ev(blue(), EventKind::Add, 6)), Step::TimedOut);
}

#[test]
fn toggle_twice_restores_side() {
    let mut sel = Selection::new(config(), vec![item(1, "a", Some(green()))], vec![item(2, "b", Some(blue()))], 0);
    assert_eq!(sel.handle(&ev(green(), EventKind::Remove, 1)), Step::Continue);
    assert_eq!(sel.selected(), Vec::<i64>::new());
    assert_eq!(sel.handle(&ev(green(), EventKind::Remove, 2)), Step::Continue);
    assert_eq!(sel.selected(), vec![1]);
    assert_eq!(sel.unselected(), vec![2]);
}

#[test]
fn item_without_marker_never_moves() {
    let sel = Selection::new(config(), vec![item(7, "x", None)], vec![item(1, "a", Some(green()))], 0);
    let events = vec![ev(green(), EventKind::Add, 1), ev(affirm_marker(), EventKind::Add, 2)];
    match run_selection(sel, &events) {
        SelectionOutcome::Selected { selected, unselected } => {
            assert_eq!(selected, vec![7, 1]);
            assert!(unselected.is_empty());
        }
        _ => panic!("expected a selection"),
    }
}

#[test]
fn partition_covers_universe_after_many_toggles() {
    let mut sel = Selection::new(
        config(),
        vec![item(1, "a", Some(green()))],
        vec![item(2, "b", Some(blue())), item(3, "c", Some(Marker::Custom(77)))],
        0,
    );
    let markers = [green(), blue(), Marker::Custom(77), blue(), Marker::Custom(5), green(), green()];
    for (i, m) in markers.iter().enumerate() {
        sel.handle(&ev(*m, EventKind::Add, i as u64 + 1));
        let mut all = sel.selected();
        all.extend(sel.unselected());
        all.sort();
        assert_eq!(all, vec![1, 2, 3]);
    }
}

#[test]
fn affirm_before_attachment_completes() {
    let mut sel = two_items();
    let plan = sel.attachment_plan();
    assert_eq!(plan, vec![affirm_marker(), deny_marker(), green(), blue()]);
    sel.note_attached();
    assert_eq!(sel.pending_attachments(), 3);
    assert_eq!(sel.handle(&ev(green(), EventKind::Add, 1)), Step::Continue);
    assert_eq!(sel.handle(&ev(affirm_marker(), EventKind::Add, 2)), Step::Confirmed);
    assert_eq!(sel.selected(), vec![1]);
    assert_eq!(sel.pending_attachments(), 3);
}

#[test]
fn required_actor_filters_events() {
    let mut cfg = config();
    cfg.required_actor = Some(ACTOR);
    let mut sel = Selection::new(cfg, vec![], vec![item(1, "a", Some(green()))], 0);
    let other = ReactionEvent::new(affirm_marker(), EventKind::Add, 7, 1);
    assert_eq!(sel.handle(&other), Step::Ignored);
    assert_eq!(sel.handle(&ev(affirm_marker(), EventKind::Add, 2)), Step::Confirmed);
}

#[test]
fn shared_marker_toggles_first_item() {
    let mut sel = Selection::new(config(), vec![], vec![item(1, "a", Some(green())), item(2, "b", Some(green()))], 0);
    assert_eq!(sel.handle(&ev(green(), EventKind::Add, 1)), Step::Continue);
    assert_eq!(sel.selected(), vec![1]);
    assert_eq!(sel.plan_len(), 4);
}

use raid_helper::calendar::format_training_slim;
use raid_helper::confirmation::{ConfirmationOutcome, YesOrNo};
use raid_helper::marker::{affirm_marker, deny_marker, EventKind, Marker, ReactionEvent};
use raid_helper::models::{Raid, RaidState, Role, Timestamp};
use raid_helper::reply::parse_id_list;
use raid_helper::roles::{resolve_marker, role_item, role_items, split_by_codes};
use raid_helper::selection::{footer_text, Selection, SelectionConfig};

fn role(id: i32, repr: &str, emoji: i64) -> Role {
    Role { id, title: format!("{} title", repr), repr: repr.to_string(), emoji, active: true, priority: 0 }
}

#[test]
fn markers_resolve_against_available_emojis() {
    assert_eq!(resolve_marker(55, &vec![1, 55]), Some(Marker::Custom(55)));
    assert_eq!(resolve_marker(56, &vec![1, 55]), None);
    assert_eq!(resolve_marker(-1, &vec![u64::MAX]), Some(Marker::Custom(u64::MAX)));
    let it = role_item(&role(3, "dps", 55), &vec![55]);
    assert_eq!(it.id, 3);
    assert_eq!(it.code, "dps");
    assert_eq!(it.title, "dps title");
    assert_eq!(it.marker, Some(Marker::Custom(55)));
    let items = role_items(&vec![role(1, "heal", 10), role(2, "tank", 20)], &vec![20]);
    assert_eq!(items.len(), 2);
    assert_eq!(items[0].marker, None);
    assert_eq!(items[1].marker, Some(Marker::Custom(20)));
}

#[test]
fn preselection_by_codes() {
    let items = role_items(&vec![role(1, "heal", 10), role(2, "tank", 20), role(3, "dps", 30)], &vec![10, 20, 30]);
    let (chosen, rest) = split_by_codes(items, &vec!["dps".to_string(), "heal".to_string(), "nope".to_string()]);
    let chosen_ids: Vec<i64> = chosen.iter().map(|i| i.id).collect();
    let rest_ids: Vec<i64> = rest.iter().map(|i| i.id).collect();
    assert_eq!(chosen_ids, vec![1, 3]);
    assert_eq!(rest_ids, vec![2]);
}

#[test]
fn render_rows_show_sides() {
    let items = role_items(&vec![role(1, "heal", 10), role(2, "tank", 20), role(3, "dps", 30)], &vec![10, 30]);
    let (chosen, rest) = split_by_codes(items, &vec!["dps".to_string()]);
    let config = SelectionConfig { affirm: affirm_marker(), deny: deny_marker(), timeout_secs: 180, required_actor: None };
    let mut sel = Selection::new(config, chosen, rest, 0);
    let rows = sel.render_rows();
    assert_eq!(rows.len(), 2);
    assert_eq!(rows[0].id, 3);
    assert_eq!(rows[0].label, "\u{2705} | dps");
    assert_eq!(rows[1].id, 1);
    assert_eq!(rows[1].label, "\u{274C} | heal");
    sel.handle(&ReactionEvent::new(Marker::Custom(10), EventKind::Add, 1, 1));
    assert_eq!(sel.render_rows()[1].label, "\u{2705} | heal");
    assert_eq!(footer_text(true), "Loading emojis. Please wait...");
    assert!(footer_text(false).starts_with("React with the corresponding emoji"));
}

#[test]
fn yes_or_no_answers() {
    assert_eq!(ConfirmationOutcome::Confirmed.yes_or_no(), Some(YesOrNo::Yes));
    assert_eq!(ConfirmationOutcome::Declined.yes_or_no(), Some(YesOrNo::No));
    assert_eq!(ConfirmationOutcome::TimedOut.yes_or_no(), None);
}

#[test]
fn training_slim_text() {
    let t = Raid {
        id: 1,
        title: "Beginner Training".to_string(),
        date: Timestamp { secs: 1_620_759_600 },
        state: RaidState::Open,
        tier_id: None,
        board_message_id: None,
    };
    assert_eq!(format_training_slim(&t).unwrap(), "Name: `Beginner Training`\nDate `2021-05-11 19:00:00 UTC`");
}

#[test]
fn id_lists() {
    assert_eq!(parse_id_list("3,17,4"), Some(vec![3, 17, 4]));
    assert_eq!(parse_id_list("12"), Some(vec![12]));
    assert_eq!(parse_id_list("-1,+2"), Some(vec![-1, 2]));
    assert_eq!(parse_id_list(""), None);
    assert_eq!(parse_id_list("1,,2"), None);
    assert_eq!(parse_id_list("1,2,"), None);
    assert_eq!(parse_id_list("1, 2"), None);
    assert_eq!(parse_id_list("x"), None);
}

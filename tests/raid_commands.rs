use raid_helper::models::{Raid, RaidState, Timestamp};
use raid_helper::raid_commands::{change_targets, listed_codes};

fn raid(id: i32, secs: i64) -> Raid {
    Raid { id, title: format!("Raid {}", id), date: Timestamp { secs }, state: RaidState::Open, tier_id: None, board_message_id: None }
}

#[test]
fn state_change_targets_unique_by_date() {
    let raids = vec![raid(7, 300), raid(3, 100), raid(7, 300), raid(5, 100), raid(1, 200), raid(3, 100)];
    let order = change_targets(&raids);
    assert_eq!(order, vec![1, 3, 4, 0]);
    let ids: Vec<i32> = order.iter().map(|&p| raids[p].id).collect();
    assert_eq!(ids, vec![3, 5, 1, 7]);
    assert!(change_targets(&vec![]).is_empty());
}

#[test]
fn codes_split_and_trimmed() {
    assert_eq!(listed_codes("dps, heal ,tank"), vec!["dps", "heal", "tank"]);
    assert_eq!(listed_codes(" dps "), vec!["dps"]);
    assert_eq!(listed_codes("a,,b"), vec!["a", "", "b"]);
    assert_eq!(listed_codes(""), vec![""]);
    assert_eq!(listed_codes("x\t,\u{3000}y"), vec!["x", "y"]);
}

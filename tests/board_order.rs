use raid_helper::board::{boss_order, day_of, group_by_day, overview_order};
use raid_helper::models::{Raid, RaidBoss, RaidState, Timestamp};
use raid_helper::order::order_by_keys;

fn raid(id: i32, title: &str, secs: i64) -> Raid {
    Raid { id, title: title.to_string(), date: Timestamp { secs }, state: RaidState::Open, tier_id: None, board_message_id: None }
}

fn boss(id: i32, wing: i32, position: i32) -> RaidBoss {
    RaidBoss { id, repr: format!("b{}", id), name: format!("Boss {}", id), wing, position, emoji: 1, url: None }
}

#[test]
fn days_round_down() {
    assert_eq!(day_of(0), 0);
    assert_eq!(day_of(86_399), 0);
    assert_eq!(day_of(86_400), 1);
    assert_eq!(day_of(-1), -1);
    assert_eq!(day_of(-86_400), -1);
    assert_eq!(day_of(-86_401), -2);
    assert_eq!(day_of(i64::MIN), i64::MIN.div_euclid(86_400));
}

#[test]
fn stable_order_by_two_keys() {
    let keys = vec![(2, 0), (1, 5), (1, 3), (2, 0), (1, 3)];
    assert_eq!(order_by_keys(&keys), vec![2, 4, 1, 0, 3]);
    assert_eq!(order_by_keys(&vec![]), Vec::<usize>::new());
}

#[test]
fn raids_by_day_then_rank() {
    let day = 86_400;
    let raids = vec![
        raid(1, "Fun run", 2 * day + 100),
        raid(2, "Practice", 2 * day + 50),
        raid(3, "Intermediate", day + 10),
        raid(4, "Beginner", 2 * day + 900),
        raid(5, "Other", day + 5),
    ];
    assert_eq!(overview_order(&raids), vec![2, 4, 3, 1, 0]);
}

#[test]
fn bosses_by_wing_then_position() {
    let bosses = vec![boss(1, 2, 1), boss(2, 1, 3), boss(3, 1, 1), boss(4, 2, 0)];
    assert_eq!(boss_order(&bosses), vec![2, 1, 3, 0]);
}

#[test]
fn runs_of_days() {
    assert_eq!(group_by_day(&vec![]), vec![]);
    assert_eq!(group_by_day(&vec![3, 3, 4, 7, 7, 7]), vec![(3, 0, 2), (4, 2, 3), (7, 3, 6)]);
    assert_eq!(group_by_day(&vec![5, 6, 5]), vec![(5, 0, 1), (6, 1, 2), (5, 2, 3)]);
}

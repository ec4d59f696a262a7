use raid_helper::board::{status_text, title_sort_value, SignupBoard, SignupBoardError};
use raid_helper::calendar::{escape_title, field_raid_date, google_calendar_link};
use raid_helper::commands::{AppCommands, CommandAudience};
use raid_helper::models::{parse_raid_state, Raid, RaidState, Timestamp, TierMapping, User};
use raid_helper::reply::{parse_i32, read_training_reply, TrainingReply};
use raid_helper::signup::{check_join, is_gw2_account_name, pages_from_end, register_action, JoinRefusal, RegisterAction};
use raid_helper::text::{contains_text, decimal_i64, decimal_u64, same_text};
use raid_helper::tiers::{filter_trainings, verify_tier};

fn raid(id: i32, title: &str, secs: i64, tier_id: Option<i32>) -> Raid {
    Raid {
        id,
        title: title.to_string(),
        date: Timestamp { secs },
        state: RaidState::Open,
        tier_id,
        board_message_id: None,
    }
}

#[test]
fn discord_id_reads_back_unsigned() {
    let u = User { id: 1, discord_id: 1234, gw2_id: "Name.1234".to_string() };
    assert_eq!(u.discord_id(), 1234);
    let big = User { id: 2, discord_id: -1, gw2_id: String::new() };
    assert_eq!(big.discord_id(), u64::MAX);
    let x: u64 = 18_000_000_000_000_000_000;
    let stored = User { id: 3, discord_id: x as i64, gw2_id: String::new() };
    assert_eq!(stored.discord_id(), x);
}

#[test]
fn raid_state_names() {
    assert_eq!(RaidState::Open.to_string(), "open");
    assert_eq!(RaidState::Finished.as_str(), "finished");
    assert_eq!(parse_raid_state("closed"), Ok(RaidState::Closed));
    assert_eq!("started".parse::<RaidState>(), Ok(RaidState::Started));
    assert_eq!(parse_raid_state("Open"), Err("unknown raid state: Open".to_string()));
}

#[test]
fn app_commands_parse_and_permissions() {
    assert_eq!("raid".parse::<AppCommands>().unwrap(), AppCommands::Raid);
    assert_eq!(AppCommands::parse("raid_tier").unwrap(), AppCommands::RaidTier);
    let err = AppCommands::parse("dance").unwrap_err();
    assert_eq!(err.0, "dance");
    assert_eq!(err.message(), "Unknown slash command: dance");
    assert_eq!(AppCommands::default_commands().len(), 7);
    for c in AppCommands::default_commands() {
        assert_eq!(AppCommands::parse(c.name()).unwrap(), c);
    }
    assert_eq!(AppCommands::Register.audience(), CommandAudience::Everyone);
    assert_eq!(AppCommands::Config.permission_role_id(7, 9), 7);
    assert_eq!(AppCommands::Unregister.permission_role_id(7, 9), 9);
}

#[test]
fn decimal_ids() {
    assert_eq!(parse_i32("42"), Some(42));
    assert_eq!(parse_i32("+7"), Some(7));
    assert_eq!(parse_i32("-2147483648"), Some(i32::MIN));
    assert_eq!(parse_i32("2147483647"), Some(i32::MAX));
    assert_eq!(parse_i32("2147483648"), None);
    assert_eq!(parse_i32("99999999999999999999"), None);
    assert_eq!(parse_i32(""), None);
    assert_eq!(parse_i32("-"), None);
    assert_eq!(parse_i32("12a"), None);
    assert_eq!(parse_i32(" 1"), None);
}

#[test]
fn training_replies() {
    let ids = vec![3, 8];
    assert_eq!(read_training_reply("CaNcEl", &ids), TrainingReply::Cancel);
    assert_eq!(read_training_reply("8", &ids), TrainingReply::Chosen(8));
    assert_eq!(read_training_reply("5", &ids), TrainingReply::UnknownId);
    assert_eq!(read_training_reply("eight", &ids), TrainingReply::NotANumber);
    assert_eq!(TrainingReply::NotANumber.retry_message(), Some("Could not parse id. Try again"));
    assert_eq!(TrainingReply::UnknownId.retry_message(), Some("Not a valid id. Try again"));
    assert_eq!(TrainingReply::Cancel.retry_message(), None);
}

#[test]
fn tier_requirements() {
    let mappings = vec![
        TierMapping { tier_id: 1, discord_role_id: 100 },
        TierMapping { tier_id: 2, discord_role_id: -1 },
    ];
    assert!(verify_tier(&raid(1, "open", 0, None), &mappings, &vec![]));
    assert!(verify_tier(&raid(1, "t1", 0, Some(1)), &mappings, &vec![5, 100]));
    assert!(!verify_tier(&raid(1, "t1", 0, Some(1)), &mappings, &vec![5]));
    assert!(verify_tier(&raid(1, "t2", 0, Some(2)), &mappings, &vec![u64::MAX]));
    assert!(!verify_tier(&raid(1, "t3", 0, Some(3)), &mappings, &vec![100]));
    let kept = filter_trainings(
        vec![raid(1, "a", 0, Some(1)), raid(2, "b", 0, None), raid(3, "c", 0, Some(2)), raid(4, "d", 0, Some(3))],
        &mappings,
        &vec![100],
    );
    let ids: Vec<i32> = kept.iter().map(|r| r.id).collect();
    assert_eq!(ids, vec![1, 2]);
}

#[test]
fn board_ranks_and_status() {
    assert_eq!(title_sort_value(&raid(1, "Beginner Training", 0, None)), 10);
    assert_eq!(title_sort_value(&raid(1, "Wing 1 Intermediate", 0, None)), 8);
    assert_eq!(title_sort_value(&raid(1, "Practice run", 0, None)), 6);
    assert_eq!(title_sort_value(&raid(1, "beginner", 0, None)), 0);
    assert_eq!(status_text(Some(0)), "\u{1F534} No raid available");
    assert_eq!(status_text(Some(1)), "\u{1F7E2} 1 raid available");
    assert_eq!(status_text(Some(12)), "\u{1F7E2} 12 raids available");
    assert_eq!(status_text(None), "\u{1F635} figuring out some issues");
}

#[test]
fn board_overview_targets() {
    let mut b = SignupBoard::new();
    assert_eq!(b.overview_target(), Err(SignupBoardError::OverviewMessageNotSet));
    assert_eq!(b.overview_channel(), Err(SignupBoardError::OverviewChannelNotSet));
    assert_eq!(b.set_channel(4, &vec![1, 2]), Err(SignupBoardError::ChannelNotFound(4)));
    b.set_overview_message(9);
    assert_eq!(b.overview_target(), Err(SignupBoardError::OverviewChannelNotSet));
    assert_eq!(b.set_channel(2, &vec![1, 2]), Ok(()));
    assert_eq!(b.overview_target(), Ok((2, 9)));
    assert_eq!(SignupBoardError::ChannelNotFound(77).message(), "Channel with id: 77 not found on Signupboard");
    assert_eq!(SignupBoardError::OverviewMessageNotSet.message(), "Overview message not set");
}

#[test]
fn calendar_fields() {
    // 2021-05-11T19:00:00Z
    let r = raid(1, "Beginner Training", 1_620_759_600, None);
    assert_eq!(
        google_calendar_link(&r).unwrap(),
        "https://calendar.google.com/calendar/event?action=TEMPLATE&dates=20210511T190000Z/20210511T210000Z&text=Beginner%20Training"
    );
    let (name, value, inline) = field_raid_date(&r).unwrap();
    assert_eq!(name, "**Date**");
    assert!(!inline);
    assert_eq!(
        value,
        "<t:1620759600:F> | [19:00 (UTC)](https://calendar.google.com/calendar/event?action=TEMPLATE&dates=20210511T190000Z/20210511T210000Z&text=Beginner%20Training)"
    );
    assert!(field_raid_date(&raid(1, "x", i64::MAX, None)).is_none());
    assert_eq!(escape_title("a b  c"), "a%20b%20%20c");
}

#[test]
fn account_names_and_register() {
    assert!(is_gw2_account_name("Narturio.1234"));
    assert!(is_gw2_account_name("abc.0000"));
    assert!(!is_gw2_account_name("ab.1234"));
    assert!(!is_gw2_account_name("Narturio.123"));
    assert!(!is_gw2_account_name("Narturio.1234\n"));
    assert!(!is_gw2_account_name("Nar turio.1234"));
    assert!(!is_gw2_account_name("abcdefghijklmnopqrstuvwxyzab.1234"));
    assert!(is_gw2_account_name("abcdefghijklmnopqrstuvwxyza.1234"));
    assert_eq!(register_action("bad", true), RegisterAction::RejectName);
    assert_eq!(register_action("Good.1234", true), RegisterAction::UpdateAccount);
    assert_eq!(register_action("Good.1234", false), RegisterAction::CreateUser);
}

#[test]
fn join_checks_in_order() {
    assert_eq!(check_join(false, false, false, true), Err(JoinRefusal::NotRegistered));
    assert_eq!(check_join(true, false, false, true), Err(JoinRefusal::NoOpenRaid));
    assert_eq!(check_join(true, true, false, true), Err(JoinRefusal::TierRequirementFailed));
    assert_eq!(check_join(true, true, true, true), Err(JoinRefusal::AlreadySignedUp));
    assert_eq!(check_join(true, true, true, false), Ok(()));
    assert_eq!(JoinRefusal::TierRequirementFailed.message(), "Tier requirement failed");
}

#[test]
fn pages_taken_from_the_end() {
    assert_eq!(pages_from_end(0, 25), vec![]);
    assert_eq!(pages_from_end(25, 25), vec![(0, 25)]);
    assert_eq!(pages_from_end(60, 25), vec![(35, 60), (10, 35), (0, 10)]);
    let v: Vec<u32> = (0..60).collect();
    let chunks: Vec<(usize, usize)> = v.rchunks(25).map(|c| (c[0] as usize, c[0] as usize + c.len())).collect();
    assert_eq!(pages_from_end(60, 25), chunks);
}

#[test]
fn text_helpers() {
    assert!(same_text("abc", "abc"));
    assert!(!same_text("abc", "abd"));
    assert!(contains_text("xxabcxx", "abc"));
    assert!(contains_text("abc", ""));
    assert!(!contains_text("ab", "abc"));
    assert_eq!(decimal_u64(0), "0");
    assert_eq!(decimal_u64(u64::MAX), "18446744073709551615");
    assert_eq!(decimal_i64(i64::MIN), "-9223372036854775808");
    assert_eq!(decimal_i64(-5), "-5");
}

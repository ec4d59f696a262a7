//! The stored records of the guild: users, raids and their states, roles,
//! signups, tiers, raid bosses and configuration entries.

use vstd::prelude::*;
use crate::text::{joined, same_text};

verus! {

/// A point in time in whole seconds since the Unix epoch, UTC.
#[derive(Clone, Copy, Debug, PartialEq, Eq, Structural)]
pub struct Timestamp {
    pub secs: i64,
}

/// A stored id read back as unsigned: Discord ids are `u64`, stored as `i64`
/// with the same bits.
pub open spec fn unsigned_of(x: i64) -> u64 {
    if x >= 0 {
        x as u64
    } else {
        (x as int + 0x1_0000_0000_0000_0000) as u64
    }
}

/// Reads a stored id back as unsigned.
pub fn to_unsigned(x: i64) -> (r: u64)
    ensures
        r == unsigned_of(x),
        r as int == if x >= 0 { x as int } else { x as int + 0x1_0000_0000_0000_0000 },
{
    if x >= 0 {
        x as u64
    } else {
        u64::MAX - ((-(x + 1)) as u64)
    }
}

/// A registered user: the Discord account and the game account name.
#[derive(Clone, Debug)]
pub struct User {
    pub id: i32,
    pub discord_id: i64,
    pub gw2_id: String,
}

impl User {
    /// The Discord id, as Discord writes it: the stored value read back as
    /// unsigned.
    pub fn discord_id(&self) -> (r: u64)
        ensures
            r == unsigned_of(self.discord_id),
            r as int == if self.discord_id >= 0 {
                self.discord_id as int
            } else {
                self.discord_id as int + 0x1_0000_0000_0000_0000
            },
    {
        to_unsigned(self.discord_id)
    }
}

#[derive(Clone, Debug)]
pub struct Signup {
    pub id: i32,
    pub user_id: i32,
    pub raid_id: i32,
    pub comment: Option<String>,
}

#[derive(Clone, Copy, Debug, PartialEq, Eq, Structural)]
pub struct NewSignup {
    pub user_id: i32,
    pub raid_id: i32,
}

/// The life cycle of a raid.
#[derive(Clone, Copy, Debug, PartialEq, Eq, Structural)]
pub enum RaidState {
    Created,
    Open,
    Closed,
    Started,
    Finished,
}

/// The name of a raid state.
pub open spec fn state_name(st: RaidState) -> Seq<char> {
    match st {
        RaidState::Created => "created"@,
        RaidState::Open => "open"@,
        RaidState::Closed => "closed"@,
        RaidState::Started => "started"@,
        RaidState::Finished => "finished"@,
    }
}

impl RaidState {
    /// The state's name, in lower case.
    pub fn as_str(&self) -> (r: &'static str)
        ensures
            r@ == state_name(*self),
    {
        match self {
            RaidState::Created => "created",
            RaidState::Open => "open",
            RaidState::Closed => "closed",
            RaidState::Started => "started",
            RaidState::Finished => "finished",
        }
    }

    /// The state's name as an owned string.
    pub fn to_string(&self) -> (r: String)
        ensures
            r@ == state_name(*self),
    {
        proof {
            reveal_strlit("");
        }
        joined(self.as_str(), "")
    }
}

/// Reads a raid state from its name. Any other text is refused with
/// "unknown raid state: " followed by the text.
pub fn parse_raid_state(s: &str) -> (r: Result<RaidState, String>)
    ensures
        match r {
            Ok(st) => s@ == state_name(st),
            Err(e) => (forall|st: RaidState| s@ != state_name(st)) && e@ == "unknown raid state: "@ + s@,
        },
{
    if same_text(s, "created") {
        Ok(RaidState::Created)
    } else if same_text(s, "open") {
        Ok(RaidState::Open)
    } else if same_text(s, "closed") {
        Ok(RaidState::Closed)
    } else if same_text(s, "started") {
        Ok(RaidState::Started)
    } else if same_text(s, "finished") {
        Ok(RaidState::Finished)
    } else {
        Err(joined("unknown raid state: ", s))
    }
}

impl std::str::FromStr for RaidState {
    type Err = String;

    fn from_str(s: &str) -> Result<RaidState, String> {
        parse_raid_state(s)
    }
}

/// A raid: a dated event that users sign up for, with an optional tier
/// requirement and the board message that shows it.
#[derive(Clone, Debug)]
pub struct Raid {
    pub id: i32,
    pub title: String,
    pub date: Timestamp,
    pub state: RaidState,
    pub tier_id: Option<i32>,
    pub board_message_id: Option<i64>,
}

/// A role that users pick when signing up, shown with its custom emoji.
#[derive(Clone, Debug)]
pub struct Role {
    pub id: i32,
    pub title: String,
    pub repr: String,
    pub emoji: i64,
    pub active: bool,
    pub priority: i16,
}

#[derive(Clone, Copy, Debug, PartialEq, Eq, Structural)]
pub struct SignupRole {
    pub signup_id: i32,
    pub role_id: i32,
}

#[derive(Clone, Copy, Debug, PartialEq, Eq, Structural)]
pub struct RaidRole {
    pub raid_id: i32,
    pub role_id: i32,
}

/// A tier: a named requirement, met by holding any of its Discord roles.
#[derive(Clone, Debug)]
pub struct Tier {
    pub id: i32,
    pub name: String,
}

/// One Discord role that satisfies a tier.
#[derive(Clone, Copy, Debug, PartialEq, Eq, Structural)]
pub struct TierMapping {
    pub tier_id: i32,
    pub discord_role_id: i64,
}

/// A named configuration value.
#[derive(Clone, Debug)]
pub struct Config {
    pub name: String,
    pub value: String,
}

#[derive(Clone, Debug)]
pub struct RaidBoss {
    pub id: i32,
    pub repr: String,
    pub name: String,
    pub wing: i32,
    pub position: i32,
    pub emoji: i64,
    pub url: Option<String>,
}

#[derive(Clone, Debug)]
pub struct NewRaidBoss {
    pub repr: String,
    pub name: String,
    pub wing: i32,
    pub position: i32,
    pub emoji: i64,
    pub url: Option<String>,
}

#[derive(Clone, Copy, Debug, PartialEq, Eq, Structural)]
pub struct RaidBossMapping {
    pub raid_id: i32,
    pub raid_boss_id: i32,
}

} // verus!

//! The signup board: where the overview message lives, how raids rank on it,
//! and the bot's status line.

use vstd::prelude::*;
use crate::models::{Raid, RaidBoss};
use crate::order::{order_by_keys, sorted_order};
use crate::text::{contains_text, decimal_i64, decimal_spec, decimal_u64, digits_of, joined, occurs};

verus! {

/// The rank of a raid title on the board: beginner raids first, then
/// intermediate, then practice, then the rest.
pub open spec fn title_rank(title: Seq<char>) -> u64 {
    if occurs(title, "Beginner"@) {
        10
    } else if occurs(title, "Intermediate"@) {
        8
    } else if occurs(title, "Practice"@) {
        6
    } else {
        0
    }
}

/// The rank of the raid's title on the board.
pub fn title_sort_value(t: &Raid) -> (r: u64)
    ensures
        r == title_rank(t.title@),
{
    let title = t.title.as_str();
    if contains_text(title, "Beginner") {
        10
    } else if contains_text(title, "Intermediate") {
        8
    } else if contains_text(title, "Practice") {
        6
    } else {
        0
    }
}

/// The status line for a count of open raids, or for a count that could not
/// be loaded (`None`).
pub open spec fn status_spec(count: Option<i64>) -> Seq<char> {
    match count {
        None => "\u{1F635} figuring out some issues"@,
        Some(n) => if n == 0 {
            "\u{1F534} No raid available"@
        } else if n == 1 {
            "\u{1F7E2} 1 raid available"@
        } else {
            "\u{1F7E2} "@ + decimal_spec(n) + " raids available"@
        },
    }
}

/// The bot's status line, from the number of open raids.
pub fn status_text(count: Option<i64>) -> (r: String)
    ensures
        r@ == status_spec(count),
{
    proof {
        reveal_strlit("");
    }
    match count {
        None => joined("\u{1F635} figuring out some issues", ""),
        Some(n) => {
            if n == 0 {
                joined("\u{1F534} No raid available", "")
            } else if n == 1 {
                joined("\u{1F7E2} 1 raid available", "")
            } else {
                let d = decimal_i64(n);
                let s = joined("\u{1F7E2} ", d.as_str());
                joined(s.as_str(), " raids available")
            }
        }
    }
}

#[derive(Clone, Copy, Debug, PartialEq, Eq, Structural)]
pub enum SignupBoardError {
    OverviewMessageNotSet,
    OverviewChannelNotSet,
    ChannelNotFound(u64),
}

impl SignupBoardError {
    /// The error's description.
    pub fn message(&self) -> (r: String)
        ensures
            r@ == match *self {
                SignupBoardError::ChannelNotFound(id) => "Channel with id: "@ + digits_of(id as nat)
                    + " not found on Signupboard"@,
                SignupBoardError::OverviewMessageNotSet => "Overview message not set"@,
                SignupBoardError::OverviewChannelNotSet => "Overview channel not set"@,
            },
    {
        proof {
            reveal_strlit("");
        }
        match self {
            SignupBoardError::ChannelNotFound(id) => {
                let d = decimal_u64(*id);
                let s = joined("Channel with id: ", d.as_str());
                joined(s.as_str(), " not found on Signupboard")
            }
            SignupBoardError::OverviewMessageNotSet => joined("Overview message not set", ""),
            SignupBoardError::OverviewChannelNotSet => joined("Overview channel not set", ""),
        }
    }
}

/// Where the overview of all raids is shown: a channel and, once created, a
/// message in it.
#[derive(Clone, Copy, Debug, PartialEq, Eq, Structural)]
pub struct SignupBoard {
    pub overview_channel_id: Option<u64>,
    pub overview_message_id: Option<u64>,
}

impl SignupBoard {
    pub fn new() -> (r: SignupBoard)
        ensures
            r.overview_channel_id is None,
            r.overview_message_id is None,
    {
        SignupBoard { overview_channel_id: None, overview_message_id: None }
    }

    /// Uses `chan` for the overview, if it is one of the guild's channels.
    pub fn set_channel(&mut self, chan: u64, guild_channels: &Vec<u64>) -> (r: Result<(), SignupBoardError>)
        ensures
            guild_channels@.contains(chan) ==> r is Ok && *final(self) == (SignupBoard {
                overview_channel_id: Some(chan),
                ..*old(self)
            }),
            !guild_channels@.contains(chan) ==> r == Err::<(), SignupBoardError>(SignupBoardError::ChannelNotFound(chan))
                && *final(self) == *old(self),
    {
        let mut i: usize = 0;
        while i < guild_channels.len()
            invariant
                *self == *old(self),
                i <= guild_channels@.len(),
                forall|k: int| 0 <= k < i ==> guild_channels@[k] != chan,
            decreases guild_channels@.len() - i,
        {
            if guild_channels[i] == chan {
                assert(guild_channels@[i as int] == chan);
                self.overview_channel_id = Some(chan);
                return Ok(());
            }
            i = i + 1;
        }
        Err(SignupBoardError::ChannelNotFound(chan))
    }

    /// The channel in which to create the overview message.
    pub fn overview_channel(&self) -> (r: Result<u64, SignupBoardError>)
        ensures
            r == match self.overview_channel_id {
                Some(c) => Ok::<u64, SignupBoardError>(c),
                None => Err(SignupBoardError::OverviewChannelNotSet),
            },
    {
        match self.overview_channel_id {
            Some(c) => Ok(c),
            None => Err(SignupBoardError::OverviewChannelNotSet),
        }
    }

    /// Records the newly created overview message.
    pub fn set_overview_message(&mut self, msg: u64)
        ensures
            *final(self) == (SignupBoard { overview_message_id: Some(msg), ..*old(self) }),
    {
        self.overview_message_id = Some(msg);
    }

    /// The channel and message of the overview to update. A missing message
    /// is reported before a missing channel.
    pub fn overview_target(&self) -> (r: Result<(u64, u64), SignupBoardError>)
        ensures
            r == match (self.overview_channel_id, self.overview_message_id) {
                (_, None) => Err(SignupBoardError::OverviewMessageNotSet),
                (None, Some(_)) => Err(SignupBoardError::OverviewChannelNotSet),
                (Some(c), Some(m)) => Ok::<(u64, u64), SignupBoardError>((c, m)),
            },
    {
        let m = match self.overview_message_id {
            Some(m) => m,
            None => {
                return Err(SignupBoardError::OverviewMessageNotSet);
            }
        };
        match self.overview_channel_id {
            Some(c) => Ok((c, m)),
            None => Err(SignupBoardError::OverviewChannelNotSet),
        }
    }
}

/// The day of a UTC time: whole days since the epoch, rounded down.
pub open spec fn day_spec(secs: i64) -> int {
    secs as int / 86400
}

/// The day of a UTC time, rounded down for times before the epoch.
pub fn day_of(secs: i64) -> (r: i64)
    ensures
        r as int == day_spec(secs),
{
    if secs >= 0 {
        secs / 86400
    } else {
        let t: i64 = -(secs + 1);
        let q: i64 = t / 86400;
        proof {
            assert(q as int == (t as int) / 86400);
            assert((secs as int) / 86400 == -(q as int) - 1) by (nonlinear_arith)
                requires
                    t as int == -(secs as int) - 1,
                    t >= 0,
                    q as int == (t as int) / 86400,
            ;
        }
        -q - 1
    }
}

/// The keys by which raids are listed on the board: their day, then their
/// title rank, highest first.
pub open spec fn overview_keys(raids: Seq<Raid>) -> Seq<(i64, i64)> {
    Seq::new(raids.len(), |i: int| (day_spec(raids[i].date.secs) as i64, -(title_rank(raids[i].title@) as int) as i64))
}

/// The order in which raids are listed on the board: by day, then by title
/// rank from highest, then as given.
pub fn overview_order(raids: &Vec<Raid>) -> (r: Vec<usize>)
    ensures
        sorted_order(overview_keys(raids@), r@),
{
    let mut keys: Vec<(i64, i64)> = Vec::new();
    let mut i: usize = 0;
    while i < raids.len()
        invariant
            i <= raids@.len(),
            keys@ == overview_keys(raids@).subrange(0, i as int),
        decreases raids@.len() - i,
    {
        let day = day_of(raids[i].date.secs);
        let rank = title_sort_value(&raids[i]);
        keys.push((day, -(rank as i64)));
        i = i + 1;
        assert(keys@ =~= overview_keys(raids@).subrange(0, i as int));
    }
    assert(keys@ =~= overview_keys(raids@));
    order_by_keys(&keys)
}

/// The keys by which a raid's bosses are listed: wing, then position.
pub open spec fn boss_keys(bosses: Seq<RaidBoss>) -> Seq<(i64, i64)> {
    Seq::new(bosses.len(), |i: int| (bosses[i].wing as i64, bosses[i].position as i64))
}

/// The order in which a raid's bosses are listed: by wing, then position,
/// then as given.
pub fn boss_order(bosses: &Vec<RaidBoss>) -> (r: Vec<usize>)
    ensures
        sorted_order(boss_keys(bosses@), r@),
{
    let mut keys: Vec<(i64, i64)> = Vec::new();
    let mut i: usize = 0;
    while i < bosses.len()
        invariant
            i <= bosses@.len(),
            keys@ == boss_keys(bosses@).subrange(0, i as int),
        decreases bosses@.len() - i,
    {
        keys.push((bosses[i].wing as i64, bosses[i].position as i64));
        i = i + 1;
        assert(keys@ =~= boss_keys(bosses@).subrange(0, i as int));
    }
    assert(keys@ =~= boss_keys(bosses@));
    order_by_keys(&keys)
}

/// The runs of equal days in a sequence of days: each run as its day and the
/// range of positions it covers, in order.
pub open spec fn day_runs(days: Seq<i64>) -> Seq<(i64, int, int)>
    decreases days.len(),
{
    if days.len() == 0 {
        Seq::<(i64, int, int)>::empty()
    } else {
        let p = day_runs(days.drop_last());
        let n = days.len() as int;
        if n >= 2 && days[n - 2] == days[n - 1] {
            p.update(p.len() - 1, (p.last().0, p.last().1, n))
        } else {
            p.push((days[n - 1], n - 1, n))
        }
    }
}

/// Splits positions whose days are given into runs of the same day, as the
/// board shows one section per day.
pub fn group_by_day(days: &Vec<i64>) -> (r: Vec<(i64, usize, usize)>)
    ensures
        r@.len() == day_runs(days@).len(),
        forall|k: int| 0 <= k < r@.len() ==> {
            let run = #[trigger] day_runs(days@)[k];
            r@[k].0 == run.0 && r@[k].1 as int == run.1 && r@[k].2 as int == run.2
        },
{
    let mut r: Vec<(i64, usize, usize)> = Vec::new();
    let n = days.len();
    let mut i: usize = 0;
    while i < n
        invariant
            n == days@.len(),
            i <= n,
            r@.len() == day_runs(days@.subrange(0, i as int)).len(),
            forall|k: int| 0 <= k < r@.len() ==> {
                let run = #[trigger] day_runs(days@.subrange(0, i as int))[k];
                r@[k].0 == run.0 && r@[k].1 as int == run.1 && r@[k].2 as int == run.2
            },
            i > 0 ==> r@.len() > 0 && r@.last().0 == days@[i - 1] && r@.last().2 == i,
        decreases n - i,
    {
        let ghost pre = days@.subrange(0, i as int);
        let ghost next = days@.subrange(0, i + 1);
        assert(next.drop_last() =~= pre);
        assert(next.last() == days@[i as int]);
        if i > 0 && days[i - 1] == days[i] {
            assert(next[i - 1] == days@[i - 1]);
            let last = r.len() - 1;
            let (d, start, _) = r[last];
            r.set(last, (d, start, i + 1));
        } else {
            proof {
                if i > 0 {
                    assert(next[i - 1] == days@[i - 1]);
                }
            }
            r.push((days[i], i, i + 1));
        }
        i = i + 1;
    }
    assert(days@.subrange(0, n as int) =~= days@);
    r
}

} // verus!

//! The date field of a raid: a Discord timestamp, the UTC clock time, and a
//! link that adds a two-hour event to Google Calendar.

use vstd::prelude::*;
use crate::models::Raid;
use crate::text::{chars_of, decimal_i64, decimal_spec, joined, string_from_chars};

verus! {

/// The seconds range in which every timestamp is a calendar date to chrono
/// (its years run from -262143 to 262142).
pub open spec fn in_calendar_range(secs: int) -> bool {
    -8_000_000_000_000 <= secs <= 8_000_000_000_000
}

/// What chrono writes for the UTC time `secs` with the format `pattern`.
pub uninterp spec fn formatted_utc(secs: i64, pattern: Seq<char>) -> Seq<char>;

/// The format of the begin and end of a calendar event.
pub open spec fn stamp_pattern() -> Seq<char> {
    "%Y%m%dT%H%M%SZ"@
}

/// The format of the clock time shown beside the date.
pub open spec fn clock_pattern() -> Seq<char> {
    "%H:%M (UTC)"@
}

/// The format of a plain date and time.
pub open spec fn plain_pattern() -> Seq<char> {
    "%Y-%m-%d %H:%M:%S"@
}

/// Relies on chrono's `DateTime::from_timestamp` (`None` only out of its
/// range of years) and `DateTime::format` on one of the patterns above, all
/// of which chrono accepts, so that rendering does not fail.
#[verifier::external_body]
fn format_utc(secs: i64, pattern: &str) -> (r: Option<String>)
    requires
        pattern@ == stamp_pattern() || pattern@ == clock_pattern() || pattern@ == plain_pattern(),
    ensures
        in_calendar_range(secs as int) ==> r is Some,
        r matches Some(s) ==> s@ == formatted_utc(secs, pattern@),
{
    chrono::DateTime::from_timestamp(secs, 0).map(|d| d.format(pattern).to_string())
}

/// A title as it goes into a link: each space written `%20`.
pub open spec fn escape_spaces(s: Seq<char>) -> Seq<char>
    decreases s.len(),
{
    if s.len() == 0 {
        s
    } else if s.last() == ' ' {
        escape_spaces(s.drop_last()) + "%20"@
    } else {
        escape_spaces(s.drop_last()).push(s.last())
    }
}

/// The title with each space written `%20`.
pub fn escape_title(title: &str) -> (r: String)
    ensures
        r@ == escape_spaces(title@),
{
    let cs = chars_of(title);
    let mut out: Vec<char> = Vec::new();
    let mut i: usize = 0;
    while i < cs.len()
        invariant
            cs@ == title@,
            i <= cs@.len(),
            out@ == escape_spaces(title@.subrange(0, i as int)),
        decreases cs@.len() - i,
    {
        let ghost pre = title@.subrange(0, i as int);
        let ghost next = title@.subrange(0, i + 1);
        assert(next.drop_last() =~= pre);
        assert(next.last() == cs@[i as int]);
        if cs[i] == ' ' {
            proof {
                reveal_strlit("%20");
            }
            out.push('%');
            out.push('2');
            out.push('0');
            assert(out@ =~= escape_spaces(next));
        } else {
            out.push(cs[i]);
            assert(out@ =~= escape_spaces(next));
        }
        i = i + 1;
    }
    assert(title@.subrange(0, cs@.len() as int) =~= title@);
    string_from_chars(&out)
}

/// The calendar link of a raid that starts at `secs` and lasts two hours.
pub open spec fn calendar_link_spec(secs: i64, title: Seq<char>) -> Seq<char> {
    "https://calendar.google.com/calendar/event?action=TEMPLATE&dates="@
        + formatted_utc(secs, stamp_pattern()) + "/"@
        + formatted_utc((secs + 7200) as i64, stamp_pattern()) + "&text="@
        + escape_spaces(title)
}

/// The link that adds the raid to Google Calendar, or `None` when its time
/// is outside the calendar.
pub fn google_calendar_link(raid: &Raid) -> (r: Option<String>)
    ensures
        raid.date.secs <= i64::MAX - 7200 && in_calendar_range(raid.date.secs as int)
            && in_calendar_range(raid.date.secs + 7200) ==> r is Some,
        r matches Some(s) ==> raid.date.secs <= i64::MAX - 7200
            && s@ == calendar_link_spec(raid.date.secs, raid.title@),
{
    let secs = raid.date.secs;
    if secs > i64::MAX - 7200 {
        return None;
    }
    let begin = match format_utc(secs, "%Y%m%dT%H%M%SZ") {
        Some(b) => b,
        None => {
            return None;
        }
    };
    let end = match format_utc(secs + 7200, "%Y%m%dT%H%M%SZ") {
        Some(e) => e,
        None => {
            return None;
        }
    };
    let title = escape_title(raid.title.as_str());
    let s = joined("https://calendar.google.com/calendar/event?action=TEMPLATE&dates=", begin.as_str());
    let s = joined(s.as_str(), "/");
    let s = joined(s.as_str(), end.as_str());
    let s = joined(s.as_str(), "&text=");
    let s = joined(s.as_str(), title.as_str());
    Some(s)
}

/// The value of the date field of a raid.
pub open spec fn date_field_spec(secs: i64, title: Seq<char>) -> Seq<char> {
    "<t:"@ + decimal_spec(secs) + ":F> | ["@ + formatted_utc(secs, clock_pattern()) + "]("@
        + calendar_link_spec(secs, title) + ")"@
}

/// The date field of a raid: its name, its value, and that it is not inline.
/// `None` when the raid's time is outside the calendar.
pub fn field_raid_date(raid: &Raid) -> (r: Option<(String, String, bool)>)
    ensures
        raid.date.secs <= i64::MAX - 7200 && in_calendar_range(raid.date.secs as int)
            && in_calendar_range(raid.date.secs + 7200) ==> r is Some,
        r matches Some(f) ==> f.0@ == "**Date**"@ && f.1@ == date_field_spec(raid.date.secs, raid.title@)
            && !f.2,
{
    let secs = raid.date.secs;
    let link = match google_calendar_link(raid) {
        Some(l) => l,
        None => {
            return None;
        }
    };
    let clock = match format_utc(secs, "%H:%M (UTC)") {
        Some(c) => c,
        None => {
            return None;
        }
    };
    let ts = decimal_i64(secs);
    let v = joined("<t:", ts.as_str());
    let v = joined(v.as_str(), ":F> | [");
    let v = joined(v.as_str(), clock.as_str());
    let v = joined(v.as_str(), "](");
    let v = joined(v.as_str(), link.as_str());
    let v = joined(v.as_str(), ")");
    proof {
        reveal_strlit("");
    }
    let name = joined("**Date**", "");
    Some((name, v, false))
}

/// The short description of a training: its name and its UTC date.
pub open spec fn slim_spec(secs: i64, title: Seq<char>) -> Seq<char> {
    "Name: `"@ + title + "`\nDate `"@ + formatted_utc(secs, plain_pattern()) + " UTC`"@
}

/// A training's name and date on two lines; `None` when its time is outside
/// the calendar.
pub fn format_training_slim(t: &Raid) -> (r: Option<String>)
    ensures
        in_calendar_range(t.date.secs as int) ==> r is Some,
        r matches Some(s) ==> s@ == slim_spec(t.date.secs, t.title@),
{
    let date = match format_utc(t.date.secs, "%Y-%m-%d %H:%M:%S") {
        Some(d) => d,
        None => {
            return None;
        }
    };
    let s = joined("Name: `", t.title.as_str());
    let s = joined(s.as_str(), "`\nDate `");
    let s = joined(s.as_str(), date.as_str());
    let s = joined(s.as_str(), " UTC`");
    Some(s)
}

} // verus!

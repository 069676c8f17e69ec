//! When a backup is made, and what a start has to settle before it serves.
use vstd::prelude::*;
use vstd::string::*;

use crate::config::SplunkHecIngestConfig;
use crate::text::{cat3, opt_text, trim, trimmed};
use crate::time::{Timestamp, at};

verus! {

// ---------------------------------------------------------------------
// Schedules
// ---------------------------------------------------------------------
/// Whether one point in time lies before another.
pub open spec fn earlier(a: Timestamp, b: Timestamp) -> bool {
    a.secs < b.secs || (a.secs == b.secs && a.nanos < b.nanos)
}

fn is_earlier(a: Timestamp, b: Timestamp) -> (r: bool)
    ensures
        r == earlier(a, b),
{
    a.secs < b.secs || (a.secs == b.secs && a.nanos < b.nanos)
}

/// The day that it is in a zone at a point in time, counted from the first day of the
/// first year; none where the zone is not known.
pub uninterp spec fn zone_day(zone: Seq<char>, secs: i64, nanos: u32) -> Option<i32>;

/// The point in time at which the clocks of a zone show a time of day on a day; none
/// where they show it never or twice, or where there is no such zone, day or time.
pub uninterp spec fn zone_time(
    zone: Seq<char>,
    day: i32,
    hour: u32,
    minute: u32,
) -> Option<(i64, u32)>;

/// Whether a point in time lies a day within the range, so that it has a local time in
/// every zone.
pub open spec fn has_local_time(t: Timestamp) -> bool {
    -8_334_601_142_400 <= t.secs <= 8_210_266_790_399
}

/// Whether a point in time has a local time in every zone.
pub fn is_local_everywhere(t: Timestamp) -> (r: bool)
    ensures
        r == has_local_time(t),
{
    -8_334_601_142_400 <= t.secs && t.secs <= 8_210_266_790_399
}

/// `DateTime::date_naive` of a point in time in a `chrono_tz::Tz`, as
/// `num_days_from_ce`. It depends on the arguments alone: the zones are those of the
/// crate.
#[verifier::external_body]
fn day_in_zone(zone: &str, now: Timestamp) -> (r: Option<i32>)
    requires
        has_local_time(now),
    ensures
        r == zone_day(zone@, now.secs, now.nanos),
{
    let tz: chrono_tz::Tz = zone.parse().ok()?;
    let here = chrono::DateTime::from_timestamp(now.secs, now.nanos)?.with_timezone(&tz);
    Some(chrono::Datelike::num_days_from_ce(&here.date_naive()))
}

/// `NaiveDateTime::and_local_timezone` and `single`, for a time of day on a day that
/// is counted as `num_days_from_ce` counts it. It depends on the arguments alone.
#[verifier::external_body]
fn time_in_zone(zone: &str, day: i32, hour: u32, minute: u32) -> (r: Option<Timestamp>)
    ensures
        r == (match zone_time(zone@, day, hour, minute) {
            Some(p) => Some(at(p)),
            None => None,
        }),
{
    let tz: chrono_tz::Tz = zone.parse().ok()?;
    let date = chrono::NaiveDate::from_num_days_from_ce_opt(day)?;
    let t = date.and_hms_opt(hour, minute, 0)?.and_local_timezone(tz).single()?;
    Some(Timestamp { secs: t.timestamp(), nanos: t.timestamp_subsec_nanos() })
}

/// The point in time at which the clocks of a zone show a time of day, so many days
/// after a day.
pub open spec fn run_on(
    zone: Seq<char>,
    today: Option<i32>,
    later: int,
    hour: u32,
    minute: u32,
) -> Option<Timestamp> {
    match today {
        Some(d) => if d + later <= i32::MAX {
            match zone_time(zone, (d + later) as i32, hour, minute) {
                Some(p) => Some(at(p)),
                None => None,
            }
        } else {
            None
        },
        None => None,
    }
}

/// The next run at a time of day: today's, where it is still to come, else
/// tomorrow's, else now.
pub open spec fn next_run(
    today: Option<Timestamp>,
    tomorrow: Option<Timestamp>,
    now: Timestamp,
) -> Timestamp {
    match today {
        Some(t) => if earlier(now, t) {
            t
        } else {
            match tomorrow {
                Some(u) => u,
                None => now,
            }
        },
        None => match tomorrow {
            Some(u) => u,
            None => now,
        },
    }
}

/// Chooses the next run at a time of day.
pub fn choose_run(today: Option<Timestamp>, tomorrow: Option<Timestamp>, now: Timestamp) -> (r:
    Timestamp)
    ensures
        r == next_run(today, tomorrow, now),
{
    if let Some(t) = today {
        if is_earlier(now, t) {
            return t;
        }
    }
    match tomorrow {
        Some(u) => u,
        None => now,
    }
}

/// The next run at a time of day in a zone.
pub fn next_daily(zone: &str, now: Timestamp, hour: u32, minute: u32) -> (r: Timestamp)
    requires
        has_local_time(now),
    ensures
        ({
            let day = zone_day(zone@, now.secs, now.nanos);
            r == next_run(
                run_on(zone@, day, 0, hour, minute),
                run_on(zone@, day, 1, hour, minute),
                now,
            )
        }),
{
    let day: i32 = match day_in_zone(zone, now) {
        Some(d) => d,
        None => return choose_run(None, None, now),
    };
    let today = time_in_zone(zone, day, hour, minute);
    let tomorrow = match day.checked_add(1) {
        Some(next) => time_in_zone(zone, next, hour, minute),
        None => None,
    };
    choose_run(today, tomorrow, now)
}

/// What the scheduler keeps: the next run, and how many bytes there were at the
/// last one.
#[derive(Debug, Clone, Copy)]
pub struct BackupPlan {
    pub next: Option<Timestamp>,
    pub last_bytes: u64,
}

impl BackupPlan {
    /// Nothing is planned yet.
    pub fn new() -> (r: BackupPlan)
        ensures
            r.next is None,
            r.last_bytes == 0,
    {
        BackupPlan { next: None, last_bytes: 0 }
    }

    /// Whether a daily backup is due, where the next run is a given one unless one is
    /// planned already. Once it is due, the next one is to be planned anew.
    pub fn daily_due(&mut self, planned: Timestamp, now: Timestamp) -> (due: bool)
        ensures
            ({
                let next = match old(self).next {
                    Some(t) => t,
                    None => planned,
                };
                &&& due == !earlier(now, next)
                &&& final(self).next == if due {
                    None
                } else {
                    Some(next)
                }
            }),
            final(self).last_bytes == old(self).last_bytes,
    {
        let next = match self.next {
            Some(t) => t,
            None => planned,
        };
        if is_earlier(now, next) {
            self.next = Some(next);
            false
        } else {
            self.next = None;
            true
        }
    }

    /// Whether a backup by size is due: once so many bytes have been added.
    pub fn size_due(&mut self, bytes: u64, threshold: u64) -> (due: bool)
        ensures
            due == (bytes >= old(self).last_bytes + threshold || (bytes == u64::MAX
                && old(self).last_bytes + threshold > u64::MAX)),
            final(self).last_bytes == if due {
                bytes
            } else {
                old(self).last_bytes
            },
            final(self).next == old(self).next,
    {
        let least: u64 = match self.last_bytes.checked_add(threshold) {
            Some(n) => n,
            None => u64::MAX,
        };
        if bytes >= least {
            self.last_bytes = bytes;
            true
        } else {
            false
        }
    }
}

/// A run is never planned into the past: at the time of planning it is still to
/// come, or it is due at once.
pub proof fn law_runs_are_planned_ahead(
    today: Option<Timestamp>,
    tomorrow: Option<Timestamp>,
    now: Timestamp,
)
    requires
        tomorrow matches Some(t) ==> earlier(now, t),
    ensures
        earlier(now, next_run(today, tomorrow, now)) || next_run(today, tomorrow, now) == now,
{
}

// ---------------------------------------------------------------------
// Starting
// ---------------------------------------------------------------------
/// What is done with the directory that a backup is restored into.
#[derive(Debug, Clone, Copy, PartialEq, Eq, Structural)]
pub enum RestoreStep {
    /// It is made.
    Create,
    /// It is used as it is.
    Use,
    /// What is in it is removed.
    Wipe,
    /// Nothing, since something is in it.
    Refuse,
}

/// Decides what is done with the directory that a backup is restored into.
pub fn restore_step(exists: bool, empty: bool, force: bool) -> (r: RestoreStep)
    ensures
        r == (if !exists {
            RestoreStep::Create
        } else if empty {
            RestoreStep::Use
        } else if force {
            RestoreStep::Wipe
        } else {
            RestoreStep::Refuse
        }),
{
    if !exists {
        RestoreStep::Create
    } else if empty {
        RestoreStep::Use
    } else if force {
        RestoreStep::Wipe
    } else {
        RestoreStep::Refuse
    }
}

/// What is said of a directory that is not restored into.
pub fn restore_refusal(dir: &str) -> (r: String)
    ensures
        r@ == "restore target "@ + dir@
            + " is not empty; use --restore-force-wipe to clear it"@,
{
    cat3("restore target ", dir, " is not empty; use --restore-force-wipe to clear it")
}

/// Whether a first key is to be made: where there is none, and none is set.
pub fn needs_bootstrap(no_keys: bool, http_api_key: &str) -> (r: bool)
    ensures
        r == (no_keys && trim(http_api_key@).len() == 0),
{
    let t = trimmed(http_api_key);
    no_keys && t.as_str().is_empty()
}

/// The key that is set, unless it is blank.
pub fn static_key(http_api_key: &str) -> (r: Option<String>)
    ensures
        opt_text(r) == (if trim(http_api_key@).len() == 0 {
            None
        } else {
            Some(http_api_key@)
        }),
{
    let t = trimmed(http_api_key);
    if t.as_str().is_empty() {
        None
    } else {
        Some(http_api_key.to_owned())
    }
}

/// The token of the event collector, unless it is blank.
pub fn hec_token(cfg: &SplunkHecIngestConfig) -> (r: Option<String>)
    ensures
        opt_text(r) == (if trim(cfg.token@).len() == 0 {
            None
        } else {
            Some(trim(cfg.token@))
        }),
{
    let t = trimmed(cfg.token.as_str());
    if t.as_str().is_empty() {
        None
    } else {
        Some(t)
    }
}

/// The address that a listener binds to, unless it is blank.
pub fn bind_address(bind: &str) -> (r: Option<&str>)
    ensures
        match r {
            Some(b) => trim(bind@).len() > 0 && b@ == bind@,
            None => trim(bind@).len() == 0,
        },
{
    let t = trimmed(bind);
    if t.as_str().is_empty() {
        None
    } else {
        Some(bind)
    }
}

/// Whether nothing more is taken, by the size of the write-ahead log.
pub fn over_cap(bytes: u64, cap: u64) -> (r: bool)
    ensures
        r == (bytes >= cap),
{
    bytes >= cap
}

} // verus!

//! Points in time, as seconds and nanoseconds since the Unix epoch. Calendar text
//! is `chrono`'s work.
use vstd::prelude::*;
use vstd::string::*;

verus! {

/// A point in time, UTC.
#[derive(Debug, Clone, Copy, PartialEq, Eq, Structural)]
pub struct Timestamp {
    /// Whole seconds since 1970-01-01T00:00:00Z.
    pub secs: i64,
    /// Nanoseconds past the second. A leap second counts on from a billion.
    pub nanos: u32,
}

/// Whether seconds and nanoseconds make a point in time: the years -262143 to
/// 262142, and a nanosecond within its second. Only the last second of a minute
/// can be a leap second.
pub open spec fn in_range(secs: int, nanos: int) -> bool {
    &&& -8_334_601_228_800 <= secs <= 8_210_266_876_799
    &&& 0 <= nanos < 1_000_000_000 || (nanos < 2_000_000_000 && secs % 60 == 59)
}

impl Timestamp {
    /// The point in time, where seconds and nanoseconds make one.
    pub fn new(secs: i64, nanos: u32) -> (r: Option<Timestamp>)
        ensures
            r == (if in_range(secs as int, nanos as int) {
                Some(Timestamp { secs, nanos })
            } else {
                None
            }),
    {
        if secs < -8_334_601_228_800 || secs > 8_210_266_876_799 || nanos >= 2_000_000_000 {
            return None;
        }
        if nanos >= 1_000_000_000 {
            // Seconds past the minute, counted up from the first representable minute.
            let past: u64 = (secs + 8_334_601_228_800) as u64;
            assert((secs + 8_334_601_228_800) % 60 == secs as int % 60);
            if past % 60 != 59 {
                return None;
            }
        }
        Some(Timestamp { secs, nanos })
    }
}

/// Where the window of a number of seconds up to `now` starts, if that is a point in
/// time.
pub open spec fn start_of_window(now: Timestamp, window: int) -> Option<Timestamp> {
    if window <= 9_223_372_036_854_775 && in_range(now.secs - window, now.nanos as int) {
        Some(Timestamp { secs: (now.secs - window) as i64, nanos: now.nanos })
    } else {
        None
    }
}

/// The start of a trailing window, if it is a point in time.
pub fn window_start(now: Timestamp, window: i64) -> (r: Option<Timestamp>)
    ensures
        r == start_of_window(now, window as int),
{
    if window > 9_223_372_036_854_775 {
        return None;
    }
    match now.secs.checked_sub(window) {
        Some(secs) => Timestamp::new(secs, now.nanos),
        None => None,
    }
}

/// The text of a point in time in the form of RFC 3339.
pub uninterp spec fn rfc3339_text(secs: i64, nanos: u32) -> Seq<char>;

/// The point in time that a text in the form of RFC 3339 names.
pub uninterp spec fn rfc3339_read(text: Seq<char>) -> Option<(i64, u32)>;

/// The point in time that a text in a given form names, read as UTC.
pub uninterp spec fn naive_read(text: Seq<char>, form: Seq<char>) -> Option<(i64, u32)>;

/// Seconds and nanoseconds as a point in time.
pub open spec fn at(p: (i64, u32)) -> Timestamp {
    Timestamp { secs: p.0, nanos: p.1 }
}

/// Whether a text is what is written for a point in time whose year has four digits.
pub open spec fn is_stamp(text: Seq<char>, t: Timestamp) -> bool {
    &&& -62_167_219_200 <= t.secs <= 253_402_300_799
    &&& t.nanos < 1_000_000_000
    &&& text == rfc3339_text(t.secs, t.nanos)
}

/// `chrono::DateTime::<Utc>::to_rfc3339`. The text depends on the point in time
/// alone. Seconds and nanoseconds that `chrono` does not take give the empty text.
#[verifier::external_body]
pub(crate) fn to_rfc3339(t: Timestamp) -> (r: String)
    ensures
        r@ == rfc3339_text(t.secs, t.nanos),
{
    chrono::DateTime::from_timestamp(t.secs, t.nanos).map(|d| d.to_rfc3339()).unwrap_or_default()
}

/// `chrono::DateTime::parse_from_rfc3339`, turned to UTC. It depends on the text
/// alone, and gives back the point in time for which `to_rfc3339` wrote the text,
/// where the year had four digits and the second was no leap second.
#[verifier::external_body]
pub(crate) fn read_rfc3339(text: &str) -> (r: Option<Timestamp>)
    ensures
        r == (match rfc3339_read(text@) {
            Some(p) => Some(at(p)),
            None => None,
        }),
        forall|t: Timestamp| #[trigger] is_stamp(text@, t) ==> r == Some(t),
{
    let d = chrono::DateTime::parse_from_rfc3339(text).ok()?;
    Some(Timestamp { secs: d.timestamp(), nanos: d.timestamp_subsec_nanos() })
}

/// `chrono::NaiveDateTime::parse_from_str`, taken as UTC.
#[verifier::external_body]
pub(crate) fn read_naive(text: &str, form: &str) -> (r: Option<Timestamp>)
    ensures
        r == (match naive_read(text@, form@) {
            Some(p) => Some(at(p)),
            None => None,
        }),
{
    let d = chrono::NaiveDateTime::parse_from_str(text, form).ok()?.and_utc();
    Some(Timestamp { secs: d.timestamp(), nanos: d.timestamp_subsec_nanos() })
}

} // verus!

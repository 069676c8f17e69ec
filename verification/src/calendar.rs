//! The Gregorian calendar, and points in time written in it.
use vstd::prelude::*;
use vstd::string::*;

use crate::text::{cat3, chars_of, dec, dec_of};

verus! {

/// Whether a year has a leap day.
pub open spec fn is_leap(y: int) -> bool {
    y % 4 == 0 && (y % 100 != 0 || y % 400 == 0)
}

/// How many days a month has.
pub open spec fn month_len(y: int, m: int) -> int {
    if m == 2 {
        if is_leap(y) {
            29
        } else {
            28
        }
    } else if m == 4 || m == 6 || m == 9 || m == 11 {
        30
    } else {
        31
    }
}

/// Whether year, month and day are a date.
pub open spec fn is_date(y: int, m: int, d: int) -> bool {
    1 <= m <= 12 && 1 <= d <= month_len(y, m)
}

/// How many days the years before one have, counted from year zero, where a year
/// starts in March.
pub open spec fn days_before_year(y: int) -> int {
    365 * y + y / 4 - y / 100 + y / 400
}

/// How many days the months before one have, in a year that starts in March.
pub open spec fn days_before_month(m: int) -> int {
    if m == 3 {
        0
    } else if m == 4 {
        31
    } else if m == 5 {
        61
    } else if m == 6 {
        92
    } else if m == 7 {
        122
    } else if m == 8 {
        153
    } else if m == 9 {
        184
    } else if m == 10 {
        214
    } else if m == 11 {
        245
    } else if m == 12 {
        275
    } else if m == 1 {
        306
    } else {
        337
    }
}

/// How many days a date lies after the first of January 1970.
pub open spec fn day_number(y: int, m: int, d: int) -> int {
    days_before_year(
        if m <= 2 {
            y - 1
        } else {
            y
        },
    ) + days_before_month(m) + d - 1 - 719_468
}

/// The date after a date.
pub open spec fn next_date(y: int, m: int, d: int) -> (int, int, int) {
    if d < month_len(y, m) {
        (y, m, d + 1)
    } else if m < 12 {
        (y, m + 1, 1)
    } else {
        (y + 1, 1, 1)
    }
}

/// Days are counted one by one: from a date to the next one it is a day, and the
/// count starts with the first of January 1970.
pub proof fn law_days_are_counted_one_by_one(y: int, m: int, d: int)
    requires
        y >= 1,
        is_date(y, m, d),
    ensures
        day_number(1970, 1, 1) == 0,
        ({
            let (y1, m1, d1) = next_date(y, m, d);
            is_date(y1, m1, d1) && day_number(y1, m1, d1) == day_number(y, m, d) + 1
        }),
{
    // A year that starts in March ends with February of the next one.
    lemma_year_len(y - 1);
}

/// How many days a year has that starts in March.
proof fn lemma_year_len(y: int)
    requires
        y >= 0,
    ensures
        days_before_year(y + 1) - days_before_year(y) == 337 + month_len(y + 1, 2),
{
    let q = y / 400;
    let r = y % 400;
    assert(y == 400 * q + r);
    assert(y / 4 == 100 * q + r / 4);
    assert(y / 100 == 4 * q + r / 100);
    assert((y + 1) / 4 == 100 * q + (r + 1) / 4);
    assert((y + 1) / 100 == 4 * q + (r + 1) / 100);
    assert((y + 1) / 400 == q + (r + 1) / 400);
    assert((y + 1) % 4 == (r + 1) % 4);
    assert((y + 1) % 100 == (r + 1) % 100);
    assert((y + 1) % 400 == (r + 1) % 400);
}

/// A date.
#[derive(Debug, Clone, Copy)]
pub struct Date {
    pub year: u64,
    pub month: u64,
    pub day: u64,
}

/// The date that lies some days after the first of January 1970.
pub fn date_of(days: u64) -> (r: Date)
    requires
        days <= 0x1_0000_0000_0000,
    ensures
        is_date(r.year as int, r.month as int, r.day as int),
        day_number(r.year as int, r.month as int, r.day as int) == days,
        r.year >= 1970,
{
    let z: u64 = days + 719_468;
    let era: u64 = z / 146_097;
    let doe: u64 = z % 146_097;
    let century: u64 = if doe / 36_524 < 4 {
        doe / 36_524
    } else {
        3
    };
    let doc: u64 = doe - century * 36_524;
    let quad: u64 = doc / 1461;
    let doq: u64 = doc - quad * 1461;
    let single: u64 = if doq / 365 < 4 {
        doq / 365
    } else {
        3
    };
    let doy: u64 = doq - single * 365;
    let y: u64 = era * 400 + century * 100 + quad * 4 + single;
    proof {
        assert(quad <= 24);
        lemma_year_start(era as int, century as int, quad as int, single as int);
        assert(z == days_before_year(y as int) + doy);
        if single == 3 {
            lemma_leap(era as int, century as int, quad as int, single as int);
        }
        assert(doy <= 365);
        assert(doy == 365 ==> is_leap(y + 1));
    }
    let mp: u64 = (5 * doy + 2) / 153;
    let day: u64 = doy - (153 * mp + 2) / 5 + 1;
    let month: u64 = if mp < 10 {
        mp + 3
    } else {
        mp - 9
    };
    let year: u64 = if month <= 2 {
        y + 1
    } else {
        y
    };
    proof {
        assert(0 <= mp <= 11);
        assert((153 * mp + 2) / 5 == days_before_month(month as int));
        assert(year >= 1970) by {
            lemma_years_grow(y as int);
        }
    }
    Date { year, month, day }
}

/// Up to the end of 1968 there were fewer days than up to 1970.
proof fn lemma_years_grow(y: int)
    requires
        y >= 0,
    ensures
        y <= 1968 ==> days_before_year(y) + 365 < 719_468,
        y == 1969 ==> days_before_year(y) + 305 < 719_468,
{
}

proof fn lemma_year_start(a: int, b: int, c: int, d: int)
    requires
        a >= 0,
        0 <= b <= 3,
        0 <= c <= 24,
        0 <= d <= 3,
    ensures
        days_before_year(400 * a + 100 * b + 4 * c + d) == 146_097 * a + 36_524 * b + 1461 * c
            + 365 * d,
{
    let y = 400 * a + 100 * b + 4 * c + d;
    assert(y / 4 == 100 * a + 25 * b + c);
    assert(y / 100 == 4 * a + b);
    assert(y / 400 == a);
}

proof fn lemma_leap(a: int, b: int, c: int, d: int)
    requires
        a >= 0,
        0 <= b <= 3,
        0 <= c <= 24,
        d == 3,
    ensures
        ({
            let y = 400 * a + 100 * b + 4 * c + d;
            is_leap(y + 1) <==> c < 24 || b == 3
        }),
{
    let y = 400 * a + 100 * b + 4 * c + d;
    assert((y + 1) % 4 == 0);
    if c < 24 {
        assert((y + 1) % 100 == 4 * c + 4);
    } else {
        assert(y + 1 == 400 * a + 100 * (b + 1));
        assert((y + 1) % 100 == 0);
        if b == 3 {
            assert((y + 1) % 400 == 0);
        } else {
            assert((y + 1) % 400 == 100 * (b + 1));
        }
    }
}

// ---------------------------------------------------------------------
// Texts
// ---------------------------------------------------------------------
/// A number in decimal, with zeros in front up to a length.
pub open spec fn padded(n: nat, len: nat) -> Seq<char> {
    if dec(n).len() >= len {
        dec(n)
    } else {
        Seq::new((len - dec(n).len()) as nat, |i: int| '0') + dec(n)
    }
}

fn pad(n: u64, len: usize) -> (r: String)
    ensures
        r@ == padded(n as nat, len as nat),
{
    let digits = dec_of(n);
    let v = chars_of(digits.as_str());
    let have: usize = v.len();
    if have >= len {
        return digits;
    }
    let mut out = String::new();
    let mut i: usize = have;
    while i < len
        invariant
            have <= i <= len,
            out@ == Seq::new((i - have) as nat, |k: int| '0'),
        decreases len - i,
    {
        out.push('0');
        assert(out@ =~= Seq::new((i + 1 - have) as nat, |k: int| '0'));
        i = i + 1;
    }
    out.append(digits.as_str());
    out
}

/// Whether a text is that of a point in time, by its date and its time of day.
pub open spec fn is_utc_text(text: Seq<char>, secs: u64, y: int, m: int, d: int) -> bool {
    let rem = secs as int % 86_400;
    &&& is_date(y, m, d)
    &&& day_number(y, m, d) == secs as int / 86_400
    &&& text == padded(y as nat, 4) + "-"@ + padded(m as nat, 2) + "-"@ + padded(d as nat, 2)
        + "T"@ + padded((rem / 3600) as nat, 2) + ":"@ + padded((rem % 3600 / 60) as nat, 2)
        + ":"@ + padded((rem % 60) as nat, 2) + "Z"@
}

/// A point in time in the form of RFC 3339, by its seconds since the first of
/// January 1970.
pub fn format_utc(secs: u64) -> (r: String)
    ensures
        exists|y: int, m: int, d: int| #[trigger] is_utc_text(r@, secs, y, m, d),
{
    let date = date_of(secs / 86_400);
    let rem: u64 = secs % 86_400;
    let y = pad(date.year, 4);
    let m = pad(date.month, 2);
    let d = pad(date.day, 2);
    let hour = pad(rem / 3600, 2);
    let minute = pad((rem % 3600) / 60, 2);
    let second = pad(rem % 60, 2);
    let mut s = cat3(y.as_str(), "-", m.as_str());
    s.append("-");
    s.append(d.as_str());
    s.append("T");
    s.append(hour.as_str());
    s.append(":");
    s.append(minute.as_str());
    s.append(":");
    s.append(second.as_str());
    s.append("Z");
    assert(is_utc_text(s@, secs, date.year as int, date.month as int, date.day as int));
    s
}

/// No two dates lie the same number of days after the first of January 1970: the
/// text of a point in time is the only one.
pub proof fn law_dates_are_told_apart(y: int, m: int, d: int, y1: int, m1: int, d1: int)
    requires
        y >= 1,
        y1 >= 1,
        is_date(y, m, d),
        is_date(y1, m1, d1),
        day_number(y, m, d) == day_number(y1, m1, d1),
    ensures
        y == y1 && m == m1 && d == d1,
{
    let a = if m <= 2 {
        y - 1
    } else {
        y
    };
    let b = if m1 <= 2 {
        y1 - 1
    } else {
        y1
    };
    lemma_year_len(a);
    lemma_year_len(b);
    if a < b {
        lemma_years_follow(a + 1, b);
    } else if b < a {
        lemma_years_follow(b + 1, a);
    }
}

proof fn lemma_years_follow(a: int, b: int)
    requires
        0 <= a <= b,
    ensures
        days_before_year(a) <= days_before_year(b),
    decreases b - a,
{
    if a < b {
        lemma_year_len(b - 1);
        lemma_years_follow(a, b - 1);
    }
}

} // verus!

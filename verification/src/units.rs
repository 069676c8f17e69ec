//! Sizes, durations and schedules as they are written in a configuration.
use vstd::prelude::*;
use vstd::string::*;

use crate::error::{Error, ErrorV};
use crate::float::{
    exponent, float_bits, is_finite, is_negative, lemma_rounded_bound, mantissa, parts_of,
    read_float, round_to_double, rounded, saturated, scale, scaled,
};
use crate::text::{
    after_prefix, begins, cat3, cat5, char_is_alpha, char_is_digit, chars_of, ends, find_by,
    float_text_ok, is_alpha, is_digit, is_float_text, lemma_find_by, lower, parse_u64,
    parse_u64_text, same, starts_with, string_between, strip_prefix, to_lower, trim, trimmed,
    unsigned, unsigned_text,
};

verus! {

// ---------------------------------------------------------------------
// Sizes
// ---------------------------------------------------------------------
/// A text without one character.
pub open spec fn without_char(s: Seq<char>, c: char) -> Seq<char>
    decreases s.len(),
{
    if s.len() == 0 {
        Seq::empty()
    } else if s.last() == c {
        without_char(s.drop_last(), c)
    } else {
        without_char(s.drop_last(), c).push(s.last())
    }
}

fn strip_char(v: &[char], c: char) -> (r: Vec<char>)
    ensures
        r@ == without_char(v@, c),
{
    let mut out: Vec<char> = Vec::new();
    for i in 0..v.len()
        invariant
            out@ == without_char(v@.take(i as int), c),
    {
        assert(v@.take(i + 1).drop_last() == v@.take(i as int));
        if v[i] != c {
            out.push(v[i]);
        }
    }
    assert(v@.take(v@.len() as int) == v@);
    out
}

/// The class of what is neither a digit nor a point.
pub open spec fn unit_class() -> spec_fn(char) -> bool {
    |c: char| !(is_digit(c) || c == '.')
}

/// How many bytes a unit stands for.
pub open spec fn size_unit(u: Seq<char>) -> Option<nat> {
    if u.len() == 0 || u == "b"@ {
        Some(1)
    } else if u == "kb"@ {
        Some(1_000)
    } else if u == "mb"@ {
        Some(1_000_000)
    } else if u == "gb"@ {
        Some(1_000_000_000)
    } else if u == "tb"@ {
        Some(1_000_000_000_000)
    } else if u == "kib"@ {
        Some(1024)
    } else if u == "mib"@ {
        Some(1_048_576)
    } else if u == "gib"@ {
        Some(1_073_741_824)
    } else if u == "tib"@ {
        Some(1_099_511_627_776)
    } else {
        None
    }
}

fn size_unit_of(u: &str) -> (r: Option<u64>)
    ensures
        match r {
            Some(n) => size_unit(u@) == Some(n as nat) && n <= 1_099_511_627_776,
            None => size_unit(u@) is None,
        },
{
    if u.is_empty() || same(u, "b") {
        Some(1)
    } else if same(u, "kb") {
        Some(1_000)
    } else if same(u, "mb") {
        Some(1_000_000)
    } else if same(u, "gb") {
        Some(1_000_000_000)
    } else if same(u, "tb") {
        Some(1_000_000_000_000)
    } else if same(u, "kib") {
        Some(1024)
    } else if same(u, "mib") {
        Some(1_048_576)
    } else if same(u, "gib") {
        Some(1_073_741_824)
    } else if same(u, "tib") {
        Some(1_099_511_627_776)
    } else {
        None
    }
}

/// Whether a number that a text spells is above zero. Without a bit pattern it is
/// too large to have one, or no number.
pub open spec fn positive(bits: Option<u64>) -> bool {
    match bits {
        Some(b) => !is_negative(b) && mantissa(b) > 0,
        None => true,
    }
}

/// The whole part of a number times a unit, the product rounded to a double
/// first, within the range.
pub open spec fn times(bits: Option<u64>, unit: nat) -> u64 {
    match bits {
        Some(b) => saturated(scaled(rounded(mantissa(b) * unit), exponent(b))),
        None => u64::MAX,
    }
}

/// The digits and the unit of a size text, in lower case and without blanks.
pub open spec fn size_parts(s: Seq<char>) -> (Seq<char>, Seq<char>) {
    let t = without_char(lower(trim(s)), ' ');
    let k = find_by(t, unit_class());
    (t.subrange(0, k), t.subrange(k, t.len() as int))
}

/// The number of bytes that a text such as `10GB`, `500MiB` or `1024` stands for.
pub open spec fn size_of(s: Seq<char>) -> Result<u64, ErrorV> {
    let (digits, unit) = size_parts(s);
    if !is_float_text(digits) {
        Err(ErrorV::Config("bad size number in '"@ + s + "'"@))
    } else {
        match size_unit(unit) {
            None => Err(
                ErrorV::Config(
                    "unknown size unit '"@ + unit + "' in '"@ + s
                        + "' (use B/KB/MB/GB/TB or KiB/MiB/GiB/TiB)"@,
                ),
            ),
            Some(n) => if positive(float_bits(digits)) {
                Ok(times(float_bits(digits), n))
            } else {
                Err(ErrorV::Config("size '"@ + s + "' must be positive"@))
            },
        }
    }
}

fn is_positive(bits: Option<u64>) -> (r: bool)
    requires
        bits matches Some(b) ==> is_finite(b),
    ensures
        r == positive(bits),
{
    match bits {
        Some(b) => match parts_of(b) {
            Some(p) => !p.negative && p.mantissa > 0,
            None => false,
        },
        None => true,
    }
}

fn multiply(bits: Option<u64>, unit: u64) -> (r: u64)
    requires
        bits matches Some(b) ==> is_finite(b),
        unit <= 1_099_511_627_776,
    ensures
        r == times(bits, unit as nat),
{
    match bits {
        Some(b) => match parts_of(b) {
            Some(p) => {
                let m: u64 = p.mantissa;
                assert(m * unit < 0x20_0000_0000_0000 * 0x200_0000_0000) by (nonlinear_arith)
                    requires
                        m < 0x20_0000_0000_0000,
                        unit <= 1_099_511_627_776,
                ;
                let product: u128 = m as u128 * unit as u128;
                scale(round_to_double(product), p.exponent)
            },
            None => 0,
        },
        None => u64::MAX,
    }
}

/// Reads a byte size.
pub fn parse_size(s: &str) -> (r: Result<u64, Error>)
    ensures
        match r {
            Ok(n) => size_of(s@) == Ok::<u64, ErrorV>(n),
            Err(e) => size_of(s@) == Err::<u64, ErrorV>(e@),
        },
{
    let t = trimmed(s);
    let l = to_lower(t.as_str());
    let v = chars_of(l.as_str());
    let v = strip_char(v.as_slice(), ' ');
    let mut k: usize = 0;
    while k < v.len() && (char_is_digit(v[k]) || v[k] == '.')
        invariant
            k <= v@.len(),
            forall|i: int| 0 <= i < k ==> !unit_class()(#[trigger] v@[i]),
        decreases v@.len() - k,
    {
        k += 1;
    }
    proof {
        lemma_find_by(v@, unit_class(), k as int);
    }
    let digits = string_between(v.as_slice(), 0, k);
    let unit = string_between(v.as_slice(), k, v.len());
    if !float_text_ok(digits.as_str()) {
        return Err(Error::config(cat3("bad size number in '", s, "'")));
    }
    let bits = read_float(digits.as_str());
    match size_unit_of(unit.as_str()) {
        None => Err(
            Error::config(
                cat5(
                    "unknown size unit '",
                    unit.as_str(),
                    "' in '",
                    s,
                    "' (use B/KB/MB/GB/TB or KiB/MiB/GiB/TiB)",
                ),
            ),
        ),
        Some(n) => if is_positive(bits) {
            Ok(multiply(bits, n))
        } else {
            Err(Error::config(cat3("size '", s, "' must be positive")))
        },
    }
}

// ---------------------------------------------------------------------
// Durations
// ---------------------------------------------------------------------
/// The class of ASCII letters.
pub open spec fn alpha_class() -> spec_fn(char) -> bool {
    |c: char| is_alpha(c)
}

/// How many seconds a unit stands for: one factor after the other.
pub open spec fn duration_unit(u: Seq<char>) -> Option<(nat, nat)> {
    if u == "s"@ || u == "sec"@ || u == "secs"@ {
        Some((1, 1))
    } else if u == "m"@ || u == "min"@ || u == "mins"@ {
        Some((60, 1))
    } else if u == "h"@ || u == "hr"@ || u == "hrs"@ || u == "hour"@ || u == "hours"@ {
        Some((3600, 1))
    } else if u == "d"@ || u == "day"@ || u == "days"@ {
        Some((86400, 1))
    } else if u == "mo"@ || u == "month"@ || u == "months"@ {
        Some((86400, 30))
    } else if u == "y"@ || u == "year"@ || u == "years"@ {
        Some((86400, 365))
    } else {
        None
    }
}

fn duration_unit_of(u: &str) -> (r: Option<(u64, u64)>)
    ensures
        match r {
            Some((a, b)) => duration_unit(u@) == Some((a as nat, b as nat)) && a <= 86400 && b
                <= 365,
            None => duration_unit(u@) is None,
        },
{
    if same(u, "s") || same(u, "sec") || same(u, "secs") {
        Some((1, 1))
    } else if same(u, "m") || same(u, "min") || same(u, "mins") {
        Some((60, 1))
    } else if same(u, "h") || same(u, "hr") || same(u, "hrs") || same(u, "hour") || same(
        u,
        "hours",
    ) {
        Some((3600, 1))
    } else if same(u, "d") || same(u, "day") || same(u, "days") {
        Some((86400, 1))
    } else if same(u, "mo") || same(u, "month") || same(u, "months") {
        Some((86400, 30))
    } else if same(u, "y") || same(u, "year") || same(u, "years") {
        Some((86400, 365))
    } else {
        None
    }
}

/// A number times two factors in turn, each product rounded to a double, as
/// whole seconds within the range of `i64`.
pub open spec fn seconds(bits: Option<u64>, a: nat, b: nat) -> i64 {
    let whole = match bits {
        Some(x) => saturated(scaled(rounded(rounded(mantissa(x) * a) * b), exponent(x))),
        None => u64::MAX,
    };
    if whole <= i64::MAX {
        whole as i64
    } else {
        i64::MAX
    }
}

/// The number of seconds that a text such as `45s`, `12h`, `30d`, `2mo` or `1y`
/// stands for.
pub open spec fn duration_of(s: Seq<char>) -> Result<i64, ErrorV> {
    let t = lower(trim(s));
    let k = find_by(t, alpha_class());
    if !(0 <= k < t.len()) {
        Err(ErrorV::Config("duration '"@ + s + "' needs a unit (s/m/h/d/mo/y)"@))
    } else {
        let number = trim(t.subrange(0, k));
        let unit = t.subrange(k, t.len() as int);
        if !is_float_text(number) {
            Err(ErrorV::Config("bad duration number in '"@ + s + "'"@))
        } else {
            match duration_unit(unit) {
                None => Err(
                    ErrorV::Config(
                        "unknown duration unit '"@ + unit + "' in '"@ + s
                            + "' (use s/m/h/d/mo/y)"@,
                    ),
                ),
                Some((a, b)) => if positive_signed(number) {
                    Ok(seconds(float_bits(number), a, b))
                } else {
                    Err(ErrorV::Config("duration '"@ + s + "' must be positive"@))
                },
            }
        }
    }
}

/// Whether the number that a text spells is above zero, though it may be too
/// large for a bit pattern.
pub open spec fn positive_signed(text: Seq<char>) -> bool {
    match float_bits(text) {
        Some(b) => !is_negative(b) && mantissa(b) > 0,
        None => !begins(text, "-"@) && lower(unsigned(text)) != "nan"@,
    }
}

pub(crate) fn spells_positive(text: &str, bits: Option<u64>) -> (r: bool)
    requires
        bits == float_bits(text@),
        bits matches Some(b) ==> is_finite(b),
    ensures
        r == positive_signed(text@),
{
    match bits {
        Some(b) => match parts_of(b) {
            Some(p) => !p.negative && p.mantissa > 0,
            None => false,
        },
        None => {
            let l = to_lower(unsigned_text(text).as_str());
            !starts_with(text, "-") && !same(l.as_str(), "nan")
        },
    }
}

fn to_seconds(bits: Option<u64>, a: u64, b: u64) -> (r: i64)
    requires
        bits matches Some(x) ==> is_finite(x),
        a <= 86400,
        b <= 365,
    ensures
        r == seconds(bits, a as nat, b as nat),
{
    let whole: u64 = match bits {
        Some(x) => match parts_of(x) {
            Some(p) => {
                let m: u64 = p.mantissa;
                assert(m * a <= 0x20_0000_0000_0000 * 86400) by (nonlinear_arith)
                    requires
                        m < 0x20_0000_0000_0000,
                        a <= 86400,
                ;
                let first: u128 = round_to_double(m as u128 * a as u128);
                proof {
                    lemma_rounded_bound((m * a) as nat);
                }
                assert(first * b <= 2 * 0x20_0000_0000_0000 * 86400 * 365) by (nonlinear_arith)
                    requires
                        first <= 2 * 0x20_0000_0000_0000 * 86400,
                        b <= 365,
                ;
                scale(round_to_double(first * b as u128), p.exponent)
            },
            None => 0,
        },
        None => u64::MAX,
    };
    if whole <= 0x7fff_ffff_ffff_ffff {
        whole as i64
    } else {
        i64::MAX
    }
}

/// Reads a duration, in seconds.
pub fn parse_duration(s: &str) -> (r: Result<i64, Error>)
    ensures
        match r {
            Ok(n) => duration_of(s@) == Ok::<i64, ErrorV>(n),
            Err(e) => duration_of(s@) == Err::<i64, ErrorV>(e@),
        },
{
    let t = trimmed(s);
    let l = to_lower(t.as_str());
    let v = chars_of(l.as_str());
    let mut k: usize = 0;
    while k < v.len() && !char_is_alpha(v[k])
        invariant
            k <= v@.len(),
            forall|i: int| 0 <= i < k ==> !alpha_class()(#[trigger] v@[i]),
        decreases v@.len() - k,
    {
        k += 1;
    }
    proof {
        lemma_find_by(v@, alpha_class(), k as int);
    }
    if k == v.len() {
        return Err(Error::config(cat3("duration '", s, "' needs a unit (s/m/h/d/mo/y)")));
    }
    let before = string_between(v.as_slice(), 0, k);
    let number = trimmed(before.as_str());
    let unit = string_between(v.as_slice(), k, v.len());
    if !float_text_ok(number.as_str()) {
        return Err(Error::config(cat3("bad duration number in '", s, "'")));
    }
    let bits = read_float(number.as_str());
    match duration_unit_of(unit.as_str()) {
        None => Err(
            Error::config(
                cat5(
                    "unknown duration unit '",
                    unit.as_str(),
                    "' in '",
                    s,
                    "' (use s/m/h/d/mo/y)",
                ),
            ),
        ),
        Some((a, b)) => if spells_positive(number.as_str(), bits) {
            Ok(to_seconds(bits, a, b))
        } else {
            Err(Error::config(cat3("duration '", s, "' must be positive")))
        },
    }
}

/// The number and the factor of a duration in whole seconds.
pub open spec fn plain_duration(s: Seq<char>) -> (Seq<char>, nat) {
    let t = lower(trim(s));
    if ends(t, "s"@) {
        (t.drop_last(), 1)
    } else if ends(t, "m"@) {
        (t.drop_last(), 60)
    } else if ends(t, "h"@) {
        (t.drop_last(), 3600)
    } else if ends(t, "d"@) {
        (t.drop_last(), 86400)
    } else {
        (t, 1)
    }
}

/// The number of seconds that a whole number, alone or with one of the letters
/// `s`, `m`, `h` and `d`, stands for.
pub open spec fn duration_secs_of(s: Seq<char>) -> Option<u64> {
    let (number, factor) = plain_duration(s);
    match parse_u64_text(trim(number)) {
        Some(n) => Some(saturated(n as nat * factor)),
        None => None,
    }
}

/// Reads a duration in whole seconds: a bare number, or `Ns`, `Nm`, `Nh`, `Nd`.
pub fn parse_duration_secs(s: &str) -> (r: Result<u64, String>)
    ensures
        match r {
            Ok(n) => duration_secs_of(s@) == Some(n),
            Err(m) => duration_secs_of(s@) is None && m@ == "bad duration '"@ + s@
                + "' (expected seconds or Ns/Nm/Nh/Nd)"@,
        },
{
    let t = trimmed(s);
    let l = to_lower(t.as_str());
    let v = chars_of(l.as_str());
    proof {
        reveal_strlit("s");
        reveal_strlit("m");
        reveal_strlit("h");
        reveal_strlit("d");
        let w = v@;
        if w.len() > 0 {
            let tail = w.subrange(w.len() - 1, w.len() as int);
            assert(tail =~= seq![w.last()]);
            assert((tail == "s"@) == (w.last() == 's')) by {
                assert("s"@ =~= seq!['s']);
                assert(tail[0] == w.last());
            }
            assert((tail == "m"@) == (w.last() == 'm')) by {
                assert("m"@ =~= seq!['m']);
                assert(tail[0] == w.last());
            }
            assert((tail == "h"@) == (w.last() == 'h')) by {
                assert("h"@ =~= seq!['h']);
                assert(tail[0] == w.last());
            }
            assert((tail == "d"@) == (w.last() == 'd')) by {
                assert("d"@ =~= seq!['d']);
                assert(tail[0] == w.last());
            }
            assert(w.subrange(0, w.len() - 1) =~= w.drop_last());
        }
    }
    let n: usize = v.len();
    let factor: u64 = if n == 0 {
        0
    } else if v[n - 1] == 's' {
        1
    } else if v[n - 1] == 'm' {
        60
    } else if v[n - 1] == 'h' {
        3600
    } else if v[n - 1] == 'd' {
        86400
    } else {
        0
    };
    let number = if factor == 0 {
        l
    } else {
        string_between(v.as_slice(), 0, n - 1)
    };
    let factor: u64 = if factor == 0 {
        1
    } else {
        factor
    };
    let digits = trimmed(number.as_str());
    match parse_u64(digits.as_str()) {
        Some(x) => {
            assert(x * factor <= u64::MAX * 86400) by (nonlinear_arith)
                requires
                    x <= u64::MAX,
                    factor <= 86400,
            ;
            let total: u128 = x as u128 * factor as u128;
            if total > 0xffff_ffff_ffff_ffff {
                Ok(u64::MAX)
            } else {
                Ok(total as u64)
            }
        },
        None => Err(cat3("bad duration '", s, "' (expected seconds or Ns/Nm/Nh/Nd)")),
    }
}

// ---------------------------------------------------------------------
// Schedules
// ---------------------------------------------------------------------
/// When a backup is made.
#[derive(Debug, Clone, Copy, PartialEq, Eq, Structural)]
pub enum Schedule {
    /// Every day at a local time.
    Daily { hour: u32, minute: u32 },
    /// Once so many bytes have been added.
    Size(u64),
}

/// The hour and minute that a text names, or the words in which it is refused.
pub uninterp spec fn clock_read(text: Seq<char>) -> Result<(u32, u32), Seq<char>>;

/// `chrono::NaiveTime::parse_from_str` with the form `%H:%M`: the hour and minute,
/// or the error's words. Both depend on the text alone.
#[verifier::external_body]
fn read_clock(text: &str) -> (r: Result<(u32, u32), String>)
    ensures
        match r {
            Ok(p) => clock_read(text@) == Ok::<(u32, u32), Seq<char>>(p),
            Err(m) => clock_read(text@) == Err::<(u32, u32), Seq<char>>(m@),
        },
{
    let t = chrono::NaiveTime::parse_from_str(text, "%H:%M").map_err(|e| e.to_string())?;
    Ok((chrono::Timelike::hour(&t), chrono::Timelike::minute(&t)))
}

/// The schedule that `daily@HH:MM` or `size:<N>` stands for.
pub open spec fn schedule_of(s: Seq<char>) -> Result<Schedule, ErrorV> {
    let t = trim(s);
    match after_prefix(t, "daily@"@) {
        Some(rest) => match clock_read(trim(rest)) {
            Ok((hour, minute)) => Ok(Schedule::Daily { hour, minute }),
            Err(m) => Err(ErrorV::Config("bad daily time in '"@ + s + "': "@ + m)),
        },
        None => match after_prefix(t, "size:"@) {
            Some(rest) => match size_of(rest) {
                Ok(n) => Ok(Schedule::Size(n)),
                Err(e) => Err(e),
            },
            None => Err(
                ErrorV::Config(
                    "backup.schedule must be 'daily@HH:MM' or 'size:<N>' (e.g. 'size:512MiB')"@,
                ),
            ),
        },
    }
}

/// Reads a schedule.
pub fn parse_schedule(s: &str) -> (r: Result<Schedule, Error>)
    ensures
        match r {
            Ok(x) => schedule_of(s@) == Ok::<Schedule, ErrorV>(x),
            Err(e) => schedule_of(s@) == Err::<Schedule, ErrorV>(e@),
        },
{
    let t = trimmed(s);
    match strip_prefix(t.as_str(), "daily@") {
        Some(rest) => {
            let clock = trimmed(rest.as_str());
            match read_clock(clock.as_str()) {
                Ok((hour, minute)) => Ok(Schedule::Daily { hour, minute }),
                Err(m) => {
                    let mut msg = cat3("bad daily time in '", s, "': ");
                    msg.append(m.as_str());
                    Err(Error::config(msg))
                },
            }
        },
        None => match strip_prefix(t.as_str(), "size:") {
            Some(rest) => match parse_size(rest.as_str()) {
                Ok(n) => Ok(Schedule::Size(n)),
                Err(e) => Err(e),
            },
            None => Err(
                Error::config(
                    "backup.schedule must be 'daily@HH:MM' or 'size:<N>' (e.g. 'size:512MiB')".to_owned(),
                ),
            ),
        },
    }
}

} // verus!

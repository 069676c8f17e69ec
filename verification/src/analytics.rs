//! Anomalies and forecasts: what is decided around the arithmetic. Numbers stand as
//! double-precision bit patterns.
use vstd::prelude::*;
use vstd::string::*;

use crate::double::{at_most_double, is_at_most};
use crate::error::{Error, ErrorV};
use crate::float::is_negative;
use crate::text::{cat3, dec, dec_of, join, join_with, texts};
use crate::time::{Timestamp, in_range};

verus! {

// ---------------------------------------------------------------------
// Anomalies
// ---------------------------------------------------------------------
/// How an anomaly was found.
#[derive(Debug, Clone, Copy, PartialEq, Eq, Structural)]
pub enum AnomalyMethod {
    Mad,
    Seasonal,
    RateOfChange,
}

impl AnomalyMethod {
    /// The name of the method.
    pub open spec fn name(self) -> Seq<char> {
        match self {
            AnomalyMethod::Mad => "mad"@,
            AnomalyMethod::Seasonal => "seasonal"@,
            AnomalyMethod::RateOfChange => "rate_of_change"@,
        }
    }

    /// The name of the method.
    pub fn as_str(&self) -> (r: &'static str)
        ensures
            r@ == self.name(),
    {
        match self {
            AnomalyMethod::Mad => "mad",
            AnomalyMethod::Seasonal => "seasonal",
            AnomalyMethod::RateOfChange => "rate_of_change",
        }
    }
}

/// An anomaly at a point in time.
#[derive(Debug, Clone)]
pub struct AnomalyResult {
    pub ts: Timestamp,
    pub metric: String,
    pub score: u64,
    pub method: AnomalyMethod,
    pub severity: String,
}

/// What an [`AnomalyResult`] says.
#[verifier::ext_equal]
pub struct AnomalyV {
    pub ts: Timestamp,
    pub metric: Seq<char>,
    pub score: u64,
    pub method: AnomalyMethod,
    pub severity: Seq<char>,
}

impl View for AnomalyResult {
    type V = AnomalyV;

    open spec fn view(&self) -> AnomalyV {
        AnomalyV {
            ts: self.ts,
            metric: self.metric@,
            score: self.score,
            method: self.method,
            severity: self.severity@,
        }
    }
}

/// What anomalies say.
pub open spec fn anomalies_view(v: Seq<AnomalyResult>) -> Seq<AnomalyV> {
    Seq::new(v.len(), |i: int| v[i]@)
}

/// A number without its sign.
pub open spec fn magnitude(bits: u64) -> u64 {
    if is_negative(bits) {
        (bits - 0x8000_0000_0000_0000) as u64
    } else {
        bits
    }
}

/// A number without its sign.
pub fn abs_bits(bits: u64) -> (r: u64)
    ensures
        r == magnitude(bits),
{
    if bits >= 0x8000_0000_0000_0000 {
        bits - 0x8000_0000_0000_0000
    } else {
        bits
    }
}

/// How severe an anomaly of a score is: critical from six on, high from four, medium
/// from three.
pub open spec fn severity_of(score: u64) -> Seq<char> {
    if at_most_double(0x4018_0000_0000_0000, score) {
        "critical"@
    } else if at_most_double(0x4010_0000_0000_0000, score) {
        "high"@
    } else if at_most_double(0x4008_0000_0000_0000, score) {
        "medium"@
    } else {
        "low"@
    }
}

/// How severe an anomaly of a score is.
pub fn severity_from_score(score: u64) -> (r: String)
    ensures
        r@ == severity_of(score),
{
    if is_at_most(0x4018_0000_0000_0000, score) {
        "critical".to_owned()
    } else if is_at_most(0x4010_0000_0000_0000, score) {
        "high".to_owned()
    } else if is_at_most(0x4008_0000_0000_0000, score) {
        "medium".to_owned()
    } else {
        "low".to_owned()
    }
}

/// The scores of a series at its last point: each where it could be computed, the
/// seasonal one only where it is out of the ordinary.
#[derive(Debug, Clone, Copy)]
pub struct Scores {
    pub mad: Option<u64>,
    pub rate_of_change: Option<u64>,
    pub seasonal: Option<u64>,
}

/// Anomalies, with one more where a score is there and large enough.
pub open spec fn with_score(
    done: Seq<AnomalyV>,
    score: Option<u64>,
    least: Option<u64>,
    method: AnomalyMethod,
    metric: Seq<char>,
    ts: Timestamp,
) -> Seq<AnomalyV> {
    match score {
        None => done,
        Some(s) => if least is None || at_most_double(least->0, magnitude(s)) {
            done.push(
                AnomalyV { ts, metric, score: s, method, severity: severity_of(magnitude(s)) },
            )
        } else {
            done
        },
    }
}

/// The anomalies that scores stand for. A series of fewer than five points has none.
pub open spec fn anomalies_of(
    points: nat,
    scores: Scores,
    least: u64,
    metric: Seq<char>,
    ts: Timestamp,
) -> Seq<AnomalyV> {
    if points < 5 {
        Seq::empty()
    } else {
        with_score(
            with_score(
                with_score(
                    Seq::empty(),
                    scores.mad,
                    Some(least),
                    AnomalyMethod::Mad,
                    metric,
                    ts,
                ),
                scores.rate_of_change,
                Some(least),
                AnomalyMethod::RateOfChange,
                metric,
                ts,
            ),
            scores.seasonal,
            None,
            AnomalyMethod::Seasonal,
            metric,
            ts,
        )
    }
}

fn add_score(
    out: &mut Vec<AnomalyResult>,
    score: Option<u64>,
    least: Option<u64>,
    method: AnomalyMethod,
    metric: &str,
    ts: Timestamp,
)
    ensures
        anomalies_view(final(out)@) == with_score(
            anomalies_view(old(out)@),
            score,
            least,
            method,
            metric@,
            ts,
        ),
{
    let ghost before = anomalies_view(out@);
    if let Some(s) = score {
        let large = abs_bits(s);
        let enough = match least {
            Some(l) => is_at_most(l, large),
            None => true,
        };
        if enough {
            let a = AnomalyResult {
                ts,
                metric: metric.to_owned(),
                score: s,
                method,
                severity: severity_from_score(large),
            };
            let ghost v = a@;
            out.push(a);
            assert(anomalies_view(out@) =~= before.push(v));
        }
    }
}

/// The anomalies that the scores of a series stand for.
pub fn judge_scores(points: usize, scores: Scores, least: u64, metric: &str, ts: Timestamp) -> (r:
    Vec<AnomalyResult>)
    ensures
        anomalies_view(r@) == anomalies_of(points as nat, scores, least, metric@, ts),
{
    let mut out: Vec<AnomalyResult> = Vec::new();
    assert(anomalies_view(out@) =~= Seq::<AnomalyV>::empty());
    if points < 5 {
        return out;
    }
    add_score(&mut out, scores.mad, Some(least), AnomalyMethod::Mad, metric, ts);
    add_score(
        &mut out,
        scores.rate_of_change,
        Some(least),
        AnomalyMethod::RateOfChange,
        metric,
        ts,
    );
    add_score(&mut out, scores.seasonal, None, AnomalyMethod::Seasonal, metric, ts);
    out
}

/// The place of the point a day before the last one, in a series of minutes that
/// covers two days.
pub fn day_before(points: usize) -> (r: Option<usize>)
    ensures
        r == (if points >= 2880 {
            Some((points - 1441) as usize)
        } else {
            None
        }),
{
    if points >= 2880 {
        Some(points - 1441)
    } else {
        None
    }
}

// ---------------------------------------------------------------------
// Forecasts
// ---------------------------------------------------------------------
/// How many points of a series make a day.
pub open spec fn points_per_day(interval: i64) -> int {
    86_400int / step_of(interval)
}

/// The seasons that a series covers at least twice: the day, and with it the week.
pub open spec fn seasons_of(points: nat, interval: i64) -> Seq<usize> {
    let day = points_per_day(interval);
    let week = day * 7;
    if day >= 2 && points >= 2 * day {
        if points >= 2 * week {
            seq![day as usize, week as usize]
        } else {
            seq![day as usize]
        }
    } else {
        Seq::empty()
    }
}

/// The seasons that a series covers at least twice, in points.
pub fn seasonal_periods(len: usize, interval_secs: i64) -> (r: Vec<usize>)
    ensures
        r@ == seasons_of(len as nat, interval_secs),
{
    let step: i64 = if interval_secs < 1 {
        1
    } else {
        interval_secs
    };
    let day: usize = (86_400 / step) as usize;
    let week: usize = day * 7;
    let mut out: Vec<usize> = Vec::new();
    if day >= 2 && len >= day * 2 {
        out.push(day);
        if len >= week * 2 {
            out.push(week);
        }
    }
    assert(out@ =~= seasons_of(len as nat, interval_secs));
    out
}

/// Why a forecast cannot be made.
pub open spec fn forecast_obstacle(points: nat, horizon: nat, level: u64) -> Option<Seq<char>> {
    if points < 4 {
        Some("need at least 4 observations to forecast"@)
    } else if horizon == 0 {
        Some("horizon must be > 0"@)
    } else if !(at_most_double(0, level) && at_most_double(level, 0x3ff0_0000_0000_0000)) {
        Some("level must be in [0, 1]"@)
    } else {
        None
    }
}

/// Checks whether a forecast can be made.
pub fn check_forecast(points: usize, horizon: usize, level: u64) -> (r: Result<(), Error>)
    ensures
        match forecast_obstacle(points as nat, horizon as nat, level) {
            Some(m) => r matches Err(e) && e@ == ErrorV::InvalidInput(m),
            None => r is Ok,
        },
{
    if points < 4 {
        return Err(
            Error::invalid_input("need at least 4 observations to forecast".to_owned()),
        );
    }
    if horizon == 0 {
        return Err(Error::invalid_input("horizon must be > 0".to_owned()));
    }
    if !(is_at_most(0, level) && is_at_most(level, 0x3ff0_0000_0000_0000)) {
        return Err(Error::invalid_input("level must be in [0, 1]".to_owned()));
    }
    Ok(())
}

/// Numbers in decimal.
pub open spec fn decimals(v: Seq<usize>) -> Seq<Seq<char>> {
    Seq::new(v.len(), |i: int| dec(v[i] as nat))
}

/// The name of the model that is used with some seasons.
pub fn model_name(periods: &Vec<usize>) -> (r: String)
    ensures
        r@ == (if periods@.len() == 0 {
            "ets(non-seasonal)"@
        } else {
            "mstl-ets(s=["@ + join(decimals(periods@), ","@) + "])"@
        }),
{
    if periods.len() == 0 {
        return "ets(non-seasonal)".to_owned();
    }
    let mut parts: Vec<String> = Vec::new();
    for i in 0..periods.len()
        invariant
            parts@.len() == i,
            forall|k: int| 0 <= k < i ==> (#[trigger] parts@[k])@ == dec(periods@[k] as nat),
    {
        parts.push(dec_of(periods[i] as u64));
    }
    assert(texts(parts@) =~= decimals(periods@));
    let seasons = join_with(parts.as_slice(), ",");
    cat3("mstl-ets(s=[", seasons.as_str(), "])")
}

/// The step of a series, at least a second.
pub open spec fn step_of(interval: i64) -> int {
    if interval < 1 {
        1
    } else {
        interval as int
    }
}

/// The seconds of a point of a forecast, counted from one.
pub open spec fn point_secs(start: Timestamp, interval: i64, k: int) -> int {
    start.secs + step_of(interval) * k
}

/// Whether a time is that of a point of a forecast.
pub open spec fn is_point(t: Timestamp, start: Timestamp, interval: i64, k: int) -> bool {
    &&& in_range(point_secs(start, interval, k), start.nanos as int)
    &&& t.secs == point_secs(start, interval, k)
    &&& t.nanos == start.nanos
}

/// The times of the points of a forecast, if all of them are points in time.
pub fn forecast_times(start: Timestamp, interval_secs: i64, points: usize) -> (r: Option<
    Vec<Timestamp>,
>)
    ensures
        match r {
            Some(v) => v@.len() == points && forall|i: int|
                0 <= i < points ==> is_point(#[trigger] v@[i], start, interval_secs, i + 1),
            None => exists|k: int|
                1 <= k <= points && !in_range(
                    #[trigger] point_secs(start, interval_secs, k),
                    start.nanos as int,
                ),
        },
{
    let mut out: Vec<Timestamp> = Vec::new();
    for i in 0..points
        invariant
            out@.len() == i,
            forall|k: int|
                0 <= k < i ==> is_point(#[trigger] out@[k], start, interval_secs, k + 1),
    {
        match point_time(start, interval_secs, i) {
            Some(t) => out.push(t),
            None => {
                assert(!in_range(point_secs(start, interval_secs, i + 1), start.nanos as int));
                return None;
            },
        }
    }
    Some(out)
}

fn point_time(start: Timestamp, interval_secs: i64, i: usize) -> (r: Option<Timestamp>)
    ensures
        match r {
            Some(t) => is_point(t, start, interval_secs, i + 1),
            None => !in_range(point_secs(start, interval_secs, i + 1), start.nanos as int),
        },
{
    let step: i64 = if interval_secs < 1 {
        1
    } else {
        interval_secs
    };
    let n: i128 = i as i128 + 1;
    proof {
        assert(0 <= step * n <= 0x7fff_ffff_ffff_ffff * 0x1_0000_0000_0000_0000)
            by (nonlinear_arith)
            requires
                1 <= step <= 0x7fff_ffff_ffff_ffff,
                1 <= n <= 0x1_0000_0000_0000_0000,
        ;
    }
    let ahead: i128 = step as i128 * n;
    let secs: i128 = start.secs as i128 + ahead;
    assert(secs == point_secs(start, interval_secs, i + 1));
    if secs > 0x7fff_ffff_ffff_ffff {
        return None;
    }
    Timestamp::new(secs as i64, start.nanos)
}

} // verus!

//! What tools, forecasts and backups mean.
use vstd::prelude::*;
use vstd::utf8::encode_utf8;

use crate::analytics::{
    AnomalyMethod, AnomalyV, Scores, anomalies_of, decimals, forecast_obstacle, is_point,
    magnitude, point_secs, seasons_of, severity_of, step_of, with_score,
};
use crate::backup::{next_run, run_on, zone_time};
use crate::calendar::{day_number, is_utc_text, month_len, padded};
use crate::client::{escaped, field_text};
use crate::dashboard::{mentioned, starter, starter_panels};
use crate::error::{ErrorV, error_text};
use crate::float::fixed_text;
use crate::hot::HotType;
use crate::ingest::enrich::enriched;
use crate::ingest::field_laws::says;
use crate::ingest::worker::passed;
use crate::json::{JsonV, double_value};
use crate::mcp::{
    QueryLogsParams, bare_condition, figures, hints_of, horizon_hours, horizon_number,
    horizon_points, horizon_unit, row_conditions, row_limit, row_question,
};
use crate::query::{FilterFault, Op, fault_text};
use crate::row::RowV;
use crate::text::{dec, dec_int, ends, fitting_prefix, join, lower, opt_text, split};
use crate::time::{Timestamp, rfc3339_text};

verus! {

/// A call gets at least one row and at most a thousand, and else as many as it asks for.
pub proof fn law_row_limits(limit: i64)
    ensures
        limit < 1 ==> row_limit(limit) == 1,
        1 <= limit <= 1000 ==> row_limit(limit) == limit,
        limit > 1000 ==> row_limit(limit) == 1000,
{
}

/// A call asks for the newest rows that meet its condition, within its times.
pub proof fn law_rows_are_asked_for(p: QueryLogsParams, q: Seq<char>, from: Seq<char>, to: Seq<char>)
    requires
        opt_text(p.query) == Some(q),
        opt_text(p.from) == Some(from),
        opt_text(p.to) == Some(to),
        bare_condition(q).len() > 0,
    ensures
        row_question(p) == "SELECT ts, service, level, message FROM logs_all "@ + ("WHERE "@ + ("("@
            + bare_condition(q) + ")"@ + " AND "@ + ("ts >= '"@ + from + "'"@) + " AND "@
            + ("ts <= '"@ + to + "'"@))) + " ORDER BY ts DESC LIMIT "@ + dec_int(
            row_limit(p.limit) as int,
        ),
{
    let a = "("@ + bare_condition(q) + ")"@;
    let b = "ts >= '"@ + from + "'"@;
    let c = "ts <= '"@ + to + "'"@;
    let all = row_conditions(Some(q), Some(from), Some(to));
    assert(all =~= seq![a, b, c]);
    assert(all.drop_last() =~= seq![a, b]);
    assert(seq![a, b].drop_last() =~= seq![a]);
    assert(join(seq![a], " AND "@) == a);
    assert(join(seq![a, b], " AND "@) == a + " AND "@ + b);
    assert(join(all, " AND "@) == a + " AND "@ + b + " AND "@ + c);
}

/// A call without a condition asks for the newest rows of all.
pub proof fn law_all_rows_are_asked_for(p: QueryLogsParams)
    requires
        p.query is None,
        p.from is None,
        p.to is None,
    ensures
        row_question(p) == "SELECT ts, service, level, message FROM logs_all "@ + ""@
            + " ORDER BY ts DESC LIMIT "@ + dec_int(row_limit(p.limit) as int),
{
    assert(row_conditions(None, None, None) =~= Seq::<Seq<char>>::empty());
}

/// Where a call does not say when, its own time counts.
pub proof fn law_times_of_a_call_count(t: Seq<char>, other: Timestamp)
    ensures
        crate::mcp::time_or(Some(t), other) == t,
        crate::mcp::time_or(None, other) == rfc3339_text(other.secs, other.nanos),
{
}

/// A high rate of errors and a time without rows are told, and nothing else is.
pub proof fn law_hints(rate: u64, percent: u64, total: i64)
    requires
        rate < 0x7ff0_0000_0000_0000,
    ensures
        rate > 0x3fa9_9999_9999_999a && total != 0 ==> hints_of(rate, percent, total) == seq![
            "Error rate is high ("@ + fixed_text(percent, 2) + "%)."@,
        ],
        rate <= 0x3fa9_9999_9999_999a && total != 0 ==> hints_of(rate, percent, total) == Seq::<
            Seq<char>,
        >::empty(),
        rate <= 0x3fa9_9999_9999_999a && total == 0 ==> hints_of(rate, percent, total) == seq![
            "No log volume in the requested window."@,
        ],
{
    let none = Seq::<Seq<char>>::empty();
    assert(none.push("No log volume in the requested window."@) =~= seq![
        "No log volume in the requested window."@,
    ]);
    assert(none.push("Error rate is high ("@ + fixed_text(percent, 2) + "%)."@) =~= seq![
        "Error rate is high ("@ + fixed_text(percent, 2) + "%)."@,
    ]);
}

/// A horizon of days is one of hours times twenty-four, and by the minute it has sixty points
/// for each hour.
pub proof fn law_horizons(h: Seq<char>)
    ensures
        horizon_unit(h) == "d"@ ==> horizon_hours(h) == 24 * horizon_number(h),
        horizon_unit(h) == "h"@ ==> horizon_hours(h) == horizon_number(h),
        horizon_unit(h) == "m"@ && horizon_number(h) < 60 ==> horizon_hours(h) == 1,
        horizon_hours(h) >= 1 ==> horizon_points(h, true) == horizon_hours(h) && horizon_points(
            h,
            false,
        ) == 60 * horizon_hours(h),
        horizon_points(h, true) >= 1,
{
    reveal_strlit("d");
    reveal_strlit("h");
    reveal_strlit("m");
    assert("d"@.len() == 1);
    assert("h"@.len() == 1);
    assert("m"@.len() == 1);
    assert("d"@[0] == 'd');
    assert("h"@[0] == 'h');
    assert("m"@[0] == 'm');
}

/// The severity of an anomaly grows with its score: from three on it is medium, from four on
/// high, and from six on critical.
pub proof fn law_severities_by_score(score: u64)
    requires
        score < 0x7ff0_0000_0000_0000,
    ensures
        score < 0x4008_0000_0000_0000 ==> severity_of(score) == "low"@,
        0x4008_0000_0000_0000 <= score < 0x4010_0000_0000_0000 ==> severity_of(score)
            == "medium"@,
        0x4010_0000_0000_0000 <= score < 0x4018_0000_0000_0000 ==> severity_of(score) == "high"@,
        score >= 0x4018_0000_0000_0000 ==> severity_of(score) == "critical"@,
{
}

/// A sign does not count for how far off a value is.
pub proof fn law_signs_do_not_count(bits: u64)
    ensures
        magnitude(bits) < 0x8000_0000_0000_0000,
        bits < 0x8000_0000_0000_0000 ==> magnitude(bits) == bits,
        bits >= 0x8000_0000_0000_0000 ==> magnitude(bits) + 0x8000_0000_0000_0000 == bits,
{
}

/// A forecast needs four points, a horizon, and a level between nothing and one.
pub proof fn law_forecasts_need(points: nat, horizon: nat, level: u64)
    requires
        level < 0x7ff0_0000_0000_0000,
    ensures
        forecast_obstacle(points, horizon, level) is None <==> points >= 4 && horizon > 0 && level
            <= 0x3ff0_0000_0000_0000,
{
}

/// The points of a forecast follow each other at the interval, the first one interval after
/// the last observation.
pub proof fn law_forecast_points(start: Timestamp, interval: i64, k: int)
    requires
        interval >= 1,
    ensures
        point_secs(start, interval, 1) == start.secs + interval,
        point_secs(start, interval, k + 1) == point_secs(start, interval, k) + interval,
{
    assert(interval * (k + 1) == interval * k + interval) by (nonlinear_arith);
}

/// A series has the season of a day where it covers two days, and that of a week where it
/// covers two weeks.
pub proof fn law_seasons(points: nat, interval: i64)
    requires
        1 <= interval <= 43_200,
    ensures
        points < 2 * (86_400int / interval as int) ==> seasons_of(points, interval).len() == 0,
        points >= 2 * (86_400int / interval as int) ==> seasons_of(points, interval).len() >= 1
            && seasons_of(points, interval)[0] == 86_400int / interval as int,
        points >= 14 * (86_400int / interval as int) ==> seasons_of(points, interval).len() == 2
            && seasons_of(points, interval)[1] == 7 * (86_400int / interval as int),
{
    let day = 86_400int / interval as int;
    assert(2 <= day <= 86_400) by (nonlinear_arith)
        requires
            1 <= interval <= 43_200,
            day == 86_400int / interval as int,
    ;
}

/// The methods that find anomalies, by their names.
pub proof fn law_methods_are_named()
    ensures
        AnomalyMethod::Mad.name() == "mad"@,
        AnomalyMethod::Seasonal.name() == "seasonal"@,
        AnomalyMethod::RateOfChange.name() == "rate_of_change"@,
{
}

/// A series of fewer than five points has no anomalies; a score of at least the bound is one,
/// a smaller one is none.
pub proof fn law_scores_are_anomalies(
    done: Seq<AnomalyV>,
    s: u64,
    least: u64,
    method: AnomalyMethod,
    metric: Seq<char>,
    ts: Timestamp,
)
    requires
        s < 0x7ff0_0000_0000_0000,
        least < 0x7ff0_0000_0000_0000,
    ensures
        s >= least ==> with_score(done, Some(s), Some(least), method, metric, ts) == done.push(
            AnomalyV { ts, metric, score: s, method, severity: severity_of(s) },
        ),
        s < least ==> with_score(done, Some(s), Some(least), method, metric, ts) == done,
        with_score(done, None, Some(least), method, metric, ts) == done,
{
}

/// The next daily backup is today's where that is still to come, else tomorrow's.
pub proof fn law_next_runs(today: Timestamp, tomorrow: Timestamp, now: Timestamp)
    ensures
        now.secs < today.secs ==> next_run(Some(today), Some(tomorrow), now) == today,
        now.secs > today.secs ==> next_run(Some(today), Some(tomorrow), now) == tomorrow,
        now == today ==> next_run(Some(today), Some(tomorrow), now) == tomorrow,
{
}

/// Every fourth year is a leap year, but of the full centuries only every fourth; a leap year
/// has a day more in February.
pub proof fn law_leap_years(y: int)
    requires
        y >= 1,
    ensures
        y % 400 == 0 ==> month_len(y, 2) == 29,
        y % 100 == 0 && y % 400 != 0 ==> month_len(y, 2) == 28,
        y % 4 == 0 && y % 100 != 0 ==> month_len(y, 2) == 29,
        y % 4 != 0 ==> month_len(y, 2) == 28,
        month_len(y, 1) == 31 && month_len(y, 3) == 31 && month_len(y, 5) == 31 && month_len(y, 7)
            == 31 && month_len(y, 8) == 31 && month_len(y, 10) == 31 && month_len(y, 12) == 31,
        month_len(y, 4) == 30 && month_len(y, 6) == 30 && month_len(y, 9) == 30 && month_len(y, 11)
            == 30,
        day_number(1970, 1, 1) == 0,
{
}

/// A series of fewer than five points has no anomalies; else each score that is large enough
/// is one of its method, and a seasonal score always is.
pub proof fn law_anomalies_of_a_series(
    points: nat,
    scores: Scores,
    least: u64,
    metric: Seq<char>,
    ts: Timestamp,
    s: u64,
)
    requires
        least <= s < 0x7ff0_0000_0000_0000,
    ensures
        points < 5 ==> anomalies_of(points, scores, least, metric, ts) == Seq::<AnomalyV>::empty(),
        points >= 5 && scores.mad == Some(s) && scores.rate_of_change is None && scores.seasonal
            is None ==> anomalies_of(points, scores, least, metric, ts) == seq![
            AnomalyV { ts, metric, score: s, method: AnomalyMethod::Mad, severity: severity_of(s) },
        ],
        points >= 5 && scores.rate_of_change == Some(s) && scores.mad is None && scores.seasonal
            is None ==> anomalies_of(points, scores, least, metric, ts) == seq![
            AnomalyV {
                ts,
                metric,
                score: s,
                method: AnomalyMethod::RateOfChange,
                severity: severity_of(s),
            },
        ],
        points >= 5 && scores.seasonal == Some(s) && scores.mad is None && scores.rate_of_change
            is None ==> anomalies_of(points, scores, least, metric, ts) == seq![
            AnomalyV {
                ts,
                metric,
                score: s,
                method: AnomalyMethod::Seasonal,
                severity: severity_of(s),
            },
        ],
{
    let none = Seq::<AnomalyV>::empty();
    law_scores_are_anomalies(none, s, least, AnomalyMethod::Mad, metric, ts);
    law_scores_are_anomalies(none, s, least, AnomalyMethod::RateOfChange, metric, ts);
    assert(magnitude(s) == s);
    let all = anomalies_of(points, scores, least, metric, ts);
    if points >= 5 && scores.mad == Some(s) && scores.rate_of_change is None && scores.seasonal
        is None {
        assert(all =~= seq![
            AnomalyV { ts, metric, score: s, method: AnomalyMethod::Mad, severity: severity_of(s) },
        ]);
    }
    if points >= 5 && scores.rate_of_change == Some(s) && scores.mad is None && scores.seasonal
        is None {
        assert(all =~= seq![
            AnomalyV {
                ts,
                metric,
                score: s,
                method: AnomalyMethod::RateOfChange,
                severity: severity_of(s),
            },
        ]);
    }
    if points >= 5 && scores.seasonal == Some(s) && scores.mad is None && scores.rate_of_change
        is None {
        assert(all =~= seq![
            AnomalyV {
                ts,
                metric,
                score: s,
                method: AnomalyMethod::Seasonal,
                severity: severity_of(s),
            },
        ]);
    }
}

/// The figures of a metric say what they are of.
pub proof fn law_figures(
    metric: Seq<char>,
    total: i64,
    errors: i64,
    rate: u64,
    from: Seq<char>,
    to: Seq<char>,
)
    ensures
        figures(metric, total, errors, rate, from, to) matches JsonV::Obj(m) && says(
            m,
            "metric"@,
            metric,
        ) && m.contains_key("total"@) && m["total"@] == JsonV::Num(dec_int(total as int))
            && m.contains_key("errors"@) && m["errors"@] == JsonV::Num(dec_int(errors as int))
            && m.contains_key("error_rate"@) && m["error_rate"@] == double_value(rate)
            && m.contains_key("window"@) && (m["window"@] matches JsonV::Obj(w) && says(
            w,
            "from"@,
            from,
        ) && says(w, "to"@, to)),
{
    reveal_strlit("metric");
    reveal_strlit("total");
    reveal_strlit("errors");
    reveal_strlit("error_rate");
    reveal_strlit("window");
    reveal_strlit("from");
    reveal_strlit("to");
    assert("metric"@.len() == 6);
    assert("total"@.len() == 5);
    assert("errors"@.len() == 6);
    assert("error_rate"@.len() == 10);
    assert("window"@.len() == 6);
    assert("from"@.len() == 4);
    assert("to"@.len() == 2);
    assert("errors"@[0] == 'e');
    assert("metric"@[0] == 'm');
    assert("window"@[0] == 'w');
}

/// A beginning that is to take so many bytes at most is the longest one that does.
pub proof fn law_longest_beginnings(s: Seq<char>, max: int)
    requires
        max >= 0,
    ensures
        encode_utf8(fitting_prefix(s, max)).len() <= max,
        fitting_prefix(s, max).len() <= s.len(),
        fitting_prefix(s, max) == s.take(fitting_prefix(s, max).len() as int),
        encode_utf8(s).len() <= max ==> fitting_prefix(s, max) == s,
        fitting_prefix(s, max).len() < s.len() ==> encode_utf8(
            s.take(fitting_prefix(s, max).len() as int + 1),
        ).len() > max,
    decreases s.len(),
{
    if s.len() == 0 || encode_utf8(s).len() <= max {
        assert(s.take(s.len() as int) =~= s);
    } else {
        let d = s.drop_last();
        law_longest_beginnings(d, max);
        let n = fitting_prefix(d, max).len() as int;
        assert(d.take(n) =~= s.take(n));
        if n < d.len() {
            assert(d.take(n + 1) =~= s.take(n + 1));
        } else {
            assert(s.take(n + 1) =~= s);
        }
    }
}

/// A row gets what it does not say, and keeps what it says.
pub proof fn law_rows_are_completed(
    row: RowV,
    service: Seq<char>,
    host: Seq<char>,
    country: Option<Seq<char>>,
)
    ensures
        ({
            let r = enriched(row, service, host, country);
            &&& row.service.len() > 0 ==> r.service == row.service
            &&& row.service.len() == 0 ==> r.service == service
            &&& row.source_host.len() > 0 ==> r.source_host == row.source_host
            &&& row.source_host.len() == 0 ==> r.source_host == host
            &&& row.level.len() > 0 ==> r.level == row.level
            &&& row.level.len() == 0 ==> r.level == "info"@
            &&& country matches Some(c) ==> r.geo_country == c
            &&& country is None ==> r.geo_country == row.geo_country
            &&& r.message == row.message && r.ts == row.ts && r.attributes == row.attributes
            &&& r.fingerprint == row.fingerprint && r.trace_id == row.trace_id && r.span_id
                == row.span_id
        }),
{
}

/// A number is filled up with zeros in front, and stands for the same number.
pub proof fn law_padding(n: nat, len: nat)
    ensures
        padded(n, len).len() >= len,
        ends(padded(n, len), dec(n)),
        dec(n).len() >= len ==> padded(n, len) == dec(n),
        dec(n).len() < len ==> padded(n, len).len() == len && padded(n, len)[0] == '0',
{
    let p = padded(n, len);
    let d = dec(n);
    assert(p.subrange(p.len() - d.len(), p.len() as int) =~= d);
}

/// The time of the day is hours, minutes and seconds, the date the days before it.
pub proof fn law_times_of_the_day(text: Seq<char>, secs: u64, y: int, m: int, d: int)
    requires
        is_utc_text(text, secs, y, m, d),
    ensures
        ({
            let h = secs as int % 86_400 / 3600;
            let min = secs as int % 3600 / 60;
            let s = secs as int % 60;
            &&& day_number(y, m, d) * 86_400 + h * 3600 + min * 60 + s == secs
            &&& text == padded(y as nat, 4) + "-"@ + padded(m as nat, 2) + "-"@ + padded(
                d as nat,
                2,
            ) + "T"@ + padded(h as nat, 2) + ":"@ + padded(min as nat, 2) + ":"@ + padded(
                s as nat,
                2,
            ) + "Z"@
        }),
{
    lemma_parts_of_a_day(secs as int);
}

proof fn lemma_parts_of_a_day(secs: int)
    requires
        secs >= 0,
    ensures
        secs % 86_400 % 3600 == secs % 3600,
        secs % 86_400 % 60 == secs % 60,
        (secs / 86_400) * 86_400 + (secs % 86_400 / 3600) * 3600 + (secs % 3600 / 60) * 60 + secs
            % 60 == secs,
{
    let a = secs / 86_400;
    let r = secs % 86_400;
    let h = r / 3600;
    let x = r % 3600;
    let m = x / 60;
    let z = x % 60;
    assert(secs == 86_400 * a + r && r == 3600 * h + x && x == 60 * m + z);
    assert(secs == 3600 * (24 * a + h) + x);
    assert(secs % 3600 == x) by (nonlinear_arith)
        requires
            secs == 3600 * (24 * a + h) + x,
            0 <= x < 3600,
    ;
    assert(secs == 60 * (1440 * a + 60 * h + m) + z);
    assert(secs % 60 == z) by (nonlinear_arith)
        requires
            secs == 60 * (1440 * a + 60 * h + m) + z,
            0 <= z < 60,
    ;
    assert(r == 60 * (60 * h + m) + z);
    assert(r % 60 == z) by (nonlinear_arith)
        requires
            r == 60 * (60 * h + m) + z,
            0 <= z < 60,
    ;
}

/// A time span is over once as much time has passed.
pub proof fn law_spans_pass(since: u64, now: u64, span: u64)
    requires
        now >= since,
    ensures
        passed(since, now, span) <==> now - since >= span,
{
}

/// The types of promoted columns in the database.
pub proof fn law_types_in_the_database()
    ensures
        HotType::Bigint.ddl_text() == "BIGINT"@,
        HotType::Double.ddl_text() == "DOUBLE"@,
        HotType::Varchar.ddl_text() == "VARCHAR"@,
        HotType::Boolean.ddl_text() == "BOOLEAN"@,
{
}

/// The fields of a shipped line are written as JSON.
pub proof fn law_fields_are_json(s: String, i: i64, b: bool)
    ensures
        field_text(crate::client::Json::Str(s)) == escaped(s@),
        field_text(crate::client::Json::Whole(i)) == dec_int(i as int),
        field_text(crate::client::Json::Bool(true)) == "true"@,
        field_text(crate::client::Json::Bool(false)) == "false"@,
{
}

/// What an error says of its kind.
pub proof fn law_errors_name_their_kind(m: Seq<char>)
    ensures
        error_text(ErrorV::InvalidInput(m)) == "invalid input: "@ + m,
        error_text(ErrorV::Config(m)) == "config error: "@ + m,
{
}

/// What is shown of a filter that is refused names what is wrong.
pub proof fn law_refused_filters_are_explained(k: Seq<char>, pos: usize, msg: Seq<char>)
    ensures
        fault_text(FilterFault::UnknownColumn(k)) == "unknown column '"@ + k
            + "' (not in whitelist)"@,
        fault_text(FilterFault::Syntax { pos, msg }) == "syntax error at position "@ + dec(
            pos as nat,
        ) + ": "@ + msg,
        fault_text(FilterFault::NumericOpOnText { key: k, op: Op::Gt }) == "numeric operator "@
            + "Gt"@ + " not valid for text column '"@ + k + "'"@,
{
}

/// A starter is named after the service that it is of, and says what it was made from.
pub proof fn law_starters_are_named(description: Seq<char>, services: Seq<Seq<char>>)
    ensures
        ({
            let p = starter(description, services);
            &&& p.description == "Generated from: "@ + description
            &&& mentioned(services, lower(description)) is None ==> p.name == "Starter dashboard"@
                && p.panels == starter_panels(lower(description), Seq::empty())
            &&& mentioned(services, lower(description)) matches Some(s) ==> p.name == split(
                s,
                ':',
            )[0] + " dashboard"@ && p.panels == starter_panels(
                lower(description),
                "service:"@ + s,
            )
        }),
{
}

/// A run falls on the day that is asked for, at the hour and the minute that are set, as the
/// zone has it. Where the zone has no such time there is none.
pub proof fn law_runs_are_at_their_time(zone: Seq<char>, day: i32, later: int, hour: u32, minute: u32)
    requires
        i32::MIN <= day + later <= i32::MAX,
    ensures
        ({
            let there = zone_time(zone, (day + later) as i32, hour, minute);
            let run = run_on(zone, Some(day), later, hour, minute);
            &&& run is Some <==> there is Some
            &&& run matches Some(t) ==> there matches Some(p) && t.secs == p.0 && t.nanos == p.1
        }),
        run_on(zone, None, later, hour, minute) is None,
{
}

/// The points of a forecast follow its start, an interval from one to the next.
pub proof fn law_points_are_an_interval_apart(
    t: Timestamp,
    u: Timestamp,
    start: Timestamp,
    interval: i64,
    k: int,
)
    requires
        interval >= 1,
        is_point(t, start, interval, k),
        is_point(u, start, interval, k + 1),
    ensures
        u.secs - t.secs == interval,
        u.nanos == t.nanos,
        k == 0 ==> t == start,
{
    assert(step_of(interval) * (k + 1) == step_of(interval) * k + step_of(interval)) by (
    nonlinear_arith);
}

/// The periods of a model are named by their lengths.
pub proof fn law_periods_are_named(periods: Seq<usize>, i: int)
    requires
        0 <= i < periods.len(),
    ensures
        decimals(periods).len() == periods.len(),
        decimals(periods)[i] == dec(periods[i] as nat),
{
}

} // verus!

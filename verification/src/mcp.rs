//! The tools that are offered to agents: what is asked of the store for a call, and
//! what is said of the answer.
use vstd::prelude::*;
use vstd::string::*;
use vstd::utf8::encode_utf8;

use crate::double::{is_less, less};
use crate::float::{fixed_text, lemma_rounded_bound, round_to_double, rounded, write_fixed};
use crate::json::{
    Json, JsonMap, JsonV, double_value, json_double, json_text, lemma_json_view, write_json,
};
use crate::text::{
    cat, cat3, chars_of, cut_to_bytes, dec, dec_int, dec_of, dec_of_int, fitting_prefix, join,
    join_with, just, lemma_fitting_prefix_len, opt_text, parse_u64, parse_u64_text, same,
    string_between, texts, trim, trim_end_by, trim_end_char, trimmed,
};
use crate::time::{Timestamp, rfc3339_text, start_of_window, to_rfc3339, window_start};

verus! {

/// What rows are asked for.
#[derive(Debug, Clone)]
pub struct QueryLogsParams {
    /// A condition in SQL.
    pub query: Option<String>,
    pub from: Option<String>,
    pub to: Option<String>,
    pub limit: i64,
}

/// A row that was found.
#[derive(Debug, Clone)]
pub struct QueryLogsRow {
    pub ts: String,
    pub service: Option<String>,
    pub level: Option<String>,
    pub message: Option<String>,
}

/// The rows that were found.
#[derive(Debug, Clone)]
pub struct QueryLogsResult {
    pub rows: Vec<QueryLogsRow>,
    pub total_matched: i64,
    pub truncated: bool,
}

/// Which metric is to be summed up, and over what time.
#[derive(Debug, Clone)]
pub struct DashboardSummaryParams {
    pub metric: String,
    pub from: Option<String>,
    pub to: Option<String>,
}

/// Which metric is to be forecast, and how far.
#[derive(Debug, Clone)]
pub struct ForecastToolParams {
    pub metric: String,
    pub horizon: String,
    pub granularity: Option<String>,
}

/// A rule that is to be made.
#[derive(Debug)]
pub struct CreateAlertRuleParams {
    pub name: String,
    pub metric: String,
    pub condition: Json,
    pub notification_channel: String,
}

/// A rule that was made.
#[derive(Debug, Clone)]
pub struct CreateAlertRuleResult {
    pub rule_id: i64,
    pub status: String,
}

/// The tools, with what they are allowed to do.
#[derive(Debug, Clone, Copy)]
pub struct CentralLogsMcpServer {
    pub enable_alert_tool: bool,
}

/// How many rows are asked for where a call does not say.
pub fn default_query_limit() -> (r: i64)
    ensures
        r == 100,
{
    100
}

// ---------------------------------------------------------------------
// Rows
// ---------------------------------------------------------------------
/// How many rows are asked for: at least one, at most a thousand.
pub open spec fn row_limit(limit: i64) -> i64 {
    if limit < 1 {
        1
    } else if limit > 1000 {
        1000
    } else {
        limit
    }
}

/// A condition without the semicolons at its end.
pub open spec fn bare_condition(q: Seq<char>) -> Seq<char> {
    trim_end_by(trim(q), just(';'))
}

/// The conditions of a call.
pub open spec fn row_conditions(
    query: Option<Seq<char>>,
    from: Option<Seq<char>>,
    to: Option<Seq<char>>,
) -> Seq<Seq<char>> {
    let none = Seq::<Seq<char>>::empty();
    let asked = match query {
        Some(q) => if bare_condition(q).len() > 0 {
            none.push("("@ + bare_condition(q) + ")"@)
        } else {
            none
        },
        None => none,
    };
    let since = match from {
        Some(t) => asked.push("ts >= '"@ + t + "'"@),
        None => asked,
    };
    match to {
        Some(t) => since.push("ts <= '"@ + t + "'"@),
        None => since,
    }
}

/// The question for rows.
pub open spec fn row_question(p: QueryLogsParams) -> Seq<char> {
    let conditions = row_conditions(opt_text(p.query), opt_text(p.from), opt_text(p.to));
    "SELECT ts, service, level, message FROM logs_all "@ + (if conditions.len() == 0 {
        ""@
    } else {
        "WHERE "@ + join(conditions, " AND "@)
    }) + " ORDER BY ts DESC LIMIT "@ + dec_int(row_limit(p.limit) as int)
}

fn push_condition(v: &mut Vec<String>, s: String)
    ensures
        texts(final(v)@) == texts(old(v)@).push(s@),
{
    let ghost before = texts(v@);
    let ghost added = s@;
    v.push(s);
    assert(texts(v@) =~= before.push(added));
}

/// How many rows are asked for.
pub fn clamp_limit(limit: i64) -> (r: i64)
    ensures
        r == row_limit(limit),
{
    if limit < 1 {
        1
    } else if limit > 1000 {
        1000
    } else {
        limit
    }
}

/// The question for rows.
pub fn query_logs(p: &QueryLogsParams) -> (r: String)
    ensures
        r@ == row_question(*p),
{
    let mut parts: Vec<String> = Vec::new();
    assert(texts(parts@) =~= Seq::<Seq<char>>::empty());
    if let Some(q) = &p.query {
        let t = trimmed(q.as_str());
        let bare = trim_end_char(t.as_str(), ';');
        if !bare.as_str().is_empty() {
            push_condition(&mut parts, cat3("(", bare.as_str(), ")"));
        }
    }
    if let Some(t) = &p.from {
        push_condition(&mut parts, cat3("ts >= '", t.as_str(), "'"));
    }
    if let Some(t) = &p.to {
        push_condition(&mut parts, cat3("ts <= '", t.as_str(), "'"));
    }
    let clause = if parts.len() == 0 {
        "".to_owned()
    } else {
        let all = join_with(parts.as_slice(), " AND ");
        cat("WHERE ", all.as_str())
    };
    let limit = dec_of_int(clamp_limit(p.limit));
    let mut s = cat3(
        "SELECT ts, service, level, message FROM logs_all ",
        clause.as_str(),
        " ORDER BY ts DESC LIMIT ",
    );
    s.append(limit.as_str());
    s
}

/// The rows that were found for a call. Where there are as many as were asked for,
/// there may be more.
pub fn rows_result(rows: Vec<QueryLogsRow>, limit: i64) -> (r: QueryLogsResult)
    requires
        rows@.len() <= i64::MAX,
    ensures
        r.rows == rows,
        r.total_matched == rows@.len(),
        r.truncated == (rows@.len() >= row_limit(limit)),
{
    let total: i64 = rows.len() as i64;
    let truncated = total >= clamp_limit(limit);
    QueryLogsResult { rows, total_matched: total, truncated }
}

// ---------------------------------------------------------------------
// Summaries
// ---------------------------------------------------------------------
/// A time as text, or another one.
pub open spec fn time_or(text: Option<Seq<char>>, other: Timestamp) -> Seq<char> {
    match text {
        Some(t) => t,
        None => rfc3339_text(other.secs, other.nanos),
    }
}

/// From when to when a metric is summed up: over the last hour, where a call does not
/// say.
pub fn summary_window(p: &DashboardSummaryParams, now: Timestamp) -> (r: (String, String))
    requires
        start_of_window(now, 3600) is Some,
    ensures
        r.0@ == time_or(opt_text(p.from), start_of_window(now, 3600)->0),
        r.1@ == time_or(opt_text(p.to), now),
{
    let from = match &p.from {
        Some(t) => t.clone(),
        None => to_rfc3339(window_start(now, 3600).unwrap()),
    };
    let to = match &p.to {
        Some(t) => t.clone(),
        None => to_rfc3339(now),
    };
    (from, to)
}

/// What is hinted at of a time: a rate of errors above five in a hundred, and that
/// there was nothing.
pub open spec fn hints_of(rate: u64, percent: u64, total: i64) -> Seq<Seq<char>> {
    let none = Seq::<Seq<char>>::empty();
    let high = if less(0x3fa9_9999_9999_999a, rate) {
        none.push("Error rate is high ("@ + fixed_text(percent, 2) + "%)."@)
    } else {
        none
    };
    if total == 0 {
        high.push("No log volume in the requested window."@)
    } else {
        high
    }
}

/// What is hinted at of a time, by the rate of errors, the same in percent, and the
/// number of rows.
pub fn narrative_hints(rate: u64, percent: u64, total: i64) -> (r: Vec<String>)
    ensures
        texts(r@) == hints_of(rate, percent, total),
{
    let mut out: Vec<String> = Vec::new();
    assert(texts(out@) =~= Seq::<Seq<char>>::empty());
    if is_less(0x3fa9_9999_9999_999a, rate) {
        let p = write_fixed(percent, 2);
        push_condition(&mut out, cat3("Error rate is high (", p.as_str(), "%)."));
    }
    if total == 0 {
        push_condition(&mut out, "No log volume in the requested window.".to_owned());
    }
    out
}

/// The figures of a time.
pub open spec fn figures(
    metric: Seq<char>,
    total: i64,
    errors: i64,
    rate: u64,
    from: Seq<char>,
    to: Seq<char>,
) -> JsonV {
    JsonV::Obj(
        Map::<Seq<char>, JsonV>::empty().insert("metric"@, JsonV::Str(metric)).insert(
            "total"@,
            JsonV::Num(dec_int(total as int)),
        ).insert("errors"@, JsonV::Num(dec_int(errors as int))).insert(
            "error_rate"@,
            double_value(rate),
        ).insert(
            "window"@,
            JsonV::Obj(
                Map::<Seq<char>, JsonV>::empty().insert("from"@, JsonV::Str(from)).insert(
                    "to"@,
                    JsonV::Str(to),
                ),
            ),
        ),
    )
}

/// The figures of a time.
pub fn summary_stats(metric: &str, total: i64, errors: i64, rate: u64, from: &str, to: &str) -> (r:
    Json)
    ensures
        r@ == figures(metric@, total, errors, rate, from@, to@),
{
    broadcast use lemma_json_view;

    let mut window = JsonMap::new();
    window.insert_str("from", from);
    window.insert_str("to", to);
    let mut m = JsonMap::new();
    m.insert_str("metric", metric);
    m.insert("total", Json::from_int(total));
    m.insert("errors", Json::from_int(errors));
    m.insert("error_rate", json_double(rate));
    m.insert("window", Json::Obj(window));
    Json::Obj(m)
}

// ---------------------------------------------------------------------
// Forecasts
// ---------------------------------------------------------------------
/// Whether a character is a letter of any script.
pub uninterp spec fn is_letter(c: char) -> bool;

/// `char::is_alphabetic`. The answer depends on the character alone.
#[verifier::external_body]
fn char_is_letter(c: char) -> (r: bool)
    ensures
        r == is_letter(c),
{
    c.is_alphabetic()
}

/// The place of the last letter, or the length of the text.
pub open spec fn last_letter(s: Seq<char>) -> int {
    last_letter_before(s, s.len() as int, s.len() as int)
}

/// The place of the last letter among the first ones, or another place.
pub open spec fn last_letter_before(s: Seq<char>, n: int, other: int) -> int
    decreases n,
{
    if n <= 0 {
        other
    } else if is_letter(s[n - 1]) {
        n - 1
    } else {
        last_letter_before(s, n - 1, other)
    }
}

/// Where a horizon is cut into its number and its unit: as many bytes into the
/// trimmed text as stand before its last letter in the whole text.
pub open spec fn horizon_cut(h: Seq<char>) -> int {
    encode_utf8(h.take(last_letter(h))).len() as int
}

/// The text before the cut.
pub open spec fn horizon_head(h: Seq<char>) -> Seq<char> {
    fitting_prefix(trim(h), horizon_cut(h))
}

/// The text behind the cut.
pub open spec fn horizon_unit(h: Seq<char>) -> Seq<char> {
    trim(trim(h).skip(horizon_head(h).len() as int))
}

/// Whether the cut falls between two characters of the trimmed text.
pub open spec fn horizon_can_be_cut(h: Seq<char>) -> bool {
    encode_utf8(horizon_head(h)).len() == horizon_cut(h)
}

/// The number before the unit of a horizon; six where there is none.
pub open spec fn horizon_number(h: Seq<char>) -> nat {
    match parse_u64_text(horizon_head(h)) {
        Some(n) => n as nat,
        None => 6,
    }
}

/// The whole part of the quotient of a number by sixty, both in double precision:
/// the quotient with eleven binary places, the last of which stands for all that
/// follow, rounded.
pub open spec fn sixtieth(n: nat) -> nat {
    let m = rounded(n) * 1024;
    rounded(
        m / 60 * 2 + if m % 60 == 0 {
            0nat
        } else {
            1
        },
    ) / 2048
}

/// The hours of a horizon: its number by its unit, at least one hour for minutes.
pub open spec fn horizon_hours(h: Seq<char>) -> nat {
    let n = horizon_number(h);
    if horizon_unit(h) == "m"@ {
        if n < 60 {
            1
        } else {
            sixtieth(n)
        }
    } else if horizon_unit(h) == "d"@ {
        n * 24
    } else {
        n
    }
}

/// How many points a horizon has: by the hour, else by the minute; at least one.
pub open spec fn horizon_points(h: Seq<char>, hourly: bool) -> nat {
    let points = if hourly {
        horizon_hours(h)
    } else {
        horizon_hours(h) * 60
    };
    if points < 1 {
        1
    } else {
        points
    }
}

fn whole_sixtieth(n: u64) -> (r: u128)
    ensures
        r == sixtieth(n as nat),
        r <= 0x1_0000_0000_0000_0000,
{
    proof {
        lemma_rounded_bound(n as nat);
    }
    let m: u128 = round_to_double(n as u128) * 1024;
    let q: u128 = m / 60 * 2 + if m % 60 == 0 {
        0
    } else {
        1
    };
    proof {
        lemma_rounded_bound(q as nat);
    }
    round_to_double(q) / 2048
}

fn find_last_letter(v: &[char]) -> (r: usize)
    ensures
        r == last_letter(v@),
        r <= v@.len(),
{
    let n: usize = v.len();
    let mut i: usize = n;
    while i > 0
        invariant
            i <= n,
            n == v@.len(),
            last_letter(v@) == last_letter_before(v@, i as int, n as int),
        decreases i,
    {
        if char_is_letter(v[i - 1]) {
            return i - 1;
        }
        i = i - 1;
    }
    n
}

/// How many points a horizon such as `6h` or `30m` has. There is no answer where the
/// text cannot be cut into number and unit, or where the points cannot be counted.
pub fn parse_horizon_count(horizon: &str, granularity: Option<&str>) -> (r: Option<usize>)
    ensures
        ({
            let hourly = granularity matches Some(g) && g@ == "hour"@;
            let points = horizon_points(horizon@, hourly);
            r == (if horizon_can_be_cut(horizon@) && points <= usize::MAX {
                Some(points as usize)
            } else {
                None
            })
        }),
{
    let v = chars_of(horizon);
    let k: usize = find_last_letter(v.as_slice());
    let before = string_between(v.as_slice(), 0, k);
    assert(before@ == horizon@.take(k as int));
    let cut: usize = before.as_str().as_bytes().len();
    let t = trimmed(horizon);
    let (head, _more) = cut_to_bytes(t.as_str(), cut);
    if head.as_str().as_bytes().len() != cut {
        return None;
    }
    let w = chars_of(t.as_str());
    let h: usize = chars_of(head.as_str()).len();
    proof {
        lemma_fitting_prefix_len(t@, cut as int);
    }
    let rest = string_between(w.as_slice(), h, w.len());
    assert(rest@ == trim(horizon@).skip(h as int));
    let unit = trimmed(rest.as_str());
    let n: u64 = match parse_u64(head.as_str()) {
        Some(n) => n,
        None => 6,
    };
    let hours: u128 = if same(unit.as_str(), "m") {
        if n < 60 {
            1
        } else {
            whole_sixtieth(n)
        }
    } else if same(unit.as_str(), "d") {
        n as u128 * 24
    } else {
        n as u128
    };
    let hourly = match granularity {
        Some(g) => same(g, "hour"),
        None => false,
    };
    let points: u128 = if hourly {
        hours
    } else {
        hours * 60
    };
    if points < 1 {
        Some(1)
    } else if points <= usize::MAX as u128 {
        Some(points as usize)
    } else {
        None
    }
}

/// The length of a step and the table of a granularity.
pub fn granularity_table(granularity: Option<&str>) -> (r: (i64, &'static str))
    ensures
        if granularity matches Some(g) && g@ == "hour"@ {
            r.0 == 3600 && r.1@ == "rollup_1h"@
        } else {
            r.0 == 60 && r.1@ == "rollup_1m"@
        },
{
    if let Some(g) = granularity {
        if same(g, "hour") {
            return (3600, "rollup_1h");
        }
    }
    (60, "rollup_1m")
}

/// The question for the series that a forecast starts from: four times as long as
/// the horizon, and at least sixty points.
pub fn series_sql(table: &str, horizon: usize) -> (r: String)
    ensures
        r@ == "SELECT COALESCE(SUM(n), 0) FROM "@ + table@
            + " GROUP BY bucket ORDER BY bucket DESC LIMIT "@ + dec(
            if horizon * 4 < 60 {
                60
            } else if horizon * 4 > usize::MAX {
                usize::MAX as nat
            } else {
                (horizon * 4) as nat
            },
        ),
{
    let points: usize = match horizon.checked_mul(4) {
        Some(n) => if n < 60 {
            60
        } else {
            n
        },
        None => usize::MAX,
    };
    let limit = dec_of(points as u64);
    let mut s = cat3(
        "SELECT COALESCE(SUM(n), 0) FROM ",
        table,
        " GROUP BY bucket ORDER BY bucket DESC LIMIT ",
    );
    s.append(limit.as_str());
    s
}

// ---------------------------------------------------------------------
// Rules
// ---------------------------------------------------------------------
impl CentralLogsMcpServer {
    /// Why a rule cannot be made, if rules are not to be made by agents.
    pub fn rule_obstacle(&self) -> (r: Option<&'static str>)
        ensures
            match r {
                Some(m) => !self.enable_alert_tool && m@
                    == "create_alert_rule is disabled. Set --enable-alert-mcp-tool to enable it."@,
                None => self.enable_alert_tool,
            },
    {
        if self.enable_alert_tool {
            None
        } else {
            Some("create_alert_rule is disabled. Set --enable-alert-mcp-tool to enable it.")
        }
    }
}

/// A rule that was made by an agent. It waits for approval.
pub fn rule_created(rule_id: i64) -> (r: CreateAlertRuleResult)
    ensures
        r.rule_id == rule_id,
        r.status@ == "pending_approval"@,
{
    CreateAlertRuleResult { rule_id, status: "pending_approval".to_owned() }
}

/// The condition of a rule as it is kept.
pub fn rule_condition(p: &CreateAlertRuleParams) -> (r: String)
    ensures
        r@ == json_text(p.condition@),
{
    write_json(&p.condition)
}

/// A rule as it is put into the store.
#[derive(Debug, Clone)]
pub struct NewRule {
    pub id: i64,
    pub name: String,
    pub metric: String,
    pub condition_json: String,
    pub channel: String,
    pub status: String,
}

/// The row of a rule that an agent makes. It waits for approval, whatever the agent
/// says.
pub fn rule_row(id: i64, p: &CreateAlertRuleParams) -> (r: NewRule)
    ensures
        r.id == id,
        r.name@ == p.name@,
        r.metric@ == p.metric@,
        r.condition_json@ == json_text(p.condition@),
        r.channel@ == p.notification_channel@,
        r.status@ == "pending_approval"@,
{
    NewRule {
        id,
        name: p.name.clone(),
        metric: p.metric.clone(),
        condition_json: rule_condition(p),
        channel: p.notification_channel.clone(),
        status: "pending_approval".to_owned(),
    }
}

} // verus!

//! What alert rules mean: what is asked of the store, when a bound counts as crossed, and
//! what is told to whom.
use vstd::arithmetic::power2::{lemma_pow2_pos, pow2};
use vstd::prelude::*;

use crate::alerts::{
    AlertCondition, ChannelRow, DeliveryV, EntryV, FiredV, OutcomeV, RuleV, TargetV,
    alert_message, alert_targets, all_ints, breached, change_text, channels_of, compared,
    count_question, delivery_of, entries_of, group_question, judged, metric_question, most_severe,
    rank_of, refusal_text, rested, severity_before, subject_of, successes, target_of, targets_of,
    telegram_hint_of, texts_among,
};
use crate::config::SmtpConfig;
use crate::double::{billionth, distance, is_nan, near, place, units};
use crate::error::Error;
use crate::float::{excess_bits, rounded};
use crate::json::{JsonV, double_value, json_read};
use crate::query::{ColumnType, FilterFault, filter_of, filter_sql};
use crate::text::{begins, dec_int, has_text, join, just, occurs_at, trim, trim_end_by};
use crate::text_laws::law_numbers_read_back;
use crate::time::{Timestamp, rfc3339_text};

verus! {

// ---------------------------------------------------------------------
// Questions
// ---------------------------------------------------------------------
/// A row of the table that metrics are computed from: a minute, a level, and the number of
/// log rows.
pub struct Rollup {
    pub bucket: int,
    pub level: Seq<char>,
    pub n: nat,
}

/// What is summed up over the rows of a window.
pub enum Tally {
    /// All log rows.
    All,
    /// The log rows of a level.
    Level(Seq<char>),
}

impl Tally {
    /// What a row of the table counts.
    pub open spec fn counts(self, r: Rollup) -> nat {
        match self {
            Tally::All => r.n,
            Tally::Level(l) => if r.level == l {
                r.n
            } else {
                0
            },
        }
    }

    /// The sum over the rows since a point in time.
    pub open spec fn sum(self, rows: Seq<Rollup>, since: int) -> nat
        decreases rows.len(),
    {
        if rows.len() == 0 {
            0
        } else {
            self.sum(rows.drop_last(), since) + if rows.last().bucket >= since {
                self.counts(rows.last())
            } else {
                0
            }
        }
    }

    /// The sum in SQL.
    pub open spec fn sql(self) -> Seq<char> {
        match self {
            Tally::All => "COALESCE(SUM(n), 0)"@,
            Tally::Level(l) => "COALESCE(SUM(CASE WHEN level = '"@ + l
                + "' THEN n ELSE 0 END), 0)"@,
        }
    }
}

/// Questions that sum up over the rows since a point in time.
pub open spec fn asks(tallies: Seq<Tally>) -> Seq<char> {
    "SELECT "@ + join(Seq::new(tallies.len(), |i: int| tallies[i].sql()), ", "@)
        + " FROM rollup_1m WHERE bucket >= ?"@
}

/// The volume is the number of all log rows of the window.
pub proof fn law_volume_counts_all_rows()
    ensures
        metric_question("volume"@) == Some(asks(seq![Tally::All])),
{
    reveal_strlit("COALESCE(SUM(n), 0)");
    reveal_strlit("SELECT ");
    reveal_strlit(" FROM rollup_1m WHERE bucket >= ?");
    reveal_strlit("SELECT COALESCE(SUM(n), 0) FROM rollup_1m WHERE bucket >= ?");
    let parts = Seq::new(1, |i: int| seq![Tally::All][i].sql());
    assert(join(parts, ", "@) == "COALESCE(SUM(n), 0)"@);
    assert("SELECT COALESCE(SUM(n), 0) FROM rollup_1m WHERE bucket >= ?"@ =~= "SELECT "@
        + "COALESCE(SUM(n), 0)"@ + " FROM rollup_1m WHERE bucket >= ?"@);
}

/// The error rate is made of two numbers of the window: that of the log rows of level
/// `error`, and that of all log rows, in this order.
pub proof fn law_error_rate_counts_errors_and_all_rows()
    ensures
        metric_question("error_rate"@) == Some(asks(seq![Tally::Level("error"@), Tally::All])),
{
    reveal_strlit("volume");
    reveal_strlit("error_rate");
    assert("volume"@.len() == 6);
    assert("error_rate"@.len() == 10);
    reveal_strlit("error");
    reveal_strlit(", ");
    reveal_strlit("COALESCE(SUM(n), 0)");
    reveal_strlit("COALESCE(SUM(CASE WHEN level = '");
    reveal_strlit("' THEN n ELSE 0 END), 0)");
    reveal_strlit("SELECT ");
    reveal_strlit(" FROM rollup_1m WHERE bucket >= ?");
    reveal_strlit(
        "SELECT COALESCE(SUM(CASE WHEN level = 'error' THEN n ELSE 0 END), 0), COALESCE(SUM(n), 0) FROM rollup_1m WHERE bucket >= ?",
    );
    let a = Tally::Level("error"@).sql();
    let b = Tally::All.sql();
    let parts = Seq::new(2, |i: int| seq![Tally::Level("error"@), Tally::All][i].sql());
    assert(parts =~= seq![a, b]);
    assert(parts.drop_last() =~= seq![a]);
    assert(join(parts.drop_last(), ", "@) == a);
    assert(join(parts, ", "@) == a + ", "@ + b);
    assert(asks(seq![Tally::Level("error"@), Tally::All]) =~= "SELECT "@ + (a + ", "@ + b)
        + " FROM rollup_1m WHERE bucket >= ?"@);
    assert("SELECT COALESCE(SUM(CASE WHEN level = 'error' THEN n ELSE 0 END), 0), COALESCE(SUM(n), 0) FROM rollup_1m WHERE bucket >= ?"@
        =~= "SELECT "@ + (a + ", "@ + b) + " FROM rollup_1m WHERE bucket >= ?"@);
}

/// The errors of a window are some of its log rows: their rate lies between nothing and
/// one, and is one where every row is an error.
pub proof fn law_errors_are_some_of_all_rows(rows: Seq<Rollup>, since: int)
    ensures
        Tally::Level("error"@).sum(rows, since) <= Tally::All.sum(rows, since),
        (forall|i: int| 0 <= i < rows.len() ==> (#[trigger] rows[i]).level == "error"@)
            ==> Tally::Level("error"@).sum(rows, since) == Tally::All.sum(rows, since),
        (forall|i: int| 0 <= i < rows.len() ==> (#[trigger] rows[i]).level != "error"@)
            ==> Tally::Level("error"@).sum(rows, since) == 0,
    decreases rows.len(),
{
    if rows.len() > 0 {
        let d = rows.drop_last();
        law_errors_are_some_of_all_rows(d, since);
        if forall|i: int| 0 <= i < rows.len() ==> (#[trigger] rows[i]).level == "error"@ {
            assert forall|i: int| 0 <= i < d.len() implies (#[trigger] d[i]).level == "error"@ by {
                assert(rows[i].level == "error"@);
            }
            assert(rows[rows.len() - 1].level == "error"@);
        }
        if forall|i: int| 0 <= i < rows.len() ==> (#[trigger] rows[i]).level != "error"@ {
            assert forall|i: int| 0 <= i < d.len() implies (#[trigger] d[i]).level != "error"@ by {
                assert(rows[i].level != "error"@);
            }
            assert(rows[rows.len() - 1].level != "error"@);
        }
    }
}

/// A percentile of the latency is the average of its column over the minutes, weighted by
/// their rows; every other metric is unknown.
pub proof fn law_percentiles_and_unknown_metrics(metric: Seq<char>)
    ensures
        ({
            let average = |column: Seq<char>|
                "SELECT COALESCE(SUM("@ + column
                    + " * n) / NULLIF(SUM(n), 0), 0) FROM rollup_1m WHERE bucket >= ? AND n > 0"@;
            &&& metric == "p50_latency"@ ==> metric_question(metric) == Some(average("p50"@))
            &&& metric == "p95_latency"@ ==> metric_question(metric) == Some(average("p95"@))
            &&& metric == "p99_latency"@ ==> metric_question(metric) == Some(average("p99"@))
            &&& metric_question(metric) is Some <==> {
                ||| metric == "volume"@
                ||| metric == "error_rate"@
                ||| metric == "p50_latency"@
                ||| metric == "p95_latency"@
                ||| metric == "p99_latency"@
            }
        }),
{
    reveal_strlit("volume");
    reveal_strlit("error_rate");
    reveal_strlit("p50_latency");
    reveal_strlit("p95_latency");
    reveal_strlit("p99_latency");
    assert("volume"@.len() == 6);
    assert("error_rate"@.len() == 10);
    assert("p50_latency"@.len() == 11);
    assert("p95_latency"@.len() == 11);
    assert("p99_latency"@.len() == 11);
    assert("p50_latency"@[1] == '5');
    assert("p95_latency"@[1] == '9');
    assert("p95_latency"@[2] == '5');
    assert("p99_latency"@[1] == '9');
    assert("p99_latency"@[2] == '9');
}

/// The rows that match a filter are counted within a window, its bounds behind the values
/// of the filter.
pub proof fn law_matching_rows_are_counted(
    filter: Seq<char>,
    columns: Map<Seq<char>, ColumnType>,
    since: Timestamp,
    until: Timestamp,
    body: Seq<char>,
    params: Seq<Seq<char>>,
)
    requires
        filter_of(filter) is Ok,
        filter_sql(filter_of(filter)->Ok_0, columns) == Ok::<
            (Seq<char>, Seq<Seq<char>>),
            FilterFault,
        >((body, params)),
        body.len() > 0,
    ensures
        count_question(filter, columns, since, until) matches Ok(q) && q.0
            == "SELECT COUNT(*) FROM logs WHERE ("@ + body + ") AND ts >= ? AND ts <= ?"@ && q.1
            == params + seq![
            rfc3339_text(since.secs, since.nanos),
            rfc3339_text(until.secs, until.nanos),
        ],
{
    reveal_strlit("SELECT COUNT(*) FROM logs WHERE ");
    reveal_strlit("SELECT COUNT(*) FROM logs WHERE (");
    reveal_strlit("(");
    reveal_strlit(") AND ts >= ? AND ts <= ?");
    let q = count_question(filter, columns, since, until)->Ok_0;
    assert(q.0 =~= "SELECT COUNT(*) FROM logs WHERE ("@ + body + ") AND ts >= ? AND ts <= ?"@);
    assert(q.1 =~= params + seq![
        rfc3339_text(since.secs, since.nanos),
        rfc3339_text(until.secs, until.nanos),
    ]);
}

/// The events of an error group are the rows of a window with its fingerprint and a level
/// that counts: `fatal` alone where that is asked for, else `error` too.
pub proof fn law_group_events_are_counted(fingerprint: Seq<char>, min_level: Seq<char>)
    ensures
        ({
            let head = "SELECT COUNT(*) FROM logs WHERE ts >= ? AND ts <= ? AND fingerprint IS NOT NULL"@;
            let level = if min_level == "fatal"@ {
                " AND level = 'fatal'"@
            } else {
                " AND level IN ('error', 'fatal')"@
            };
            &&& group_question(Some(fingerprint), min_level) == head + level
                + " AND fingerprint = ?"@
            &&& group_question(None, min_level) == head + level
        }),
{
    reveal_strlit("");
    let head = "SELECT COUNT(*) FROM logs WHERE ts >= ? AND ts <= ? AND fingerprint IS NOT NULL"@;
    let level = if min_level == "fatal"@ {
        " AND level = 'fatal'"@
    } else {
        " AND level IN ('error', 'fatal')"@
    };
    assert(head + level + ""@ =~= head + level);
}

// ---------------------------------------------------------------------
// Bounds
// ---------------------------------------------------------------------
/// Whether a bit pattern is that of a number, and not below zero.
pub open spec fn is_plus(bits: u64) -> bool {
    bits < 0x7ff0_0000_0000_0000
}

/// Numbers from zero on are compared as their sizes are: the greater one crosses the
/// smaller one from above, and is crossed by it from below.
pub proof fn law_bounds_are_crossed_by_size(small: u64, great: u64)
    requires
        is_plus(small),
        is_plus(great),
        small < great,
    ensures
        compared(great, ">"@, small) == Ok::<bool, Seq<char>>(true),
        compared(great, ">="@, small) == Ok::<bool, Seq<char>>(true),
        compared(great, "<"@, small) == Ok::<bool, Seq<char>>(false),
        compared(great, "<="@, small) == Ok::<bool, Seq<char>>(false),
        compared(small, ">"@, great) == Ok::<bool, Seq<char>>(false),
        compared(small, ">="@, great) == Ok::<bool, Seq<char>>(false),
        compared(small, "<"@, great) == Ok::<bool, Seq<char>>(true),
        compared(small, "<="@, great) == Ok::<bool, Seq<char>>(true),
        compared(small, ">"@, small) == Ok::<bool, Seq<char>>(false),
        compared(small, ">="@, small) == Ok::<bool, Seq<char>>(true),
        compared(small, "<"@, small) == Ok::<bool, Seq<char>>(false),
        compared(small, "<="@, small) == Ok::<bool, Seq<char>>(true),
{
    reveal_strlit(">");
    reveal_strlit(">=");
    reveal_strlit("<");
    reveal_strlit("<=");
    assert(">"@.len() == 1);
    assert(">="@.len() == 2);
    assert("<"@.len() == 1);
    assert("<="@.len() == 2);
    assert("<"@[0] == '<');
    assert("<="@[0] == '<');
    assert(">"@[0] == '>');
    assert(">="@[0] == '>');
    lemma_plus(small);
    lemma_plus(great);
}

proof fn lemma_plus(bits: u64)
    requires
        is_plus(bits),
    ensures
        !is_nan(bits),
        place(bits) == bits,
{
}

/// A number below zero is less than every number from zero on.
pub proof fn law_below_zero_is_less(minus: u64, plus: u64)
    requires
        is_plus(plus),
        0x8000_0000_0000_0000 < minus < 0xfff0_0000_0000_0000,
    ensures
        compared(minus, "<"@, plus) == Ok::<bool, Seq<char>>(true),
        compared(plus, ">"@, minus) == Ok::<bool, Seq<char>>(true),
        compared(minus, ">"@, plus) == Ok::<bool, Seq<char>>(false),
{
    reveal_strlit(">");
    reveal_strlit(">=");
    reveal_strlit("<");
    reveal_strlit("<=");
    assert(">"@.len() == 1);
    assert(">="@.len() == 2);
    assert("<"@.len() == 1);
    assert("<="@.len() == 2);
    assert("<"@[0] == '<');
    assert("<="@[0] == '<');
    assert(">"@[0] == '>');
    assert(">="@[0] == '>');
    lemma_plus(plus);
}

/// A value is equal to itself, under either spelling; an unknown comparison is refused.
pub proof fn law_equal_values_are_equal(v: u64, comparator: Seq<char>, bound: u64)
    ensures
        is_plus(v) ==> compared(v, "=="@, v) == Ok::<bool, Seq<char>>(true),
        compared(v, "="@, bound) == compared(v, "=="@, bound),
        compared(v, comparator, bound) is Err <==> {
            &&& comparator != ">"@
            &&& comparator != ">="@
            &&& comparator != "<"@
            &&& comparator != "<="@
            &&& comparator != "=="@
            &&& comparator != "="@
        },
{
    reveal_strlit(">");
    reveal_strlit(">=");
    reveal_strlit("<");
    reveal_strlit("<=");
    reveal_strlit("==");
    reveal_strlit("=");
    assert(">"@.len() == 1);
    assert(">="@.len() == 2);
    assert("<"@.len() == 1);
    assert("<="@.len() == 2);
    assert("=="@.len() == 2);
    assert("="@.len() == 1);
    assert("<"@[0] == '<');
    assert("<="@[0] == '<');
    assert("="@[0] == '=');
    assert("=="@[0] == '=');
    assert(">"@[0] == '>');
    assert(">="@[0] == '>');
    if is_plus(v) {
        lemma_same_is_near(v);
    }
}

proof fn lemma_same_is_near(v: u64)
    requires
        is_plus(v),
    ensures
        near(v, v),
{
    assert(distance(units(v), units(v)) == 0);
    let unit = pow2(excess_bits(0));
    lemma_pow2_pos(excess_bits(0));
    assert(0nat / unit == 0 && 0nat % unit == 0) by (nonlinear_arith)
        requires
            unit > 0,
    ;
    assert(rounded(0) == 0);
    lemma_pow2_pos(992);
    assert(billionth() > 0) by (nonlinear_arith)
        requires
            billionth() == 0x11_2E0B_E826_D695 * pow2(992),
            pow2(992) > 0,
    ;
}

/// A condition with one bound and no steps is judged by that bound, as severity `alert`;
/// one with steps is judged by them alone.
pub proof fn law_single_bounds_are_alerts(cond: AlertCondition)
    ensures
        cond matches AlertCondition::Threshold { comparator, value, thresholds, .. } ==> {
            &&& thresholds@.len() == 0 ==> cond.steps() == seq![
                EntryV { comparator: comparator@, value, severity: "alert"@ },
            ]
            &&& thresholds@.len() > 0 ==> cond.steps() == entries_of(thresholds@)
        },
        cond matches AlertCondition::Count { comparator, count, thresholds, .. } ==> {
            &&& thresholds@.len() == 0 ==> cond.steps() == seq![
                EntryV { comparator: comparator@, value: count, severity: "alert"@ },
            ]
            &&& thresholds@.len() > 0 ==> cond.steps() == entries_of(thresholds@)
        },
        cond matches AlertCondition::ErrorGroupThreshold { comparator, value, .. }
            ==> cond.steps() == seq![
            EntryV { comparator: comparator@, value, severity: "alert"@ },
        ],
{
}

/// A rule that was well fires as soon as its one bound is crossed, with the severity
/// `alert` and the value that was observed, under its own name and for its own channels;
/// while the bound is not crossed it stays silent.
pub proof fn law_crossed_bounds_fire(
    rule: RuleV,
    cond: AlertCondition,
    comparator: Seq<char>,
    bound: u64,
    v: u64,
    crossed: bool,
)
    requires
        rule.last_severity is None,
        cond.steps() == seq![EntryV { comparator, value: bound, severity: "alert"@ }],
        compared(v, comparator, bound) == Ok::<bool, Seq<char>>(crossed),
    ensures
        crossed ==> (judged(rule, cond, Ok(Some(v))) matches OutcomeV::Fired(a) && a.severity
            == "alert"@ && a.value == v && a.rule_id == rule.id && a.name == rule.name && a.metric
            == rule.metric && a.channel == rule.channel && a.channel_ids == channels_of(
            rule.channels_json,
        )),
        !crossed ==> judged(rule, cond, Ok(Some(v))) == (OutcomeV::NotBreached {
            rule_id: rule.id,
        }),
{
    let steps = cond.steps();
    assert(steps.drop_last() =~= Seq::<EntryV>::empty());
    assert(breached(steps.drop_last(), v) == Ok::<Option<EntryV>, Seq<char>>(None));
    reveal_strlit("ok");
    reveal_strlit("alert");
    assert("ok"@.len() == 2);
    assert("alert"@.len() == 5);
}

/// Without a value there is an error, and never an alert.
pub proof fn law_failed_observations_are_errors(rule: RuleV, cond: AlertCondition, m: Seq<char>)
    ensures
        judged(rule, cond, Err(m)) == (OutcomeV::Error { rule_id: rule.id, error: m }),
        judged(rule, cond, Ok(None)) is Error,
{
}

/// The severities of anomalies, from the worst on.
pub proof fn law_severities_are_ordered(s: Seq<char>)
    ensures
        rank_of("critical"@) > rank_of("high"@),
        rank_of("high"@) > rank_of("medium"@),
        s != "critical"@ && s != "high"@ && s != "medium"@ ==> rank_of("medium"@) > rank_of(s),
{
    reveal_strlit("critical");
    reveal_strlit("high");
    reveal_strlit("medium");
    assert("critical"@.len() == 8);
    assert("high"@.len() == 4);
    assert("medium"@.len() == 6);
}

/// A rule rests between two firings for as many seconds as it is told to, and not longer.
pub proof fn law_rules_rest_for_the_cooldown(last: Timestamp, now: Timestamp, cooldown: i64)
    requires
        last.nanos < 1_000_000_000,
        now.nanos < 1_000_000_000,
        cooldown > 0,
    ensures
        now.secs - last.secs > cooldown ==> rested(Some(last), now, cooldown),
        now.secs - last.secs == cooldown && now.nanos >= last.nanos ==> rested(
            Some(last),
            now,
            cooldown,
        ),
        now.secs - last.secs < cooldown ==> !rested(Some(last), now, cooldown),
        rested(None, now, cooldown),
{
    let secs = now.secs - last.secs;
    let rest = now.nanos - last.nanos;
    let d = secs * 1_000_000_000 + rest;
    if d >= 0 {
        assert(d / 1_000_000_000 == secs + (if rest >= 0 {
            0int
        } else {
            -1
        }));
    }
}

// ---------------------------------------------------------------------
// Delivery
// ---------------------------------------------------------------------
/// Where the alerts of a channel go, by its type and its settings.
pub proof fn law_channels_have_targets(
    settings: Seq<char>,
    m: Map<Seq<char>, JsonV>,
    t: Seq<char>,
    kind: Seq<char>,
)
    requires
        json_read(settings) == Ok::<JsonV, Seq<char>>(JsonV::Obj(m)),
    ensures
        m.contains_key("url"@) && m["url"@] == JsonV::Str(t) ==> target_of("webhook"@, settings)
            == Some(TargetV::Webhook { url: t }),
        target_of("telegram"@, settings) matches Some(TargetV::Telegram {
            bot_token,
            chat_id,
            api_base,
        }) && {
            &&& m.contains_key("bot_token"@) && m["bot_token"@] == JsonV::Str(t) ==> bot_token == t
            &&& m.contains_key("chat_id"@) && m["chat_id"@] == JsonV::Str(t) ==> chat_id == t
            &&& m.contains_key("api_base"@) && m["api_base"@] == JsonV::Str(t) ==> api_base == t
            &&& !m.contains_key("api_base"@) ==> api_base == "https://api.telegram.org"@
        },
        target_of("email"@, settings) matches Some(TargetV::Email { recipients }) && (
        m.contains_key("recipients"@) ==> (m["recipients"@] matches JsonV::Arr(items)
            ==> recipients == texts_among(items))),
        kind != "webhook"@ && kind != "telegram"@ && kind != "email"@ ==> target_of(kind, settings)
            is None,
{
    reveal_strlit("webhook");
    reveal_strlit("telegram");
    reveal_strlit("email");
    assert("webhook"@.len() == 7);
    assert("telegram"@.len() == 8);
    assert("email"@.len() == 5);
}

/// An alert goes to every channel of its rule, and only where there is none to the webhook
/// of the rule.
pub proof fn law_alerts_go_to_their_channels(found: Seq<(Seq<char>, TargetV)>, a: FiredV)
    ensures
        found.len() > 0 ==> alert_targets(found, a) == found,
        found.len() == 0 ==> alert_targets(found, a) == seq![
            ("webhook"@, TargetV::Webhook { url: a.channel }),
        ],
{
}

/// A webhook is told all that is known of an alert, at its own address.
pub proof fn law_webhooks_are_told_everything(
    smtp: Option<SmtpConfig>,
    url: Seq<char>,
    a: FiredV,
    now: Timestamp,
)
    requires
        begins(trim(url), "http://"@) || begins(trim(url), "https://"@),
    ensures
        delivery_of(smtp, TargetV::Webhook { url }, a, now) matches Ok(DeliveryV::Request(
            to,
            JsonV::Obj(m),
        )) && {
            &&& to == trim(url)
            &&& m.contains_key("rule_id"@) && m["rule_id"@] == JsonV::Num(
                dec_int(a.rule_id as int),
            )
            &&& m.contains_key("rule_name"@) && m["rule_name"@] == JsonV::Str(a.name)
            &&& m.contains_key("metric"@) && m["metric"@] == JsonV::Str(a.metric)
            &&& m.contains_key("value"@) && m["value"@] == double_value(a.value)
            &&& m.contains_key("message"@) && m["message"@] == JsonV::Str(a.message)
            &&& m.contains_key("fired_at"@) && m["fired_at"@] == JsonV::Str(
                rfc3339_text(now.secs, now.nanos),
            )
            &&& m.contains_key("source"@) && m["source"@] == JsonV::Str("central-logs"@)
        },
{
    reveal_strlit("rule_id");
    reveal_strlit("rule_name");
    reveal_strlit("metric");
    reveal_strlit("value");
    reveal_strlit("message");
    reveal_strlit("fired_at");
    reveal_strlit("source");
    assert("rule_id"@.len() == 7);
    assert("rule_name"@.len() == 9);
    assert("metric"@.len() == 6);
    assert("value"@.len() == 5);
    assert("message"@.len() == 7);
    assert("fired_at"@.len() == 8);
    assert("source"@.len() == 6);
    assert("message"@[0] == 'm');
    assert("metric"@[0] == 'm');
    assert("rule_id"@[0] == 'r');
    assert("source"@[0] == 's');
    reveal_strlit("http://");
    reveal_strlit("https://");
    assert(trim(url).len() > 0);
}

/// Anything but an address of the web is no webhook.
pub proof fn law_other_webhooks_are_refused(
    smtp: Option<SmtpConfig>,
    url: Seq<char>,
    a: FiredV,
    now: Timestamp,
)
    requires
        !begins(trim(url), "http://"@),
        !begins(trim(url), "https://"@),
    ensures
        delivery_of(smtp, TargetV::Webhook { url }, a, now) is Err,
{
}

/// A Telegram chat gets the alert as a message of the bot that the channel names.
pub proof fn law_chats_get_the_message(
    smtp: Option<SmtpConfig>,
    bot_token: Seq<char>,
    chat_id: Seq<char>,
    api_base: Seq<char>,
    a: FiredV,
    now: Timestamp,
)
    ensures
        ({
            let d = delivery_of(smtp, TargetV::Telegram { bot_token, chat_id, api_base }, a, now);
            &&& trim(bot_token).len() == 0 || trim(chat_id).len() == 0 ==> d is Err
            &&& trim(bot_token).len() > 0 && trim(chat_id).len() > 0 ==> {
                &&& d matches Ok(DeliveryV::Request(to, JsonV::Obj(m))) && to == trim_end_by(
                    api_base,
                    just('/'),
                ) + "/bot"@ + trim(bot_token) + "/sendMessage"@ && m.contains_key("chat_id"@)
                    && m["chat_id"@] == JsonV::Str(chat_id) && m.contains_key("text"@)
                    && m["text"@] == JsonV::Str(alert_message(a))
            }
        }),
{
    reveal_strlit("chat_id");
    reveal_strlit("text");
    reveal_strlit("disable_web_page_preview");
    assert("chat_id"@.len() == 7);
    assert("text"@.len() == 4);
    assert("disable_web_page_preview"@.len() == 24);
}

/// Mail goes to all recipients of a channel, with the rule's name as the subject and the
/// alert as the text, where the mail server is known.
pub proof fn law_recipients_get_mail(
    smtp: Option<SmtpConfig>,
    recipients: Seq<Seq<char>>,
    a: FiredV,
    now: Timestamp,
)
    ensures
        ({
            let d = delivery_of(smtp, TargetV::Email { recipients }, a, now);
            &&& d is Ok <==> smtp is Some && trim(smtp->0.host@).len() > 0 && trim(
                smtp->0.from@,
            ).len() > 0 && recipients.len() > 0
            &&& d is Ok ==> d == Ok::<DeliveryV, Seq<char>>(
                DeliveryV::Mail {
                    subject: "[central-logs] "@ + a.name,
                    text: alert_message(a),
                    recipients,
                },
            )
        }),
{
}

/// The message of an alert names the rule and the metric, and holds what is to be said.
pub proof fn law_messages_hold_the_alert(a: FiredV)
    ensures
        has_text(alert_message(a), a.name),
        has_text(alert_message(a), a.message),
        has_text(alert_message(a), a.metric),
        has_text(alert_message(a), dec_int(a.rule_id as int)),
{
    let x0 = "🚨 central-logs: "@;
    let x1 = "\n"@;
    let x2 = "\nrule #"@;
    let x3 = " · "@;
    let id = dec_int(a.rule_id as int);
    let m = alert_message(a);
    lemma_within(x0, a.name, x1 + a.message + x2 + id + x3 + a.metric, m);
    lemma_within(x0 + a.name + x1, a.message, x2 + id + x3 + a.metric, m);
    lemma_within(x0 + a.name + x1 + a.message + x2, id, x3 + a.metric, m);
    lemma_within(x0 + a.name + x1 + a.message + x2 + id + x3, a.metric, Seq::empty(), m);
}

proof fn lemma_within(a: Seq<char>, b: Seq<char>, c: Seq<char>, m: Seq<char>)
    requires
        m =~= a + b + c,
    ensures
        has_text(m, b),
{
    assert(m.subrange(a.len() as int, (a.len() + b.len()) as int) =~= b);
    assert(occurs_at(m, b, a.len() as int));
}

/// What is said of a bound that was crossed names the rule, the severity and the bound;
/// what is said of a recovery says so.
pub proof fn law_changes_are_told(
    rule: RuleV,
    cond: AlertCondition,
    step: Option<EntryV>,
    observed: u64,
)
    ensures
        step matches Some(e) ==> e.severity != "ok"@ ==> begins(
            change_text(rule, cond, step, observed),
            rule.name + " crossed '"@ + e.severity + "' threshold: "@,
        ),
        step is None ==> begins(
            change_text(rule, cond, step, observed),
            "RECOVERED: '"@ + rule.name + "' is back to normal (was '"@ + severity_before(rule),
        ),
{
    let t = change_text(rule, cond, step, observed);
    match step {
        Some(e) => {
            let head = rule.name + " crossed '"@ + e.severity + "' threshold: "@;
            if e.severity != "ok"@ {
                assert(t.subrange(0, head.len() as int) =~= head);
            }
        },
        None => {
            let head = "RECOVERED: '"@ + rule.name + "' is back to normal (was '"@
                + severity_before(rule);
            assert(t.subrange(0, head.len() as int) =~= head);
        },
    }
}

/// Every channel whose type is known is a target, in its order; others are left out.
pub proof fn law_every_channel_is_a_target(rows: Seq<Option<ChannelRow>>, c: ChannelRow)
    ensures
        target_of(c.1@, c.2@) matches Some(t) ==> targets_of(rows.push(Some(c))) == targets_of(
            rows,
        ).push((c.0@, t)),
        target_of(c.1@, c.2@) is None ==> targets_of(rows.push(Some(c))) == targets_of(rows),
        targets_of(rows.push(None)) == targets_of(rows),
{
    assert(rows.push(Some(c)).drop_last() =~= rows);
    assert(rows.push(None).drop_last() =~= rows);
}

/// Deliveries that succeeded are counted, and no others.
pub proof fn law_successes_are_counted(results: Seq<bool>)
    ensures
        successes(results.push(true)) == successes(results) + 1,
        successes(results.push(false)) == successes(results),
        successes(Seq::empty()) == 0,
{
    assert(results.push(true).drop_last() =~= results);
    assert(results.push(false).drop_last() =~= results);
}

/// What is reported of a refusal names the target and the status, and hints at what to check.
pub proof fn law_refusals_are_reported(
    url: Seq<char>,
    token: Seq<char>,
    chat: Seq<char>,
    base: Seq<char>,
    code: u16,
    status: Seq<char>,
    body: Seq<char>,
)
    ensures
        refusal_text(TargetV::Webhook { url }, code, status, body) == "webhook HTTP "@ + status,
        begins(
            refusal_text(
                TargetV::Telegram { bot_token: token, chat_id: chat, api_base: base },
                code,
                status,
                body,
            ),
            "telegram HTTP "@ + status,
        ),
        !has_text(body, "chat not found"@) && has_text(body, "Unauthorized"@) ==> telegram_hint_of(
            code,
            body,
        ) == " (unauthorized — check bot_token)"@,
{
    let t = refusal_text(
        TargetV::Telegram { bot_token: token, chat_id: chat, api_base: base },
        code,
        status,
        body,
    );
    let head = "telegram HTTP "@ + status;
    assert(t.subrange(0, head.len() as int) =~= head);
}

/// The condition that counts is named in what is told: a filter, an error group, or a metric.
pub proof fn law_subjects_are_named(cond: AlertCondition, metric: Seq<char>)
    ensures
        cond matches AlertCondition::Count { filter, .. } ==> subject_of(cond, metric)
            == "rows matching '"@ + filter@ + "'"@,
        cond is Threshold ==> subject_of(cond, metric) == metric,
        cond matches AlertCondition::ErrorGroupThreshold { fingerprint, .. } ==> (
        fingerprint matches Some(fp) ==> subject_of(cond, metric) == "error group "@ + fp@),
{
}

/// A condition is evaluated over its window, which is at least a second.
pub proof fn law_windows_of_conditions(cond: AlertCondition)
    ensures
        cond matches AlertCondition::Threshold { window_secs, .. } ==> window_secs >= 1
            ==> cond.span() == window_secs,
        cond matches AlertCondition::Count { window_secs, .. } ==> window_secs >= 1 ==> cond.span()
            == window_secs,
        cond matches AlertCondition::Anomaly { window_secs, cooldown_secs, .. } ==> (window_secs
            >= 1 ==> cond.span() == window_secs) && cond.cooldown() == cooldown_secs,
        cond matches AlertCondition::ErrorGroupThreshold { window_secs, .. } ==> window_secs >= 1
            ==> cond.span() == window_secs,
        cond.span() >= 1,
{
}

/// The channels of a rule are the numbers of its list; anything else names none.
pub proof fn law_channels_are_numbers(text: Seq<char>, n: i64)
    requires
        json_read(text) == Ok::<JsonV, Seq<char>>(
            JsonV::Arr(seq![JsonV::Num(dec_int(n as int))]),
        ),
    ensures
        channels_of(Some(text)) == seq![n],
        channels_of(None) == Seq::<i64>::empty(),
{
    law_numbers_read_back(n);
    let items = seq![JsonV::Num(dec_int(n as int))];
    assert(items.drop_last() =~= Seq::<JsonV>::empty());
    assert(all_ints(items.drop_last()) == Some(Seq::<i64>::empty()));
    assert(all_ints(items) == Some(Seq::<i64>::empty().push(n)));
    assert(Seq::<i64>::empty().push(n) =~= seq![n]);
}

/// Of the anomalies that are equally severe the first counts.
pub proof fn law_the_first_of_the_most_severe(rows: Seq<(u64, Seq<char>)>)
    requires
        rows.len() > 0,
    ensures
        0 <= most_severe(rows) < rows.len(),
        forall|i: int|
            0 <= i < most_severe(rows) ==> rank_of((#[trigger] rows[i]).1) < rank_of(
                rows[most_severe(rows)].1,
            ),
        forall|i: int|
            0 <= i < rows.len() ==> rank_of((#[trigger] rows[i]).1) <= rank_of(
                rows[most_severe(rows)].1,
            ),
    decreases rows.len(),
{
    if rows.len() > 1 {
        let d = rows.drop_last();
        law_the_first_of_the_most_severe(d);
        assert forall|i: int| 0 <= i < d.len() implies #[trigger] rows[i] == d[i] by {}
    }
}

} // verus!

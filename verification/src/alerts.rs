//! Alert rules: what is asked of the store for a rule, how the answer is judged,
//! and what is sent where a rule fires.
//!
//! A rule fires where its severity changes, and is silent while it stays the same.
use vstd::prelude::*;
use vstd::string::*;

use crate::client::Request;
use crate::config::SmtpConfig;
use crate::double::{at_most_double, is_at_most, is_less, is_near, less, near};
use crate::error::{Error, ErrorV, error_text};
use crate::float::{double_text, fixed_text, write_double, write_fixed};
use crate::json::{
    Json, JsonMap, JsonV, double_value, field, int_of, json_double, json_read, jsons_view,
    lemma_json_view, read_json, text_of, text_or,
};
use crate::query::{
    ColumnType, ColumnWhitelist, FilterFault, fault_text, filter_of, filter_sql, parse_filter,
};
use crate::text::{
    begins, cat, cat3, contains_text, dec_int, dec_of_int, has_text, just, opt_text, same,
    starts_with, texts, trim, trim_end_by, trim_end_char, trimmed,
};
use crate::time::{Timestamp, rfc3339_text, to_rfc3339};

verus! {

// ---------------------------------------------------------------------
// Rules and conditions
// ---------------------------------------------------------------------
/// A step of a rule that escalates. The last step that is breached counts.
#[derive(Debug, Clone)]
pub struct ThresholdEntry {
    pub comparator: String,
    /// The bound, as its double-precision bit pattern.
    pub value: u64,
    pub severity: String,
}

/// What a [`ThresholdEntry`] says.
#[verifier::ext_equal]
pub struct EntryV {
    pub comparator: Seq<char>,
    pub value: u64,
    pub severity: Seq<char>,
}

impl View for ThresholdEntry {
    type V = EntryV;

    open spec fn view(&self) -> EntryV {
        EntryV { comparator: self.comparator@, value: self.value, severity: self.severity@ }
    }
}

/// What steps say.
pub open spec fn entries_of(v: Seq<ThresholdEntry>) -> Seq<EntryV> {
    Seq::new(v.len(), |i: int| v[i]@)
}

/// When a rule is breached. Numbers stand as double-precision bit patterns.
#[derive(Debug, Clone)]
pub enum AlertCondition {
    /// A metric over a trailing window crosses a bound.
    Threshold {
        comparator: String,
        value: u64,
        window_secs: i64,
        cooldown_secs: i64,
        /// Steps; where there are any, the single bound does not count.
        thresholds: Vec<ThresholdEntry>,
    },
    /// An anomaly of at least some severity came up.
    Anomaly { min_severity: String, window_secs: i64, cooldown_secs: i64 },
    /// The number of rows that match a filter crosses a bound.
    Count {
        filter: String,
        comparator: String,
        count: u64,
        window_secs: i64,
        cooldown_secs: i64,
        thresholds: Vec<ThresholdEntry>,
    },
    /// The number of events of an error group, or of all, crosses a bound.
    ErrorGroupThreshold {
        fingerprint: Option<String>,
        /// `fatal`, or anything else for errors too.
        min_level: String,
        comparator: String,
        value: u64,
        window_secs: i64,
        cooldown_secs: i64,
    },
}

impl AlertCondition {
    /// The window of the condition.
    pub open spec fn window(&self) -> i64 {
        match *self {
            AlertCondition::Threshold { window_secs, .. } => window_secs,
            AlertCondition::Anomaly { window_secs, .. } => window_secs,
            AlertCondition::Count { window_secs, .. } => window_secs,
            AlertCondition::ErrorGroupThreshold { window_secs, .. } => window_secs,
        }
    }

    /// The window of the condition, at least a second.
    pub open spec fn span(&self) -> int {
        if self.window() < 1 {
            1
        } else {
            self.window() as int
        }
    }

    /// The time between two firings on anomalies.
    pub open spec fn cooldown(&self) -> i64 {
        match *self {
            AlertCondition::Threshold { cooldown_secs, .. } => cooldown_secs,
            AlertCondition::Anomaly { cooldown_secs, .. } => cooldown_secs,
            AlertCondition::Count { cooldown_secs, .. } => cooldown_secs,
            AlertCondition::ErrorGroupThreshold { cooldown_secs, .. } => cooldown_secs,
        }
    }

    /// The window of the condition, in seconds.
    pub fn window_secs(&self) -> (r: i64)
        ensures
            r == self.window(),
    {
        match self {
            AlertCondition::Threshold { window_secs, .. } => *window_secs,
            AlertCondition::Anomaly { window_secs, .. } => *window_secs,
            AlertCondition::Count { window_secs, .. } => *window_secs,
            AlertCondition::ErrorGroupThreshold { window_secs, .. } => *window_secs,
        }
    }

    /// The window that a rule is evaluated over: at least a second.
    pub fn effective_window(&self) -> (r: i64)
        ensures
            r == self.span(),
    {
        let w: i64 = self.window_secs();
        if w < 1 {
            1
        } else {
            w
        }
    }

    /// The time between two firings on anomalies, in seconds.
    pub fn cooldown_secs(&self) -> (r: i64)
        ensures
            r == self.cooldown(),
    {
        match self {
            AlertCondition::Threshold { cooldown_secs, .. } => *cooldown_secs,
            AlertCondition::Anomaly { cooldown_secs, .. } => *cooldown_secs,
            AlertCondition::Count { cooldown_secs, .. } => *cooldown_secs,
            AlertCondition::ErrorGroupThreshold { cooldown_secs, .. } => *cooldown_secs,
        }
    }

    /// The steps of the condition.
    pub open spec fn steps(&self) -> Seq<EntryV> {
        match *self {
            AlertCondition::Threshold { comparator, value, thresholds, .. } => effective_steps(
                comparator@,
                value,
                entries_of(thresholds@),
            ),
            AlertCondition::Count { comparator, count, thresholds, .. } => effective_steps(
                comparator@,
                count,
                entries_of(thresholds@),
            ),
            AlertCondition::ErrorGroupThreshold { comparator, value, .. } => effective_steps(
                comparator@,
                value,
                Seq::empty(),
            ),
            AlertCondition::Anomaly { .. } => Seq::empty(),
        }
    }
}

/// The steps that count: those that are listed, else one of the single bound.
pub open spec fn effective_steps(
    comparator: Seq<char>,
    value: u64,
    thresholds: Seq<EntryV>,
) -> Seq<EntryV> {
    if thresholds.len() > 0 {
        thresholds
    } else {
        seq![EntryV { comparator, value, severity: "alert"@ }]
    }
}

/// The window of a condition that names none, in seconds.
pub fn default_window_secs() -> (r: i64)
    ensures
        r == 300,
{
    300
}

/// The time between two firings of a condition that names none, in seconds.
pub fn default_cooldown_secs() -> (r: i64)
    ensures
        r == 900,
{
    900
}

/// The least severity of an anomaly in a condition that names none.
pub fn default_min_severity() -> (r: String)
    ensures
        r@ == "high"@,
{
    "high".to_owned()
}

/// The comparison of a count in a condition that names none.
pub fn default_count_comparator() -> (r: String)
    ensures
        r@ == ">="@,
{
    ">=".to_owned()
}

/// The least level of an error in a condition that names none.
pub fn default_min_level() -> (r: String)
    ensures
        r@ == "error"@,
{
    "error".to_owned()
}

/// The severity of a step that names none.
pub fn default_entry_severity() -> (r: String)
    ensures
        r@ == "alert"@,
{
    "alert".to_owned()
}

/// A rule that is evaluated.
#[derive(Debug, Clone)]
pub struct ActiveRule {
    pub id: i64,
    pub name: String,
    pub metric: String,
    /// The address of a webhook, for a rule without channels.
    pub channel: String,
    /// The ids of channels, as a list in JSON.
    pub channels_json: Option<String>,
    pub last_fired_at: Option<Timestamp>,
    /// The severity at the last evaluation; none where all was well.
    pub last_severity: Option<String>,
}

/// What a [`ActiveRule`] says.
#[verifier::ext_equal]
pub struct RuleV {
    pub id: i64,
    pub name: Seq<char>,
    pub metric: Seq<char>,
    pub channel: Seq<char>,
    pub channels_json: Option<Seq<char>>,
    pub last_fired_at: Option<Timestamp>,
    pub last_severity: Option<Seq<char>>,
}

impl View for ActiveRule {
    type V = RuleV;

    open spec fn view(&self) -> RuleV {
        RuleV {
            id: self.id,
            name: self.name@,
            metric: self.metric@,
            channel: self.channel@,
            channels_json: opt_text(self.channels_json),
            last_fired_at: self.last_fired_at,
            last_severity: opt_text(self.last_severity),
        }
    }
}

/// A change of a rule's severity, which is notified.
#[derive(Debug, Clone)]
pub struct FiredAlert {
    pub rule_id: i64,
    pub name: String,
    pub metric: String,
    /// The value that was observed, as its double-precision bit pattern.
    pub value: u64,
    pub message: String,
    /// The new severity; `ok` says that all is well again.
    pub severity: String,
    pub channel: String,
    pub channel_ids: Vec<i64>,
}

/// What a [`FiredAlert`] says.
#[verifier::ext_equal]
pub struct FiredV {
    pub rule_id: i64,
    pub name: Seq<char>,
    pub metric: Seq<char>,
    pub value: u64,
    pub message: Seq<char>,
    pub severity: Seq<char>,
    pub channel: Seq<char>,
    pub channel_ids: Seq<i64>,
}

impl View for FiredAlert {
    type V = FiredV;

    open spec fn view(&self) -> FiredV {
        FiredV {
            rule_id: self.rule_id,
            name: self.name@,
            metric: self.metric@,
            value: self.value,
            message: self.message@,
            severity: self.severity@,
            channel: self.channel@,
            channel_ids: self.channel_ids@,
        }
    }
}

/// What came of a rule.
#[derive(Debug, Clone)]
pub enum EvalOutcome {
    Fired(FiredAlert),
    NotBreached { rule_id: i64 },
    Error { rule_id: i64, error: String },
}

/// What an [`EvalOutcome`] says.
pub enum OutcomeV {
    Fired(FiredV),
    NotBreached { rule_id: i64 },
    Error { rule_id: i64, error: Seq<char> },
}

impl View for EvalOutcome {
    type V = OutcomeV;

    open spec fn view(&self) -> OutcomeV {
        match *self {
            EvalOutcome::Fired(f) => OutcomeV::Fired(f@),
            EvalOutcome::NotBreached { rule_id } => OutcomeV::NotBreached { rule_id },
            EvalOutcome::Error { rule_id, error } => OutcomeV::Error { rule_id, error: error@ },
        }
    }
}

// ---------------------------------------------------------------------
// Comparing
// ---------------------------------------------------------------------
/// How a value compares to a bound, or the words in which the comparison is
/// refused.
pub open spec fn compared(value: u64, comparator: Seq<char>, threshold: u64) -> Result<
    bool,
    Seq<char>,
> {
    if comparator == ">"@ {
        Ok(less(threshold, value))
    } else if comparator == ">="@ {
        Ok(at_most_double(threshold, value))
    } else if comparator == "<"@ {
        Ok(less(value, threshold))
    } else if comparator == "<="@ {
        Ok(at_most_double(value, threshold))
    } else if comparator == "=="@ || comparator == "="@ {
        Ok(near(value, threshold))
    } else {
        Err("unknown comparator '"@ + comparator + "' (expected >, >=, <, <=, or ==)"@)
    }
}

/// Compares a value to a bound. Two values are equal where they differ by less than
/// a billionth.
pub fn compare(value: u64, comparator: &str, threshold: u64) -> (r: Result<bool, Error>)
    ensures
        match r {
            Ok(b) => compared(value, comparator@, threshold) == Ok::<bool, Seq<char>>(b),
            Err(e) => compared(value, comparator@, threshold) matches Err(m) && e@
                == ErrorV::InvalidInput(m),
        },
{
    if same(comparator, ">") {
        Ok(is_less(threshold, value))
    } else if same(comparator, ">=") {
        Ok(is_at_most(threshold, value))
    } else if same(comparator, "<") {
        Ok(is_less(value, threshold))
    } else if same(comparator, "<=") {
        Ok(is_at_most(value, threshold))
    } else if same(comparator, "==") || same(comparator, "=") {
        Ok(is_near(value, threshold))
    } else {
        Err(
            Error::invalid_input(
                cat3(
                    "unknown comparator '",
                    comparator,
                    "' (expected >, >=, <, <=, or ==)",
                ),
            ),
        )
    }
}

/// The last step that is breached, or why a step cannot be judged.
pub open spec fn breached(steps: Seq<EntryV>, observed: u64) -> Result<Option<EntryV>, Seq<char>>
    decreases steps.len(),
{
    if steps.len() == 0 {
        Ok(None)
    } else {
        match breached(steps.drop_last(), observed) {
            Err(m) => Err(m),
            Ok(current) => match compared(observed, steps.last().comparator, steps.last().value) {
                Err(m) => Err(error_text(ErrorV::InvalidInput(m))),
                Ok(true) => Ok(Some(steps.last())),
                Ok(false) => Ok(current),
            },
        }
    }
}

proof fn lemma_breached_err(steps: Seq<EntryV>, observed: u64, n: int)
    requires
        0 <= n <= steps.len(),
        breached(steps.take(n), observed) is Err,
    ensures
        breached(steps, observed) == breached(steps.take(n), observed),
    decreases steps.len() - n,
{
    if n == steps.len() {
        assert(steps.take(n) == steps);
    } else {
        assert(steps.take(n + 1).drop_last() == steps.take(n));
        lemma_breached_err(steps, observed, n + 1);
    }
}

fn last_breached(steps: &Vec<ThresholdEntry>, observed: u64) -> (r: Result<Option<usize>, String>)
    ensures
        match r {
            Ok(Some(i)) => i < steps@.len() && breached(entries_of(steps@), observed) == Ok::<
                Option<EntryV>,
                Seq<char>,
            >(Some(steps@[i as int]@)),
            Ok(None) => breached(entries_of(steps@), observed) == Ok::<
                Option<EntryV>,
                Seq<char>,
            >(None),
            Err(m) => breached(entries_of(steps@), observed) == Err::<Option<EntryV>, Seq<char>>(
                m@,
            ),
        },
{
    let ghost all = entries_of(steps@);
    let mut current: Option<usize> = None;
    for i in 0..steps.len()
        invariant
            all == entries_of(steps@),
            breached(all.take(i as int), observed) == (match current {
                Some(k) => Ok::<Option<EntryV>, Seq<char>>(Some(steps@[k as int]@)),
                None => Ok::<Option<EntryV>, Seq<char>>(None),
            }),
            current matches Some(k) ==> k < steps@.len(),
    {
        assert(all.take(i + 1).drop_last() == all.take(i as int));
        assert(all.take(i + 1).last() == steps@[i as int]@);
        match compare(observed, steps[i].comparator.as_str(), steps[i].value) {
            Ok(b) => {
                if b {
                    current = Some(i);
                }
            },
            Err(e) => {
                proof {
                    lemma_breached_err(all, observed, i + 1);
                }
                return Err(e.message());
            },
        }
    }
    assert(all.take(all.len() as int) == all);
    Ok(current)
}

fn copy_entry(e: &ThresholdEntry) -> (r: ThresholdEntry)
    ensures
        r@ == e@,
{
    ThresholdEntry {
        comparator: e.comparator.clone(),
        value: e.value,
        severity: e.severity.clone(),
    }
}

/// The steps that count: those that are listed, else one of the single bound.
pub fn cond_entries(comparator: &str, value: u64, thresholds: &Vec<ThresholdEntry>) -> (r: Vec<
    ThresholdEntry,
>)
    ensures
        entries_of(r@) == effective_steps(comparator@, value, entries_of(thresholds@)),
{
    let mut out: Vec<ThresholdEntry> = Vec::new();
    let n: usize = thresholds.len();
    if n > 0 {
        for i in 0..n
            invariant
                n == thresholds@.len(),
                out@.len() == i,
                forall|k: int| 0 <= k < i ==> (#[trigger] out@[k])@ == thresholds@[k]@,
        {
            out.push(copy_entry(&thresholds[i]));
        }
        assert(entries_of(out@) =~= entries_of(thresholds@));
        return out;
    }
    out.push(
        ThresholdEntry {
            comparator: comparator.to_owned(),
            value,
            severity: "alert".to_owned(),
        },
    );
    assert(entries_of(out@) =~= seq![
        EntryV { comparator: comparator@, value, severity: "alert"@ },
    ]);
    out
}

// ---------------------------------------------------------------------
// Judging
// ---------------------------------------------------------------------
/// Integers out of values, if all of them are.
pub open spec fn all_ints(items: Seq<JsonV>) -> Option<Seq<i64>>
    decreases items.len(),
{
    if items.len() == 0 {
        Some(Seq::empty())
    } else {
        match (all_ints(items.drop_last()), int_of(items.last())) {
            (Some(done), Some(i)) => Some(done.push(i)),
            _ => None,
        }
    }
}

/// The channels of a rule: a list of ids in JSON. Anything else names none.
pub open spec fn channels_of(text: Option<Seq<char>>) -> Seq<i64> {
    match text {
        Some(s) => match json_read(s) {
            Ok(JsonV::Arr(items)) => match all_ints(items) {
                Some(ids) => ids,
                None => Seq::empty(),
            },
            _ => Seq::empty(),
        },
        None => Seq::empty(),
    }
}

proof fn lemma_not_all_ints(items: Seq<JsonV>, n: int)
    requires
        0 <= n <= items.len(),
        all_ints(items.take(n)) is None,
    ensures
        all_ints(items) is None,
    decreases items.len() - n,
{
    if n == items.len() {
        assert(items.take(n) == items);
    } else {
        assert(items.take(n + 1).drop_last() == items.take(n));
        lemma_not_all_ints(items, n + 1);
    }
}

/// The channels of a rule.
pub fn channel_ids(text: &Option<String>) -> (r: Vec<i64>)
    ensures
        r@ == channels_of(opt_text(*text)),
{
    let mut out: Vec<i64> = Vec::new();
    let s = match text {
        Some(s) => s,
        None => return out,
    };
    let v = match read_json(s.as_str()) {
        Ok(v) => v,
        Err(_) => return out,
    };
    let items = match v.as_array() {
        Some(items) => items,
        None => return out,
    };
    let ghost all = jsons_view(items@);
    for i in 0..items.len()
        invariant
            all == jsons_view(items@),
            all_ints(all.take(i as int)) == Some(out@),
            channels_of(opt_text(*text)) == (match all_ints(all) {
                Some(ids) => ids,
                None => Seq::empty(),
            }),
    {
        assert(all.take(i + 1).drop_last() == all.take(i as int));
        match items[i].as_i64() {
            Some(n) => out.push(n),
            None => {
                proof {
                    lemma_not_all_ints(all, i + 1);
                }
                return Vec::new();
            },
        }
    }
    assert(all.take(all.len() as int) == all);
    out
}

/// The severity before an evaluation.
pub open spec fn severity_before(rule: RuleV) -> Seq<char> {
    match rule.last_severity {
        Some(s) => s,
        None => "ok"@,
    }
}

/// The severity of the step that is breached.
pub open spec fn severity_now(step: Option<EntryV>) -> Seq<char> {
    match step {
        Some(e) => e.severity,
        None => "ok"@,
    }
}

/// What a condition is about.
pub open spec fn subject_of(cond: AlertCondition, metric: Seq<char>) -> Seq<char> {
    match cond {
        AlertCondition::Count { filter, .. } => "rows matching '"@ + filter@ + "'"@,
        AlertCondition::ErrorGroupThreshold { fingerprint, .. } => match fingerprint {
            Some(fp) => "error group "@ + fp@,
            None => "error-group events"@,
        },
        _ => metric,
    }
}

fn subject(cond: &AlertCondition, metric: &str) -> (r: String)
    ensures
        r@ == subject_of(*cond, metric@),
{
    match cond {
        AlertCondition::Count { filter, .. } => cat3("rows matching '", filter.as_str(), "'"),
        AlertCondition::ErrorGroupThreshold { fingerprint, .. } => match fingerprint {
            Some(fp) => cat("error group ", fp.as_str()),
            None => "error-group events".to_owned(),
        },
        _ => metric.to_owned(),
    }
}

/// What is said of a rule whose severity has changed.
pub open spec fn change_text(
    rule: RuleV,
    cond: AlertCondition,
    step: Option<EntryV>,
    observed: u64,
) -> Seq<char> {
    let about = subject_of(cond, rule.metric);
    let window = dec_int(cond.span());
    match step {
        Some(e) => if e.severity != "ok"@ {
            rule.name + " crossed '"@ + e.severity + "' threshold: "@ + about + " "@ + e.comparator
                + " "@ + double_text(e.value) + " over the last "@ + window + "s (current: "@
                + fixed_text(observed, 3) + ")"@
        } else {
            recovery_text(rule, about, observed, window)
        },
        None => recovery_text(rule, about, observed, window),
    }
}

/// What is said of a rule that is well again.
pub open spec fn recovery_text(
    rule: RuleV,
    about: Seq<char>,
    observed: u64,
    window: Seq<char>,
) -> Seq<char> {
    "RECOVERED: '"@ + rule.name + "' is back to normal (was '"@ + severity_before(rule) + "'); "@
        + about + " = "@ + fixed_text(observed, 3) + " over the last "@ + window + "s"@
}

fn recovery_message(rule: &ActiveRule, about: &str, observed: u64, window: &str) -> (r: String)
    ensures
        r@ == recovery_text(rule@, about@, observed, window@),
{
    let before = match &rule.last_severity {
        Some(s) => s.clone(),
        None => "ok".to_owned(),
    };
    let value = write_fixed(observed, 3);
    let mut s = cat3("RECOVERED: '", rule.name.as_str(), "' is back to normal (was '");
    s.append(before.as_str());
    s.append("'); ");
    s.append(about);
    s.append(" = ");
    s.append(value.as_str());
    s.append(" over the last ");
    s.append(window);
    s.append("s");
    s
}

fn change_message(
    rule: &ActiveRule,
    cond: &AlertCondition,
    step: Option<&ThresholdEntry>,
    observed: u64,
) -> (r: String)
    ensures
        r@ == change_text(
            rule@,
            *cond,
            match step {
                Some(e) => Some(e@),
                None => None,
            },
            observed,
        ),
{
    let about = subject(cond, rule.metric.as_str());
    let window = dec_of_int(cond.effective_window());
    match step {
        Some(e) => if !same(e.severity.as_str(), "ok") {
            let bound = write_double(e.value);
            let value = write_fixed(observed, 3);
            let mut s = cat3(rule.name.as_str(), " crossed '", e.severity.as_str());
            s.append("' threshold: ");
            s.append(about.as_str());
            s.append(" ");
            s.append(e.comparator.as_str());
            s.append(" ");
            s.append(bound.as_str());
            s.append(" over the last ");
            s.append(window.as_str());
            s.append("s (current: ");
            s.append(value.as_str());
            s.append(")");
            s
        } else {
            recovery_message(rule, about.as_str(), observed, window.as_str())
        },
        None => recovery_message(rule, about.as_str(), observed, window.as_str()),
    }
}

/// A rule that fires.
pub open spec fn fired_of(
    rule: RuleV,
    value: u64,
    severity: Seq<char>,
    message: Seq<char>,
) -> FiredV {
    FiredV {
        rule_id: rule.id,
        name: rule.name,
        metric: rule.metric,
        value,
        message,
        severity,
        channel: rule.channel,
        channel_ids: channels_of(rule.channels_json),
    }
}

fn fire(rule: &ActiveRule, value: u64, severity: &str, message: String) -> (r: EvalOutcome)
    ensures
        r@ == OutcomeV::Fired(fired_of(rule@, value, severity@, message@)),
{
    EvalOutcome::Fired(
        FiredAlert {
            rule_id: rule.id,
            name: rule.name.clone(),
            metric: rule.metric.clone(),
            value,
            message,
            severity: severity.to_owned(),
            channel: rule.channel.clone(),
            channel_ids: channel_ids(&rule.channels_json),
        },
    )
}

/// What comes of a rule by the value that was observed. A metric that nobody knows,
/// an observation that failed and a comparison that nobody knows are errors; else
/// the rule fires where its severity has changed.
pub open spec fn judged(
    rule: RuleV,
    cond: AlertCondition,
    observed: Result<Option<u64>, Seq<char>>,
) -> OutcomeV {
    match observed {
        Err(m) => OutcomeV::Error { rule_id: rule.id, error: m },
        Ok(None) => OutcomeV::Error {
            rule_id: rule.id,
            error: "unsupported metric '"@ + rule.metric
                + "' (expected volume, error_rate, p50_latency, p95_latency, or p99_latency)"@,
        },
        Ok(Some(v)) => match breached(cond.steps(), v) {
            Err(m) => OutcomeV::Error { rule_id: rule.id, error: m },
            Ok(step) => if severity_now(step) == severity_before(rule) {
                OutcomeV::NotBreached { rule_id: rule.id }
            } else {
                OutcomeV::Fired(
                    fired_of(rule, v, severity_now(step), change_text(rule, cond, step, v)),
                )
            },
        },
    }
}

/// What an observation says.
pub open spec fn observed_view(o: Result<Option<u64>, String>) -> Result<Option<u64>, Seq<char>> {
    match o {
        Ok(v) => Ok(v),
        Err(m) => Err(m@),
    }
}

fn steps_of(cond: &AlertCondition) -> (r: Vec<ThresholdEntry>)
    requires
        !(*cond is Anomaly),
    ensures
        entries_of(r@) == cond.steps(),
{
    match cond {
        AlertCondition::Threshold { comparator, value, thresholds, .. } => cond_entries(
            comparator.as_str(),
            *value,
            thresholds,
        ),
        AlertCondition::Count { comparator, count, thresholds, .. } => cond_entries(
            comparator.as_str(),
            *count,
            thresholds,
        ),
        AlertCondition::ErrorGroupThreshold { comparator, value, .. } => {
            let none: Vec<ThresholdEntry> = Vec::new();
            assert(entries_of(none@) =~= Seq::<EntryV>::empty());
            cond_entries(comparator.as_str(), *value, &none)
        },
        AlertCondition::Anomaly { .. } => Vec::new(),
    }
}

/// Judges a rule by the value that was observed; none where the store knows no such
/// metric. Anomalies are judged by [`evaluate_anomaly`].
pub fn evaluate_rule(
    rule: &ActiveRule,
    cond: &AlertCondition,
    observed: Result<Option<u64>, String>,
) -> (r: EvalOutcome)
    requires
        !(*cond is Anomaly),
    ensures
        r@ == judged(rule@, *cond, observed_view(observed)),
{
    let value: u64 = match observed {
        Err(m) => return EvalOutcome::Error { rule_id: rule.id, error: m },
        Ok(None) => return EvalOutcome::Error {
            rule_id: rule.id,
            error: cat3(
                "unsupported metric '",
                rule.metric.as_str(),
                "' (expected volume, error_rate, p50_latency, p95_latency, or p99_latency)",
            ),
        },
        Ok(Some(v)) => v,
    };
    let steps = steps_of(cond);
    let step = match last_breached(&steps, value) {
        Err(m) => return EvalOutcome::Error { rule_id: rule.id, error: m },
        Ok(Some(i)) => Some(&steps[i]),
        Ok(None) => None,
    };
    let now = match step {
        Some(e) => e.severity.as_str(),
        None => "ok",
    };
    let before = match &rule.last_severity {
        Some(s) => s.as_str(),
        None => "ok",
    };
    if same(now, before) {
        return EvalOutcome::NotBreached { rule_id: rule.id };
    }
    let message = change_message(rule, cond, step, value);
    fire(rule, value, now, message)
}

/// What comes of a rule whose condition cannot be read.
pub fn bad_condition(rule: &ActiveRule, e: &str) -> (r: EvalOutcome)
    ensures
        r@ == (OutcomeV::Error { rule_id: rule.id, error: "bad condition_json: "@ + e@ }),
{
    EvalOutcome::Error { rule_id: rule.id, error: cat("bad condition_json: ", e) }
}

// ---------------------------------------------------------------------
// Anomalies
// ---------------------------------------------------------------------
/// How severe an anomaly is.
pub open spec fn rank_of(s: Seq<char>) -> u8 {
    if s == "critical"@ {
        3
    } else if s == "high"@ {
        2
    } else if s == "medium"@ {
        1
    } else {
        0
    }
}

/// How severe an anomaly is.
pub fn severity_rank(s: &str) -> (r: u8)
    ensures
        r == rank_of(s@),
{
    if same(s, "critical") {
        3
    } else if same(s, "high") {
        2
    } else if same(s, "medium") {
        1
    } else {
        0
    }
}

/// Anomalies, each by its score and its severity.
pub open spec fn scores_of(rows: Seq<(u64, String)>) -> Seq<(u64, Seq<char>)> {
    Seq::new(rows.len(), |i: int| (rows[i].0, rows[i].1@))
}

/// The place of the first anomaly that none is more severe than.
pub open spec fn most_severe(rows: Seq<(u64, Seq<char>)>) -> int
    decreases rows.len(),
{
    if rows.len() <= 1 {
        0
    } else {
        let k = most_severe(rows.drop_last());
        if rank_of(rows.last().1) > rank_of(rows[k].1) {
            rows.len() - 1
        } else {
            k
        }
    }
}

/// The most severe anomaly, if it is severe enough.
pub open spec fn severe_anomaly(rows: Seq<(u64, Seq<char>)>, min: Seq<char>) -> Option<
    (u64, Seq<char>),
> {
    if rows.len() > 0 && rank_of(rows[most_severe(rows)].1) >= rank_of(min) {
        Some(rows[most_severe(rows)])
    } else {
        None
    }
}

/// The place of the most severe anomaly, the first of several, if it is severe
/// enough.
pub fn anomaly_meets_severity(rows: &Vec<(u64, String)>, min_severity: &str) -> (r: Option<usize>)
    ensures
        match r {
            Some(i) => i < rows@.len() && severe_anomaly(scores_of(rows@), min_severity@) == Some(
                scores_of(rows@)[i as int],
            ),
            None => severe_anomaly(scores_of(rows@), min_severity@) is None,
        },
{
    let n: usize = rows.len();
    if n == 0 {
        return None;
    }
    let ghost all = scores_of(rows@);
    let mut best: usize = 0;
    let mut i: usize = 1;
    while i < n
        invariant
            n == rows@.len(),
            all == scores_of(rows@),
            1 <= i <= n,
            best < i,
            best == most_severe(all.take(i as int)),
        decreases n - i,
    {
        assert(all.take(i + 1).drop_last() == all.take(i as int));
        assert(all.take(i as int)[best as int] == all[best as int]);
        assert(all.take(i + 1).last() == all[i as int]);
        if severity_rank(rows[i].1.as_str()) > severity_rank(rows[best].1.as_str()) {
            best = i;
        }
        i = i + 1;
    }
    assert(all.take(n as int) == all);
    if severity_rank(rows[best].1.as_str()) >= severity_rank(min_severity) {
        Some(best)
    } else {
        None
    }
}

/// A leap second between two points in time that their seconds do not count: one
/// within which the earlier time of day stands.
pub open spec fn uncounted_leap(from: Timestamp, to: Timestamp) -> int {
    if to.secs % 86_400 > from.secs % 86_400 && from.nanos >= 1_000_000_000 {
        1
    } else if to.secs % 86_400 < from.secs % 86_400 && to.nanos >= 1_000_000_000 {
        -1
    } else {
        0
    }
}

/// The whole seconds from one point in time to another, with what is left of a
/// second dropped.
pub open spec fn whole_seconds(from: Timestamp, to: Timestamp) -> int {
    let secs = to.secs - from.secs + uncounted_leap(from, to);
    let d = secs * 1_000_000_000 + (to.nanos - from.nanos);
    if d >= 0 {
        d / 1_000_000_000
    } else {
        -((-d) / 1_000_000_000)
    }
}

/// The seconds since midnight.
fn second_of_day(secs: i64) -> (r: u64)
    ensures
        r == secs as int % 86_400,
{
    if secs >= 0 {
        (secs % 86_400) as u64
    } else {
        let back: u64 = (-(secs as i128)) as u64 % 86_400;
        if back == 0 {
            assert(secs as int % 86_400 == 0) by (nonlinear_arith)
                requires
                    (-(secs as int)) % 86_400 == 0,
            ;
            0
        } else {
            assert(secs as int % 86_400 == 86_400 - (-(secs as int)) % 86_400) by (
                nonlinear_arith)
                requires
                    (-(secs as int)) % 86_400 > 0,
            ;
            86_400 - back
        }
    }
}

/// Whether the time between two firings is over.
pub open spec fn rested(last: Option<Timestamp>, now: Timestamp, cooldown: i64) -> bool {
    match last {
        None => true,
        Some(t) => whole_seconds(t, now) >= if cooldown < 0 {
            0
        } else {
            cooldown as int
        },
    }
}

/// Whether the time between two firings is over.
pub fn cooldown_elapsed(last: Option<Timestamp>, now: Timestamp, cooldown: i64) -> (r: bool)
    ensures
        r == rested(last, now, cooldown),
{
    let t = match last {
        None => return true,
        Some(t) => t,
    };
    let least: i128 = if cooldown < 0 {
        0
    } else {
        cooldown as i128
    };
    let here: u64 = second_of_day(now.secs);
    let there: u64 = second_of_day(t.secs);
    let leap: i128 = if here > there && t.nanos >= 1_000_000_000 {
        1
    } else if here < there && now.nanos >= 1_000_000_000 {
        -1
    } else {
        0
    };
    let secs: i128 = now.secs as i128 - t.secs as i128 + leap;
    let d: i128 = secs * 1_000_000_000 + (now.nanos as i128 - t.nanos as i128);
    if d >= 0 {
        d / 1_000_000_000 >= least
    } else {
        let past: i128 = (-d) / 1_000_000_000;
        -past >= least
    }
}

/// What comes of a rule by the anomalies that came up, the newest first.
pub open spec fn judged_anomaly(
    rule: RuleV,
    cond: AlertCondition,
    rows: Result<Seq<(u64, Seq<char>)>, Seq<char>>,
    now: Timestamp,
) -> OutcomeV {
    match rows {
        Err(m) => OutcomeV::Error { rule_id: rule.id, error: m },
        Ok(rows) => match severe_anomaly(rows, cond->min_severity@) {
            None => OutcomeV::NotBreached { rule_id: rule.id },
            Some((score, severity)) => if !rested(rule.last_fired_at, now, cond.cooldown()) {
                OutcomeV::NotBreached { rule_id: rule.id }
            } else {
                OutcomeV::Fired(
                    fired_of(
                        rule,
                        score,
                        severity,
                        "anomaly on '"@ + rule.metric + "': severity "@ + severity + " (score "@
                            + fixed_text(score, 2) + ") within the last "@ + dec_int(
                            cond.span(),
                        ) + "s"@,
                    ),
                )
            },
        },
    }
}

/// Judges a rule by the anomalies that came up, the newest first.
pub fn evaluate_anomaly(
    rule: &ActiveRule,
    cond: &AlertCondition,
    rows: Result<Vec<(u64, String)>, String>,
    now: Timestamp,
) -> (r: EvalOutcome)
    requires
        *cond is Anomaly,
    ensures
        r@ == judged_anomaly(
            rule@,
            *cond,
            match rows {
                Ok(v) => Ok(scores_of(v@)),
                Err(m) => Err(m@),
            },
            now,
        ),
{
    let min = match cond {
        AlertCondition::Anomaly { min_severity, .. } => min_severity.as_str(),
        _ => "high",
    };
    match rows {
        Err(m) => EvalOutcome::Error { rule_id: rule.id, error: m },
        Ok(rows) => match anomaly_meets_severity(&rows, min) {
            None => EvalOutcome::NotBreached { rule_id: rule.id },
            Some(i) => {
                if !cooldown_elapsed(rule.last_fired_at, now, cond.cooldown_secs()) {
                    return EvalOutcome::NotBreached { rule_id: rule.id };
                }
                let severity = rows[i].1.as_str();
                let score = write_fixed(rows[i].0, 2);
                let window = dec_of_int(cond.effective_window());
                let mut s = cat3("anomaly on '", rule.metric.as_str(), "': severity ");
                s.append(severity);
                s.append(" (score ");
                s.append(score.as_str());
                s.append(") within the last ");
                s.append(window.as_str());
                s.append("s");
                fire(rule, rows[i].0, severity, s)
            },
        },
    }
}

// ---------------------------------------------------------------------
// What is asked of the store
// ---------------------------------------------------------------------
/// The question for a metric over a trailing window, with the window's start as its
/// parameter.
pub open spec fn metric_question(metric: Seq<char>) -> Option<Seq<char>> {
    if metric == "volume"@ {
        Some("SELECT COALESCE(SUM(n), 0) FROM rollup_1m WHERE bucket >= ?"@)
    } else if metric == "error_rate"@ {
        Some(
            "SELECT COALESCE(SUM(CASE WHEN level = 'error' THEN n ELSE 0 END), 0), COALESCE(SUM(n), 0) FROM rollup_1m WHERE bucket >= ?"@,
        )
    } else if metric == "p50_latency"@ {
        Some(latency_question("p50"@))
    } else if metric == "p95_latency"@ {
        Some(latency_question("p95"@))
    } else if metric == "p99_latency"@ {
        Some(latency_question("p99"@))
    } else {
        None
    }
}

/// The question for a percentile of the latency: the average over the buckets,
/// weighted by their rows.
pub open spec fn latency_question(column: Seq<char>) -> Seq<char> {
    "SELECT COALESCE(SUM("@ + column
        + " * n) / NULLIF(SUM(n), 0), 0) FROM rollup_1m WHERE bucket >= ? AND n > 0"@
}

/// The question for a metric over a trailing window, if it is known.
pub fn metric_sql(metric: &str) -> (r: Option<String>)
    ensures
        opt_text(r) == metric_question(metric@),
        metric@ == "volume"@ ==> opt_text(r) == Some(
            "SELECT COALESCE(SUM(n), 0) FROM rollup_1m WHERE bucket >= ?"@,
        ),
        metric@ == "error_rate"@ ==> opt_text(r) == Some(
            "SELECT COALESCE(SUM(CASE WHEN level = 'error' THEN n ELSE 0 END), 0), COALESCE(SUM(n), 0) FROM rollup_1m WHERE bucket >= ?"@,
        ),
{
    proof {
        reveal_strlit("volume");
        reveal_strlit("error_rate");
        assert("volume"@.len() == 6 && "error_rate"@.len() == 10);
    }
    let column = if same(metric, "volume") {
        return Some("SELECT COALESCE(SUM(n), 0) FROM rollup_1m WHERE bucket >= ?".to_owned());
    } else if same(metric, "error_rate") {
        return Some(
            "SELECT COALESCE(SUM(CASE WHEN level = 'error' THEN n ELSE 0 END), 0), COALESCE(SUM(n), 0) FROM rollup_1m WHERE bucket >= ?".to_owned(),
        );
    } else if same(metric, "p50_latency") {
        "p50"
    } else if same(metric, "p95_latency") {
        "p95"
    } else if same(metric, "p99_latency") {
        "p99"
    } else {
        return None;
    };
    Some(
        cat3(
            "SELECT COALESCE(SUM(",
            column,
            " * n) / NULLIF(SUM(n), 0), 0) FROM rollup_1m WHERE bucket >= ? AND n > 0",
        ),
    )
}

/// The question for all anomalies of a metric within a window, the newest first.
pub fn anomaly_sql() -> (r: &'static str)
    ensures
        r@ == "SELECT score, severity FROM anomalies WHERE metric = ? AND ts >= ? ORDER BY ts DESC"@,
{
    "SELECT score, severity FROM anomalies WHERE metric = ? AND ts >= ? ORDER BY ts DESC"
}

/// The question for the number of rows that match a filter within a window, and its
/// parameters.
pub open spec fn count_question(
    filter: Seq<char>,
    columns: Map<Seq<char>, ColumnType>,
    since: Timestamp,
    until: Timestamp,
) -> Result<(Seq<char>, Seq<Seq<char>>), FilterFault> {
    match filter_of(filter) {
        Err(f) => Err(f),
        Ok(tree) => match filter_sql(tree, columns) {
            Err(f) => Err(f),
            Ok((body, params)) => Ok(
                (
                    "SELECT COUNT(*) FROM logs WHERE "@ + (if body.len() == 0 {
                        "ts >= ? AND ts <= ?"@
                    } else {
                        "("@ + body + ") AND ts >= ? AND ts <= ?"@
                    }),
                    params.push(rfc3339_text(since.secs, since.nanos)).push(
                        rfc3339_text(until.secs, until.nanos),
                    ),
                ),
            ),
        },
    }
}

/// The question for the number of rows that match a filter within a window.
pub fn count_matching(
    filter: &str,
    columns: &ColumnWhitelist,
    since: Timestamp,
    until: Timestamp,
) -> (r: Result<(String, Vec<String>), Error>)
    ensures
        match r {
            Ok(q) => count_question(filter@, columns@, since, until) == Ok::<
                (Seq<char>, Seq<Seq<char>>),
                FilterFault,
            >((q.0@, texts(q.1@))),
            Err(e) => count_question(filter@, columns@, since, until) matches Err(f) && e@
                == ErrorV::InvalidInput(fault_text(f)),
        },
{
    let compiled = match parse_filter(filter) {
        Ok(c) => c,
        Err(f) => return Err(Error::invalid_input(f.message())),
    };
    match compiled.to_sql(columns) {
        Err(f) => Err(Error::invalid_input(f.message())),
        Ok(q) => {
            let (body, params) = q;
            let mut params = params;
            let ghost before = texts(params@);
            let clause = if body.as_str().is_empty() {
                "ts >= ? AND ts <= ?".to_owned()
            } else {
                cat3("(", body.as_str(), ") AND ts >= ? AND ts <= ?")
            };
            params.push(to_rfc3339(since));
            params.push(to_rfc3339(until));
            assert(texts(params@) =~= before.push(rfc3339_text(since.secs, since.nanos)).push(
                rfc3339_text(until.secs, until.nanos),
            ));
            Ok((cat("SELECT COUNT(*) FROM logs WHERE ", clause.as_str()), params))
        },
    }
}

/// The question for the number of events of an error group, or of all.
pub open spec fn group_question(fingerprint: Option<Seq<char>>, min_level: Seq<char>) -> Seq<
    char,
> {
    "SELECT COUNT(*) FROM logs WHERE ts >= ? AND ts <= ? AND fingerprint IS NOT NULL"@ + (
    if min_level == "fatal"@ {
        " AND level = 'fatal'"@
    } else {
        " AND level IN ('error', 'fatal')"@
    }) + (if fingerprint is Some {
        " AND fingerprint = ?"@
    } else {
        ""@
    })
}

/// The question for the number of events of an error group, or of all, and its
/// parameters.
pub fn error_group_count(
    fingerprint: &Option<String>,
    min_level: &str,
    since: Timestamp,
    until: Timestamp,
) -> (r: (String, Vec<String>))
    ensures
        r.0@ == group_question(opt_text(*fingerprint), min_level@),
        texts(r.1@) == (match *fingerprint {
            Some(fp) => seq![
                rfc3339_text(since.secs, since.nanos),
                rfc3339_text(until.secs, until.nanos),
                fp@,
            ],
            None => seq![
                rfc3339_text(since.secs, since.nanos),
                rfc3339_text(until.secs, until.nanos),
            ],
        }),
{
    let level = if same(min_level, "fatal") {
        " AND level = 'fatal'"
    } else {
        " AND level IN ('error', 'fatal')"
    };
    let mut params: Vec<String> = Vec::new();
    params.push(to_rfc3339(since));
    params.push(to_rfc3339(until));
    let group = match fingerprint {
        Some(fp) => {
            params.push(fp.clone());
            assert(texts(params@) =~= seq![
                rfc3339_text(since.secs, since.nanos),
                rfc3339_text(until.secs, until.nanos),
                fp@,
            ]);
            " AND fingerprint = ?"
        },
        None => {
            assert(texts(params@) =~= seq![
                rfc3339_text(since.secs, since.nanos),
                rfc3339_text(until.secs, until.nanos),
            ]);
            ""
        },
    };
    let sql = cat3(
        "SELECT COUNT(*) FROM logs WHERE ts >= ? AND ts <= ? AND fingerprint IS NOT NULL",
        level,
        group,
    );
    (sql, params)
}

// ---------------------------------------------------------------------
// Channels
// ---------------------------------------------------------------------
/// Where an alert is sent.
#[derive(Debug, Clone)]
pub enum ChannelTarget {
    Webhook { url: String },
    Telegram { bot_token: String, chat_id: String, api_base: String },
    Email { recipients: Vec<String> },
}

/// What a [`ChannelTarget`] says.
pub enum TargetV {
    Webhook { url: Seq<char> },
    Telegram { bot_token: Seq<char>, chat_id: Seq<char>, api_base: Seq<char> },
    Email { recipients: Seq<Seq<char>> },
}

impl View for ChannelTarget {
    type V = TargetV;

    open spec fn view(&self) -> TargetV {
        match *self {
            ChannelTarget::Webhook { url } => TargetV::Webhook { url: url@ },
            ChannelTarget::Telegram { bot_token, chat_id, api_base } => TargetV::Telegram {
                bot_token: bot_token@,
                chat_id: chat_id@,
                api_base: api_base@,
            },
            ChannelTarget::Email { recipients } => TargetV::Email {
                recipients: texts(recipients@),
            },
        }
    }
}

/// The texts among values.
pub open spec fn texts_among(items: Seq<JsonV>) -> Seq<Seq<char>>
    decreases items.len(),
{
    if items.len() == 0 {
        Seq::empty()
    } else {
        match text_of(items.last()) {
            Some(t) => texts_among(items.drop_last()).push(t),
            None => texts_among(items.drop_last()),
        }
    }
}

fn collect_texts(items: &Vec<Json>) -> (r: Vec<String>)
    ensures
        texts(r@) == texts_among(jsons_view(items@)),
{
    let mut out: Vec<String> = Vec::new();
    let ghost all = jsons_view(items@);
    assert(texts(out@) =~= Seq::<Seq<char>>::empty());
    for i in 0..items.len()
        invariant
            all == jsons_view(items@),
            texts(out@) == texts_among(all.take(i as int)),
    {
        let ghost before = texts(out@);
        assert(all.take(i + 1).drop_last() == all.take(i as int));
        if let Some(t) = items[i].as_str() {
            out.push(t.to_owned());
            assert(texts(out@) =~= before.push(t@));
        }
    }
    assert(all.take(all.len() as int) == all);
    out
}

/// The target of a channel by its type and its settings.
pub open spec fn target_of(kind: Seq<char>, settings: Seq<char>) -> Option<TargetV> {
    let config = match json_read(settings) {
        Ok(v) => v,
        Err(_) => JsonV::Null,
    };
    let none = Seq::<char>::empty();
    if kind == "webhook"@ {
        Some(TargetV::Webhook { url: text_or(field(config, "url"@), none) })
    } else if kind == "telegram"@ {
        Some(
            TargetV::Telegram {
                bot_token: text_or(field(config, "bot_token"@), none),
                chat_id: text_or(field(config, "chat_id"@), none),
                api_base: text_or(field(config, "api_base"@), "https://api.telegram.org"@),
            },
        )
    } else if kind == "email"@ {
        Some(
            TargetV::Email {
                recipients: match field(config, "recipients"@) {
                    Some(JsonV::Arr(items)) => texts_among(items),
                    _ => Seq::empty(),
                },
            },
        )
    } else {
        None
    }
}

/// The target of a channel by its type and its settings; none for a type that
/// nobody knows.
pub fn channel_target(kind: &str, settings: &str) -> (r: Option<ChannelTarget>)
    ensures
        match r {
            Some(t) => target_of(kind@, settings@) == Some(t@),
            None => target_of(kind@, settings@) is None,
        },
{
    let config = match read_json(settings) {
        Ok(v) => v,
        Err(_) => Json::Null,
    };
    let none = String::new();
    if same(kind, "webhook") {
        Some(ChannelTarget::Webhook { url: config.str_or("url", none.as_str()) })
    } else if same(kind, "telegram") {
        Some(
            ChannelTarget::Telegram {
                bot_token: config.str_or("bot_token", none.as_str()),
                chat_id: config.str_or("chat_id", none.as_str()),
                api_base: config.str_or("api_base", "https://api.telegram.org"),
            },
        )
    } else if same(kind, "email") {
        let mut recipients: Vec<String> = Vec::new();
        assert(texts(recipients@) =~= Seq::<Seq<char>>::empty());
        if let Some(v) = config.get("recipients") {
            if let Some(items) = v.as_array() {
                recipients = collect_texts(items);
            }
        }
        Some(ChannelTarget::Email { recipients })
    } else {
        None
    }
}

/// A channel as the store holds it: its name, its type and its settings.
pub type ChannelRow = (String, String, String);

/// Targets with their channels' names.
pub open spec fn targets_view(v: Seq<(String, ChannelTarget)>) -> Seq<(Seq<char>, TargetV)> {
    v.map_values(|t: (String, ChannelTarget)| (t.0@, t.1@))
}

/// The targets of channels. A channel that is gone, or whose type nobody knows, is
/// left out.
pub open spec fn targets_of(rows: Seq<Option<ChannelRow>>) -> Seq<(Seq<char>, TargetV)>
    decreases rows.len(),
{
    if rows.len() == 0 {
        Seq::empty()
    } else {
        let before = targets_of(rows.drop_last());
        match rows.last() {
            Some(c) => match target_of(c.1@, c.2@) {
                Some(t) => before.push((c.0@, t)),
                None => before,
            },
            None => before,
        }
    }
}

/// The targets of channels, from what the store holds of each. A channel that is
/// gone, or whose type nobody knows, is left out.
pub fn load_channel_targets(rows: &Vec<Option<ChannelRow>>) -> (r: Vec<(String, ChannelTarget)>)
    ensures
        targets_view(r@) == targets_of(rows@),
{
    let mut out: Vec<(String, ChannelTarget)> = Vec::new();
    assert(targets_view(out@) =~= Seq::<(Seq<char>, TargetV)>::empty());
    for i in 0..rows.len()
        invariant
            targets_view(out@) == targets_of(rows@.take(i as int)),
    {
        let ghost before = targets_view(out@);
        assert(rows@.take(i + 1).drop_last() == rows@.take(i as int));
        if let Some(c) = &rows[i] {
            if let Some(t) = channel_target(c.1.as_str(), c.2.as_str()) {
                out.push((c.0.clone(), t));
                assert(targets_view(out@) =~= before.push((c.0@, t@)));
            }
        }
    }
    assert(rows@.take(rows@.len() as int) == rows@);
    out
}

/// The targets that an alert goes to: those of its channels, or the webhook of its
/// rule where it has none.
pub open spec fn alert_targets(found: Seq<(Seq<char>, TargetV)>, a: FiredV) -> Seq<
    (Seq<char>, TargetV),
> {
    if found.len() == 0 {
        seq![("webhook"@, TargetV::Webhook { url: a.channel })]
    } else {
        found
    }
}

/// The targets that an alert goes to: those of its channels, or the webhook of its
/// rule where it has none.
pub fn targets_for(found: Vec<(String, ChannelTarget)>, a: &FiredAlert) -> (r: Vec<
    (String, ChannelTarget),
>)
    ensures
        targets_view(r@) == alert_targets(targets_view(found@), a@),
{
    if found.len() > 0 {
        return found;
    }
    let mut out: Vec<(String, ChannelTarget)> = Vec::new();
    let hook = ChannelTarget::Webhook { url: a.channel.clone() };
    out.push(("webhook".to_owned(), hook));
    assert(targets_view(out@) =~= seq![("webhook"@, TargetV::Webhook { url: a@.channel })]);
    out
}

// ---------------------------------------------------------------------
// Notifications
// ---------------------------------------------------------------------
/// An alert as a message.
pub open spec fn alert_message(a: FiredV) -> Seq<char> {
    "🚨 central-logs: "@ + a.name + "\n"@ + a.message + "\nrule #"@ + dec_int(a.rule_id as int)
        + " · "@ + a.metric
}

/// An alert as a message.
pub fn alert_text(a: &FiredAlert) -> (r: String)
    ensures
        r@ == alert_message(a@),
{
    let id = dec_of_int(a.rule_id);
    let mut s = cat3("🚨 central-logs: ", a.name.as_str(), "\n");
    s.append(a.message.as_str());
    s.append("\nrule #");
    s.append(id.as_str());
    s.append(" · ");
    s.append(a.metric.as_str());
    s
}

/// The subject of a mail.
pub fn email_subject(a: &FiredAlert) -> (r: String)
    ensures
        r@ == "[central-logs] "@ + a.name@,
{
    cat("[central-logs] ", a.name.as_str())
}

/// A request: its address and its body.
pub struct Post {
    pub url: String,
    pub body: Json,
}

/// The body of a webhook's request.
pub open spec fn webhook_json(a: FiredV, now: Timestamp) -> JsonV {
    JsonV::Obj(
        Map::<Seq<char>, JsonV>::empty().insert(
            "rule_id"@,
            JsonV::Num(dec_int(a.rule_id as int)),
        ).insert("rule_name"@, JsonV::Str(a.name)).insert(
            "metric"@,
            JsonV::Str(a.metric),
        ).insert("value"@, double_value(a.value)).insert("message"@, JsonV::Str(a.message)).insert(
            "fired_at"@,
            JsonV::Str(rfc3339_text(now.secs, now.nanos)),
        ).insert("source"@, JsonV::Str("central-logs"@)),
    )
}

/// The request of a webhook, or why none can be made.
pub open spec fn webhook_post(a: FiredV, now: Timestamp) -> Result<
    (Seq<char>, JsonV),
    Seq<char>,
> {
    let url = trim(a.channel);
    if url.len() == 0 {
        Err("no notification channel configured"@)
    } else if begins(url, "http://"@) || begins(url, "https://"@) {
        Ok((url, webhook_json(a, now)))
    } else {
        Err(
            "unsupported channel '"@ + url
                + "': only http(s) webhook URLs are delivered (paste a Slack/Discord/Teams incoming-webhook URL, or any endpoint that accepts a JSON POST)"@,
        )
    }
}

/// What a request says.
pub open spec fn post_view(r: Result<Post, String>) -> Result<(Seq<char>, JsonV), Seq<char>> {
    match r {
        Ok(p) => Ok((p.url@, p.body@)),
        Err(m) => Err(m@),
    }
}

/// The request of a webhook, or why none can be made.
pub fn webhook_request(a: &FiredAlert, now: Timestamp) -> (r: Result<Post, String>)
    ensures
        post_view(r) == webhook_post(a@, now),
{
    broadcast use lemma_json_view;

    let url = trimmed(a.channel.as_str());
    if url.as_str().is_empty() {
        return Err("no notification channel configured".to_owned());
    }
    if !(starts_with(url.as_str(), "http://") || starts_with(url.as_str(), "https://")) {
        return Err(
            cat3(
                "unsupported channel '",
                url.as_str(),
                "': only http(s) webhook URLs are delivered (paste a Slack/Discord/Teams incoming-webhook URL, or any endpoint that accepts a JSON POST)",
            ),
        );
    }
    let mut m = JsonMap::new();
    m.insert("rule_id", Json::from_int(a.rule_id));
    m.insert_str("rule_name", a.name.as_str());
    m.insert_str("metric", a.metric.as_str());
    m.insert("value", json_double(a.value));
    m.insert_str("message", a.message.as_str());
    m.insert("fired_at", Json::Str(to_rfc3339(now)));
    m.insert_str("source", "central-logs");
    Ok(Post { url, body: Json::Obj(m) })
}

/// An alert whose webhook is another one.
pub fn with_channel(a: &FiredAlert, url: &str) -> (r: FiredAlert)
    ensures
        r@ == (FiredV { channel: url@, ..a@ }),
{
    FiredAlert {
        rule_id: a.rule_id,
        name: a.name.clone(),
        metric: a.metric.clone(),
        value: a.value,
        message: a.message.clone(),
        severity: a.severity.clone(),
        channel: url.to_owned(),
        channel_ids: copy_ids(&a.channel_ids),
    }
}

fn copy_ids(v: &Vec<i64>) -> (r: Vec<i64>)
    ensures
        r@ == v@,
{
    let mut out: Vec<i64> = Vec::new();
    for i in 0..v.len()
        invariant
            out@ == v@.take(i as int),
    {
        out.push(v[i]);
        assert(v@.take(i + 1) =~= v@.take(i as int).push(v@[i as int]));
    }
    assert(v@.take(v@.len() as int) == v@);
    out
}

/// The request of a Telegram bot, or why none can be made.
pub open spec fn telegram_post(
    token: Seq<char>,
    chat: Seq<char>,
    base: Seq<char>,
    a: FiredV,
) -> Result<(Seq<char>, JsonV), Seq<char>> {
    if trim(token).len() == 0 || trim(chat).len() == 0 {
        Err("telegram channel missing bot_token or chat_id"@)
    } else {
        Ok(
            (
                trim_end_by(base, just('/')) + "/bot"@ + trim(token) + "/sendMessage"@,
                JsonV::Obj(
                    Map::<Seq<char>, JsonV>::empty().insert("chat_id"@, JsonV::Str(chat)).insert(
                        "text"@,
                        JsonV::Str(alert_message(a)),
                    ).insert("disable_web_page_preview"@, JsonV::Bool(true)),
                ),
            ),
        )
    }
}

/// The request of a Telegram bot, or why none can be made.
pub fn telegram_request(bot_token: &str, chat_id: &str, api_base: &str, a: &FiredAlert) -> (r:
    Result<Post, String>)
    ensures
        post_view(r) == telegram_post(bot_token@, chat_id@, api_base@, a@),
{
    broadcast use lemma_json_view;

    let token = trimmed(bot_token);
    let chat = trimmed(chat_id);
    if token.as_str().is_empty() || chat.as_str().is_empty() {
        return Err("telegram channel missing bot_token or chat_id".to_owned());
    }
    let base = trim_end_char(api_base, '/');
    let mut url = cat3(base.as_str(), "/bot", token.as_str());
    url.append("/sendMessage");
    let mut m = JsonMap::new();
    m.insert_str("chat_id", chat_id);
    m.insert("text", Json::Str(alert_text(a)));
    m.insert("disable_web_page_preview", Json::Bool(true));
    Ok(Post { url, body: Json::Obj(m) })
}

/// What a refusal by Telegram hints at.
pub open spec fn telegram_hint_of(code: u16, text: Seq<char>) -> Seq<char> {
    if has_text(text, "chat not found"@) {
        " (chat not found — check chat_id; for groups the bot must be a member)"@
    } else if has_text(text, "Unauthorized"@) {
        " (unauthorized — check bot_token)"@
    } else if code == 404 {
        " (not found — check bot_token/api_base; a bad token makes the URL path invalid)"@
    } else {
        ""@
    }
}

/// What is reported of a refusal by Telegram, by the status as a code and as text.
pub fn telegram_refusal(code: u16, status: &str, text: &str) -> (r: String)
    ensures
        r@ == "telegram HTTP "@ + status@ + telegram_hint_of(code, text@),
{
    let hint = if contains_text(text, "chat not found") {
        " (chat not found — check chat_id; for groups the bot must be a member)"
    } else if contains_text(text, "Unauthorized") {
        " (unauthorized — check bot_token)"
    } else if code == 404 {
        " (not found — check bot_token/api_base; a bad token makes the URL path invalid)"
    } else {
        ""
    };
    cat3("telegram HTTP ", status, hint)
}

/// Why a mail cannot be sent.
pub open spec fn email_obstacle(smtp: Option<SmtpConfig>, recipients: nat) -> Option<Seq<char>> {
    match smtp {
        None => Some(
            "email channel but SMTP is not configured — set [smtp] host/from in the                   config (or CENTRAL_LOGS_SMTP__HOST / __FROM) and restart"@,
        ),
        Some(c) => if !(trim(c.host@).len() > 0 && trim(c.from@).len() > 0) {
            Some(
                "email channel but SMTP is not configured — set [smtp] host and from,                   then restart"@,
            )
        } else if recipients == 0 {
            Some("email channel has no recipients"@)
        } else {
            None
        },
    }
}

/// Why a mail cannot be sent, if it cannot.
pub fn email_check(smtp: &Option<SmtpConfig>, recipients: &[String]) -> (r: Option<String>)
    ensures
        opt_text(r) == email_obstacle(*smtp, recipients@.len()),
{
    match smtp {
        None => Some(
            "email channel but SMTP is not configured — set [smtp] host/from in the                   config (or CENTRAL_LOGS_SMTP__HOST / __FROM) and restart".to_owned(),
        ),
        Some(c) => if !c.is_configured() {
            Some(
                "email channel but SMTP is not configured — set [smtp] host and from,                   then restart".to_owned(),
            )
        } else if recipients.len() == 0 {
            Some("email channel has no recipients".to_owned())
        } else {
            None
        },
    }
}

/// How an alert is delivered.
pub enum Delivery {
    /// By a request.
    Request(Post),
    /// By mail to these recipients.
    Mail { subject: String, text: String, recipients: Vec<String> },
}

/// What a [`Delivery`] says.
pub enum DeliveryV {
    Request(Seq<char>, JsonV),
    Mail { subject: Seq<char>, text: Seq<char>, recipients: Seq<Seq<char>> },
}

impl View for Delivery {
    type V = DeliveryV;

    open spec fn view(&self) -> DeliveryV {
        match *self {
            Delivery::Request(p) => DeliveryV::Request(p.url@, p.body@),
            Delivery::Mail { subject, text, recipients } => DeliveryV::Mail {
                subject: subject@,
                text: text@,
                recipients: texts(recipients@),
            },
        }
    }
}

/// How an alert is delivered to a target, or why it cannot be.
pub open spec fn delivery_of(
    smtp: Option<SmtpConfig>,
    target: TargetV,
    a: FiredV,
    now: Timestamp,
) -> Result<DeliveryV, Seq<char>> {
    match target {
        TargetV::Webhook { url } => match webhook_post(FiredV { channel: url, ..a }, now) {
            Ok(p) => Ok(DeliveryV::Request(p.0, p.1)),
            Err(m) => Err(m),
        },
        TargetV::Telegram { bot_token, chat_id, api_base } => match telegram_post(
            bot_token,
            chat_id,
            api_base,
            a,
        ) {
            Ok(p) => Ok(DeliveryV::Request(p.0, p.1)),
            Err(m) => Err(m),
        },
        TargetV::Email { recipients } => match email_obstacle(smtp, recipients.len()) {
            Some(m) => Err(m),
            None => Ok(
                DeliveryV::Mail {
                    subject: "[central-logs] "@ + a.name,
                    text: alert_message(a),
                    recipients,
                },
            ),
        },
    }
}

/// How an alert is delivered to a target, or why it cannot be.
pub fn deliver(
    smtp: &Option<SmtpConfig>,
    target: &ChannelTarget,
    a: &FiredAlert,
    now: Timestamp,
) -> (r: Result<Delivery, String>)
    ensures
        match r {
            Ok(d) => delivery_of(*smtp, target@, a@, now) == Ok::<DeliveryV, Seq<char>>(d@),
            Err(m) => delivery_of(*smtp, target@, a@, now) == Err::<DeliveryV, Seq<char>>(m@),
        },
{
    match target {
        ChannelTarget::Webhook { url } => match webhook_request(
            &with_channel(a, url.as_str()),
            now,
        ) {
            Ok(p) => Ok(Delivery::Request(p)),
            Err(m) => Err(m),
        },
        ChannelTarget::Telegram { bot_token, chat_id, api_base } => match telegram_request(
            bot_token.as_str(),
            chat_id.as_str(),
            api_base.as_str(),
            a,
        ) {
            Ok(p) => Ok(Delivery::Request(p)),
            Err(m) => Err(m),
        },
        ChannelTarget::Email { recipients } => match email_check(smtp, recipients.as_slice()) {
            Some(m) => Err(m),
            None => Ok(
                Delivery::Mail {
                    subject: email_subject(a),
                    text: alert_text(a),
                    recipients: recipients.clone(),
                },
            ),
        },
    }
}

/// What is reported of a request to a target that was answered with a status other
/// than success, by the status as a code and as text and by the answer's body.
pub open spec fn refusal_text(
    target: TargetV,
    code: u16,
    status: Seq<char>,
    body: Seq<char>,
) -> Seq<char> {
    match target {
        TargetV::Telegram { .. } => "telegram HTTP "@ + status + telegram_hint_of(code, body),
        _ => "webhook HTTP "@ + status,
    }
}

/// What is reported of a request to a target that was answered with a status other
/// than success.
pub fn delivery_refusal(target: &ChannelTarget, code: u16, status: &str, body: &str) -> (r:
    String)
    ensures
        r@ == refusal_text(target@, code, status@, body@),
{
    match target {
        ChannelTarget::Telegram { .. } => telegram_refusal(code, status, body),
        _ => cat("webhook HTTP ", status),
    }
}

// ---------------------------------------------------------------------
// A cycle
// ---------------------------------------------------------------------
/// The severity that is kept of a rule that has fired; none where all is well.
pub open spec fn kept_severity(severity: Seq<char>) -> Option<Seq<char>> {
    if severity == "ok"@ {
        None
    } else {
        Some(severity)
    }
}

/// The severity that is kept of a rule that has fired.
pub fn stored_severity(a: &FiredAlert) -> (r: Option<String>)
    ensures
        opt_text(r) == kept_severity(a.severity@),
{
    if same(a.severity.as_str(), "ok") {
        None
    } else {
        Some(a.severity.clone())
    }
}

/// What came of a cycle of evaluations.
#[derive(Debug, Clone, Copy)]
pub struct AlertCycleStats {
    pub evaluated: usize,
    pub fired: usize,
    pub notified: usize,
}

/// Outcomes as what they say.
pub open spec fn outcomes_view(all: Seq<EvalOutcome>) -> Seq<OutcomeV> {
    all.map_values(|o: EvalOutcome| o@)
}

/// The alerts among outcomes.
pub open spec fn fired_among(all: Seq<OutcomeV>) -> Seq<FiredV>
    decreases all.len(),
{
    if all.len() == 0 {
        Seq::empty()
    } else {
        match all.last() {
            OutcomeV::Fired(f) => fired_among(all.drop_last()).push(f),
            _ => fired_among(all.drop_last()),
        }
    }
}

/// The rules among outcomes that have nothing to tell.
pub open spec fn quiet_among(all: Seq<OutcomeV>) -> Seq<i64>
    decreases all.len(),
{
    if all.len() == 0 {
        Seq::empty()
    } else {
        match all.last() {
            OutcomeV::NotBreached { rule_id } => quiet_among(all.drop_last()).push(rule_id),
            _ => quiet_among(all.drop_last()),
        }
    }
}

/// The rules among outcomes that could not be evaluated, each with the reason.
pub open spec fn failed_among(all: Seq<OutcomeV>) -> Seq<(i64, Seq<char>)>
    decreases all.len(),
{
    if all.len() == 0 {
        Seq::empty()
    } else {
        match all.last() {
            OutcomeV::Error { rule_id, error } => failed_among(all.drop_last()).push(
                (rule_id, error),
            ),
            _ => failed_among(all.drop_last()),
        }
    }
}

/// The outcomes of a cycle by kind, each in the order of the rules.
#[derive(Debug)]
pub struct CycleOutcomes {
    pub fired: Vec<FiredAlert>,
    pub quiet: Vec<i64>,
    pub failed: Vec<(i64, String)>,
}

/// Alerts as what they say.
pub open spec fn alerts_view(all: Seq<FiredAlert>) -> Seq<FiredV> {
    all.map_values(|a: FiredAlert| a@)
}

/// Failures as what they say.
pub open spec fn failures_view(all: Seq<(i64, String)>) -> Seq<(i64, Seq<char>)> {
    all.map_values(|f: (i64, String)| (f.0, f.1@))
}

/// Sorts the outcomes of a cycle by kind.
pub fn sort_outcomes(all: &Vec<EvalOutcome>) -> (r: CycleOutcomes)
    ensures
        alerts_view(r.fired@) == fired_among(outcomes_view(all@)),
        r.quiet@ == quiet_among(outcomes_view(all@)),
        failures_view(r.failed@) == failed_among(outcomes_view(all@)),
{
    let mut fired: Vec<FiredAlert> = Vec::new();
    let mut quiet: Vec<i64> = Vec::new();
    let mut failed: Vec<(i64, String)> = Vec::new();
    let ghost seen = outcomes_view(all@);
    assert(alerts_view(fired@) =~= Seq::<FiredV>::empty());
    assert(failures_view(failed@) =~= Seq::<(i64, Seq<char>)>::empty());
    for i in 0..all.len()
        invariant
            seen == outcomes_view(all@),
            alerts_view(fired@) == fired_among(seen.take(i as int)),
            quiet@ == quiet_among(seen.take(i as int)),
            failures_view(failed@) == failed_among(seen.take(i as int)),
    {
        let ghost alerts = alerts_view(fired@);
        let ghost failures = failures_view(failed@);
        assert(seen.take(i + 1).drop_last() == seen.take(i as int));
        match &all[i] {
            EvalOutcome::Fired(f) => {
                fired.push(with_channel(f, f.channel.as_str()));
                assert(alerts_view(fired@) =~= alerts.push(f@));
            },
            EvalOutcome::NotBreached { rule_id } => quiet.push(*rule_id),
            EvalOutcome::Error { rule_id, error } => {
                failed.push((*rule_id, error.clone()));
                assert(failures_view(failed@) =~= failures.push((*rule_id, error@)));
            },
        }
    }
    assert(seen.take(seen.len() as int) == seen);
    CycleOutcomes { fired, quiet, failed }
}

/// How many deliveries succeeded.
pub open spec fn successes(results: Seq<bool>) -> nat
    decreases results.len(),
{
    if results.len() == 0 {
        0
    } else {
        successes(results.drop_last()) + if results.last() {
            1nat
        } else {
            0
        }
    }
}

/// What came of a cycle of evaluations, by its outcomes and by which of its
/// deliveries succeeded.
pub fn cycle_stats(all: &Vec<EvalOutcome>, delivered: &Vec<bool>) -> (r: AlertCycleStats)
    ensures
        r.evaluated == all@.len(),
        r.fired == fired_among(outcomes_view(all@)).len(),
        r.notified == successes(delivered@),
{
    let sorted = sort_outcomes(all);
    assert(alerts_view(sorted.fired@).len() == sorted.fired@.len());
    let mut notified: usize = 0;
    for i in 0..delivered.len()
        invariant
            notified == successes(delivered@.take(i as int)),
            notified <= i,
    {
        assert(delivered@.take(i + 1).drop_last() == delivered@.take(i as int));
        if delivered[i] {
            notified = notified + 1;
        }
    }
    assert(delivered@.take(delivered@.len() as int) == delivered@);
    AlertCycleStats { evaluated: all.len(), fired: sorted.fired.len(), notified }
}

// ---------------------------------------------------------------------
// Laws
// ---------------------------------------------------------------------
/// Every rule of a cycle is told of once: it fired, has nothing to tell, or could
/// not be evaluated.
pub proof fn law_every_rule_is_accounted_for(all: Seq<OutcomeV>)
    ensures
        fired_among(all).len() + quiet_among(all).len() + failed_among(all).len() == all.len(),
    decreases all.len(),
{
    if all.len() > 0 {
        law_every_rule_is_accounted_for(all.drop_last());
    }
}

/// A rule as it stands once an alert of it was recorded.
pub open spec fn after_alert(rule: RuleV, a: FiredV) -> RuleV {
    RuleV { last_severity: kept_severity(a.severity), ..rule }
}

/// While the severity stays the same, a rule is silent: it never notifies of a
/// sustained breach, nor that all is still well.
pub proof fn law_silent_while_unchanged(rule: RuleV, cond: AlertCondition, v: u64)
    requires
        breached(cond.steps(), v) is Ok,
        severity_now(breached(cond.steps(), v)->Ok_0) == severity_before(rule),
    ensures
        judged(rule, cond, Ok(Some(v))) == (OutcomeV::NotBreached { rule_id: rule.id }),
{
}

/// Where the severity changes, a rule fires with the new one. Once that was
/// recorded, it is silent on any value of the same severity.
pub proof fn law_one_notification_per_change(
    rule: RuleV,
    cond: AlertCondition,
    v: u64,
    w: u64,
)
    requires
        breached(cond.steps(), v) is Ok,
        breached(cond.steps(), w) is Ok,
        severity_now(breached(cond.steps(), v)->Ok_0) != severity_before(rule),
        severity_now(breached(cond.steps(), w)->Ok_0) == severity_now(
            breached(cond.steps(), v)->Ok_0,
        ),
    ensures
        judged(rule, cond, Ok(Some(v))) matches OutcomeV::Fired(a) && a.severity == severity_now(
            breached(cond.steps(), v)->Ok_0,
        ) && judged(after_alert(rule, a), cond, Ok(Some(w))) == (OutcomeV::NotBreached {
            rule_id: rule.id,
        }),
{
}

/// What comes of a cycle over rules, each judged by its value.
pub open spec fn cycle_of(
    rules: Seq<RuleV>,
    conds: Seq<AlertCondition>,
    values: Seq<Result<Option<u64>, Seq<char>>>,
) -> Seq<OutcomeV> {
    Seq::new(rules.len(), |i: int| judged(rules[i], conds[i], values[i]))
}

/// A rule as it stands after a cycle.
pub open spec fn after_outcome(rule: RuleV, o: OutcomeV) -> RuleV {
    match o {
        OutcomeV::Fired(a) => after_alert(rule, a),
        _ => rule,
    }
}

/// Rules as they stand after a cycle.
pub open spec fn after_cycle(rules: Seq<RuleV>, outcomes: Seq<OutcomeV>) -> Seq<RuleV> {
    Seq::new(rules.len(), |i: int| after_outcome(rules[i], outcomes[i]))
}

/// A second cycle over the same values evaluates every rule and fires none.
pub proof fn law_a_second_cycle_is_silent(
    rules: Seq<RuleV>,
    conds: Seq<AlertCondition>,
    values: Seq<Result<Option<u64>, Seq<char>>>,
)
    requires
        conds.len() == rules.len(),
        values.len() == rules.len(),
    ensures
        ({
            let later = after_cycle(rules, cycle_of(rules, conds, values));
            let again = cycle_of(later, conds, values);
            again.len() == rules.len() && fired_among(again) == Seq::<FiredV>::empty()
        }),
{
    let first = cycle_of(rules, conds, values);
    let later = after_cycle(rules, first);
    let again = cycle_of(later, conds, values);
    assert forall|i: int| 0 <= i < again.len() implies !((#[trigger] again[i]) is Fired) by {
        assert(first[i] == judged(rules[i], conds[i], values[i]));
        assert(later[i] == after_outcome(rules[i], first[i]));
    }
    lemma_none_fired(again);
}

proof fn lemma_none_fired(all: Seq<OutcomeV>)
    requires
        forall|i: int| 0 <= i < all.len() ==> !((#[trigger] all[i]) is Fired),
    ensures
        fired_among(all) == Seq::<FiredV>::empty(),
    decreases all.len(),
{
    if all.len() > 0 {
        let d = all.drop_last();
        assert forall|i: int| 0 <= i < d.len() implies !((#[trigger] d[i]) is Fired) by {
            assert(d[i] == all[i]);
        }
        lemma_none_fired(d);
        assert(!(all[all.len() - 1] is Fired));
    }
}

/// A rule that has fired on an anomaly does not fire again before its cooldown is over,
/// whatever comes up.
pub proof fn law_anomalies_wait_for_the_cooldown(
    rule: RuleV,
    cond: AlertCondition,
    rows: Result<Seq<(u64, Seq<char>)>, Seq<char>>,
    fired: Timestamp,
    now: Timestamp,
)
    requires
        rule.last_fired_at == Some(fired),
        whole_seconds(fired, now) < cond.cooldown(),
    ensures
        !(judged_anomaly(rule, cond, rows, now) is Fired),
{
}

/// A rule that was breached and no longer is tells so once, as recovered, and is
/// then as if it had never fired.
pub proof fn law_recovery_is_told_once(rule: RuleV, cond: AlertCondition, v: u64)
    requires
        breached(cond.steps(), v) == Ok::<Option<EntryV>, Seq<char>>(None),
        severity_before(rule) != "ok"@,
    ensures
        judged(rule, cond, Ok(Some(v))) matches OutcomeV::Fired(a) && a.severity == "ok"@
            && after_alert(rule, a).last_severity is None && judged(
            after_alert(rule, a),
            cond,
            Ok(Some(v)),
        ) == (OutcomeV::NotBreached { rule_id: rule.id }),
{
}

/// Of several steps that are breached, the last one counts.
pub proof fn law_last_breached_step_counts(steps: Seq<EntryV>, v: u64, k: int)
    requires
        0 <= k < steps.len(),
        forall|i: int|
            0 <= i < steps.len() ==> compared(
                v,
                (#[trigger] steps[i]).comparator,
                steps[i].value,
            ) is Ok,
        compared(v, steps[k].comparator, steps[k].value) == Ok::<bool, Seq<char>>(true),
        forall|i: int|
            k < i < steps.len() ==> compared(
                v,
                (#[trigger] steps[i]).comparator,
                steps[i].value,
            ) == Ok::<bool, Seq<char>>(false),
    ensures
        breached(steps, v) == Ok::<Option<EntryV>, Seq<char>>(Some(steps[k])),
    decreases steps.len(),
{
    let d = steps.drop_last();
    assert forall|i: int| 0 <= i < d.len() implies compared(
        v,
        (#[trigger] d[i]).comparator,
        d[i].value,
    ) is Ok by {
        assert(d[i] == steps[i]);
    }
    lemma_judgeable(d, v);
    if k < steps.len() - 1 {
        assert forall|i: int| k < i < d.len() implies compared(
            v,
            (#[trigger] d[i]).comparator,
            d[i].value,
        ) == Ok::<bool, Seq<char>>(false) by {
            assert(d[i] == steps[i]);
        }
        law_last_breached_step_counts(d, v, k);
        assert(steps.last() == steps[steps.len() - 1]);
    }
}

proof fn lemma_judgeable(steps: Seq<EntryV>, v: u64)
    requires
        forall|i: int|
            0 <= i < steps.len() ==> compared(
                v,
                (#[trigger] steps[i]).comparator,
                steps[i].value,
            ) is Ok,
    ensures
        breached(steps, v) is Ok,
    decreases steps.len(),
{
    if steps.len() > 0 {
        let d = steps.drop_last();
        assert forall|i: int| 0 <= i < d.len() implies compared(
            v,
            (#[trigger] d[i]).comparator,
            d[i].value,
        ) is Ok by {
            assert(d[i] == steps[i]);
        }
        lemma_judgeable(d, v);
        assert(steps.last() == steps[steps.len() - 1]);
    }
}

/// The anomaly that a rule fires on is at least as severe as the rule asks for, and
/// none that came up is more severe.
pub proof fn law_most_severe_anomaly(rows: Seq<(u64, Seq<char>)>, min: Seq<char>)
    ensures
        match severe_anomaly(rows, min) {
            Some(x) => rows.contains(x) && rank_of(x.1) >= rank_of(min) && forall|i: int|
                0 <= i < rows.len() ==> rank_of((#[trigger] rows[i]).1) <= rank_of(x.1),
            None => forall|i: int|
                0 <= i < rows.len() ==> rank_of((#[trigger] rows[i]).1) < rank_of(min),
        },
{
    if rows.len() > 0 {
        lemma_most_severe(rows);
    }
}

proof fn lemma_most_severe(rows: Seq<(u64, Seq<char>)>)
    requires
        rows.len() > 0,
    ensures
        0 <= most_severe(rows) < rows.len(),
        forall|i: int|
            0 <= i < rows.len() ==> rank_of((#[trigger] rows[i]).1) <= rank_of(
                rows[most_severe(rows)].1,
            ),
    decreases rows.len(),
{
    if rows.len() > 1 {
        let d = rows.drop_last();
        lemma_most_severe(d);
        assert forall|i: int| 0 <= i < rows.len() implies rank_of((#[trigger] rows[i]).1)
            <= rank_of(rows[most_severe(rows)].1) by {
            if i < d.len() {
                assert(d[i] == rows[i]);
            }
        }
    }
}

} // verus!

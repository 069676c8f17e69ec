//! What holds of every request of OpenTelemetry: nothing in it is lost, and it does
//! not matter how its enumerations are spelled.
use vstd::prelude::*;

use crate::insert::otlp::{
    chain, lemma_normal, log_envelopes, metric_envelopes, metric_point_envelopes, normal,
    normal_items, normal_member, normal_members, resource_log_envelopes,
    resource_metric_envelopes, resource_trace_envelopes, scope_log_envelopes,
    scope_metric_envelopes, scope_trace_envelopes, service_of_resource, shared_attrs,
    spelled_number, trace_envelopes,
};
use crate::insert::otlp_types::{
    MetricDataV, OtelMetricV, ResourceLogsV, ResourceMetricsV, ResourceSpansV, ResourceV,
    ScopeMetricsV,
};
use crate::json::JsonV;
use crate::text::dec_int;
use crate::time::Timestamp;

verus! {

/// The sum of numbers.
pub open spec fn total(counts: Seq<nat>) -> nat
    decreases counts.len(),
{
    if counts.len() == 0 {
        0
    } else {
        total(counts.drop_last()) + counts.last()
    }
}

proof fn lemma_chain_len<T>(lists: Seq<Seq<T>>)
    ensures
        chain(lists).len() == total(Seq::new(lists.len(), |i: int| lists[i].len())),
    decreases lists.len(),
{
    if lists.len() > 0 {
        let lens = Seq::new(lists.len(), |i: int| lists[i].len());
        let rest = lists.drop_last();
        lemma_chain_len(rest);
        assert(lens.drop_last() =~= Seq::new(rest.len(), |i: int| rest[i].len()));
    }
}

/// How many spans a resource brings.
pub open spec fn resource_span_count(r: ResourceSpansV) -> nat {
    total(Seq::new(r.scope_spans.len(), |i: int| r.scope_spans[i].spans.len()))
}

/// How many spans a request brings.
pub open spec fn span_count(req: Seq<ResourceSpansV>) -> nat {
    total(Seq::new(req.len(), |i: int| resource_span_count(req[i])))
}

/// Every span of a request becomes one record.
pub proof fn law_one_record_per_span(req: Seq<ResourceSpansV>, now: Timestamp)
    ensures
        trace_envelopes(req, now).len() == span_count(req),
{
    let lists = Seq::new(req.len(), |i: int| resource_trace_envelopes(req[i], now));
    lemma_chain_len(lists);
    assert forall|i: int| 0 <= i < req.len() implies (#[trigger] lists[i]).len()
        == resource_span_count(req[i]) by {
        let r = req[i];
        let scopes = Seq::new(
            r.scope_spans.len(),
            |j: int| scope_trace_envelopes(r.resource, r.scope_spans[j], now),
        );
        lemma_chain_len(scopes);
        assert(Seq::new(scopes.len(), |j: int| scopes[j].len()) =~= Seq::new(
            r.scope_spans.len(),
            |j: int| r.scope_spans[j].spans.len(),
        ));
    }
    assert(Seq::new(lists.len(), |i: int| lists[i].len()) =~= Seq::new(
        req.len(),
        |i: int| resource_span_count(req[i]),
    ));
}

/// How many log records a resource brings.
pub open spec fn resource_log_count(r: ResourceLogsV) -> nat {
    total(Seq::new(r.scope_logs.len(), |i: int| r.scope_logs[i].log_records.len()))
}

/// How many log records a request brings.
pub open spec fn log_count(req: Seq<ResourceLogsV>) -> nat {
    total(Seq::new(req.len(), |i: int| resource_log_count(req[i])))
}

/// Every log record of a request becomes one record.
pub proof fn law_one_record_per_log(req: Seq<ResourceLogsV>, now: Timestamp)
    ensures
        log_envelopes(req, now).len() == log_count(req),
{
    let lists = Seq::new(req.len(), |i: int| resource_log_envelopes(req[i], now));
    lemma_chain_len(lists);
    assert forall|i: int| 0 <= i < req.len() implies (#[trigger] lists[i]).len()
        == resource_log_count(req[i]) by {
        let r = req[i];
        let scopes = Seq::new(
            r.scope_logs.len(),
            |j: int| scope_log_envelopes(r.resource, r.scope_logs[j], now),
        );
        lemma_chain_len(scopes);
        assert(Seq::new(scopes.len(), |j: int| scopes[j].len()) =~= Seq::new(
            r.scope_logs.len(),
            |j: int| r.scope_logs[j].log_records.len(),
        ));
    }
    assert(Seq::new(lists.len(), |i: int| lists[i].len()) =~= Seq::new(
        req.len(),
        |i: int| resource_log_count(req[i]),
    ));
}

/// How many points a metric has.
pub open spec fn point_count(x: OtelMetricV) -> nat {
    match x.data {
        Some(MetricDataV::Gauge(p)) => p.len(),
        Some(MetricDataV::Sum(s)) => s.data_points.len(),
        Some(MetricDataV::Histogram(h)) => h.data_points.len(),
        Some(MetricDataV::ExponentialHistogram(h)) => h.data_points.len(),
        Some(MetricDataV::Summary(p)) => p.len(),
        None => 0,
    }
}

/// How many points a scope brings.
pub open spec fn scope_point_count(s: ScopeMetricsV) -> nat {
    total(Seq::new(s.metrics.len(), |i: int| point_count(s.metrics[i])))
}

/// How many points a resource brings.
pub open spec fn resource_point_count(r: ResourceMetricsV) -> nat {
    total(Seq::new(r.scope_metrics.len(), |i: int| scope_point_count(r.scope_metrics[i])))
}

/// How many points a request brings.
pub open spec fn request_point_count(req: Seq<ResourceMetricsV>) -> nat {
    total(Seq::new(req.len(), |i: int| resource_point_count(req[i])))
}

proof fn lemma_scope_points(r: Option<ResourceV>, s: ScopeMetricsV, now: Timestamp)
    ensures
        scope_metric_envelopes(r, s, now).len() == scope_point_count(s),
{
    let lists = Seq::new(
        s.metrics.len(),
        |i: int|
            metric_point_envelopes(
                service_of_resource(r),
                shared_attrs(r, s.scope),
                s.metrics[i],
                now,
            ),
    );
    lemma_chain_len(lists);
    assert(Seq::new(lists.len(), |i: int| lists[i].len()) =~= Seq::new(
        s.metrics.len(),
        |i: int| point_count(s.metrics[i]),
    ));
}

proof fn lemma_resource_points(r: ResourceMetricsV, now: Timestamp)
    ensures
        resource_metric_envelopes(r, now).len() == resource_point_count(r),
{
    let lists = Seq::new(
        r.scope_metrics.len(),
        |i: int| scope_metric_envelopes(r.resource, r.scope_metrics[i], now),
    );
    lemma_chain_len(lists);
    assert forall|i: int| 0 <= i < lists.len() implies (#[trigger] lists[i]).len()
        == scope_point_count(r.scope_metrics[i]) by {
        lemma_scope_points(r.resource, r.scope_metrics[i], now);
    }
    assert(Seq::new(lists.len(), |i: int| lists[i].len()) =~= Seq::new(
        r.scope_metrics.len(),
        |i: int| scope_point_count(r.scope_metrics[i]),
    ));
}

/// Every point of a metric becomes one record.
pub proof fn law_one_record_per_point(req: Seq<ResourceMetricsV>, now: Timestamp)
    ensures
        metric_envelopes(req, now).len() == request_point_count(req),
{
    let lists = Seq::new(req.len(), |i: int| resource_metric_envelopes(req[i], now));
    lemma_chain_len(lists);
    assert forall|i: int| 0 <= i < lists.len() implies (#[trigger] lists[i]).len()
        == resource_point_count(req[i]) by {
        lemma_resource_points(req[i], now);
    }
    assert(Seq::new(lists.len(), |i: int| lists[i].len()) =~= Seq::new(
        req.len(),
        |i: int| resource_point_count(req[i]),
    ));
}

/// A request whose enumerations are numbers already is left as it is: normalizing
/// twice changes no more than normalizing once.
pub proof fn law_normal_requests_stay(v: JsonV)
    ensures
        normal(normal(v)) == normal(v),
    decreases v,
{
    lemma_normal(v);
    lemma_normal(normal(v));
    match v {
        JsonV::Obj(m) => {
            let once = normal_members(m);
            assert forall|k: Seq<char>| #[trigger] once.dom().contains(k) implies normal_member(
                k,
                once[k],
            ) == once[k] by {
                let x = m[k];
                if !(x is Str) {
                    law_normal_requests_stay(x);
                    lemma_normal(x);
                }
            }
            assert(normal_members(once) =~= once);
        },
        JsonV::Arr(items) => {
            let once = normal_items(items);
            assert forall|i: int| 0 <= i < items.len() implies normal(#[trigger] once[i])
                == once[i] by {
                law_normal_requests_stay(items[i]);
            }
            assert(normal_items(once) =~= once);
        },
        _ => {},
    }
}

/// The name of an enumeration's value and its number mean the same, whatever else an
/// object holds.
pub proof fn law_names_and_numbers_agree(
    m: Map<Seq<char>, JsonV>,
    key: Seq<char>,
    name: Seq<char>,
    n: int,
)
    requires
        spelled_number(key, name) == Some(n),
    ensures
        normal(JsonV::Obj(m.insert(key, JsonV::Str(name)))) == normal(
            JsonV::Obj(m.insert(key, JsonV::Num(dec_int(n)))),
        ),
{
    let a = m.insert(key, JsonV::Str(name));
    let b = m.insert(key, JsonV::Num(dec_int(n)));
    lemma_normal(JsonV::Obj(a));
    lemma_normal(JsonV::Obj(b));
    assert(normal_members(a) =~= normal_members(b));
}

} // verus!

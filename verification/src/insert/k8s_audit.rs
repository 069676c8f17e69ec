//! Audit events of a Kubernetes API server, as its webhook backend posts them.
use vstd::prelude::*;
use vstd::string::*;

use crate::{Protocol, RawRecord};
use crate::insert::envelope::{Appended, carries, carry, sourceless_record};
use crate::json::{
    Json, JsonMap, JsonV, field, int_of, json_read_bytes, json_view, jsons_view, lemma_json_view,
    picked, read_json_bytes, text_in, text_of, text_or,
};
use crate::text::{cat, cat3, dec_int, dec_of_int, list_contains, opt_text, same, texts};
use crate::time::{Timestamp, at, read_rfc3339, rfc3339_read, rfc3339_text, to_rfc3339};

verus! {

// ---------------------------------------------------------------------
// Events
// ---------------------------------------------------------------------
/// The events of a body: a list of items, a bare list, or a single event.
pub open spec fn events_in(v: JsonV) -> Seq<JsonV> {
    match field(v, "items"@) {
        Some(JsonV::Arr(items)) => items,
        _ => match v {
            JsonV::Arr(items) => items,
            _ => if field(v, "auditID"@) is Some || field(v, "verb"@) is Some {
                seq![v]
            } else {
                Seq::empty()
            },
        },
    }
}

/// The views of values that are referred to.
pub open spec fn refs_view(v: Seq<&Json>) -> Seq<JsonV> {
    Seq::new(v.len(), |i: int| json_view(*v[i]))
}

fn refs_to(items: &Vec<Json>) -> (r: Vec<&Json>)
    ensures
        refs_view(r@) == jsons_view(items@),
{
    let mut out: Vec<&Json> = Vec::new();
    for i in 0..items.len()
        invariant
            out@.len() == i,
            forall|k: int| 0 <= k < i ==> *(#[trigger] out@[k]) == items@[k],
    {
        out.push(&items[i]);
    }
    assert(refs_view(out@) =~= jsons_view(items@));
    out
}

/// The events of a body.
pub fn extract_events(v: &Json) -> (r: Vec<&Json>)
    ensures
        refs_view(r@) == events_in(v@),
{
    if let Some(items) = v.get("items") {
        if let Some(list) = items.as_array() {
            return refs_to(list);
        }
    }
    if let Some(list) = v.as_array() {
        return refs_to(list);
    }
    let mut out: Vec<&Json> = Vec::new();
    if v.get("auditID").is_some() || v.get("verb").is_some() {
        out.push(v);
        assert(refs_view(out@) =~= seq![v@]);
    } else {
        assert(refs_view(out@) =~= Seq::<JsonV>::empty());
    }
    out
}

// ---------------------------------------------------------------------
// An event
// ---------------------------------------------------------------------
/// The code that a request was answered with.
pub open spec fn response_code(ev: JsonV) -> Option<i64> {
    match field(ev, "responseStatus"@) {
        Some(st) => match field(st, "code"@) {
            Some(c) => int_of(c),
            None => None,
        },
        None => None,
    }
}

fn code_of(ev: &Json) -> (r: Option<i64>)
    ensures
        r == response_code(ev@),
{
    match ev.get("responseStatus") {
        Some(st) => match st.get("code") {
            Some(c) => c.as_i64(),
            None => None,
        },
        None => None,
    }
}

/// The reason that a request was answered with.
pub open spec fn response_reason(ev: JsonV) -> Seq<char> {
    match field(ev, "responseStatus"@) {
        Some(st) => text_or(field(st, "reason"@), Seq::empty()),
        None => Seq::empty(),
    }
}

fn reason_of(ev: &Json) -> (r: String)
    ensures
        r@ == response_reason(ev@),
{
    let none = String::new();
    match ev.get("responseStatus") {
        Some(st) => st.str_or("reason", none.as_str()),
        None => none,
    }
}

/// An object by its group, kind, namespace and name.
pub open spec fn object_text(o: JsonV) -> Seq<char> {
    let none = Seq::<char>::empty();
    let group = text_or(field(o, "apiGroup"@), none);
    let ns = text_or(field(o, "namespace"@), none);
    let name = text_or(field(o, "name"@), none);
    (if group.len() > 0 {
        group + "/"@
    } else {
        none
    }) + text_or(field(o, "resource"@), none) + (if ns.len() > 0 {
        " "@ + ns + "/"@
    } else if name.len() > 0 {
        " "@
    } else {
        none
    }) + name
}

fn object_of(o: &Json) -> (r: String)
    ensures
        r@ == object_text(o@),
{
    let none = String::new();
    let group = o.str_or("apiGroup", none.as_str());
    let ns = o.str_or("namespace", none.as_str());
    let name = o.str_or("name", none.as_str());
    let resource = o.str_or("resource", none.as_str());
    let head = if group.as_str().is_empty() {
        String::new()
    } else {
        cat(group.as_str(), "/")
    };
    let middle = if !ns.as_str().is_empty() {
        cat3(" ", ns.as_str(), "/")
    } else if !name.as_str().is_empty() {
        " ".to_owned()
    } else {
        String::new()
    };
    let start = cat(head.as_str(), resource.as_str());
    let r = cat3(start.as_str(), middle.as_str(), name.as_str());
    assert(r@ =~= object_text(o@));
    r
}

/// What a request was about: an object, else a path.
pub open spec fn audit_target(ev: JsonV) -> Seq<char> {
    match field(ev, "objectRef"@) {
        Some(JsonV::Obj(m)) => object_text(JsonV::Obj(m)),
        _ => text_or(field(ev, "requestURI"@), "?"@),
    }
}

fn target_of(ev: &Json) -> (r: String)
    ensures
        r@ == audit_target(ev@),
{
    if let Some(o) = ev.get("objectRef") {
        if o.as_object().is_some() {
            return object_of(o);
        }
    }
    ev.str_or("requestURI", "?")
}

/// An event in one line.
pub open spec fn audit_message(ev: JsonV) -> Seq<char> {
    let head = text_or(field(ev, "verb"@), "unknown"@) + " "@ + audit_target(ev);
    let line = match response_code(ev) {
        Some(c) => head + " → "@ + dec_int(c as int),
        None => head,
    };
    if text_in(field(ev, "stage"@)) == Some("ResponseStarted"@) {
        line + " (streaming response started)"@
    } else {
        line
    }
}

fn message_of(ev: &Json) -> (r: String)
    ensures
        r@ == audit_message(ev@),
{
    let verb = ev.str_or("verb", "unknown");
    let target = target_of(ev);
    let head = cat3(verb.as_str(), " ", target.as_str());
    let line = match code_of(ev) {
        Some(c) => {
            let code = dec_of_int(c);
            cat3(head.as_str(), " → ", code.as_str())
        },
        None => head,
    };
    if let Some(stage) = ev.get_str("stage") {
        if same(stage, "ResponseStarted") {
            return cat(line.as_str(), " (streaming response started)");
        }
    }
    line
}

/// How grave an event is.
pub open spec fn audit_level(ev: JsonV) -> Seq<char> {
    if text_in(field(ev, "stage"@)) == Some("Panic"@) {
        "fatal"@
    } else {
        match response_code(ev) {
            Some(c) => if c >= 500 {
                "error"@
            } else if c >= 400 {
                "warn"@
            } else {
                "info"@
            },
            None => "info"@,
        }
    }
}

fn level_of_event(ev: &Json) -> (r: &'static str)
    ensures
        r@ == audit_level(ev@),
{
    if let Some(stage) = ev.get_str("stage") {
        if same(stage, "Panic") {
            return "fatal";
        }
    }
    match code_of(ev) {
        Some(c) => if c >= 500 {
            "error"
        } else if c >= 400 {
            "warn"
        } else {
            "info"
        },
        None => "info",
    }
}

/// When a stage of a request was done, else when the event came in.
pub open spec fn audit_time(ev: JsonV, now: Timestamp) -> Timestamp {
    let text = match text_in(field(ev, "stageTimestamp"@)) {
        Some(t) => Some(t),
        None => text_in(field(ev, "requestReceivedTimestamp"@)),
    };
    match text {
        Some(t) => match rfc3339_read(t) {
            Some(p) => at(p),
            None => now,
        },
        None => now,
    }
}

fn time_of_event(ev: &Json, now: Timestamp) -> (r: Timestamp)
    ensures
        r == audit_time(ev@, now),
{
    let text = match ev.get_str("stageTimestamp") {
        Some(t) => Some(t),
        None => ev.get_str("requestReceivedTimestamp"),
    };
    match text {
        Some(t) => match read_rfc3339(t) {
            Some(p) => p,
            None => now,
        },
        None => now,
    }
}

/// The last address that a request came from.
pub open spec fn audit_host(ev: JsonV) -> Option<Seq<char>> {
    match field(ev, "sourceIPs"@) {
        Some(JsonV::Arr(ips)) => if ips.len() > 0 {
            text_of(ips.last())
        } else {
            None
        },
        _ => None,
    }
}

fn host_of_event(ev: &Json) -> (r: Option<String>)
    ensures
        opt_text(r) == audit_host(ev@),
{
    if let Some(v) = ev.get("sourceIPs") {
        if let Some(ips) = v.as_array() {
            let n: usize = ips.len();
            if n > 0 {
                assert(jsons_view(ips@).last() == ips@[n - 1]@);
                if let Some(t) = ips[n - 1].as_str() {
                    return Some(t.to_owned());
                }
            }
        }
    }
    None
}

/// The members of an event that are carried over under their names.
pub open spec fn audit_keys() -> Seq<Seq<char>> {
    seq![
        "stage"@,
        "requestURI"@,
        "userAgent"@,
        "user"@,
        "impersonatedUser"@,
        "sourceIPs"@,
        "objectRef"@,
        "responseStatus"@,
        "requestObject"@,
        "responseObject"@,
        "annotations"@,
        "authenticationMetadata"@,
    ]
}

fn carried_keys() -> (r: Vec<String>)
    ensures
        texts(r@) == audit_keys(),
{
    let mut v: Vec<String> = Vec::new();
    v.push("stage".to_owned());
    v.push("requestURI".to_owned());
    v.push("userAgent".to_owned());
    v.push("user".to_owned());
    v.push("impersonatedUser".to_owned());
    v.push("sourceIPs".to_owned());
    v.push("objectRef".to_owned());
    v.push("responseStatus".to_owned());
    v.push("requestObject".to_owned());
    v.push("responseObject".to_owned());
    v.push("annotations".to_owned());
    v.push("authenticationMetadata".to_owned());
    assert(texts(v@) =~= audit_keys());
    v
}

/// What an event carries besides its standard fields. The verbosity of the audit
/// policy gets another name, so that it is not taken for the severity.
pub open spec fn audit_extras(ev: JsonV) -> Map<Seq<char>, JsonV> {
    let extras = match ev {
        JsonV::Obj(m) => picked(m, audit_keys().to_set()),
        _ => Map::empty(),
    };
    let leveled = match field(ev, "level"@) {
        None | Some(JsonV::Null) => extras,
        Some(l) => extras.insert("audit_level"@, l),
    };
    if response_reason(ev).len() > 0 {
        leveled.insert("response_reason"@, JsonV::Str(response_reason(ev)))
    } else {
        leveled
    }
}

fn extras_of_event(ev: &Json) -> (r: JsonMap)
    ensures
        r@ == audit_extras(ev@),
{
    let keys = carried_keys();
    let mut extras = match ev.as_object() {
        Some(m) => m.pick(keys.as_slice()),
        None => JsonMap::new(),
    };
    if let Some(l) = ev.get("level") {
        match l {
            Json::Null => {},
            _ => extras.insert("audit_level", l.clone()),
        }
    }
    let reason = reason_of(ev);
    if !reason.as_str().is_empty() {
        extras.insert("response_reason", Json::Str(reason));
    }
    extras
}

/// The envelope of an event.
pub open spec fn audit_envelope(ev: JsonV, now: Timestamp) -> Map<Seq<char>, JsonV> {
    let t = audit_time(ev, now);
    let base = Map::<Seq<char>, JsonV>::empty().insert(
        "message"@,
        JsonV::Str(audit_message(ev)),
    ).insert("level"@, JsonV::Str(audit_level(ev))).insert(
        "service"@,
        JsonV::Str("kube-apiserver"@),
    ).insert("ts"@, JsonV::Str(rfc3339_text(t.secs, t.nanos)));
    let traced = match text_in(field(ev, "auditID"@)) {
        Some(id) => base.insert("trace_id"@, JsonV::Str(id)),
        None => base,
    };
    let hosted = match audit_host(ev) {
        Some(h) => traced.insert("host"@, JsonV::Str(h)),
        None => traced,
    };
    hosted.union_prefer_right(audit_extras(ev))
}

/// Maps an event to a record.
pub fn audit_event_to_record(ev: &Json, now: Timestamp) -> (r: Option<RawRecord>)
    ensures
        r matches Some(rec) && carries(
            rec,
            now,
            Seq::empty(),
            Protocol::K8sAudit,
            audit_envelope(ev@, now),
        ),
{
    let mut out = JsonMap::new();
    out.insert("message", Json::Str(message_of(ev)));
    out.insert_str("level", level_of_event(ev));
    out.insert_str("service", "kube-apiserver");
    out.insert("ts", Json::Str(to_rfc3339(time_of_event(ev, now))));
    if let Some(id) = ev.get_str("auditID") {
        out.insert_str("trace_id", id);
    }
    if let Some(h) = host_of_event(ev) {
        out.insert("host", Json::Str(h));
    }
    out.extend(&extras_of_event(ev));
    Some(sourceless_record(now, Protocol::K8sAudit, out))
}

// ---------------------------------------------------------------------
// A request
// ---------------------------------------------------------------------
/// Whether the stage of an event is to be left out.
pub open spec fn stage_omitted(ev: JsonV, omit: Seq<Seq<char>>) -> bool {
    match text_in(field(ev, "stage"@)) {
        Some(s) => omit.contains(s),
        None => false,
    }
}

/// The envelopes of the events whose stages are not left out.
pub open spec fn audit_envelopes(events: Seq<JsonV>, omit: Seq<Seq<char>>, now: Timestamp) -> Seq<
    Map<Seq<char>, JsonV>,
>
    decreases events.len(),
{
    if events.len() == 0 {
        Seq::empty()
    } else {
        let before = audit_envelopes(events.drop_last(), omit, now);
        if stage_omitted(events.last(), omit) {
            before
        } else {
            before.push(audit_envelope(events.last(), now))
        }
    }
}

/// The records of the events whose stages are not left out.
pub fn audit_records(events: &[&Json], omit: &[String], now: Timestamp) -> (r: Vec<RawRecord>)
    ensures
        carry(
            r@,
            now,
            Protocol::K8sAudit,
            audit_envelopes(refs_view(events@), texts(omit@), now),
        ),
{
    let mut out: Vec<RawRecord> = Vec::new();
    let ghost all = refs_view(events@);
    for i in 0..events.len()
        invariant
            all == refs_view(events@),
            carry(
                out@,
                now,
                Protocol::K8sAudit,
                audit_envelopes(all.take(i as int), texts(omit@), now),
            ),
    {
        assert(all.take(i + 1).drop_last() == all.take(i as int));
        let ev = events[i];
        assert(all[i as int] == ev@);
        let left_out = match ev.get_str("stage") {
            Some(s) => list_contains(omit, s),
            None => false,
        };
        if !left_out {
            if let Some(rec) = audit_event_to_record(ev, now) {
                out.push(rec);
            }
        }
    }
    assert(all.take(all.len() as int) == all);
    out
}

/// What is to be done with a request.
pub enum AuditStep {
    /// Answer with a status code and a reason.
    Reply(u16, &'static str),
    /// Store records, and answer by how that goes.
    Append(Vec<RawRecord>),
}

/// Whether a step is the one that a request calls for: it is refused while nothing is
/// taken or where it cannot be read, done where there is nothing to store, and else
/// stored.
pub open spec fn is_audit_step(
    r: AuditStep,
    paused: bool,
    body: Seq<u8>,
    omit: Seq<Seq<char>>,
    now: Timestamp,
) -> bool {
    if paused {
        r matches AuditStep::Reply(code, reason) && code == 503 && reason@ == "ingest paused"@
    } else {
        match json_read_bytes(body) {
            Err(_) => r matches AuditStep::Reply(code, reason) && code == 400 && reason@
                == "invalid audit JSON"@,
            Ok(v) => {
                let all = audit_envelopes(events_in(v), omit, now);
                if all.len() == 0 {
                    r matches AuditStep::Reply(code, reason) && code == 200 && reason@
                        == "Success"@
                } else {
                    r matches AuditStep::Append(recs) && carry(
                        recs@,
                        now,
                        Protocol::K8sAudit,
                        all,
                    )
                }
            },
        }
    }
}

/// Decides what is to be done with a request.
pub fn audit_request(paused: bool, body: &[u8], omit: &[String], now: Timestamp) -> (r: AuditStep)
    ensures
        is_audit_step(r, paused, body@, texts(omit@), now),
{
    if paused {
        return AuditStep::Reply(503, "ingest paused");
    }
    match read_json_bytes(body) {
        Err(_) => AuditStep::Reply(400, "invalid audit JSON"),
        Ok(v) => {
            let events = extract_events(&v);
            let recs = audit_records(events.as_slice(), omit, now);
            if recs.len() == 0 {
                AuditStep::Reply(200, "Success")
            } else {
                AuditStep::Append(recs)
            }
        },
    }
}

/// The answer to a request whose records were to be stored.
pub open spec fn audit_answer(outcome: Appended) -> (u16, Seq<char>) {
    match outcome {
        Appended::Stored => (200, "Success"@),
        Appended::Failed => (503, "ingest failed"@),
        Appended::TimedOut => (503, "ingest backpressure"@),
    }
}

/// The answer to a request whose records were to be stored.
pub fn audit_reply(outcome: Appended) -> (r: (u16, &'static str))
    ensures
        (r.0, r.1@) == audit_answer(outcome),
{
    match outcome {
        Appended::Stored => (200, "Success"),
        Appended::Failed => (503, "ingest failed"),
        Appended::TimedOut => (503, "ingest backpressure"),
    }
}

/// The server is told of success only where nothing is lost by it: there was nothing
/// to store, or it was stored.
pub proof fn law_success_means_stored(
    r: AuditStep,
    paused: bool,
    body: Seq<u8>,
    omit: Seq<Seq<char>>,
    now: Timestamp,
    outcome: Appended,
)
    requires
        is_audit_step(r, paused, body, omit, now),
    ensures
        match r {
            AuditStep::Reply(code, _) => code == 200 ==> !paused && (json_read_bytes(
                body,
            ) matches Ok(v) && audit_envelopes(events_in(v), omit, now).len() == 0),
            AuditStep::Append(_) => audit_answer(outcome).0 == 200 <==> outcome
                == Appended::Stored,
        },
{
}

/// The body of an answer: a status object of Kubernetes.
pub fn status_body(reason: &str) -> (r: Json)
    ensures
        r@ == JsonV::Obj(
            Map::<Seq<char>, JsonV>::empty().insert("kind"@, JsonV::Str("Status"@)).insert(
                "apiVersion"@,
                JsonV::Str("v1"@),
            ).insert("metadata"@, JsonV::Obj(Map::empty())).insert(
                "status"@,
                JsonV::Str(reason@),
            ),
        ),
{
    broadcast use lemma_json_view;

    let mut out = JsonMap::new();
    out.insert_str("kind", "Status");
    out.insert_str("apiVersion", "v1");
    out.insert("metadata", Json::Obj(JsonMap::new()));
    out.insert_str("status", reason);
    Json::Obj(out)
}

} // verus!

//! The server's own audit: events that go the way of all records, and the address
//! that a request came from.
use vstd::prelude::*;
use vstd::string::*;

use crate::{Protocol, RawRecord};
use crate::ingest::parse::{base_row, is_parse_of, is_stamped, level_of, reserved};
use crate::ingest::parse_laws::{law_envelopes_are_read_back, law_the_rest_is_kept};
use crate::insert::envelope::{carries, envelope_bytes, holds_envelope};
use crate::ip::{is_ipv4, is_ipv6, is_plausible_ip};
use crate::json::{Json, JsonMap, JsonV, is_plain, json_text, member};
use crate::row::RowV;
use crate::text::{
    after_prefix, all_digits, before_suffix, chars_of, dec_int, just, lemma_split_some, lower,
    only_digits, opt_text, same, split, split_on, split_once, split_once_at, strip_prefix,
    strip_suffix, texts, to_lower, trim, trim_char, trim_end_by, trim_start_by, trimmed,
};
use crate::time::{Timestamp, is_stamp, rfc3339_text, to_rfc3339};

verus! {

// ---------------------------------------------------------------------
// Events
// ---------------------------------------------------------------------
/// The service that the server's own records carry.
pub const AUDIT_SERVICE: &'static str = "central-logs";

/// The group of an action, by its first word.
pub open spec fn category_of(action: Seq<char>) -> Seq<char> {
    let head = split(action, '.')[0];
    if head == "auth"@ || head == "apikey"@ || head == "dashboard"@ || head == "alert"@ || head
        == "ai"@ || head == "view"@ {
        head
    } else {
        "other"@
    }
}

/// The group of an action.
pub fn action_category(action: &str) -> (r: &'static str)
    ensures
        r@ == category_of(action@),
{
    let parts = split_on(action, '.');
    proof {
        lemma_split_some(action@, '.');
        assert(texts(parts@)[0] == parts@[0]@);
    }
    let head = parts[0].as_str();
    if same(head, "auth") {
        "auth"
    } else if same(head, "apikey") {
        "apikey"
    } else if same(head, "dashboard") {
        "dashboard"
    } else if same(head, "alert") {
        "alert"
    } else if same(head, "ai") {
        "ai"
    } else if same(head, "view") {
        "view"
    } else {
        "other"
    }
}

/// An event of the audit.
#[must_use]
#[derive(Debug)]
pub struct AuditEvent {
    pub ts: Timestamp,
    pub action: String,
    pub level: String,
    pub actor_key_id: Option<i64>,
    pub actor_key_name: Option<String>,
    pub actor_via: Option<String>,
    pub source_ip: Option<String>,
    pub outcome: String,
    pub extra: JsonMap,
}

/// What an [`AuditEvent`] says.
#[verifier::ext_equal]
pub struct AuditV {
    pub ts: Timestamp,
    pub action: Seq<char>,
    pub level: Seq<char>,
    pub actor_key_id: Option<i64>,
    pub actor_key_name: Option<Seq<char>>,
    pub actor_via: Option<Seq<char>>,
    pub source_ip: Option<Seq<char>>,
    pub outcome: Seq<char>,
    pub extra: Map<Seq<char>, JsonV>,
}

impl View for AuditEvent {
    type V = AuditV;

    open spec fn view(&self) -> AuditV {
        AuditV {
            ts: self.ts,
            action: self.action@,
            level: self.level@,
            actor_key_id: self.actor_key_id,
            actor_key_name: opt_text(self.actor_key_name),
            actor_via: opt_text(self.actor_via),
            source_ip: opt_text(self.source_ip),
            outcome: self.outcome@,
            extra: self.extra@,
        }
    }
}

impl AuditEvent {
    /// An action that succeeded, by nobody in particular.
    pub fn new(action: &str, ts: Timestamp) -> (r: AuditEvent)
        ensures
            r@ == (AuditV {
                ts,
                action: action@,
                level: "info"@,
                actor_key_id: None,
                actor_key_name: None,
                actor_via: None,
                source_ip: None,
                outcome: "success"@,
                extra: Map::empty(),
            }),
    {
        AuditEvent {
            ts,
            action: action.to_owned(),
            level: "info".to_owned(),
            actor_key_id: None,
            actor_key_name: None,
            actor_via: None,
            source_ip: None,
            outcome: "success".to_owned(),
            extra: JsonMap::new(),
        }
    }

    /// The event at a level.
    pub fn level(self, lvl: &str) -> (r: AuditEvent)
        ensures
            r@ == (AuditV { level: lvl@, ..self@ }),
    {
        AuditEvent { level: lvl.to_owned(), ..self }
    }

    /// The event as a failure, with its reason. One at the level `info` rises to
    /// `warn`.
    pub fn failed(self, reason: &str) -> (r: AuditEvent)
        ensures
            r@ == (AuditV {
                outcome: "failure"@,
                level: if self@.level == "info"@ {
                    "warn"@
                } else {
                    self@.level
                },
                extra: self@.extra.insert("reason"@, JsonV::Str(reason@)),
                ..self@
            }),
    {
        let level = if same(self.level.as_str(), "info") {
            "warn".to_owned()
        } else {
            self.level.clone()
        };
        let mut extra = self.extra;
        extra.insert_str("reason", reason);
        AuditEvent {
            ts: self.ts,
            action: self.action,
            level,
            actor_key_id: self.actor_key_id,
            actor_key_name: self.actor_key_name,
            actor_via: self.actor_via,
            source_ip: self.source_ip,
            outcome: "failure".to_owned(),
            extra,
        }
    }

    /// The event by an actor, who was let in by a key in some way.
    pub fn actor(self, key_id: Option<i64>, key_name: &str, via: &str) -> (r: AuditEvent)
        ensures
            r@ == (AuditV {
                actor_key_id: key_id,
                actor_key_name: Some(key_name@),
                actor_via: Some(lower(via@)),
                ..self@
            }),
    {
        AuditEvent {
            actor_key_id: key_id,
            actor_key_name: Some(key_name.to_owned()),
            actor_via: Some(to_lower(via)),
            ..self
        }
    }

    /// The event by the holder of a key.
    pub fn actor_key(self, id: i64, name: &str) -> (r: AuditEvent)
        ensures
            r@ == (AuditV { actor_key_id: Some(id), actor_key_name: Some(name@), ..self@ }),
    {
        AuditEvent { actor_key_id: Some(id), actor_key_name: Some(name.to_owned()), ..self }
    }

    /// The event by an actor who was let in in some way.
    pub fn via(self, via: &str) -> (r: AuditEvent)
        ensures
            r@ == (AuditV { actor_via: Some(via@), ..self@ }),
    {
        AuditEvent { actor_via: Some(via.to_owned()), ..self }
    }

    /// The event from an address, unless it is empty.
    pub fn source_ip(self, ip: &str) -> (r: AuditEvent)
        ensures
            r@ == (if ip@.len() == 0 {
                self@
            } else {
                AuditV { source_ip: Some(ip@), ..self@ }
            }),
    {
        if ip.is_empty() {
            self
        } else {
            AuditEvent { source_ip: Some(ip.to_owned()), ..self }
        }
    }

    /// The event with something more.
    pub fn field(self, key: &str, value: Json) -> (r: AuditEvent)
        ensures
            r@ == (AuditV { extra: self@.extra.insert(key@, value@), ..self@ }),
    {
        let mut extra = self.extra;
        extra.insert(key, value);
        AuditEvent {
            ts: self.ts,
            action: self.action,
            level: self.level,
            actor_key_id: self.actor_key_id,
            actor_key_name: self.actor_key_name,
            actor_via: self.actor_via,
            source_ip: self.source_ip,
            outcome: self.outcome,
            extra,
        }
    }
}

/// A text under a name, if there is one.
pub open spec fn with_opt(
    m: Map<Seq<char>, JsonV>,
    name: Seq<char>,
    text: Option<Seq<char>>,
) -> Map<Seq<char>, JsonV> {
    match text {
        Some(t) => m.insert(name, JsonV::Str(t)),
        None => m,
    }
}

fn put_opt(m: &mut JsonMap, name: &str, text: &Option<String>)
    ensures
        final(m)@ == with_opt(old(m)@, name@, opt_text(*text)),
{
    if let Some(t) = text {
        m.insert_str(name, t.as_str());
    }
}

/// The envelope of an event. Its fields stand beside the standard ones, and what
/// was added to it counts before them.
pub open spec fn audit_event_envelope(e: AuditV) -> Map<Seq<char>, JsonV> {
    let base = Map::<Seq<char>, JsonV>::empty().insert(
        "ts"@,
        JsonV::Str(rfc3339_text(e.ts.secs, e.ts.nanos)),
    ).insert("service"@, JsonV::Str("central-logs"@)).insert(
        "level"@,
        JsonV::Str(e.level),
    ).insert("msg"@, JsonV::Str(e.action)).insert(
        "host"@,
        JsonV::Str(
            match e.source_ip {
                Some(ip) => ip,
                None => "internal"@,
            },
        ),
    ).insert("action"@, JsonV::Str(e.action)).insert("outcome"@, JsonV::Str(e.outcome)).insert(
        "category"@,
        JsonV::Str(category_of(e.action)),
    );
    let keyed = match e.actor_key_id {
        Some(id) => base.insert("actor_key_id"@, JsonV::Num(dec_int(id as int))),
        None => base,
    };
    with_opt(
        with_opt(
            with_opt(keyed, "actor_key_name"@, e.actor_key_name),
            "actor_via"@,
            e.actor_via,
        ),
        "source_ip"@,
        e.source_ip,
    ).union_prefer_right(e.extra)
}

/// The envelope of an event, as bytes.
pub fn serialize_event(e: &AuditEvent) -> (r: Vec<u8>)
    ensures
        holds_envelope(r@, audit_event_envelope(e@)),
{
    let mut m = JsonMap::new();
    m.insert("ts", Json::Str(to_rfc3339(e.ts)));
    m.insert_str("service", AUDIT_SERVICE);
    m.insert_str("level", e.level.as_str());
    m.insert_str("msg", e.action.as_str());
    match &e.source_ip {
        Some(ip) => m.insert_str("host", ip.as_str()),
        None => m.insert_str("host", "internal"),
    }
    m.insert_str("action", e.action.as_str());
    m.insert_str("outcome", e.outcome.as_str());
    m.insert_str("category", action_category(e.action.as_str()));
    if let Some(id) = e.actor_key_id {
        m.insert("actor_key_id", Json::from_int(id));
    }
    put_opt(&mut m, "actor_key_name", &e.actor_key_name);
    put_opt(&mut m, "actor_via", &e.actor_via);
    put_opt(&mut m, "source_ip", &e.source_ip);
    m.extend(&e.extra);
    envelope_bytes(m)
}

/// The record of an event.
pub fn event_record(e: &AuditEvent) -> (r: RawRecord)
    ensures
        carries(
            r,
            e.ts,
            match e@.source_ip {
                Some(ip) => ip,
                None => Seq::empty(),
            },
            Protocol::HttpJson,
            audit_event_envelope(e@),
        ),
{
    let source_addr = match &e.source_ip {
        Some(ip) => ip.clone(),
        None => String::new(),
    };
    RawRecord {
        receive_ts: e.ts,
        source_addr,
        protocol: Protocol::HttpJson,
        raw: serialize_event(e),
    }
}

/// The fields that every event has.
pub open spec fn own_fields() -> Set<Seq<char>> {
    set!["ts"@, "msg"@, "service"@, "level"@, "host"@, "action"@, "outcome"@, "category"@]
}

proof fn lemma_own_fields(e: AuditV)
    requires
        forall|k: Seq<char>| #[trigger] own_fields().contains(k) ==> !e.extra.contains_key(k),
    ensures
        ({
            let m = audit_event_envelope(e);
            &&& member(m, "ts"@) == Some(JsonV::Str(rfc3339_text(e.ts.secs, e.ts.nanos)))
            &&& member(m, "msg"@) == Some(JsonV::Str(e.action))
            &&& member(m, "service"@) == Some(JsonV::Str("central-logs"@))
            &&& member(m, "level"@) == Some(JsonV::Str(e.level))
            &&& member(m, "host"@) == Some(
                JsonV::Str(
                    match e.source_ip {
                        Some(ip) => ip,
                        None => "internal"@,
                    },
                ),
            )
            &&& member(m, "action"@) == Some(JsonV::Str(e.action))
            &&& member(m, "outcome"@) == Some(JsonV::Str(e.outcome))
            &&& member(m, "category"@) == Some(JsonV::Str(category_of(e.action)))
        }),
{
    reveal_strlit("ts");
    reveal_strlit("service");
    reveal_strlit("level");
    reveal_strlit("msg");
    reveal_strlit("host");
    reveal_strlit("action");
    reveal_strlit("outcome");
    reveal_strlit("category");
    reveal_strlit("actor_key_id");
    reveal_strlit("actor_key_name");
    reveal_strlit("actor_via");
    reveal_strlit("source_ip");
    assert("msg"@[0] == 'm' && "level"@[0] == 'l' && "host"@[0] == 'h');
    assert("outcome"@[0] == 'o' && "category"@[0] == 'c' && "ts"@[0] == 't');
    assert("service"@[0] == 's' && "source_ip"@[0] == 's' && "action"@[0] == 'a');
    assert("actor_key_id"@[0] == 'a' && "actor_key_name"@[0] == 'a' && "actor_via"@[0] == 'a');
    assert("service"@[1] == 'e' && "source_ip"@[1] == 'o' && "action"@[3] == 'i');
    assert("actor_key_id"@[3] == 'o' && "actor_key_name"@[3] == 'o' && "actor_via"@[3] == 'o');
    assert(own_fields().contains("ts"@));
    assert(own_fields().contains("msg"@));
    assert(own_fields().contains("service"@));
    assert(own_fields().contains("level"@));
    assert(own_fields().contains("host"@));
    assert(own_fields().contains("action"@));
    assert(own_fields().contains("outcome"@));
    assert(own_fields().contains("category"@));
}

proof fn lemma_not_reserved()
    ensures
        !reserved().contains("action"@),
        !reserved().contains("outcome"@),
        !reserved().contains("category"@),
{
    let r = reserved();
    reveal_strlit("action");
    reveal_strlit("outcome");
    reveal_strlit("category");
    reveal_strlit("ts");
    reveal_strlit("timestamp");
    reveal_strlit("time");
    reveal_strlit("@timestamp");
    reveal_strlit("host");
    reveal_strlit("hostname");
    reveal_strlit("service");
    reveal_strlit("logger");
    reveal_strlit("level");
    reveal_strlit("severity");
    reveal_strlit("msg");
    reveal_strlit("message");
    reveal_strlit("Message");
    reveal_strlit("fingerprint");
    reveal_strlit("trace_id");
    reveal_strlit("traceId");
    reveal_strlit("span_id");
    reveal_strlit("spanId");
    assert(r[0][0] == 't' && r[1][0] == 't' && r[2][0] == 't' && r[3][0] == '@');
    assert(r[4][0] == 'h' && r[5][0] == 'h' && r[6][0] == 's' && r[7][0] == 'l');
    assert(r[8][0] == 'l' && r[9][0] == 's' && r[10][0] == 'm' && r[11][0] == 'm');
    assert(r[12][0] == 'M' && r[13][0] == 'f' && r[14][0] == 't' && r[15][0] == 't');
    assert(r[16][0] == 's' && r[17][0] == 's');
    assert("action"@[0] == 'a' && "outcome"@[0] == 'o' && "category"@[0] == 'c');
}

/// An audit event is a log line like any other: its row has the action as its message,
/// belongs to the service itself, says when it happened and who asked, and keeps what
/// the event is about among its attributes.
pub proof fn law_events_become_rows(
    row: RowV,
    rec: RawRecord,
    source: Seq<char>,
    e: AuditV,
    unwrap_message: bool,
)
    requires
        carries(rec, e.ts, source, Protocol::HttpJson, audit_event_envelope(e)),
        is_plain(JsonV::Obj(audit_event_envelope(e)), 127),
        is_parse_of(row, rec, Seq::empty(), unwrap_message),
        forall|k: Seq<char>| #[trigger] own_fields().contains(k) ==> !e.extra.contains_key(k),
    ensures
        is_stamp(rfc3339_text(e.ts.secs, e.ts.nanos), e.ts) ==> row.ts == e.ts,
        row.message == e.action,
        row.service == "central-logs"@,
        row.level == level_of(e.level),
        row.source_host == (match e.source_ip {
            Some(ip) => ip,
            None => "internal"@,
        }),
        member(row.attributes, "action"@) == Some(JsonV::Str(e.action)),
        member(row.attributes, "outcome"@) == Some(JsonV::Str(e.outcome)),
        member(row.attributes, "category"@) == Some(JsonV::Str(category_of(e.action))),
{
    let m = audit_event_envelope(e);
    law_envelopes_are_read_back(
        row,
        rec,
        e.ts,
        source,
        Protocol::HttpJson,
        m,
        Seq::empty(),
        unwrap_message,
    );
    lemma_own_fields(e);
    lemma_not_reserved();
    if is_stamp(rfc3339_text(e.ts.secs, e.ts.nanos), e.ts) {
        assert(is_stamped(m, e.ts));
    }
    let body = json_text(JsonV::Obj(m));
    let base = base_row(rec, Seq::empty());
    law_the_rest_is_kept(base, m, body, unwrap_message, "action"@);
    law_the_rest_is_kept(base, m, body, unwrap_message, "outcome"@);
    law_the_rest_is_kept(base, m, body, unwrap_message, "category"@);
}

// ---------------------------------------------------------------------
// The address of a request
// ---------------------------------------------------------------------
/// The headers that may name the client, each as its first value, if that is text.
#[derive(Debug, Clone)]
pub struct PeerHeaders {
    pub cf_connecting_ip: Option<String>,
    pub x_real_ip: Option<String>,
    pub forwarded: Option<String>,
    pub x_forwarded_for: Option<String>,
}

/// The address that a request came from.
#[derive(Debug, Clone)]
pub struct ResolvedPeer(pub String);

/// A value without white space around it, unless nothing is left.
pub open spec fn nonblank(v: Option<Seq<char>>) -> Option<Seq<char>> {
    match v {
        Some(t) => if trim(t).len() > 0 {
            Some(trim(t))
        } else {
            None
        },
        None => None,
    }
}

fn first_header(v: &Option<String>) -> (r: Option<String>)
    ensures
        opt_text(r) == nonblank(opt_text(*v)),
{
    match v {
        Some(t) => {
            let t = trimmed(t.as_str());
            if t.as_str().is_empty() {
                None
            } else {
                Some(t)
            }
        },
        None => None,
    }
}

/// An address without brackets around it and without its port.
pub open spec fn bare_address(s: Seq<char>) -> Seq<char> {
    let t = trim(s);
    let parts = split(t, ':');
    let plain = if parts.len() == 2 && all_digits(parts[1]) {
        parts[0]
    } else {
        t
    };
    match after_prefix(t, "["@) {
        None => plain,
        Some(inner) => match before_suffix(inner, "]"@) {
            Some(x) => x,
            None => match split_once(inner, ']') {
                Some((x, _)) => x,
                None => plain,
            },
        },
    }
}

/// An address without brackets around it and without its port.
pub fn strip_brackets_and_port(s: &str) -> (r: String)
    ensures
        r@ == bare_address(s@),
{
    let t = trimmed(s);
    if let Some(inner) = strip_prefix(t.as_str(), "[") {
        if let Some(x) = strip_suffix(inner.as_str(), "]") {
            return x;
        }
        if let Some(p) = split_once_at(inner.as_str(), ']') {
            return p.0;
        }
    }
    let parts = split_on(t.as_str(), ':');
    if parts.len() == 2 {
        assert(texts(parts@)[0] == parts@[0]@ && texts(parts@)[1] == parts@[1]@);
        let port = chars_of(parts[1].as_str());
        if only_digits(port.as_slice()) {
            return parts[0].clone();
        }
    }
    t
}

/// The address that an element of a `Forwarded` header names, if it names one.
pub open spec fn forwarded_for(kv: Seq<char>) -> Option<Seq<char>> {
    let t = trim(kv);
    let rest = match after_prefix(t, "for="@) {
        Some(r) => Some(r),
        None => after_prefix(t, "For="@),
    };
    match rest {
        None => None,
        Some(r) => {
            let ip = bare_address(
                trim_end_by(trim_start_by(trim(r), just('"')), just('"')),
            );
            if is_ipv4(ip) || is_ipv6(ip) {
                Some(ip)
            } else {
                None
            }
        },
    }
}

fn element_ip(kv: &str) -> (r: Option<String>)
    ensures
        opt_text(r) == forwarded_for(kv@),
{
    let t = trimmed(kv);
    let rest = match strip_prefix(t.as_str(), "for=") {
        Some(r) => Some(r),
        None => strip_prefix(t.as_str(), "For="),
    };
    match rest {
        None => None,
        Some(r) => {
            let inner = trimmed(r.as_str());
            let value = trim_char(inner.as_str(), '"');
            let ip = strip_brackets_and_port(value.as_str());
            if is_plausible_ip(ip.as_str()) {
                Some(ip)
            } else {
                None
            }
        },
    }
}

/// The first address that elements name.
pub open spec fn first_forwarded(all: Seq<Seq<char>>) -> Option<Seq<char>>
    decreases all.len(),
{
    if all.len() == 0 {
        None
    } else {
        match forwarded_for(all[0]) {
            Some(ip) => Some(ip),
            None => first_forwarded(all.drop_first()),
        }
    }
}

/// The first address that groups of elements name.
pub open spec fn first_in_groups(groups: Seq<Seq<char>>) -> Option<Seq<char>>
    decreases groups.len(),
{
    if groups.len() == 0 {
        None
    } else {
        match first_forwarded(split(groups[0], ',')) {
            Some(ip) => Some(ip),
            None => first_in_groups(groups.drop_first()),
        }
    }
}

fn first_element_ip(elements: &Vec<String>) -> (r: Option<String>)
    ensures
        opt_text(r) == first_forwarded(texts(elements@)),
{
    let ghost all = texts(elements@);
    assert(all.subrange(0, all.len() as int) == all);
    for i in 0..elements.len()
        invariant
            all == texts(elements@),
            first_forwarded(all.subrange(i as int, all.len() as int)) == first_forwarded(all),
    {
        let ghost left = all.subrange(i as int, all.len() as int);
        assert(left.drop_first() == all.subrange(i + 1, all.len() as int));
        assert(left[0] == elements@[i as int]@);
        if let Some(ip) = element_ip(elements[i].as_str()) {
            return Some(ip);
        }
    }
    None
}

/// The first address that a `Forwarded` header names.
pub fn parse_forwarded(raw: &str) -> (r: Option<String>)
    ensures
        opt_text(r) == first_in_groups(split(raw@, ';')),
{
    let groups = split_on(raw, ';');
    let n: usize = groups.len();
    let ghost all = texts(groups@);
    assert(all.subrange(0, all.len() as int) == all);
    for i in 0..n
        invariant
            n == groups@.len(),
            all == texts(groups@),
            all == split(raw@, ';'),
            first_in_groups(all.subrange(i as int, all.len() as int)) == first_in_groups(all),
    {
        let ghost left = all.subrange(i as int, all.len() as int);
        assert(left.drop_first() == all.subrange(i + 1, all.len() as int));
        assert(left[0] == groups@[i as int]@);
        let elements = split_on(groups[i].as_str(), ',');
        if let Some(ip) = first_element_ip(&elements) {
            return Some(ip);
        }
    }
    None
}

/// The first entry that is not blank.
pub open spec fn first_entry(entries: Seq<Seq<char>>) -> Option<Seq<char>>
    decreases entries.len(),
{
    if entries.len() == 0 {
        None
    } else if trim(entries[0]).len() > 0 {
        Some(trim(entries[0]))
    } else {
        first_entry(entries.drop_first())
    }
}

/// The first entry of a chain of addresses.
pub fn first_xff_entry(raw: &str) -> (r: Option<String>)
    ensures
        opt_text(r) == first_entry(split(raw@, ',')),
{
    let entries = split_on(raw, ',');
    let n: usize = entries.len();
    let ghost all = texts(entries@);
    assert(all.subrange(0, all.len() as int) == all);
    for i in 0..n
        invariant
            n == entries@.len(),
            all == texts(entries@),
            all == split(raw@, ','),
            first_entry(all.subrange(i as int, all.len() as int)) == first_entry(all),
    {
        let ghost left = all.subrange(i as int, all.len() as int);
        assert(left.drop_first() == all.subrange(i + 1, all.len() as int));
        assert(left[0] == entries@[i as int]@);
        let t = trimmed(entries[i].as_str());
        if !t.as_str().is_empty() {
            return Some(t);
        }
    }
    None
}

/// Whether a text is an IP address.
pub open spec fn is_address(t: Seq<char>) -> bool {
    is_ipv4(t) || is_ipv6(t)
}

/// A text, if it is an IP address.
pub open spec fn address_in(v: Option<Seq<char>>) -> Option<Seq<char>> {
    match v {
        Some(t) => if is_address(t) {
            Some(t)
        } else {
            None
        },
        None => None,
    }
}

fn only_address(v: Option<String>) -> (r: Option<String>)
    ensures
        opt_text(r) == address_in(opt_text(v)),
{
    match v {
        Some(t) => if is_plausible_ip(t.as_str()) {
            Some(t)
        } else {
            None
        },
        None => None,
    }
}

/// The address that a request came from: the first of the headers that names one,
/// in the order of how far they can be trusted, else the socket's address, else the
/// empty text. What is no address is passed over.
pub open spec fn peer_of(h: PeerHeaders, fallback: Option<Seq<char>>) -> Seq<char> {
    let forwarded = match h.forwarded {
        Some(t) => first_in_groups(split(t@, ';')),
        None => None,
    };
    let chain = match h.x_forwarded_for {
        Some(t) => address_in(first_entry(split(t@, ','))),
        None => None,
    };
    match address_in(nonblank(opt_text(h.cf_connecting_ip))) {
        Some(ip) => ip,
        None => match address_in(nonblank(opt_text(h.x_real_ip))) {
            Some(ip) => ip,
            None => match forwarded {
                Some(ip) => ip,
                None => match chain {
                    Some(ip) => ip,
                    None => match fallback {
                        Some(ip) => ip,
                        None => Seq::empty(),
                    },
                },
            },
        },
    }
}

/// The address that a request came from.
pub fn resolve_peer(h: &PeerHeaders, fallback: Option<&str>) -> (r: String)
    ensures
        r@ == peer_of(
            *h,
            match fallback {
                Some(a) => Some(a@),
                None => None,
            },
        ),
{
    if let Some(ip) = only_address(first_header(&h.cf_connecting_ip)) {
        return ip;
    }
    if let Some(ip) = only_address(first_header(&h.x_real_ip)) {
        return ip;
    }
    if let Some(raw) = &h.forwarded {
        if let Some(ip) = parse_forwarded(raw.as_str()) {
            return ip;
        }
    }
    if let Some(raw) = &h.x_forwarded_for {
        if let Some(ip) = only_address(first_xff_entry(raw.as_str())) {
            return ip;
        }
    }
    match fallback {
        Some(a) => a.to_owned(),
        None => String::new(),
    }
}

proof fn lemma_forwarded(all: Seq<Seq<char>>)
    ensures
        first_forwarded(all) matches Some(ip) ==> is_address(ip),
    decreases all.len(),
{
    if all.len() > 0 {
        lemma_forwarded(all.drop_first());
    }
}

proof fn lemma_in_groups(groups: Seq<Seq<char>>)
    ensures
        first_in_groups(groups) matches Some(ip) ==> is_address(ip),
    decreases groups.len(),
{
    if groups.len() > 0 {
        lemma_forwarded(split(groups[0], ','));
        lemma_in_groups(groups.drop_first());
    }
}

/// Whatever a request's headers hold, only an address is taken from them: a peer is
/// an address, what the socket says, or unknown.
pub proof fn law_peers_are_addresses(h: PeerHeaders, fallback: Option<Seq<char>>)
    ensures
        ({
            let peer = peer_of(h, fallback);
            is_address(peer) || fallback == Some(peer) || peer.len() == 0
        }),
{
    if let Some(t) = h.forwarded {
        lemma_in_groups(split(t@, ';'));
    }
}

} // verus!

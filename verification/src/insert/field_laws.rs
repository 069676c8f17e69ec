//! What the envelopes of the wire formats say: a sender's line, level, service, host and
//! time stand where the parser looks for them, and nothing else that was sent is lost.
use vstd::prelude::*;
use vstd::utf8::{encode_utf8, valid_utf8};

use crate::{Protocol, RawRecord};
use crate::ingest::field_laws::{is_silent, says};
use crate::insert::fluentd::{
    ForwardV, ack_of, batch_envelopes, forwarded, forwards, msg_time, pair_under, pairs_json,
    record_envelope, tag_text, text_under,
};
use crate::insert::gelf::{gelf_envelope, gelf_level, gunzipped, inflated, unframed, unpacked};
use crate::insert::http::{
    InsertResponse, body_payloads, hold, item_payloads, line_payload, plain_status,
    telemetry_status,
};
use crate::insert::k8s_audit::{
    audit_envelope, audit_keys, audit_level, audit_message, events_in, object_text, stage_omitted,
};
use crate::insert::msgpack::{MsgV, be};
use crate::insert::splunk_hec::{
    NextV, event_time, hec_envelope, hec_message, line_text, stream_next, stream_rest, unblanked,
};
use crate::json::{JsonV, json_read, json_text};
use crate::text::{dec_int, just, lemma_trim_start, trim};
use crate::text_laws::law_numbers_read_back;
use crate::time::{Timestamp, at, rfc3339_read, rfc3339_text};

verus! {

/// The object with these members.
pub open spec fn object(m: Map<Seq<char>, JsonV>) -> JsonV {
    JsonV::Obj(m)
}

// ---------------------------------------------------------------------
// GELF
// ---------------------------------------------------------------------
/// The short message of a GELF message is its line, its host is its host, and a numeric
/// timestamp is its time; without one it has the time of receipt.
pub proof fn law_gelf_messages(m: Map<Seq<char>, JsonV>, now: Timestamp, t: Seq<char>)
    requires
        !m.contains_key("message"@),
        !m.contains_key("ts"@),
        !m.contains_key("service"@),
    ensures
        ({
            let e = gelf_envelope(object(m), now);
            &&& says(m, "short_message"@, t) ==> says(e, "message"@, t)
            &&& says(m, "host"@, t) ==> says(e, "host"@, t)
            &&& m.contains_key("timestamp"@) && m["timestamp"@] == JsonV::Num(t)
                ==> e.contains_key("ts"@) && e["ts"@] == JsonV::Num(t)
            &&& !m.contains_key("timestamp"@) ==> says(
                e,
                "ts"@,
                rfc3339_text(now.secs, now.nanos),
            )
            &&& says(m, "full_message"@, t) && t.len() > 0 ==> says(e, "full_message"@, t)
            &&& !m.contains_key("_container_name"@) && says(m, "facility"@, t) ==> says(
                e,
                "service"@,
                t,
            )
            &&& says(m, "_container_name"@, t) && t.len() > 0 && t[0] != '/' ==> says(
                e,
                "service"@,
                t,
            )
        }),
{
    lemma_gelf_names();
    if t.len() > 0 && t[0] != '/' {
        lemma_trim_start(t, just('/'), 0);
        assert(t.subrange(0, t.len() as int) =~= t);
    }
}

proof fn lemma_gelf_names()
    ensures
        "level"@ != "message"@,
        "service"@ != "message"@,
        "service"@ != "level"@,
        "host"@ != "message"@,
        "host"@ != "level"@,
        "host"@ != "service"@,
        "ts"@ != "message"@,
        "ts"@ != "level"@,
        "ts"@ != "service"@,
        "ts"@ != "host"@,
        "full_message"@ != "message"@,
        "full_message"@ != "level"@,
        "full_message"@ != "service"@,
        "full_message"@ != "host"@,
        "full_message"@ != "ts"@,
        "version"@ != "message"@,
        "version"@ != "level"@,
        "version"@ != "service"@,
        "version"@ != "host"@,
        "version"@ != "ts"@,
        "version"@ != "full_message"@,
        "short_message"@ != "message"@,
        "short_message"@ != "level"@,
        "short_message"@ != "service"@,
        "short_message"@ != "host"@,
        "short_message"@ != "ts"@,
        "short_message"@ != "full_message"@,
        "short_message"@ != "version"@,
        "timestamp"@ != "message"@,
        "timestamp"@ != "level"@,
        "timestamp"@ != "service"@,
        "timestamp"@ != "host"@,
        "timestamp"@ != "ts"@,
        "timestamp"@ != "full_message"@,
        "timestamp"@ != "version"@,
        "timestamp"@ != "short_message"@,
        "facility"@ != "message"@,
        "facility"@ != "level"@,
        "facility"@ != "service"@,
        "facility"@ != "host"@,
        "facility"@ != "ts"@,
        "facility"@ != "full_message"@,
        "facility"@ != "version"@,
        "facility"@ != "short_message"@,
        "facility"@ != "timestamp"@,
        "_container_name"@ != "message"@,
        "_container_name"@ != "level"@,
        "_container_name"@ != "service"@,
        "_container_name"@ != "host"@,
        "_container_name"@ != "ts"@,
        "_container_name"@ != "full_message"@,
        "_container_name"@ != "version"@,
        "_container_name"@ != "short_message"@,
        "_container_name"@ != "timestamp"@,
        "_container_name"@ != "facility"@,
{
    reveal_strlit("message");
    reveal_strlit("level");
    reveal_strlit("service");
    reveal_strlit("host");
    reveal_strlit("ts");
    reveal_strlit("full_message");
    reveal_strlit("version");
    reveal_strlit("short_message");
    reveal_strlit("timestamp");
    reveal_strlit("facility");
    reveal_strlit("_container_name");
    assert("message"@.len() == 7);
    assert("level"@.len() == 5);
    assert("service"@.len() == 7);
    assert("host"@.len() == 4);
    assert("ts"@.len() == 2);
    assert("full_message"@.len() == 12);
    assert("version"@.len() == 7);
    assert("short_message"@.len() == 13);
    assert("timestamp"@.len() == 9);
    assert("facility"@.len() == 8);
    assert("_container_name"@.len() == 15);
    assert("message"@[0] == 'm');
    assert("service"@[0] == 's');
    assert("version"@[0] == 'v');
}

/// Every other field of a GELF message is carried over under its name.
pub proof fn law_gelf_fields_are_kept(m: Map<Seq<char>, JsonV>, now: Timestamp, k: Seq<char>)
    requires
        m.contains_key(k),
        k != "version"@,
        k != "host"@,
        k != "short_message"@,
        k != "full_message"@,
        k != "timestamp"@,
        k != "level"@,
    ensures
        gelf_envelope(object(m), now).contains_key(k),
        gelf_envelope(object(m), now)[k] == m[k],
{
}

/// The levels of GELF are those of syslog.
pub proof fn law_gelf_levels(n: i64, t: Seq<char>)
    ensures
        ({
            let l = gelf_level(Some(JsonV::Num(dec_int(n as int))));
            &&& 0 <= n <= 2 ==> l == "fatal"@
            &&& n == 3 ==> l == "error"@
            &&& n == 4 ==> l == "warn"@
            &&& n == 5 || n == 6 ==> l == "info"@
            &&& n < 0 || n > 6 ==> l == "debug"@
        }),
        t.len() > 0 ==> gelf_level(Some(JsonV::Str(t))) == t,
        gelf_level(None) == "info"@,
{
    law_numbers_read_back(n);
}

/// The level of a GELF message is its field `level`.
pub proof fn law_gelf_level_field(m: Map<Seq<char>, JsonV>, now: Timestamp, v: JsonV)
    requires
        m.contains_key("level"@),
        m["level"@] == v,
    ensures
        says(gelf_envelope(object(m), now), "level"@, gelf_level(Some(v))),
{
    lemma_gelf_names();
}

/// Packed payloads are told by their first bytes; others are taken as they are.
pub proof fn law_packings_are_told_by_their_first_bytes(data: Seq<u8>)
    ensures
        data.len() >= 2 && data[0] == 0x1f && data[1] == 0x8b ==> unpacked(data) == gunzipped(data),
        data.len() > 0 && data[0] == 0x78 ==> unpacked(data) == inflated(data),
        data.len() > 0 && data[0] == 0x7b ==> unpacked(data) == Some(data),
{
}

/// The zero byte that ends a frame is no part of its message.
pub proof fn law_frames_end_in_a_zero_byte(message: Seq<u8>)
    ensures
        unframed(message.push(0u8)) == message,
        message.len() > 0 && message.last() != 0 ==> unframed(message) == message,
{
    assert(message.push(0u8).drop_last() =~= message);
}

// ---------------------------------------------------------------------
// Fluentd
// ---------------------------------------------------------------------
/// What a Fluentd record says under `log`, `message` or `msg` is its line, in this order; what
/// came from the error stream is an error; its container, else its tag, is its service; and
/// it has the time of its entry.
pub proof fn law_fluentd_records(
    pairs: Seq<(Seq<char>, MsgV)>,
    tag: Seq<char>,
    time: Option<Timestamp>,
    now: Timestamp,
    t: Seq<char>,
)
    requires
        !pairs_json(pairs).contains_key("level"@),
        !pairs_json(pairs).contains_key("service"@),
        !pairs_json(pairs).contains_key("ts"@),
    ensures
        ({
            let e = record_envelope(pairs, tag, time, now);
            let at = match time {
                Some(x) => x,
                None => now,
            };
            &&& text_under(pairs, "log"@) == Some(t) ==> says(e, "message"@, t)
            &&& text_under(pairs, "log"@) is None && text_under(pairs, "message"@) == Some(t)
                ==> says(e, "message"@, t)
            &&& text_under(pairs, "log"@) is None && text_under(pairs, "message"@) is None
                && text_under(pairs, "msg"@) == Some(t) ==> says(e, "message"@, t)
            &&& text_under(pairs, "source"@) == Some("stderr"@) ==> says(e, "level"@, "error"@)
            &&& text_under(pairs, "source"@) != Some("stderr"@) ==> says(e, "level"@, "info"@)
            &&& text_under(pairs, "container_name"@) is None && tag.len() > 0 ==> says(
                e,
                "service"@,
                tag,
            )
            &&& text_under(pairs, "container_name"@) is None && tag.len() == 0 ==> says(
                e,
                "service"@,
                "unknown"@,
            )
            &&& text_under(pairs, "container_name"@) == Some(t) && t.len() > 0 && t[0] != '/'
                ==> says(e, "service"@, t)
            &&& says(e, "ts"@, rfc3339_text(at.secs, at.nanos))
            &&& tag.len() > 0 ==> says(e, "fluentd_tag"@, tag)
        }),
{
    reveal_strlit("message");
    reveal_strlit("level");
    reveal_strlit("service");
    reveal_strlit("ts");
    reveal_strlit("fluentd_tag");
    reveal_strlit("log");
    reveal_strlit("msg");
    assert("message"@.len() == 7);
    assert("level"@.len() == 5);
    assert("service"@.len() == 7);
    assert("ts"@.len() == 2);
    assert("fluentd_tag"@.len() == 11);
    assert("log"@.len() == 3);
    assert("msg"@.len() == 3);
    assert("log"@[0] == 'l');
    assert("message"@[0] == 'm');
    assert("msg"@[0] == 'm');
    assert("service"@[0] == 's');
    if t.len() > 0 && t[0] != '/' {
        lemma_trim_start(t, just('/'), 0);
        assert(t.subrange(0, t.len() as int) =~= t);
    }
}

/// Every member of a Fluentd record but its line is carried over under its name.
pub proof fn law_fluentd_members_are_kept(
    pairs: Seq<(Seq<char>, MsgV)>,
    tag: Seq<char>,
    time: Option<Timestamp>,
    now: Timestamp,
    k: Seq<char>,
)
    requires
        pairs_json(pairs).contains_key(k),
        k != "log"@,
        k != "message"@,
        k != "msg"@,
        k != "fluentd_tag"@,
    ensures
        record_envelope(pairs, tag, time, now).contains_key(k),
        record_envelope(pairs, tag, time, now)[k] == pairs_json(pairs)[k],
{
}

/// The first value of a name is the one that is found.
pub proof fn law_first_value_is_found(pairs: Seq<(Seq<char>, MsgV)>, i: int)
    requires
        0 <= i < pairs.len(),
        forall|j: int| 0 <= j < i ==> (#[trigger] pairs[j]).0 != pairs[i].0,
    ensures
        pair_under(pairs, pairs[i].0) == Some(pairs[i].1),
    decreases i,
{
    if i > 0 {
        assert(pairs[0].0 != pairs[i].0);
        let rest = pairs.drop_first();
        assert forall|j: int| 0 <= j < i - 1 implies (#[trigger] rest[j]).0 != rest[i - 1].0 by {
            assert(pairs[j + 1].0 != pairs[i].0);
        }
        law_first_value_is_found(rest, i - 1);
    }
}

/// The time of an entry is a number of seconds, or seconds and nanoseconds in eight bytes.
pub proof fn law_entry_times(secs: u32, nanos: u32, n: i64)
    requires
        nanos < 1_000_000_000,
        0 <= n <= 0xffff_ffff,
    ensures
        msg_time(MsgV::Int(n)) == Some(Timestamp { secs: n, nanos: 0 }),
        msg_time(MsgV::Uint(n as u64)) == Some(Timestamp { secs: n, nanos: 0 }),
        forall|body: Seq<u8>|
            body.len() == 8 && be(body.subrange(0, 4)) == secs && be(body.subrange(4, 8)) == nanos
                ==> #[trigger] msg_time(MsgV::Ext(0, body)) == Some(
                Timestamp { secs: secs as i64, nanos },
            ),
{
}

/// A message of one record, a batch and a batch with options are told apart by their shape,
/// and only an option asks for an acknowledgement.
pub proof fn law_fluentd_shapes(
    tag: MsgV,
    time: MsgV,
    pairs: Seq<(Seq<char>, MsgV)>,
    entries: Seq<MsgV>,
    options: Seq<(Seq<char>, MsgV)>,
    now: Timestamp,
)
    ensures
        forwarded(MsgV::Array(seq![tag, time, MsgV::Dict(pairs)]), now) matches Ok(r) && r.len()
            == 1 && r[0].envelope == record_envelope(pairs, tag_text(tag), msg_time(time), now)
            && r[0].ack is None || time is Array,
        forwarded(
            MsgV::Array(seq![tag, time, MsgV::Dict(pairs), MsgV::Dict(options)]),
            now,
        ) matches Ok(r) && r.len() == 1 && r[0].envelope == record_envelope(
            pairs,
            tag_text(tag),
            msg_time(time),
            now,
        ) && r[0].ack == ack_of(MsgV::Dict(options)),
        forwarded(MsgV::Array(seq![tag, MsgV::Array(entries)]), now) == batch_envelopes(
            entries,
            tag_text(tag),
            None,
            now,
        ),
        forwarded(MsgV::Array(seq![tag, MsgV::Array(entries), MsgV::Dict(options)]), now)
            == batch_envelopes(entries, tag_text(tag), ack_of(MsgV::Dict(options)), now),
{
    let a = seq![tag, time, MsgV::Dict(pairs)];
    let b = seq![tag, time, MsgV::Dict(pairs), MsgV::Dict(options)];
    let c = seq![tag, MsgV::Array(entries)];
    let d = seq![tag, MsgV::Array(entries), MsgV::Dict(options)];
    assert(a.len() == 3 && b.len() == 4 && c.len() == 2 && d.len() == 3);
    assert(a[1] == time && a[2] == MsgV::Dict(pairs) && b[2] == MsgV::Dict(pairs));
    assert(c[1] == MsgV::Array(entries) && d[1] == MsgV::Array(entries));
}

/// The id under `chunk` in the options is the one that is acknowledged.
pub proof fn law_acknowledgements(options: Seq<(Seq<char>, MsgV)>, t: Seq<char>)
    ensures
        text_under(options, "chunk"@) == Some(t) && t.len() > 0 ==> ack_of(MsgV::Dict(options))
            == Some(t),
        text_under(options, "chunk"@) is None ==> ack_of(MsgV::Dict(options)) is None,
{
}

/// Every well-formed entry of a batch becomes one record, with its own time, in its order;
/// the first carries the acknowledgement.
pub proof fn law_batches_keep_their_entries(
    entries: Seq<MsgV>,
    tag: Seq<char>,
    ack: Option<Seq<char>>,
    now: Timestamp,
    i: int,
)
    requires
        forall|j: int|
            0 <= j < entries.len() ==> (#[trigger] entries[j]) is Array
                && entries[j]->Array_0.len() == 2 && entries[j]->Array_0[1] is Dict,
        0 <= i < entries.len(),
    ensures
        batch_envelopes(entries, tag, ack, now) matches Ok(r) && r.len() == entries.len()
            && r[i].envelope == record_envelope(
            entries[i]->Array_0[1]->Dict_0,
            tag,
            msg_time(entries[i]->Array_0[0]),
            now,
        ) && r[0].ack == ack,
    decreases entries.len(),
{
    let d = entries.drop_last();
    assert forall|j: int| 0 <= j < d.len() implies (#[trigger] d[j]) is Array
        && d[j]->Array_0.len() == 2 && d[j]->Array_0[1] is Dict by {
        assert(entries[j] is Array);
    }
    assert(entries[entries.len() - 1] is Array);
    if d.len() > 0 {
        law_batches_keep_their_entries(
            d,
            tag,
            ack,
            now,
            if i < d.len() {
                i
            } else {
                0
            },
        );
        lemma_batch_len(d, tag, ack, now);
    } else {
        assert(batch_envelopes(d, tag, ack, now) == Ok::<Seq<ForwardV>, Seq<char>>(Seq::empty()));
    }
}

proof fn lemma_batch_len(
    entries: Seq<MsgV>,
    tag: Seq<char>,
    ack: Option<Seq<char>>,
    now: Timestamp,
)
    requires
        forall|j: int|
            0 <= j < entries.len() ==> (#[trigger] entries[j]) is Array
                && entries[j]->Array_0.len() == 2 && entries[j]->Array_0[1] is Dict,
    ensures
        batch_envelopes(entries, tag, ack, now) matches Ok(r) && r.len() == entries.len(),
    decreases entries.len(),
{
    if entries.len() > 0 {
        let d = entries.drop_last();
        assert forall|j: int| 0 <= j < d.len() implies (#[trigger] d[j]) is Array
            && d[j]->Array_0.len() == 2 && d[j]->Array_0[1] is Dict by {
            assert(entries[j] is Array);
        }
        assert(entries[entries.len() - 1] is Array);
        lemma_batch_len(d, tag, ack, now);
    }
}

// ---------------------------------------------------------------------
// Splunk HEC
// ---------------------------------------------------------------------
/// The line of an event is the event itself where that is a text, the line within it where
/// it is an object, and the event in JSON else.
pub proof fn law_hec_lines(m: Map<Seq<char>, JsonV>, inner: Map<Seq<char>, JsonV>, t: Seq<char>)
    ensures
        says(m, "event"@, t) ==> hec_message(object(m)) == t,
        m.contains_key("event"@) && m["event"@] == object(inner) && says(inner, "line"@, t)
            ==> hec_message(object(m)) == t,
        m.contains_key("event"@) && m["event"@] is Num ==> hec_message(object(m)) == json_text(
            m["event"@],
        ),
        hec_message(JsonV::Str(t)) == t,
{
}

/// An event keeps its line, its host, its source type as its service, and the time that it
/// gives; without one it has the time of receipt.
pub proof fn law_hec_events(m: Map<Seq<char>, JsonV>, now: Timestamp, t: Seq<char>)
    requires
        !m.contains_key("fields"@),
        says(m, "event"@, t),
    ensures
        ({
            let e = hec_envelope(object(m), now);
            &&& says(e, "message"@, t)
            &&& says(e, "level"@, "info"@)
            &&& event_time(object(m)) matches Some(x) ==> says(
                e,
                "ts"@,
                rfc3339_text(x.secs, x.nanos),
            )
            &&& event_time(object(m)) is None ==> says(e, "ts"@, rfc3339_text(now.secs, now.nanos))
            &&& forall|h: Seq<char>| #[trigger] says(m, "host"@, h) ==> says(e, "host"@, h)
            &&& forall|s: Seq<char>| #[trigger]
                says(m, "sourcetype"@, s) ==> says(e, "hec_sourcetype"@, s) && (s.len() > 0 ==> says(
                    e,
                    "service"@,
                    s,
                ))
            &&& forall|s: Seq<char>| #[trigger]
                says(m, "source"@, s) ==> says(e, "hec_source"@, s)
            &&& forall|s: Seq<char>| #[trigger] says(m, "index"@, s) ==> says(e, "hec_index"@, s)
        }),
{
    reveal_strlit("message");
    reveal_strlit("level");
    reveal_strlit("service");
    reveal_strlit("ts");
    reveal_strlit("host");
    reveal_strlit("hec_source");
    reveal_strlit("hec_sourcetype");
    reveal_strlit("hec_index");
    reveal_strlit("source");
    assert("message"@.len() == 7);
    assert("level"@.len() == 5);
    assert("service"@.len() == 7);
    assert("ts"@.len() == 2);
    assert("host"@.len() == 4);
    assert("hec_source"@.len() == 10);
    assert("hec_sourcetype"@.len() == 14);
    assert("hec_index"@.len() == 9);
    assert("source"@.len() == 6);
    assert("message"@[0] == 'm');
    assert("service"@[0] == 's');
}

/// The fields of an event are carried over, and count before all else.
pub proof fn law_hec_fields_are_kept(
    m: Map<Seq<char>, JsonV>,
    f: Map<Seq<char>, JsonV>,
    now: Timestamp,
    k: Seq<char>,
)
    requires
        m.contains_key("fields"@),
        m["fields"@] == object(f),
        f.contains_key(k),
    ensures
        hec_envelope(object(m), now).contains_key(k),
        hec_envelope(object(m), now)[k] == f[k],
{
}

/// What came from the error stream is an error.
pub proof fn law_hec_error_stream(
    m: Map<Seq<char>, JsonV>,
    inner: Map<Seq<char>, JsonV>,
    now: Timestamp,
)
    requires
        !m.contains_key("fields"@),
        m.contains_key("event"@),
        m["event"@] == object(inner),
        says(inner, "source"@, "stderr"@),
        !inner.contains_key("attrs"@),
    ensures
        says(hec_envelope(object(m), now), "level"@, "error"@),
{
    reveal_strlit("message");
    reveal_strlit("level");
    reveal_strlit("service");
    reveal_strlit("ts");
    reveal_strlit("host");
    reveal_strlit("hec_source");
    reveal_strlit("hec_sourcetype");
    reveal_strlit("hec_index");
    reveal_strlit("source");
    reveal_strlit("tag");
    assert("message"@.len() == 7);
    assert("level"@.len() == 5);
    assert("service"@.len() == 7);
    assert("ts"@.len() == 2);
    assert("host"@.len() == 4);
    assert("hec_source"@.len() == 10);
    assert("hec_sourcetype"@.len() == 14);
    assert("hec_index"@.len() == 9);
    assert("source"@.len() == 6);
    assert("tag"@.len() == 3);
    assert("message"@[0] == 'm');
    assert("service"@[0] == 's');
}

// ---------------------------------------------------------------------
// Kubernetes audit
// ---------------------------------------------------------------------
/// The level of an audit event: a panic is fatal, a failure of the server an error, a
/// refusal a warning.
pub proof fn law_audit_levels(m: Map<Seq<char>, JsonV>, st: Map<Seq<char>, JsonV>, code: i64)
    requires
        m.contains_key("responseStatus"@),
        m["responseStatus"@] == object(st),
        st.contains_key("code"@),
        st["code"@] == JsonV::Num(dec_int(code as int)),
    ensures
        says(m, "stage"@, "Panic"@) ==> audit_level(object(m)) == "fatal"@,
        !says(m, "stage"@, "Panic"@) ==> {
            &&& code >= 500 ==> audit_level(object(m)) == "error"@
            &&& 400 <= code < 500 ==> audit_level(object(m)) == "warn"@
            &&& code < 400 ==> audit_level(object(m)) == "info"@
        },
{
    law_numbers_read_back(code);
}

/// An audit event belongs to the API server, is traced by its audit id, and comes from the
/// last of its addresses; its time is that of its stage, else that of the request.
pub proof fn law_audit_events(
    m: Map<Seq<char>, JsonV>,
    now: Timestamp,
    t: Seq<char>,
    ips: Seq<JsonV>,
)
    ensures
        ({
            let e = audit_envelope(object(m), now);
            &&& says(e, "service"@, "kube-apiserver"@)
            &&& says(e, "message"@, audit_message(object(m)))
            &&& says(e, "level"@, audit_level(object(m)))
            &&& says(m, "auditID"@, t) ==> says(e, "trace_id"@, t)
            &&& m.contains_key("sourceIPs"@) && m["sourceIPs"@] == JsonV::Arr(ips) && ips.len() > 0
                && ips.last() == JsonV::Str(t) ==> says(e, "host"@, t)
            &&& says(m, "stageTimestamp"@, t) && rfc3339_read(t) is Some ==> says(
                e,
                "ts"@,
                rfc3339_text(at(rfc3339_read(t)->0).secs, at(rfc3339_read(t)->0).nanos),
            )
            &&& is_silent(m, "stageTimestamp"@) && says(m, "requestReceivedTimestamp"@, t)
                && rfc3339_read(t) is Some ==> says(
                e,
                "ts"@,
                rfc3339_text(at(rfc3339_read(t)->0).secs, at(rfc3339_read(t)->0).nanos),
            )
            &&& is_silent(m, "stageTimestamp"@) && is_silent(m, "requestReceivedTimestamp"@)
                ==> says(e, "ts"@, rfc3339_text(now.secs, now.nanos))
        }),
{
    lemma_audit_names();
}

proof fn lemma_audit_names()
    ensures
        "service"@ != "message"@,
        "service"@ != "level"@,
        "service"@ != "trace_id"@,
        "service"@ != "host"@,
        "service"@ != "ts"@,
        "service"@ != "audit_level"@,
        "service"@ != "response_reason"@,
        !audit_keys().contains("service"@),
        "message"@ != "level"@,
        "message"@ != "trace_id"@,
        "message"@ != "host"@,
        "message"@ != "ts"@,
        "message"@ != "audit_level"@,
        "message"@ != "response_reason"@,
        !audit_keys().contains("message"@),
        "level"@ != "trace_id"@,
        "level"@ != "host"@,
        "level"@ != "ts"@,
        "level"@ != "audit_level"@,
        "level"@ != "response_reason"@,
        !audit_keys().contains("level"@),
        "trace_id"@ != "host"@,
        "trace_id"@ != "ts"@,
        "trace_id"@ != "audit_level"@,
        "trace_id"@ != "response_reason"@,
        !audit_keys().contains("trace_id"@),
        "host"@ != "ts"@,
        "host"@ != "audit_level"@,
        "host"@ != "response_reason"@,
        !audit_keys().contains("host"@),
        "ts"@ != "audit_level"@,
        "ts"@ != "response_reason"@,
        !audit_keys().contains("ts"@),
        !audit_keys().contains("audit_level"@),
        !audit_keys().contains("response_reason"@),
        "audit_level"@ != "response_reason"@,
{
    let keys = audit_keys();
    reveal_strlit("service");
    reveal_strlit("message");
    reveal_strlit("level");
    reveal_strlit("trace_id");
    reveal_strlit("host");
    reveal_strlit("ts");
    reveal_strlit("audit_level");
    reveal_strlit("response_reason");
    reveal_strlit("stage");
    reveal_strlit("requestURI");
    reveal_strlit("userAgent");
    reveal_strlit("user");
    reveal_strlit("impersonatedUser");
    reveal_strlit("sourceIPs");
    reveal_strlit("objectRef");
    reveal_strlit("responseStatus");
    reveal_strlit("requestObject");
    reveal_strlit("responseObject");
    reveal_strlit("annotations");
    reveal_strlit("authenticationMetadata");
    assert("service"@.len() == 7);
    assert("message"@.len() == 7);
    assert("level"@.len() == 5);
    assert("trace_id"@.len() == 8);
    assert("host"@.len() == 4);
    assert("ts"@.len() == 2);
    assert("audit_level"@.len() == 11);
    assert("response_reason"@.len() == 15);
    assert("stage"@.len() == 5);
    assert("requestURI"@.len() == 10);
    assert("userAgent"@.len() == 9);
    assert("user"@.len() == 4);
    assert("impersonatedUser"@.len() == 16);
    assert("sourceIPs"@.len() == 9);
    assert("objectRef"@.len() == 9);
    assert("responseStatus"@.len() == 14);
    assert("requestObject"@.len() == 13);
    assert("responseObject"@.len() == 14);
    assert("annotations"@.len() == 11);
    assert("authenticationMetadata"@.len() == 22);
    assert("annotations"@[1] == 'n');
    assert("audit_level"@[1] == 'u');
    assert("host"@[0] == 'h');
    assert("level"@[0] == 'l');
    assert("message"@[0] == 'm');
    assert("objectRef"@[0] == 'o');
    assert("responseObject"@[8] == 'O');
    assert("responseStatus"@[8] == 'S');
    assert("service"@[0] == 's');
    assert("sourceIPs"@[0] == 's');
    assert("stage"@[0] == 's');
    assert("user"@[0] == 'u');
    assert("userAgent"@[0] == 'u');
    assert(keys[0] == "stage"@);
    assert(keys[1] == "requestURI"@);
    assert(keys[2] == "userAgent"@);
    assert(keys[3] == "user"@);
    assert(keys[4] == "impersonatedUser"@);
    assert(keys[5] == "sourceIPs"@);
    assert(keys[6] == "objectRef"@);
    assert(keys[7] == "responseStatus"@);
    assert(keys[8] == "requestObject"@);
    assert(keys[9] == "responseObject"@);
    assert(keys[10] == "annotations"@);
    assert(keys[11] == "authenticationMetadata"@);
    lemma_not_a_key("service"@);
    lemma_not_a_key("message"@);
    lemma_not_a_key("level"@);
    lemma_not_a_key("trace_id"@);
    lemma_not_a_key("host"@);
    lemma_not_a_key("ts"@);
    lemma_not_a_key("audit_level"@);
    lemma_not_a_key("response_reason"@);
}

proof fn lemma_not_a_key(k: Seq<char>)
    requires
        k != "stage"@,
        k != "requestURI"@,
        k != "userAgent"@,
        k != "user"@,
        k != "impersonatedUser"@,
        k != "sourceIPs"@,
        k != "objectRef"@,
        k != "responseStatus"@,
        k != "requestObject"@,
        k != "responseObject"@,
        k != "annotations"@,
        k != "authenticationMetadata"@,
    ensures
        !audit_keys().contains(k),
{
    let keys = audit_keys();
    assert(keys[0] == "stage"@);
    assert(keys[1] == "requestURI"@);
    assert(keys[2] == "userAgent"@);
    assert(keys[3] == "user"@);
    assert(keys[4] == "impersonatedUser"@);
    assert(keys[5] == "sourceIPs"@);
    assert(keys[6] == "objectRef"@);
    assert(keys[7] == "responseStatus"@);
    assert(keys[8] == "requestObject"@);
    assert(keys[9] == "responseObject"@);
    assert(keys[10] == "annotations"@);
    assert(keys[11] == "authenticationMetadata"@);
    if keys.contains(k) {
        let i = choose|i: int| 0 <= i < keys.len() && keys[i] == k;
        assert(keys.len() == 12);
    }
}

/// Who asked for what, and what came of it, is carried over.
pub proof fn law_audit_details_are_kept(m: Map<Seq<char>, JsonV>, now: Timestamp, k: Seq<char>)
    requires
        m.contains_key(k),
        !(m[k] is Null),
        ({
            ||| k == "stage"@
            ||| k == "requestURI"@
            ||| k == "userAgent"@
            ||| k == "user"@
            ||| k == "impersonatedUser"@
            ||| k == "sourceIPs"@
            ||| k == "objectRef"@
            ||| k == "responseStatus"@
            ||| k == "requestObject"@
            ||| k == "responseObject"@
            ||| k == "annotations"@
            ||| k == "authenticationMetadata"@
        }),
    ensures
        audit_envelope(object(m), now).contains_key(k),
        audit_envelope(object(m), now)[k] == m[k],
{
    let keys = audit_keys();
    assert(keys[0] == "stage"@);
    assert(keys[1] == "requestURI"@);
    assert(keys[2] == "userAgent"@);
    assert(keys[3] == "user"@);
    assert(keys[4] == "impersonatedUser"@);
    assert(keys[5] == "sourceIPs"@);
    assert(keys[6] == "objectRef"@);
    assert(keys[7] == "responseStatus"@);
    assert(keys[8] == "requestObject"@);
    assert(keys[9] == "responseObject"@);
    assert(keys[10] == "annotations"@);
    assert(keys[11] == "authenticationMetadata"@);
    assert(keys.contains(k));
    reveal_strlit("audit_level");
    reveal_strlit("response_reason");
    reveal_strlit("stage");
    reveal_strlit("requestURI");
    reveal_strlit("userAgent");
    reveal_strlit("user");
    reveal_strlit("impersonatedUser");
    reveal_strlit("sourceIPs");
    reveal_strlit("objectRef");
    reveal_strlit("responseStatus");
    reveal_strlit("requestObject");
    reveal_strlit("responseObject");
    reveal_strlit("annotations");
    reveal_strlit("authenticationMetadata");
    assert("audit_level"@.len() == 11);
    assert("response_reason"@.len() == 15);
    assert("stage"@.len() == 5);
    assert("requestURI"@.len() == 10);
    assert("userAgent"@.len() == 9);
    assert("user"@.len() == 4);
    assert("impersonatedUser"@.len() == 16);
    assert("sourceIPs"@.len() == 9);
    assert("objectRef"@.len() == 9);
    assert("responseStatus"@.len() == 14);
    assert("requestObject"@.len() == 13);
    assert("responseObject"@.len() == 14);
    assert("annotations"@.len() == 11);
    assert("authenticationMetadata"@.len() == 22);
    assert("annotations"@[1] == 'n');
    assert("audit_level"@[1] == 'u');
    assert("objectRef"@[0] == 'o');
    assert("responseObject"@[8] == 'O');
    assert("responseStatus"@[8] == 'S');
    assert("sourceIPs"@[0] == 's');
    assert("userAgent"@[0] == 'u');
}

/// The line of an audit event begins with its verb, and names the code of the answer.
pub proof fn law_audit_lines(m: Map<Seq<char>, JsonV>, verb: Seq<char>, uri: Seq<char>)
    requires
        says(m, "verb"@, verb),
        !m.contains_key("objectRef"@),
        says(m, "requestURI"@, uri),
        !m.contains_key("responseStatus"@),
        !m.contains_key("stage"@),
    ensures
        audit_message(object(m)) == verb + " "@ + uri,
{
}

/// An object is named by its group, its kind, its namespace and its name.
pub proof fn law_audit_objects(
    m: Map<Seq<char>, JsonV>,
    group: Seq<char>,
    resource: Seq<char>,
    namespace: Seq<char>,
    name: Seq<char>,
)
    requires
        says(m, "apiGroup"@, group),
        says(m, "resource"@, resource),
        says(m, "namespace"@, namespace),
        says(m, "name"@, name),
        group.len() > 0,
        namespace.len() > 0,
    ensures
        object_text(object(m)) == group + "/"@ + resource + " "@ + namespace + "/"@ + name,
{
    assert(object_text(object(m)) =~= group + "/"@ + resource + " "@ + namespace + "/"@ + name);
}

/// A stage is left out exactly where it is listed.
pub proof fn law_stages_may_be_left_out(
    m: Map<Seq<char>, JsonV>,
    omit: Seq<Seq<char>>,
    stage: Seq<char>,
)
    requires
        says(m, "stage"@, stage),
    ensures
        stage_omitted(object(m), omit) == omit.contains(stage),
{
}

/// The events of a body are the items of its list, or the body itself.
pub proof fn law_audit_bodies(m: Map<Seq<char>, JsonV>, items: Seq<JsonV>)
    ensures
        m.contains_key("items"@) && m["items"@] == JsonV::Arr(items) ==> events_in(object(m))
            == items,
        events_in(JsonV::Arr(items)) == items,
        !m.contains_key("items"@) && (m.contains_key("auditID"@) || m.contains_key("verb"@))
            ==> events_in(object(m)) == seq![object(m)],
{
}

// ---------------------------------------------------------------------
// Plain HTTP
// ---------------------------------------------------------------------
/// Every item of a list but null is a record, in its order.
pub proof fn law_list_items_are_records(items: Seq<JsonV>, i: int)
    requires
        0 <= i < items.len(),
        forall|j: int| 0 <= j < items.len() ==> !((#[trigger] items[j]) is Null),
    ensures
        item_payloads(items).len() == items.len(),
        item_payloads(items)[i] == encode_utf8(json_text(items[i])),
    decreases items.len(),
{
    let d = items.drop_last();
    assert(!(items[items.len() - 1] is Null));
    assert forall|j: int| 0 <= j < d.len() implies !((#[trigger] d[j]) is Null) by {
        assert(!(items[j] is Null));
    }
    if d.len() > 0 {
        law_list_items_are_records(
            d,
            if i < d.len() {
                i
            } else {
                0
            },
        );
    }
}

/// A line that is no JSON is a record as it stands, without the white space around it; a
/// blank line is none.
pub proof fn law_lines_are_records(line: Seq<char>)
    ensures
        trim(line).len() == 0 ==> line_payload(line) is None,
        trim(line).len() > 0 && json_read(trim(line)) is Err ==> line_payload(line) == Some(
            encode_utf8(trim(line)),
        ),
{
}

/// Bytes that are no text are one record, as they are.
pub proof fn law_other_bytes_are_one_record(body: Seq<u8>)
    requires
        !valid_utf8(body),
    ensures
        body_payloads(body) == seq![body],
{
}

/// What a client is told: success as soon as one record was stored, and how many were.
pub proof fn law_clients_are_told(r: InsertResponse)
    ensures
        r.accepted > 0 ==> plain_status(r) == 200,
        r.accepted == 0 ==> plain_status(r) == 400,
        r.accepted == 0 && r.rejected > 0 ==> telemetry_status(r) == 503,
        r.accepted > 0 || r.rejected == 0 ==> telemetry_status(r) == 200,
{
}

/// The protocols, by the names under which they are stored.
pub proof fn law_protocols_are_named(a: Protocol, b: Protocol)
    ensures
        a.name() == b.name() ==> a == b,
        Protocol::HttpJson.name() == "http_json"@,
        Protocol::SyslogUdp.name() == "syslog_udp"@,
        Protocol::SyslogTcp.name() == "syslog_tcp"@,
        Protocol::Sentry.name() == "sentry"@,
        Protocol::OtlpLog.name() == "otlp_log"@,
        Protocol::OtlpSpan.name() == "otlp_span"@,
        Protocol::OtlpMetric.name() == "otlp_metric"@,
        Protocol::Gelf.name() == "gelf"@,
        Protocol::Fluentd.name() == "fluentd"@,
        Protocol::SplunkHec.name() == "splunk_hec"@,
        Protocol::K8sAudit.name() == "k8s_audit"@,
        Protocol::DockerApi.name() == "docker_api"@,
        Protocol::K8sApi.name() == "k8s_api"@,
{
    reveal_strlit("http_json");
    reveal_strlit("syslog_udp");
    reveal_strlit("syslog_tcp");
    reveal_strlit("sentry");
    reveal_strlit("otlp_log");
    reveal_strlit("otlp_span");
    reveal_strlit("otlp_metric");
    reveal_strlit("gelf");
    reveal_strlit("fluentd");
    reveal_strlit("splunk_hec");
    reveal_strlit("k8s_audit");
    reveal_strlit("docker_api");
    reveal_strlit("k8s_api");
    assert("http_json"@.len() == 9);
    assert("syslog_udp"@.len() == 10);
    assert("syslog_tcp"@.len() == 10);
    assert("sentry"@.len() == 6);
    assert("otlp_log"@.len() == 8);
    assert("otlp_span"@.len() == 9);
    assert("otlp_metric"@.len() == 11);
    assert("gelf"@.len() == 4);
    assert("fluentd"@.len() == 7);
    assert("splunk_hec"@.len() == 10);
    assert("k8s_audit"@.len() == 9);
    assert("docker_api"@.len() == 10);
    assert("k8s_api"@.len() == 7);
    assert("docker_api"@[0] == 'd');
    assert("fluentd"@[0] == 'f');
    assert("http_json"@[0] == 'h');
    assert("k8s_api"@[0] == 'k');
    assert("k8s_audit"@[0] == 'k');
    assert("otlp_span"@[0] == 'o');
    assert("splunk_hec"@[0] == 's');
    assert("splunk_hec"@[1] == 'p');
    assert("syslog_tcp"@[0] == 's');
    assert("syslog_tcp"@[1] == 'y');
    assert("syslog_tcp"@[7] == 't');
    assert("syslog_udp"@[0] == 's');
    assert("syslog_udp"@[1] == 'y');
    assert("syslog_udp"@[7] == 'u');
}

/// What an event says besides its line is kept, its attributes under their names.
pub proof fn law_hec_details(
    m: Map<Seq<char>, JsonV>,
    inner: Map<Seq<char>, JsonV>,
    attrs: Map<Seq<char>, JsonV>,
    now: Timestamp,
    k: Seq<char>,
    t: Seq<char>,
)
    requires
        m.contains_key("event"@),
        m["event"@] == object(inner),
        !m.contains_key("fields"@),
        !m.contains_key("source"@),
        !m.contains_key("sourcetype"@),
        !m.contains_key("index"@),
    ensures
        inner.contains_key("attrs"@) && inner["attrs"@] == object(attrs) && attrs.contains_key(k)
            ==> hec_envelope(object(m), now).contains_key(k) && hec_envelope(object(m), now)[k]
            == attrs[k],
        !inner.contains_key("attrs"@) && says(inner, "tag"@, t) ==> says(
            hec_envelope(object(m), now),
            "tag"@,
            t,
        ),
        !inner.contains_key("attrs"@) && says(inner, "source"@, t) ==> says(
            hec_envelope(object(m), now),
            "source"@,
            t,
        ),
{
    reveal_strlit("source");
    reveal_strlit("tag");
    assert("source"@.len() == 6);
    assert("tag"@.len() == 3);
}

/// Blanks around a body do not count.
pub proof fn law_blanks_do_not_count(b: Seq<u8>)
    ensures
        unblanked(seq![0x20u8] + b) == unblanked(b),
        unblanked(seq![0x0au8] + b) == unblanked(b),
        b.len() > 0 && b[0] == 0x7b && b.last() == 0x7d ==> unblanked(b) == b,
{
    assert((seq![0x20u8] + b).drop_first() =~= b);
    assert((seq![0x0au8] + b).drop_first() =~= b);
}

/// The events of a collector's body are read in the order in which they stand in it, each
/// behind the end of the one before it.
pub proof fn law_events_keep_their_order(b: Seq<u8>, done: Seq<JsonV>, v: JsonV, n: nat)
    requires
        0 < n <= b.len(),
    ensures
        stream_next(b) == NextV::Value(v, n) ==> stream_rest(b, done) == stream_rest(
            b.skip(n as int),
            done.push(v),
        ),
        stream_next(b) is End ==> stream_rest(b, done) == Some(done),
        stream_next(b) is Bad ==> stream_rest(b, done) is None,
{
    assert(b.skip(n as int) =~= b.subrange(n as int, b.len() as int));
}

/// The records of a forwarded batch are its entries in their order, each received now, with
/// the acknowledgement that the entry asks for.
pub proof fn law_forwarded_records(
    recs: Seq<(RawRecord, Option<String>)>,
    all: Seq<ForwardV>,
    now: Timestamp,
    i: int,
)
    requires
        forwards(recs, all, now),
        0 <= i < all.len(),
    ensures
        recs.len() == all.len(),
        recs[i].0.receive_ts == now,
        recs[i].0.protocol == Protocol::Fluentd,
        recs[i].0.source_addr@.len() == 0,
        recs[i].1 is Some <==> all[i].ack is Some,
        all[i].ack matches Some(a) ==> recs[i].1->0@ == a,
{
}

/// The records of a plain body are its payloads in their order, from the peer that sent
/// them, received now.
pub proof fn law_plain_records(
    recs: Seq<RawRecord>,
    now: Timestamp,
    peer: Seq<char>,
    raws: Seq<Seq<u8>>,
    i: int,
)
    requires
        hold(recs, now, peer, raws),
        0 <= i < raws.len(),
    ensures
        recs.len() == raws.len(),
        recs[i].raw@ == raws[i],
        recs[i].receive_ts == now,
        recs[i].source_addr@ == peer,
{
}

/// The text of an event: a text as it stands, nothing for nothing, and every other value as
/// it is written.
pub proof fn law_texts_of_events(s: Seq<char>, m: Map<Seq<char>, JsonV>, a: Seq<JsonV>, n: Seq<char>)
    ensures
        line_text(Some(JsonV::Str(s))) == s,
        line_text(None).len() == 0,
        line_text(Some(JsonV::Null)).len() == 0,
        line_text(Some(JsonV::Obj(m))) == json_text(JsonV::Obj(m)),
        line_text(Some(JsonV::Arr(a))) == json_text(JsonV::Arr(a)),
        line_text(Some(JsonV::Num(n))) == json_text(JsonV::Num(n)),
{
}

} // verus!

//! What bytes on the wire mean: MessagePack values, spelled enumerations, and messages that
//! come in chunks.
use vstd::prelude::*;
use vstd::utf8::{decode_utf8, valid_utf8};

use crate::audit::{bare_address, forwarded_for};
use crate::client::{next_word, status_in};
use crate::ingest::parse::{SyslogV, chosen_reading};
use crate::ingest::worker::source_address;
use crate::insert::fluentd::msg_json;
use crate::insert::gelf::{
    BufV, CHUNK_MAX_MESSAGE_BYTES, chunk_handled, chunk_step, datagram_count, datagram_step,
    fresh, present, swept, whole,
};
use crate::insert::http::{
    Insertion, answer_json, insertion_error, insertion_errors, line_payload, line_payloads,
    logs_wire, stored_count,
};
use crate::insert::msgpack::{
    MsgFault, MsgV, be, be_at, items_at, key_text, members_at, msg_at, msg_text,
};
use crate::insert::otlp::{
    Wire, histogram_attrs, kind_names, log_record_envelope, logs_in, metric_attrs,
    metric_point_envelopes, metrics_in, name_at, names_a_list, normal, number_attrs,
    point_envelope, scope_log_envelopes, scope_trace_envelopes, service_of_resource,
    severity_name, severity_names, shared_attrs, span_envelope, status_names, status_text,
    summary_attrs, traces_in,
};
use crate::insert::otlp_types::{
    MetricDataV, OtelMetricV, ResourceLogsV, ResourceMetricsV, ResourceSpansV, ResourceV,
    ScopeLogsV, ScopeSpansV,
};
use crate::insert::otlp_wire::{
    logs_of_json, logs_read, metrics_of_json, metrics_read, traces_of_json, traces_read,
};
use crate::ip::{is_ipv4, is_ipv6, is_octet};
use crate::json::{JsonV, double_value, json_read_bytes};
use crate::text::{
    all_digits, dec, dec_int, digit, has_text, is_digit, is_space, just, lemma_find_by,
    lemma_trim_end, lemma_trim_start, lossy_text, lower, rsplit_once, space_class, split, trim,
    trim_start_by,
};
use crate::text_laws::{law_naturals_read_back, law_no_separator, law_split_at_a_separator};
use crate::time::{Timestamp, start_of_window};

verus! {

// ---------------------------------------------------------------------
// MessagePack
// ---------------------------------------------------------------------
/// A byte that stands for a value on its own.
pub proof fn law_single_bytes(b: Seq<u8>)
    requires
        b.len() > 0,
    ensures
        b[0] <= 0x7f ==> msg_at(b, 0) == Ok::<(MsgV, int), MsgFault>((MsgV::Uint(b[0] as u64), 1)),
        b[0] >= 0xe0 ==> msg_at(b, 0) == Ok::<(MsgV, int), MsgFault>(
            (MsgV::Int((b[0] - 256) as i64), 1),
        ),
        b[0] == 0xc0 ==> msg_at(b, 0) == Ok::<(MsgV, int), MsgFault>((MsgV::Nil, 1)),
        b[0] == 0xc2 ==> msg_at(b, 0) == Ok::<(MsgV, int), MsgFault>((MsgV::Bool(false), 1)),
        b[0] == 0xc3 ==> msg_at(b, 0) == Ok::<(MsgV, int), MsgFault>((MsgV::Bool(true), 1)),
        b[0] == 0xc1 ==> msg_at(b, 0) is Err,
{
}

/// Bytes make a number with the greatest first.
pub proof fn law_bytes_make_numbers(a: u8, b: u8, c: u8, d: u8)
    ensures
        be(seq![a]) == a,
        be(seq![a, b]) == 256 * a + b,
        be(seq![a, b, c, d]) == 16_777_216 * a + 65_536 * b + 256 * c + d,
{
    reveal_with_fuel(be, 5);
    assert(seq![a].drop_last() =~= Seq::<u8>::empty());
    assert(seq![a, b].drop_last() =~= seq![a]);
    assert(seq![a, b, c].drop_last() =~= seq![a, b]);
    assert(seq![a, b, c, d].drop_last() =~= seq![a, b, c]);
}

/// A number behind a byte that tells its width.
pub proof fn law_numbers_behind_their_width(b: Seq<u8>, k: int)
    requires
        k == 1 || k == 2 || k == 4 || k == 8,
        b.len() == k + 1,
    ensures
        b[0] == (if k == 1 {
            0xccu8
        } else if k == 2 {
            0xcd
        } else if k == 4 {
            0xce
        } else {
            0xcf
        }) ==> msg_at(b, 0) == Ok::<(MsgV, int), MsgFault>(
            (MsgV::Uint(be(b.subrange(1, k + 1)) as u64), k + 1),
        ),
        b[0] == 0xcb && k == 8 ==> msg_at(b, 0) == Ok::<(MsgV, int), MsgFault>(
            (MsgV::F64(be(b.subrange(1, 9)) as u64), 9),
        ),
{
}

/// A signed number of one or two bytes: the upper half of the range is below zero.
pub proof fn law_signed_numbers(b: Seq<u8>)
    requires
        b.len() >= 2,
    ensures
        b[0] == 0xd0 && b[1] < 0x80 ==> msg_at(b, 0) == Ok::<(MsgV, int), MsgFault>(
            (MsgV::Uint(b[1] as u64), 2),
        ),
        b[0] == 0xd0 && b[1] >= 0x80 ==> msg_at(b, 0) == Ok::<(MsgV, int), MsgFault>(
            (MsgV::Int((b[1] - 256) as i64), 2),
        ),
        b[0] == 0xd1 && b.len() == 3 && b[1] >= 0x80 ==> msg_at(b, 0) == Ok::<
            (MsgV, int),
            MsgFault,
        >((MsgV::Int((256 * b[1] + b[2] - 65_536) as i64), 3)),
{
    law_bytes_make_numbers(b[1], 0, 0, 0);
    assert(b.subrange(1, 2) =~= seq![b[1]]);
    if b.len() == 3 {
        law_bytes_make_numbers(b[1], b[2], 0, 0);
        assert(b.subrange(1, 3) =~= seq![b[1], b[2]]);
    }
}

/// A text is as long as the byte before it says, and so are bytes.
pub proof fn law_texts_and_bytes(body: Seq<u8>)
    requires
        body.len() <= 31,
    ensures
        msg_at(seq![(0xa0 + body.len()) as u8] + body, 0) == Ok::<(MsgV, int), MsgFault>(
            (MsgV::Str(lossy_text(body)), (body.len() + 1) as int),
        ),
        msg_at(seq![0xd9u8, body.len() as u8] + body, 0) == Ok::<(MsgV, int), MsgFault>(
            (MsgV::Str(lossy_text(body)), (body.len() + 2) as int),
        ),
        msg_at(seq![0xc4u8, body.len() as u8] + body, 0) == Ok::<(MsgV, int), MsgFault>(
            (MsgV::Bin(body), (body.len() + 2) as int),
        ),
{
    let n = body.len() as int;
    let x = seq![(0xa0 + body.len()) as u8] + body;
    let y = seq![0xd9u8, body.len() as u8] + body;
    let z = seq![0xc4u8, body.len() as u8] + body;
    assert(x[0] == (0xa0 + n) as u8);
    assert(x.subrange(1, 1 + n) =~= body);
    assert(y[0] == 0xd9 && z[0] == 0xc4);
    law_bytes_make_numbers(body.len() as u8, 0, 0, 0);
    assert(y.subrange(1, 2) =~= seq![body.len() as u8]);
    assert(z.subrange(1, 2) =~= seq![body.len() as u8]);
    assert(y.subrange(2, 2 + n) =~= body);
    assert(z.subrange(2, 2 + n) =~= body);
    assert(be_at(y, 1, 1) == n && be_at(z, 1, 1) == n);
}

/// A list of two and a map of one are made of the values that follow.
pub proof fn law_lists_and_maps(b: Seq<u8>, v: MsgV, p: int, w: MsgV, q: int)
    requires
        b.len() > 0,
        msg_at(b, 1) == Ok::<(MsgV, int), MsgFault>((v, p)),
        1 < p <= b.len(),
        msg_at(b, p) == Ok::<(MsgV, int), MsgFault>((w, q)),
        p < q <= b.len(),
    ensures
        b[0] == 0x92 ==> msg_at(b, 0) == Ok::<(MsgV, int), MsgFault>((MsgV::Array(seq![v, w]), q)),
        b[0] == 0x81 ==> msg_at(b, 0) == Ok::<(MsgV, int), MsgFault>(
            (MsgV::Dict(seq![(key_text(v), w)]), q),
        ),
{
    let none = Seq::<MsgV>::empty();
    let pairs = Seq::<(Seq<char>, MsgV)>::empty();
    assert(none.push(v).push(w) =~= seq![v, w]);
    assert(pairs.push((key_text(v), w)) =~= seq![(key_text(v), w)]);
    assert(items_at(b, q, 0, none.push(v).push(w)) == Ok::<(Seq<MsgV>, int), MsgFault>(
        (none.push(v).push(w), q),
    ));
    assert(items_at(b, p, 1, none.push(v)) == items_at(b, q, 0, none.push(v).push(w)));
    assert(items_at(b, 1, 2, none) == items_at(b, p, 1, none.push(v)));
    assert(members_at(b, q, 0, pairs.push((key_text(v), w))) == Ok::<
        (Seq<(Seq<char>, MsgV)>, int),
        MsgFault,
    >((pairs.push((key_text(v), w)), q)));
    assert(members_at(b, 1, 1, pairs) == members_at(b, q, 0, pairs.push((key_text(v), w))));
}

/// A value keeps its kind in JSON.
pub proof fn law_values_in_json(i: i64, u: u64, x: u64, s: Seq<char>, flag: bool)
    ensures
        msg_json(MsgV::Nil) == JsonV::Null,
        msg_json(MsgV::Bool(flag)) == JsonV::Bool(flag),
        msg_json(MsgV::Int(i)) == JsonV::Num(dec_int(i as int)),
        msg_json(MsgV::Uint(u)) == JsonV::Num(dec(u as nat)),
        msg_json(MsgV::F64(x)) == double_value(x),
        msg_json(MsgV::Str(s)) == JsonV::Str(s),
{
}

/// A scalar as text is what it spells.
pub proof fn law_scalars_as_text(i: i64, u: u64, s: Seq<char>)
    ensures
        msg_text(MsgV::Str(s)) == Some(s),
        msg_text(MsgV::Int(i)) == Some(dec_int(i as int)),
        msg_text(MsgV::Uint(u)) == Some(dec(u as nat)),
        msg_text(MsgV::Nil) is None,
{
}

// ---------------------------------------------------------------------
// Chunks
// ---------------------------------------------------------------------
/// A message waits for its chunks until the time is over, and no longer.
pub proof fn law_messages_wait(m: Map<u64, BufV>, id: u64, now: u64, timeout: u64)
    requires
        m.contains_key(id),
        now >= m[id].first_seen,
    ensures
        now - m[id].first_seen < timeout ==> swept(m, now, timeout).contains_key(id) && swept(
            m,
            now,
            timeout,
        )[id] == m[id],
        now - m[id].first_seen >= timeout ==> !swept(m, now, timeout).contains_key(id),
{
}

/// The header of a chunk names its message by eight bytes, its own place and the number of
/// chunks; a place beyond the number, and too many chunks, are refused.
pub proof fn law_chunk_headers(m: Map<u64, BufV>, data: Seq<u8>, now: u64, timeout: u64)
    requires
        data.len() >= 12,
    ensures
        data[11] == 0 || data[11] > 128 || data[10] >= data[11] ==> chunk_handled(
            m,
            data,
            now,
            timeout,
        ) == (m, None::<Seq<u8>>),
        0 < data[11] <= 128 && data[10] < data[11] ==> chunk_handled(m, data, now, timeout)
            == chunk_step(
            swept(m, now, timeout),
            be(data.subrange(2, 10)) as u64,
            data[10] as int,
            data[11] as int,
            data.subrange(12, data.len() as int),
            now,
        ),
{
}

/// A message of one chunk is whole at once.
pub proof fn law_single_chunks(id: u64, payload: Seq<u8>, now: u64)
    requires
        payload.len() <= CHUNK_MAX_MESSAGE_BYTES,
    ensures
        chunk_step(Map::empty(), id, 0, 1, payload, now).1 == Some(payload),
{
    let parts = fresh(1, now).parts.update(0, Some(payload));
    assert(parts.drop_last() =~= Seq::<Option<Seq<u8>>>::empty());
    assert(present(parts.drop_last()) == 0);
    assert(whole(parts.drop_last()) =~= Seq::<u8>::empty());
    assert(present(parts) == 1);
    assert(whole(parts) =~= payload);
}

// ---------------------------------------------------------------------
// Addresses
// ---------------------------------------------------------------------
/// Four numbers up to 255 with dots between them are an address.
pub proof fn law_four_octets(a: u8, b: u8, c: u8, d: u8)
    ensures
        is_octet(dec(a as nat)),
        split(
            dec(a as nat) + seq!['.'] + (dec(b as nat) + seq!['.'] + (dec(c as nat) + seq!['.']
                + dec(d as nat))),
            '.',
        ) == seq![dec(a as nat), dec(b as nat), dec(c as nat), dec(d as nat)],
        is_ipv4(
            dec(a as nat) + seq!['.'] + (dec(b as nat) + seq!['.'] + (dec(c as nat) + seq!['.']
                + dec(d as nat))),
        ),
{
    lemma_octet(a);
    lemma_octet(b);
    lemma_octet(c);
    lemma_octet(d);
    let x = dec(c as nat) + seq!['.'] + dec(d as nat);
    let y = dec(b as nat) + seq!['.'] + x;
    law_split_at_a_separator(dec(a as nat), y, '.');
    law_split_at_a_separator(dec(b as nat), x, '.');
    law_split_at_a_separator(dec(c as nat), dec(d as nat), '.');
    law_no_separator(dec(d as nat), '.');
    assert(split(dec(a as nat) + seq!['.'] + y, '.') =~= seq![
        dec(a as nat),
        dec(b as nat),
        dec(c as nat),
        dec(d as nat),
    ]);
}

proof fn lemma_octet(a: u8)
    ensures
        is_octet(dec(a as nat)),
        forall|i: int| 0 <= i < dec(a as nat).len() ==> #[trigger] dec(a as nat)[i] != '.',
{
    law_naturals_read_back(a as nat);
    let s = dec(a as nat);
    assert forall|i: int| 0 <= i < s.len() implies #[trigger] s[i] != '.' by {
        assert(is_digit(s[i]));
    }
    reveal_with_fuel(dec, 3);
    if a >= 100 {
        assert(s =~= seq![
            digit(a as int / 100),
            digit((a as int / 10) % 10),
            digit(a as int % 10),
        ]);
        assert(s[0] as u32 == 48 + a as int / 100);
    } else if a >= 10 {
        assert(s =~= seq![digit(a as int / 10), digit(a as int % 10)]);
        assert(s[0] as u32 == 48 + a as int / 10);
    } else {
        assert(s =~= seq![digit(a as int)]);
    }
}

/// Where a record came from is told by its address, without the port.
pub proof fn law_sources_without_ports(host: Seq<char>, port: u16)
    requires
        is_ipv4(host) || is_ipv6(host),
    ensures
        source_address(host + seq![':'] + dec(port as nat)) == Some(host),
{
    law_naturals_read_back(port as nat);
    let d = dec(port as nat);
    lemma_last_colon(host, d, d.len() as int);
    assert(d.take(d.len() as int) =~= d);
}

proof fn lemma_last_colon(head: Seq<char>, tail: Seq<char>, n: int)
    requires
        0 <= n <= tail.len(),
        all_digits(tail),
    ensures
        rsplit_once(head + seq![':'] + tail.take(n), ':') == Some((head, tail.take(n))),
    decreases n,
{
    let s = head + seq![':'] + tail.take(n);
    if n == 0 {
        assert(tail.take(0) =~= Seq::<char>::empty());
        assert(s.last() == ':');
        assert(s.drop_last() =~= head);
        assert(rsplit_once(s, ':') == Some((s.drop_last(), Seq::<char>::empty())));
    } else {
        assert(is_digit(tail[n - 1]));
        assert(s.last() == tail[n - 1]);
        assert(s.drop_last() =~= head + seq![':'] + tail.take(n - 1));
        lemma_last_colon(head, tail, n - 1);
        assert(tail.take(n - 1).push(tail[n - 1]) =~= tail.take(n));
    }
}

// ---------------------------------------------------------------------
// Time
// ---------------------------------------------------------------------
/// A trailing window begins so many seconds ago.
pub proof fn law_windows_begin(now: Timestamp, window: i64)
    requires
        start_of_window(now, window as int) is Some,
    ensures
        start_of_window(now, window as int)->0.secs + window == now.secs,
        start_of_window(now, window as int)->0.nanos == now.nanos,
{
}

// ---------------------------------------------------------------------
// OpenTelemetry in JSON
// ---------------------------------------------------------------------
/// A body is one of OpenTelemetry where it names one of the lists of a request.
pub proof fn law_requests_are_told_by_their_lists(s: Seq<char>)
    ensures
        names_a_list(s) <==> has_text(s, "\"resourceLogs\""@) || has_text(s, "\"resourceSpans\""@)
            || has_text(s, "\"resourceMetrics\""@),
{
}

/// The names of the kinds of spans and of the codes of their status, by their numbers.
pub proof fn law_kinds_and_codes_are_named()
    ensures
        name_at(kind_names(), 1) == Some("SPAN_KIND_INTERNAL"@),
        name_at(kind_names(), 2) == Some("SPAN_KIND_SERVER"@),
        name_at(kind_names(), 3) == Some("SPAN_KIND_CLIENT"@),
        name_at(kind_names(), 4) == Some("SPAN_KIND_PRODUCER"@),
        name_at(kind_names(), 5) == Some("SPAN_KIND_CONSUMER"@),
        status_text(0) == "STATUS_CODE_UNSET"@,
        status_text(1) == "STATUS_CODE_OK"@,
        status_text(2) == "STATUS_CODE_ERROR"@,
        name_at(severity_names(), 9) == Some("SEVERITY_NUMBER_"@ + "INFO"@),
        name_at(severity_names(), 17) == Some("SEVERITY_NUMBER_"@ + "ERROR"@),
{
    let s = seq!["STATUS_CODE_UNSET"@, "STATUS_CODE_OK"@, "STATUS_CODE_ERROR"@];
    assert(status_names() =~= s);
    let grades = seq!["TRACE"@, "DEBUG"@, "INFO"@, "WARN"@, "ERROR"@, "FATAL"@];
    assert(grades[2] == "INFO"@ && grades[4] == "ERROR"@);
    assert(severity_names()[9] == severity_name(9));
    assert(severity_names()[17] == severity_name(17));
}

/// A datagram is a chunk where it begins with the two bytes of one; any other is a message of
/// its own.
pub proof fn law_datagrams(m: Map<u64, BufV>, data: Seq<u8>, now: u64, timeout: u64)
    ensures
        data.len() >= 12 && data[0] == 0x1e && data[1] == 0x0f ==> datagram_step(
            m,
            data,
            now,
            timeout,
        ) == chunk_handled(m, data, now, timeout),
        data.len() < 12 || data[0] != 0x1e || data[1] != 0x0f ==> datagram_step(
            m,
            data,
            now,
            timeout,
        ) == (m, Some(data)),
{
}

/// A line is read in the newer form where that recognizes it, else in the older one; a line
/// that neither recognizes is syslog only where it begins with a priority.
pub proof fn law_readings_of_a_line(body: Seq<char>, newer: SyslogV, older: SyslogV)
    ensures
        newer.facility is Some || newer.severity is Some || newer.hostname is Some
            ==> chosen_reading(body, newer, older) == Some(newer),
        newer.facility is None && newer.severity is None && newer.hostname is None ==> {
            &&& older.facility is Some || older.severity is Some || older.hostname is Some
                ==> chosen_reading(body, newer, older) == Some(older)
            &&& older.facility is None && older.severity is None && older.hostname is None ==> (
            body.len() > 0 && body[0] == '<' ==> chosen_reading(body, newer, older) == Some(older))
                && (body.len() == 0 || body[0] != '<' ==> chosen_reading(body, newer, older)
                is None)
        },
{
    reveal_strlit("<");
    assert("<"@.len() == 1 && "<"@[0] == '<');
    if body.len() > 0 {
        assert(body.subrange(0, 1)[0] == body[0]);
        if body[0] == '<' {
            assert(body.subrange(0, 1) =~= "<"@);
        }
    }
}

/// Every record of a scope is given its own envelope, with the service of its resource and
/// the attributes that resource and scope share.
pub proof fn law_records_of_a_scope(
    r: Option<ResourceV>,
    logs: ScopeLogsV,
    spans: ScopeSpansV,
    now: Timestamp,
    i: int,
)
    ensures
        0 <= i < logs.log_records.len() ==> scope_log_envelopes(r, logs, now)[i]
            == log_record_envelope(
            service_of_resource(r),
            shared_attrs(r, logs.scope),
            logs.log_records[i],
            now,
        ),
        0 <= i < spans.spans.len() ==> scope_trace_envelopes(r, spans, now)[i] == span_envelope(
            service_of_resource(r),
            shared_attrs(r, spans.scope),
            spans.spans[i],
            now,
        ),
{
}

/// Every point of a metric is given its own envelope, with its own time.
pub proof fn law_points_of_a_metric(
    service: Seq<char>,
    base: Map<Seq<char>, JsonV>,
    x: OtelMetricV,
    now: Timestamp,
    i: int,
)
    ensures
        x.data matches Some(MetricDataV::Gauge(p)) ==> 0 <= i < p.len() ==> metric_point_envelopes(
            service,
            base,
            x,
            now,
        )[i] == point_envelope(
            service,
            x.name,
            number_attrs(metric_attrs(base, x), p[i]),
            p[i].time_unix_nano,
            now,
        ),
        x.data matches Some(MetricDataV::Sum(s)) ==> 0 <= i < s.data_points.len()
            ==> metric_point_envelopes(service, base, x, now)[i] == point_envelope(
            service,
            x.name,
            number_attrs(metric_attrs(base, x), s.data_points[i]),
            s.data_points[i].time_unix_nano,
            now,
        ),
        x.data matches Some(MetricDataV::Histogram(h)) ==> 0 <= i < h.data_points.len()
            ==> metric_point_envelopes(service, base, x, now)[i] == point_envelope(
            service,
            x.name,
            histogram_attrs(metric_attrs(base, x), h.data_points[i]),
            h.data_points[i].time_unix_nano,
            now,
        ),
        x.data matches Some(MetricDataV::Summary(p)) ==> 0 <= i < p.len()
            ==> metric_point_envelopes(service, base, x, now)[i] == point_envelope(
            service,
            x.name,
            summary_attrs(metric_attrs(base, x), p[i]),
            p[i].time_unix_nano,
            now,
        ),
{
}

/// A request for logs is one of OpenTelemetry where its type says so, or where it is JSON and
/// names one of the lists of such a request.
pub proof fn law_requests_for_logs(ct: Seq<char>, body: Seq<u8>)
    ensures
        has_text(lower(ct), "protobuf"@) ==> logs_wire(ct, body) == Some(Wire::Protobuf),
        !has_text(lower(ct), "protobuf"@) && has_text(lower(ct), "json"@) && valid_utf8(body)
            && names_a_list(decode_utf8(body)) ==> logs_wire(ct, body) == Some(Wire::Json),
        !has_text(lower(ct), "protobuf"@) && !has_text(lower(ct), "json"@) ==> logs_wire(ct, body)
            is None,
{
}

/// What a client is told of its records: how many were taken, how many not, and why.
pub proof fn law_answers_tell(accepted: nat, rejected: nat, errors: Seq<Seq<char>>, i: int)
    ensures
        answer_json(accepted, rejected, errors) matches JsonV::Obj(m) && m.contains_key(
            "accepted"@,
        ) && m["accepted"@] == JsonV::Num(dec(accepted)) && m.contains_key("rejected"@)
            && m["rejected"@] == JsonV::Num(dec(rejected)) && m.contains_key("errors"@) && (
        m["errors"@] matches JsonV::Arr(e) && e.len() == errors.len() && (0 <= i < errors.len()
            ==> e[i] == JsonV::Str(errors[i]))),
        insertion_error(Insertion::Closed) == Some("wal channel closed"@),
        insertion_error(Insertion::TimedOut) == Some("backpressure timeout"@),
        insertion_error(Insertion::Stored) is None,
{
    reveal_strlit("accepted");
    reveal_strlit("rejected");
    reveal_strlit("errors");
    assert("accepted"@.len() == 8);
    assert("rejected"@.len() == 8);
    assert("errors"@.len() == 6);
    assert("accepted"@[0] == 'a');
    assert("rejected"@[0] == 'r');
}

/// Every line that says something is a record, in its order.
pub proof fn law_lines_of_a_body(all: Seq<Seq<char>>, line: Seq<char>)
    ensures
        line_payload(line) matches Some(raw) ==> line_payloads(all.push(line)) == line_payloads(
            all,
        ).push(raw),
        line_payload(line) is None ==> line_payloads(all.push(line)) == line_payloads(all),
{
    assert(all.push(line).drop_last() =~= all);
}

/// Where the headers name the first sender, that one counts.
pub proof fn law_forwarded_elements(ip: Seq<char>)
    requires
        trim("for="@ + ip) == "for="@ + ip,
        trim(ip) == ip,
        ip.len() > 0,
        ip[0] != '"',
        ip.last() != '"',
        bare_address(ip) == ip,
    ensures
        is_ipv4(ip) || is_ipv6(ip) ==> forwarded_for("for="@ + ip) == Some(ip),
        !is_ipv4(ip) && !is_ipv6(ip) ==> forwarded_for("for="@ + ip) is None,
{
    reveal_strlit("for=");
    let s = "for="@ + ip;
    assert(s.subrange(0, 4) =~= "for="@);
    assert(s.subrange(4, s.len() as int) =~= ip);
    lemma_trim_start(ip, just('"'), 0);
    assert(ip.subrange(0, ip.len() as int) =~= ip);
    lemma_trim_end(ip, just('"'), ip.len() as int);
}

/// What the server's answer says is its second word.
pub proof fn law_statuses(a: Seq<char>, b: Seq<char>, rest: Seq<char>)
    requires
        a.len() > 0,
        b.len() > 0,
        forall|i: int| 0 <= i < a.len() ==> !is_space(#[trigger] a[i]),
        forall|i: int| 0 <= i < b.len() ==> !is_space(#[trigger] b[i]),
    ensures
        status_in(a + seq![' '] + (b + seq![' '] + rest)) == b,
{
    let y = b + seq![' '] + rest;
    let x = a + seq![' '] + y;
    lemma_first_word(a, y);
    let z = seq![' '] + y;
    assert(next_word(x).1 =~= z);
    assert(z[0] == ' ' && z[1] == b[0]);
    lemma_trim_start(z, space_class(), 1);
    assert(z.subrange(1, z.len() as int) =~= y);
    lemma_first_word(b, rest);
    lemma_trim_start(y, space_class(), 0);
    assert(y[0] == b[0]);
    assert(y.subrange(0, y.len() as int) =~= y);
    assert(trim_start_by(z, space_class()) == trim_start_by(y, space_class()));
}

proof fn lemma_first_word(a: Seq<char>, rest: Seq<char>)
    requires
        a.len() > 0,
        forall|i: int| 0 <= i < a.len() ==> !is_space(#[trigger] a[i]),
    ensures
        next_word(a + seq![' '] + rest) == (a, seq![' '] + rest),
{
    let s = a + seq![' '] + rest;
    let n = a.len() as int;
    assert(s[0] == a[0]);
    lemma_trim_start(s, space_class(), 0);
    assert(s.subrange(0, s.len() as int) =~= s);
    assert forall|i: int| 0 <= i < n implies !space_class()(#[trigger] s[i]) by {
        assert(s[i] == a[i]);
    }
    assert(s[n] == ' ');
    lemma_find_by(s, space_class(), n);
    assert(s.subrange(0, n) =~= a);
    assert(s.subrange(n, s.len() as int) =~= seq![' '] + rest);
}

/// A chunk that is well formed starts the count to the next sweep anew; every other datagram
/// counts.
pub proof fn law_datagrams_are_counted(since: int, data: Seq<u8>)
    ensures
        ({
            let chunk = data.len() >= 12 && data[0] == 0x1e && data[1] == 0x0f && 0 < data[11] <= 128
                && data[10] < data[11];
            datagram_count(since, data) == if chunk {
                1
            } else {
                since + 1
            }
        }),
{
}

/// A request of spans is what its bytes decode to in the wire form that it came in; what
/// cannot be decoded is refused with the reason.
pub proof fn law_traces_are_decoded(body: Seq<u8>)
    ensures
        traces_read(body) is Ok ==> traces_in(Wire::Protobuf, body) == traces_read(body),
        traces_read(body) matches Err(m) ==> traces_in(Wire::Protobuf, body) == Err::<Seq<ResourceSpansV>, Seq<char>>(
            "otlp/traces protobuf decode failed: "@ + m,
        ),
        json_read_bytes(body) matches Err(m) ==> traces_in(Wire::Json, body) == Err::<Seq<ResourceSpansV>, Seq<char>>(
            "otlp/traces json decode failed: "@ + m,
        ),
        json_read_bytes(body) matches Ok(v) ==> match traces_of_json(normal(v)) {
            Ok(_) => traces_in(Wire::Json, body) == traces_of_json(normal(v)),
            Err(m) => traces_in(Wire::Json, body) == Err::<Seq<ResourceSpansV>, Seq<char>>("otlp/traces json decode failed: "@ + m),
        },
{
}

/// A request of log records is what its bytes decode to in the wire form that it came in; what
/// cannot be decoded is refused with the reason.
pub proof fn law_logs_are_decoded(body: Seq<u8>)
    ensures
        logs_read(body) is Ok ==> logs_in(Wire::Protobuf, body) == logs_read(body),
        logs_read(body) matches Err(m) ==> logs_in(Wire::Protobuf, body) == Err::<Seq<ResourceLogsV>, Seq<char>>(
            "otlp/logs protobuf decode failed: "@ + m,
        ),
        json_read_bytes(body) matches Err(m) ==> logs_in(Wire::Json, body) == Err::<Seq<ResourceLogsV>, Seq<char>>(
            "otlp/logs json decode failed: "@ + m,
        ),
        json_read_bytes(body) matches Ok(v) ==> match logs_of_json(normal(v)) {
            Ok(_) => logs_in(Wire::Json, body) == logs_of_json(normal(v)),
            Err(m) => logs_in(Wire::Json, body) == Err::<Seq<ResourceLogsV>, Seq<char>>("otlp/logs json decode failed: "@ + m),
        },
{
}

/// A request of metrics is what its bytes decode to in the wire form that it came in; what
/// cannot be decoded is refused with the reason.
pub proof fn law_metrics_are_decoded(body: Seq<u8>)
    ensures
        metrics_read(body) is Ok ==> metrics_in(Wire::Protobuf, body) == metrics_read(body),
        metrics_read(body) matches Err(m) ==> metrics_in(Wire::Protobuf, body) == Err::<Seq<ResourceMetricsV>, Seq<char>>(
            "otlp/metrics protobuf decode failed: "@ + m,
        ),
        json_read_bytes(body) matches Err(m) ==> metrics_in(Wire::Json, body) == Err::<Seq<ResourceMetricsV>, Seq<char>>(
            "otlp/metrics json decode failed: "@ + m,
        ),
        json_read_bytes(body) matches Ok(v) ==> match metrics_of_json(normal(v)) {
            Ok(_) => metrics_in(Wire::Json, body) == metrics_of_json(normal(v)),
            Err(m) => metrics_in(Wire::Json, body) == Err::<Seq<ResourceMetricsV>, Seq<char>>("otlp/metrics json decode failed: "@ + m),
        },
{
}

/// Every record of a request is told of once: as taken, or by the reason why it was not.
pub proof fn law_records_are_told_of_once(xs: Seq<Insertion>, x: Insertion)
    ensures
        stored_count(xs) + insertion_errors(xs).len() == xs.len(),
        stored_count(xs.push(x)) == stored_count(xs) + if x is Stored {
            1nat
        } else {
            0
        },
        insertion_error(x) matches Some(m) ==> insertion_errors(xs.push(x)) == insertion_errors(
            xs,
        ).push(m),
        x is Stored ==> insertion_errors(xs.push(x)) == insertion_errors(xs),
    decreases xs.len(),
{
    assert(xs.push(x).drop_last() =~= xs);
    if xs.len() > 0 {
        law_records_are_told_of_once(xs.drop_last(), xs.last());
    }
}

} // verus!

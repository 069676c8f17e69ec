//! What a row says of the record that it is made of: every field that an envelope, a
//! syslog line or a free text gives stands in its own column.
use vstd::prelude::*;
use vstd::utf8::{decode_utf8, valid_utf8};

use crate::{Protocol, RawRecord};
use crate::errors::{fingerprint, message_parts};
use crate::float::{nanos_part, to_i64};
use crate::hot::HotAttributeV;
use crate::ingest::parse::{
    ParamsV, SyslogV, base_row, finished, free_text_row, hot_found, is_parse_of, json_row,
    level_of, path_leaf, reserved, residue, syslog_level, syslog_row, time_of, time_of_seconds,
    time_of_text,
};
use crate::ingest::parse_laws::{law_the_rest_is_kept, lemma_named_level};
use crate::json::{JsonV, json_read};
use crate::row::RowV;
use crate::text::{dec, dec_int, has_text, lower, trim, upper};
use crate::text_laws::law_numbers_read_back;
use crate::time::{Timestamp, at, in_range, naive_read, rfc3339_read};

verus! {

/// Whether a text stands under a name.
pub open spec fn says(m: Map<Seq<char>, JsonV>, k: Seq<char>, t: Seq<char>) -> bool {
    m.contains_key(k) && m[k] == JsonV::Str(t)
}

/// Whether no text stands under a name.
pub open spec fn is_silent(m: Map<Seq<char>, JsonV>, k: Seq<char>) -> bool {
    m.contains_key(k) ==> !(m[k] is Str)
}

// ---------------------------------------------------------------------
// Envelopes
// ---------------------------------------------------------------------
/// A text under the name of a column stands in that column, whatever else the envelope or
/// its message holds.
pub proof fn law_fields_fill_their_columns(
    base: RowV,
    m: Map<Seq<char>, JsonV>,
    body: Seq<char>,
    hot: Seq<HotAttributeV>,
    unwrap_message: bool,
    t: Seq<char>,
)
    ensures
        ({
            let row = json_row(base, m, body, hot, unwrap_message);
            &&& says(m, "trace_id"@, t) ==> row.trace_id == t
            &&& says(m, "span_id"@, t) ==> row.span_id == t
            &&& says(m, "service"@, t) ==> row.service == t
            &&& says(m, "host"@, t) ==> row.source_host == t
            &&& says(m, "fingerprint"@, t) ==> row.fingerprint == t
            &&& says(m, "msg"@, t) ==> row.message == t
            &&& says(m, "level"@, t) ==> row.level == level_of(t)
        }),
{
}

/// Other spellings count where the first one says nothing.
pub proof fn law_other_spellings_count_next(
    base: RowV,
    m: Map<Seq<char>, JsonV>,
    body: Seq<char>,
    hot: Seq<HotAttributeV>,
    unwrap_message: bool,
    t: Seq<char>,
)
    ensures
        ({
            let row = json_row(base, m, body, hot, unwrap_message);
            &&& is_silent(m, "trace_id"@) && says(m, "traceId"@, t) ==> row.trace_id == t
            &&& is_silent(m, "span_id"@) && says(m, "spanId"@, t) ==> row.span_id == t
            &&& is_silent(m, "service"@) && says(m, "logger"@, t) ==> row.service == t
            &&& is_silent(m, "msg"@) && says(m, "message"@, t) ==> row.message == t
            &&& is_silent(m, "msg"@) && is_silent(m, "message"@) && says(m, "Message"@, t)
                ==> row.message == t
            &&& !m.contains_key("level"@) && says(m, "severity"@, t) ==> row.level == level_of(t)
            &&& !m.contains_key("level"@) && !m.contains_key("severity"@) && says(
                m,
                "loglevel"@,
                t,
            ) ==> row.level == level_of(t)
            &&& !m.contains_key("level"@) && !m.contains_key("severity"@) && !m.contains_key(
                "loglevel"@,
            ) && says(m, "lvl"@, t) ==> row.level == level_of(t)
        }),
{
}

/// What an envelope does not say is taken from the object that its message holds.
pub proof fn law_opened_messages_fill_columns(
    base: RowV,
    m: Map<Seq<char>, JsonV>,
    body: Seq<char>,
    hot: Seq<HotAttributeV>,
    text: Seq<char>,
    inner: Map<Seq<char>, JsonV>,
    t: Seq<char>,
)
    requires
        says(m, "msg"@, text),
        json_read(text) == Ok::<JsonV, Seq<char>>(JsonV::Obj(inner)),
    ensures
        ({
            let row = json_row(base, m, body, hot, true);
            &&& is_silent(m, "trace_id"@) && is_silent(m, "traceId"@) && says(
                inner,
                "trace_id"@,
                t,
            ) ==> row.trace_id == t
            &&& is_silent(m, "span_id"@) && is_silent(m, "spanId"@) && says(inner, "span_id"@, t)
                ==> row.span_id == t
            &&& is_silent(m, "service"@) && is_silent(m, "logger"@) && says(inner, "service"@, t)
                ==> row.service == t
            &&& is_silent(m, "host"@) && says(inner, "host"@, t) ==> row.source_host == t
            &&& is_silent(m, "host"@) && !inner.contains_key("host"@) && says(
                inner,
                "hostname"@,
                t,
            ) ==> row.source_host == t
            &&& is_silent(m, "fingerprint"@) && says(inner, "fingerprint"@, t) ==> row.fingerprint
                == t
            &&& !m.contains_key("level"@) && !m.contains_key("severity"@) && !m.contains_key(
                "loglevel"@,
            ) && !m.contains_key("lvl"@) && says(inner, "level"@, t) ==> row.level == level_of(t)
        }),
{
}

/// What nothing says stays as the record gave it; the level is then `info`, and the message
/// the beginning of the text.
pub proof fn law_silent_envelopes(
    base: RowV,
    m: Map<Seq<char>, JsonV>,
    body: Seq<char>,
    hot: Seq<HotAttributeV>,
)
    ensures
        ({
            let row = json_row(base, m, body, hot, false);
            &&& is_silent(m, "trace_id"@) && is_silent(m, "traceId"@) ==> row.trace_id
                == base.trace_id
            &&& is_silent(m, "span_id"@) && is_silent(m, "spanId"@) ==> row.span_id == base.span_id
            &&& is_silent(m, "service"@) && is_silent(m, "logger"@) ==> row.service == base.service
            &&& is_silent(m, "host"@) ==> row.source_host == base.source_host
            &&& is_silent(m, "fingerprint"@) ==> row.fingerprint == base.fingerprint
            &&& !m.contains_key("level"@) && !m.contains_key("severity"@) && !m.contains_key(
                "loglevel"@,
            ) && !m.contains_key("lvl"@) ==> row.level == "info"@
            &&& is_silent(m, "msg"@) && is_silent(m, "message"@) && is_silent(m, "Message"@)
                ==> row.message.len() <= 2048 && row.message == body.take(
                row.message.len() as int,
            ) && (body.len() <= 2048 ==> row.message == body) && (body.len() > 2048
                ==> row.message.len() == 2048)
            &&& !m.contains_key("ts"@) && !m.contains_key("timestamp"@) && !m.contains_key(
                "time"@,
            ) && !m.contains_key("@timestamp"@) ==> row.ts == base.ts
            &&& row.protocol == base.protocol
            &&& row.raw_len == base.raw_len
        }),
{
    if body.len() <= 2048 {
        assert(body.take(body.len() as int) =~= body);
    }
}

/// The time of a row is the first that its envelope gives: under `ts`, `timestamp`, `time`
/// or `@timestamp`, in this order.
pub proof fn law_times_are_taken_in_order(
    base: RowV,
    m: Map<Seq<char>, JsonV>,
    body: Seq<char>,
    hot: Seq<HotAttributeV>,
    unwrap_message: bool,
    v: JsonV,
    t: Timestamp,
)
    requires
        time_of(v) == Some(t),
    ensures
        ({
            let row = json_row(base, m, body, hot, unwrap_message);
            let first = m.contains_key("ts"@);
            let second = m.contains_key("timestamp"@);
            let third = m.contains_key("time"@);
            &&& first && m["ts"@] == v ==> row.ts == t
            &&& !first && second && m["timestamp"@] == v ==> row.ts == t
            &&& !first && !second && third && m["time"@] == v ==> row.ts == t
            &&& !first && !second && !third && m.contains_key("@timestamp"@) && m["@timestamp"@]
                == v ==> row.ts == t
        }),
{
}

/// A whole number as a time is so many seconds since the epoch.
pub proof fn law_whole_seconds_are_times(n: i64)
    requires
        in_range(n as int, 0),
    ensures
        time_of(JsonV::Num(dec_int(n as int))) == Some(Timestamp { secs: n, nanos: 0 }),
{
    law_numbers_read_back(n);
}

/// A text as a time is read as RFC 3339 where it can be.
pub proof fn law_rfc3339_texts_are_times(s: Seq<char>)
    requires
        rfc3339_read(s) is Some,
    ensures
        time_of(JsonV::Str(s)) == Some(at(rfc3339_read(s)->0)),
{
}

/// These names, and no others, have a meaning of their own and are no attributes.
pub proof fn law_reserved_names_are_these(k: Seq<char>)
    ensures
        reserved().contains(k) <==> {
            ||| k == "ts"@
            ||| k == "timestamp"@
            ||| k == "time"@
            ||| k == "@timestamp"@
            ||| k == "host"@
            ||| k == "hostname"@
            ||| k == "service"@
            ||| k == "logger"@
            ||| k == "level"@
            ||| k == "severity"@
            ||| k == "msg"@
            ||| k == "message"@
            ||| k == "Message"@
            ||| k == "fingerprint"@
            ||| k == "trace_id"@
            ||| k == "traceId"@
            ||| k == "span_id"@
            ||| k == "spanId"@
        },
{
    let r = reserved();
    assert(r[0] == "ts"@);
    assert(r[1] == "timestamp"@);
    assert(r[2] == "time"@);
    assert(r[3] == "@timestamp"@);
    assert(r[4] == "host"@);
    assert(r[5] == "hostname"@);
    assert(r[6] == "service"@);
    assert(r[7] == "logger"@);
    assert(r[8] == "level"@);
    assert(r[9] == "severity"@);
    assert(r[10] == "msg"@);
    assert(r[11] == "message"@);
    assert(r[12] == "Message"@);
    assert(r[13] == "fingerprint"@);
    assert(r[14] == "trace_id"@);
    assert(r[15] == "traceId"@);
    assert(r[16] == "span_id"@);
    assert(r[17] == "spanId"@);
    if r.contains(k) {
        let i = choose|i: int| 0 <= i < r.len() && r[i] == k;
        assert(r.len() == 18);
    }
}

/// Anything else that an envelope holds is an attribute of its row.
pub proof fn law_other_members_are_attributes(
    base: RowV,
    m: Map<Seq<char>, JsonV>,
    body: Seq<char>,
    unwrap_message: bool,
    k: Seq<char>,
)
    requires
        m.contains_key(k),
        k != "ts"@,
        k != "timestamp"@,
        k != "time"@,
        k != "@timestamp"@,
        k != "host"@,
        k != "hostname"@,
        k != "service"@,
        k != "logger"@,
        k != "level"@,
        k != "severity"@,
        k != "msg"@,
        k != "message"@,
        k != "Message"@,
        k != "fingerprint"@,
        k != "trace_id"@,
        k != "traceId"@,
        k != "span_id"@,
        k != "spanId"@,
    ensures
        json_row(base, m, body, Seq::empty(), unwrap_message).attributes.contains_key(k),
        json_row(base, m, body, Seq::empty(), unwrap_message).attributes[k] == m[k],
{
    law_reserved_names_are_these(k);
    law_the_rest_is_kept(base, m, body, unwrap_message, k);
}

// ---------------------------------------------------------------------
// Levels
// ---------------------------------------------------------------------
/// The words for levels, in any case and with white space around them.
pub proof fn law_level_words(raw: Seq<char>)
    ensures
        ({
            let w = upper(trim(raw));
            &&& w == "TRACE"@ ==> level_of(raw) == "debug"@
            &&& w == "FINEST"@ ==> level_of(raw) == "debug"@
            &&& w == "VERBOSE"@ ==> level_of(raw) == "debug"@
            &&& w == "DBG"@ ==> level_of(raw) == "debug"@
            &&& w == "DEBUG"@ ==> level_of(raw) == "debug"@
            &&& w == "INFO"@ ==> level_of(raw) == "info"@
            &&& w == "INFORMATIONAL"@ ==> level_of(raw) == "info"@
            &&& w == "NOTICE"@ ==> level_of(raw) == "info"@
            &&& w == "LOG"@ ==> level_of(raw) == "info"@
            &&& w == "I"@ ==> level_of(raw) == "info"@
            &&& w == "WARN"@ ==> level_of(raw) == "warn"@
            &&& w == "WARNING"@ ==> level_of(raw) == "warn"@
            &&& w == "WRN"@ ==> level_of(raw) == "warn"@
            &&& w == "W"@ ==> level_of(raw) == "warn"@
            &&& w == "ERR"@ ==> level_of(raw) == "error"@
            &&& w == "ERROR"@ ==> level_of(raw) == "error"@
            &&& w == "ERRORS"@ ==> level_of(raw) == "error"@
            &&& w == "E"@ ==> level_of(raw) == "error"@
            &&& w == "FAULT"@ ==> level_of(raw) == "error"@
            &&& w == "CRIT"@ ==> level_of(raw) == "fatal"@
            &&& w == "CRITICAL"@ ==> level_of(raw) == "fatal"@
            &&& w == "FATAL"@ ==> level_of(raw) == "fatal"@
            &&& w == "ALERT"@ ==> level_of(raw) == "fatal"@
            &&& w == "EMERG"@ ==> level_of(raw) == "fatal"@
            &&& w == "EMERGENCY"@ ==> level_of(raw) == "fatal"@
            &&& w == "F"@ ==> level_of(raw) == "fatal"@
        }),
{
    reveal_strlit("TRACE");
    reveal_strlit("FINEST");
    reveal_strlit("VERBOSE");
    reveal_strlit("DBG");
    reveal_strlit("DEBUG");
    reveal_strlit("INFO");
    reveal_strlit("INFORMATIONAL");
    reveal_strlit("NOTICE");
    reveal_strlit("LOG");
    reveal_strlit("I");
    reveal_strlit("WARN");
    reveal_strlit("WARNING");
    reveal_strlit("WRN");
    reveal_strlit("W");
    reveal_strlit("ERR");
    reveal_strlit("ERROR");
    reveal_strlit("ERRORS");
    reveal_strlit("E");
    reveal_strlit("FAULT");
    reveal_strlit("CRIT");
    reveal_strlit("CRITICAL");
    reveal_strlit("FATAL");
    reveal_strlit("ALERT");
    reveal_strlit("EMERG");
    reveal_strlit("EMERGENCY");
    reveal_strlit("F");
    assert("TRACE"@.len() == 5);
    assert("FINEST"@.len() == 6);
    assert("VERBOSE"@.len() == 7);
    assert("DBG"@.len() == 3);
    assert("DEBUG"@.len() == 5);
    assert("INFO"@.len() == 4);
    assert("INFORMATIONAL"@.len() == 13);
    assert("NOTICE"@.len() == 6);
    assert("LOG"@.len() == 3);
    assert("I"@.len() == 1);
    assert("WARN"@.len() == 4);
    assert("WARNING"@.len() == 7);
    assert("WRN"@.len() == 3);
    assert("W"@.len() == 1);
    assert("ERR"@.len() == 3);
    assert("ERROR"@.len() == 5);
    assert("ERRORS"@.len() == 6);
    assert("E"@.len() == 1);
    assert("FAULT"@.len() == 5);
    assert("CRIT"@.len() == 4);
    assert("CRITICAL"@.len() == 8);
    assert("FATAL"@.len() == 5);
    assert("ALERT"@.len() == 5);
    assert("EMERG"@.len() == 5);
    assert("EMERGENCY"@.len() == 9);
    assert("F"@.len() == 1);
    assert("ALERT"@[0] == 'A');
    assert("CRIT"@[0] == 'C');
    assert("DBG"@[0] == 'D');
    assert("DEBUG"@[0] == 'D');
    assert("E"@[0] == 'E');
    assert("EMERG"@[0] == 'E');
    assert("EMERG"@[1] == 'M');
    assert("ERR"@[0] == 'E');
    assert("ERROR"@[0] == 'E');
    assert("ERROR"@[1] == 'R');
    assert("ERRORS"@[0] == 'E');
    assert("F"@[0] == 'F');
    assert("FATAL"@[0] == 'F');
    assert("FATAL"@[2] == 'T');
    assert("FAULT"@[0] == 'F');
    assert("FAULT"@[2] == 'U');
    assert("FINEST"@[0] == 'F');
    assert("I"@[0] == 'I');
    assert("INFO"@[0] == 'I');
    assert("LOG"@[0] == 'L');
    assert("NOTICE"@[0] == 'N');
    assert("TRACE"@[0] == 'T');
    assert("VERBOSE"@[0] == 'V');
    assert("W"@[0] == 'W');
    assert("WARN"@[0] == 'W');
    assert("WARNING"@[0] == 'W');
    assert("WRN"@[0] == 'W');
}

/// The levels of numbers, the smallest the worst.
pub proof fn law_level_numbers(
    base: RowV,
    m: Map<Seq<char>, JsonV>,
    body: Seq<char>,
    hot: Seq<HotAttributeV>,
    unwrap_message: bool,
    n: i64,
)
    requires
        m.contains_key("level"@),
        m["level"@] == JsonV::Num(dec_int(n as int)),
    ensures
        ({
            let l = json_row(base, m, body, hot, unwrap_message).level;
            &&& n == 0 || n == 1 || n == 2 ==> l == "fatal"@
            &&& n == 3 || n == 4 ==> l == "error"@
            &&& n == 5 || n == 6 ==> l == "warn"@
            &&& 7 <= n <= 10 ==> l == "info"@
            &&& n < 0 || n > 10 ==> l == "debug"@
        }),
{
    law_numbers_read_back(n);
    lemma_named_level("fatal"@);
    lemma_named_level("error"@);
    lemma_named_level("warn"@);
    lemma_named_level("info"@);
    lemma_named_level("debug"@);
}

/// The levels of syslog severities.
pub proof fn law_syslog_levels(s: u8)
    ensures
        s <= 2 ==> syslog_level(Some(s)) == "fatal"@,
        s == 3 ==> syslog_level(Some(s)) == "error"@,
        s == 4 ==> syslog_level(Some(s)) == "warn"@,
        s == 5 || s == 6 ==> syslog_level(Some(s)) == "info"@,
        s >= 7 ==> syslog_level(Some(s)) == "debug"@,
        syslog_level(None) == "info"@,
{
}

// ---------------------------------------------------------------------
// Syslog and free text
// ---------------------------------------------------------------------
/// What a syslog line says stands in its own column; what it does not say stays as the
/// record gave it.
pub proof fn law_syslog_lines_fill_columns(base: RowV, msg: SyslogV)
    ensures
        ({
            let row = syslog_row(base, msg);
            &&& row.message == msg.msg
            &&& row.level == syslog_level(msg.severity)
            &&& msg.timestamp matches Some(t) ==> row.ts == t
            &&& msg.timestamp is None ==> row.ts == base.ts
            &&& msg.hostname matches Some(h) ==> row.source_host == h
            &&& msg.hostname is None ==> row.source_host == base.source_host
            &&& msg.appname matches Some(a) ==> row.service == a
            &&& msg.appname is None ==> row.service == base.service
            &&& row.trace_id == base.trace_id && row.span_id == base.span_id
            &&& row.fingerprint == base.fingerprint && row.protocol == base.protocol
        }),
{
}

/// The facility, the process and the message id of a syslog line are attributes of its row.
pub proof fn law_syslog_lines_have_attributes(base: RowV, msg: SyslogV, t: Seq<char>)
    requires
        msg.structured_data.len() == 0,
    ensures
        msg.facility == Some(t) ==> says(syslog_row(base, msg).attributes, "syslog_facility"@, t),
        msg.procid == Some(t) ==> says(syslog_row(base, msg).attributes, "syslog_procid"@, t),
        msg.msgid == Some(t) ==> says(syslog_row(base, msg).attributes, "syslog_msgid"@, t),
{
    reveal_strlit("syslog_facility");
    reveal_strlit("syslog_procid");
    reveal_strlit("syslog_msgid");
    assert("syslog_facility"@.len() == 15);
    assert("syslog_procid"@.len() == 13);
    assert("syslog_msgid"@.len() == 12);
}

/// The last parameter of the last structured element of a syslog line is an attribute
/// under its names.
pub proof fn law_structured_data_are_attributes(
    base: RowV,
    msg: SyslogV,
    id: Seq<char>,
    params: ParamsV,
    name: Seq<char>,
    value: Seq<char>,
)
    requires
        msg.structured_data.len() > 0,
        msg.structured_data.last() == (id, params),
        params.len() > 0,
        params.last() == (name, value),
    ensures
        says(syslog_row(base, msg).attributes, "syslog_sd_"@ + id + "_"@ + name, value),
{
}

/// The row of a free text is its beginning, and the level that its words suggest, whatever
/// their case.
pub proof fn law_free_texts(base: RowV, body: Seq<char>)
    ensures
        ({
            let row = free_text_row(base, body);
            let l = lower(body);
            let bad = has_text(l, "error"@) || has_text(l, "exception"@) || has_text(
                l,
                "traceback"@,
            ) || has_text(l, "failed"@) || has_text(l, "fatal"@);
            &&& bad ==> row.level == "error"@
            &&& !bad && has_text(l, "warn"@) ==> row.level == "warn"@
            &&& !bad && !has_text(l, "warn"@) && has_text(l, "debug"@) ==> row.level == "debug"@
            &&& !bad && !has_text(l, "warn"@) && !has_text(l, "debug"@) ==> row.level == "info"@
            &&& body.len() <= 2048 ==> row.message == body
            &&& body.len() > 2048 ==> row.message == body.take(2048)
            &&& row.ts == base.ts && row.source_host == base.source_host && row.service
                == base.service
        }),
{
}

/// What every row says of its record, before anything of the payload is read: when it was
/// received, from where, how, and how long it is.
pub proof fn law_rows_begin_with_their_record(rec: RawRecord, hot: Seq<HotAttributeV>)
    ensures
        ({
            let row = base_row(rec, hot);
            &&& row.ts == rec.receive_ts
            &&& row.source_host == rec.source_addr@
            &&& row.protocol == rec.protocol.name()
            &&& rec.raw@.len() < 0x8000_0000 ==> row.raw_len == rec.raw@.len()
            &&& row.hot.len() == hot.len()
            &&& row.service.len() == 0 && row.trace_id.len() == 0 && row.span_id.len() == 0
            &&& row.fingerprint.len() == 0 && row.attributes == Map::<Seq<char>, JsonV>::empty()
        }),
{
}

/// Bytes that are no text, JSON objects and other texts are told apart.
pub proof fn law_payloads_are_told_apart(row: RowV, rec: RawRecord, hot: Seq<HotAttributeV>)
    requires
        is_parse_of(row, rec, hot, true),
    ensures
        !valid_utf8(rec.raw@) ==> row.message == "<"@ + dec(rec.raw@.len()) + " non-utf8 bytes>"@
            && row.level == "info"@ && row.source_host == rec.source_addr@,
        valid_utf8(rec.raw@) ==> (json_read(decode_utf8(rec.raw@)) matches Ok(JsonV::Obj(m))
            ==> row == json_row(base_row(rec, hot), m, decode_utf8(rec.raw@), hot, true)),
        valid_utf8(rec.raw@) && !(json_read(decode_utf8(rec.raw@)) matches Ok(v) && v is Obj)
            && rec.protocol != Protocol::SyslogUdp && rec.protocol != Protocol::SyslogTcp ==> row
            == free_text_row(base_row(rec, hot), decode_utf8(rec.raw@)),
{
}

/// An error without a fingerprint of its own gets that of its service and its message; no
/// other row gets one.
pub proof fn law_errors_get_a_fingerprint(row: RowV, drop_keys: Seq<Seq<char>>)
    requires
        row.fingerprint.len() == 0,
    ensures
        row.level == "error"@ || row.level == "fatal"@ ==> finished(row, drop_keys).fingerprint
            == fingerprint("m"@, message_parts(row.service, row.message)),
        row.level != "error"@ && row.level != "fatal"@ ==> finished(row, drop_keys).fingerprint
            == row.fingerprint,
{
}

/// To finish a row changes nothing else, and drops no key but those that are to be dropped.
pub proof fn law_finishing_keeps_the_rest(row: RowV, drop_keys: Seq<Seq<char>>, k: Seq<char>)
    ensures
        ({
            let done = finished(row, drop_keys);
            &&& done.ts == row.ts && done.level == row.level && done.message == row.message
            &&& done.service == row.service && done.source_host == row.source_host
            &&& done.trace_id == row.trace_id && done.span_id == row.span_id
            &&& done.protocol == row.protocol && done.hot == row.hot
            &&& !drop_keys.contains(k) && row.attributes.contains_key(k)
                ==> done.attributes.contains_key(k) && done.attributes[k] == row.attributes[k]
        }),
{
}

/// A text is read as a time in the forms that are known, the first that fits, and in no other.
pub proof fn law_forms_of_times(s: Seq<char>)
    ensures
        ({
            let precise = naive_read(s, "%Y-%m-%dT%H:%M:%S%.3fZ"@);
            let plain = naive_read(s, "%Y-%m-%dT%H:%M:%SZ"@);
            let spaced = naive_read(s, "%Y-%m-%d %H:%M:%S"@);
            let slashed = naive_read(s, "%Y/%m/%d %H:%M:%S"@);
            let standard = rfc3339_read(s);
            &&& standard matches Some(p) ==> time_of_text(s) == Some(at(p))
            &&& standard is None ==> (precise matches Some(p) ==> time_of_text(s) == Some(at(p)))
            &&& standard is None && precise is None ==> (plain matches Some(p) ==> time_of_text(s)
                == Some(at(p)))
            &&& standard is None && precise is None && plain is None ==> (spaced matches Some(p)
                ==> time_of_text(s) == Some(at(p)))
            &&& standard is None && precise is None && plain is None && spaced is None ==> (
            slashed matches Some(p) ==> time_of_text(s) == Some(at(p)))
            &&& time_of_text(s) is None <==> standard is None && precise is None && plain is None
                && spaced is None && slashed is None
        }),
{
}

/// A number of seconds since the epoch is a time to the nanosecond.
pub proof fn law_times_in_seconds(bits: u64)
    ensures
        time_of_seconds(bits) matches Some(t) ==> t.secs == to_i64(bits) && t.nanos == nanos_part(
            bits,
        ),
        in_range(to_i64(bits) as int, nanos_part(bits) as int) ==> time_of_seconds(bits) is Some,
{
}

/// A promoted attribute that is found leaves the rest, unless its name has a dot in it.
pub proof fn law_promoted_attributes_leave(
    attrs: Map<Seq<char>, JsonV>,
    all: Map<Seq<char>, JsonV>,
    hot: Seq<HotAttributeV>,
    a: HotAttributeV,
)
    ensures
        residue(attrs, all, Seq::empty()) == attrs,
        hot_found(all, a) is Some && !path_leaf(a.json_path).contains('.') ==> residue(
            attrs,
            all,
            hot.push(a),
        ) == residue(attrs, all, hot).remove(path_leaf(a.json_path)),
        hot_found(all, a) is None || path_leaf(a.json_path).contains('.') ==> residue(
            attrs,
            all,
            hot.push(a),
        ) == residue(attrs, all, hot),
{
    assert(hot.push(a).drop_last() =~= hot);
}

} // verus!

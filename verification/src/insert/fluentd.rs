//! The forward protocol of Fluentd: entries in MessagePack, each `[tag, time,
//! record, option]`, or `[tag, [[time, record], ..], option]`.
use vstd::prelude::*;
use vstd::slice::slice_subrange;
use vstd::string::*;

use crate::{Protocol, RawRecord};
use crate::float::{cast_to_i64, is_finite, nanos_of, nanos_part, parts_of, to_i64};
use crate::insert::envelope::{base64_text, carries, sourceless_record, to_base64};
use crate::insert::msgpack::{
    MsgV, MsgValue, be, be_number, decoded, lemma_be_bound, lemma_msg_view, msg_text, msgs_view,
    pairs_view, try_decode,
};
use crate::insert::msgpack_laws::{law_later_bytes_do_not_matter, law_progress};
use crate::json::{Json, JsonMap, JsonV, double_value, json_double, jsons_view, lemma_json_view};
use crate::text::{
    cat3, copy_opt, dec, dec_int, dec_of, just, lossy_text, opt_text, push_all, same, text_lossy,
    texts, trim_start_by, trim_start_char,
};
use crate::time::{Timestamp, in_range, rfc3339_text, to_rfc3339};

verus! {

// ---------------------------------------------------------------------
// Values
// ---------------------------------------------------------------------
/// A decoded value as JSON.
pub open spec fn msg_json(v: MsgV) -> JsonV
    decreases v,
{
    match v {
        MsgV::Nil => JsonV::Null,
        MsgV::Bool(b) => JsonV::Bool(b),
        MsgV::Int(i) => JsonV::Num(dec_int(i as int)),
        MsgV::Uint(u) => JsonV::Num(dec(u as nat)),
        MsgV::F64(x) => double_value(x),
        MsgV::Str(s) => JsonV::Str(s),
        MsgV::Bin(b) => JsonV::Str(lossy_text(b)),
        MsgV::Array(items) => JsonV::Arr(list_json(items)),
        MsgV::Dict(pairs) => JsonV::Obj(pairs_json(pairs)),
        MsgV::Ext(t, body) => JsonV::Obj(
            Map::<Seq<char>, JsonV>::empty().insert("ext_type"@, JsonV::Num(dec_int(t as int))).insert(
                "ext_body_b64"@,
                JsonV::Str(base64_text(body)),
            ),
        ),
    }
}

/// Decoded values as JSON.
pub open spec fn list_json(items: Seq<MsgV>) -> Seq<JsonV>
    decreases items,
{
    if items.len() == 0 {
        Seq::empty()
    } else {
        list_json(items.drop_last()).push(msg_json(items.last()))
    }
}

/// Decoded pairs as the members of an object.
pub open spec fn pairs_json(pairs: Seq<(Seq<char>, MsgV)>) -> Map<Seq<char>, JsonV>
    decreases pairs,
{
    if pairs.len() == 0 {
        Map::empty()
    } else {
        pairs_json(pairs.drop_last()).insert(pairs.last().0, msg_json(pairs.last().1))
    }
}

fn msgpack_to_json(v: &MsgValue) -> (r: Json)
    ensures
        r@ == msg_json(v@),
    decreases v,
{
    broadcast use {lemma_json_view, lemma_msg_view};

    match v {
        MsgValue::Nil => Json::Null,
        MsgValue::Bool(b) => Json::Bool(*b),
        MsgValue::Int(i) => Json::from_int(*i),
        MsgValue::Uint(u) => Json::from_nat(*u),
        MsgValue::F64(x) => json_double(*x),
        MsgValue::Str(s) => Json::Str(s.clone()),
        MsgValue::Bin(b) => Json::Str(text_lossy(b.as_slice())),
        MsgValue::Array(items) => Json::Arr(items_to_json(items)),
        MsgValue::Dict(pairs) => Json::Obj(pairs_to_json(pairs)),
        MsgValue::Ext(t, body) => {
            let mut m = JsonMap::new();
            m.insert("ext_type", Json::from_int(*t as i64));
            let text = to_base64(body.as_slice());
            m.insert_str("ext_body_b64", text.as_str());
            Json::Obj(m)
        },
    }
}

fn items_to_json(items: &Vec<MsgValue>) -> (r: Vec<Json>)
    ensures
        jsons_view(r@) == list_json(msgs_view(items@)),
    decreases items,
{
    let mut out: Vec<Json> = Vec::new();
    let ghost all = msgs_view(items@);
    assert(jsons_view(out@) == Seq::<JsonV>::empty());
    for i in 0..items.len()
        invariant
            all == msgs_view(items@),
            jsons_view(out@) == list_json(all.take(i as int)),
    {
        let ghost before = jsons_view(out@);
        out.push(msgpack_to_json(&items[i]));
        assert(all.take(i + 1).drop_last() == all.take(i as int));
        assert(jsons_view(out@) == before.push(msg_json(all[i as int])));
    }
    assert(all.take(all.len() as int) == all);
    out
}

fn pairs_to_json(pairs: &Vec<(String, MsgValue)>) -> (r: JsonMap)
    ensures
        r@ == pairs_json(pairs_view(pairs@)),
    decreases pairs,
{
    let mut out = JsonMap::new();
    let ghost all = pairs_view(pairs@);
    for i in 0..pairs.len()
        invariant
            all == pairs_view(pairs@),
            out@ == pairs_json(all.take(i as int)),
    {
        out.insert(pairs[i].0.as_str(), msgpack_to_json(&pairs[i].1));
        assert(all.take(i + 1).drop_last() == all.take(i as int));
    }
    assert(all.take(all.len() as int) == all);
    out
}

/// The first value under a key.
pub open spec fn pair_under(pairs: Seq<(Seq<char>, MsgV)>, key: Seq<char>) -> Option<MsgV>
    decreases pairs.len(),
{
    if pairs.len() == 0 {
        None
    } else if pairs[0].0 == key {
        Some(pairs[0].1)
    } else {
        pair_under(pairs.drop_first(), key)
    }
}

/// The first value under a key, as text.
pub open spec fn text_under(pairs: Seq<(Seq<char>, MsgV)>, key: Seq<char>) -> Option<Seq<char>> {
    match pair_under(pairs, key) {
        Some(v) => msg_text(v),
        None => None,
    }
}

fn find_pair<'a>(pairs: &'a Vec<(String, MsgValue)>, key: &str) -> (r: Option<&'a MsgValue>)
    ensures
        match r {
            Some(v) => pair_under(pairs_view(pairs@), key@) == Some(v@),
            None => pair_under(pairs_view(pairs@), key@) is None,
        },
{
    let ghost all = pairs_view(pairs@);
    proof {
        assert(all.subrange(0, all.len() as int) == all);
    }
    for i in 0..pairs.len()
        invariant
            all == pairs_view(pairs@),
            pair_under(all.subrange(i as int, all.len() as int), key@) == pair_under(all, key@),
    {
        let ghost left = all.subrange(i as int, all.len() as int);
        assert(left.drop_first() == all.subrange(i + 1, all.len() as int));
        assert(left[0] == (pairs@[i as int].0@, pairs@[i as int].1@));
        if same(pairs[i].0.as_str(), key) {
            return Some(&pairs[i].1);
        }
    }
    None
}

fn find_text(pairs: &Vec<(String, MsgValue)>, key: &str) -> (r: Option<String>)
    ensures
        opt_text(r) == text_under(pairs_view(pairs@), key@),
{
    match find_pair(pairs, key) {
        Some(v) => v.to_string_lossy(),
        None => None,
    }
}

// ---------------------------------------------------------------------
// Time
// ---------------------------------------------------------------------
/// The point in time at a number of seconds. What is no number counts as zero.
pub open spec fn time_of_double(bits: u64) -> Option<Timestamp> {
    let nanos = if is_finite(bits) {
        nanos_part(bits) as int
    } else {
        0
    };
    if in_range(to_i64(bits) as int, nanos) {
        Some(Timestamp { secs: to_i64(bits), nanos: nanos as u32 })
    } else {
        None
    }
}

/// The point in time of an entry: seconds since the epoch, or an extension of type
/// zero with seconds and nanoseconds.
pub open spec fn msg_time(v: MsgV) -> Option<Timestamp> {
    match v {
        MsgV::Ext(t, body) => if t == 0 && body.len() == 8 {
            let secs = be(body.subrange(0, 4));
            let nanos = be(body.subrange(4, 8));
            if in_range(secs as int, nanos as int) {
                Some(Timestamp { secs: secs as i64, nanos: nanos as u32 })
            } else {
                None
            }
        } else {
            None
        },
        MsgV::F64(x) => time_of_double(x),
        MsgV::Int(i) => if in_range(i as int, 0) {
            Some(Timestamp { secs: i, nanos: 0 })
        } else {
            None
        },
        MsgV::Uint(u) => if in_range(u as int, 0) {
            Some(Timestamp { secs: u as i64, nanos: 0 })
        } else {
            None
        },
        _ => None,
    }
}

/// The point in time of an entry.
pub fn msgpack_time(v: &MsgValue) -> (r: Option<Timestamp>)
    ensures
        r == msg_time(v@),
{
    match v {
        MsgValue::Ext(t, body) => {
            if *t == 0 && body.len() == 8 {
                let secs: u64 = be_number(slice_subrange(body.as_slice(), 0, 4));
                let nanos: u64 = be_number(slice_subrange(body.as_slice(), 4, 8));
                proof {
                    lemma_be_bound(body@.subrange(0, 4));
                    lemma_be_bound(body@.subrange(4, 8));
                }
                Timestamp::new(secs as i64, nanos as u32)
            } else {
                None
            }
        },
        MsgValue::F64(x) => {
            let nanos: u32 = match parts_of(*x) {
                Some(_) => nanos_of(*x),
                None => 0,
            };
            Timestamp::new(cast_to_i64(*x), nanos)
        },
        MsgValue::Int(i) => Timestamp::new(*i, 0),
        MsgValue::Uint(u) => if *u <= 0x7fff_ffff_ffff_ffff {
            Timestamp::new(*u as i64, 0)
        } else {
            None
        },
        _ => None,
    }
}

/// The time of an entry as text.
pub fn msgpack_time_to_rfc3339(v: &MsgValue) -> (r: Option<String>)
    ensures
        opt_text(r) == (match msg_time(v@) {
            Some(t) => Some(rfc3339_text(t.secs, t.nanos)),
            None => None,
        }),
{
    match msgpack_time(v) {
        Some(t) => Some(to_rfc3339(t)),
        None => None,
    }
}

// ---------------------------------------------------------------------
// Records
// ---------------------------------------------------------------------
/// The line that a record carries.
pub open spec fn record_message(pairs: Seq<(Seq<char>, MsgV)>) -> Seq<char> {
    match text_under(pairs, "log"@) {
        Some(t) => t,
        None => match text_under(pairs, "message"@) {
            Some(t) => t,
            None => match text_under(pairs, "msg"@) {
                Some(t) => t,
                None => Seq::empty(),
            },
        },
    }
}

/// The service that a record belongs to: the container without its leading slash,
/// else the tag.
pub open spec fn record_service(pairs: Seq<(Seq<char>, MsgV)>, tag: Seq<char>) -> Seq<char> {
    let fallback = if tag.len() == 0 {
        "unknown"@
    } else {
        tag
    };
    match text_under(pairs, "container_name"@) {
        Some(t) => if trim_start_by(t, just('/')).len() > 0 {
            trim_start_by(t, just('/'))
        } else {
            fallback
        },
        None => fallback,
    }
}

/// The names under which the line itself may stand.
pub open spec fn line_names() -> Set<Seq<char>> {
    set!["log"@, "message"@, "msg"@]
}

/// What a record carries besides its line.
pub open spec fn record_extras(pairs: Seq<(Seq<char>, MsgV)>, tag: Seq<char>) -> Map<
    Seq<char>,
    JsonV,
> {
    let extras = pairs_json(pairs).remove_keys(line_names());
    if tag.len() == 0 {
        extras
    } else {
        extras.insert("fluentd_tag"@, JsonV::Str(tag))
    }
}

/// The envelope of a record. Its extras count before the standard fields.
pub open spec fn record_envelope(
    pairs: Seq<(Seq<char>, MsgV)>,
    tag: Seq<char>,
    time: Option<Timestamp>,
    now: Timestamp,
) -> Map<Seq<char>, JsonV> {
    let ts = match time {
        Some(t) => t,
        None => now,
    };
    Map::<Seq<char>, JsonV>::empty().insert("message"@, JsonV::Str(record_message(pairs))).insert(
        "level"@,
        JsonV::Str(
            if text_under(pairs, "source"@) == Some("stderr"@) {
                "error"@
            } else {
                "info"@
            },
        ),
    ).insert("service"@, JsonV::Str(record_service(pairs, tag))).insert(
        "ts"@,
        JsonV::Str(rfc3339_text(ts.secs, ts.nanos)),
    ).union_prefer_right(record_extras(pairs, tag))
}

fn build_envelope(
    pairs: &Vec<(String, MsgValue)>,
    tag: &str,
    time: Option<Timestamp>,
    now: Timestamp,
) -> (r: JsonMap)
    ensures
        r@ == record_envelope(pairs_view(pairs@), tag@, time, now),
{
    let message = match find_text(pairs, "log") {
        Some(t) => t,
        None => match find_text(pairs, "message") {
            Some(t) => t,
            None => match find_text(pairs, "msg") {
                Some(t) => t,
                None => String::new(),
            },
        },
    };
    let level = match find_text(pairs, "source") {
        Some(s) => if same(s.as_str(), "stderr") {
            "error"
        } else {
            "info"
        },
        None => "info",
    };
    let fallback = if tag.is_empty() {
        "unknown".to_owned()
    } else {
        tag.to_owned()
    };
    let service = match find_text(pairs, "container_name") {
        Some(t) => {
            let name = trim_start_char(t.as_str(), '/');
            if name.as_str().is_empty() {
                fallback
            } else {
                name
            }
        },
        None => fallback,
    };
    let mut names: Vec<String> = Vec::new();
    names.push("log".to_owned());
    names.push("message".to_owned());
    names.push("msg".to_owned());
    let mut extras = pairs_to_json(pairs).without(names.as_slice());
    proof {
        let t = texts(names@);
        assert(t =~= seq!["log"@, "message"@, "msg"@]);
        assert(t[0] == "log"@ && t[1] == "message"@ && t[2] == "msg"@);
        assert(t.to_set() =~= line_names());
    }
    if !tag.is_empty() {
        extras.insert_str("fluentd_tag", tag);
    }
    let ts = match time {
        Some(t) => t,
        None => now,
    };
    let mut out = JsonMap::new();
    out.insert("message", Json::Str(message));
    out.insert_str("level", level);
    out.insert("service", Json::Str(service));
    out.insert("ts", Json::Str(to_rfc3339(ts)));
    out.extend(&extras);
    out
}

/// The id that an entry wants acknowledged.
pub open spec fn ack_of(option: MsgV) -> Option<Seq<char>> {
    match option {
        MsgV::Dict(pairs) => match text_under(pairs, "chunk"@) {
            Some(t) => if t.len() > 0 {
                Some(t)
            } else {
                None
            },
            None => None,
        },
        _ => None,
    }
}

fn option_ack(option: &MsgValue) -> (r: Option<String>)
    ensures
        opt_text(r) == ack_of(option@),
{
    broadcast use lemma_msg_view;

    match option {
        MsgValue::Dict(pairs) => match find_text(pairs, "chunk") {
            Some(t) => if t.as_str().is_empty() {
                None
            } else {
                Some(t)
            },
            None => None,
        },
        _ => None,
    }
}

/// An envelope, and the id to acknowledge with it.
pub struct ForwardV {
    pub envelope: Map<Seq<char>, JsonV>,
    pub ack: Option<Seq<char>>,
}

/// The envelopes of the entries of a batch, up to the first entry that is refused.
/// An entry without a time or a record is passed over; the first record carries
/// the acknowledgement.
pub open spec fn batch_envelopes(
    entries: Seq<MsgV>,
    tag: Seq<char>,
    ack: Option<Seq<char>>,
    now: Timestamp,
) -> Result<Seq<ForwardV>, Seq<char>>
    decreases entries.len(),
{
    if entries.len() == 0 {
        Ok(Seq::empty())
    } else {
        match batch_envelopes(entries.drop_last(), tag, ack, now) {
            Err(m) => Err(m),
            Ok(done) => match entries.last() {
                MsgV::Array(pair) => if pair.len() < 2 {
                    Ok(done)
                } else {
                    match pair[1] {
                        MsgV::Dict(pairs) => Ok(
                            done.push(
                                ForwardV {
                                    envelope: record_envelope(pairs, tag, msg_time(pair[0]), now),
                                    ack: if done.len() == 0 {
                                        ack
                                    } else {
                                        None
                                    },
                                },
                            ),
                        ),
                        _ => Err("record must be a map"@),
                    }
                },
                _ => Err("forward entry must be [time, record]"@),
            },
        }
    }
}

/// The text of a tag.
pub open spec fn tag_text(v: MsgV) -> Seq<char> {
    match msg_text(v) {
        Some(t) => t,
        None => Seq::empty(),
    }
}

/// The envelopes of an entry, or the words in which it is refused.
pub open spec fn forwarded(v: MsgV, now: Timestamp) -> Result<Seq<ForwardV>, Seq<char>> {
    match v {
        MsgV::Array(parts) => {
            let n = parts.len();
            if (n == 2 || n == 3) && parts[1] is Array {
                batch_envelopes(
                    parts[1]->Array_0,
                    tag_text(parts[0]),
                    if n == 3 {
                        ack_of(parts[2])
                    } else {
                        None
                    },
                    now,
                )
            } else if (n == 3 || n == 4) && parts[2] is Dict {
                Ok(
                    seq![
                        ForwardV {
                            envelope: record_envelope(
                                parts[2]->Dict_0,
                                tag_text(parts[0]),
                                msg_time(parts[1]),
                                now,
                            ),
                            ack: if n == 4 {
                                ack_of(parts[3])
                            } else {
                                None
                            },
                        },
                    ],
                )
            } else {
                Err("unsupported entry shape ("@ + dec(n) + " elements)"@)
            }
        },
        _ => Err("entry is not an array"@),
    }
}

/// Whether records carry the envelopes of an entry.
pub open spec fn forwards(recs: Seq<(RawRecord, Option<String>)>, all: Seq<ForwardV>, now: Timestamp) -> bool {
    recs.len() == all.len() && forall|i: int|
        0 <= i < recs.len() ==> carries(
            (#[trigger] recs[i]).0,
            now,
            Seq::empty(),
            Protocol::Fluentd,
            all[i].envelope,
        ) && opt_text(recs[i].1) == all[i].ack
}

proof fn lemma_batch_err(
    entries: Seq<MsgV>,
    tag: Seq<char>,
    ack: Option<Seq<char>>,
    now: Timestamp,
    n: int,
)
    requires
        0 <= n <= entries.len(),
        batch_envelopes(entries.take(n), tag, ack, now) is Err,
    ensures
        batch_envelopes(entries, tag, ack, now) == batch_envelopes(entries.take(n), tag, ack, now),
    decreases entries.len() - n,
{
    if n == entries.len() {
        assert(entries.take(n) == entries);
    } else {
        assert(entries.take(n + 1).drop_last() == entries.take(n));
        lemma_batch_err(entries, tag, ack, now, n + 1);
    }
}

fn batch_records(
    entries: &Vec<MsgValue>,
    tag: &str,
    ack: Option<String>,
    now: Timestamp,
) -> (r: Result<Vec<(RawRecord, Option<String>)>, String>)
    ensures
        match r {
            Ok(recs) => batch_envelopes(msgs_view(entries@), tag@, opt_text(ack), now) matches Ok(
                all,
            ) && forwards(recs@, all, now),
            Err(m) => batch_envelopes(msgs_view(entries@), tag@, opt_text(ack), now) == Err::<
                Seq<ForwardV>,
                Seq<char>,
            >(m@),
        },
{
    broadcast use lemma_msg_view;

    let ghost all = msgs_view(entries@);
    let ghost want = opt_text(ack);
    let mut out: Vec<(RawRecord, Option<String>)> = Vec::new();
    for i in 0..entries.len()
        invariant
            all == msgs_view(entries@),
            want == opt_text(ack),
            batch_envelopes(all.take(i as int), tag@, want, now) is Ok,
            forwards(out@, batch_envelopes(all.take(i as int), tag@, want, now)->Ok_0, now),
    {
        assert(all.take(i + 1).drop_last() == all.take(i as int));
        assert(all.take(i + 1).last() == entries@[i as int]@);
        let pair = match &entries[i] {
            MsgValue::Array(pair) => pair,
            _ => {
                proof {
                    lemma_batch_err(all, tag@, want, now, i + 1);
                }
                return Err("forward entry must be [time, record]".to_owned());
            },
        };
        let ghost done = batch_envelopes(all.take(i as int), tag@, want, now)->Ok_0;
        proof {
            lemma_msg_view(entries@[i as int]);
            if pair@.len() >= 2 {
                lemma_msg_view(pair@[1]);
            }
        }
        assert(entries@[i as int]@ == MsgV::Array(msgs_view(pair@)));
        if pair.len() < 2 {
            assert(batch_envelopes(all.take(i + 1), tag@, want, now) == Ok::<
                Seq<ForwardV>,
                Seq<char>,
            >(done));
        } else {
            assert(msgs_view(pair@)[0] == pair@[0]@ && msgs_view(pair@)[1] == pair@[1]@);
            match &pair[1] {
                MsgValue::Dict(pairs) => {
                    let envelope = build_envelope(pairs, tag, msgpack_time(&pair[0]), now);
                    let rec = sourceless_record(now, Protocol::Fluentd, envelope);
                    let mine = if out.len() == 0 {
                        copy_opt(&ack)
                    } else {
                        None
                    };
                    let ghost before = out@;
                    out.push((rec, mine));
                    proof {
                        let next = batch_envelopes(all.take(i + 1), tag@, want, now)->Ok_0;
                        assert(next.drop_last() == done);
                        assert forall|k: int| 0 <= k < out@.len() implies carries(
                            (#[trigger] out@[k]).0,
                            now,
                            Seq::empty(),
                            Protocol::Fluentd,
                            next[k].envelope,
                        ) && opt_text(out@[k].1) == next[k].ack by {
                            if k < before.len() {
                                assert(out@[k] == before[k]);
                                assert(next[k] == done[k]);
                            }
                        }
                    }
                },
                _ => {
                    proof {
                        lemma_batch_err(all, tag@, want, now, i + 1);
                    }
                    return Err("record must be a map".to_owned());
                },
            }
        }
    }
    assert(all.take(all.len() as int) == all);
    Ok(out)
}

fn tag_of(v: &MsgValue) -> (r: String)
    ensures
        r@ == tag_text(v@),
{
    match v.to_string_lossy() {
        Some(t) => t,
        None => String::new(),
    }
}

/// Turns an entry into records: one in message mode, one for each entry of a batch
/// in forward mode.
pub fn forward_to_records(value: &MsgValue, now: Timestamp) -> (r: Result<
    Vec<(RawRecord, Option<String>)>,
    String,
>)
    ensures
        match r {
            Ok(recs) => forwarded(value@, now) matches Ok(all) && forwards(recs@, all, now),
            Err(m) => forwarded(value@, now) == Err::<Seq<ForwardV>, Seq<char>>(m@),
        },
{
    broadcast use lemma_msg_view;

    let parts = match value {
        MsgValue::Array(parts) => parts,
        _ => return Err("entry is not an array".to_owned()),
    };
    let ghost all = msgs_view(parts@);
    let n: usize = parts.len();
    assert(forall|i: int| 0 <= i < n ==> all[i] == (#[trigger] parts@[i])@);
    if n == 2 || n == 3 {
        if let MsgValue::Array(entries) = &parts[1] {
            assert(all[0] == parts@[0]@ && all[1] == parts@[1]@);
            let tag = tag_of(&parts[0]);
            let ack = if n == 3 {
                option_ack(&parts[2])
            } else {
                None
            };
            return batch_records(entries, tag.as_str(), ack, now);
        }
    }
    if n == 3 || n == 4 {
        if let MsgValue::Dict(pairs) = &parts[2] {
            assert(all[2] == parts@[2]@ && all[0] == parts@[0]@ && all[1] == parts@[1]@);
            let tag = tag_of(&parts[0]);
            let envelope = build_envelope(pairs, tag.as_str(), msgpack_time(&parts[1]), now);
            let rec = sourceless_record(now, Protocol::Fluentd, envelope);
            let ack = if n == 4 {
                option_ack(&parts[3])
            } else {
                None
            };
            let mut out: Vec<(RawRecord, Option<String>)> = Vec::new();
            out.push((rec, ack));
            return Ok(out);
        }
    }
    let count = dec_of(n as u64);
    Err(cat3("unsupported entry shape (", count.as_str(), " elements)"))
}

/// The first record of an entry, if it has any.
pub fn forward_to_record(value: &MsgValue, now: Timestamp) -> (r: Result<
    Option<(RawRecord, Option<String>)>,
    String,
>)
    ensures
        match r {
            Ok(first) => forwarded(value@, now) matches Ok(all) && match first {
                None => all.len() == 0,
                Some(x) => all.len() > 0 && forwards(seq![x], all.take(1), now),
            },
            Err(m) => forwarded(value@, now) == Err::<Seq<ForwardV>, Seq<char>>(m@),
        },
{
    match forward_to_records(value, now) {
        Err(m) => Err(m),
        Ok(recs) => {
            let mut recs = recs;
            if recs.len() == 0 {
                Ok(None)
            } else {
                let first = recs.swap_remove(0);
                assert(seq![first][0] == first);
                Ok(Some(first))
            }
        },
    }
}

/// The acknowledgement of an id.
pub fn ack_line(id: &str) -> (r: String)
    ensures
        r@ == "{\"ack\":\""@ + id@ + "\"}\n"@,
{
    cat3("{\"ack\":\"", id, "\"}\n")
}

/// What is replied for a record: the acknowledgement, where acknowledgements are on
/// and the client wants one.
pub fn ack_reply(acks: bool, id: &Option<String>) -> (r: Option<String>)
    ensures
        opt_text(r) == (match opt_text(*id) {
            Some(id) => if acks {
                Some("{\"ack\":\""@ + id + "\"}\n"@)
            } else {
                None
            },
            None => None,
        }),
{
    match id {
        Some(id) => if acks {
            Some(ack_line(id.as_str()))
        } else {
            None
        },
        None => None,
    }
}

// ---------------------------------------------------------------------
// Connections
// ---------------------------------------------------------------------
/// What the bytes of a connection hold: the values that are complete, the bytes
/// behind them, and whether those are the beginning of no value.
pub struct StreamV {
    pub values: Seq<MsgV>,
    pub rest: Seq<u8>,
    pub broken: bool,
}

/// Values before those of a stream.
pub open spec fn preceded(values: Seq<MsgV>, s: StreamV) -> StreamV {
    StreamV { values: values + s.values, ..s }
}

/// What the bytes of a connection hold.
pub open spec fn streamed(b: Seq<u8>) -> StreamV
    decreases b.len(),
{
    match decoded(b) {
        Ok(Some((v, n))) => if 0 < n <= b.len() {
            preceded(seq![v], streamed(b.skip(n)))
        } else {
            StreamV { values: Seq::empty(), rest: b, broken: true }
        },
        Ok(None) => StreamV { values: Seq::empty(), rest: b, broken: false },
        Err(_) => StreamV { values: Seq::empty(), rest: b, broken: true },
    }
}

/// A connection: the bytes that are not yet a value.
#[derive(Debug)]
pub struct ForwardStream {
    pub buf: Vec<u8>,
}

impl ForwardStream {
    /// A connection on which nothing was received.
    pub fn new() -> (r: ForwardStream)
        ensures
            r.buf@.len() == 0,
    {
        ForwardStream { buf: Vec::new() }
    }

    /// Receives bytes, and gives the values that are complete. The flag says that
    /// what follows them is malformed, so that the connection is to be closed.
    pub fn receive(&mut self, data: &[u8]) -> (r: (Vec<MsgValue>, bool))
        ensures
            ({
                let all = streamed(old(self).buf@ + data@);
                &&& msgs_view(r.0@) == all.values
                &&& r.1 == all.broken
                &&& final(self).buf@ == all.rest
            }),
    {
        push_all(&mut self.buf, data);
        let ghost all = self.buf@;
        let mut out: Vec<MsgValue> = Vec::new();
        let mut pos: usize = 0;
        let mut broken = false;
        let mut more = true;
        proof {
            assert(all.skip(0) == all);
            assert(msgs_view(out@) + streamed(all).values == streamed(all).values);
        }
        while more
            invariant
                self.buf@ == all,
                pos <= all.len(),
                more ==> !broken && streamed(all) == preceded(
                    msgs_view(out@),
                    streamed(all.skip(pos as int)),
                ),
                !more ==> streamed(all) == (StreamV {
                    values: msgs_view(out@),
                    rest: all.skip(pos as int),
                    broken,
                }),
            decreases
                    all.len() - pos,
                    (if more {
                        1int
                    } else {
                        0
                    }),
        {
            let ghost left = all.skip(pos as int);
            assert(left == self.buf@.subrange(pos as int, self.buf@.len() as int));
            match try_decode(slice_subrange(self.buf.as_slice(), pos, self.buf.len())) {
                Ok(Some((v, n))) => {
                    let ghost before = msgs_view(out@);
                    let ghost value = v@;
                    out.push(v);
                    proof {
                        assert(left.skip(n as int) == all.skip(pos + n));
                        assert(msgs_view(out@) == before.push(value));
                        let after = streamed(all.skip(pos + n)).values;
                        assert(before + (seq![value] + after) == before.push(value) + after);
                    }
                    pos = pos + n;
                },
                Ok(None) => {
                    more = false;
                    assert(msgs_view(out@) + Seq::<MsgV>::empty() == msgs_view(out@));
                },
                Err(_) => {
                    more = false;
                    broken = true;
                    assert(msgs_view(out@) + Seq::<MsgV>::empty() == msgs_view(out@));
                },
            }
        }
        let rest = slice_subrange(self.buf.as_slice(), pos, self.buf.len());
        assert(rest@ == all.skip(pos as int));
        let mut kept: Vec<u8> = Vec::new();
        push_all(&mut kept, rest);
        assert(kept@ == rest@);
        self.buf = kept;
        (out, broken)
    }
}

/// Where the bytes of a connection are cut does not matter: what is complete comes
/// at once, and the rest comes as if all had arrived together.
pub proof fn law_entries_may_be_cut(a: Seq<u8>, b: Seq<u8>)
    requires
        !streamed(a).broken,
    ensures
        streamed(a + b) == preceded(streamed(a).values, streamed(streamed(a).rest + b)),
    decreases a.len(),
{
    match decoded(a) {
        Ok(Some((v, n))) => {
            law_progress(a, 0);
            law_later_bytes_do_not_matter(a, a + b, 0);
            law_entries_may_be_cut(a.skip(n), b);
            assert((a + b).skip(n) == a.skip(n) + b);
            let values = streamed(a.skip(n)).values;
            let after = streamed(streamed(a).rest + b).values;
            assert(seq![v] + (values + after) == (seq![v] + values) + after);
        },
        _ => {
            assert(Seq::<MsgV>::empty() + streamed(a + b).values == streamed(a + b).values);
        },
    }
}

} // verus!

//! The envelope in which every push format hands its records on: one JSON object.
use vstd::prelude::*;
use vstd::string::*;
use vstd::utf8::encode_utf8;

use crate::{Protocol, RawRecord};
use crate::json::{Json, JsonMap, JsonV, is_plain, json_text, lemma_json_view, reads_as, write_json};
use crate::text::push_bytes;
use crate::time::Timestamp;

verus! {

/// Whether bytes are those of an envelope: of its text, which can be read again.
pub open spec fn holds_envelope(bytes: Seq<u8>, envelope: Map<Seq<char>, JsonV>) -> bool {
    let v = JsonV::Obj(envelope);
    &&& bytes == encode_utf8(json_text(v))
    &&& is_plain(v, 127) ==> reads_as(json_text(v), v)
}

/// Whether a record carries an envelope.
pub open spec fn carries(
    rec: RawRecord,
    now: Timestamp,
    source: Seq<char>,
    protocol: Protocol,
    envelope: Map<Seq<char>, JsonV>,
) -> bool {
    &&& rec.receive_ts == now
    &&& rec.source_addr@ == source
    &&& rec.protocol == protocol
    &&& holds_envelope(rec.raw@, envelope)
}

/// The bytes of an envelope.
pub fn envelope_bytes(envelope: JsonMap) -> (r: Vec<u8>)
    ensures
        holds_envelope(r@, envelope@),
{
    broadcast use lemma_json_view;

    let value = Json::Obj(envelope);
    let text = write_json(&value);
    let mut raw: Vec<u8> = Vec::new();
    push_bytes(&mut raw, text.as_str());
    assert(raw@ == encode_utf8(text@));
    raw
}

/// Writes an envelope into a record.
pub fn envelope_record(now: Timestamp, source: &str, protocol: Protocol, envelope: JsonMap) -> (r:
    RawRecord)
    ensures
        carries(r, now, source@, protocol, envelope@),
{
    let raw = envelope_bytes(envelope);
    RawRecord { receive_ts: now, source_addr: source.to_owned(), protocol, raw }
}

/// How it went to store records.
#[derive(Debug, Clone, Copy, PartialEq, Eq, Structural)]
pub enum Appended {
    Stored,
    Failed,
    TimedOut,
}

/// Whether records carry envelopes, one each.
pub open spec fn carry(
    recs: Seq<RawRecord>,
    now: Timestamp,
    protocol: Protocol,
    envelopes: Seq<Map<Seq<char>, JsonV>>,
) -> bool {
    recs.len() == envelopes.len() && forall|i: int|
        0 <= i < recs.len() ==> carries(
            #[trigger] recs[i],
            now,
            Seq::empty(),
            protocol,
            envelopes[i],
        )
}

/// A record of no known source.
pub fn sourceless_record(now: Timestamp, protocol: Protocol, envelope: JsonMap) -> (r: RawRecord)
    ensures
        carries(r, now, Seq::empty(), protocol, envelope@),
{
    let none = String::new();
    envelope_record(now, none.as_str(), protocol, envelope)
}

/// The standard alphabet of base64, with padding.
pub uninterp spec fn base64_text(bytes: Seq<u8>) -> Seq<char>;

/// `base64`'s standard engine, encoding bytes. The text depends on the bytes
/// alone.
#[verifier::external_body]
pub(crate) fn to_base64(bytes: &[u8]) -> (r: String)
    ensures
        r@ == base64_text(bytes@),
{
    base64::Engine::encode(&base64::engine::general_purpose::STANDARD, bytes)
}

} // verus!

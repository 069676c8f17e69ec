//! Syslog over UDP and TCP: the records of datagrams and lines.
use vstd::prelude::*;
use vstd::slice::slice_to_vec;
use vstd::string::*;
use vstd::utf8::encode_utf8;

use crate::{Protocol, RawRecord};
use crate::text::{chars_of, lemma_trim_end, push_bytes, string_between, trim_end_by};
use crate::time::Timestamp;

verus! {

/// The characters that end a line.
pub open spec fn line_end() -> spec_fn(char) -> bool {
    |c: char| c == '\r' || c == '\n'
}

/// A line without what ends it.
pub fn trim_line(line: &str) -> (r: String)
    ensures
        r@ == trim_end_by(line@, line_end()),
{
    let v = chars_of(line);
    let mut j: usize = v.len();
    while j > 0 && (v[j - 1] == '\r' || v[j - 1] == '\n')
        invariant
            j <= v@.len(),
            v@ == line@,
            forall|k: int| j <= k < v@.len() ==> line_end()(#[trigger] v@[k]),
        decreases j,
    {
        j = j - 1;
    }
    proof {
        lemma_trim_end(line@, line_end(), j as int);
    }
    string_between(v.as_slice(), 0, j)
}

/// The record of a line that came over TCP, unless the line is empty.
pub fn line_to_record(line: &str, peer: &str, now: Timestamp) -> (r: Option<RawRecord>)
    ensures
        ({
            let t = trim_end_by(line@, line_end());
            match r {
                None => t.len() == 0,
                Some(rec) => t.len() > 0 && rec.receive_ts == now && rec.source_addr@ == peer@
                    && rec.protocol == Protocol::SyslogTcp && rec.raw@ == encode_utf8(t),
            }
        }),
{
    let t = trim_line(line);
    if t.as_str().is_empty() {
        return None;
    }
    let mut raw: Vec<u8> = Vec::new();
    push_bytes(&mut raw, t.as_str());
    Some(
        RawRecord {
            receive_ts: now,
            source_addr: peer.to_owned(),
            protocol: Protocol::SyslogTcp,
            raw,
        },
    )
}

/// The record of a datagram.
pub fn datagram_to_record(data: &[u8], peer: &str, now: Timestamp) -> (r: RawRecord)
    ensures
        r.receive_ts == now,
        r.source_addr@ == peer@,
        r.protocol == Protocol::SyslogUdp,
        r.raw@ == data@,
{
    RawRecord {
        receive_ts: now,
        source_addr: peer.to_owned(),
        protocol: Protocol::SyslogUdp,
        raw: slice_to_vec(data),
    }
}

} // verus!

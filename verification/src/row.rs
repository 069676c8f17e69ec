//! A parsed log record: one row of the `logs` table.
use vstd::prelude::*;
use vstd::string::*;

use crate::hot::{HotValue, HotValueV, hot_values_view};
use crate::json::{JsonMap, JsonV};
use crate::time::Timestamp;

verus! {

/// One row of the `logs` table.
#[derive(Debug)]
pub struct LogRow {
    pub ts: Timestamp,
    pub protocol: String,
    pub raw_len: i32,
    pub source_host: String,
    pub service: String,
    pub level: String,
    pub message: String,
    pub fingerprint: String,
    pub trace_id: String,
    pub span_id: String,
    pub geo_country: String,
    /// What no column of its own takes.
    pub attributes: JsonMap,
    /// The values of the promoted attributes, in the order of their configuration.
    pub hot: Vec<HotValue>,
}

/// What a row says.
#[verifier::ext_equal]
pub struct RowV {
    pub ts: Timestamp,
    pub protocol: Seq<char>,
    pub raw_len: i32,
    pub source_host: Seq<char>,
    pub service: Seq<char>,
    pub level: Seq<char>,
    pub message: Seq<char>,
    pub fingerprint: Seq<char>,
    pub trace_id: Seq<char>,
    pub span_id: Seq<char>,
    pub geo_country: Seq<char>,
    pub attributes: Map<Seq<char>, JsonV>,
    pub hot: Seq<HotValueV>,
}

impl View for LogRow {
    type V = RowV;

    open spec fn view(&self) -> RowV {
        RowV {
            ts: self.ts,
            protocol: self.protocol@,
            raw_len: self.raw_len,
            source_host: self.source_host@,
            service: self.service@,
            level: self.level@,
            message: self.message@,
            fingerprint: self.fingerprint@,
            trace_id: self.trace_id@,
            span_id: self.span_id@,
            geo_country: self.geo_country@,
            attributes: self.attributes@,
            hot: hot_values_view(self.hot@),
        }
    }
}

/// A row that holds nothing but its time.
pub open spec fn empty_row(ts: Timestamp) -> RowV {
    RowV {
        ts,
        protocol: Seq::empty(),
        raw_len: 0,
        source_host: Seq::empty(),
        service: Seq::empty(),
        level: Seq::empty(),
        message: Seq::empty(),
        fingerprint: Seq::empty(),
        trace_id: Seq::empty(),
        span_id: Seq::empty(),
        geo_country: Seq::empty(),
        attributes: Map::empty(),
        hot: Seq::empty(),
    }
}

impl LogRow {
    /// A row that holds nothing but its time.
    pub fn empty_at(ts: Timestamp) -> (r: LogRow)
        ensures
            r@ == empty_row(ts),
    {
        LogRow {
            ts,
            protocol: String::new(),
            raw_len: 0,
            source_host: String::new(),
            service: String::new(),
            level: String::new(),
            message: String::new(),
            fingerprint: String::new(),
            trace_id: String::new(),
            span_id: String::new(),
            geo_country: String::new(),
            attributes: JsonMap::new(),
            hot: Vec::new(),
        }
    }
}

} // verus!

//! The ingest workers: which segments of the log each of them owns, when a batch is
//! written, and up to where a worker has come.
use vstd::prelude::*;
use vstd::string::*;

use crate::RawRecord;
use crate::ingest::enrich::{Enricher, enriched};
use crate::ingest::parse::{Parser, finished, is_parse_of};
use crate::ip::{is_ipv4, is_ipv6, is_plausible_ip};
use crate::row::{LogRow, RowV};
use crate::text::{opt_text, rsplit_once, rsplit_once_at};
use crate::time::Timestamp;

verus! {

/// A position in the write-ahead log.
#[derive(Debug, Clone, Copy, PartialEq, Eq, Structural)]
pub struct Checkpoint {
    pub segment_id: u64,
    pub offset: u64,
}

/// What a worker has done.
#[derive(Debug, Clone, Copy)]
pub struct IngestStats {
    pub records_ingested: u64,
    pub batches_committed: u64,
    pub parse_errors: u64,
    pub insert_errors: u64,
    pub last_commit_ts: Option<Timestamp>,
}

impl Default for IngestStats {
    fn default() -> (r: Self)
        ensures
            r == (IngestStats {
                records_ingested: 0,
                batches_committed: 0,
                parse_errors: 0,
                insert_errors: 0,
                last_commit_ts: None,
            }),
    {
        IngestStats {
            records_ingested: 0,
            batches_committed: 0,
            parse_errors: 0,
            insert_errors: 0,
            last_commit_ts: None,
        }
    }
}

/// Whether a worker owns a segment: the segments are dealt out in turn.
pub open spec fn owns(segment: u64, worker: u64, total: usize) -> bool {
    total > 0 && segment % (total as u64) == worker
}

/// Whether a worker owns a segment.
pub fn owns_segment(segment_id: u64, worker_id: u64, total: usize) -> (r: bool)
    ensures
        r == owns(segment_id, worker_id, total),
{
    total > 0 && segment_id % (total as u64) == worker_id
}

/// Every segment has exactly one owner among the workers.
pub proof fn law_every_segment_has_one_owner(segment: u64, total: usize)
    requires
        total > 0,
    ensures
        exists|w: u64|
            w < total && #[trigger] owns(segment, w, total) && forall|v: u64|
                #[trigger] owns(segment, v, total) ==> v == w,
{
    let w = segment % (total as u64);
    assert(owns(segment, w, total));
}

/// The address in where a record came from, with or without a port.
pub open spec fn source_address(addr: Seq<char>) -> Option<Seq<char>> {
    let host = match rsplit_once(addr, ':') {
        Some((h, _)) => h,
        None => addr,
    };
    if is_ipv4(host) || is_ipv6(host) {
        Some(host)
    } else {
        None
    }
}

/// The address in where a record came from.
pub fn parse_ip_from_addr(addr: &str) -> (r: Option<String>)
    ensures
        opt_text(r) == source_address(addr@),
{
    let host = match rsplit_once_at(addr, ':') {
        Some(p) => p.0,
        None => addr.to_owned(),
    };
    if is_plausible_ip(host.as_str()) {
        Some(host)
    } else {
        None
    }
}

/// A worker: the rows that it has parsed and not written yet, and up to where it has
/// come. Times are nanoseconds of a clock that never goes back.
pub struct Worker {
    pub id: u64,
    pub total: usize,
    pub batch_size: usize,
    pub flush_interval: u64,
    pub buf: Vec<LogRow>,
    pub last_flush: u64,
    /// The position behind the last row.
    pub pending: Option<Checkpoint>,
    pub stats: IngestStats,
}

/// Whether a time span has passed.
pub open spec fn passed(since: u64, now: u64, span: u64) -> bool {
    if now >= since {
        now - since >= span
    } else {
        span == 0
    }
}

fn has_passed(since: u64, now: u64, span: u64) -> (r: bool)
    ensures
        r == passed(since, now, span),
{
    if now >= since {
        now - since >= span
    } else {
        span == 0
    }
}

/// What rows say.
pub open spec fn rows_view(v: Seq<LogRow>) -> Seq<RowV> {
    Seq::new(v.len(), |i: int| v[i]@)
}

impl Worker {
    /// A row that is not written has a position behind it.
    pub open spec fn wf(&self) -> bool {
        self.buf@.len() > 0 ==> self.pending is Some
    }

    /// What the worker is set up with.
    pub open spec fn same_setup(&self, other: Worker) -> bool {
        &&& self.id == other.id
        &&& self.total == other.total
        &&& self.batch_size == other.batch_size
        &&& self.flush_interval == other.flush_interval
    }

    /// A worker that starts.
    pub fn new(id: u64, total: usize, batch_size: usize, flush_interval: u64, now: u64) -> (r:
        Worker)
        ensures
            r.wf(),
            r.id == id,
            r.total == total,
            r.batch_size == batch_size,
            r.flush_interval == flush_interval,
            rows_view(r.buf@) == Seq::<RowV>::empty(),
            r.last_flush == now,
            r.pending is None,
            r.stats == (IngestStats {
                records_ingested: 0,
                batches_committed: 0,
                parse_errors: 0,
                insert_errors: 0,
                last_commit_ts: None,
            }),
    {
        let r = Worker {
            id,
            total,
            batch_size,
            flush_interval,
            buf: Vec::new(),
            last_flush: now,
            pending: None,
            stats: IngestStats::default(),
        };
        assert(rows_view(r.buf@) =~= Seq::<RowV>::empty());
        r
    }

    /// Takes a row that was parsed and enriched, and tells whether the batch is to
    /// be written: where it is full, or where the last one was long ago.
    fn accept(&mut self, row: LogRow, next: Checkpoint, now: u64) -> (flush: bool)
        ensures
            final(self).wf(),
            final(self).same_setup(*old(self)),
            rows_view(final(self).buf@) == rows_view(old(self).buf@).push(row@),
            final(self).buf@.len() == old(self).buf@.len() + 1,
            final(self).pending == Some(next),
            final(self).last_flush == old(self).last_flush,
            final(self).stats == old(self).stats,
            flush == (final(self).buf@.len() >= old(self).batch_size || passed(
                old(self).last_flush,
                now,
                old(self).flush_interval,
            )),
    {
        let ghost before = rows_view(self.buf@);
        let ghost v = row@;
        self.buf.push(row);
        assert(rows_view(self.buf@) =~= before.push(v));
        self.pending = Some(next);
        self.buf.len() >= self.batch_size || has_passed(self.last_flush, now, self.flush_interval)
    }

    /// Takes a record. One of a foreign segment does not count; one of an own
    /// segment is parsed and enriched, and joins the batch. Tells whether the batch
    /// is to be written.
    pub fn on_record(
        &mut self,
        rec: &RawRecord,
        next: Checkpoint,
        now: u64,
        parser: &Parser,
        enricher: &Enricher,
        country: Option<&str>,
    ) -> (flush: bool)
        requires
            old(self).wf(),
        ensures
            final(self).wf(),
            final(self).same_setup(*old(self)),
            final(self).last_flush == old(self).last_flush,
            final(self).stats == old(self).stats,
            if owns(next.segment_id, old(self).id, old(self).total) {
                &&& final(self).pending == Some(next)
                &&& exists|row: RowV| #[trigger]
                    is_parse_of(row, *rec, parser.hot_view(), parser.unwraps()) && rows_view(
                        final(self).buf@,
                    ) == rows_view(old(self).buf@).push(
                        enriched(
                            finished(row, parser.drop_view()),
                            enricher.default_service@,
                            enricher.default_host@,
                            match country {
                                Some(c) => Some(c@),
                                None => None,
                            },
                        ),
                    )
                &&& flush == (final(self).buf@.len() >= old(self).batch_size || passed(
                    old(self).last_flush,
                    now,
                    old(self).flush_interval,
                ))
            } else {
                !flush && rows_view(final(self).buf@) == rows_view(old(self).buf@)
                    && final(self).pending == old(self).pending
            },
    {
        if !owns_segment(next.segment_id, self.id, self.total) {
            return false;
        }
        let mut row = parser.parse(rec);
        enricher.enrich(&mut row, country);
        self.accept(row, next, now)
    }

    /// Takes note of a frame that cannot be read, and tells the position to be
    /// recorded. While there are rows that are not written yet, none is: the position
    /// behind the frame is recorded with them.
    pub fn on_bad_frame(&mut self, next: Checkpoint) -> (r: Option<Checkpoint>)
        requires
            old(self).wf(),
            old(self).stats.parse_errors < u64::MAX,
        ensures
            final(self).wf(),
            final(self).same_setup(*old(self)),
            final(self).stats == (IngestStats {
                parse_errors: (old(self).stats.parse_errors + 1) as u64,
                ..old(self).stats
            }),
            final(self).buf@ == old(self).buf@,
            final(self).last_flush == old(self).last_flush,
            if old(self).buf@.len() == 0 {
                r == Some(next) && final(self).pending == old(self).pending
            } else {
                r is None && final(self).pending == Some(next)
            },
    {
        self.stats.parse_errors = self.stats.parse_errors + 1;
        if self.buf.len() == 0 {
            Some(next)
        } else {
            self.pending = Some(next);
            None
        }
    }

    /// Whether the batch is to be written where there is nothing more to read.
    pub fn on_caught_up(&self, now: u64) -> (flush: bool)
        ensures
            flush == (self.buf@.len() > 0 && passed(self.last_flush, now, self.flush_interval)),
    {
        self.buf.len() > 0 && has_passed(self.last_flush, now, self.flush_interval)
    }

    /// Takes note that the batch was written, and tells the position to be recorded.
    pub fn on_written(&mut self, inserted: usize, ts: Timestamp, now: u64) -> (r: Option<
        Checkpoint,
    >)
        requires
            old(self).wf(),
            old(self).stats.records_ingested + inserted <= u64::MAX,
            old(self).stats.batches_committed < u64::MAX,
        ensures
            final(self).wf(),
            final(self).same_setup(*old(self)),
            r == old(self).pending,
            final(self).pending == old(self).pending,
            final(self).last_flush == now,
            rows_view(final(self).buf@) == Seq::<RowV>::empty(),
            final(self).stats == (IngestStats {
                records_ingested: (old(self).stats.records_ingested + inserted) as u64,
                batches_committed: (old(self).stats.batches_committed + 1) as u64,
                last_commit_ts: Some(ts),
                ..old(self).stats
            }),
    {
        self.buf = Vec::new();
        assert(rows_view(self.buf@) =~= Seq::<RowV>::empty());
        self.last_flush = now;
        self.stats.records_ingested = self.stats.records_ingested + inserted as u64;
        self.stats.batches_committed = self.stats.batches_committed + 1;
        self.stats.last_commit_ts = Some(ts);
        self.pending
    }

    /// Takes note that the batch could not be written. It stays, and no position is
    /// recorded.
    pub fn on_write_failed(&mut self, now: u64)
        requires
            old(self).wf(),
            old(self).stats.insert_errors < u64::MAX,
        ensures
            final(self).wf(),
            final(self).same_setup(*old(self)),
            final(self).buf@ == old(self).buf@,
            final(self).pending == old(self).pending,
            final(self).last_flush == now,
            final(self).stats == (IngestStats {
                insert_errors: (old(self).stats.insert_errors + 1) as u64,
                ..old(self).stats
            }),
    {
        self.last_flush = now;
        self.stats.insert_errors = self.stats.insert_errors + 1;
    }
}

} // verus!

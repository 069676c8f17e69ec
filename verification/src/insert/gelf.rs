//! GELF, the Graylog extended log format: the reassembly of chunked datagrams, the
//! packing of a payload, and the mapping of a message to an envelope.
use vstd::prelude::*;
use vstd::slice::{slice_subrange, slice_to_vec};
use vstd::string::*;

use crate::{Protocol, RawRecord};
use crate::insert::envelope::{carries, envelope_record};
use crate::insert::msgpack::{be, be_number, lemma_be_bound};
use crate::json::{
    Json, JsonMap, JsonV, field, json_read_bytes, lemma_json_view, read_json_bytes, text_in,
};
use crate::text::{
    just, opt_text, parse_i64, parse_i64_text, push_all, texts, trim_start_by, trim_start_char,
};
use crate::time::{Timestamp, rfc3339_text, to_rfc3339};

verus! {

// ---------------------------------------------------------------------
// Chunks
// ---------------------------------------------------------------------
/// The length of a chunk's header: a magic number of two bytes, the message's id
/// of eight, the chunk's number, and how many there are.
pub const CHUNK_HEADER: usize = 12;

/// How many chunks a message may have.
pub const CHUNK_MAX_TOTAL: usize = 128;

/// How many bytes the chunks of a message may hold together.
pub const CHUNK_MAX_MESSAGE_BYTES: usize = 8_388_608;

/// After how many datagrams stale messages are swept out.
pub const SWEEP_EVERY: usize = 1024;

/// With more unfinished messages than this, every datagram sweeps.
pub const MANY_MESSAGES: usize = 4096;

/// The chunks of a message so far.
pub struct ChunkBuf {
    pub id: u64,
    pub parts: Vec<Option<Vec<u8>>>,
    pub received: usize,
    pub bytes: usize,
    /// When the first chunk came, in nanoseconds of a clock that never goes back.
    pub first_seen: u64,
}

/// What a [`ChunkBuf`] holds.
#[verifier::ext_equal]
pub struct BufV {
    pub parts: Seq<Option<Seq<u8>>>,
    pub bytes: nat,
    pub first_seen: u64,
}

/// The bytes of a part that may be there.
pub open spec fn part_view(p: Option<Vec<u8>>) -> Option<Seq<u8>> {
    match p {
        Some(b) => Some(b@),
        None => None,
    }
}

impl ChunkBuf {
    /// What the buffer holds.
    pub open spec fn view(&self) -> BufV {
        BufV {
            parts: Seq::new(self.parts@.len(), |i: int| part_view(self.parts@[i])),
            bytes: self.bytes as nat,
            first_seen: self.first_seen,
        }
    }

    /// A part is missing, and the counts are right.
    pub open spec fn wf(&self) -> bool {
        &&& 0 < self.parts@.len() <= CHUNK_MAX_TOTAL
        &&& self.received == present(self@.parts)
        &&& self.received < self.parts@.len()
        &&& self.bytes <= CHUNK_MAX_MESSAGE_BYTES
    }
}

/// How many parts are there.
pub open spec fn present(parts: Seq<Option<Seq<u8>>>) -> nat
    decreases parts.len(),
{
    if parts.len() == 0 {
        0
    } else {
        present(parts.drop_last()) + if parts.last() is Some {
            1nat
        } else {
            0
        }
    }
}

/// The parts, one after the other.
pub open spec fn whole(parts: Seq<Option<Seq<u8>>>) -> Seq<u8>
    decreases parts.len(),
{
    if parts.len() == 0 {
        Seq::empty()
    } else {
        whole(parts.drop_last()) + match parts.last() {
            Some(b) => b,
            None => Seq::empty(),
        }
    }
}

/// The messages that are not complete yet.
pub struct Chunks {
    pub bufs: Vec<ChunkBuf>,
}

impl Chunks {
    /// Every buffer is in order, and no two are of one message.
    pub open spec fn wf(&self) -> bool {
        &&& forall|i: int| 0 <= i < self.bufs@.len() ==> (#[trigger] self.bufs@[i]).wf()
        &&& forall|i: int, j: int|
            0 <= i < j < self.bufs@.len() ==> (#[trigger] self.bufs@[i]).id != (
            #[trigger] self.bufs@[j]).id
    }

    /// The unfinished messages by their ids.
    pub open spec fn view(&self) -> Map<u64, BufV> {
        bufs_map(self.bufs@)
    }

    /// No message yet.
    pub fn new() -> (r: Chunks)
        ensures
            r.wf(),
            r@ == Map::<u64, BufV>::empty(),
    {
        Chunks { bufs: Vec::new() }
    }

    /// Whether no message is unfinished.
    pub fn is_empty(&self) -> (r: bool)
        requires
            self.wf(),
        ensures
            r == (self@ == Map::<u64, BufV>::empty()),
    {
        proof {
            if self.bufs@.len() > 0 {
                lemma_bufs_at(self.bufs@, 0);
            }
        }
        self.bufs.len() == 0
    }
}

/// Buffers by their ids.
pub open spec fn bufs_map(s: Seq<ChunkBuf>) -> Map<u64, BufV>
    decreases s.len(),
{
    if s.len() == 0 {
        Map::empty()
    } else {
        bufs_map(s.drop_last()).insert(s.last().id, s.last()@)
    }
}

/// No two buffers are of one message.
spec fn distinct(s: Seq<ChunkBuf>) -> bool {
    forall|i: int, j: int| 0 <= i < j < s.len() ==> (#[trigger] s[i]).id != (#[trigger] s[j]).id
}

proof fn lemma_bufs_at(s: Seq<ChunkBuf>, i: int)
    requires
        distinct(s),
        0 <= i < s.len(),
    ensures
        bufs_map(s).contains_key(s[i].id),
        bufs_map(s)[s[i].id] == s[i]@,
    decreases s.len(),
{
    if i < s.len() - 1 {
        lemma_bufs_at(s.drop_last(), i);
    }
}

proof fn lemma_bufs_none(s: Seq<ChunkBuf>, id: u64)
    requires
        forall|i: int| 0 <= i < s.len() ==> (#[trigger] s[i]).id != id,
    ensures
        !bufs_map(s).contains_key(id),
    decreases s.len(),
{
    if s.len() > 0 {
        lemma_bufs_none(s.drop_last(), id);
    }
}

proof fn lemma_bufs_found(s: Seq<ChunkBuf>, id: u64) -> (i: int)
    requires
        bufs_map(s).contains_key(id),
    ensures
        0 <= i < s.len() && s[i].id == id,
    decreases s.len(),
{
    if s.last().id == id {
        s.len() - 1
    } else {
        lemma_bufs_found(s.drop_last(), id)
    }
}

proof fn lemma_bufs_count(s: Seq<ChunkBuf>)
    requires
        distinct(s),
    ensures
        bufs_map(s).dom().finite(),
        bufs_map(s).dom().len() == s.len(),
    decreases s.len(),
{
    if s.len() > 0 {
        lemma_bufs_count(s.drop_last());
        assert(forall|i: int|
            0 <= i < s.len() - 1 ==> (#[trigger] s.drop_last()[i]).id == s[i].id);
        assert forall|i: int| 0 <= i < s.len() - 1 implies (#[trigger] s.drop_last()[i]).id
            != s.last().id by {
            assert(s[i].id != s[s.len() - 1].id);
        }
        lemma_bufs_none(s.drop_last(), s.last().id);
        assert(bufs_map(s).dom() =~= bufs_map(s.drop_last()).dom().insert(s.last().id));
    }
}

// ---------------------------------------------------------------------
// Sweeping
// ---------------------------------------------------------------------
/// Whether a message has waited too long.
pub open spec fn expired(b: BufV, now: u64, timeout: u64) -> bool {
    if now >= b.first_seen {
        now - b.first_seen >= timeout
    } else {
        timeout == 0
    }
}

/// The messages that have not waited too long.
pub open spec fn swept(m: Map<u64, BufV>, now: u64, timeout: u64) -> Map<u64, BufV> {
    m.restrict(Set::new(|id: u64| m.contains_key(id) && !expired(m[id], now, timeout)))
}

proof fn lemma_bufs_remove(s: Seq<ChunkBuf>, i: int)
    requires
        distinct(s),
        0 <= i < s.len(),
    ensures
        distinct(s.remove(i)),
        bufs_map(s.remove(i)) == bufs_map(s).remove(s[i].id),
{
    let t = s.remove(i);
    assert(forall|k: int| 0 <= k < t.len() ==> #[trigger] t[k] == s[if k < i {
        k
    } else {
        k + 1
    }]);
    let m = bufs_map(s).remove(s[i].id);
    let got = bufs_map(t);
    assert forall|id: u64| #[trigger] m.dom().contains(id) implies got.dom().contains(id) && got[id]
        == m[id] by {
        let j = lemma_bufs_found(s, id);
        lemma_bufs_at(s, j);
        let k = if j < i {
            j
        } else {
            j - 1
        };
        assert(t[k] == s[j]);
        lemma_bufs_at(t, k);
    }
    assert forall|id: u64| #[trigger] got.dom().contains(id) implies m.dom().contains(id) by {
        let k = lemma_bufs_found(t, id);
        let j = if k < i {
            k
        } else {
            k + 1
        };
        assert(t[k] == s[j]);
        assert(s[j].id != s[i].id);
        lemma_bufs_at(s, j);
    }
    assert(got =~= m);
}

/// Forgets the messages that have waited too long.
pub fn sweep_expired(chunks: &mut Chunks, now: u64, timeout: u64)
    requires
        old(chunks).wf(),
    ensures
        final(chunks).wf(),
        final(chunks)@ == swept(old(chunks)@, now, timeout),
{
    let ghost want = swept(chunks@, now, timeout);
    let mut i: usize = 0;
    while i < chunks.bufs.len()
        invariant
            i <= chunks.bufs@.len(),
            chunks.wf(),
            swept(chunks@, now, timeout) == want,
            forall|k: int| 0 <= k < i ==> !expired((#[trigger] chunks.bufs@[k])@, now, timeout),
        decreases chunks.bufs@.len() - i,
    {
        let ghost all = chunks.bufs@;
        let seen: u64 = chunks.bufs[i].first_seen;
        let waited: u64 = if now >= seen {
            now - seen
        } else {
            0
        };
        if waited < timeout {
            i = i + 1;
        } else {
            proof {
                lemma_bufs_remove(all, i as int);
                lemma_bufs_at(all, i as int);
            }
            let _ = chunks.bufs.remove(i);
            assert(swept(chunks@, now, timeout) =~= want);
        }
    }
    proof {
        assert forall|id: u64| chunks@.contains_key(id) implies want.contains_key(id) by {
            let k = lemma_bufs_found(chunks.bufs@, id);
            lemma_bufs_at(chunks.bufs@, k);
        }
        assert(chunks@ =~= want);
    }
}

// ---------------------------------------------------------------------
// Reassembly
// ---------------------------------------------------------------------
impl Chunks {
    /// Takes the buffer of a message out.
    fn take_buf(&mut self, id: u64) -> (r: Option<ChunkBuf>)
        requires
            old(self).wf(),
        ensures
            final(self).wf(),
            final(self)@ == old(self)@.remove(id),
            match r {
                Some(b) => b.wf() && b.id == id && old(self)@.contains_key(id) && old(self)@[id]
                    == b@,
                None => !old(self)@.contains_key(id),
            },
    {
        let ghost all = self.bufs@;
        let n: usize = self.bufs.len();
        for i in 0..n
            invariant
                n == all.len(),
                self.bufs@ == all,
                self.wf(),
                distinct(all),
                *old(self) == *self,
                forall|k: int| 0 <= k < i ==> (#[trigger] all[k]).id != id,
        {
            if self.bufs[i].id == id {
                proof {
                    lemma_bufs_remove(all, i as int);
                    lemma_bufs_at(all, i as int);
                }
                let b = self.bufs.remove(i);
                return Some(b);
            }
        }
        proof {
            lemma_bufs_none(all, id);
            assert(self@.remove(id) =~= self@);
        }
        None
    }

    /// Puts the buffer of a message in.
    fn put_buf(&mut self, b: ChunkBuf)
        requires
            old(self).wf(),
            b.wf(),
            !old(self)@.contains_key(b.id),
        ensures
            final(self).wf(),
            final(self)@ == old(self)@.insert(b.id, b@),
    {
        let ghost all = self.bufs@;
        proof {
            assert forall|k: int| 0 <= k < all.len() implies (#[trigger] all[k]).id != b.id by {
                lemma_bufs_at(all, k);
            }
        }
        self.bufs.push(b);
        assert(self.bufs@.drop_last() == all);
    }
}

proof fn lemma_present(parts: Seq<Option<Seq<u8>>>, i: int, b: Seq<u8>)
    requires
        0 <= i < parts.len(),
    ensures
        present(parts.update(i, Some(b))) == present(parts) + if parts[i] is None {
            1nat
        } else {
            0
        },
        present(parts) <= parts.len(),
    decreases parts.len(),
{
    let u = parts.update(i, Some(b));
    if i == parts.len() - 1 {
        assert(u.drop_last() == parts.drop_last());
        lemma_present_bound(parts.drop_last());
    } else {
        assert(u.drop_last() == parts.drop_last().update(i, Some(b)));
        lemma_present(parts.drop_last(), i, b);
    }
}

proof fn lemma_present_bound(parts: Seq<Option<Seq<u8>>>)
    ensures
        present(parts) <= parts.len(),
    decreases parts.len(),
{
    if parts.len() > 0 {
        lemma_present_bound(parts.drop_last());
    }
}

proof fn lemma_present_none(n: nat)
    ensures
        present(Seq::new(n, |i: int| None::<Seq<u8>>)) == 0,
    decreases n,
{
    if n > 0 {
        let s = Seq::new(n, |i: int| None::<Seq<u8>>);
        assert(s.drop_last() == Seq::new((n - 1) as nat, |i: int| None::<Seq<u8>>));
        lemma_present_none((n - 1) as nat);
    }
}

/// The buffer of a message of which nothing has come.
pub open spec fn fresh(total: int, now: u64) -> BufV {
    BufV { parts: Seq::new(total as nat, |i: int| None::<Seq<u8>>), bytes: 0, first_seen: now }
}

/// What a chunk leaves of the unfinished messages, and the message that it
/// completes. A chunk that counts its message differently, or that makes it too
/// large, has the message dropped.
pub open spec fn chunk_step(
    m: Map<u64, BufV>,
    id: u64,
    seq: int,
    total: int,
    payload: Seq<u8>,
    now: u64,
) -> (Map<u64, BufV>, Option<Seq<u8>>) {
    let b = if m.contains_key(id) {
        m[id]
    } else {
        fresh(total, now)
    };
    let news = b.parts[seq] is None;
    let bytes = if news {
        b.bytes + payload.len()
    } else {
        b.bytes
    };
    let parts = b.parts.update(seq, Some(payload));
    if b.parts.len() != total || (news && bytes > CHUNK_MAX_MESSAGE_BYTES) {
        (m.remove(id), None)
    } else if present(parts) < total {
        (m.insert(id, BufV { parts, bytes, first_seen: b.first_seen }), None)
    } else {
        (m.remove(id), Some(whole(parts)))
    }
}

/// Whether the header of a chunk makes sense.
pub open spec fn chunk_header_ok(data: Seq<u8>) -> bool {
    0 < data[11] <= CHUNK_MAX_TOTAL && data[10] < data[11]
}

/// What the datagram of a chunk does.
pub open spec fn chunk_handled(m: Map<u64, BufV>, data: Seq<u8>, now: u64, timeout: u64) -> (
    Map<u64, BufV>,
    Option<Seq<u8>>,
) {
    if chunk_header_ok(data) {
        chunk_step(
            swept(m, now, timeout),
            be(data.subrange(2, 10)) as u64,
            data[10] as int,
            data[11] as int,
            data.subrange(12, data.len() as int),
            now,
        )
    } else {
        (m, None)
    }
}

/// The bytes of a payload that may be there.
pub open spec fn opt_bytes(o: Option<Vec<u8>>) -> Option<Seq<u8>> {
    match o {
        Some(b) => Some(b@),
        None => None,
    }
}

fn join_parts(parts: &Vec<Option<Vec<u8>>>) -> (r: Vec<u8>)
    ensures
        r@ == whole(Seq::new(parts@.len(), |i: int| part_view(parts@[i]))),
{
    let ghost all = Seq::new(parts@.len(), |i: int| part_view(parts@[i]));
    let mut out: Vec<u8> = Vec::new();
    for i in 0..parts.len()
        invariant
            all == Seq::new(parts@.len(), |i: int| part_view(parts@[i])),
            out@ == whole(all.take(i as int)),
    {
        assert(all.take(i + 1).drop_last() == all.take(i as int));
        match &parts[i] {
            Some(b) => push_all(&mut out, b.as_slice()),
            None => {
                assert(out@ + Seq::<u8>::empty() == out@);
            },
        }
    }
    assert(all.take(all.len() as int) == all);
    out
}

/// Handles the datagram of a chunk. The payload comes back with the last chunk of
/// its message.
pub fn handle_chunk(
    chunks: &mut Chunks,
    data: &[u8],
    now: u64,
    timeout: u64,
    since_sweep: &mut usize,
) -> (r: Option<Vec<u8>>)
    requires
        old(chunks).wf(),
        data@.len() >= CHUNK_HEADER,
    ensures
        final(chunks).wf(),
        (final(chunks)@, opt_bytes(r)) == chunk_handled(old(chunks)@, data@, now, timeout),
        *final(since_sweep) == if chunk_header_ok(data@) {
            0
        } else {
            *old(since_sweep)
        },
{
    let seq: usize = data[10] as usize;
    let total: usize = data[11] as usize;
    if total == 0 || total > CHUNK_MAX_TOTAL || seq >= total {
        return None;
    }
    proof {
        lemma_be_bound(data@.subrange(2, 10));
    }
    let id: u64 = be_number(slice_subrange(data, 2, 10));
    sweep_expired(chunks, now, timeout);
    *since_sweep = 0;
    let ghost m = chunks@;
    let ghost payload = data@.subrange(12, data@.len() as int);
    let mut buf = match chunks.take_buf(id) {
        Some(b) => b,
        None => fresh_buf(id, total, now),
    };
    let ghost was = buf@;
    if buf.parts.len() != total {
        return None;
    }
    proof {
        lemma_present(was.parts, seq as int, payload);
    }
    let part = slice_to_vec(slice_subrange(data, CHUNK_HEADER, data.len()));
    if buf.parts[seq].is_none() {
        if part.len() > CHUNK_MAX_MESSAGE_BYTES - buf.bytes {
            return None;
        }
        buf.received = buf.received + 1;
        buf.bytes = buf.bytes + part.len();
    }
    buf.parts.set(seq, Some(part));
    assert(buf@.parts =~= was.parts.update(seq as int, Some(payload)));
    if buf.received < total {
        chunks.put_buf(buf);
        assert(chunks@ =~= m.insert(id, buf@));
        return None;
    }
    Some(join_parts(&buf.parts))
}

fn fresh_buf(id: u64, total: usize, now: u64) -> (r: ChunkBuf)
    requires
        0 < total <= CHUNK_MAX_TOTAL,
    ensures
        r.wf(),
        r.id == id,
        r@ == fresh(total as int, now),
{
    let mut parts: Vec<Option<Vec<u8>>> = Vec::new();
    for i in 0..total
        invariant
            parts@.len() == i,
            forall|k: int| 0 <= k < i ==> (#[trigger] parts@[k]) is None,
    {
        parts.push(None);
    }
    let r = ChunkBuf { id, parts, received: 0, bytes: 0, first_seen: now };
    assert(r@.parts =~= fresh(total as int, now).parts);
    proof {
        lemma_present_none(total as nat);
    }
    r
}

// ---------------------------------------------------------------------
// Datagrams and frames
// ---------------------------------------------------------------------
/// What has come over UDP and is not complete.
pub struct Reassembly {
    pub chunks: Chunks,
    /// How many datagrams have come since the last sweep.
    pub since_sweep: usize,
}

/// Whether a datagram is a chunk.
pub open spec fn is_chunk(data: Seq<u8>) -> bool {
    data.len() >= CHUNK_HEADER && data[0] == 0x1e && data[1] == 0x0f
}

/// What a datagram does to the unfinished messages, before stale ones are swept
/// out, and the payload that it completes.
pub open spec fn datagram_step(m: Map<u64, BufV>, data: Seq<u8>, now: u64, timeout: u64) -> (
    Map<u64, BufV>,
    Option<Seq<u8>>,
) {
    if is_chunk(data) {
        chunk_handled(m, data, now, timeout)
    } else {
        (m, Some(data))
    }
}

/// How many datagrams have come since the last sweep, with this one.
pub open spec fn datagram_count(since: int, data: Seq<u8>) -> int {
    if is_chunk(data) && chunk_header_ok(data) {
        1
    } else {
        since + 1
    }
}

impl Reassembly {
    /// The unfinished messages are in order, and a sweep is not overdue.
    pub open spec fn wf(&self) -> bool {
        self.chunks.wf() && self.since_sweep < SWEEP_EVERY
    }

    /// Nothing has come.
    pub fn new() -> (r: Reassembly)
        ensures
            r.wf(),
            r.chunks@ == Map::<u64, BufV>::empty(),
            r.since_sweep == 0,
    {
        Reassembly { chunks: Chunks::new(), since_sweep: 0 }
    }

    /// Takes a datagram. A payload comes back when it is complete.
    pub fn receive(&mut self, data: &[u8], now: u64, timeout: u64) -> (r: Option<Vec<u8>>)
        requires
            old(self).wf(),
        ensures
            final(self).wf(),
            opt_bytes(r) == datagram_step(old(self).chunks@, data@, now, timeout).1,
            ({
                let m = datagram_step(old(self).chunks@, data@, now, timeout).0;
                let n = datagram_count(old(self).since_sweep as int, data@);
                if n >= SWEEP_EVERY || m.dom().len() > MANY_MESSAGES {
                    final(self).chunks@ == swept(m, now, timeout) && final(self).since_sweep == 0
                } else {
                    final(self).chunks@ == m && final(self).since_sweep == n
                }
            }),
    {
        let payload = if data.len() >= CHUNK_HEADER && data[0] == 0x1e && data[1] == 0x0f {
            handle_chunk(&mut self.chunks, data, now, timeout, &mut self.since_sweep)
        } else {
            Some(slice_to_vec(data))
        };
        self.since_sweep = self.since_sweep + 1;
        proof {
            lemma_bufs_count(self.chunks.bufs@);
        }
        if self.since_sweep >= SWEEP_EVERY || self.chunks.bufs.len() > MANY_MESSAGES {
            sweep_expired(&mut self.chunks, now, timeout);
            self.since_sweep = 0;
        }
        payload
    }
}

/// The message of a frame that was read up to a zero byte.
pub open spec fn unframed(frame: Seq<u8>) -> Seq<u8> {
    if frame.len() > 0 && frame.last() == 0 {
        frame.drop_last()
    } else {
        frame
    }
}

/// The message of a frame that was read up to a zero byte, unless it is empty.
pub fn frame_payload(frame: &[u8]) -> (r: Option<Vec<u8>>)
    ensures
        opt_bytes(r) == (if unframed(frame@).len() == 0 {
            None
        } else {
            Some(unframed(frame@))
        }),
{
    let mut n: usize = frame.len();
    if n > 0 && frame[n - 1] == 0 {
        n = n - 1;
    }
    let body = slice_to_vec(slice_subrange(frame, 0, n));
    assert(body@ == unframed(frame@));
    if n == 0 {
        None
    } else {
        Some(body)
    }
}

// ---------------------------------------------------------------------
// Packing
// ---------------------------------------------------------------------
/// What a gzip stream holds.
pub uninterp spec fn gunzipped(bytes: Seq<u8>) -> Option<Seq<u8>>;

/// What a zlib stream holds.
pub uninterp spec fn inflated(bytes: Seq<u8>) -> Option<Seq<u8>>;

/// `flate2`'s `GzDecoder`, reading to the end of the first member of a gzip
/// stream. The bytes, or that there are none, depend on the stream alone.
#[verifier::external_body]
fn gunzip(bytes: &[u8]) -> (r: Option<Vec<u8>>)
    ensures
        opt_bytes(r) == gunzipped(bytes@),
{
    let mut out = Vec::new();
    match std::io::Read::read_to_end(&mut flate2::read::GzDecoder::new(bytes), &mut out) {
        Ok(_) => Some(out),
        Err(_) => None,
    }
}

/// `flate2`'s `ZlibDecoder`, reading a zlib stream to its end. The bytes, or that
/// there are none, depend on the stream alone.
#[verifier::external_body]
fn inflate(bytes: &[u8]) -> (r: Option<Vec<u8>>)
    ensures
        opt_bytes(r) == inflated(bytes@),
{
    let mut out = Vec::new();
    match std::io::Read::read_to_end(&mut flate2::read::ZlibDecoder::new(bytes), &mut out) {
        Ok(_) => Some(out),
        Err(_) => None,
    }
}

/// A payload without its packing, which its first bytes announce.
pub open spec fn unpacked(data: Seq<u8>) -> Option<Seq<u8>> {
    if data.len() >= 2 && data[0] == 0x1f && data[1] == 0x8b {
        gunzipped(data)
    } else if data.len() > 0 && data[0] % 16 == 8 {
        inflated(data)
    } else {
        Some(data)
    }
}

/// A payload without its packing.
pub fn decompress(data: &[u8]) -> (r: Option<Vec<u8>>)
    ensures
        opt_bytes(r) == unpacked(data@),
{
    if data.len() >= 2 && data[0] == 0x1f && data[1] == 0x8b {
        return gunzip(data);
    }
    if data.len() > 0 && data[0] % 16 == 8 {
        return inflate(data);
    }
    Some(slice_to_vec(data))
}

// ---------------------------------------------------------------------
// Envelopes
// ---------------------------------------------------------------------
/// The level of a syslog severity.
pub open spec fn int_level(n: int) -> Seq<char> {
    if 0 <= n <= 2 {
        "fatal"@
    } else if n == 3 {
        "error"@
    } else if n == 4 {
        "warn"@
    } else if n == 5 || n == 6 {
        "info"@
    } else {
        "debug"@
    }
}

/// The level of a syslog severity.
pub fn gelf_int_level(n: i64) -> (r: &'static str)
    ensures
        r@ == int_level(n as int),
{
    if 0 <= n && n <= 2 {
        "fatal"
    } else if n == 3 {
        "error"
    } else if n == 4 {
        "warn"
    } else if n == 5 || n == 6 {
        "info"
    } else {
        "debug"
    }
}

/// The level of a message.
pub open spec fn gelf_level(v: Option<JsonV>) -> Seq<char> {
    match v {
        Some(JsonV::Num(t)) => int_level(
            match parse_i64_text(t) {
                Some(n) => n as int,
                None => 6,
            },
        ),
        Some(JsonV::Str(s)) => if s.len() > 0 {
            s
        } else {
            "info"@
        },
        _ => "info"@,
    }
}

fn level_text(v: Option<&Json>) -> (r: String)
    ensures
        r@ == gelf_level(match v {
            Some(v) => Some(v@),
            None => None,
        }),
{
    match v {
        Some(Json::Num(n)) => match parse_i64(n.as_str()) {
            Some(i) => gelf_int_level(i).to_owned(),
            None => gelf_int_level(6).to_owned(),
        },
        Some(Json::Str(s)) => if s.as_str().is_empty() {
            "info".to_owned()
        } else {
            s.clone()
        },
        _ => "info".to_owned(),
    }
}

/// The service of a message: its container without the leading slash, else its
/// facility.
pub open spec fn gelf_service(v: JsonV) -> Option<Seq<char>> {
    let facility = text_in(field(v, "facility"@));
    match text_in(field(v, "_container_name"@)) {
        Some(t) => if trim_start_by(t, just('/')).len() > 0 {
            Some(trim_start_by(t, just('/')))
        } else {
            facility
        },
        None => facility,
    }
}

fn service_of(v: &Json) -> (r: Option<String>)
    ensures
        opt_text(r) == gelf_service(v@),
{
    let facility = match v.get_str("facility") {
        Some(s) => Some(s.to_owned()),
        None => None,
    };
    match v.get_str("_container_name") {
        Some(t) => {
            let name = trim_start_char(t, '/');
            if name.as_str().is_empty() {
                facility
            } else {
                Some(name)
            }
        },
        None => facility,
    }
}

/// The fields of a message that are not carried over under their names.
pub open spec fn gelf_reserved() -> Set<Seq<char>> {
    set!["version"@, "host"@, "short_message"@, "full_message"@, "timestamp"@, "level"@]
}

/// What a message carries besides its standard fields.
pub open spec fn gelf_extras(v: JsonV) -> Map<Seq<char>, JsonV> {
    let extras = match v {
        JsonV::Obj(m) => m.remove_keys(gelf_reserved()),
        _ => Map::empty(),
    };
    match text_in(field(v, "full_message"@)) {
        Some(t) => if t.len() > 0 {
            extras.insert("full_message"@, JsonV::Str(t))
        } else {
            extras
        },
        None => extras,
    }
}

fn extras_of(v: &Json) -> (r: JsonMap)
    ensures
        r@ == gelf_extras(v@),
{
    let mut names: Vec<String> = Vec::new();
    names.push("version".to_owned());
    names.push("host".to_owned());
    names.push("short_message".to_owned());
    names.push("full_message".to_owned());
    names.push("timestamp".to_owned());
    names.push("level".to_owned());
    proof {
        let t = texts(names@);
        assert(t[0] == "version"@ && t[1] == "host"@ && t[2] == "short_message"@);
        assert(t[3] == "full_message"@ && t[4] == "timestamp"@ && t[5] == "level"@);
        assert(t.to_set() =~= gelf_reserved());
    }
    let mut extras = match v.as_object() {
        Some(m) => m.without(names.as_slice()),
        None => JsonMap::new(),
    };
    if let Some(full) = v.get_str("full_message") {
        if !full.is_empty() {
            extras.insert_str("full_message", full);
        }
    }
    extras
}

/// The envelope of a message, before its extras.
pub open spec fn gelf_base(v: JsonV, now: Timestamp) -> Map<Seq<char>, JsonV> {
    let message = match text_in(field(v, "short_message"@)) {
        Some(t) => t,
        None => Seq::empty(),
    };
    let base = Map::<Seq<char>, JsonV>::empty().insert("message"@, JsonV::Str(message)).insert(
        "level"@,
        JsonV::Str(gelf_level(field(v, "level"@))),
    );
    let served = match gelf_service(v) {
        Some(s) => base.insert("service"@, JsonV::Str(s)),
        None => base,
    };
    let hosted = match field(v, "host"@) {
        None | Some(JsonV::Null) => served,
        Some(h) => served.insert("host"@, h),
    };
    hosted.insert(
        "ts"@,
        match field(v, "timestamp"@) {
            Some(JsonV::Num(t)) => JsonV::Num(t),
            _ => JsonV::Str(rfc3339_text(now.secs, now.nanos)),
        },
    )
}

/// The envelope of a message. Its extras ride beside the standard fields, and count
/// before them.
pub open spec fn gelf_envelope(v: JsonV, now: Timestamp) -> Map<Seq<char>, JsonV> {
    gelf_base(v, now).union_prefer_right(gelf_extras(v))
}

fn envelope_of(v: &Json, now: Timestamp) -> (r: JsonMap)
    ensures
        r@ == gelf_envelope(v@, now),
{
    let mut out = JsonMap::new();
    match v.get_str("short_message") {
        Some(t) => out.insert_str("message", t),
        None => {
            let none = String::new();
            out.insert_str("message", none.as_str());
        },
    }
    out.insert("level", Json::Str(level_text(v.get("level"))));
    if let Some(s) = service_of(v) {
        out.insert("service", Json::Str(s));
    }
    if let Some(h) = v.get("host") {
        match h {
            Json::Null => {},
            _ => out.insert("host", h.clone()),
        }
    }
    match v.get("timestamp") {
        Some(Json::Num(n)) => out.insert("ts", Json::Num(n.clone())),
        _ => out.insert("ts", Json::Str(to_rfc3339(now))),
    }
    out.extend(&extras_of(v));
    out
}

/// Maps a message to an envelope.
pub fn gelf_to_envelope(v: &Json, now: Timestamp) -> (r: Json)
    ensures
        r@ == JsonV::Obj(gelf_envelope(v@, now)),
{
    broadcast use lemma_json_view;

    Json::Obj(envelope_of(v, now))
}

/// Turns a payload into a record, unless it cannot be unpacked or read.
pub fn payload_record(payload: &[u8], peer: &str, now: Timestamp) -> (r: Option<RawRecord>)
    ensures
        match unpacked(payload@) {
            None => r is None,
            Some(body) => match json_read_bytes(body) {
                Err(_) => r is None,
                Ok(v) => r matches Some(rec) && carries(
                    rec,
                    now,
                    peer@,
                    Protocol::Gelf,
                    gelf_envelope(v, now),
                ),
            },
        },
{
    match decompress(payload) {
        None => None,
        Some(body) => match read_json_bytes(body.as_slice()) {
            Err(_) => None,
            Ok(v) => Some(envelope_record(now, peer, Protocol::Gelf, envelope_of(&v, now))),
        },
    }
}

} // verus!

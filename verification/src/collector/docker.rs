//! The logs of containers, pulled from the Docker Engine: which containers are
//! followed, and how the stream of a container is taken apart.
use vstd::prelude::*;
use vstd::slice::{slice_subrange, slice_to_vec};
use vstd::string::*;

use crate::{Protocol, RawRecord};
use crate::ai::first_item;
use crate::collector::{
    complete_lines, drain_lines, line_envelope, line_string, line_to_string, lines_view,
    log_envelope, match_any, matches_any, split_timestamp_prefix, timed, unfinished,
};
use crate::config::DockerCollectorConfig;
use crate::insert::envelope::{carries, sourceless_record};
use crate::insert::msgpack::{be, be_number, lemma_be_bound};
use crate::insert::otlp::{put_unless_empty, unless_empty};
use crate::json::{Json, JsonMap, JsonV, field, jsons_view, text_in, text_or};
use crate::text::{
    after_prefix, cat3, dec, dec_of, first_chars, just, list_contains, lossy_text, opt_text,
    push_all, same, strip_prefix, take_chars, text_lossy, texts, trim, trim_char, trim_end_by,
    trim_end_char, trim_start_by, trim_start_char, trimmed,
};
use crate::time::Timestamp;

verus! {

// ---------------------------------------------------------------------
// Endpoints and paths
// ---------------------------------------------------------------------
/// Where the Docker Engine listens.
#[derive(Debug, Clone)]
pub enum Endpoint {
    Unix(String),
    Tcp(String),
}

/// What an [`Endpoint`] says: a path and whether it is that of a socket.
pub open spec fn endpoint_in(s: Seq<char>) -> Option<(bool, Seq<char>)> {
    let t = trim(s);
    match after_prefix(t, "unix://"@) {
        Some(path) => Some((true, path)),
        None => {
            let addr = match after_prefix(t, "tcp://"@) {
                Some(a) => Some(a),
                None => after_prefix(t, "http://"@),
            };
            match addr {
                Some(a) => Some((false, trim_end_by(a, just('/')))),
                None => None,
            }
        },
    }
}

impl Endpoint {
    /// Reads where the Docker Engine listens.
    pub fn parse(s: &str) -> (r: Result<Endpoint, String>)
        ensures
            match r {
                Ok(Endpoint::Unix(p)) => endpoint_in(s@) == Some((true, p@)),
                Ok(Endpoint::Tcp(a)) => endpoint_in(s@) == Some((false, a@)),
                Err(m) => endpoint_in(s@) is None && m@
                    == "endpoint must be unix://… or tcp://…"@,
            },
    {
        let t = trimmed(s);
        if let Some(path) = strip_prefix(t.as_str(), "unix://") {
            return Ok(Endpoint::Unix(path));
        }
        let addr = match strip_prefix(t.as_str(), "tcp://") {
            Some(a) => Some(a),
            None => strip_prefix(t.as_str(), "http://"),
        };
        match addr {
            Some(a) => Ok(Endpoint::Tcp(trim_end_char(a.as_str(), '/'))),
            None => Err("endpoint must be unix://… or tcp://…".to_owned()),
        }
    }
}

/// A path below the version of the interface, if one is set.
pub open spec fn versioned(version: Seq<char>, suffix: Seq<char>) -> Seq<char> {
    let v = trim_end_by(trim_start_by(trim(version), just('/')), just('/'));
    if v.len() == 0 {
        suffix
    } else {
        "/"@ + v + suffix
    }
}

/// A path below the version of the interface, if one is set.
pub fn containers_path(cfg: &DockerCollectorConfig, suffix: &str) -> (r: String)
    ensures
        r@ == versioned(cfg.api_version@, suffix@),
{
    let t = trimmed(cfg.api_version.as_str());
    let v = trim_char(t.as_str(), '/');
    if v.as_str().is_empty() {
        suffix.to_owned()
    } else {
        cat3("/", v.as_str(), suffix)
    }
}

/// The path to what is known of a container.
pub fn inspect_path(cfg: &DockerCollectorConfig, id: &str) -> (r: String)
    ensures
        r@ == versioned(cfg.api_version@, "/containers/"@ + id@ + "/json"@),
{
    let s = cat3("/containers/", id, "/json");
    containers_path(cfg, s.as_str())
}

/// The path to the stream of a container's log.
pub fn logs_path(cfg: &DockerCollectorConfig, id: &str) -> (r: String)
    ensures
        r@ == versioned(
            cfg.api_version@,
            "/containers/"@ + id@
                + "/logs?follow=true&stdout=true&stderr=true&timestamps=true&tail="@ + dec(
                cfg.tail_lines as nat,
            ),
        ),
{
    let tail = dec_of(cfg.tail_lines);
    let mut s = cat3(
        "/containers/",
        id,
        "/logs?follow=true&stdout=true&stderr=true&timestamps=true&tail=",
    );
    s.append(tail.as_str());
    containers_path(cfg, s.as_str())
}

/// Whether a container has a terminal, and so streams its log as it is.
pub open spec fn has_terminal(inspect: JsonV) -> bool {
    match field(inspect, "Config"@) {
        Some(c) => field(c, "Tty"@) == Some(JsonV::Bool(true)),
        None => false,
    }
}

/// Whether a container has a terminal.
pub fn inspect_tty(inspect: &Json) -> (r: bool)
    ensures
        r == has_terminal(inspect@),
{
    match inspect.get("Config") {
        Some(c) => match c.get("Tty") {
            Some(Json::Bool(b)) => *b,
            _ => false,
        },
        None => false,
    }
}

// ---------------------------------------------------------------------
// Which containers are followed
// ---------------------------------------------------------------------
/// A container to be followed.
#[derive(Debug, Clone)]
pub struct Container {
    pub id: String,
    pub name: String,
    pub image: String,
}

/// What a [`Container`] says.
#[verifier::ext_equal]
pub struct ContainerV {
    pub id: Seq<char>,
    pub name: Seq<char>,
    pub image: Seq<char>,
}

impl View for Container {
    type V = ContainerV;

    open spec fn view(&self) -> ContainerV {
        ContainerV { id: self.id@, name: self.name@, image: self.image@ }
    }
}

/// What containers say.
pub open spec fn containers_view(v: Seq<Container>) -> Seq<ContainerV> {
    Seq::new(v.len(), |i: int| v[i]@)
}

/// A container's name: its first one without the slash, else the start of its id.
pub open spec fn container_name(item: JsonV, id: Seq<char>) -> Seq<char> {
    match text_in(first_item(field(item, "Names"@))) {
        Some(n) => trim_start_by(n, just('/')),
        None => first_chars(id, 12),
    }
}

/// Whether a name is to be followed: it is listed, where there is a list, and not
/// excluded.
pub open spec fn wanted(
    name: Seq<char>,
    listed: Seq<Seq<char>>,
    excluded: Seq<Seq<char>>,
) -> bool {
    (listed.len() == 0 || matches_any(listed, name)) && !matches_any(excluded, name)
}

/// The container of an item of a list, if it is to be followed.
pub open spec fn candidate(
    item: JsonV,
    listed: Seq<Seq<char>>,
    excluded: Seq<Seq<char>>,
) -> Option<ContainerV> {
    match text_in(field(item, "Id"@)) {
        None => None,
        Some(id) => if wanted(container_name(item, id), listed, excluded) {
            Some(
                ContainerV {
                    id,
                    name: container_name(item, id),
                    image: text_or(field(item, "Image"@), Seq::empty()),
                },
            )
        } else {
            None
        },
    }
}

/// The containers that are to be followed and are not followed yet, each once.
pub open spec fn newcomers(
    items: Seq<JsonV>,
    listed: Seq<Seq<char>>,
    excluded: Seq<Seq<char>>,
    attached: Set<Seq<char>>,
) -> Seq<ContainerV>
    decreases items.len(),
{
    if items.len() == 0 {
        Seq::empty()
    } else {
        let before = newcomers(items.drop_last(), listed, excluded, attached);
        match candidate(items.last(), listed, excluded) {
            Some(c) => if attached.contains(c.id) || has_id(before, c.id) {
                before
            } else {
                before.push(c)
            },
            None => before,
        }
    }
}

/// Whether a container is among others.
pub open spec fn has_id(v: Seq<ContainerV>, id: Seq<char>) -> bool {
    exists|i: int| 0 <= i < v.len() && (#[trigger] v[i]).id == id
}

fn name_of(item: &Json, id: &str) -> (r: String)
    ensures
        r@ == container_name(item@, id@),
{
    if let Some(names) = item.get("Names") {
        if let Some(list) = names.as_array() {
            if list.len() > 0 {
                assert(jsons_view(list@)[0] == list@[0]@);
                if let Some(n) = list[0].as_str() {
                    return trim_start_char(n, '/');
                }
            }
        }
    }
    take_chars(id, 12)
}

fn candidate_of(item: &Json, cfg: &DockerCollectorConfig) -> (r: Option<Container>)
    ensures
        match r {
            Some(c) => candidate(item@, texts(cfg.include_names@), texts(cfg.exclude@)) == Some(
                c@,
            ),
            None => candidate(item@, texts(cfg.include_names@), texts(cfg.exclude@)) is None,
        },
{
    let id = match item.get_str("Id") {
        Some(id) => id,
        None => return None,
    };
    let name = name_of(item, id);
    if cfg.include_names.len() > 0 && !match_any(&cfg.include_names, name.as_str()) {
        return None;
    }
    if match_any(&cfg.exclude, name.as_str()) {
        return None;
    }
    let none = String::new();
    Some(Container { id: id.to_owned(), name, image: item.str_or("Image", none.as_str()) })
}

fn has_container(v: &Vec<Container>, id: &str) -> (r: bool)
    ensures
        r == has_id(containers_view(v@), id@),
{
    let ghost all = containers_view(v@);
    for i in 0..v.len()
        invariant
            all == containers_view(v@),
            forall|k: int| 0 <= k < i ==> (#[trigger] all[k]).id != id@,
    {
        assert(all[i as int] == v@[i as int]@);
        if same(v[i].id.as_str(), id) {
            return true;
        }
    }
    false
}

/// The containers of a list that are to be followed and are not followed yet.
pub fn discover(list: &Json, cfg: &DockerCollectorConfig, attached: &[String]) -> (r: Result<
    Vec<Container>,
    String,
>)
    ensures
        match list@ {
            JsonV::Arr(items) => r matches Ok(v) && containers_view(v@) == newcomers(
                items,
                texts(cfg.include_names@),
                texts(cfg.exclude@),
                texts(attached@).to_set(),
            ),
            _ => r matches Err(m) && m@ == "containers list is not an array"@,
        },
{
    let items = match list.as_array() {
        Some(items) => items,
        None => return Err("containers list is not an array".to_owned()),
    };
    let mut out: Vec<Container> = Vec::new();
    let ghost all = jsons_view(items@);
    let ghost inc = texts(cfg.include_names@);
    let ghost exc = texts(cfg.exclude@);
    let ghost att = texts(attached@).to_set();
    assert(containers_view(out@) =~= Seq::<ContainerV>::empty());
    for i in 0..items.len()
        invariant
            all == jsons_view(items@),
            inc == texts(cfg.include_names@),
            exc == texts(cfg.exclude@),
            att == texts(attached@).to_set(),
            containers_view(out@) == newcomers(all.take(i as int), inc, exc, att),
    {
        let ghost before = containers_view(out@);
        assert(all.take(i + 1).drop_last() == all.take(i as int));
        if let Some(c) = candidate_of(&items[i], cfg) {
            let known = list_contains(attached, c.id.as_str());
            if !known && !has_container(&out, c.id.as_str()) {
                let ghost v = c@;
                out.push(c);
                assert(containers_view(out@) =~= before.push(v));
            }
        }
    }
    assert(all.take(all.len() as int) == all);
    Ok(out)
}

// ---------------------------------------------------------------------
// The stream of a container
// ---------------------------------------------------------------------
/// The longest frame that is waited for.
pub const MAX_FRAME: usize = 16_777_216;

/// What has come of a stream so far, and which lines it has given.
#[verifier::ext_equal]
pub struct StreamV {
    /// The start of a line.
    pub line: Seq<u8>,
    /// The start of a frame.
    pub spill: Seq<u8>,
    /// The stream that the last frame belonged to.
    pub label: Seq<char>,
    /// The lines, each with its stream.
    pub out: Seq<(Seq<u8>, Seq<char>)>,
    /// Whether the daemon has reported an error, which ends the stream.
    pub stopped: bool,
}

/// The name of a stream.
pub open spec fn stream_name(kind: u8) -> Seq<char> {
    if kind == 2 {
        "stderr"@
    } else {
        "stdout"@
    }
}

/// Lines with a stream.
pub open spec fn labelled(lines: Seq<Seq<u8>>, label: Seq<char>) -> Seq<(Seq<u8>, Seq<char>)> {
    Seq::new(lines.len(), |i: int| (lines[i], label))
}

/// A stream that has got bytes of lines.
pub open spec fn absorbed(s: StreamV, payload: Seq<u8>) -> StreamV {
    StreamV {
        line: unfinished(s.line + payload),
        out: s.out + labelled(complete_lines(s.line + payload), s.label),
        ..s
    }
}

/// A stream that has got a frame.
pub open spec fn framed(s: StreamV, kind: u8, payload: Seq<u8>) -> StreamV {
    absorbed(StreamV { label: stream_name(kind), ..s }, payload)
}

/// What stands at the start of bytes of frames: a header of eight bytes with the
/// stream and the length, and the payload.
pub enum FrameV {
    /// More bytes are needed.
    Partial,
    /// What is there makes no sense and is dropped.
    Corrupt,
    /// A frame's payload and stream.
    Whole(Seq<u8>, u8),
}

/// What stands at the start of bytes of frames.
pub open spec fn frame_at(b: Seq<u8>) -> FrameV {
    if b.len() < 8 {
        FrameV::Partial
    } else if b[0] > 2 || be(b.subrange(4, 8)) > MAX_FRAME {
        FrameV::Corrupt
    } else if b.len() < 8 + be(b.subrange(4, 8)) {
        FrameV::Partial
    } else {
        FrameV::Whole(b.subrange(8, 8 + be(b.subrange(4, 8)) as int), b[0])
    }
}

/// The frames that one call after another takes off the start of bytes, and the bytes
/// that are left once none is taken any more.
pub open spec fn frames_in(b: Seq<u8>) -> (Seq<(Seq<u8>, u8)>, Seq<u8>)
    decreases b.len(),
{
    match frame_at(b) {
        FrameV::Partial => (Seq::empty(), b),
        FrameV::Corrupt => (Seq::empty(), Seq::empty()),
        FrameV::Whole(payload, kind) => {
            let later = frames_in(b.subrange(8 + payload.len() as int, b.len() as int));
            (seq![(payload, kind)] + later.0, later.1)
        },
    }
}

/// Whether bytes are the frame of a payload and a stream.
pub open spec fn is_frame_of(b: Seq<u8>, frame: (Seq<u8>, u8)) -> bool {
    frame_at(b) == FrameV::Whole(frame.0, frame.1) && b.len() == 8 + frame.0.len()
}

/// Pieces one after the other.
pub open spec fn put_together(pieces: Seq<Seq<u8>>) -> Seq<u8>
    decreases pieces.len(),
{
    if pieces.len() == 0 {
        Seq::empty()
    } else {
        pieces[0] + put_together(pieces.drop_first())
    }
}

/// Frames that stand one after the other are taken off one by one, in their order and
/// with their payloads. What follows them, less than a frame, is left for later.
pub proof fn law_a_run_of_frames_is_taken_apart(
    pieces: Seq<Seq<u8>>,
    frames: Seq<(Seq<u8>, u8)>,
    rest: Seq<u8>,
)
    requires
        pieces.len() == frames.len(),
        forall|i: int| 0 <= i < pieces.len() ==> is_frame_of(#[trigger] pieces[i], frames[i]),
        frame_at(rest) is Partial,
    ensures
        frames_in(put_together(pieces) + rest) == (frames, rest),
    decreases pieces.len(),
{
    let b = put_together(pieces) + rest;
    if pieces.len() == 0 {
        assert(b =~= rest);
        assert(frames =~= Seq::<(Seq<u8>, u8)>::empty());
    } else {
        let p = pieces[0];
        let later = pieces.drop_first();
        assert(is_frame_of(pieces[0], frames[0]));
        assert forall|i: int| 0 <= i < later.len() implies is_frame_of(
            #[trigger] later[i],
            frames.drop_first()[i],
        ) by {
            assert(is_frame_of(pieces[i + 1], frames[i + 1]));
        }
        law_a_run_of_frames_is_taken_apart(later, frames.drop_first(), rest);
        assert(b =~= p + (put_together(later) + rest));
        let n = p.len() as int;
        assert(b.subrange(4, 8) =~= p.subrange(4, 8));
        assert(b.subrange(8, n) =~= p.subrange(8, n));
        assert(b[0] == p[0]);
        assert(b.subrange(n, b.len() as int) =~= put_together(later) + rest);
        assert(seq![frames[0]] + frames.drop_first() =~= frames);
    }
}

/// A stream whose spilled bytes are taken apart as far as they go.
pub open spec fn unspilled(s: StreamV) -> StreamV
    decreases s.spill.len(),
{
    match frame_at(s.spill) {
        FrameV::Partial => s,
        FrameV::Corrupt => StreamV { spill: Seq::empty(), ..s },
        FrameV::Whole(payload, kind) => unspilled(
            framed(
                StreamV {
                    spill: s.spill.subrange(8 + payload.len() as int, s.spill.len() as int),
                    ..s
                },
                kind,
                payload,
            ),
        ),
    }
}

/// A stream that has got bytes of frames.
pub open spec fn demuxed(s: StreamV, b: Seq<u8>) -> StreamV
    decreases b.len(),
{
    if b.len() == 0 {
        s
    } else if s.spill.len() == 0 && b.len() >= 8 {
        let n = be(b.subrange(4, 8)) as int;
        if b[0] > 2 {
            StreamV { stopped: true, ..s }
        } else if b.len() >= 8 + n {
            demuxed(
                framed(s, b[0], b.subrange(8, 8 + n)),
                b.subrange(8 + n, b.len() as int),
            )
        } else {
            unspilled(StreamV { label: stream_name(b[0]), spill: b, ..s })
        }
    } else {
        unspilled(StreamV { spill: s.spill + b, ..s })
    }
}

/// A stream that has got bytes.
pub open spec fn received(s: StreamV, tty: bool, b: Seq<u8>) -> StreamV {
    if tty {
        absorbed(s, b)
    } else {
        demuxed(s, b)
    }
}

/// What has come of a stream so far.
pub struct LogStream {
    pub line_buf: Vec<u8>,
    pub spill: Vec<u8>,
    pub label: &'static str,
    /// The lines that have not been taken yet, each with its stream.
    pub lines: Vec<(Vec<u8>, &'static str)>,
    pub stopped: bool,
}

/// Lines that are held.
pub open spec fn held(v: Seq<(Vec<u8>, &'static str)>) -> Seq<(Seq<u8>, Seq<char>)> {
    Seq::new(v.len(), |i: int| (v[i].0@, v[i].1@))
}

impl View for LogStream {
    type V = StreamV;

    open spec fn view(&self) -> StreamV {
        StreamV {
            line: self.line_buf@,
            spill: self.spill@,
            label: self.label@,
            out: held(self.lines@),
            stopped: self.stopped,
        }
    }
}

fn stream_label(kind: u8) -> (r: &'static str)
    ensures
        r@ == stream_name(kind),
{
    if kind == 2 {
        "stderr"
    } else {
        "stdout"
    }
}

/// Takes a frame off the start of bytes, and tells its payload and stream; nothing
/// where more bytes are needed. Bytes that make no sense are dropped.
pub fn next_frame(spill: &mut Vec<u8>) -> (r: Option<(Vec<u8>, u8)>)
    ensures
        match frame_at(old(spill)@) {
            FrameV::Partial => r is None && final(spill)@ == old(spill)@,
            FrameV::Corrupt => r is None && final(spill)@ == Seq::<u8>::empty(),
            FrameV::Whole(payload, kind) => r matches Some(p) && p.0@ == payload && p.1 == kind
                && final(spill)@ == old(spill)@.subrange(
                8 + payload.len() as int,
                old(spill)@.len() as int,
            ),
        },
{
    let n: usize = spill.len();
    if n < 8 {
        return None;
    }
    let kind: u8 = spill[0];
    if kind > 2 {
        *spill = Vec::new();
        return None;
    }
    proof {
        lemma_be_bound(spill@.subrange(4, 8));
    }
    let size: u64 = be_number(slice_subrange(spill.as_slice(), 4, 8));
    if size > MAX_FRAME as u64 {
        *spill = Vec::new();
        return None;
    }
    let len: usize = size as usize;
    if n < 8 + len {
        return None;
    }
    let payload = slice_to_vec(slice_subrange(spill.as_slice(), 8, 8 + len));
    let rest = slice_to_vec(slice_subrange(spill.as_slice(), 8 + len, n));
    *spill = rest;
    Some((payload, kind))
}

impl LogStream {
    /// Nothing has come.
    pub fn new() -> (r: LogStream)
        ensures
            r@ == (StreamV {
                line: Seq::empty(),
                spill: Seq::empty(),
                label: ""@,
                out: Seq::empty(),
                stopped: false,
            }),
    {
        let r = LogStream {
            line_buf: Vec::new(),
            spill: Vec::new(),
            label: "",
            lines: Vec::new(),
            stopped: false,
        };
        assert(held(r.lines@) =~= Seq::<(Seq<u8>, Seq<char>)>::empty());
        r
    }

    fn absorb(&mut self, payload: &[u8])
        ensures
            final(self)@ == absorbed(old(self)@, payload@),
    {
        let ghost start = self@;
        push_all(&mut self.line_buf, payload);
        let got = drain_lines(&mut self.line_buf);
        let n: usize = got.len();
        let ghost all = complete_lines(start.line + payload@);
        assert(start.out + labelled(all.take(0), start.label) =~= start.out);
        let mut got = got;
        let ghost whole = got@;
        let label = self.label;
        let mut i: usize = 0;
        while i < n
            invariant
                i <= n,
                n == whole.len(),
                got@ == whole,
                all == lines_view(whole),
                label@ == start.label,
                self.label@ == start.label,
                self.spill@ == start.spill,
                self.stopped == start.stopped,
                self.line_buf@ == unfinished(start.line + payload@),
                held(self.lines@) == start.out + labelled(all.take(i as int), start.label),
            decreases n - i,
        {
            let ghost before = held(self.lines@);
            let line = slice_to_vec(got[i].as_slice());
            self.lines.push((line, label));
            assert(held(self.lines@) =~= before.push((all[i as int], start.label)));
            assert(start.out + labelled(all.take(i + 1), start.label) =~= before.push(
                (all[i as int], start.label),
            ));
            i = i + 1;
        }
        assert(all.take(n as int) == all);
    }

    fn unspill(&mut self)
        ensures
            final(self)@ == unspilled(old(self)@),
    {
        loop
            invariant
                unspilled(self@) == unspilled(old(self)@),
            decreases self.spill@.len(),
        {
            let ghost before = self@;
            match next_frame(&mut self.spill) {
                None => {
                    assert(self@ == unspilled(before));
                    return;
                },
                Some(p) => {
                    self.label = stream_label(p.1);
                    self.absorb(p.0.as_slice());
                },
            }
        }
    }

    fn demux(&mut self, b: &[u8])
        ensures
            final(self)@ == demuxed(old(self)@, b@),
    {
        let n: usize = b.len();
        let mut at: usize = 0;
        assert(b@.subrange(0, n as int) == b@);
        while at < n
            invariant
                at <= n,
                n == b@.len(),
                demuxed(self@, b@.subrange(at as int, n as int)) == demuxed(old(self)@, b@),
            decreases n - at,
        {
            let ghost left = b@.subrange(at as int, n as int);
            let rest = slice_subrange(b, at, n);
            if self.spill.len() > 0 || n - at < 8 {
                push_all(&mut self.spill, rest);
                self.unspill();
                return;
            }
            proof {
                lemma_be_bound(left.subrange(4, 8));
            }
            let kind: u8 = rest[0];
            let size: u64 = be_number(slice_subrange(rest, 4, 8));
            if kind > 2 {
                self.stopped = true;
                return;
            }
            self.label = stream_label(kind);
            if size > (n - at - 8) as u64 {
                push_all(&mut self.spill, rest);
                assert(self.spill@ =~= left);
                self.unspill();
                return;
            }
            let len: usize = size as usize;
            self.absorb(slice_subrange(rest, 8, 8 + len));
            at = at + 8 + len;
            assert(left.subrange(8 + len as int, left.len() as int) =~= b@.subrange(
                at as int,
                n as int,
            ));
        }
    }

    /// Takes bytes of the stream. A container with a terminal streams lines, any
    /// other one frames.
    pub fn receive(&mut self, tty: bool, data: &[u8])
        ensures
            final(self)@ == received(old(self)@, tty, data@),
    {
        if tty {
            self.absorb(data);
        } else {
            self.demux(data);
        }
    }

    /// Takes the lines that are complete, as texts with their streams.
    pub fn take_lines(&mut self) -> (r: Vec<(String, &'static str)>)
        ensures
            r@.len() == old(self)@.out.len(),
            forall|i: int|
                0 <= i < r@.len() ==> (#[trigger] r@[i]).0@ == line_string(old(self)@.out[i].0)
                    && r@[i].1@ == old(self)@.out[i].1,
            final(self)@ == (StreamV { out: Seq::empty(), ..old(self)@ }),
    {
        let mut out: Vec<(String, &'static str)> = Vec::new();
        let n: usize = self.lines.len();
        let ghost all = self@.out;
        for i in 0..n
            invariant
                n == self.lines@.len(),
                all == held(self.lines@),
                *self == *old(self),
                out@.len() == i,
                forall|k: int|
                    0 <= k < i ==> (#[trigger] out@[k]).0@ == line_string(all[k].0)
                        && out@[k].1@ == all[k].1,
        {
            out.push((line_to_string(self.lines[i].0.as_slice()), self.lines[i].1));
        }
        self.lines = Vec::new();
        assert(held(self.lines@) =~= Seq::<(Seq<u8>, Seq<char>)>::empty());
        out
    }

    /// The start of a line that was left when the stream ended.
    pub fn remainder(&self) -> (r: Option<String>)
        ensures
            opt_text(r) == (if self@.line.len() == 0 || self.stopped {
                None
            } else {
                Some(lossy_text(self@.line))
            }),
    {
        if self.line_buf.len() == 0 || self.stopped {
            None
        } else {
            Some(text_lossy(self.line_buf.as_slice()))
        }
    }
}

/// What a line of a container carries besides its standard fields.
pub open spec fn container_attrs(id: Seq<char>, image: Seq<char>, label: Seq<char>) -> Map<
    Seq<char>,
    JsonV,
> {
    unless_empty(
        unless_empty(
            Map::<Seq<char>, JsonV>::empty().insert("container_id"@, JsonV::Str(id)),
            "image"@,
            image,
        ),
        "stream"@,
        label,
    )
}

/// The envelope of a line of a container.
pub open spec fn container_envelope(
    c: ContainerV,
    label: Seq<char>,
    line: Seq<char>,
    now: Timestamp,
) -> Map<Seq<char>, JsonV> {
    let (ts, message) = timed(line);
    line_envelope(
        message,
        if label == "stderr"@ {
            "error"@
        } else {
            "info"@
        },
        c.name,
        match ts {
            Some(t) => t,
            None => now,
        },
        container_attrs(c.id, c.image, label),
    )
}

/// The record of a line of a container, unless the line is empty.
pub fn line_record(c: &Container, label: &str, line: &str, now: Timestamp) -> (r: Option<RawRecord>)
    ensures
        match r {
            None => line@.len() == 0,
            Some(rec) => line@.len() > 0 && carries(
                rec,
                now,
                Seq::empty(),
                Protocol::DockerApi,
                container_envelope(c@, label@, line@, now),
            ),
        },
{
    if line.is_empty() {
        return None;
    }
    let (ts, message) = split_timestamp_prefix(line);
    let level = if same(label, "stderr") {
        "error"
    } else {
        "info"
    };
    let mut attrs = JsonMap::new();
    attrs.insert_str("container_id", c.id.as_str());
    put_unless_empty(&mut attrs, "image", c.image.as_str());
    put_unless_empty(&mut attrs, "stream", label);
    let envelope = log_envelope(message.as_str(), level, c.name.as_str(), ts, now, &attrs);
    Some(sourceless_record(now, Protocol::DockerApi, envelope))
}

// ---------------------------------------------------------------------
// Laws
// ---------------------------------------------------------------------
/// Whether bytes are one frame that makes sense.
pub open spec fn is_frame(f: Seq<u8>) -> bool {
    &&& f.len() >= 8
    &&& f[0] <= 2
    &&& be(f.subrange(4, 8)) <= MAX_FRAME
    &&& f.len() == 8 + be(f.subrange(4, 8))
}

/// A frame may arrive in two pieces, cut anywhere: it does the same to a stream as
/// when it arrives whole.
pub proof fn law_frames_may_be_cut(s: StreamV, f: Seq<u8>, k: int)
    requires
        is_frame(f),
        s.spill.len() == 0,
        0 <= k <= f.len(),
    ensures
        demuxed(demuxed(s, f.subrange(0, k)), f.subrange(k, f.len() as int)) == demuxed(s, f),
        demuxed(s, f) == framed(s, f[0], f.subrange(8, f.len() as int)),
{
    let a = f.subrange(0, k);
    let b = f.subrange(k, f.len() as int);
    let payload = f.subrange(8, f.len() as int);
    let done = framed(s, f[0], payload);
    assert(f.subrange(f.len() as int, f.len() as int) =~= Seq::<u8>::empty());
    assert(demuxed(done, Seq::<u8>::empty()) == done);
    assert(demuxed(s, f) == done);
    if k == 0 {
        assert(a =~= Seq::<u8>::empty());
        assert(b =~= f);
    } else if k == f.len() {
        assert(a =~= f);
        assert(b =~= Seq::<u8>::empty());
    } else {
        assert(a + b =~= f);
        assert(s.spill =~= Seq::<u8>::empty());
        let label = if k >= 8 {
            stream_name(f[0])
        } else {
            s.label
        };
        if k >= 8 {
            assert(a.subrange(4, 8) =~= f.subrange(4, 8));
            assert(a[0] == f[0]);
        }
        let first = StreamV { label, spill: a, ..s };
        assert(s.spill + a =~= a);
        assert(demuxed(s, a) == unspilled(first));
        assert(frame_at(a) is Partial);
        assert(unspilled(first) == first);
        let second = StreamV { label, spill: f, ..s };
        assert(demuxed(first, b) == unspilled(second));
        let rest = StreamV { label, spill: Seq::empty(), ..s };
        assert(frame_at(f) == FrameV::Whole(payload, f[0]));
        assert(f.subrange(8 + payload.len() as int, f.len() as int) =~= Seq::<u8>::empty());
        let after = framed(rest, f[0], payload);
        assert(unspilled(second) == unspilled(after));
        assert(unspilled(after) == after);
        assert(after =~= done);
    }
}

} // verus!

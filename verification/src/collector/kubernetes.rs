//! The logs of pods, pulled from the Kubernetes API: which containers are followed,
//! and the paths and records of a container.
use vstd::prelude::*;
use vstd::string::*;
use vstd::utf8::encode_utf8;

use crate::{Protocol, RawRecord};
use crate::ai::{field_in, member_of, text_of_json};
use crate::collector::{line_envelope, log_envelope, split_timestamp_prefix, timed};
use crate::config::K8sCollectorConfig;
use crate::insert::envelope::{carries, sourceless_record};
use crate::insert::otlp::{put_unless_empty, unless_empty};
use crate::json::{Json, JsonMap, JsonV, copy_items, field, jsons_view, text_in, text_or};
use crate::text::{
    cat, cat3, dec, dec_of, just, list_contains, push_bytes, same, texts, trim, trim_end_by,
    trim_end_char, trimmed,
};
use crate::time::Timestamp;

verus! {

// ---------------------------------------------------------------------
// Paths
// ---------------------------------------------------------------------
/// Whether a byte stands for itself in the query of an address.
pub open spec fn is_unreserved(b: u8) -> bool {
    ||| 0x41 <= b <= 0x5a
    ||| 0x61 <= b <= 0x7a
    ||| 0x30 <= b <= 0x39
    ||| b == 0x2d
    ||| b == 0x5f
    ||| b == 0x2e
    ||| b == 0x7e
}

/// The upper-case character for a hexadecimal digit.
pub open spec fn upper_hex(d: int) -> char {
    if d < 10 {
        (48 + d) as char
    } else {
        (55 + d) as char
    }
}

/// A byte in the query of an address.
pub open spec fn percent(b: u8) -> Seq<char> {
    if is_unreserved(b) {
        seq![b as char]
    } else {
        seq!['%', upper_hex(b as int / 16), upper_hex(b as int % 16)]
    }
}

/// Bytes in the query of an address.
pub open spec fn percents(b: Seq<u8>) -> Seq<char>
    decreases b.len(),
{
    if b.len() == 0 {
        Seq::empty()
    } else {
        percents(b.drop_last()) + percent(b.last())
    }
}

fn upper_hex_char(d: u8) -> (r: char)
    requires
        d < 16,
    ensures
        r == upper_hex(d as int),
{
    if d < 10 {
        (48 + d) as char
    } else {
        (55 + d) as char
    }
}

/// A text in the query of an address.
pub fn urlencoding_lite(s: &str) -> (r: String)
    ensures
        r@ == percents(encode_utf8(s@)),
{
    let mut b: Vec<u8> = Vec::new();
    push_bytes(&mut b, s);
    let ghost all = encode_utf8(s@);
    assert(b@ == all);
    let n: usize = b.len();
    let mut out = String::new();
    for i in 0..n
        invariant
            n == b@.len(),
            b@ == all,
            out@ == percents(all.take(i as int)),
    {
        let c: u8 = b[i];
        let ghost before = out@;
        assert(all.take(i + 1).drop_last() == all.take(i as int));
        if (0x41 <= c && c <= 0x5a) || (0x61 <= c && c <= 0x7a) || (0x30 <= c && c <= 0x39) || c
            == 0x2d || c == 0x5f || c == 0x2e || c == 0x7e {
            out.push(c as char);
            assert(out@ =~= before + percent(c));
        } else {
            out.push('%');
            out.push(upper_hex_char(c / 16));
            out.push(upper_hex_char(c % 16));
            assert(out@ =~= before + percent(c));
        }
    }
    assert(all.take(all.len() as int) == all);
    out
}

/// The query for the labels of pods.
pub open spec fn selector(labels: Seq<char>) -> Seq<char> {
    if trim(labels).len() == 0 {
        ""@
    } else {
        "?labelSelector="@ + percents(encode_utf8(labels))
    }
}

/// The query for the labels of pods.
pub fn selector_query(cfg: &K8sCollectorConfig) -> (r: String)
    ensures
        r@ == selector(cfg.label_selector@),
{
    let t = trimmed(cfg.label_selector.as_str());
    if t.as_str().is_empty() {
        "".to_owned()
    } else {
        let q = urlencoding_lite(cfg.label_selector.as_str());
        cat("?labelSelector=", q.as_str())
    }
}

/// The path to the pods of a namespace, or of all.
pub open spec fn path_to_pods(namespace: Option<Seq<char>>, labels: Seq<char>) -> Seq<char> {
    (match namespace {
        Some(ns) => "/api/v1/namespaces/"@ + ns + "/pods"@,
        None => "/api/v1/pods"@,
    }) + selector(labels)
}

/// The path to the pods of a namespace, or of all.
pub fn pods_path(cfg: &K8sCollectorConfig, namespace: Option<&str>) -> (r: String)
    ensures
        r@ == path_to_pods(
            match namespace {
                Some(ns) => Some(ns@),
                None => None,
            },
            cfg.label_selector@,
        ),
{
    let q = selector_query(cfg);
    match namespace {
        Some(ns) => {
            let p = cat3("/api/v1/namespaces/", ns, "/pods");
            cat(p.as_str(), q.as_str())
        },
        None => cat("/api/v1/pods", q.as_str()),
    }
}

/// The paths to the pods that are looked at: those of the namespaces that are named,
/// or of all where none is.
pub open spec fn paths_to_pods(namespaces: Seq<Seq<char>>, labels: Seq<char>) -> Seq<Seq<char>> {
    if namespaces.len() == 0 {
        seq![path_to_pods(None, labels)]
    } else {
        Seq::new(namespaces.len(), |i: int| path_to_pods(Some(namespaces[i]), labels))
    }
}

/// The paths to the pods that are looked at.
pub fn discovery_paths(cfg: &K8sCollectorConfig) -> (r: Vec<String>)
    ensures
        texts(r@) == paths_to_pods(texts(cfg.namespaces@), cfg.label_selector@),
{
    let ghost labels = cfg.label_selector@;
    let mut out: Vec<String> = Vec::new();
    if cfg.namespaces.len() == 0 {
        out.push(pods_path(cfg, None));
        assert(texts(out@) =~= seq![path_to_pods(None, labels)]);
        return out;
    }
    for i in 0..cfg.namespaces.len()
        invariant
            labels == cfg.label_selector@,
            out@.len() == i,
            forall|k: int|
                0 <= k < i ==> (#[trigger] out@[k])@ == path_to_pods(
                    Some(cfg.namespaces@[k]@),
                    labels,
                ),
    {
        out.push(pods_path(cfg, Some(cfg.namespaces[i].as_str())));
    }
    assert(texts(out@) =~= paths_to_pods(texts(cfg.namespaces@), labels));
    out
}

/// The path to the stream of a container's log.
pub fn log_path(cfg: &K8sCollectorConfig, ns: &str, pod: &str, container: &str) -> (r: String)
    ensures
        r@ == "/api/v1/namespaces/"@ + ns@ + "/pods/"@ + pod@ + "/log?container="@ + container@
            + "&follow=true&timestamps=true&tailLines="@ + dec(cfg.tail_lines as nat),
{
    let tail = dec_of(cfg.tail_lines);
    let mut s = cat3("/api/v1/namespaces/", ns, "/pods/");
    s.append(pod);
    s.append("/log?container=");
    s.append(container);
    s.append("&follow=true&timestamps=true&tailLines=");
    s.append(tail.as_str());
    s
}

/// The address of a path.
pub fn api_url(base: &str, path: &str) -> (r: String)
    ensures
        r@ == trim_end_by(base@, just('/')) + path@,
{
    let b = trim_end_char(base, '/');
    cat(b.as_str(), path)
}

/// The token to be sent: the one that is set, else what the file holds, if it can be
/// read.
pub open spec fn token_of(token: Seq<char>, token_file: Seq<char>, held: Option<Seq<char>>) -> Seq<
    char,
> {
    if trim(token).len() > 0 {
        trim(token)
    } else if trim(token_file).len() > 0 {
        match held {
            Some(t) => trim(t),
            None => Seq::empty(),
        }
    } else {
        Seq::empty()
    }
}

/// The token to be sent.
pub fn read_token(cfg: &K8sCollectorConfig, file: Option<&str>) -> (r: String)
    ensures
        r@ == token_of(
            cfg.token@,
            cfg.token_file@,
            match file {
                Some(t) => Some(t@),
                None => None,
            },
        ),
{
    let token = trimmed(cfg.token.as_str());
    if !token.as_str().is_empty() {
        return token;
    }
    let path = trimmed(cfg.token_file.as_str());
    if !path.as_str().is_empty() {
        if let Some(t) = file {
            return trimmed(t);
        }
    }
    String::new()
}

// ---------------------------------------------------------------------
// Which containers are followed
// ---------------------------------------------------------------------
/// A container of a pod.
#[derive(Debug, Clone)]
pub struct PodContainer {
    pub namespace: String,
    pub pod: String,
    pub container: String,
    pub node: String,
}

/// What a [`PodContainer`] says.
#[verifier::ext_equal]
pub struct PodContainerV {
    pub namespace: Seq<char>,
    pub pod: Seq<char>,
    pub container: Seq<char>,
    pub node: Seq<char>,
}

impl View for PodContainer {
    type V = PodContainerV;

    open spec fn view(&self) -> PodContainerV {
        PodContainerV {
            namespace: self.namespace@,
            pod: self.pod@,
            container: self.container@,
            node: self.node@,
        }
    }
}

impl PodContainerV {
    /// What a container is known by while it is followed.
    pub open spec fn key(self) -> Seq<char> {
        self.namespace + "/"@ + self.pod + "/"@ + self.container
    }
}

impl PodContainer {
    /// What the container is known by while it is followed.
    pub fn key(&self) -> (r: String)
        ensures
            r@ == self@.key(),
    {
        let mut s = cat3(self.namespace.as_str(), "/", self.pod.as_str());
        s.append("/");
        s.append(self.container.as_str());
        s
    }
}

/// What containers say.
pub open spec fn pods_view(v: Seq<PodContainer>) -> Seq<PodContainerV> {
    Seq::new(v.len(), |i: int| v[i]@)
}

/// Whether a container is among others.
pub open spec fn has_key(v: Seq<PodContainerV>, key: Seq<char>) -> bool {
    exists|i: int| 0 <= i < v.len() && (#[trigger] v[i]).key() == key
}

/// Containers, with one more where it is neither among them nor followed already.
pub open spec fn joined_by(
    done: Seq<PodContainerV>,
    c: PodContainerV,
    attached: Set<Seq<char>>,
) -> Seq<PodContainerV> {
    if attached.contains(c.key()) || has_key(done, c.key()) {
        done
    } else {
        done.push(c)
    }
}

/// Containers, with those of a pod.
pub open spec fn with_containers(
    done: Seq<PodContainerV>,
    containers: Seq<JsonV>,
    ns: Seq<char>,
    pod: Seq<char>,
    node: Seq<char>,
    attached: Set<Seq<char>>,
) -> Seq<PodContainerV>
    decreases containers.len(),
{
    if containers.len() == 0 {
        done
    } else {
        let before = with_containers(done, containers.drop_last(), ns, pod, node, attached);
        match text_in(field(containers.last(), "name"@)) {
            Some(name) => joined_by(
                before,
                PodContainerV { namespace: ns, pod, container: name, node },
                attached,
            ),
            None => before,
        }
    }
}

/// Containers, with those of another pod.
pub open spec fn with_pod(
    done: Seq<PodContainerV>,
    pod: JsonV,
    attached: Set<Seq<char>>,
) -> Seq<PodContainerV> {
    let meta = field(pod, "metadata"@);
    let spec_part = field(pod, "spec"@);
    match text_in(field_in(meta, "name"@)) {
        None => done,
        Some(name) => match field_in(spec_part, "containers"@) {
            Some(JsonV::Arr(containers)) => with_containers(
                done,
                containers,
                text_or(field_in(meta, "namespace"@), "default"@),
                name,
                text_or(field_in(spec_part, "nodeName"@), Seq::empty()),
                attached,
            ),
            _ => done,
        },
    }
}

/// The containers of pods that are not followed yet, each once.
pub open spec fn pod_newcomers(pods: Seq<JsonV>, attached: Set<Seq<char>>) -> Seq<PodContainerV>
    decreases pods.len(),
{
    if pods.len() == 0 {
        Seq::empty()
    } else {
        with_pod(pod_newcomers(pods.drop_last(), attached), pods.last(), attached)
    }
}

fn has_pod_key(v: &Vec<PodContainer>, key: &str) -> (r: bool)
    ensures
        r == has_key(pods_view(v@), key@),
{
    let ghost all = pods_view(v@);
    for i in 0..v.len()
        invariant
            all == pods_view(v@),
            forall|k: int| 0 <= k < i ==> (#[trigger] all[k]).key() != key@,
    {
        assert(all[i as int] == v@[i as int]@);
        let k = v[i].key();
        if same(k.as_str(), key) {
            return true;
        }
    }
    false
}

fn add_container(out: &mut Vec<PodContainer>, c: PodContainer, attached: &[String])
    ensures
        pods_view(final(out)@) == joined_by(
            pods_view(old(out)@),
            c@,
            texts(attached@).to_set(),
        ),
{
    let ghost before = pods_view(out@);
    let key = c.key();
    let known = list_contains(attached, key.as_str());
    if !known && !has_pod_key(out, key.as_str()) {
        let ghost v = c@;
        out.push(c);
        assert(pods_view(out@) =~= before.push(v));
    }
}

fn add_pod(out: &mut Vec<PodContainer>, pod: &Json, attached: &[String])
    ensures
        pods_view(final(out)@) == with_pod(pods_view(old(out)@), pod@, texts(attached@).to_set()),
{
    let meta = pod.get("metadata");
    let spec_part = pod.get("spec");
    let name = match text_of_json(member_of(meta, "name")) {
        Some(n) => n,
        None => return,
    };
    let ns = match text_of_json(member_of(meta, "namespace")) {
        Some(n) => n,
        None => "default".to_owned(),
    };
    let node = match text_of_json(member_of(spec_part, "nodeName")) {
        Some(n) => n,
        None => String::new(),
    };
    let containers = match member_of(spec_part, "containers") {
        Some(c) => match c.as_array() {
            Some(list) => list,
            None => return,
        },
        None => return,
    };
    let ghost start = pods_view(out@);
    let ghost all = jsons_view(containers@);
    let ghost att = texts(attached@).to_set();
    for i in 0..containers.len()
        invariant
            all == jsons_view(containers@),
            att == texts(attached@).to_set(),
            pods_view(out@) == with_containers(start, all.take(i as int), ns@, name@, node@, att),
    {
        assert(all.take(i + 1).drop_last() == all.take(i as int));
        if let Some(c) = containers[i].get_str("name") {
            let found = PodContainer {
                namespace: ns.clone(),
                pod: name.clone(),
                container: c.to_owned(),
                node: node.clone(),
            };
            add_container(out, found, attached);
        }
    }
    assert(all.take(all.len() as int) == all);
}

/// The containers of pods that are not followed yet.
pub fn discover_pods(pods: &Vec<Json>, attached: &[String]) -> (r: Vec<PodContainer>)
    ensures
        pods_view(r@) == pod_newcomers(jsons_view(pods@), texts(attached@).to_set()),
{
    let mut out: Vec<PodContainer> = Vec::new();
    let ghost all = jsons_view(pods@);
    let ghost att = texts(attached@).to_set();
    assert(pods_view(out@) =~= Seq::<PodContainerV>::empty());
    for i in 0..pods.len()
        invariant
            all == jsons_view(pods@),
            att == texts(attached@).to_set(),
            pods_view(out@) == pod_newcomers(all.take(i as int), att),
    {
        assert(all.take(i + 1).drop_last() == all.take(i as int));
        add_pod(&mut out, &pods[i], attached);
    }
    assert(all.take(all.len() as int) == all);
    out
}

/// The pods of an answer.
pub fn pods_of(answer: &Json) -> (r: Vec<Json>)
    ensures
        jsons_view(r@) == (match field(answer@, "items"@) {
            Some(JsonV::Arr(items)) => items,
            _ => Seq::empty(),
        }),
{
    if let Some(v) = answer.get("items") {
        if let Some(items) = v.as_array() {
            return copy_items(items);
        }
    }
    let none: Vec<Json> = Vec::new();
    assert(jsons_view(none@) =~= Seq::<JsonV>::empty());
    none
}

// ---------------------------------------------------------------------
// Records
// ---------------------------------------------------------------------
/// The envelope of a line of a pod. The node stands as its host.
pub open spec fn pod_envelope(c: PodContainerV, line: Seq<char>, now: Timestamp) -> Map<
    Seq<char>,
    JsonV,
> {
    let (ts, message) = timed(line);
    let attrs = unless_empty(
        Map::<Seq<char>, JsonV>::empty().insert("namespace"@, JsonV::Str(c.namespace)).insert(
            "pod"@,
            JsonV::Str(c.pod),
        ).insert("container"@, JsonV::Str(c.container)),
        "node"@,
        c.node,
    );
    unless_empty(
        line_envelope(
            message,
            "info"@,
            c.pod,
            match ts {
                Some(t) => t,
                None => now,
            },
            attrs,
        ),
        "host"@,
        c.node,
    )
}

/// The record of a line of a pod.
pub fn pod_record(c: &PodContainer, line: &str, now: Timestamp) -> (r: RawRecord)
    ensures
        carries(r, now, Seq::empty(), Protocol::K8sApi, pod_envelope(c@, line@, now)),
{
    let (ts, message) = split_timestamp_prefix(line);
    let mut attrs = JsonMap::new();
    attrs.insert_str("namespace", c.namespace.as_str());
    attrs.insert_str("pod", c.pod.as_str());
    attrs.insert_str("container", c.container.as_str());
    put_unless_empty(&mut attrs, "node", c.node.as_str());
    let mut envelope = log_envelope(message.as_str(), "info", c.pod.as_str(), ts, now, &attrs);
    put_unless_empty(&mut envelope, "host", c.node.as_str());
    sourceless_record(now, Protocol::K8sApi, envelope)
}

} // verus!

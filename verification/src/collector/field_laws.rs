//! What the rows of collected lines say, and which containers are followed.
use vstd::prelude::*;

use crate::collector::{complete_lines, glob, matches_any, timed, unfinished};
use crate::collector::docker::{
    ContainerV, absorbed, candidate, container_envelope, container_name, demuxed, endpoint_in,
    framed, has_id, has_terminal, newcomers, received, stream_name, versioned, wanted,
};
use crate::collector::kubernetes::{
    PodContainerV, has_key, joined_by, path_to_pods, paths_to_pods, percent, percents,
    pod_envelope, pod_newcomers, token_of, with_containers, with_pod,
};
use crate::ingest::field_laws::says;
use crate::json::JsonV;
use crate::text::{
    begins, just, lemma_find_by, lemma_trim_bounds, lemma_trim_end, lemma_trim_start, trim,
    trim_end_by, trim_start_by,
};
use crate::time::{Timestamp, at, rfc3339_read, rfc3339_text};

verus! {

proof fn lemma_line_names()
    ensures
        "level"@ != "message"@,
        "service"@ != "message"@,
        "service"@ != "level"@,
        "ts"@ != "message"@,
        "ts"@ != "level"@,
        "ts"@ != "service"@,
        "container_id"@ != "message"@,
        "container_id"@ != "level"@,
        "container_id"@ != "service"@,
        "container_id"@ != "ts"@,
        "image"@ != "message"@,
        "image"@ != "level"@,
        "image"@ != "service"@,
        "image"@ != "ts"@,
        "image"@ != "container_id"@,
        "stream"@ != "message"@,
        "stream"@ != "level"@,
        "stream"@ != "service"@,
        "stream"@ != "ts"@,
        "stream"@ != "container_id"@,
        "stream"@ != "image"@,
        "namespace"@ != "message"@,
        "namespace"@ != "level"@,
        "namespace"@ != "service"@,
        "namespace"@ != "ts"@,
        "namespace"@ != "container_id"@,
        "namespace"@ != "image"@,
        "namespace"@ != "stream"@,
        "pod"@ != "message"@,
        "pod"@ != "level"@,
        "pod"@ != "service"@,
        "pod"@ != "ts"@,
        "pod"@ != "container_id"@,
        "pod"@ != "image"@,
        "pod"@ != "stream"@,
        "pod"@ != "namespace"@,
        "container"@ != "message"@,
        "container"@ != "level"@,
        "container"@ != "service"@,
        "container"@ != "ts"@,
        "container"@ != "container_id"@,
        "container"@ != "image"@,
        "container"@ != "stream"@,
        "container"@ != "namespace"@,
        "container"@ != "pod"@,
        "node"@ != "message"@,
        "node"@ != "level"@,
        "node"@ != "service"@,
        "node"@ != "ts"@,
        "node"@ != "container_id"@,
        "node"@ != "image"@,
        "node"@ != "stream"@,
        "node"@ != "namespace"@,
        "node"@ != "pod"@,
        "node"@ != "container"@,
        "host"@ != "message"@,
        "host"@ != "level"@,
        "host"@ != "service"@,
        "host"@ != "ts"@,
        "host"@ != "container_id"@,
        "host"@ != "image"@,
        "host"@ != "stream"@,
        "host"@ != "namespace"@,
        "host"@ != "pod"@,
        "host"@ != "container"@,
        "host"@ != "node"@,
{
    reveal_strlit("message");
    reveal_strlit("level");
    reveal_strlit("service");
    reveal_strlit("ts");
    reveal_strlit("container_id");
    reveal_strlit("image");
    reveal_strlit("stream");
    reveal_strlit("namespace");
    reveal_strlit("pod");
    reveal_strlit("container");
    reveal_strlit("node");
    reveal_strlit("host");
    assert("message"@.len() == 7);
    assert("level"@.len() == 5);
    assert("service"@.len() == 7);
    assert("ts"@.len() == 2);
    assert("container_id"@.len() == 12);
    assert("image"@.len() == 5);
    assert("stream"@.len() == 6);
    assert("namespace"@.len() == 9);
    assert("pod"@.len() == 3);
    assert("container"@.len() == 9);
    assert("node"@.len() == 4);
    assert("host"@.len() == 4);
    assert("container"@[0] == 'c');
    assert("host"@[0] == 'h');
    assert("image"@[0] == 'i');
    assert("level"@[0] == 'l');
    assert("message"@[0] == 'm');
    assert("namespace"@[0] == 'n');
    assert("node"@[0] == 'n');
    assert("service"@[0] == 's');
}

/// A line that begins with a time has that time, and what follows is its text; any other
/// line is its own text.
pub proof fn law_times_are_taken_off_lines(head: Seq<char>, rest: Seq<char>, line: Seq<char>)
    requires
        forall|i: int| 0 <= i < head.len() ==> #[trigger] head[i] != ' ',
        forall|i: int| 0 <= i < line.len() ==> #[trigger] line[i] != ' ',
    ensures
        rfc3339_read(head) matches Some(p) ==> timed(head + seq![' '] + rest) == (
            Some(at(p)),
            rest,
        ),
        rfc3339_read(head) is None ==> timed(head + seq![' '] + rest) == (
            None::<Timestamp>,
            head + seq![' '] + rest,
        ),
        timed(line) == (None::<Timestamp>, line),
{
    let s = head + seq![' '] + rest;
    let n = head.len() as int;
    assert forall|i: int| 0 <= i < n implies !just(' ')(#[trigger] s[i]) by {
        assert(s[i] == head[i]);
    }
    assert(s[n] == ' ');
    lemma_find_by(s, just(' '), n);
    assert(s.subrange(0, n) =~= head);
    assert(s.subrange(n + 1, s.len() as int) =~= rest);
    assert forall|i: int| 0 <= i < line.len() implies !just(' ')(#[trigger] line[i]) by {
        assert(line[i] != ' ');
    }
    lemma_find_by(line, just(' '), line.len() as int);
}

/// A line of a container belongs to the container by its name, is an error where it came
/// from the error stream, and says which container, image and stream it is from.
pub proof fn law_container_lines(c: ContainerV, label: Seq<char>, line: Seq<char>, now: Timestamp)
    ensures
        ({
            let e = container_envelope(c, label, line, now);
            let t = match timed(line).0 {
                Some(t) => t,
                None => now,
            };
            &&& says(e, "message"@, timed(line).1)
            &&& says(e, "service"@, c.name)
            &&& says(e, "ts"@, rfc3339_text(t.secs, t.nanos))
            &&& label == "stderr"@ ==> says(e, "level"@, "error"@)
            &&& label != "stderr"@ ==> says(e, "level"@, "info"@)
            &&& says(e, "container_id"@, c.id)
            &&& c.image.len() > 0 ==> says(e, "image"@, c.image)
            &&& label.len() > 0 ==> says(e, "stream"@, label)
        }),
{
    lemma_line_names();
}

/// A line of a pod belongs to the pod, and says where it ran.
pub proof fn law_pod_lines(c: PodContainerV, line: Seq<char>, now: Timestamp)
    ensures
        ({
            let e = pod_envelope(c, line, now);
            let t = match timed(line).0 {
                Some(t) => t,
                None => now,
            };
            &&& says(e, "message"@, timed(line).1)
            &&& says(e, "service"@, c.pod)
            &&& says(e, "level"@, "info"@)
            &&& says(e, "ts"@, rfc3339_text(t.secs, t.nanos))
            &&& says(e, "namespace"@, c.namespace)
            &&& says(e, "pod"@, c.pod)
            &&& says(e, "container"@, c.container)
            &&& c.node.len() > 0 ==> says(e, "node"@, c.node)
        }),
{
    lemma_line_names();
}

/// The streams of a container: the second is that of errors.
pub proof fn law_streams_are_named(kind: u8)
    ensures
        kind == 2 ==> stream_name(kind) == "stderr"@,
        kind != 2 ==> stream_name(kind) == "stdout"@,
{
}

/// A frame says which stream its lines are from.
pub proof fn law_frames_are_of_a_stream(s: crate::collector::docker::StreamV, kind: u8, payload: Seq<u8>)
    requires
        s.line.len() == 0,
    ensures
        framed(s, kind, payload.push(0x0a)).label == stream_name(kind),
        framed(s, kind, payload).out.len() >= s.out.len(),
        forall|i: int|
            s.out.len() <= i < framed(s, kind, payload).out.len() ==> (#[trigger] framed(
                s,
                kind,
                payload,
            ).out[i]).1 == stream_name(kind),
{
}

/// A container is followed where it is listed, or where nothing is, and never where it is
/// excluded.
pub proof fn law_exclusion_counts_first(
    name: Seq<char>,
    listed: Seq<Seq<char>>,
    excluded: Seq<Seq<char>>,
)
    ensures
        matches_any(excluded, name) ==> !wanted(name, listed, excluded),
        listed.len() == 0 && !matches_any(excluded, name) ==> wanted(name, listed, excluded),
        listed.len() > 0 && !matches_any(listed, name) ==> !wanted(name, listed, excluded),
        matches_any(listed, name) && excluded.len() == 0 ==> wanted(name, listed, excluded),
{
}

/// No container is followed twice: none of the newcomers is followed already, and each is
/// new among the others.
pub proof fn law_newcomers_are_new(
    items: Seq<JsonV>,
    listed: Seq<Seq<char>>,
    excluded: Seq<Seq<char>>,
    attached: Set<Seq<char>>,
)
    ensures
        ({
            let r = newcomers(items, listed, excluded, attached);
            &&& forall|i: int| 0 <= i < r.len() ==> !attached.contains((#[trigger] r[i]).id)
            &&& forall|i: int, j: int|
                0 <= i < j < r.len() ==> (#[trigger] r[i]).id != (#[trigger] r[j]).id
            &&& forall|i: int|
                0 <= i < r.len() ==> wanted((#[trigger] r[i]).name, listed, excluded)
        }),
    decreases items.len(),
{
    if items.len() > 0 {
        law_newcomers_are_new(items.drop_last(), listed, excluded, attached);
        let before = newcomers(items.drop_last(), listed, excluded, attached);
        let all = newcomers(items, listed, excluded, attached);
        let n = before.len() as int;
        assert forall|i: int, j: int| 0 <= i < j < all.len() implies (#[trigger] all[i]).id != (
        #[trigger] all[j]).id by {
            assert(all[i] == before[i]);
            if j < n {
                assert(all[j] == before[j]);
            } else if all[i].id == all[j].id {
                assert(has_id(before, all[j].id));
            }
        }
        assert forall|i: int| 0 <= i < all.len() implies !attached.contains((#[trigger] all[i]).id)
            && wanted(all[i].name, listed, excluded) by {
            if i < n {
                assert(all[i] == before[i]);
            }
        }
    }
}

/// Every container that is wanted is followed: after a round it is among the newcomers, or
/// it was followed already.
pub proof fn law_wanted_containers_are_followed(
    items: Seq<JsonV>,
    listed: Seq<Seq<char>>,
    excluded: Seq<Seq<char>>,
    attached: Set<Seq<char>>,
    k: int,
)
    requires
        0 <= k < items.len(),
        candidate(items[k], listed, excluded) is Some,
    ensures
        ({
            let id = candidate(items[k], listed, excluded)->0.id;
            attached.contains(id) || has_id(newcomers(items, listed, excluded, attached), id)
        }),
    decreases items.len(),
{
    let d = items.drop_last();
    let before = newcomers(d, listed, excluded, attached);
    let all = newcomers(items, listed, excluded, attached);
    let id = candidate(items[k], listed, excluded)->0.id;
    if k < d.len() {
        law_wanted_containers_are_followed(d, listed, excluded, attached, k);
        if has_id(before, id) {
            let i = choose|i: int| 0 <= i < before.len() && (#[trigger] before[i]).id == id;
            assert(all[i].id == id);
        }
    } else if !attached.contains(id) && !has_id(before, id) {
        assert(all[all.len() - 1].id == id);
    }
}

/// What a list says of a container: its id, its first name without the slash, else the
/// beginning of its id, and its image.
pub proof fn law_containers_are_named(
    m: Map<Seq<char>, JsonV>,
    names: Seq<JsonV>,
    id: Seq<char>,
    name: Seq<char>,
)
    requires
        says(m, "Id"@, id),
        m.contains_key("Names"@),
        m["Names"@] == JsonV::Arr(names),
        names.len() > 0,
        names[0] == JsonV::Str(seq!['/'] + name),
        name.len() > 0,
        name[0] != '/',
    ensures
        container_name(JsonV::Obj(m), id) == name,
        candidate(JsonV::Obj(m), Seq::empty(), Seq::empty()) matches Some(c) && c.id == id && c.name
            == name,
{
    let s = seq!['/'] + name;
    assert(s[1] == name[0]);
    lemma_trim_start(s, just('/'), 1);
    assert(s.subrange(1, s.len() as int) =~= name);
}

/// A pod's container is known by its namespace, its pod and its own name.
pub proof fn law_pod_containers_are_known(c: PodContainerV)
    ensures
        c.key() == c.namespace + "/"@ + c.pod + "/"@ + c.container,
{
}

/// The pods of one namespace, or of all, are asked for.
pub proof fn law_pods_are_asked_for(ns: Seq<char>)
    ensures
        path_to_pods(Some(ns), Seq::empty()) == "/api/v1/namespaces/"@ + ns + "/pods"@,
        path_to_pods(None, Seq::empty()) == "/api/v1/pods"@,
        paths_to_pods(Seq::empty(), Seq::empty()) == seq!["/api/v1/pods"@],
        paths_to_pods(seq![ns], Seq::empty()) == seq!["/api/v1/namespaces/"@ + ns + "/pods"@],
{
    reveal_strlit("");
    let none = Seq::<char>::empty();
    let (lo, hi) = lemma_trim_bounds(none);
    assert(trim(none).len() == 0);
    let a = "/api/v1/namespaces/"@ + ns + "/pods"@;
    assert(a + ""@ =~= a);
    assert("/api/v1/pods"@ + ""@ =~= "/api/v1/pods"@);
    assert(paths_to_pods(seq![ns], none) =~= seq![a]);
}

/// A question mark stands for one byte, a star for any number of them, and any other byte
/// for itself.
pub proof fn law_patterns_mean(p: Seq<u8>, t: Seq<u8>, b: u8)
    ensures
        glob(seq![0x3fu8] + p, seq![b] + t) == glob(p, t),
        glob(p, t) ==> glob(seq![0x2au8] + p, t),
        glob(seq![0x2au8] + p, t) ==> glob(seq![0x2au8] + p, seq![b] + t),
        b != 0x2a && b != 0x3f ==> glob(seq![b] + p, seq![b] + t) == glob(p, t),
        b != 0x2a ==> !glob(seq![b] + p, Seq::empty()),
{
    assert((seq![0x3fu8] + p).drop_first() =~= p);
    assert((seq![0x2au8] + p).drop_first() =~= p);
    assert((seq![b] + p).drop_first() =~= p);
    assert((seq![b] + t).drop_first() =~= t);
    assert((seq![b] + p)[0] == b && (seq![b] + t)[0] == b);
    assert((seq![0x3fu8] + p)[0] == 0x3f && (seq![0x2au8] + p)[0] == 0x2a);
}

/// Where the Docker Engine listens: at a socket, or at an address.
pub proof fn law_endpoints(rest: Seq<char>, s: Seq<char>)
    requires
        trim(s) == s,
        rest.len() > 0,
        rest.last() != '/',
    ensures
        s == "unix://"@ + rest ==> endpoint_in(s) == Some((true, rest)),
        s == "tcp://"@ + rest ==> endpoint_in(s) == Some((false, rest)),
        s == "http://"@ + rest ==> endpoint_in(s) == Some((false, rest)),
        !begins(s, "unix://"@) && !begins(s, "tcp://"@) && !begins(s, "http://"@) ==> endpoint_in(s)
            is None,
{
    reveal_strlit("unix://");
    reveal_strlit("tcp://");
    reveal_strlit("http://");
    assert("unix://"@.len() == 7);
    assert("tcp://"@.len() == 6);
    assert("http://"@.len() == 7);
    assert("http://"@[0] == 'h');
    assert("unix://"@[0] == 'u');
    lemma_trim_end(rest, just('/'), rest.len() as int);
    assert(rest.subrange(0, rest.len() as int) =~= rest);
    if s == "unix://"@ + rest {
        assert(s.subrange(0, 7) =~= "unix://"@);
        assert(s.subrange(7, s.len() as int) =~= rest);
    }
    if s == "tcp://"@ + rest {
        assert(s.subrange(0, 6) =~= "tcp://"@);
        assert(s.subrange(6, s.len() as int) =~= rest);
        assert(s[0] == 't');
        if begins(s, "unix://"@) {
            assert(s.subrange(0, 7)[0] == 'u');
        }
    }
    if s == "http://"@ + rest {
        assert(s.subrange(0, 7) =~= "http://"@);
        assert(s.subrange(7, s.len() as int) =~= rest);
        assert(s[0] == 'h');
        assert("unix://"@[0] == 'u' && "tcp://"@[0] == 't');
        if begins(s, "unix://"@) {
            assert(s.subrange(0, 7)[0] == 'u');
        }
        if begins(s, "tcp://"@) {
            assert(s.subrange(0, 6)[0] == 't');
        }
    }
}

/// A container has a terminal where its settings say so, and only there.
pub proof fn law_terminals(m: Map<Seq<char>, JsonV>, config: Map<Seq<char>, JsonV>, b: bool)
    requires
        m.contains_key("Config"@),
        m["Config"@] == JsonV::Obj(config),
    ensures
        config.contains_key("Tty"@) && config["Tty"@] == JsonV::Bool(b) ==> has_terminal(
            JsonV::Obj(m),
        ) == b,
        !config.contains_key("Tty"@) ==> !has_terminal(JsonV::Obj(m)),
{
}

/// Bytes of a container with a terminal are lines; of any other they are frames.
pub proof fn law_terminals_stream_lines(s: crate::collector::docker::StreamV, b: Seq<u8>)
    ensures
        received(s, true, b) == absorbed(s, b),
        received(s, false, b) == demuxed(s, b),
        absorbed(s, b).line == unfinished(s.line + b),
        absorbed(s, b).out.len() == s.out.len() + complete_lines(s.line + b).len(),
{
}

/// A path stands below the version of the interface, where one is set.
pub proof fn law_versions(v: Seq<char>, suffix: Seq<char>)
    requires
        v.len() > 0,
        trim(v) == v,
        v[0] != '/',
        v.last() != '/',
    ensures
        versioned(v, suffix) == "/"@ + v + suffix,
        versioned(Seq::empty(), suffix) == suffix,
{
    lemma_trim_start(v, just('/'), 0);
    assert(v.subrange(0, v.len() as int) =~= v);
    lemma_trim_end(v, just('/'), v.len() as int);
    let none = Seq::<char>::empty();
    let (lo, hi) = lemma_trim_bounds(none);
    assert(trim(none) =~= none);
    assert(trim_start_by(none, just('/')) =~= none);
    assert(trim_end_by(none, just('/')) =~= none);
}

/// A token that is set counts before the file that holds one.
pub proof fn law_tokens(token: Seq<char>, file: Seq<char>, held: Seq<char>)
    ensures
        trim(token).len() > 0 ==> token_of(token, file, Some(held)) == trim(token),
        trim(token).len() == 0 && trim(file).len() > 0 ==> token_of(token, file, Some(held))
            == trim(held),
        trim(token).len() == 0 && trim(file).len() == 0 ==> token_of(token, file, Some(held)).len()
            == 0,
{
}

/// Letters, digits and four signs stand for themselves in a query; any other byte is written
/// as two digits behind a percent sign.
pub proof fn law_percents(b: Seq<u8>, c: u8)
    ensures
        percents(b.push(c)) == percents(b) + percent(c),
        0x61 <= c <= 0x7a || 0x41 <= c <= 0x5a || 0x30 <= c <= 0x39 || c == 0x2d || c == 0x5f || c
            == 0x2e || c == 0x7e ==> percent(c) == seq![c as char],
        c == 0x3d ==> percent(c) == seq!['%', '3', 'D'],
        c == 0x20 ==> percent(c) == seq!['%', '2', '0'],
        c == 0x2c ==> percent(c) == seq!['%', '2', 'C'],
{
    assert(b.push(c).drop_last() =~= b);
    assert(percent(0x3d) =~= seq!['%', '3', 'D']);
    assert(percent(0x20) =~= seq!['%', '2', '0']);
    assert(percent(0x2c) =~= seq!['%', '2', 'C']);
}

/// Every named container of a pod is followed, under its pod, its namespace and its node.
pub proof fn law_containers_of_a_pod(
    done: Seq<PodContainerV>,
    containers: Seq<JsonV>,
    m: Map<Seq<char>, JsonV>,
    name: Seq<char>,
    ns: Seq<char>,
    pod: Seq<char>,
    node: Seq<char>,
    attached: Set<Seq<char>>,
)
    requires
        says(m, "name"@, name),
    ensures
        with_containers(done, containers.push(JsonV::Obj(m)), ns, pod, node, attached) == joined_by(
            with_containers(done, containers, ns, pod, node, attached),
            PodContainerV { namespace: ns, pod, container: name, node },
            attached,
        ),
{
    assert(containers.push(JsonV::Obj(m)).drop_last() =~= containers);
}

/// A container joins those that are followed unless it is among them.
pub proof fn law_containers_join(
    done: Seq<PodContainerV>,
    c: PodContainerV,
    attached: Set<Seq<char>>,
)
    ensures
        attached.contains(c.key()) ==> joined_by(done, c, attached) == done,
        !attached.contains(c.key()) ==> has_key(joined_by(done, c, attached), c.key()),
{
    if !attached.contains(c.key()) && !has_key(done, c.key()) {
        let all = joined_by(done, c, attached);
        assert(all[all.len() - 1].key() == c.key());
    }
}

/// The pods of a list: their names, their namespaces, and the nodes that they run on.
pub proof fn law_pods_of_a_list(
    done: Seq<PodContainerV>,
    pod: Map<Seq<char>, JsonV>,
    meta: Map<Seq<char>, JsonV>,
    inner: Map<Seq<char>, JsonV>,
    containers: Seq<JsonV>,
    name: Seq<char>,
    ns: Seq<char>,
    node: Seq<char>,
    attached: Set<Seq<char>>,
)
    requires
        pod.contains_key("metadata"@),
        pod["metadata"@] == JsonV::Obj(meta),
        pod.contains_key("spec"@),
        pod["spec"@] == JsonV::Obj(inner),
        says(meta, "name"@, name),
        says(meta, "namespace"@, ns),
        says(inner, "nodeName"@, node),
        inner.contains_key("containers"@),
        inner["containers"@] == JsonV::Arr(containers),
    ensures
        with_pod(done, JsonV::Obj(pod), attached) == with_containers(
            done,
            containers,
            ns,
            name,
            node,
            attached,
        ),
{
}

/// The containers to attach to come pod by pod, in the order of the pods.
pub proof fn law_pods_come_in_order(pods: Seq<JsonV>, pod: JsonV, attached: Set<Seq<char>>)
    ensures
        pod_newcomers(Seq::empty(), attached).len() == 0,
        pod_newcomers(pods.push(pod), attached) == with_pod(
            pod_newcomers(pods, attached),
            pod,
            attached,
        ),
{
    assert(pods.push(pod).drop_last() =~= pods);
}

} // verus!

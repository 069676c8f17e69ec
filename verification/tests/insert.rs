//! The push formats.
use central_logs::config::SplunkHecIngestConfig;
use central_logs::ingest::parse::normalize_level_public;
use central_logs::insert::counters::InsertCounters;
use central_logs::insert::envelope::Appended;
use central_logs::insert::fluentd::{
    ack_line, ack_reply, forward_to_record, forward_to_records, msgpack_time_to_rfc3339,
    ForwardStream,
};
use central_logs::insert::gelf::{
    decompress, frame_payload, gelf_int_level, gelf_to_envelope, handle_chunk, payload_record,
    Chunks, Reassembly,
};
use central_logs::insert::http::{
    is_otlp_protobuf, logs_request, metrics_request, parse_body, paused_body, traces_request,
    InsertResponse, InsertStep, Insertion,
};
use central_logs::insert::k8s_audit::{
    audit_event_to_record, audit_reply, audit_request, extract_events, status_body, AuditStep,
};
use central_logs::insert::msgpack::{read_value, try_decode, MsgValue};
use central_logs::insert::splunk_hec::{
    health, hec_reply, hec_request, hec_response, hec_time, hec_to_record, parse_events, ping,
    HecStep,
};
use central_logs::insert::syslog::{datagram_to_record, line_to_record};
use central_logs::json::Json;
use central_logs::time::Timestamp;
use central_logs::{Protocol, RawRecord};

const CHUNK_MAGIC: [u8; 2] = [0x1e, 0x0f];
const SECOND: u64 = 1_000_000_000;

fn now() -> Timestamp {
    Timestamp::new(1_700_000_000, 0).unwrap()
}

fn json(text: &str) -> Json {
    Json::parse(text).unwrap()
}

fn value(j: &Json) -> serde_json::Value {
    serde_json::from_str(&j.to_text()).unwrap()
}

fn envelope(rec: &RawRecord) -> serde_json::Value {
    serde_json::from_slice(&rec.raw).unwrap()
}

// ---------------------------------------------------------------------
// MessagePack
// ---------------------------------------------------------------------
fn dec(bytes: &[u8]) -> MsgValue {
    read_value(bytes, 0).expect("decodes").expect("one value").0
}

#[test]
fn scalars() {
    assert_eq!(dec(&[0xc0]), MsgValue::Nil);
    assert_eq!(dec(&[0xc3]), MsgValue::Bool(true));
    assert_eq!(dec(&[0x05]), MsgValue::Uint(5));
    assert_eq!(dec(&[0xff]), MsgValue::Int(-1));
    assert_eq!(dec(&[0xd0, 0x80]), MsgValue::Int(-128));
    // What is not negative is unsigned, under a signed marker too.
    assert_eq!(dec(&[0xd0, 0x05]), MsgValue::Uint(5));
    assert_eq!(dec(&[0xd1, 0x7f, 0xff]), MsgValue::Uint(0x7fff));
    assert_eq!(dec(&[0xd2, 0, 0, 0, 0]), MsgValue::Uint(0));
    assert_eq!(dec(&[0xd3, 0, 0, 0, 0, 0, 0, 0, 9]), MsgValue::Uint(9));
    assert_eq!(dec(&[0xcd, 0x01, 0x00]), MsgValue::Uint(256));
    assert_eq!(dec(&[0xd2, 0xff, 0xff, 0xf9, 0x7f]), MsgValue::Int(-1665));
    // f64 0x41D0000000000000 = 2^30
    assert_eq!(
        dec(&[0xcb, 0x41, 0xd0, 0x00, 0x00, 0x00, 0x00, 0x00, 0x00]),
        MsgValue::F64(1_073_741_824.0f64.to_bits())
    );
    assert_eq!(
        dec(&[0xa5, b'h', b'e', b'l', b'l', b'o']),
        MsgValue::Str("hello".into())
    );
    assert_eq!(dec(&[0xc4, 0x02, 0x00, 0xff]), MsgValue::Bin(vec![0, 255]));
}

#[test]
fn containers() {
    // ["a", 1] fixarray
    let v = dec(&[0x92, 0xa1, b'a', 0x01]);
    assert_eq!(
        v,
        MsgValue::Array(vec![MsgValue::Str("a".into()), MsgValue::Uint(1)])
    );
    // {"log": "hi"} fixmap
    let v = dec(&[0x81, 0xa3, b'l', b'o', b'g', 0xa2, b'h', b'i']);
    assert_eq!(
        v,
        MsgValue::Dict(vec![("log".into(), MsgValue::Str("hi".into()))])
    );
}

#[test]
fn fluentd_event_time_ext() {
    // fixext8, type 0, 2026-09-23T00:00:00Z = 1758585600s + 500ms
    let secs: u32 = 1_758_585_600;
    let nans: u32 = 500_000_000;
    let mut b = vec![0xd7, 0x00];
    b.extend_from_slice(&secs.to_be_bytes());
    b.extend_from_slice(&nans.to_be_bytes());
    let v = dec(&b);
    match v {
        MsgValue::Ext(0, body) => {
            assert_eq!(body.len(), 8);
        }
        other => panic!("expected ext, got {other:?}"),
    }
}

#[test]
fn stream_of_values_decodes_back_to_back() {
    // Two concatenated values: "abc" + 42
    let b = vec![0xa3, b'a', b'b', b'c', 0x2a];
    let (v, next) = read_value(&b, 0).unwrap().unwrap();
    assert_eq!(v, MsgValue::Str("abc".into()));
    let (v, next) = read_value(&b, next).unwrap().unwrap();
    assert_eq!(v, MsgValue::Uint(42));
    assert!(read_value(&b, next).unwrap().is_none(), "clean EOF");
}

#[test]
fn truncated_value_errors() {
    // str16 header but missing payload
    let b = [0xda, 0x00, 0x05, b'a'];
    assert!(read_value(&b, 0).is_err());
}

#[test]
fn an_incomplete_buffer_waits_for_more() {
    let whole = [0x92, 0xa1, b'a', 0x01];
    for k in 0..whole.len() {
        assert!(try_decode(&whole[..k]).unwrap().is_none());
    }
    let (_, used) = try_decode(&[0x92, 0xa1, b'a', 0x01, 0xff]).unwrap().unwrap();
    assert_eq!(used, 4);
}

// ---------------------------------------------------------------------
// Fluentd
// ---------------------------------------------------------------------
fn msg(bytes: &[u8]) -> MsgValue {
    try_decode(bytes).expect("decodes").expect("one value").0
}

/// What the fluentd driver of Docker sends.
fn docker_message_bytes() -> Vec<u8> {
    let mut b = Vec::new();
    // fixarray(4)
    b.push(0x94);
    // tag: fixstr "docker.abc123def456" (19 bytes)
    b.push(0xa0 + 19);
    b.extend_from_slice(b"docker.abc123def456");
    // time: uint32 unix secs
    b.push(0xce);
    b.extend_from_slice(&1_760_000_000u32.to_be_bytes());
    // record: fixmap(5)
    b.push(0x85);
    for (k, v) in [
        ("container_id", "abc123def4567890"),
        ("container_name", "/web-1"),
        ("source", "stdout"),
        ("log", "hello fluent\n"),
        ("env", "prod"),
    ] {
        b.push(0xa0 + k.len() as u8);
        b.extend_from_slice(k.as_bytes());
        b.push(0xa0 + v.len() as u8);
        b.extend_from_slice(v.as_bytes());
    }
    // option: fixmap(0)
    b.push(0x80);
    b
}

#[test]
fn docker_message_mode_decodes() {
    let v = msg(&docker_message_bytes());
    let (rec, ack) = forward_to_record(&v, now()).expect("entry").expect("record");
    assert!(ack.is_none());
    let env = envelope(&rec);
    assert_eq!(env["message"], "hello fluent\n");
    assert_eq!(env["service"], "web-1", "leading '/' trimmed");
    assert_eq!(env["level"], "info");
    assert_eq!(env["container_id"], "abc123def4567890");
    assert_eq!(env["fluentd_tag"], "docker.abc123def456");
    assert_eq!(env["env"], "prod");
    assert!(env.get("log").is_none(), "line lifted out");
    let ts = chrono::DateTime::parse_from_rfc3339(env["ts"].as_str().unwrap()).unwrap();
    assert_eq!(ts.timestamp(), 1_760_000_000);
}

#[test]
fn stderr_maps_to_error_level() {
    let mut b = Vec::new();
    b.push(0x93); // [tag, time, record]
    b.push(0xa3);
    b.extend_from_slice(b"tag");
    b.push(0xce);
    b.extend_from_slice(&1_760_000_000u32.to_be_bytes());
    b.push(0x82);
    for (k, v) in [("source", "stderr"), ("log", "panic!")] {
        b.push(0xa0 + k.len() as u8);
        b.extend_from_slice(k.as_bytes());
        b.push(0xa0 + v.len() as u8);
        b.extend_from_slice(v.as_bytes());
    }
    let v = msg(&b);
    let (rec, _) = forward_to_record(&v, now()).expect("entry").expect("record");
    assert_eq!(envelope(&rec)["level"], "error");
}

#[test]
fn ack_option_is_detected_and_carried() {
    let mut b = docker_message_bytes();
    assert_eq!(b.pop(), Some(0x80));
    // replace empty option with {"chunk": "abc="}
    b.push(0x81); // fixmap(1)
    b.push(0xa5);
    b.extend_from_slice(b"chunk");
    b.push(0xa4);
    b.extend_from_slice(b"abc=");
    let v = msg(&b);
    let (_, ack) = forward_to_record(&v, now()).expect("entry").expect("record");
    assert_eq!(ack.as_deref(), Some("abc="));
    assert_eq!(ack_line("abc="), "{\"ack\":\"abc=\"}\n");
}

#[test]
fn forward_mode_array_accepted() {
    // ["tag", [[time, record]]]
    let mut b = Vec::new();
    b.push(0x92); // array(2)
    b.push(0xa3);
    b.extend_from_slice(b"tag");
    b.push(0x91); // entries array(1)
    b.push(0x92); // [time, record]
    b.push(0xce);
    b.extend_from_slice(&1_760_000_000u32.to_be_bytes());
    b.push(0x81);
    b.push(0xa3);
    b.extend_from_slice(b"log");
    b.push(0xa2);
    b.extend_from_slice(b"hi");
    let v = msg(&b);
    let (rec, _) = forward_to_record(&v, now()).expect("entry").expect("record");
    let env = envelope(&rec);
    assert_eq!(env["message"], "hi");
    assert_eq!(env["service"], "tag");
}

#[test]
fn event_time_ext_time() {
    let secs: u32 = 1_758_585_600;
    let mut time_b = vec![0xd7, 0x00];
    time_b.extend_from_slice(&secs.to_be_bytes());
    time_b.extend_from_slice(&0u32.to_be_bytes());
    let v = msg(&time_b);
    let ts = msgpack_time_to_rfc3339(&v).expect("ts");
    let dt = chrono::DateTime::parse_from_rfc3339(&ts).unwrap();
    assert_eq!(dt.timestamp(), secs as i64);
}

#[test]
fn non_array_rejected() {
    assert!(forward_to_record(&MsgValue::Nil, now()).is_err());
    assert!(forward_to_record(&MsgValue::Uint(1), now()).is_err());
}

#[test]
fn every_entry_of_a_batch_becomes_a_record() {
    let entry = |text: &str, time: MsgValue| {
        MsgValue::Array(vec![
            time,
            MsgValue::Dict(vec![("log".into(), MsgValue::Str(text.into()))]),
        ])
    };
    let option = MsgValue::Dict(vec![("chunk".into(), MsgValue::Str("id".into()))]);
    let batch = MsgValue::Array(vec![
        MsgValue::Str("tag".into()),
        MsgValue::Array(vec![
            entry("a", MsgValue::F64(1.5f64.to_bits())),
            MsgValue::Array(vec![MsgValue::Uint(1)]),
            entry("b", MsgValue::Nil),
        ]),
        option,
    ]);
    let recs = forward_to_records(&batch, now()).unwrap();
    assert_eq!(recs.len(), 2);
    assert_eq!(envelope(&recs[0].0)["ts"], "1970-01-01T00:00:01.500+00:00");
    assert_eq!(envelope(&recs[1].0)["message"], "b");
    assert_eq!(recs[0].1.as_deref(), Some("id"));
    assert_eq!(recs[1].1, None);
}

#[test]
fn entries_may_be_cut_anywhere() {
    // Two entries of message mode: ["t", 1, {"log": "a"}], ["t", 2, {"log": "b"}].
    let mut all = vec![0x93, 0xa1, b't', 1, 0x81, 0xa3, b'l', b'o', b'g', 0xa1, b'a'];
    all.extend([0x93, 0xa1, b't', 2, 0x81, 0xa3, b'l', b'o', b'g', 0xa1, b'b']);
    for k in 0..=all.len() {
        let mut s = ForwardStream::new();
        let (mut values, broken) = s.receive(&all[..k]);
        assert!(!broken);
        let (more, broken) = s.receive(&all[k..]);
        assert!(!broken && s.buf.is_empty());
        values.extend(more);
        assert_eq!(values.len(), 2, "{k}");
        let (rec, _) = forward_to_record(&values[1], now()).unwrap().unwrap();
        assert_eq!(envelope(&rec)["message"], "b");
    }
    let mut s = ForwardStream::new();
    assert!(s.receive(&[0xc1]).1);
}

#[test]
fn acknowledgements_can_be_off() {
    let id = Some("x".to_string());
    assert_eq!(ack_reply(true, &id).as_deref(), Some("{\"ack\":\"x\"}\n"));
    assert_eq!(ack_reply(false, &id), None);
    assert_eq!(ack_reply(true, &None), None);
}

#[test]
fn entries_are_refused_in_words() {
    let fault = |v: MsgValue| forward_to_records(&v, now()).unwrap_err();
    assert_eq!(fault(MsgValue::Nil), "entry is not an array");
    assert_eq!(fault(MsgValue::Array(vec![])), "unsupported entry shape (0 elements)");
    let batch = |e: MsgValue| MsgValue::Array(vec![MsgValue::Nil, MsgValue::Array(vec![e])]);
    assert_eq!(fault(batch(MsgValue::Nil)), "forward entry must be [time, record]");
    assert_eq!(
        fault(batch(MsgValue::Array(vec![MsgValue::Nil, MsgValue::Nil]))),
        "record must be a map"
    );
}

#[test]
fn values_become_json() {
    let record = MsgValue::Dict(vec![
        ("f".into(), MsgValue::F64(2.5f64.to_bits())),
        ("bin".into(), MsgValue::Bin(b"hi".to_vec())),
        ("ext".into(), MsgValue::Ext(5, vec![1, 2, 3])),
        ("list".into(), MsgValue::Array(vec![MsgValue::Nil, MsgValue::Bool(true)])),
    ]);
    let v = MsgValue::Array(vec![MsgValue::Str("t".into()), MsgValue::Uint(0), record]);
    let (rec, _) = forward_to_record(&v, now()).unwrap().unwrap();
    let env = envelope(&rec);
    assert_eq!(env["f"], 2.5);
    assert_eq!(env["bin"], "hi");
    assert_eq!(env["ext"]["ext_type"], 5);
    assert_eq!(env["ext"]["ext_body_b64"], "AQID");
    assert_eq!(env["list"][1], true);
}

// ---------------------------------------------------------------------
// GELF
// ---------------------------------------------------------------------
fn chunk(id: u8, seq: u8, total: u8, part: &[u8]) -> Vec<u8> {
    let mut d = CHUNK_MAGIC.to_vec();
    d.extend_from_slice(&[id, 2, 3, 4, 5, 6, 7, 8]);
    d.push(seq);
    d.push(total);
    d.extend_from_slice(part);
    d
}

#[test]
fn chunk_reassembly_out_of_order() {
    let mut chunks = Chunks::new();
    let mut sweep = 0;
    let payload = b"hello chunked world";
    let five = 5 * SECOND;
    assert!(handle_chunk(&mut chunks, &chunk(1, 0, 3, &payload[..7]), 0, five, &mut sweep).is_none());
    assert!(handle_chunk(&mut chunks, &chunk(1, 2, 3, &payload[14..]), 0, five, &mut sweep).is_none());
    let done = handle_chunk(&mut chunks, &chunk(1, 1, 3, &payload[7..14]), 0, five, &mut sweep);
    assert_eq!(done.as_deref(), Some(payload.as_slice()));
    assert!(chunks.is_empty(), "completed message must be removed");
}

#[test]
fn chunk_validation_rejects_bogus_headers() {
    let mut chunks = Chunks::new();
    let mut sweep = 0;
    // total = 0
    let mut d = CHUNK_MAGIC.to_vec();
    d.extend_from_slice(&[0u8; 8]);
    d.extend_from_slice(&[0, 0, 5, 5, 5]);
    assert!(handle_chunk(&mut chunks, &d, 0, 5 * SECOND, &mut sweep).is_none());
    // seq >= total
    let mut d = CHUNK_MAGIC.to_vec();
    d.extend_from_slice(&[0u8; 8]);
    d.push(3);
    d.push(2);
    assert!(handle_chunk(&mut chunks, &d, 0, 5 * SECOND, &mut sweep).is_none());
}

#[test]
fn decompress_detects_gzip_and_zlib() {
    let raw = b"plain gelf json";
    // gzip
    let mut enc = flate2::write::GzEncoder::new(Vec::new(), flate2::Compression::fast());
    std::io::Write::write_all(&mut enc, raw).unwrap();
    let gz = enc.finish().unwrap();
    assert_eq!(decompress(&gz).unwrap(), raw);
    // zlib
    let mut enc = flate2::write::ZlibEncoder::new(Vec::new(), flate2::Compression::fast());
    std::io::Write::write_all(&mut enc, raw).unwrap();
    let zz = enc.finish().unwrap();
    assert_eq!(decompress(&zz).unwrap(), raw);
    // none
    assert_eq!(decompress(raw).unwrap(), b"plain gelf json".as_slice());
}

#[test]
fn envelope_maps_docker_gelf_message() {
    let msg = json(
        r#"{
        "version": "1.1",
        "host": "docker-host",
        "short_message": "hello\n",
        "timestamp": 1760000000.789,
        "level": 3,
        "_container_id": "abc123",
        "_container_name": "/web-1",
        "_image_name": "nginx:latest",
        "_tag": "abc123def456",
        "_env": "prod"
    }"#,
    );
    let env = value(&gelf_to_envelope(&msg, now()));
    assert_eq!(env["message"], "hello\n");
    assert_eq!(env["level"], "error");
    assert_eq!(env["service"], "web-1");
    assert_eq!(env["ts"], 1_760_000_000.789);
    assert_eq!(env["host"], "docker-host");
    // Extras ride beside the standard fields.
    assert_eq!(env["_container_id"], "abc123");
    assert_eq!(env["_image_name"], "nginx:latest");
    assert_eq!(env["_tag"], "abc123def456");
    assert_eq!(env["_env"], "prod");
    assert!(env.get("short_message").is_none());
}

#[test]
fn envelope_defaults_and_level_strings() {
    let msg = json(r#"{"version": "1.1", "host": "h", "short_message": "x", "level": "WARNING"}"#);
    let env = value(&gelf_to_envelope(&msg, now()));
    assert_eq!(env["level"], "WARNING");
    assert!(env["service"].is_null(), "no service key when no container/facility");
    assert_eq!(env["host"], "h", "host stays for source_host lift");
    assert!(env.get("attributes").is_none());
    let level = normalize_level_public("WARNING");
    assert_eq!(level, "warn");
}

#[test]
fn int_level_mapping_matches_syslog() {
    assert_eq!(gelf_int_level(0), "fatal");
    assert_eq!(gelf_int_level(3), "error");
    assert_eq!(gelf_int_level(4), "warn");
    assert_eq!(gelf_int_level(6), "info");
    assert_eq!(gelf_int_level(7), "debug");
    assert_eq!(gelf_int_level(99), "debug");
}

#[test]
fn chunks_of_two_messages_do_not_mix() {
    let mut r = Reassembly::new();
    let s = 5 * SECOND;
    assert!(r.receive(&chunk(1, 0, 2, b"a"), 0, s).is_none());
    assert!(r.receive(&chunk(2, 1, 2, b"d"), 0, s).is_none());
    assert_eq!(r.receive(&chunk(2, 0, 2, b"c"), 0, s).unwrap(), b"cd");
    assert_eq!(r.receive(&chunk(1, 1, 2, b"b"), 0, s).unwrap(), b"ab");
    assert!(r.chunks.is_empty());
}

#[test]
fn stale_chunks_are_forgotten() {
    let mut r = Reassembly::new();
    assert!(r.receive(&chunk(1, 0, 2, b"a"), 0, SECOND).is_none());
    assert!(r.receive(&chunk(1, 1, 2, b"b"), 2 * SECOND, SECOND).is_none());
    // A chunk that counts its message differently has it dropped.
    assert!(r.receive(&chunk(1, 0, 3, b"a"), 2 * SECOND, SECOND).is_none());
    assert!(r.chunks.is_empty());
}

#[test]
fn a_plain_datagram_is_its_own_payload() {
    let mut r = Reassembly::new();
    assert_eq!(r.receive(b"{}", 0, SECOND).unwrap(), b"{}");
    let rec = payload_record(br#"{"short_message":"x"}"#, "1.2.3.4:5", now()).unwrap();
    assert_eq!(rec.protocol, Protocol::Gelf);
    assert_eq!(rec.source_addr, "1.2.3.4:5");
    assert!(payload_record(b"no json", "", now()).is_none());
    assert!(payload_record(&[0x1f, 0x8b, 0x00], "", now()).is_none());
    assert_eq!(frame_payload(b"{}\0").unwrap(), b"{}");
    assert!(frame_payload(b"\0").is_none());
}

// ---------------------------------------------------------------------
// Kubernetes audit
// ---------------------------------------------------------------------
const SAMPLE: &str = r#"{
    "auditID": "d6f2b1f0-1111-2222-3333-444455556666",
    "stage": "ResponseComplete",
    "level": "Metadata",
    "timestamp": "2026-09-23T12:00:00.000000Z",
    "verb": "create",
    "requestURI": "/api/v1/namespaces/default/pods",
    "user": {"username": "kubernetes-admin", "uid": "u-1", "groups": ["system:masters"]},
    "sourceIPs": ["10.0.0.1", "192.168.1.5"],
    "userAgent": "kubectl/v1.30",
    "objectRef": {"resource": "pods", "namespace": "default", "name": "nginx",
                  "apiVersion": "v1"},
    "responseStatus": {"metadata": {}, "code": 201, "status": "Success"},
    "stageTimestamp": "2026-09-23T12:00:00.123456Z",
    "requestReceivedTimestamp": "2026-09-23T12:00:00.100000Z"
}"#;

/// The sample event with some members changed.
fn event(changes: &[(&str, &str)]) -> Json {
    let mut v: serde_json::Value = serde_json::from_str(SAMPLE).unwrap();
    for (k, text) in changes {
        v[*k] = serde_json::from_str(text).unwrap();
    }
    json(&v.to_string())
}

fn audit_envelope(changes: &[(&str, &str)]) -> serde_json::Value {
    envelope(&audit_event_to_record(&event(changes), now()).unwrap())
}

#[test]
fn extracts_eventlist_and_single_event() {
    let list = json(&format!(
        r#"{{"apiVersion": "audit.k8s.io/v1", "kind": "EventList",
             "metadata": {{"resourceVersion": "1"}}, "items": [{SAMPLE}, {SAMPLE}]}}"#
    ));
    assert_eq!(extract_events(&list).len(), 2);
    let single = json(r#"{"auditID": "x", "verb": "get"}"#);
    assert_eq!(extract_events(&single).len(), 1);
    assert!(extract_events(&json(r#"{"foo": 1}"#)).is_empty());
}

#[test]
fn event_maps_to_row() {
    let env = audit_envelope(&[]);
    assert_eq!(env["message"], "create pods default/nginx → 201");
    assert_eq!(env["level"], "info");
    assert_eq!(env["service"], "kube-apiserver");
    assert_eq!(env["trace_id"], "d6f2b1f0-1111-2222-3333-444455556666");
    assert_eq!(env["host"], "192.168.1.5", "last sourceIP becomes source host");
    let ts = chrono::DateTime::parse_from_rfc3339(env["ts"].as_str().unwrap()).unwrap();
    assert_eq!(ts.timestamp_micros(), 1_790_164_800_123_456);
    assert_eq!(env["stage"], "ResponseComplete");
    assert_eq!(env["user"]["username"], "kubernetes-admin");
    assert_eq!(env["objectRef"]["resource"], "pods");
    assert_eq!(env["responseStatus"]["code"], 201);
    assert_eq!(env["audit_level"], "Metadata");
}

#[test]
fn severity_by_status_code_and_stage() {
    let env = audit_envelope(&[
        ("stage", r#""Panic""#),
        ("responseStatus", r#"{"code": 500, "reason": "InternalError"}"#),
    ]);
    assert_eq!(env["level"], "fatal", "Panic stage wins");

    let env = audit_envelope(&[("responseStatus", r#"{"code": 403, "reason": "Forbidden"}"#)]);
    assert_eq!(env["level"], "warn");
    assert_eq!(env["response_reason"], "Forbidden");

    let env = audit_envelope(&[("responseStatus", r#"{"code": 503}"#)]);
    assert_eq!(env["level"], "error");
    assert!(env["message"].as_str().unwrap().contains("→ 503"));
}

#[test]
fn api_group_namespaced_target_rendering() {
    let env = audit_envelope(&[
        ("verb", r#""list""#),
        (
            "objectRef",
            r#"{"resource": "deployments", "namespace": "prod", "apiGroup": "apps", "apiVersion": "v1"}"#,
        ),
        ("responseStatus", r#"{"code": 200}"#),
    ]);
    assert_eq!(env["message"], "list apps/deployments prod/ → 200");

    let env = audit_envelope(&[
        ("objectRef", "null"),
        ("verb", r#""get""#),
        ("requestURI", r#""/healthz""#),
        ("responseStatus", r#"{"code": 200}"#),
    ]);
    assert_eq!(env["message"], "get /healthz → 200");
}

#[test]
fn audit_requests_are_answered() {
    let omit = vec!["RequestReceived".to_string()];
    let step = |paused: bool, body: &str| audit_request(paused, body.as_bytes(), &omit, now());
    assert!(matches!(step(true, "{}"), AuditStep::Reply(503, "ingest paused")));
    assert!(matches!(step(false, "x"), AuditStep::Reply(400, "invalid audit JSON")));
    assert!(matches!(step(false, r#"{"items":[]}"#), AuditStep::Reply(200, "Success")));
    let left_out = r#"[{"auditID":"a","stage":"RequestReceived"}]"#;
    assert!(matches!(step(false, left_out), AuditStep::Reply(200, "Success")));
    match step(false, SAMPLE) {
        AuditStep::Append(recs) => assert_eq!(recs.len(), 1),
        AuditStep::Reply(..) => panic!("expected records"),
    }
    assert_eq!(audit_reply(Appended::Stored), (200, "Success"));
    assert_eq!(audit_reply(Appended::Failed), (503, "ingest failed"));
    assert_eq!(audit_reply(Appended::TimedOut), (503, "ingest backpressure"));
    assert_eq!(value(&status_body("Success"))["status"], "Success");
}

// ---------------------------------------------------------------------
// Splunk
// ---------------------------------------------------------------------
#[test]
fn parses_concatenated_events() {
    let body = br#"{"time":"100.5","event":"a"}{"time":"200","event":"b"}
{"event":"c"}"#;
    let evs = parse_events(body).unwrap();
    assert_eq!(evs.len(), 3);
    assert_eq!(evs[0].get_str("event"), Some("a"));
    assert_eq!(evs[2].get_str("event"), Some("c"));
}

#[test]
fn non_json_body_becomes_single_raw_event() {
    let evs = parse_events(b"plain line\n").unwrap();
    assert_eq!(evs.len(), 1);
    assert_eq!(evs[0], Json::text("plain line"));
    let rec = hec_to_record(&evs[0], &SplunkHecIngestConfig::default(), now()).unwrap();
    assert_eq!(envelope(&rec)["message"], "plain line");
    assert!(parse_events(b"").is_none());
}

#[test]
fn docker_hec_event_maps() {
    let ev = json(
        r#"{
        "time": "1760000000.123456",
        "host": "docker-host",
        "source": "stdout",
        "sourcetype": "docker:web-1",
        "index": "logs",
        "event": {"line": "hello\n", "source": "stdout", "tag": "abc123def456",
                  "attrs": {"env": "prod"}}
    }"#,
    );
    let rec = hec_to_record(&ev, &SplunkHecIngestConfig::default(), now()).unwrap();
    let env = envelope(&rec);
    assert_eq!(env["message"], "hello\n");
    assert_eq!(env["level"], "info");
    assert_eq!(env["service"], "docker:web-1");
    assert_eq!(env["host"], "docker-host");
    let ts = chrono::DateTime::parse_from_rfc3339(env["ts"].as_str().unwrap()).unwrap();
    assert_eq!(ts.timestamp_millis(), 1_760_000_000_123);
    assert_eq!(env["tag"], "abc123def456");
    assert_eq!(env["env"], "prod");
    assert_eq!(env["hec_index"], "logs");
}

#[test]
fn stderr_event_marks_error_level() {
    let ev = json(r#"{"time": 1760000000, "event": {"line": "boom", "source": "stderr"}}"#);
    let rec = hec_to_record(&ev, &SplunkHecIngestConfig::default(), now()).unwrap();
    assert_eq!(envelope(&rec)["level"], "error");
}

#[test]
fn string_event_and_missing_time_default() {
    let ev = json(r#"{"event": "just a string"}"#);
    let rec = hec_to_record(&ev, &SplunkHecIngestConfig::default(), now()).unwrap();
    let env = envelope(&rec);
    assert_eq!(env["message"], "just a string");
    let ts = chrono::DateTime::parse_from_rfc3339(env["ts"].as_str().unwrap()).unwrap();
    assert_eq!(ts.timestamp(), now().secs);
}

#[test]
fn time_string_and_number_forms() {
    let s = hec_time(&json(r#"{"time": "10.25"}"#)).unwrap();
    assert_eq!((s.secs, s.nanos), (10, 250_000_000));
    let n = hec_time(&json(r#"{"time": 5}"#)).unwrap();
    assert_eq!(n.secs, 5);
    assert!(hec_time(&json("{}")).is_none());
    assert!(hec_time(&json(r#"{"time": "x"}"#)).is_none());
    assert!(hec_time(&json(r#"{"time": -1}"#)).is_none());
    assert!(hec_time(&json(r#"{"time": "-0.0"}"#)).is_some());
}

#[test]
fn collector_requests_are_answered() {
    let cfg = SplunkHecIngestConfig::default();
    let status = |step: HecStep| match step {
        HecStep::Reply(r) => (r.status, r.code),
        HecStep::Append(recs) => (0, recs.len() as u16),
    };
    assert_eq!(status(hec_request(true, b"{}", &cfg, now())), (503, 9));
    assert_eq!(status(hec_request(false, b" \n", &cfg, now())), (400, 6));
    assert_eq!(status(hec_request(false, b"{} x", &cfg, now())), (400, 6));
    assert_eq!(status(hec_request(false, b"{}{}", &cfg, now())), (0, 2));
    assert_eq!(hec_reply(Appended::Stored), ping());
    assert_eq!(hec_reply(Appended::TimedOut).status, 503);
    assert_eq!(health().code, 17);
    let body = value(&hec_response(ping()));
    assert_eq!(body["text"], "Success");
    assert_eq!(body["code"], 0);
}

// ---------------------------------------------------------------------
// HTTP and syslog
// ---------------------------------------------------------------------
#[test]
fn detects_protobuf_content_type() {
    assert!(is_otlp_protobuf("application/x-protobuf"));
    assert!(is_otlp_protobuf("application/protobuf"));
    assert!(!is_otlp_protobuf("application/json"));
    assert!(!is_otlp_protobuf("application/x-ndjson"));
}

#[test]
fn bodies_are_lists_objects_or_lines() {
    let raws = |body: &[u8]| -> Vec<String> {
        parse_body(body, now(), "p")
            .into_iter()
            .map(|r| String::from_utf8(r.raw).unwrap())
            .collect()
    };
    assert_eq!(raws(br#" [{"a":1}, null, 2]"#), vec![r#"{"a":1}"#, "2"]);
    assert_eq!(raws(b"{\"a\": 1}"), vec![r#"{"a":1}"#]);
    assert_eq!(raws(b"{\"a\":1}\n\nplain\nnull\n"), vec![r#"{"a":1}"#, "plain"]);
    assert_eq!(parse_body(&[0xff], now(), "").len(), 1);
    assert!(raws(b"").is_empty());
}

#[test]
fn requests_are_told_apart() {
    let step = |paused: bool, ct: &str, body: &[u8]| logs_request(paused, ct, body, now(), "");
    assert!(matches!(step(true, "", b"{}"), InsertStep::Paused));
    assert!(matches!(step(false, "text/plain", b"x"), InsertStep::Plain(r) if r.len() == 1));
    let otlp = br#"{"resourceLogs":[]}"#;
    assert!(matches!(step(false, "application/json", otlp), InsertStep::Otlp(_, r) if r.is_empty()));
    assert!(matches!(step(false, "application/x-protobuf", b"\xff"), InsertStep::Answer(_, 400)));
    assert!(matches!(
        traces_request(true, "application/json", b"{}", now(), ""),
        InsertStep::Answer(_, 503)
    ));
    assert!(matches!(
        traces_request(false, "application/json", b"x", now(), ""),
        InsertStep::Answer(_, 400)
    ));
    assert!(matches!(
        metrics_request(false, "application/x-protobuf", b"", now(), ""),
        InsertStep::Otlp(_, r) if r.is_empty()
    ));
}

#[test]
fn insertions_are_counted() {
    let mut r = InsertResponse::new();
    assert_eq!(r.status(), 400);
    assert!(r.note(Insertion::Failed("disk".into())));
    assert_eq!(r.otlp_status(), 503);
    assert!(r.note(Insertion::Stored));
    assert!(r.note(Insertion::TimedOut));
    assert!(!r.note(Insertion::Closed));
    assert_eq!((r.accepted, r.rejected), (1, 3));
    assert_eq!(r.errors, vec!["disk", "backpressure timeout", "wal channel closed"]);
    assert_eq!((r.status(), r.otlp_status()), (200, 200));
    assert_eq!(value(&r.to_json())["errors"][0], "disk");
    assert_eq!(value(&paused_body())["accepted"], 0);
}

#[test]
fn syslog_lines_lose_their_ends() {
    let rec = line_to_record("<13>hi\r\n", "p", now()).unwrap();
    assert_eq!(rec.raw, b"<13>hi");
    assert_eq!(rec.protocol, Protocol::SyslogTcp);
    assert!(line_to_record("\r\n", "p", now()).is_none());
    assert_eq!(datagram_to_record(b"x\n", "p", now()).raw, b"x\n");
}

#[test]
fn counters_add_up() {
    let mut c = InsertCounters::new();
    c.record(Protocol::Gelf, 10);
    c.record_n(Protocol::SplunkHec, 3, 30);
    c.record(Protocol::Gelf, 5);
    c.record_error(Protocol::Gelf);
    c.record_error_n(Protocol::K8sAudit, 2);
    c.record_audit_drop();
    assert_eq!((c.records_total, c.bytes_total, c.errors_total), (5, 45, 3));
    assert_eq!(c.audit_dropped_total, 1);
    let sum: u64 = c.per_protocol.iter().map(|p| p.1.records).sum();
    assert_eq!(sum, c.records_total);
    let gelf = c.per_protocol.iter().find(|p| p.0 == "gelf").unwrap().1;
    assert_eq!((gelf.records, gelf.bytes, gelf.errors), (2, 15, 1));
}

#[test]
fn chunks_may_come_more_than_once() {
    let mut chunks = Chunks::new();
    let (mut sweep, five) = (0, 5 * SECOND);
    assert!(handle_chunk(&mut chunks, &chunk(9, 0, 2, b"z"), 0, five, &mut sweep).is_none());
    for seq in [2, 0, 2, 0, 0] {
        let part = chunk(1, seq, 3, &b"abcdef"[2 * seq as usize..2 * seq as usize + 2]);
        assert!(handle_chunk(&mut chunks, &part, 1, five, &mut sweep).is_none());
    }
    let done = handle_chunk(&mut chunks, &chunk(1, 1, 3, b"cd"), 2, five, &mut sweep);
    assert_eq!(done.unwrap(), b"abcdef");
    let done = handle_chunk(&mut chunks, &chunk(9, 1, 2, b"y"), 3, five, &mut sweep);
    assert_eq!(done.unwrap(), b"zy");
    assert!(chunks.is_empty());
}

#[test]
fn bodies_are_read_by_how_they_begin() {
    let now = Timestamp::new(0, 0).unwrap();
    let raws = |body: &str| -> Vec<String> {
        let texts = parse_body(body.as_bytes(), now, "").into_iter();
        texts.map(|r| String::from_utf8(r.raw).unwrap()).collect()
    };
    assert_eq!(raws(" [1,null,{\"a\":2}]"), ["1", "{\"a\":2}"]);
    assert_eq!(raws("{\"a\":[1,2]}"), ["{\"a\":[1,2]}"]);
    // A body that begins like an object is one record, even where it stands for a list.
    assert_eq!(raws("{\"$serde_json::private::RawValue\":\"[1,2]\"}"), ["[1,2]"]);
    assert_eq!(raws("[1\n2"), ["[1", "2"]);
}

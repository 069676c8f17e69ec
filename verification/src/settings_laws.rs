//! What a checked configuration is safe against, and how settings override each other.
use vstd::prelude::*;

use crate::config::{
    BackupConfig, Cli, Config, DockerCollectorConfig, IngestConfig, K8sCollectorConfig, McpMode,
    is_loopback, size_setting, without_port, zone_known,
};
use crate::hot::{
    HotAttributeV, HotType, HotValueV, attrs_view, coerced, shorthand, truth_of, type_named,
    walk_keys,
};
use crate::ingest::parse::path_leaf;
use crate::json::JsonV;
use crate::load::{
    LlmEnv, LlmV, chosen_llm, flag_complaint, hot_flags, is_overlay, limit_flag, limit_flags,
    mode_named, retention_flag, retention_flags,
};
use crate::text::{
    all_digits, all_word_chars, begins, dec, dec_int, is_digit, is_float_text, is_word_char, just,
    lemma_find_by, lemma_trim_bounds, lower, parse_i64_text, rsplit_once, split, split_once,
    texts, trim,
};
use crate::text_laws::{law_naturals_read_back, law_numbers_read_back};
use crate::units::{duration_of, schedule_of, size_of};
use crate::units_laws::law_whole_durations;
use crate::validate::{
    Complaint, config_verdict, first_in, hot_rule, limit_rule, named_before, overlap_rule,
    retention_rule, stage_rule,
};

verus! {

proof fn lemma_none_complains(all: Seq<Complaint>, i: int)
    requires
        first_in(all) is None,
        0 <= i < all.len(),
    ensures
        all[i] is None,
    decreases all.len(),
{
    if i < all.len() - 1 {
        lemma_none_complains(all.drop_last(), i);
    }
}

/// The numbers of an accepted configuration make sense: there is work to do and somebody to
/// do it, and bodies may hold something.
pub proof fn law_accepted_numbers(c: Config, object_storage: bool)
    ensures
        c.ingest_workers == 0 || c.wal_batch_max_records == 0 || c.hot_tier_hours < 1
            || c.http_max_body_bytes == 0 || c.duckdb_threads > 4096 || c.mcp_mode == McpMode::Sse
            ==> config_verdict(c, object_storage) is Err,
        c.backup.enabled && c.backup.keep_last == 0 ==> config_verdict(c, object_storage) is Err,
        c.error_tracking.enabled && c.error_tracking.samples_per_group == 0 ==> config_verdict(
            c,
            object_storage,
        ) is Err,
        c.collector.docker.enabled && c.collector.docker.refresh_secs == 0 ==> config_verdict(
            c,
            object_storage,
        ) is Err,
        c.collector.kubernetes.enabled && c.collector.kubernetes.refresh_secs == 0
            ==> config_verdict(c, object_storage) is Err,
{
}

/// The texts of an accepted configuration can be read: the codec is known, and durations,
/// sizes, schedules and zones are what they are to be.
pub proof fn law_accepted_texts(c: Config, object_storage: bool)
    requires
        config_verdict(c, object_storage) is Ok,
    ensures
        ({
            let w = lower(c.parquet_compression@);
            w == "zstd"@ || w == "snappy"@ || w == "gzip"@ || w == "lz4"@ || w == "uncompressed"@
        }),
        c.retention.hot_max_age matches Some(t) ==> duration_of(t@) is Ok,
        c.retention.hot_max_bytes matches Some(t) ==> size_of(t@) is Ok,
        c.retention.wal_max_bytes matches Some(t) ==> size_of(t@) is Ok,
        c.backup.enabled ==> schedule_of(c.backup.schedule@) is Ok,
        c.backup.enabled && schedule_of(c.backup.schedule@)->Ok_0 is Daily ==> zone_known(
            c.backup.timezone@,
        ),
        c.collector.kubernetes.enabled ==> begins(
            trim(c.collector.kubernetes.api_url@),
            "http://"@,
        ) || begins(trim(c.collector.kubernetes.api_url@), "https://"@),
{
}

/// Where things are stored away, there is a place for them, and the program can reach it.
pub proof fn law_accepted_stores(c: Config, object_storage: bool)
    requires
        config_verdict(c, object_storage) is Ok,
    ensures
        c.cold_storage.enabled ==> object_storage && (c.cold_storage.backend@ == "s3"@
            || c.cold_storage.backend@ == "gcs"@) && trim(c.cold_storage.bucket@).len() > 0,
        c.backup.enabled && trim(c.backup.backend@).len() > 0 ==> object_storage && (
        c.backup.backend@ == "s3"@ || c.backup.backend@ == "gcs"@) && trim(
            c.backup.bucket@,
        ).len() > 0,
        c.ingest.gelf.enabled ==> trim(c.ingest.gelf.udp_bind@).len() > 0 || trim(
            c.ingest.gelf.tcp_bind@,
        ).len() > 0,
        c.ingest.fluentd.enabled ==> trim(c.ingest.fluentd.tcp_bind@).len() > 0,
{
}

/// Every override of an accepted configuration has a pattern and keeps something.
pub proof fn law_accepted_overrides(c: Config, object_storage: bool, i: int)
    requires
        config_verdict(c, object_storage) is Ok,
    ensures
        0 <= i < c.service_retention@.len() ==> c.service_retention@[i].days >= 1 && trim(
            c.service_retention@[i].pattern@,
        ).len() > 0 && !c.service_retention@[i].pattern@.contains('/'),
        0 <= i < c.service_query_limits@.len() ==> c.service_query_limits@[i].max_window_secs >= 1
            && trim(c.service_query_limits@[i].pattern@).len() > 0
            && !c.service_query_limits@[i].pattern@.contains('/'),
{
    if 0 <= i < c.service_retention@.len() {
        let all = Seq::new(
            c.service_retention@.len(),
            |i: int| retention_rule(c.service_retention@[i]),
        );
        lemma_none_complains(all, i);
        assert(all[i] == retention_rule(c.service_retention@[i]));
    }
    if 0 <= i < c.service_query_limits@.len() {
        let all = Seq::new(
            c.service_query_limits@.len(),
            |i: int| limit_rule(c.service_query_limits@[i]),
        );
        lemma_none_complains(all, i);
        assert(all[i] == limit_rule(c.service_query_limits@[i]));
    }
}

/// No promoted attribute of an accepted configuration hides a column, shares its name with
/// another, or is dropped.
pub proof fn law_accepted_attributes(c: Config, object_storage: bool, i: int, j: int)
    requires
        config_verdict(c, object_storage) is Ok,
        0 <= i < c.hot_attributes@.len(),
        0 <= j < i,
    ensures
        c.hot_attributes@[i].name@ != c.hot_attributes@[j].name@,
        c.hot_attributes@[i].name@ != "ts"@,
        c.hot_attributes@[i].name@ != "insert_ts"@,
        c.hot_attributes@[i].name@ != "source_host"@,
        c.hot_attributes@[i].name@ != "service"@,
        c.hot_attributes@[i].name@ != "level"@,
        c.hot_attributes@[i].name@ != "message"@,
        c.hot_attributes@[i].name@ != "fingerprint"@,
        c.hot_attributes@[i].name@ != "trace_id"@,
        c.hot_attributes@[i].name@ != "span_id"@,
        c.hot_attributes@[i].name@ != "attributes"@,
        c.hot_attributes@[i].name@ != "geo_country"@,
        c.hot_attributes@[i].name@ != "raw_len"@,
        c.hot_attributes@[i].name@ != "protocol"@,
        !texts(c.drop_attributes@).contains(path_leaf(c.hot_attributes@[i].json_path@)),
{
    let hot = attrs_view(c.hot_attributes@);
    let dropped = texts(c.drop_attributes@);
    let rules = Seq::new(hot.len(), |i: int| hot_rule(hot, i));
    let overlaps = Seq::new(hot.len(), |i: int| overlap_rule(hot[i], dropped));
    lemma_none_complains(rules, i);
    lemma_none_complains(overlaps, i);
    assert(rules[i] == hot_rule(hot, i));
    assert(overlaps[i] == overlap_rule(hot[i], dropped));
    assert(hot[i].name == c.hot_attributes@[i].name@);
    assert(hot[j].name == c.hot_attributes@[j].name@);
    if hot[i].name == hot[j].name {
        assert(named_before(hot, i));
    }
}

/// The command line counts before the file: what it says holds, and what it does not say is
/// as in the file.
pub proof fn law_flags_count_first(c: Config, base: Config, env: LlmEnv, cli: Cli)
    requires
        is_overlay(c, base, env, cli),
    ensures
        cli.http_port matches Some(p) ==> c.http_port == p,
        cli.http_port is None ==> c.http_port == base.http_port,
        cli.duckdb_threads matches Some(n) ==> c.duckdb_threads == n,
        cli.duckdb_threads is None ==> c.duckdb_threads == base.duckdb_threads,
        cli.http_api_key matches Some(k) ==> c.http_api_key@ == k@,
        cli.http_api_key is None ==> c.http_api_key@ == base.http_api_key@,
        cli.data_dir matches Some(d) ==> c.data_dir@ == d@,
        cli.data_dir is None ==> c.data_dir@ == base.data_dir@ && c.duckdb_path@
            == base.duckdb_path@ && c.parquet_dir@ == base.parquet_dir@,
        cli.no_syslog_udp ==> !c.syslog_udp_enabled,
        cli.no_syslog_tcp ==> !c.syslog_tcp_enabled,
        cli.no_sentry_ingest ==> !c.error_tracking.enabled,
        !cli.no_syslog_udp ==> c.syslog_udp_enabled == base.syslog_udp_enabled,
        !cli.no_syslog_tcp ==> c.syslog_tcp_enabled == base.syslog_tcp_enabled,
        cli.enable_alert_mcp_tool ==> c.enable_alert_mcp_tool,
        cli.no_unwrap_message_json ==> !c.unwrap_message_json,
        cli.mcp_mode matches Some(m) ==> (m@ == "off"@ ==> c.mcp_mode == McpMode::Off) && (m@
            == "stdio"@ ==> c.mcp_mode == McpMode::Stdio),
        cli.mcp_mode is None ==> c.mcp_mode == base.mcp_mode,
        c.ingest_workers == base.ingest_workers,
        c.http_bind == base.http_bind,
        c.backup == base.backup,
        c.retention == base.retention,
{
    reveal_strlit("off");
    reveal_strlit("stdio");
    assert("off"@.len() == 3 && "stdio"@.len() == 5);
}

/// Under another data directory the database and the files stand in it.
pub proof fn law_files_stand_in_the_data_directory(c: Config, base: Config, env: LlmEnv, cli: Cli)
    requires
        is_overlay(c, base, env, cli),
        cli.data_dir is Some,
        cli.data_dir->0@.len() > 0,
        cli.data_dir->0@.last() != '/',
    ensures
        c.duckdb_path@ == cli.data_dir->0@ + "/"@ + "central.duckdb"@,
        c.parquet_dir@ == cli.data_dir->0@ + "/"@ + "parquet"@,
{
}

/// A model is chosen by the environment only where the file names none and there is a key;
/// each provider has a model of its own where none is named.
pub proof fn law_models_are_chosen(configured: LlmV, env: LlmEnv, key: Seq<char>)
    requires
        env.api_key is Some,
        trim(env.api_key->0@) == key,
        env.model is None,
        env.base_url is None,
        env.provider is Some,
    ensures
        !(configured is Off) || key.len() == 0 ==> chosen_llm(configured, env) == Ok::<
            LlmV,
            Seq<char>,
        >(configured),
        configured is Off && key.len() > 0 ==> {
            let provider = lower(trim(env.provider->0@));
            &&& provider == "openai"@ ==> chosen_llm(configured, env) == Ok::<LlmV, Seq<char>>(
                LlmV::Openai { api_key: key, model: "gpt-4o-mini"@, base_url: None },
            )
            &&& provider == "9inference"@ ==> chosen_llm(configured, env) == Ok::<LlmV, Seq<char>>(
                LlmV::NineInference { api_key: key, model: "nemotron-3-ultra"@ },
            )
            &&& provider == "anthropic"@ ==> chosen_llm(configured, env) == Ok::<LlmV, Seq<char>>(
                LlmV::Anthropic { api_key: key, model: env.anthropic_model@, base_url: None },
            )
            &&& provider != "openai"@ && provider != "9inference"@ && provider != "anthropic"@
                ==> chosen_llm(configured, env) is Err
        },
{
    reveal_strlit("openai");
    reveal_strlit("9inference");
    reveal_strlit("anthropic");
    assert("openai"@.len() == 6 && "9inference"@.len() == 10 && "anthropic"@.len() == 9);
    let none = Seq::<char>::empty();
    let (lo, hi) = lemma_trim_bounds(none);
    assert(trim(none) =~= none);
}

/// A pattern and its number stand on either side of the last `=`.
pub proof fn law_retention_flags(pattern: Seq<char>, n: u64)
    ensures
        retention_flag(pattern + seq!['='] + dec(n as nat)) == Ok::<(Seq<char>, u64), Seq<char>>(
            (pattern, n),
        ),
{
    law_naturals_read_back(n as nat);
    let d = dec(n as nat);
    lemma_last_separator(pattern, d, d.len() as int);
    assert(d.take(d.len() as int) =~= d);
}

proof fn lemma_last_separator(head: Seq<char>, tail: Seq<char>, n: int)
    requires
        0 <= n <= tail.len(),
        all_digits(tail),
    ensures
        rsplit_once(head + seq!['='] + tail.take(n), '=') == Some((head, tail.take(n))),
    decreases n,
{
    let s = head + seq!['='] + tail.take(n);
    if n == 0 {
        assert(tail.take(0) =~= Seq::<char>::empty());
        assert(s.last() == '=');
        assert(s.drop_last() =~= head);
        assert(rsplit_once(s, '=') == Some((s.drop_last(), Seq::<char>::empty())));
    } else {
        assert(is_digit(tail[n - 1]));
        assert(s.last() == tail[n - 1]);
        assert(s.drop_last() =~= head + seq!['='] + tail.take(n - 1));
        lemma_last_separator(head, tail, n - 1);
        assert(tail.take(n - 1).push(tail[n - 1]) =~= tail.take(n));
    }
}

/// A promoted attribute is written as its name, its type and its path; without a path it is
/// looked for under its name, and without a type it is a text.
pub proof fn law_promotions_are_written(name: Seq<char>, kind: Seq<char>, path: Seq<char>)
    requires
        name.len() > 0,
        all_word_chars(name),
        !is_digit(name[0]),
        all_word_chars(kind),
        type_named(kind) is Some,
    ensures
        shorthand(name) == Ok::<HotAttributeV, Seq<char>>(
            HotAttributeV { name, duckdb_type: HotType::Varchar, json_path: "$."@ + name },
        ),
        shorthand(name + seq![':'] + kind) == Ok::<HotAttributeV, Seq<char>>(
            HotAttributeV { name, duckdb_type: type_named(kind)->0, json_path: "$."@ + name },
        ),
        shorthand(name + seq![':'] + (kind + seq![':'] + path)) == Ok::<HotAttributeV, Seq<char>>(
            HotAttributeV { name, duckdb_type: type_named(kind)->0, json_path: path },
        ),
{
    lemma_no_colon(name);
    lemma_no_colon(kind);
    lemma_split_at_colon(name, kind);
    lemma_split_at_colon(name, kind + seq![':'] + path);
    lemma_split_at_colon(kind, path);
    reveal_strlit("varchar");
    reveal_strlit("bigint");
    reveal_strlit("i64");
    reveal_strlit("int");
    reveal_strlit("long");
    reveal_strlit("double");
    reveal_strlit("f64");
    reveal_strlit("float");
    assert(lower("varchar"@) =~= "varchar"@);
    assert("varchar"@.len() == 7 && "bigint"@.len() == 6 && "i64"@.len() == 3 && "int"@.len() == 3
        && "long"@.len() == 4 && "double"@.len() == 6 && "f64"@.len() == 3 && "float"@.len() == 5);
}

proof fn lemma_no_colon(s: Seq<char>)
    requires
        all_word_chars(s),
    ensures
        split_once(s, ':') is None,
        forall|i: int| 0 <= i < s.len() ==> #[trigger] s[i] != ':',
{
    assert forall|i: int| 0 <= i < s.len() implies #[trigger] s[i] != ':' && !just(':')(s[i]) by {
        assert(is_word_char(s[i]));
    }
    lemma_find_by(s, just(':'), s.len() as int);
}

proof fn lemma_split_at_colon(a: Seq<char>, b: Seq<char>)
    requires
        forall|i: int| 0 <= i < a.len() ==> #[trigger] a[i] != ':',
    ensures
        split_once(a + seq![':'] + b, ':') == Some((a, b)),
{
    let s = a + seq![':'] + b;
    let n = a.len() as int;
    assert forall|i: int| 0 <= i < n implies !just(':')(#[trigger] s[i]) by {
        assert(s[i] == a[i]);
    }
    assert(s[n] == ':');
    lemma_find_by(s, just(':'), n);
    assert(s.subrange(0, n) =~= a);
    assert(s.subrange(n + 1, s.len() as int) =~= b);
}

/// The words for types, in any case.
pub proof fn law_type_words(w: Seq<char>)
    ensures
        lower(w) == "bigint"@ || lower(w) == "i64"@ || lower(w) == "int"@ || lower(w) == "long"@
            ==> type_named(w) == Some(HotType::Bigint),
        lower(w) == "boolean"@ || lower(w) == "bool"@ ==> type_named(w) == Some(HotType::Boolean),
        lower(w) == "varchar"@ || lower(w) == "text"@ || lower(w) == "string"@ ==> type_named(w)
            == Some(HotType::Varchar),
        lower(w) == "double"@ || lower(w) == "f64"@ || lower(w) == "float"@ ==> type_named(w)
            == Some(HotType::Double),
{
    reveal_strlit("bigint");
    reveal_strlit("i64");
    reveal_strlit("int");
    reveal_strlit("long");
    reveal_strlit("double");
    reveal_strlit("f64");
    reveal_strlit("float");
    reveal_strlit("varchar");
    reveal_strlit("text");
    reveal_strlit("string");
    reveal_strlit("boolean");
    reveal_strlit("bool");
    assert("bigint"@.len() == 6 && "bigint"@[0] == 'b' && "i64"@.len() == 3 && "i64"@[0] == 'i'
        && "int"@.len() == 3 && "int"@[0] == 'i' && "long"@.len() == 4 && "long"@[0] == 'l');
    assert("double"@.len() == 6 && "double"@[0] == 'd' && "f64"@.len() == 3 && "f64"@[0] == 'f'
        && "float"@.len() == 5);
    assert("varchar"@.len() == 7 && "varchar"@[0] == 'v' && "text"@.len() == 4 && "text"@[0] == 't'
        && "string"@.len() == 6 && "string"@[0] == 's');
    assert("boolean"@.len() == 7 && "boolean"@[0] == 'b' && "bool"@.len() == 4 && "bool"@[0]
        == 'b');
}

/// What a value becomes in a column: it keeps its kind where it fits, and is none where not.
pub proof fn law_values_in_columns(s: Seq<char>, n: i64, b: bool)
    ensures
        coerced(JsonV::Str(s), HotType::Varchar) == HotValueV::Varchar(s),
        coerced(JsonV::Num(dec_int(n as int)), HotType::Bigint) == HotValueV::Bigint(n),
        coerced(JsonV::Str(dec_int(n as int)), HotType::Bigint) == HotValueV::Bigint(n),
        coerced(JsonV::Num(dec_int(n as int)), HotType::Double) == HotValueV::Double(
            dec_int(n as int),
        ),
        coerced(JsonV::Num(dec_int(n as int)), HotType::Varchar) == HotValueV::Varchar(
            dec_int(n as int),
        ),
        coerced(JsonV::Bool(b), HotType::Boolean) == HotValueV::Boolean(b),
        coerced(JsonV::Bool(true), HotType::Bigint) == HotValueV::Bigint(1),
        coerced(JsonV::Bool(false), HotType::Bigint) == HotValueV::Bigint(0),
        coerced(JsonV::Bool(true), HotType::Varchar) == HotValueV::Varchar("true"@),
        coerced(JsonV::Bool(false), HotType::Varchar) == HotValueV::Varchar("false"@),
        parse_i64_text(s) is None ==> coerced(JsonV::Str(s), HotType::Bigint) is Null,
        !is_float_text(s) ==> coerced(JsonV::Str(s), HotType::Double) is Null,
        forall|ty: HotType| #[trigger] coerced(JsonV::Null, ty) is Null,
        coerced(JsonV::Num(dec_int(n as int)), HotType::Boolean) == (if n == 0 {
            HotValueV::Boolean(false)
        } else if n == 1 {
            HotValueV::Boolean(true)
        } else {
            HotValueV::Null
        }),
{
    law_numbers_read_back(n);
}

/// The words for truth, in any case.
pub proof fn law_truth_words(w: Seq<char>)
    ensures
        lower(w) == "true"@ || lower(w) == "yes"@ || lower(w) == "1"@ || lower(w) == "on"@
            ==> truth_of(w) == Some(true),
        lower(w) == "false"@ || lower(w) == "no"@ || lower(w) == "0"@ || lower(w) == "off"@
            ==> truth_of(w) == Some(false),
{
    reveal_strlit("true");
    reveal_strlit("yes");
    reveal_strlit("1");
    reveal_strlit("on");
    reveal_strlit("false");
    reveal_strlit("no");
    reveal_strlit("0");
    reveal_strlit("off");
    assert("true"@.len() == 4 && "yes"@.len() == 3 && "yes"@[0] == 'y' && "1"@.len() == 1 && "1"@[0]
        == '1' && "on"@.len() == 2 && "on"@[0] == 'o');
    assert("false"@.len() == 5 && "no"@.len() == 2 && "no"@[0] == 'n' && "0"@.len() == 1 && "0"@[0]
        == '0' && "off"@.len() == 3 && "off"@[0] == 'o');
}

/// The addresses of this host alone.
pub proof fn law_loopback_addresses(bind: Seq<char>)
    requires
        trim(bind) == bind,
    ensures
        bind == "::1"@ || bind == "[::1]"@ ==> is_loopback(bind),
        begins(bind, "[::1]:"@) ==> is_loopback(bind),
        trim(split(bind, ':')[0]) == "127.0.0.1"@ ==> is_loopback(bind),
        trim(split(bind, ':')[0]) == "localhost"@ ==> is_loopback(bind),
        trim(split(bind, ':')[0]) == "0.0.0.0"@ && !begins(bind, "["@) && bind != "::1"@
            ==> !is_loopback(bind),
{
    reveal_strlit("127.0.0.1");
    reveal_strlit("localhost");
    reveal_strlit("0.0.0.0");
    reveal_strlit("[::1]");
    reveal_strlit("[::1]:");
    reveal_strlit("[");
    assert("127.0.0.1"@.len() == 9 && "localhost"@.len() == 9 && "0.0.0.0"@.len() == 7);
    if bind == "[::1]"@ {
        assert(bind.subrange(0, 1) =~= "["@);
    }
    if begins(bind, "[::1]:"@) {
        assert(bind.subrange(0, 6)[0] == '[');
        assert(bind.subrange(0, 1) =~= "["@);
    }
}

/// The port at the end of an address is taken off.
pub proof fn law_ports_are_taken_off(host: Seq<char>, port: u16)
    requires
        !host.contains(':'),
    ensures
        without_port(host + seq![':'] + dec(port as nat)) == host,
        without_port(host) == host,
{
    law_naturals_read_back(port as nat);
    let d = dec(port as nat);
    lemma_last_of(host, d, d.len() as int);
    assert(d.take(d.len() as int) =~= d);
    lemma_without(host);
}

proof fn lemma_without(s: Seq<char>)
    requires
        !s.contains(':'),
    ensures
        rsplit_once(s, ':') is None,
    decreases s.len(),
{
    if s.len() > 0 {
        assert(s[s.len() - 1] != ':');
        let d = s.drop_last();
        assert forall|i: int| 0 <= i < d.len() implies d[i] != ':' by {
            assert(s[i] != ':');
        }
        lemma_without(d);
    }
}

proof fn lemma_last_of(head: Seq<char>, tail: Seq<char>, n: int)
    requires
        0 <= n <= tail.len(),
        all_digits(tail),
    ensures
        rsplit_once(head + seq![':'] + tail.take(n), ':') == Some((head, tail.take(n))),
    decreases n,
{
    let s = head + seq![':'] + tail.take(n);
    if n == 0 {
        assert(tail.take(0) =~= Seq::<char>::empty());
        assert(s.last() == ':');
        assert(s.drop_last() =~= head);
        assert(rsplit_once(s, ':') == Some((s.drop_last(), Seq::<char>::empty())));
    } else {
        assert(is_digit(tail[n - 1]));
        assert(s.last() == tail[n - 1]);
        assert(s.drop_last() =~= head + seq![':'] + tail.take(n - 1));
        lemma_last_of(head, tail, n - 1);
        assert(tail.take(n - 1).push(tail[n - 1]) =~= tail.take(n));
    }
}

/// Query limits are written as a pattern and a duration.
pub proof fn law_limit_flags(pattern: Seq<char>, n: u64)
    requires
        n <= 1_000_000_000_000,
    ensures
        limit_flag(pattern + seq!['='] + dec(n as nat)) == Ok::<(Seq<char>, u64), Seq<char>>(
            (pattern, n),
        ),
{
    law_naturals_read_back(n as nat);
    law_whole_durations(n);
    let d = dec(n as nat);
    lemma_last_separator(pattern, d, d.len() as int);
    assert(d.take(d.len() as int) =~= d);
}

/// The stages of audit events that may be left out are those that there are.
pub proof fn law_stages_that_exist(c: Config, object_storage: bool, i: int)
    requires
        config_verdict(c, object_storage) is Ok,
        c.ingest.k8s_audit.enabled,
        0 <= i < c.ingest.k8s_audit.omit_stages@.len(),
    ensures
        ({
            let s = c.ingest.k8s_audit.omit_stages@[i]@;
            s == "RequestReceived"@ || s == "ResponseStarted"@ || s == "ResponseComplete"@ || s
                == "Panic"@
        }),
{
    let stages = texts(c.ingest.k8s_audit.omit_stages@);
    let all = Seq::new(stages.len(), |i: int| stage_rule(stages[i]));
    lemma_none_complains(all, i);
    assert(all[i] == stage_rule(stages[i]));
}

/// What the defaults are: backups are off, at half past one where they are on; the listeners
/// of other protocols are off; and collectors look every half minute.
pub proof fn law_default_settings(
    b: BackupConfig,
    i: IngestConfig,
    d: DockerCollectorConfig,
    k: K8sCollectorConfig,
)
    ensures
        b.is_default() ==> !b.enabled && b.schedule@ == "daily@01:30"@ && b.timezone@ == "UTC"@
            && b.keep_last == 14 && b.keep_local_copy,
        i.is_default() ==> !i.gelf.enabled && !i.fluentd.enabled && !i.splunk_hec.enabled
            && !i.k8s_audit.enabled && i.gelf.udp_bind@ == "0.0.0.0:12201"@ && i.gelf.tcp_bind@
            == "0.0.0.0:12201"@ && i.gelf.chunk_timeout_secs == 5 && i.fluentd.tcp_bind@
            == "0.0.0.0:24224"@ && i.fluentd.ack,
        d.is_default() ==> !d.enabled && d.socket@ == "unix:///var/run/docker.sock"@
            && d.refresh_secs == 30,
        k.is_default() ==> !k.enabled && k.api_url@ == "https://kubernetes.default.svc"@
            && k.refresh_secs == 30 && !k.insecure_tls,
{
}

/// The first flag that cannot be read is the one that is complained of: the model's
/// settings, then the mode, then the promoted attributes, the retentions and the limits.
pub proof fn law_flags_are_read(base: Config, env: LlmEnv, cli: Cli)
    ensures
        ({
            let said = flag_complaint(base, env, cli);
            let hot = hot_flags(texts(cli.hot_attributes@));
            let kept = retention_flags(texts(cli.service_retention@));
            let limit = limit_flags(texts(cli.service_query_limits@));
            match chosen_llm(base.llm@, env) {
                Err(m) => said == Some(m),
                Ok(_) => if cli.mcp_mode is Some && mode_named(cli.mcp_mode->0@) is None {
                    said == Some("unknown mcp_mode: "@ + cli.mcp_mode->0@)
                } else {
                    &&& hot matches Err(m) ==> said == Some(m)
                    &&& hot is Ok ==> (kept matches Err(m) ==> said == Some(m))
                    &&& hot is Ok && kept is Ok ==> (limit matches Err(m) ==> said == Some(m))
                    &&& said is None <==> hot is Ok && kept is Ok && limit is Ok
                }
            }
        }),
{
}

/// A size that is set and can be read is in force, and no other.
pub proof fn law_sizes_that_are_set(s: String)
    ensures
        size_of(s@) matches Ok(n) ==> size_setting(Some(s)) == Some(n),
        size_of(s@) is Err ==> size_setting(Some(s)) is None,
        size_setting(None) is None,
{
}

/// A path leads from a value to a member of it, and on from there; where a member is missing
/// it leads nowhere.
pub proof fn law_paths_lead_to_members(v: JsonV, key: Seq<char>, rest: Seq<Seq<char>>)
    requires
        key.len() > 0,
    ensures
        walk_keys(v, Seq::empty()) == Some(v),
        v matches JsonV::Obj(m) ==> (m.contains_key(key) ==> walk_keys(v, seq![key] + rest)
            == walk_keys(m[key], rest)),
        v matches JsonV::Obj(m) ==> (!m.contains_key(key) ==> walk_keys(v, seq![key] + rest)
            is None),
        !(v is Obj) ==> walk_keys(v, seq![key] + rest) is None,
        walk_keys(v, seq![Seq::<char>::empty()] + rest) == walk_keys(v, rest),
{
    assert((seq![key] + rest).drop_first() =~= rest);
    assert((seq![Seq::<char>::empty()] + rest).drop_first() =~= rest);
}

} // verus!

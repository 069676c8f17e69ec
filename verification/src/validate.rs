//! What makes a configuration acceptable. Each rule gives the complaint that it
//! has, if any; the first complaint in the order of the rules is the one that is
//! reported.
use vstd::prelude::*;
use vstd::string::*;
use vstd::utf8::encode_utf8;

use crate::config::{
    BackupConfig, Config, McpMode, ServiceQueryLimit, ServiceRetention, is_zone, zone_known,
};
use crate::error::{Error, ErrorV, error_text};
use crate::float::read_float;
use crate::hot::{HotAttribute, HotAttributeV, attrs_view};
use crate::ingest::parse::path_leaf;
use crate::text::{
    begins, cat, cat3, char_is_alpha, chars_of, contains_char, float_text_ok, is_float_text,
    lemma_trim_end, list_contains, lower, opt_text, same, starts_with, string_between,
    strip_prefix, texts, to_lower, to_upper, trim, trim_end_by, trimmed, upper,
};
use crate::units::{
    Schedule, alpha_class, duration_of, parse_duration, parse_size, positive_signed, schedule_of,
    size_of, spells_positive,
};

verus! {

/// A complaint about a configuration, if there is one.
pub type Complaint = Option<Seq<char>>;

/// The first complaint of two rules.
pub open spec fn first(a: Complaint, b: Complaint) -> Complaint {
    match a {
        Some(m) => Some(m),
        None => b,
    }
}

/// The first complaint of several rules.
pub open spec fn first_in(all: Seq<Complaint>) -> Complaint
    decreases all.len(),
{
    if all.len() == 0 {
        None
    } else {
        first(first_in(all.drop_last()), all.last())
    }
}

proof fn lemma_first_in(all: Seq<Complaint>, n: int)
    requires
        0 <= n <= all.len(),
        first_in(all.take(n)) is Some,
    ensures
        first_in(all) == first_in(all.take(n)),
    decreases all.len() - n,
{
    if n == all.len() {
        assert(all.take(n) == all);
    } else {
        assert(all.take(n + 1).drop_last() == all.take(n));
        lemma_first_in(all, n + 1);
    }
}

/// A complaint where a rule is broken.
pub open spec fn complain(broken: bool, msg: Seq<char>) -> Complaint {
    if broken {
        Some(msg)
    } else {
        None
    }
}

/// Whether a text is blank.
pub open spec fn blank(s: Seq<char>) -> bool {
    trim(s).len() == 0
}

fn is_blank(s: &str) -> (r: bool)
    ensures
        r == blank(s@),
{
    let t = trimmed(s);
    t.as_str().is_empty()
}

fn complaint(msg: &str) -> (r: Option<String>)
    ensures
        opt_text(r) == Some(msg@),
{
    Some(msg.to_owned())
}

// ---------------------------------------------------------------------
// Engine
// ---------------------------------------------------------------------
/// Rules on the basic numbers.
pub open spec fn basic_rules(c: Config) -> Complaint {
    first(
        complain(
            c.mcp_mode == McpMode::Sse,
            "mcp_mode = 'sse' is not implemented in this version; use 'stdio' for local agent integration or 'off'. Remote MCP access over HTTP is tracked as future work (architecture §7)."@,
        ),
        first(
            complain(c.wal_batch_max_records == 0, "wal_batch_max_records must be > 0"@),
            first(
                complain(c.ingest_workers == 0, "ingest_workers must be > 0"@),
                complain(c.hot_tier_hours < 1, "hot_tier_hours must be >= 1"@),
            ),
        ),
    )
}

fn check_basics(c: &Config) -> (r: Option<String>)
    ensures
        opt_text(r) == basic_rules(*c),
{
    if c.mcp_mode == McpMode::Sse {
        complaint(
            "mcp_mode = 'sse' is not implemented in this version; use 'stdio' for local agent integration or 'off'. Remote MCP access over HTTP is tracked as future work (architecture §7).",
        )
    } else if c.wal_batch_max_records == 0 {
        complaint("wal_batch_max_records must be > 0")
    } else if c.ingest_workers == 0 {
        complaint("ingest_workers must be > 0")
    } else if c.hot_tier_hours < 1 {
        complaint("hot_tier_hours must be >= 1")
    } else {
        None
    }
}

/// Whether a text names a compression codec, in any case.
pub open spec fn is_codec(s: Seq<char>) -> bool {
    let w = lower(s);
    w == "zstd"@ || w == "snappy"@ || w == "gzip"@ || w == "lz4"@ || w == "uncompressed"@
}

/// The rule on the compression codec.
pub open spec fn codec_rule(c: Config) -> Complaint {
    complain(
        !is_codec(c.parquet_compression@),
        "parquet_compression must be one of [\"zstd\", \"snappy\", \"gzip\", \"lz4\", \"uncompressed\"] (got '"@
            + c.parquet_compression@ + "')"@,
    )
}

fn check_codec(c: &Config) -> (r: Option<String>)
    ensures
        opt_text(r) == codec_rule(*c),
{
    let lowered = to_lower(c.parquet_compression.as_str());
    let w = lowered.as_str();
    if same(w, "zstd") || same(w, "snappy") || same(w, "gzip") || same(w, "lz4") || same(
        w,
        "uncompressed",
    ) {
        None
    } else {
        Some(
            cat3(
                "parquet_compression must be one of [\"zstd\", \"snappy\", \"gzip\", \"lz4\", \"uncompressed\"] (got '",
                c.parquet_compression.as_str(),
                "')",
            ),
        )
    }
}

/// Whether a trimmed text is a memory limit: a number above zero, and a unit.
pub open spec fn is_memory_limit(ml: Seq<char>) -> bool {
    let number = trim_end_by(ml, alpha_class());
    let unit = upper(ml.subrange(number.len() as int, ml.len() as int));
    number.len() > 0 && is_float_text(number) && positive_signed(number) && (unit.len() == 0 || unit
        == "B"@ || unit == "KB"@ || unit == "MB"@ || unit == "GB"@ || unit == "TB"@)
}

/// Rules on the database engine.
pub open spec fn engine_rules(c: Config) -> Complaint {
    let ml = trim(c.duckdb_memory_limit@);
    first(
        complain(
            ml.len() > 0 && !is_memory_limit(ml),
            "duckdb_memory_limit must look like '512MB', '2GB' or plain bytes (got '"@
                + c.duckdb_memory_limit@ + "')"@,
        ),
        complain(c.duckdb_threads > 4096, "duckdb_threads must be between 0 (auto) and 4096"@),
    )
}

fn memory_limit_ok(ml: &str) -> (r: bool)
    ensures
        r == is_memory_limit(ml@),
{
    let v = chars_of(ml);
    let n: usize = v.len();
    let mut k: usize = n;
    while k > 0 && char_is_alpha(v[k - 1])
        invariant
            n == v@.len(),
            k <= n,
            forall|i: int| k <= i < n ==> alpha_class()(#[trigger] v@[i]),
        decreases k,
    {
        k -= 1;
    }
    proof {
        lemma_trim_end(v@, alpha_class(), k as int);
    }
    let number = string_between(v.as_slice(), 0, k);
    let tail = string_between(v.as_slice(), k, n);
    let unit = to_upper(tail.as_str());
    let u = unit.as_str();
    if k == 0 || !float_text_ok(number.as_str()) {
        return false;
    }
    let bits = read_float(number.as_str());
    spells_positive(number.as_str(), bits) && (u.is_empty() || same(u, "B") || same(u, "KB")
        || same(u, "MB") || same(u, "GB") || same(u, "TB"))
}

fn check_engine(c: &Config) -> (r: Option<String>)
    ensures
        opt_text(r) == engine_rules(*c),
{
    let ml = trimmed(c.duckdb_memory_limit.as_str());
    if !ml.as_str().is_empty() && !memory_limit_ok(ml.as_str()) {
        Some(
            cat3(
                "duckdb_memory_limit must look like '512MB', '2GB' or plain bytes (got '",
                c.duckdb_memory_limit.as_str(),
                "')",
            ),
        )
    } else if c.duckdb_threads > 4096 {
        complaint("duckdb_threads must be between 0 (auto) and 4096")
    } else {
        None
    }
}

// ---------------------------------------------------------------------
// Services
// ---------------------------------------------------------------------
/// The rule on one retention override.
pub open spec fn retention_rule(r: ServiceRetention) -> Complaint {
    first(
        complain(blank(r.pattern@), "service_retention patterns must be non-empty"@),
        first(
            complain(
                r.pattern@.contains('/'),
                "service_retention pattern '"@ + r.pattern@ + "' must not contain '/'"@,
            ),
            complain(
                r.days == 0,
                "service_retention pattern '"@ + r.pattern@ + "' must have days >= 1"@,
            ),
        ),
    )
}

fn check_retention_rule(x: &ServiceRetention) -> (r: Option<String>)
    ensures
        opt_text(r) == retention_rule(*x),
{
    let p = x.pattern.as_str();
    if is_blank(p) {
        complaint("service_retention patterns must be non-empty")
    } else if contains_char(p, '/') {
        Some(cat3("service_retention pattern '", p, "' must not contain '/'"))
    } else if x.days == 0 {
        Some(cat3("service_retention pattern '", p, "' must have days >= 1"))
    } else {
        None
    }
}

/// The rule on one query limit.
pub open spec fn limit_rule(x: ServiceQueryLimit) -> Complaint {
    first(
        complain(
            blank(x.pattern@) || x.pattern@.contains('/'),
            "service_query_limits pattern '"@ + x.pattern@
                + "' must be non-empty and contain no '/'"@,
        ),
        complain(
            x.max_window_secs == 0,
            "service_query_limits pattern '"@ + x.pattern@ + "' must have max_window_secs >= 1"@,
        ),
    )
}

fn check_limit_rule(x: &ServiceQueryLimit) -> (r: Option<String>)
    ensures
        opt_text(r) == limit_rule(*x),
{
    let p = x.pattern.as_str();
    if is_blank(p) || contains_char(p, '/') {
        Some(
            cat3(
                "service_query_limits pattern '",
                p,
                "' must be non-empty and contain no '/'",
            ),
        )
    } else if x.max_window_secs == 0 {
        Some(cat3("service_query_limits pattern '", p, "' must have max_window_secs >= 1"))
    } else {
        None
    }
}

/// Rules on the retention overrides and the query limits.
pub open spec fn service_rules(c: Config) -> Complaint {
    first(
        first_in(
            Seq::new(c.service_retention@.len(), |i: int| retention_rule(c.service_retention@[i])),
        ),
        first_in(
            Seq::new(
                c.service_query_limits@.len(),
                |i: int| limit_rule(c.service_query_limits@[i]),
            ),
        ),
    )
}

fn check_services(c: &Config) -> (r: Option<String>)
    ensures
        opt_text(r) == service_rules(*c),
{
    let ghost rules = Seq::new(
        c.service_retention@.len(),
        |i: int| retention_rule(c.service_retention@[i]),
    );
    for i in 0..c.service_retention.len()
        invariant
            rules == Seq::new(
                c.service_retention@.len(),
                |i: int| retention_rule(c.service_retention@[i]),
            ),
            first_in(rules.take(i as int)) is None,
    {
        assert(rules.take(i + 1).drop_last() == rules.take(i as int));
        match check_retention_rule(&c.service_retention[i]) {
            Some(m) => {
                proof {
                    lemma_first_in(rules, i + 1);
                }
                return Some(m);
            },
            None => {},
        }
    }
    assert(rules.take(rules.len() as int) == rules);
    let ghost limits = Seq::new(
        c.service_query_limits@.len(),
        |i: int| limit_rule(c.service_query_limits@[i]),
    );
    for i in 0..c.service_query_limits.len()
        invariant
            rules == Seq::new(
                c.service_retention@.len(),
                |i: int| retention_rule(c.service_retention@[i]),
            ),
            first_in(rules) is None,
            limits == Seq::new(
                c.service_query_limits@.len(),
                |i: int| limit_rule(c.service_query_limits@[i]),
            ),
            first_in(limits.take(i as int)) is None,
    {
        assert(limits.take(i + 1).drop_last() == limits.take(i as int));
        match check_limit_rule(&c.service_query_limits[i]) {
            Some(m) => {
                proof {
                    lemma_first_in(limits, i + 1);
                }
                return Some(m);
            },
            None => {},
        }
    }
    assert(limits.take(limits.len() as int) == limits);
    None
}

/// Rules on the archive.
pub open spec fn archive_rules(c: Config, object_storage: bool) -> Complaint {
    if !c.cold_storage.enabled {
        None
    } else if !object_storage {
        Some(
            "cold_storage.enabled = true, but this binary was built without the 'object-storage' feature (cargo build --features object-storage)"@,
        )
    } else {
        first(
            complain(
                c.cold_storage.backend@ != "s3"@ && c.cold_storage.backend@ != "gcs"@,
                "cold_storage.backend must be 's3' or 'gcs' (got '"@ + c.cold_storage.backend@
                    + "')"@,
            ),
            complain(
                blank(c.cold_storage.bucket@),
                "cold_storage.bucket must be set when cold_storage is enabled"@,
            ),
        )
    }
}

fn check_archive(c: &Config, object_storage: bool) -> (r: Option<String>)
    ensures
        opt_text(r) == archive_rules(*c, object_storage),
{
    let backend = c.cold_storage.backend.as_str();
    if !c.cold_storage.enabled {
        None
    } else if !object_storage {
        complaint(
            "cold_storage.enabled = true, but this binary was built without the 'object-storage' feature (cargo build --features object-storage)",
        )
    } else if !same(backend, "s3") && !same(backend, "gcs") {
        Some(cat3("cold_storage.backend must be 's3' or 'gcs' (got '", backend, "')"))
    } else if is_blank(c.cold_storage.bucket.as_str()) {
        complaint("cold_storage.bucket must be set when cold_storage is enabled")
    } else {
        None
    }
}

// ---------------------------------------------------------------------
// Attributes
// ---------------------------------------------------------------------
/// The rule on one dropped key.
pub open spec fn drop_rule(key: Seq<char>) -> Complaint {
    first(
        complain(blank(key), "drop_attributes entries must be non-empty"@),
        complain(
            encode_utf8(key).len() > 255,
            "drop attribute key too long (>255 chars): '"@ + key + "'"@,
        ),
    )
}

/// The columns that a promoted attribute must not be named like.
pub open spec fn is_builtin_column(name: Seq<char>) -> bool {
    name == "ts"@ || name == "insert_ts"@ || name == "source_host"@ || name == "service"@ || name
        == "level"@ || name == "message"@ || name == "fingerprint"@ || name == "trace_id"@ || name
        == "span_id"@ || name == "attributes"@ || name == "geo_country"@ || name == "raw_len"@
        || name == "protocol"@
}

fn builtin_column(name: &str) -> (r: bool)
    ensures
        r == is_builtin_column(name@),
{
    same(name, "ts") || same(name, "insert_ts") || same(name, "source_host") || same(
        name,
        "service",
    ) || same(name, "level") || same(name, "message") || same(name, "fingerprint") || same(
        name,
        "trace_id",
    ) || same(name, "span_id") || same(name, "attributes") || same(name, "geo_country") || same(
        name,
        "raw_len",
    ) || same(name, "protocol")
}

/// Whether an earlier attribute has the same name.
pub open spec fn named_before(hot: Seq<HotAttributeV>, i: int) -> bool {
    exists|j: int| 0 <= j < i && (#[trigger] hot[j]).name == hot[i].name
}

/// The rule on one promoted attribute.
pub open spec fn hot_rule(hot: Seq<HotAttributeV>, i: int) -> Complaint {
    first(
        complain(
            is_builtin_column(hot[i].name),
            "hot attribute '"@ + hot[i].name
                + "' shadows a built-in column; pick a different name"@,
        ),
        complain(
            named_before(hot, i),
            "hot attribute '"@ + hot[i].name + "' is defined twice"@,
        ),
    )
}

/// The rule that no attribute is both promoted and dropped.
pub open spec fn overlap_rule(a: HotAttributeV, dropped: Seq<Seq<char>>) -> Complaint {
    complain(
        dropped.contains(path_leaf(a.json_path)),
        "attribute '"@ + path_leaf(a.json_path)
            + "' is configured both as a hot attribute and a drop attribute"@,
    )
}

/// Rules on dropped and promoted attributes.
pub open spec fn attribute_rules(c: Config) -> Complaint {
    let dropped = texts(c.drop_attributes@);
    let hot = attrs_view(c.hot_attributes@);
    first(
        first_in(Seq::new(dropped.len(), |i: int| drop_rule(dropped[i]))),
        first(
            first_in(Seq::new(hot.len(), |i: int| hot_rule(hot, i))),
            first_in(Seq::new(hot.len(), |i: int| overlap_rule(hot[i], dropped))),
        ),
    )
}

fn check_dropped(keys: &Vec<String>) -> (r: Option<String>)
    ensures
        ({
            let dropped = texts(keys@);
            opt_text(r) == first_in(Seq::new(dropped.len(), |i: int| drop_rule(dropped[i])))
        }),
{
    let ghost dropped = texts(keys@);
    let ghost rules = Seq::new(dropped.len(), |i: int| drop_rule(dropped[i]));
    for i in 0..keys.len()
        invariant
            dropped == texts(keys@),
            rules == Seq::new(dropped.len(), |i: int| drop_rule(dropped[i])),
            first_in(rules.take(i as int)) is None,
    {
        assert(rules.take(i + 1).drop_last() == rules.take(i as int));
        assert(rules.take(i + 1).last() == drop_rule(keys@[i as int]@));
        let key = keys[i].as_str();
        let found = if is_blank(key) {
            complaint("drop_attributes entries must be non-empty")
        } else if key.as_bytes().len() > 255 {
            Some(cat3("drop attribute key too long (>255 chars): '", key, "'"))
        } else {
            None
        };
        match found {
            Some(m) => {
                proof {
                    lemma_first_in(rules, i + 1);
                }
                return Some(m);
            },
            None => {},
        }
    }
    assert(rules.take(rules.len() as int) == rules);
    None
}

fn named_earlier(hot: &Vec<HotAttribute>, i: usize) -> (r: bool)
    requires
        i < hot@.len(),
    ensures
        r == named_before(attrs_view(hot@), i as int),
{
    let ghost all = attrs_view(hot@);
    for j in 0..i
        invariant
            i < hot@.len(),
            all == attrs_view(hot@),
            forall|k: int| 0 <= k < j ==> (#[trigger] all[k]).name != all[i as int].name,
    {
        if same(hot[j].name.as_str(), hot[i].name.as_str()) {
            assert(all[j as int].name == all[i as int].name);
            return true;
        }
    }
    false
}

fn check_hot(hot: &Vec<HotAttribute>) -> (r: Option<String>)
    ensures
        ({
            let all = attrs_view(hot@);
            opt_text(r) == first_in(Seq::new(all.len(), |i: int| hot_rule(all, i)))
        }),
{
    let ghost all = attrs_view(hot@);
    let ghost rules = Seq::new(all.len(), |i: int| hot_rule(all, i));
    for i in 0..hot.len()
        invariant
            all == attrs_view(hot@),
            rules == Seq::new(all.len(), |i: int| hot_rule(all, i)),
            first_in(rules.take(i as int)) is None,
    {
        assert(rules.take(i + 1).drop_last() == rules.take(i as int));
        assert(rules.take(i + 1).last() == hot_rule(all, i as int));
        let name = hot[i].name.as_str();
        assert(all[i as int].name == name@);
        let found = if builtin_column(name) {
            Some(
                cat3(
                    "hot attribute '",
                    name,
                    "' shadows a built-in column; pick a different name",
                ),
            )
        } else if named_earlier(hot, i) {
            Some(cat3("hot attribute '", name, "' is defined twice"))
        } else {
            None
        };
        match found {
            Some(m) => {
                proof {
                    lemma_first_in(rules, i + 1);
                }
                return Some(m);
            },
            None => {},
        }
    }
    assert(rules.take(rules.len() as int) == rules);
    None
}

fn check_overlap(hot: &Vec<HotAttribute>, keys: &Vec<String>) -> (r: Option<String>)
    ensures
        ({
            let all = attrs_view(hot@);
            opt_text(r) == first_in(
                Seq::new(all.len(), |i: int| overlap_rule(all[i], texts(keys@))),
            )
        }),
{
    let ghost all = attrs_view(hot@);
    let ghost rules = Seq::new(all.len(), |i: int| overlap_rule(all[i], texts(keys@)));
    for i in 0..hot.len()
        invariant
            all == attrs_view(hot@),
            rules == Seq::new(all.len(), |i: int| overlap_rule(all[i], texts(keys@))),
            first_in(rules.take(i as int)) is None,
    {
        assert(rules.take(i + 1).drop_last() == rules.take(i as int));
        assert(rules.take(i + 1).last() == overlap_rule(all[i as int], texts(keys@)));
        let leaf = match strip_prefix(hot[i].json_path.as_str(), "$.") {
            Some(rest) => rest,
            None => hot[i].json_path.clone(),
        };
        if list_contains(keys.as_slice(), leaf.as_str()) {
            proof {
                lemma_first_in(rules, i + 1);
            }
            return Some(
                cat3(
                    "attribute '",
                    leaf.as_str(),
                    "' is configured both as a hot attribute and a drop attribute",
                ),
            );
        }
    }
    assert(rules.take(rules.len() as int) == rules);
    None
}

fn check_attributes(c: &Config) -> (r: Option<String>)
    ensures
        opt_text(r) == attribute_rules(*c),
{
    match check_dropped(&c.drop_attributes) {
        Some(m) => Some(m),
        None => match check_hot(&c.hot_attributes) {
            Some(m) => Some(m),
            None => check_overlap(&c.hot_attributes, &c.drop_attributes),
        },
    }
}

// ---------------------------------------------------------------------
// Retention and backup
// ---------------------------------------------------------------------
/// The rule that a setting is a duration.
pub open spec fn duration_rule(name: Seq<char>, s: Option<String>) -> Complaint {
    match s {
        Some(t) => match duration_of(t@) {
            Ok(_) => None,
            Err(e) => Some(name + ": "@ + error_text(e)),
        },
        None => None,
    }
}

/// The rule that a setting is a size.
pub open spec fn size_rule(name: Seq<char>, s: Option<String>) -> Complaint {
    match s {
        Some(t) => match size_of(t@) {
            Ok(_) => None,
            Err(e) => Some(name + ": "@ + error_text(e)),
        },
        None => None,
    }
}

/// Rules on request bodies and on retention.
pub open spec fn retention_rules(c: Config) -> Complaint {
    first(
        complain(
            c.http_max_body_bytes == 0,
            "http_max_body_bytes must be > 0 (use a large value if you really need no limit)"@,
        ),
        first(
            duration_rule("retention.hot_max_age"@, c.retention.hot_max_age),
            first(
                size_rule("retention.hot_max_bytes"@, c.retention.hot_max_bytes),
                size_rule("retention.wal_max_bytes"@, c.retention.wal_max_bytes),
            ),
        ),
    )
}

fn check_size(name: &str, s: &Option<String>) -> (r: Option<String>)
    ensures
        opt_text(r) == size_rule(name@, *s),
{
    match s {
        Some(t) => match parse_size(t.as_str()) {
            Ok(_) => None,
            Err(e) => {
                let m = e.message();
                Some(cat3(name, ": ", m.as_str()))
            },
        },
        None => None,
    }
}

fn check_duration(name: &str, s: &Option<String>) -> (r: Option<String>)
    ensures
        opt_text(r) == duration_rule(name@, *s),
{
    match s {
        Some(t) => match parse_duration(t.as_str()) {
            Ok(_) => None,
            Err(e) => {
                let m = e.message();
                Some(cat3(name, ": ", m.as_str()))
            },
        },
        None => None,
    }
}

fn check_retention(c: &Config) -> (r: Option<String>)
    ensures
        opt_text(r) == retention_rules(*c),
{
    if c.http_max_body_bytes == 0 {
        return complaint(
            "http_max_body_bytes must be > 0 (use a large value if you really need no limit)",
        );
    }
    match check_duration("retention.hot_max_age", &c.retention.hot_max_age) {
        Some(m) => Some(m),
        None => match check_size("retention.hot_max_bytes", &c.retention.hot_max_bytes) {
            Some(m) => Some(m),
            None => check_size("retention.wal_max_bytes", &c.retention.wal_max_bytes),
        },
    }
}

/// Rules on where backups go.
pub open spec fn backup_target_rules(b: BackupConfig, object_storage: bool) -> Complaint {
    if blank(b.backend@) {
        None
    } else if !object_storage {
        Some(
            "backup.backend is set, but this binary was built without the object-storage feature (rebuild with: cargo build --release --features object-storage)"@,
        )
    } else {
        first(
            complain(
                b.backend@ != "s3"@ && b.backend@ != "gcs"@,
                "backup.backend must be 's3' or 'gcs' (got '"@ + b.backend@ + "')"@,
            ),
            complain(
                blank(b.bucket@),
                "backup.bucket must be set when backup.backend is configured"@,
            ),
        )
    }
}

/// Rules on backups, where they are made.
pub open spec fn backup_rules(b: BackupConfig, object_storage: bool) -> Complaint {
    if !b.enabled {
        None
    } else {
        match schedule_of(b.schedule@) {
            Err(e) => Some("backup."@ + error_text(e)),
            Ok(schedule) => first(
                complain(
                    schedule is Daily && !zone_known(b.timezone@),
                    "backup.timezone '"@ + b.timezone@
                        + "' is not a valid IANA timezone (e.g. 'UTC', 'Asia/Jakarta')"@,
                ),
                first(
                    backup_target_rules(b, object_storage),
                    complain(b.keep_last == 0, "backup.keep_last must be >= 1"@),
                ),
            ),
        }
    }
}

fn check_backup_target(b: &BackupConfig, object_storage: bool) -> (r: Option<String>)
    ensures
        opt_text(r) == backup_target_rules(*b, object_storage),
{
    let backend = b.backend.as_str();
    if is_blank(backend) {
        None
    } else if !object_storage {
        complaint(
            "backup.backend is set, but this binary was built without the object-storage feature (rebuild with: cargo build --release --features object-storage)",
        )
    } else if !same(backend, "s3") && !same(backend, "gcs") {
        Some(cat3("backup.backend must be 's3' or 'gcs' (got '", backend, "')"))
    } else if is_blank(b.bucket.as_str()) {
        complaint("backup.bucket must be set when backup.backend is configured")
    } else {
        None
    }
}

fn check_backup(b: &BackupConfig, object_storage: bool) -> (r: Option<String>)
    ensures
        opt_text(r) == backup_rules(*b, object_storage),
{
    if !b.enabled {
        return None;
    }
    let schedule = match b.parsed_schedule() {
        Ok(x) => x,
        Err(e) => {
            let m = e.message();
            return Some(cat("backup.", m.as_str()));
        },
    };
    if matches!(schedule, Schedule::Daily { .. }) && !is_zone(b.timezone.as_str()) {
        return Some(
            cat3(
                "backup.timezone '",
                b.timezone.as_str(),
                "' is not a valid IANA timezone (e.g. 'UTC', 'Asia/Jakarta')",
            ),
        );
    }
    match check_backup_target(b, object_storage) {
        Some(m) => Some(m),
        None => if b.keep_last == 0 {
            complaint("backup.keep_last must be >= 1")
        } else {
            None
        },
    }
}

// ---------------------------------------------------------------------
// Sources of records
// ---------------------------------------------------------------------
/// Whether a text is a stage of an audit event.
pub open spec fn is_stage(s: Seq<char>) -> bool {
    s == "RequestReceived"@ || s == "ResponseStarted"@ || s == "ResponseComplete"@ || s == "Panic"@
}

/// The rule on one omitted stage.
pub open spec fn stage_rule(s: Seq<char>) -> Complaint {
    complain(
        !is_stage(s),
        "ingest.k8s_audit.omit_stages entry '"@ + s
            + "' is not a valid audit stage (use one of [\"RequestReceived\", \"ResponseStarted\", \"ResponseComplete\", \"Panic\"])"@,
    )
}

/// Rules on error tracking and on listeners.
pub open spec fn listener_rules(c: Config) -> Complaint {
    let stages = texts(c.ingest.k8s_audit.omit_stages@);
    first(
        complain(
            c.error_tracking.enabled && c.error_tracking.samples_per_group == 0,
            "error_tracking.samples_per_group must be >= 1"@,
        ),
        first(
            complain(
                c.ingest.gelf.enabled && blank(c.ingest.gelf.udp_bind@) && blank(
                    c.ingest.gelf.tcp_bind@,
                ),
                "ingest.gelf.enabled = true but both udp_bind and tcp_bind are empty; set at least one (e.g. '0.0.0.0:12201')"@,
            ),
            first(
                complain(
                    c.ingest.fluentd.enabled && blank(c.ingest.fluentd.tcp_bind@),
                    "ingest.fluentd.enabled = true but tcp_bind is empty"@,
                ),
                if c.ingest.k8s_audit.enabled {
                    first_in(Seq::new(stages.len(), |i: int| stage_rule(stages[i])))
                } else {
                    None
                },
            ),
        ),
    )
}

fn check_stages(stages: &Vec<String>) -> (r: Option<String>)
    ensures
        ({
            let all = texts(stages@);
            opt_text(r) == first_in(Seq::new(all.len(), |i: int| stage_rule(all[i])))
        }),
{
    let ghost all = texts(stages@);
    let ghost rules = Seq::new(all.len(), |i: int| stage_rule(all[i]));
    for i in 0..stages.len()
        invariant
            all == texts(stages@),
            rules == Seq::new(all.len(), |i: int| stage_rule(all[i])),
            first_in(rules.take(i as int)) is None,
    {
        assert(rules.take(i + 1).drop_last() == rules.take(i as int));
        assert(rules.take(i + 1).last() == stage_rule(stages@[i as int]@));
        let s = stages[i].as_str();
        if !(same(s, "RequestReceived") || same(s, "ResponseStarted") || same(s, "ResponseComplete")
            || same(s, "Panic")) {
            proof {
                lemma_first_in(rules, i + 1);
            }
            return Some(
                cat3(
                    "ingest.k8s_audit.omit_stages entry '",
                    s,
                    "' is not a valid audit stage (use one of [\"RequestReceived\", \"ResponseStarted\", \"ResponseComplete\", \"Panic\"])",
                ),
            );
        }
    }
    assert(rules.take(rules.len() as int) == rules);
    None
}

fn check_listeners(c: &Config) -> (r: Option<String>)
    ensures
        opt_text(r) == listener_rules(*c),
{
    if c.error_tracking.enabled && c.error_tracking.samples_per_group == 0 {
        complaint("error_tracking.samples_per_group must be >= 1")
    } else if c.ingest.gelf.enabled && is_blank(c.ingest.gelf.udp_bind.as_str()) && is_blank(
        c.ingest.gelf.tcp_bind.as_str(),
    ) {
        complaint(
            "ingest.gelf.enabled = true but both udp_bind and tcp_bind are empty; set at least one (e.g. '0.0.0.0:12201')",
        )
    } else if c.ingest.fluentd.enabled && is_blank(c.ingest.fluentd.tcp_bind.as_str()) {
        complaint("ingest.fluentd.enabled = true but tcp_bind is empty")
    } else if c.ingest.k8s_audit.enabled {
        check_stages(&c.ingest.k8s_audit.omit_stages)
    } else {
        None
    }
}

/// Whether a text begins like a web address.
pub open spec fn is_web_url(s: Seq<char>) -> bool {
    begins(s, "http://"@) || begins(s, "https://"@)
}

fn web_url(s: &str) -> (r: bool)
    ensures
        r == is_web_url(s@),
{
    starts_with(s, "http://") || starts_with(s, "https://")
}

/// The rule on one webhook.
pub open spec fn webhook_rule(url: Seq<char>) -> Complaint {
    complain(
        !is_web_url(url),
        "error_tracking.notify.webhooks entries must be http(s) URLs (got '"@ + url + "')"@,
    )
}

/// Rules on the collectors, where they are enabled.
pub open spec fn collector_rules(c: Config) -> Complaint {
    let socket = trim(c.collector.docker.socket@);
    let docker = if c.collector.docker.enabled {
        first(
            complain(
                !(begins(socket, "unix://"@) || begins(socket, "tcp://"@) || begins(
                    socket,
                    "http://"@,
                )),
                "collector.docker.socket must be unix://… or tcp://… (got '"@
                    + c.collector.docker.socket@ + "')"@,
            ),
            complain(
                c.collector.docker.refresh_secs == 0,
                "collector.docker.refresh_secs must be >= 1"@,
            ),
        )
    } else {
        None
    };
    let kubernetes = if c.collector.kubernetes.enabled {
        first(
            complain(
                !is_web_url(trim(c.collector.kubernetes.api_url@)),
                "collector.kubernetes.api_url must be an http(s) URL (got '"@
                    + c.collector.kubernetes.api_url@ + "')"@,
            ),
            complain(
                c.collector.kubernetes.refresh_secs == 0,
                "collector.kubernetes.refresh_secs must be >= 1"@,
            ),
        )
    } else {
        None
    };
    let hooks = texts(c.error_tracking.notify.webhooks@);
    first(
        docker,
        first(kubernetes, first_in(Seq::new(hooks.len(), |i: int| webhook_rule(hooks[i])))),
    )
}

fn check_webhooks(hooks: &Vec<String>) -> (r: Option<String>)
    ensures
        ({
            let all = texts(hooks@);
            opt_text(r) == first_in(Seq::new(all.len(), |i: int| webhook_rule(all[i])))
        }),
{
    let ghost all = texts(hooks@);
    let ghost rules = Seq::new(all.len(), |i: int| webhook_rule(all[i]));
    for i in 0..hooks.len()
        invariant
            all == texts(hooks@),
            rules == Seq::new(all.len(), |i: int| webhook_rule(all[i])),
            first_in(rules.take(i as int)) is None,
    {
        assert(rules.take(i + 1).drop_last() == rules.take(i as int));
        assert(rules.take(i + 1).last() == webhook_rule(hooks@[i as int]@));
        if !web_url(hooks[i].as_str()) {
            proof {
                lemma_first_in(rules, i + 1);
            }
            return Some(
                cat3(
                    "error_tracking.notify.webhooks entries must be http(s) URLs (got '",
                    hooks[i].as_str(),
                    "')",
                ),
            );
        }
    }
    assert(rules.take(rules.len() as int) == rules);
    None
}

fn check_collectors(c: &Config) -> (r: Option<String>)
    ensures
        opt_text(r) == collector_rules(*c),
{
    if c.collector.docker.enabled {
        let socket = trimmed(c.collector.docker.socket.as_str());
        let s = socket.as_str();
        if !(starts_with(s, "unix://") || starts_with(s, "tcp://") || starts_with(s, "http://")) {
            return Some(
                cat3(
                    "collector.docker.socket must be unix://… or tcp://… (got '",
                    c.collector.docker.socket.as_str(),
                    "')",
                ),
            );
        }
        if c.collector.docker.refresh_secs == 0 {
            return complaint("collector.docker.refresh_secs must be >= 1");
        }
    }
    if c.collector.kubernetes.enabled {
        let url = trimmed(c.collector.kubernetes.api_url.as_str());
        if !web_url(url.as_str()) {
            return Some(
                cat3(
                    "collector.kubernetes.api_url must be an http(s) URL (got '",
                    c.collector.kubernetes.api_url.as_str(),
                    "')",
                ),
            );
        }
        if c.collector.kubernetes.refresh_secs == 0 {
            return complaint("collector.kubernetes.refresh_secs must be >= 1");
        }
    }
    check_webhooks(&c.error_tracking.notify.webhooks)
}

// ---------------------------------------------------------------------
// All rules
// ---------------------------------------------------------------------
/// The first complaint about a configuration.
pub open spec fn config_complaint(c: Config, object_storage: bool) -> Complaint {
    first(
        basic_rules(c),
        first(
            codec_rule(c),
            first(
                engine_rules(c),
                first(
                    service_rules(c),
                    first(
                        archive_rules(c, object_storage),
                        first(
                            attribute_rules(c),
                            first(
                                retention_rules(c),
                                first(
                                    backup_rules(c.backup, object_storage),
                                    first(listener_rules(c), collector_rules(c)),
                                ),
                            ),
                        ),
                    ),
                ),
            ),
        ),
    )
}

fn find_complaint(c: &Config, object_storage: bool) -> (r: Option<String>)
    ensures
        opt_text(r) == config_complaint(*c, object_storage),
{
    if let Some(m) = check_basics(c) {
        return Some(m);
    }
    if let Some(m) = check_codec(c) {
        return Some(m);
    }
    if let Some(m) = check_engine(c) {
        return Some(m);
    }
    if let Some(m) = check_services(c) {
        return Some(m);
    }
    if let Some(m) = check_archive(c, object_storage) {
        return Some(m);
    }
    if let Some(m) = check_attributes(c) {
        return Some(m);
    }
    if let Some(m) = check_retention(c) {
        return Some(m);
    }
    if let Some(m) = check_backup(&c.backup, object_storage) {
        return Some(m);
    }
    if let Some(m) = check_listeners(c) {
        return Some(m);
    }
    check_collectors(c)
}

/// What a check of a configuration says.
pub open spec fn verdict(r: Result<(), Error>) -> Result<(), ErrorV> {
    match r {
        Ok(_) => Ok(()),
        Err(e) => Err(e@),
    }
}

/// What the check of a configuration must say.
pub open spec fn config_verdict(c: Config, object_storage: bool) -> Result<(), ErrorV> {
    match config_complaint(c, object_storage) {
        None => Ok(()),
        Some(m) => Err(ErrorV::Config(m)),
    }
}

impl Config {
    /// Checks the configuration for a build with or without object storage.
    pub fn validate_for(&self, object_storage: bool) -> (r: Result<(), Error>)
        ensures
            verdict(r) == config_verdict(*self, object_storage),
    {
        match find_complaint(self, object_storage) {
            None => Ok(()),
            Some(m) => Err(Error::config(m)),
        }
    }

    /// Checks the configuration for a build without object storage.
    pub fn validate(&self) -> (r: Result<(), Error>)
        ensures
            verdict(r) == config_verdict(*self, false),
    {
        self.validate_for(false)
    }
}

} // verus!

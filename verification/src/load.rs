//! The effective configuration: what was read from file and environment, changed
//! by the flat model settings of the environment and by the command line, and
//! then checked.
use vstd::prelude::*;
use vstd::string::*;

use crate::ai::LlmConfig;
use crate::config::{Cli, Config, McpMode, ServiceQueryLimit, ServiceRetention};
use crate::error::{Error, ErrorV};
use crate::errors::ErrorTrackingConfig;
use crate::hot::{HotAttribute, HotAttributeV, attrs_view, shorthand};
use crate::text::{
    cat, cat3, chars_of, lower, opt_text, parse_u64, parse_u64_text, rsplit_once, rsplit_once_at,
    same, texts, to_lower, trim, trimmed,
};
use crate::units::{duration_secs_of, parse_duration_secs};
use crate::validate::{Complaint, config_verdict, first};

verus! {

/// The flat settings of the language model, as the environment gives them.
#[derive(Debug, Clone)]
pub struct LlmEnv {
    pub api_key: Option<String>,
    pub provider: Option<String>,
    pub model: Option<String>,
    pub base_url: Option<String>,
    /// The model that Anthropic is asked for where none is named.
    pub anthropic_model: String,
}

/// What a model setting says.
pub enum LlmV {
    Openai { api_key: Seq<char>, model: Seq<char>, base_url: Option<Seq<char>> },
    Anthropic { api_key: Seq<char>, model: Seq<char>, base_url: Option<Seq<char>> },
    NineInference { api_key: Seq<char>, model: Seq<char> },
    Off,
}

impl View for LlmConfig {
    type V = LlmV;

    open spec fn view(&self) -> LlmV {
        match *self {
            LlmConfig::Openai { api_key, model, base_url } => LlmV::Openai {
                api_key: api_key@,
                model: model@,
                base_url: opt_text(base_url),
            },
            LlmConfig::Anthropic { api_key, model, base_url } => LlmV::Anthropic {
                api_key: api_key@,
                model: model@,
                base_url: opt_text(base_url),
            },
            LlmConfig::NineInference { api_key, model } => LlmV::NineInference {
                api_key: api_key@,
                model: model@,
            },
            LlmConfig::Off => LlmV::Off,
        }
    }
}

/// A trimmed setting, or a default where there is none.
pub open spec fn setting(s: Option<String>, default: Seq<char>) -> Seq<char> {
    trim(
        match s {
            Some(t) => t@,
            None => default,
        },
    )
}

/// A text, or a default where it is empty.
pub open spec fn or_default(s: Seq<char>, default: Seq<char>) -> Seq<char> {
    if s.len() == 0 {
        default
    } else {
        s
    }
}

/// The model that the flat settings choose. They count only with a key, and only
/// where no model is configured otherwise.
pub open spec fn chosen_llm(configured: LlmV, env: LlmEnv) -> Result<LlmV, Seq<char>> {
    let api_key = setting(env.api_key, Seq::empty());
    if !(configured is Off) || api_key.len() == 0 {
        Ok(configured)
    } else {
        let provider = lower(setting(env.provider, "anthropic"@));
        let model = setting(env.model, Seq::empty());
        let base_url = match env.base_url {
            Some(u) => if trim(u@).len() > 0 {
                Some(trim(u@))
            } else {
                None
            },
            None => None,
        };
        if provider == "anthropic"@ {
            Ok(
                LlmV::Anthropic {
                    api_key,
                    model: or_default(model, env.anthropic_model@),
                    base_url,
                },
            )
        } else if provider == "openai"@ {
            Ok(LlmV::Openai { api_key, model: or_default(model, "gpt-4o-mini"@), base_url })
        } else if provider == "9inference"@ {
            Ok(LlmV::NineInference { api_key, model: or_default(model, "nemotron-3-ultra"@) })
        } else {
            Err(
                "CENTRAL_LOGS_LLM_PROVIDER must be 'anthropic', 'openai', or '9inference' (got '"@
                    + provider + "')"@,
            )
        }
    }
}

fn trimmed_or(s: &Option<String>, default: &str) -> (r: String)
    ensures
        r@ == setting(*s, default@),
{
    match s {
        Some(t) => trimmed(t.as_str()),
        None => trimmed(default),
    }
}

fn text_or(s: String, default: &str) -> (r: String)
    ensures
        r@ == or_default(s@, default@),
{
    if s.as_str().is_empty() {
        default.to_owned()
    } else {
        s
    }
}

/// Chooses the model by the flat settings.
pub fn choose_llm(configured: LlmConfig, env: &LlmEnv) -> (r: Result<LlmConfig, String>)
    ensures
        match r {
            Ok(l) => chosen_llm(configured@, *env) == Ok::<LlmV, Seq<char>>(l@),
            Err(m) => chosen_llm(configured@, *env) == Err::<LlmV, Seq<char>>(m@),
        },
{
    assert(trim(Seq::<char>::empty()) =~= Seq::<char>::empty());
    let ghost empty = Seq::<char>::empty();
    proof {
        reveal_strlit("");
        assert(""@ =~= empty);
    }
    let api_key = trimmed_or(&env.api_key, "");
    let off = matches!(configured, LlmConfig::Off);
    if !off || api_key.as_str().is_empty() {
        return Ok(configured);
    }
    let named = trimmed_or(&env.provider, "anthropic");
    let provider = to_lower(named.as_str());
    let model = trimmed_or(&env.model, "");
    let base_url = match &env.base_url {
        Some(u) => {
            let t = trimmed(u.as_str());
            if t.as_str().is_empty() {
                None
            } else {
                Some(t)
            }
        },
        None => None,
    };
    let p = provider.as_str();
    if same(p, "anthropic") {
        Ok(
            LlmConfig::Anthropic {
                api_key,
                model: text_or(model, env.anthropic_model.as_str()),
                base_url,
            },
        )
    } else if same(p, "openai") {
        Ok(LlmConfig::Openai { api_key, model: text_or(model, "gpt-4o-mini"), base_url })
    } else if same(p, "9inference") {
        Ok(LlmConfig::NineInference { api_key, model: text_or(model, "nemotron-3-ultra") })
    } else {
        Err(
            cat3(
                "CENTRAL_LOGS_LLM_PROVIDER must be 'anthropic', 'openai', or '9inference' (got '",
                p,
                "')",
            ),
        )
    }
}

// ---------------------------------------------------------------------
// The command line
// ---------------------------------------------------------------------
/// A name below a directory.
pub open spec fn path_join(dir: Seq<char>, name: Seq<char>) -> Seq<char> {
    if dir.len() == 0 {
        name
    } else if dir.last() == '/' {
        dir + name
    } else {
        dir + "/"@ + name
    }
}

fn join_path(dir: &str, name: &str) -> (r: String)
    ensures
        r@ == path_join(dir@, name@),
{
    let v = chars_of(dir);
    if v.len() == 0 {
        name.to_owned()
    } else if v[v.len() - 1] == '/' {
        cat(dir, name)
    } else {
        cat3(dir, "/", name)
    }
}

/// The attributes that shorthands stand for, up to the first one that is refused.
pub open spec fn hot_flags(specs: Seq<Seq<char>>) -> Result<Seq<HotAttributeV>, Seq<char>>
    decreases specs.len(),
{
    if specs.len() == 0 {
        Ok(Seq::empty())
    } else {
        match hot_flags(specs.drop_last()) {
            Err(m) => Err(m),
            Ok(v) => match shorthand(specs.last()) {
                Ok(h) => Ok(v.push(h)),
                Err(m) => Err("--hot-attribute: "@ + m),
            },
        }
    }
}

/// A pattern and its number.
pub open spec fn retention_flag(spec_text: Seq<char>) -> Result<(Seq<char>, u64), Seq<char>> {
    match rsplit_once(spec_text, '=') {
        None => Err("--service-retention expects GLOB=DAYS, got '"@ + spec_text + "'"@),
        Some((pattern, days)) => match parse_u64_text(days) {
            Some(n) => Ok((pattern, n)),
            None => Err(
                "--service-retention days must be a positive integer, got '"@ + days + "'"@,
            ),
        },
    }
}

/// A pattern and its window.
pub open spec fn limit_flag(spec_text: Seq<char>) -> Result<(Seq<char>, u64), Seq<char>> {
    match rsplit_once(spec_text, '=') {
        None => Err("--service-query-limit expects GLOB=DURATION, got '"@ + spec_text + "'"@),
        Some((pattern, dur)) => match duration_secs_of(dur) {
            Some(n) => Ok((pattern, n)),
            None => Err(
                "--service-query-limit: "@ + ("bad duration '"@ + dur
                    + "' (expected seconds or Ns/Nm/Nh/Nd)"@),
            ),
        },
    }
}

/// The pairs that retention flags stand for, up to the first one that is refused.
pub open spec fn retention_flags(specs: Seq<Seq<char>>) -> Result<
    Seq<(Seq<char>, u64)>,
    Seq<char>,
>
    decreases specs.len(),
{
    if specs.len() == 0 {
        Ok(Seq::empty())
    } else {
        match retention_flags(specs.drop_last()) {
            Err(m) => Err(m),
            Ok(v) => match retention_flag(specs.last()) {
                Ok(p) => Ok(v.push(p)),
                Err(m) => Err(m),
            },
        }
    }
}

/// The pairs that limit flags stand for, up to the first one that is refused.
pub open spec fn limit_flags(specs: Seq<Seq<char>>) -> Result<Seq<(Seq<char>, u64)>, Seq<char>>
    decreases specs.len(),
{
    if specs.len() == 0 {
        Ok(Seq::empty())
    } else {
        match limit_flags(specs.drop_last()) {
            Err(m) => Err(m),
            Ok(v) => match limit_flag(specs.last()) {
                Ok(p) => Ok(v.push(p)),
                Err(m) => Err(m),
            },
        }
    }
}

/// What retention overrides say.
pub open spec fn retentions(v: Seq<ServiceRetention>) -> Seq<(Seq<char>, u64)> {
    Seq::new(v.len(), |i: int| (v[i].pattern@, v[i].days))
}

/// What query limits say.
pub open spec fn limits(v: Seq<ServiceQueryLimit>) -> Seq<(Seq<char>, u64)> {
    Seq::new(v.len(), |i: int| (v[i].pattern@, v[i].max_window_secs))
}

/// The mode that a flag names.
pub open spec fn mode_named(s: Seq<char>) -> Option<McpMode> {
    if s == "off"@ {
        Some(McpMode::Off)
    } else if s == "stdio"@ {
        Some(McpMode::Stdio)
    } else if s == "sse"@ {
        Some(McpMode::Sse)
    } else {
        None
    }
}

/// Why the settings cannot be put together, if so: the first refusal in the order
/// in which they are applied.
pub open spec fn flag_complaint(base: Config, env: LlmEnv, cli: Cli) -> Complaint {
    let llm = match chosen_llm(base.llm@, env) {
        Ok(_) => None,
        Err(m) => Some(m),
    };
    let mode = match cli.mcp_mode {
        Some(m) => match mode_named(m@) {
            Some(_) => None,
            None => Some("unknown mcp_mode: "@ + m@),
        },
        None => None,
    };
    let hot = match hot_flags(texts(cli.hot_attributes@)) {
        Ok(_) => None,
        Err(m) => Some(m),
    };
    let retention = match retention_flags(texts(cli.service_retention@)) {
        Ok(_) => None,
        Err(m) => Some(m),
    };
    let limit = match limit_flags(texts(cli.service_query_limits@)) {
        Ok(_) => None,
        Err(m) => Some(m),
    };
    first(llm, first(mode, first(hot, first(retention, limit))))
}

/// The value of a flag, or the setting that it leaves as it was.
pub open spec fn flag_or(flag: Option<String>, setting_text: Seq<char>) -> Seq<char> {
    match flag {
        Some(t) => t@,
        None => setting_text,
    }
}

/// Whether `c` is the base configuration with the settings of environment and
/// command line applied, and nothing else changed.
pub open spec fn is_overlay(c: Config, base: Config, env: LlmEnv, cli: Cli) -> bool {
    &&& c == (Config {
        llm: c.llm,
        data_dir: c.data_dir,
        duckdb_path: c.duckdb_path,
        parquet_dir: c.parquet_dir,
        http_port: match cli.http_port {
            Some(p) => p,
            None => base.http_port,
        },
        mcp_mode: match cli.mcp_mode {
            Some(m) => mode_named(m@)->0,
            None => base.mcp_mode,
        },
        enable_alert_mcp_tool: base.enable_alert_mcp_tool || cli.enable_alert_mcp_tool,
        hot_attributes: c.hot_attributes,
        drop_attributes: c.drop_attributes,
        unwrap_message_json: base.unwrap_message_json && !cli.no_unwrap_message_json,
        service_retention: c.service_retention,
        service_query_limits: c.service_query_limits,
        syslog_udp_enabled: base.syslog_udp_enabled && !cli.no_syslog_udp,
        syslog_tcp_enabled: base.syslog_tcp_enabled && !cli.no_syslog_tcp,
        error_tracking: ErrorTrackingConfig {
            enabled: base.error_tracking.enabled && !cli.no_sentry_ingest,
            ..base.error_tracking
        },
        http_api_key: c.http_api_key,
        duckdb_memory_limit: c.duckdb_memory_limit,
        duckdb_threads: match cli.duckdb_threads {
            Some(n) => n,
            None => base.duckdb_threads,
        },
        ..base
    })
    &&& Ok::<LlmV, Seq<char>>(c.llm@) == chosen_llm(base.llm@, env)
    &&& c.data_dir@ == flag_or(cli.data_dir, base.data_dir@)
    &&& c.duckdb_path@ == (match cli.data_dir {
        Some(d) => path_join(d@, "central.duckdb"@),
        None => base.duckdb_path@,
    })
    &&& c.parquet_dir@ == (match cli.data_dir {
        Some(d) => path_join(d@, "parquet"@),
        None => base.parquet_dir@,
    })
    &&& attrs_view(c.hot_attributes@) == attrs_view(base.hot_attributes@) + hot_flags(
        texts(cli.hot_attributes@),
    )->Ok_0
    &&& texts(c.drop_attributes@) == texts(base.drop_attributes@) + texts(cli.drop_attributes@)
    &&& retentions(c.service_retention@) == retentions(base.service_retention@) + retention_flags(
        texts(cli.service_retention@),
    )->Ok_0
    &&& limits(c.service_query_limits@) == limits(base.service_query_limits@) + limit_flags(
        texts(cli.service_query_limits@),
    )->Ok_0
    &&& c.http_api_key@ == flag_or(cli.http_api_key, base.http_api_key@)
    &&& c.duckdb_memory_limit@ == flag_or(cli.duckdb_memory_limit, base.duckdb_memory_limit@)
}

proof fn lemma_hot_err(specs: Seq<Seq<char>>, n: int)
    requires
        0 <= n <= specs.len(),
        hot_flags(specs.take(n)) is Err,
    ensures
        hot_flags(specs) == hot_flags(specs.take(n)),
    decreases specs.len() - n,
{
    if n == specs.len() {
        assert(specs.take(n) == specs);
    } else {
        assert(specs.take(n + 1).drop_last() == specs.take(n));
        lemma_hot_err(specs, n + 1);
    }
}

proof fn lemma_retention_err(specs: Seq<Seq<char>>, n: int)
    requires
        0 <= n <= specs.len(),
        retention_flags(specs.take(n)) is Err,
    ensures
        retention_flags(specs) == retention_flags(specs.take(n)),
    decreases specs.len() - n,
{
    if n == specs.len() {
        assert(specs.take(n) == specs);
    } else {
        assert(specs.take(n + 1).drop_last() == specs.take(n));
        lemma_retention_err(specs, n + 1);
    }
}

proof fn lemma_limit_err(specs: Seq<Seq<char>>, n: int)
    requires
        0 <= n <= specs.len(),
        limit_flags(specs.take(n)) is Err,
    ensures
        limit_flags(specs) == limit_flags(specs.take(n)),
    decreases specs.len() - n,
{
    if n == specs.len() {
        assert(specs.take(n) == specs);
    } else {
        assert(specs.take(n + 1).drop_last() == specs.take(n));
        lemma_limit_err(specs, n + 1);
    }
}

fn push_hot(v: &mut Vec<HotAttribute>, specs: &Vec<String>) -> (r: Result<(), String>)
    ensures
        match r {
            Ok(_) => hot_flags(texts(specs@)) is Ok && attrs_view(final(v)@) == attrs_view(old(v)@)
                + hot_flags(texts(specs@))->Ok_0,
            Err(m) => hot_flags(texts(specs@)) == Err::<Seq<HotAttributeV>, Seq<char>>(m@),
        },
{
    let ghost all = texts(specs@);
    let ghost start = attrs_view(v@);
    assert(start == start + Seq::<HotAttributeV>::empty());
    for i in 0..specs.len()
        invariant
            all == texts(specs@),
            hot_flags(all.take(i as int)) is Ok,
            attrs_view(v@) == start + hot_flags(all.take(i as int))->Ok_0,
    {
        assert(all.take(i + 1).drop_last() == all.take(i as int));
        assert(all.take(i + 1).last() == specs@[i as int]@);
        let ghost before = attrs_view(v@);
        match HotAttribute::parse_shorthand(specs[i].as_str()) {
            Ok(h) => {
                let ghost hv = h@;
                v.push(h);
                assert(attrs_view(v@) == before.push(hv));
            },
            Err(m) => {
                proof {
                    lemma_hot_err(all, i + 1);
                }
                return Err(cat("--hot-attribute: ", m.as_str()));
            },
        }
    }
    assert(all.take(all.len() as int) == all);
    Ok(())
}

fn push_retentions(v: &mut Vec<ServiceRetention>, specs: &Vec<String>) -> (r: Result<(), String>)
    ensures
        match r {
            Ok(_) => retention_flags(texts(specs@)) is Ok && retentions(final(v)@) == retentions(
                old(v)@,
            ) + retention_flags(texts(specs@))->Ok_0,
            Err(m) => retention_flags(texts(specs@)) == Err::<Seq<(Seq<char>, u64)>, Seq<char>>(
                m@,
            ),
        },
{
    let ghost all = texts(specs@);
    let ghost start = retentions(v@);
    assert(start == start + Seq::<(Seq<char>, u64)>::empty());
    for i in 0..specs.len()
        invariant
            all == texts(specs@),
            retention_flags(all.take(i as int)) is Ok,
            retentions(v@) == start + retention_flags(all.take(i as int))->Ok_0,
    {
        assert(all.take(i + 1).drop_last() == all.take(i as int));
        assert(all.take(i + 1).last() == specs@[i as int]@);
        let ghost before = retentions(v@);
        let s = specs[i].as_str();
        match rsplit_once_at(s, '=') {
            None => {
                proof {
                    lemma_retention_err(all, i + 1);
                }
                return Err(cat3("--service-retention expects GLOB=DAYS, got '", s, "'"));
            },
            Some((pattern, days)) => match parse_u64(days.as_str()) {
                Some(n) => {
                    let ghost p = pattern@;
                    v.push(ServiceRetention { pattern, days: n });
                    assert(retentions(v@) == before.push((p, n)));
                },
                None => {
                    proof {
                        lemma_retention_err(all, i + 1);
                    }
                    return Err(
                        cat3(
                            "--service-retention days must be a positive integer, got '",
                            days.as_str(),
                            "'",
                        ),
                    );
                },
            },
        }
    }
    assert(all.take(all.len() as int) == all);
    Ok(())
}

fn push_limits(v: &mut Vec<ServiceQueryLimit>, specs: &Vec<String>) -> (r: Result<(), String>)
    ensures
        match r {
            Ok(_) => limit_flags(texts(specs@)) is Ok && limits(final(v)@) == limits(old(v)@)
                + limit_flags(texts(specs@))->Ok_0,
            Err(m) => limit_flags(texts(specs@)) == Err::<Seq<(Seq<char>, u64)>, Seq<char>>(m@),
        },
{
    let ghost all = texts(specs@);
    let ghost start = limits(v@);
    assert(start == start + Seq::<(Seq<char>, u64)>::empty());
    for i in 0..specs.len()
        invariant
            all == texts(specs@),
            limit_flags(all.take(i as int)) is Ok,
            limits(v@) == start + limit_flags(all.take(i as int))->Ok_0,
    {
        assert(all.take(i + 1).drop_last() == all.take(i as int));
        assert(all.take(i + 1).last() == specs@[i as int]@);
        let ghost before = limits(v@);
        let s = specs[i].as_str();
        match rsplit_once_at(s, '=') {
            None => {
                proof {
                    lemma_limit_err(all, i + 1);
                }
                return Err(cat3("--service-query-limit expects GLOB=DURATION, got '", s, "'"));
            },
            Some((pattern, dur)) => match parse_duration_secs(dur.as_str()) {
                Ok(n) => {
                    let ghost p = pattern@;
                    v.push(ServiceQueryLimit { pattern, max_window_secs: n });
                    assert(limits(v@) == before.push((p, n)));
                },
                Err(m) => {
                    proof {
                        lemma_limit_err(all, i + 1);
                    }
                    return Err(cat("--service-query-limit: ", m.as_str()));
                },
            },
        }
    }
    assert(all.take(all.len() as int) == all);
    Ok(())
}

fn mode_of(s: &str) -> (r: Option<McpMode>)
    ensures
        r == mode_named(s@),
{
    if same(s, "off") {
        Some(McpMode::Off)
    } else if same(s, "stdio") {
        Some(McpMode::Stdio)
    } else if same(s, "sse") {
        Some(McpMode::Sse)
    } else {
        None
    }
}

fn push_all(v: &mut Vec<String>, more: &Vec<String>)
    ensures
        texts(final(v)@) == texts(old(v)@) + texts(more@),
{
    let ghost start = texts(v@);
    let ghost all = texts(more@);
    assert(start == start + all.take(0));
    for i in 0..more.len()
        invariant
            all == texts(more@),
            texts(v@) == start + all.take(i as int),
    {
        let ghost before = texts(v@);
        v.push(more[i].clone());
        assert(texts(v@) == before.push(all[i as int]));
    }
}

fn flag_mode(flag: &Option<String>, mode: McpMode) -> (r: Result<McpMode, String>)
    ensures
        match *flag {
            None => r == Ok::<McpMode, String>(mode),
            Some(f) => match mode_named(f@) {
                Some(m) => r == Ok::<McpMode, String>(m),
                None => r matches Err(e) && e@ == "unknown mcp_mode: "@ + f@,
            },
        },
{
    match flag {
        None => Ok(mode),
        Some(f) => match mode_of(f.as_str()) {
            Some(m) => Ok(m),
            None => Err(cat("unknown mcp_mode: ", f.as_str())),
        },
    }
}

fn flag_text(flag: &Option<String>, s: String) -> (r: String)
    ensures
        r@ == flag_or(*flag, s@),
{
    match flag {
        Some(t) => t.clone(),
        None => s,
    }
}

fn below(dir: &Option<String>, name: &str, s: String) -> (r: String)
    ensures
        r@ == (match *dir {
            Some(d) => path_join(d@, name@),
            None => s@,
        }),
{
    match dir {
        Some(d) => join_path(d.as_str(), name),
        None => s,
    }
}

/// Applies the settings of environment and command line.
pub fn apply_flags(base: Config, env: &LlmEnv, cli: &Cli) -> (r: Result<Config, String>)
    ensures
        match r {
            Ok(c) => flag_complaint(base, *env, *cli) is None && is_overlay(c, base, *env, *cli),
            Err(m) => flag_complaint(base, *env, *cli) == Some(m@),
        },
{
    let llm = match choose_llm(base.llm, env) {
        Ok(l) => l,
        Err(m) => return Err(m),
    };
    let mcp_mode = match flag_mode(&cli.mcp_mode, base.mcp_mode) {
        Ok(m) => m,
        Err(m) => return Err(m),
    };
    let mut hot_attributes = base.hot_attributes;
    match push_hot(&mut hot_attributes, &cli.hot_attributes) {
        Ok(_) => {},
        Err(m) => return Err(m),
    }
    let mut drop_attributes = base.drop_attributes;
    push_all(&mut drop_attributes, &cli.drop_attributes);
    let mut service_retention = base.service_retention;
    match push_retentions(&mut service_retention, &cli.service_retention) {
        Ok(_) => {},
        Err(m) => return Err(m),
    }
    let mut service_query_limits = base.service_query_limits;
    match push_limits(&mut service_query_limits, &cli.service_query_limits) {
        Ok(_) => {},
        Err(m) => return Err(m),
    }
    let error_tracking = ErrorTrackingConfig {
        enabled: base.error_tracking.enabled && !cli.no_sentry_ingest,
        ..base.error_tracking
    };
    let c = Config {
        llm,
        duckdb_path: below(&cli.data_dir, "central.duckdb", base.duckdb_path),
        parquet_dir: below(&cli.data_dir, "parquet", base.parquet_dir),
        data_dir: flag_text(&cli.data_dir, base.data_dir),
        http_port: cli.http_port.unwrap_or(base.http_port),
        mcp_mode,
        enable_alert_mcp_tool: base.enable_alert_mcp_tool || cli.enable_alert_mcp_tool,
        hot_attributes,
        drop_attributes,
        unwrap_message_json: base.unwrap_message_json && !cli.no_unwrap_message_json,
        service_retention,
        service_query_limits,
        syslog_udp_enabled: base.syslog_udp_enabled && !cli.no_syslog_udp,
        syslog_tcp_enabled: base.syslog_tcp_enabled && !cli.no_syslog_tcp,
        error_tracking,
        http_api_key: flag_text(&cli.http_api_key, base.http_api_key),
        duckdb_memory_limit: flag_text(&cli.duckdb_memory_limit, base.duckdb_memory_limit),
        duckdb_threads: cli.duckdb_threads.unwrap_or(base.duckdb_threads),
        ..base
    };
    Ok(c)
}

/// The effective configuration, checked for a build with or without object
/// storage.
pub fn load(base: Config, env: &LlmEnv, cli: &Cli, object_storage: bool) -> (r: Result<
    Config,
    Error,
>)
    ensures
        match r {
            Ok(c) => flag_complaint(base, *env, *cli) is None && is_overlay(c, base, *env, *cli)
                && config_verdict(c, object_storage) is Ok,
            Err(e) => match flag_complaint(base, *env, *cli) {
                Some(m) => e@ == ErrorV::Config(m),
                None => exists|c: Config|
                    #[trigger] is_overlay(c, base, *env, *cli) && config_verdict(c, object_storage)
                        == Err::<(), ErrorV>(e@),
            },
        },
{
    let c = match apply_flags(base, env, cli) {
        Ok(c) => c,
        Err(m) => return Err(Error::config(m)),
    };
    match c.validate_for(object_storage) {
        Ok(_) => Ok(c),
        Err(e) => Err(e),
    }
}

} // verus!

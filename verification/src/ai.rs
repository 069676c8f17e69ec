//! Natural-language queries and dashboards.
use vstd::prelude::*;
use vstd::string::*;

use crate::error::{Error, ErrorV};
use crate::json::{
    Json, JsonMap, JsonV, double_value, field, json_double, json_read, json_text, jsons_view,
    lemma_json_view, read_json, text_in, text_or, write_json,
};
use crate::query::{fault_text, filter_of, parse_filter};
use crate::text::{
    after_prefix, before_suffix, cat, cat3, contains_text, dec, first_chars, has_text, join,
    join_with, just, lines, lines_of, lower, opt_text, strip_prefix, strip_suffix, take_chars,
    texts, to_lower, trim, trim_end_by, trim_end_char, trimmed,
};

verus! {

/// Which language model is asked, and how.
#[derive(Debug, Clone)]
pub enum LlmConfig {
    Openai {
        api_key: String,
        model: String,
        /// A gateway in place of the provider's own address.
        base_url: Option<String>,
    },
    Anthropic {
        api_key: String,
        model: String,
        /// A gateway in place of the provider's own address.
        base_url: Option<String>,
    },
    NineInference { api_key: String, model: String },
    /// No model is asked.
    Off,
}

impl Default for LlmConfig {
    fn default() -> (r: Self)
        ensures
            r is Off,
    {
        LlmConfig::Off
    }
}

/// The provider's name.
pub open spec fn provider(cfg: LlmConfig) -> Seq<char> {
    match cfg {
        LlmConfig::Openai { .. } => "openai"@,
        LlmConfig::Anthropic { .. } => "anthropic"@,
        LlmConfig::NineInference { .. } => "9inference"@,
        LlmConfig::Off => "off"@,
    }
}

/// The provider's name.
pub fn provider_name(cfg: &LlmConfig) -> (r: String)
    ensures
        r@ == provider(*cfg),
{
    match cfg {
        LlmConfig::Openai { .. } => "openai".to_owned(),
        LlmConfig::Anthropic { .. } => "anthropic".to_owned(),
        LlmConfig::NineInference { .. } => "9inference".to_owned(),
        LlmConfig::Off => "off".to_owned(),
    }
}

// ---------------------------------------------------------------------
// Questions
// ---------------------------------------------------------------------
/// A question in plain words.
#[derive(Debug, Clone)]
pub struct AiQueryRequest {
    pub query: String,
    /// The range of time that the user has picked.
    pub time_hint: Option<String>,
}

/// The filter that answers a question.
#[derive(Debug, Clone)]
pub struct AiQueryResponse {
    pub filter: String,
    pub provider: String,
    /// What the model said.
    pub raw: String,
}

/// What an [`AiQueryResponse`] says.
#[verifier::ext_equal]
pub struct QueryResponseV {
    pub filter: Seq<char>,
    pub provider: Seq<char>,
    pub raw: Seq<char>,
}

impl View for AiQueryResponse {
    type V = QueryResponseV;

    open spec fn view(&self) -> QueryResponseV {
        QueryResponseV { filter: self.filter@, provider: self.provider@, raw: self.raw@ }
    }
}

/// Names as a list, a line each.
pub open spec fn bullets(names: Seq<Seq<char>>) -> Seq<char>
    decreases names.len(),
{
    if names.len() == 0 {
        Seq::empty()
    } else {
        bullets(names.drop_last()) + ("- `"@ + names.last() + "`\n"@)
    }
}

pub fn push_bullets(out: &mut String, names: &[String])
    ensures
        final(out)@ == old(out)@ + bullets(texts(names@)),
{
    let ghost start = out@;
    let ghost all = texts(names@);
    assert(start + bullets(all.take(0)) =~= start);
    for i in 0..names.len()
        invariant
            all == texts(names@),
            out@ == start + bullets(all.take(i as int)),
    {
        assert(all.take(i + 1).drop_last() == all.take(i as int));
        out.append("- `");
        out.append(names[i].as_str());
        out.append("`\n");
        assert(out@ =~= start + bullets(all.take(i + 1)));
    }
    assert(all.take(all.len() as int) == all);
}

/// What a model is asked for a question, with the columns in some order.
pub fn query_prompt(columns: &[String], query: &str) -> (r: String)
    ensures
        r@ == "Available columns:\n"@ + bullets(texts(columns@)) + "\nUser query: "@ + trim(query@),
{
    let mut s = "Available columns:\n".to_owned();
    push_bullets(&mut s, columns);
    s.append("\nUser query: ");
    let q = trimmed(query);
    s.append(q.as_str());
    s
}

/// Text behind the marks of a code block, if it starts with them.
pub open spec fn unfenced_start(s: Seq<char>, label: Seq<char>) -> Seq<char> {
    match after_prefix(s, "```"@) {
        Some(t) => match after_prefix(t, label) {
            Some(u) => u,
            None => t,
        },
        None => s,
    }
}

/// Text before the marks of a code block, if it ends with them.
pub open spec fn unfenced_end(s: Seq<char>) -> Seq<char> {
    match before_suffix(s, "```"@) {
        Some(t) => t,
        None => s,
    }
}

pub fn strip_fence_start(s: &str, label: &str) -> (r: String)
    ensures
        r@ == unfenced_start(s@, label@),
{
    match strip_prefix(s, "```") {
        Some(t) => match strip_prefix(t.as_str(), label) {
            Some(u) => u,
            None => t,
        },
        None => s.to_owned(),
    }
}

pub fn strip_fence_end(s: &str) -> (r: String)
    ensures
        r@ == unfenced_end(s@),
{
    match strip_suffix(s, "```") {
        Some(t) => t,
        None => s.to_owned(),
    }
}

/// The last line that is not blank, trimmed.
pub open spec fn last_line(all: Seq<Seq<char>>) -> Seq<char>
    decreases all.len(),
{
    if all.len() == 0 {
        Seq::empty()
    } else if trim(all.last()).len() > 0 {
        trim(all.last())
    } else {
        last_line(all.drop_last())
    }
}

/// The filter in what a model said: its last line, without the marks of a code
/// block.
pub open spec fn model_filter(raw: Seq<char>) -> Seq<char> {
    last_line(lines(trim(unfenced_end(trim(unfenced_start(trim(raw), "\n"@))))))
}

/// Takes the filter out of what a model said.
pub fn parse_model_output(raw: &str) -> (r: String)
    ensures
        r@ == model_filter(raw@),
{
    let t = trimmed(raw);
    let open = strip_fence_start(t.as_str(), "\n");
    let inner = trimmed(open.as_str());
    let closed = strip_fence_end(inner.as_str());
    let body = trimmed(closed.as_str());
    let ls = lines_of(body.as_str());
    let ghost all = texts(ls@);
    let mut i: usize = ls.len();
    assert(all.take(all.len() as int) == all);
    while i > 0
        invariant
            i <= ls@.len(),
            all == texts(ls@),
            last_line(all) == last_line(all.take(i as int)),
            last_line(all) == model_filter(raw@),
        decreases i,
    {
        assert(all.take(i as int).drop_last() == all.take(i - 1));
        let line = trimmed(ls[i - 1].as_str());
        if !line.as_str().is_empty() {
            return line;
        }
        i = i - 1;
    }
    String::new()
}

/// The clauses that a question hints at, by its words in lower case.
pub open spec fn hinted(lower_words: Seq<char>, columns: Seq<Seq<char>>) -> Seq<Seq<char>>
    decreases columns.len(),
{
    if columns.len() == 0 {
        let none = Seq::<Seq<char>>::empty();
        let failing = if has_text(lower_words, "error"@) || has_text(lower_words, "fail"@) {
            none.push("level:error"@)
        } else {
            none
        };
        if has_text(lower_words, "warn"@) {
            failing.push("level:warn"@)
        } else {
            failing
        }
    } else {
        let before = hinted(lower_words, columns.drop_last());
        if has_text(lower_words, columns.last()) {
            before.push(columns.last() + ":"@)
        } else {
            before
        }
    }
}

/// A filter out of the words of a question, with the columns in some order.
pub fn suggest_from_keywords(query: &str, columns: &[String]) -> (r: String)
    ensures
        r@ == join(hinted(lower(query@), texts(columns@)), " "@),
{
    let words = to_lower(query);
    let mut parts: Vec<String> = Vec::new();
    assert(texts(parts@) =~= Seq::<Seq<char>>::empty());
    if contains_text(words.as_str(), "error") || contains_text(words.as_str(), "fail") {
        parts.push("level:error".to_owned());
        assert(texts(parts@) =~= Seq::<Seq<char>>::empty().push("level:error"@));
    }
    let ghost failing = texts(parts@);
    if contains_text(words.as_str(), "warn") {
        parts.push("level:warn".to_owned());
        assert(texts(parts@) =~= failing.push("level:warn"@));
    }
    let ghost all = texts(columns@);
    assert(all.take(0) =~= Seq::<Seq<char>>::empty());
    for i in 0..columns.len()
        invariant
            all == texts(columns@),
            words@ == lower(query@),
            texts(parts@) == hinted(lower(query@), all.take(i as int)),
    {
        let ghost before = texts(parts@);
        assert(all.take(i + 1).drop_last() == all.take(i as int));
        if contains_text(words.as_str(), columns[i].as_str()) {
            let clause = cat(columns[i].as_str(), ":");
            let ghost text = clause@;
            parts.push(clause);
            assert(texts(parts@) =~= before.push(text));
        }
    }
    assert(all.take(all.len() as int) == all);
    join_with(parts.as_slice(), " ")
}

/// The answer of a filter, if it is one.
pub open spec fn answered(filter: Seq<char>, who: Seq<char>, raw: Seq<char>) -> Result<
    QueryResponseV,
    ErrorV,
> {
    match filter_of(filter) {
        Ok(_) => Ok(QueryResponseV { filter, provider: who, raw }),
        Err(f) => Err(ErrorV::Config("LLM produced invalid DSL: "@ + fault_text(f))),
    }
}

/// What an answer says.
pub open spec fn answer_view(r: Result<AiQueryResponse, Error>) -> Result<QueryResponseV, ErrorV> {
    match r {
        Ok(x) => Ok(x@),
        Err(e) => Err(e@),
    }
}

fn checked_answer(filter: String, who: &str, raw: &str) -> (r: Result<AiQueryResponse, Error>)
    ensures
        answer_view(r) == answered(filter@, who@, raw@),
{
    match parse_filter(filter.as_str()) {
        Ok(_) => Ok(AiQueryResponse { filter, provider: who.to_owned(), raw: raw.to_owned() }),
        Err(f) => {
            let m = f.message();
            Err(Error::config(cat("LLM produced invalid DSL: ", m.as_str())))
        },
    }
}

/// Answers a question by what a model said. What is no filter is refused.
pub fn translate_reply(who: &str, raw: &str) -> (r: Result<AiQueryResponse, Error>)
    ensures
        answer_view(r) == answered(model_filter(raw@), who@, raw@),
{
    checked_answer(parse_model_output(raw), who, raw)
}

/// Whether a text is a filter.
pub open spec fn is_filter(text: Seq<char>) -> bool {
    filter_of(text) is Ok
}

/// The filter that a question hints at. A name that still wants a value makes no
/// filter: the clauses that are complete stay, if they are one.
pub open spec fn offline_filter(query: Seq<char>, columns: Seq<Seq<char>>) -> Seq<char> {
    let hint = join(hinted(lower(query), columns), " "@);
    let complete = join(hinted(lower(query), Seq::empty()), " "@);
    if is_filter(hint) {
        hint
    } else if is_filter(complete) {
        complete
    } else {
        Seq::empty()
    }
}

/// What is shown besides the filter: the whole hint, where the filter is not all of it.
pub open spec fn offline_note(query: Seq<char>, columns: Seq<Seq<char>>) -> Seq<char> {
    let hint = join(hinted(lower(query), columns), " "@);
    if is_filter(hint) {
        "LLM disabled in config"@
    } else {
        "LLM disabled in config; hint: "@ + hint
    }
}

fn filter_ok(text: &str) -> (r: bool)
    ensures
        r == is_filter(text@),
{
    parse_filter(text).is_ok()
}

/// Answers a question without a model. There always is an answer, and its filter can
/// be applied.
pub fn translate_offline(query: &str, columns: &[String]) -> (r: Result<AiQueryResponse, Error>)
    ensures
        r matches Ok(x) && x@ == (QueryResponseV {
            filter: offline_filter(query@, texts(columns@)),
            provider: "off"@,
            raw: offline_note(query@, texts(columns@)),
        }) && is_filter(x.filter@),
{
    let hint = suggest_from_keywords(query, columns);
    if filter_ok(hint.as_str()) {
        return Ok(
            AiQueryResponse {
                filter: hint,
                provider: "off".to_owned(),
                raw: "LLM disabled in config".to_owned(),
            },
        );
    }
    let none: Vec<String> = Vec::new();
    assert(texts(none@) =~= Seq::<Seq<char>>::empty());
    let complete = suggest_from_keywords(query, none.as_slice());
    let filter = if filter_ok(complete.as_str()) {
        complete
    } else {
        String::new()
    };
    proof {
        lemma_empty_filter();
    }
    Ok(
        AiQueryResponse {
            filter,
            provider: "off".to_owned(),
            raw: cat("LLM disabled in config; hint: ", hint.as_str()),
        },
    )
}

/// The empty text is a filter.
proof fn lemma_empty_filter()
    ensures
        is_filter(Seq::empty()),
{
    assert(trim(Seq::<char>::empty()) =~= Seq::<char>::empty());
}

// ---------------------------------------------------------------------
// Requests to a model
// ---------------------------------------------------------------------
/// A message of a conversation.
pub open spec fn turn(role: Seq<char>, content: Seq<char>) -> JsonV {
    JsonV::Obj(
        Map::<Seq<char>, JsonV>::empty().insert("role"@, JsonV::Str(role)).insert(
            "content"@,
            JsonV::Str(content),
        ),
    )
}

fn turn_json(role: &str, content: &str) -> (r: Json)
    ensures
        r@ == turn(role@, content@),
{
    broadcast use lemma_json_view;

    let mut m = JsonMap::new();
    m.insert_str("role", role);
    m.insert_str("content", content);
    Json::Obj(m)
}

/// The body of a request to a chat endpoint in the manner of OpenAI.
pub open spec fn chat_json(
    model: Seq<char>,
    system: Seq<char>,
    user: Seq<char>,
    max_tokens: u32,
    stream: bool,
) -> JsonV {
    let m = Map::<Seq<char>, JsonV>::empty().insert("model"@, JsonV::Str(model)).insert(
        "messages"@,
        JsonV::Arr(seq![turn("system"@, system), turn("user"@, user)]),
    ).insert("temperature"@, double_value(0)).insert(
        "max_tokens"@,
        JsonV::Num(dec(max_tokens as nat)),
    );
    JsonV::Obj(
        if stream {
            m.insert("stream"@, JsonV::Bool(true))
        } else {
            m
        },
    )
}

/// The body of a request to a chat endpoint in the manner of OpenAI.
pub fn chat_body(model: &str, system: &str, user: &str, max_tokens: u32, stream: bool) -> (r: Json)
    ensures
        r@ == chat_json(model@, system@, user@, max_tokens, stream),
{
    broadcast use lemma_json_view;

    let mut turns: Vec<Json> = Vec::new();
    turns.push(turn_json("system", system));
    turns.push(turn_json("user", user));
    assert(jsons_view(turns@) =~= seq![turn("system"@, system@), turn("user"@, user@)]);
    let mut m = JsonMap::new();
    m.insert_str("model", model);
    m.insert("messages", Json::Arr(turns));
    m.insert("temperature", json_double(0));
    m.insert("max_tokens", Json::from_nat(max_tokens as u64));
    if stream {
        m.insert("stream", Json::Bool(true));
    }
    Json::Obj(m)
}

/// The body of a request to a messages endpoint in the manner of Anthropic.
pub open spec fn messages_json(
    model: Seq<char>,
    system: Seq<char>,
    user: Seq<char>,
    max_tokens: u32,
) -> JsonV {
    JsonV::Obj(
        Map::<Seq<char>, JsonV>::empty().insert("model"@, JsonV::Str(model)).insert(
            "max_tokens"@,
            JsonV::Num(dec(max_tokens as nat)),
        ).insert("system"@, JsonV::Str(system)).insert(
            "messages"@,
            JsonV::Arr(seq![turn("user"@, user)]),
        ),
    )
}

/// The body of a request to a messages endpoint in the manner of Anthropic.
pub fn messages_body(model: &str, system: &str, user: &str, max_tokens: u32) -> (r: Json)
    ensures
        r@ == messages_json(model@, system@, user@, max_tokens),
{
    broadcast use lemma_json_view;

    let mut turns: Vec<Json> = Vec::new();
    turns.push(turn_json("user", user));
    assert(jsons_view(turns@) =~= seq![turn("user"@, user@)]);
    let mut m = JsonMap::new();
    m.insert_str("model", model);
    m.insert("max_tokens", Json::from_nat(max_tokens as u64));
    m.insert_str("system", system);
    m.insert("messages", Json::Arr(turns));
    Json::Obj(m)
}

/// The address of an endpoint below a base.
pub open spec fn endpoint_of(base: Option<Seq<char>>, default: Seq<char>, path: Seq<char>) -> Seq<
    char,
> {
    (match base {
        Some(b) => trim_end_by(b, just('/')),
        None => default,
    }) + path
}

fn endpoint(base: &Option<String>, default: &str, path: &str) -> (r: String)
    ensures
        r@ == endpoint_of(opt_text(*base), default@, path@),
{
    match base {
        Some(b) => {
            let t = trim_end_char(b.as_str(), '/');
            cat(t.as_str(), path)
        },
        None => cat(default, path),
    }
}

/// The address of a chat endpoint.
pub fn chat_url(base: &Option<String>) -> (r: String)
    ensures
        r@ == endpoint_of(
            opt_text(*base),
            "https://api.openai.com/v1"@,
            "/chat/completions"@,
        ),
{
    endpoint(base, "https://api.openai.com/v1", "/chat/completions")
}

/// The address of a messages endpoint.
pub fn messages_url(base: &Option<String>) -> (r: String)
    ensures
        r@ == endpoint_of(opt_text(*base), "https://api.anthropic.com"@, "/v1/messages"@),
{
    endpoint(base, "https://api.anthropic.com", "/v1/messages")
}

/// The first item of a list.
pub open spec fn first_item(v: Option<JsonV>) -> Option<JsonV> {
    match v {
        Some(JsonV::Arr(items)) => if items.len() > 0 {
            Some(items[0])
        } else {
            None
        },
        _ => None,
    }
}

/// A member of a value that may be there.
pub open spec fn field_in(v: Option<JsonV>, key: Seq<char>) -> Option<JsonV> {
    match v {
        Some(v) => field(v, key),
        None => None,
    }
}

fn first_of<'a>(v: Option<&'a Json>) -> (r: Option<&'a Json>)
    ensures
        opt_json(r) == first_item(opt_json(v)),
{
    match v {
        Some(v) => match v.as_array() {
            Some(items) => if items.len() > 0 {
                assert(jsons_view(items@)[0] == items@[0]@);
                Some(&items[0])
            } else {
                None
            },
            None => None,
        },
        None => None,
    }
}

/// What a value that may be there says.
pub open spec fn opt_json(v: Option<&Json>) -> Option<JsonV> {
    match v {
        Some(v) => Some(v@),
        None => None,
    }
}

pub fn member_of<'a>(v: Option<&'a Json>, key: &str) -> (r: Option<&'a Json>)
    ensures
        opt_json(r) == field_in(opt_json(v), key@),
{
    match v {
        Some(v) => v.get(key),
        None => None,
    }
}

pub fn text_of_json(v: Option<&Json>) -> (r: Option<String>)
    ensures
        opt_text(r) == text_in(opt_json(v)),
{
    match v {
        Some(v) => match v.as_str() {
            Some(t) => Some(t.to_owned()),
            None => None,
        },
        None => None,
    }
}

/// What a chat endpoint answered.
pub open spec fn chat_text(resp: JsonV) -> Option<Seq<char>> {
    text_in(
        field_in(field_in(first_item(field(resp, "choices"@)), "message"@), "content"@),
    )
}

/// Takes the text out of what a chat endpoint answered.
pub fn chat_reply(resp: &Json) -> (r: Result<String, Error>)
    ensures
        match chat_text(resp@) {
            Some(t) => r matches Ok(s) && s@ == t,
            None => r matches Err(e) && e@ == ErrorV::Config(
                "openai: unexpected response "@ + json_text(resp@),
            ),
        },
{
    let message = member_of(first_of(resp.get("choices")), "message");
    match text_of_json(member_of(message, "content")) {
        Some(t) => Ok(t),
        None => {
            let t = write_json(resp);
            Err(Error::config(cat("openai: unexpected response ", t.as_str())))
        },
    }
}

/// What a messages endpoint answered.
pub open spec fn message_text_of(resp: JsonV) -> Option<Seq<char>> {
    text_in(field_in(first_item(field(resp, "content"@)), "text"@))
}

/// Takes the text out of what a messages endpoint answered.
pub fn messages_reply(resp: &Json) -> (r: Result<String, Error>)
    ensures
        match message_text_of(resp@) {
            Some(t) => r matches Ok(s) && s@ == t,
            None => r matches Err(e) && e@ == ErrorV::Config(
                "anthropic: unexpected response "@ + json_text(resp@),
            ),
        },
{
    match text_of_json(member_of(first_of(resp.get("content")), "text")) {
        Some(t) => Ok(t),
        None => {
            let t = write_json(resp);
            Err(Error::config(cat("anthropic: unexpected response ", t.as_str())))
        },
    }
}

/// What is reported of a status that is no success, with the start of the answer.
pub fn stream_refusal(status: &str, text: &str) -> (r: Error)
    ensures
        r@ == ErrorV::Config("9inference HTTP "@ + status@ + ": "@ + first_chars(text@, 500)),
{
    let start = take_chars(text, 500);
    let mut s = cat3("9inference HTTP ", status, ": ");
    s.append(start.as_str());
    Error::config(s)
}

/// The piece of text that a line of a stream carries.
pub open spec fn delta_of(line: Seq<char>) -> Seq<char> {
    match after_prefix(line, "data:"@) {
        None => Seq::empty(),
        Some(p) => match json_read(trim(p)) {
            Err(_) => Seq::empty(),
            Ok(v) => text_or(
                field_in(field_in(first_item(field(v, "choices"@)), "delta"@), "content"@),
                Seq::empty(),
            ),
        },
    }
}

/// The pieces of text that lines of a stream carry, one after the other.
pub open spec fn deltas_of(all: Seq<Seq<char>>) -> Seq<char>
    decreases all.len(),
{
    if all.len() == 0 {
        Seq::empty()
    } else {
        deltas_of(all.drop_last()) + delta_of(all.last())
    }
}

fn delta(line: &str) -> (r: String)
    ensures
        r@ == delta_of(line@),
{
    let payload = match strip_prefix(line, "data:") {
        Some(p) => trimmed(p.as_str()),
        None => return String::new(),
    };
    match read_json(payload.as_str()) {
        Err(_) => String::new(),
        Ok(v) => {
            let d = member_of(first_of(v.get("choices")), "delta");
            match text_of_json(member_of(d, "content")) {
                Some(t) => t,
                None => String::new(),
            }
        },
    }
}

/// Puts the pieces of a streamed answer together. Lines that carry none, such as
/// comments and the mark of the end, do not count.
pub fn parse_sse_stream(body: &str) -> (r: String)
    ensures
        r@ == deltas_of(lines(body@)),
{
    let ls = lines_of(body);
    let n: usize = ls.len();
    let ghost all = texts(ls@);
    let mut out = String::new();
    for i in 0..n
        invariant
            n == ls@.len(),
            all == texts(ls@),
            out@ == deltas_of(all.take(i as int)),
    {
        assert(all.take(i + 1).drop_last() == all.take(i as int));
        let d = delta(ls[i].as_str());
        out.append(d.as_str());
    }
    assert(all.take(all.len() as int) == all);
    out
}

} // verus!

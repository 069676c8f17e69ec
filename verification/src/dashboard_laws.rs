//! What is asked of language models, what is taken of their answers, and what dashboards
//! are made without them.
use vstd::prelude::*;

use crate::ai::{
    LlmConfig, answered, bullets, chat_json, chat_text, delta_of, deltas_of, endpoint_of, hinted,
    last_line, message_text_of, messages_json, offline_filter, offline_note, provider,
    unfenced_end, unfenced_start,
};
use crate::dashboard::{
    AiDashboardRequest, PanelV, ProposalV, ReplyV, answers_view, braced, checked_proposal,
    exchange, filter_compiles, first_filter, has_type, is_revision, is_window, mentioned,
    numbered, offline, online, panel_types, repaired, repaired_panels, revised, revised_kind,
    revised_panels, service_filter, starter, starter_panels, wish_prompt, wish_text, without_type,
};
use crate::error::ErrorV;
use crate::ingest::field_laws::says;
use crate::json::{JsonV, double_value, json_read};
use crate::query::{ColumnType, filter_of};
use crate::text::{
    begins, dec, ends, has_text, join, just, lemma_find_by, lemma_trim_bounds, lemma_trim_end,
    lower, occurs_at, rsplit_once, trim,
};

verus! {

/// A chat is asked with the system's prompt first and the user's second, at no temperature,
/// for so many tokens.
pub proof fn law_chats_hold_the_prompts(
    model: Seq<char>,
    system: Seq<char>,
    user: Seq<char>,
    max_tokens: u32,
    stream: bool,
)
    ensures
        chat_json(model, system, user, max_tokens, stream) matches JsonV::Obj(m) && {
            &&& says(m, "model"@, model)
            &&& m.contains_key("messages"@) && (m["messages"@] matches JsonV::Arr(turns)
                && turns.len() == 2 && (turns[0] matches JsonV::Obj(a) && says(
                a,
                "role"@,
                "system"@,
            ) && says(a, "content"@, system)) && (turns[1] matches JsonV::Obj(b) && says(
                b,
                "role"@,
                "user"@,
            ) && says(b, "content"@, user)))
            &&& m.contains_key("temperature"@) && m["temperature"@] == double_value(0)
            &&& m.contains_key("max_tokens"@) && m["max_tokens"@] == JsonV::Num(
                dec(max_tokens as nat),
            )
            &&& stream ==> m.contains_key("stream"@) && m["stream"@] == JsonV::Bool(true)
            &&& !stream ==> !m.contains_key("stream"@)
        },
{
    reveal_strlit("model");
    reveal_strlit("messages");
    reveal_strlit("temperature");
    reveal_strlit("max_tokens");
    reveal_strlit("stream");
    reveal_strlit("role");
    reveal_strlit("content");
    assert("model"@.len() == 5);
    assert("messages"@.len() == 8);
    assert("temperature"@.len() == 11);
    assert("max_tokens"@.len() == 10);
    assert("stream"@.len() == 6);
    assert("role"@.len() == 4);
    assert("content"@.len() == 7);
}

/// A message is asked with the system's prompt beside the user's.
pub proof fn law_messages_hold_the_prompts(
    model: Seq<char>,
    system: Seq<char>,
    user: Seq<char>,
    max_tokens: u32,
)
    ensures
        messages_json(model, system, user, max_tokens) matches JsonV::Obj(m) && {
            &&& says(m, "model"@, model)
            &&& says(m, "system"@, system)
            &&& m.contains_key("max_tokens"@) && m["max_tokens"@] == JsonV::Num(
                dec(max_tokens as nat),
            )
            &&& m.contains_key("messages"@) && (m["messages"@] matches JsonV::Arr(turns)
                && turns.len() == 1 && (turns[0] matches JsonV::Obj(b) && says(
                b,
                "role"@,
                "user"@,
            ) && says(b, "content"@, user)))
        },
{
    reveal_strlit("model");
    reveal_strlit("messages");
    reveal_strlit("system");
    reveal_strlit("max_tokens");
    reveal_strlit("role");
    reveal_strlit("content");
    assert("model"@.len() == 5);
    assert("messages"@.len() == 8);
    assert("system"@.len() == 6);
    assert("max_tokens"@.len() == 10);
    assert("role"@.len() == 4);
    assert("content"@.len() == 7);
}

/// The answer of a chat is the content of the message of its first choice.
pub proof fn law_first_choices_are_answers(
    m: Map<Seq<char>, JsonV>,
    choices: Seq<JsonV>,
    choice: Map<Seq<char>, JsonV>,
    message: Map<Seq<char>, JsonV>,
    t: Seq<char>,
)
    requires
        m.contains_key("choices"@),
        m["choices"@] == JsonV::Arr(choices),
        choices.len() > 0,
        choices[0] == JsonV::Obj(choice),
        choice.contains_key("message"@),
        choice["message"@] == JsonV::Obj(message),
        says(message, "content"@, t),
    ensures
        chat_text(JsonV::Obj(m)) == Some(t),
{
}

/// The answer of a messages endpoint is the text of its first content.
pub proof fn law_first_contents_are_answers(
    m: Map<Seq<char>, JsonV>,
    contents: Seq<JsonV>,
    content: Map<Seq<char>, JsonV>,
    t: Seq<char>,
)
    requires
        m.contains_key("content"@),
        m["content"@] == JsonV::Arr(contents),
        contents.len() > 0,
        contents[0] == JsonV::Obj(content),
        says(content, "text"@, t),
    ensures
        message_text_of(JsonV::Obj(m)) == Some(t),
{
}

/// A line of a stream carries the content of the delta of its first choice; the pieces are
/// put together in their order.
pub proof fn law_streams_are_put_together(
    line: Seq<char>,
    payload: Seq<char>,
    m: Map<Seq<char>, JsonV>,
    choices: Seq<JsonV>,
    choice: Map<Seq<char>, JsonV>,
    delta: Map<Seq<char>, JsonV>,
    t: Seq<char>,
    before: Seq<Seq<char>>,
)
    requires
        line == "data:"@ + payload,
        json_read(trim(payload)) == Ok::<JsonV, Seq<char>>(JsonV::Obj(m)),
        m.contains_key("choices"@),
        m["choices"@] == JsonV::Arr(choices),
        choices.len() > 0,
        choices[0] == JsonV::Obj(choice),
        choice.contains_key("delta"@),
        choice["delta"@] == JsonV::Obj(delta),
        says(delta, "content"@, t),
    ensures
        delta_of(line) == t,
        deltas_of(before.push(line)) == deltas_of(before) + t,
{
    reveal_strlit("data:");
    assert(line.subrange(0, 5) =~= "data:"@);
    assert(line.subrange(5, line.len() as int) =~= payload);
    assert(before.push(line).drop_last() =~= before);
}

/// The providers, by their names.
pub proof fn law_providers_are_named(cfg: LlmConfig)
    ensures
        cfg is Openai ==> provider(cfg) == "openai"@,
        cfg is Anthropic ==> provider(cfg) == "anthropic"@,
        cfg is NineInference ==> provider(cfg) == "9inference"@,
        cfg is Off ==> provider(cfg) == "off"@,
{
}

/// An answer is taken exactly where it is a filter, and then as it is.
pub proof fn law_answers_are_filters(filter: Seq<char>, who: Seq<char>, raw: Seq<char>)
    ensures
        answered(filter, who, raw) is Ok <==> filter_of(filter) is Ok,
        answered(filter, who, raw) matches Ok(x) ==> x.filter == filter && x.provider == who
            && x.raw == raw,
{
}

/// A question that speaks of errors or failures hints at errors, one that speaks of warnings
/// at warnings, and one that names a column at that column.
pub proof fn law_questions_hint(words: Seq<char>, columns: Seq<Seq<char>>, i: int)
    ensures
        has_text(words, "error"@) || has_text(words, "fail"@) ==> hinted(words, columns).contains(
            "level:error"@,
        ),
        has_text(words, "warn"@) ==> hinted(words, columns).contains("level:warn"@),
        0 <= i < columns.len() && has_text(words, columns[i]) ==> hinted(words, columns).contains(
            columns[i] + ":"@,
        ),
    decreases columns.len(),
{
    let none = Seq::<Seq<char>>::empty();
    if columns.len() == 0 {
        let failing = if has_text(words, "error"@) || has_text(words, "fail"@) {
            none.push("level:error"@)
        } else {
            none
        };
        let all = hinted(words, columns);
        if has_text(words, "error"@) || has_text(words, "fail"@) {
            assert(all[0] == "level:error"@);
        }
        if has_text(words, "warn"@) {
            assert(all[failing.len() as int] == "level:warn"@);
        }
    } else {
        let d = columns.drop_last();
        let before = hinted(words, d);
        let all = hinted(words, columns);
        law_questions_hint(words, d, i);
        assert forall|x: Seq<char>| before.contains(x) implies #[trigger] all.contains(x) by {
            let k = choose|k: int| 0 <= k < before.len() && before[k] == x;
            assert(all[k] == x);
        }
        if i == columns.len() - 1 && has_text(words, columns[i]) {
            assert(all[all.len() - 1] == columns[i] + ":"@);
        }
    }
}

// ---------------------------------------------------------------------
// Dashboards
// ---------------------------------------------------------------------
/// These are the kinds of panels, and there are no others.
pub proof fn law_panel_kinds(kind: Seq<char>)
    ensures
        panel_types().contains(kind) <==> {
            ||| kind == "volume"@
            ||| kind == "error-rate"@
            ||| kind == "latency"@
            ||| kind == "top-services"@
            ||| kind == "log-count"@
            ||| kind == "anomalies"@
        },
{
    let p = panel_types();
    assert(p[0] == "volume"@);
    assert(p[1] == "error-rate"@);
    assert(p[2] == "latency"@);
    assert(p[3] == "top-services"@);
    assert(p[4] == "log-count"@);
    assert(p[5] == "anomalies"@);
    if p.contains(kind) {
        let i = choose|i: int| 0 <= i < p.len() && p[i] == kind;
        assert(p.len() == 6);
    }
}

/// A panel that can be shown stays as it is.
pub proof fn law_good_panels_stay(p: PanelV, columns: Map<Seq<char>, ColumnType>)
    requires
        panel_types().contains(p.panel_type),
        trim(p.title).len() > 0,
        is_window(p.window),
        p.filter.len() == 0 || filter_compiles(p.filter, columns),
        p.viz == "chart"@ || p.viz == "number"@,
        p.w matches Some(w) ==> 1 <= w <= 12,
    ensures
        repaired(p, columns) == Some(p),
{
    assert(repaired(p, columns)->0 =~= p);
    if p.filter.len() == 0 {
        assert(p.filter =~= Seq::<char>::empty());
    }
}

/// What is wrong in a panel is put right: a window, a view, a filter, a title or a width that
/// cannot be shown is replaced; a panel of an unknown kind is left out.
pub proof fn law_bad_panels_are_put_right(p: PanelV, columns: Map<Seq<char>, ColumnType>)
    ensures
        !panel_types().contains(p.panel_type) ==> repaired(p, columns) is None,
        panel_types().contains(p.panel_type) ==> (repaired(p, columns) matches Some(r) && {
            &&& r.panel_type == p.panel_type
            &&& !is_window(p.window) ==> r.window == "1h"@
            &&& p.viz != "chart"@ && p.viz != "number"@ ==> r.viz == "chart"@
            &&& !filter_compiles(p.filter, columns) ==> r.filter.len() == 0
            &&& trim(p.title).len() == 0 ==> r.title == p.panel_type
            &&& p.w matches Some(w) ==> r.w == Some(
                if w < 1 {
                    1u8
                } else if w > 12 {
                    12u8
                } else {
                    w
                },
            )
            &&& p.w is None ==> r.w is None
        }),
{
}

/// A dashboard without a panel that can be shown is refused; a name is given where there is
/// none.
pub proof fn law_dashboards_are_named(d: ProposalV, columns: Map<Seq<char>, ColumnType>)
    ensures
        repaired_panels(d.panels, columns).len() == 0 <==> checked_proposal(d, columns) is Err,
        checked_proposal(d, columns) matches Ok(p) ==> {
            &&& trim(d.name).len() == 0 ==> p.name == "AI dashboard"@
            &&& trim(d.name).len() > 0 ==> p.name == d.name
            &&& p.description == d.description
        },
{
}

/// A starter shows the volume and the error rate of what was asked for, and the latency and
/// the anomalies where they are spoken of.
pub proof fn law_starters_show(words: Seq<char>, filter: Seq<char>)
    ensures
        ({
            let p = starter_panels(words, filter);
            &&& p.len() >= 2
            &&& p[0].panel_type == "volume"@ && p[0].filter == filter
            &&& p[1].panel_type == "error-rate"@ && p[1].filter == filter
            &&& has_text(words, "latency"@) || has_text(words, "slow"@) || filter.len() > 0
                ==> p.len() >= 3 && p[2].panel_type == "latency"@ && p[2].filter == filter
            &&& has_text(words, "anomal"@) ==> p.last().panel_type == "anomalies"@
                && p.last().filter == filter
        }),
{
}

/// A service that is mentioned, whatever its case, is the one that is shown.
pub proof fn law_mentioned_services_are_shown(services: Seq<Seq<char>>, words: Seq<char>, i: int)
    requires
        0 <= i < services.len(),
        has_text(words, lower(services[i])),
        forall|j: int| 0 <= j < i ==> !has_text(words, lower(#[trigger] services[j])),
    ensures
        mentioned(services, words) == Some(services[i]),
        service_filter(mentioned(services, words), Seq::empty()) == "service:"@ + services[i],
    decreases i,
{
    if i > 0 {
        assert(!has_text(words, lower(services[0])));
        let rest = services.drop_first();
        assert forall|j: int| 0 <= j < i - 1 implies !has_text(
            words,
            lower(#[trigger] rest[j]),
        ) by {
            assert(!has_text(words, lower(services[j + 1])));
        }
        law_mentioned_services_are_shown(rest, words, i - 1);
    }
}

/// A kind that is to be removed is gone, a kind that is to be added is there, and panels of
/// other kinds stay.
pub proof fn law_kinds_are_added_and_removed(
    panels: Seq<PanelV>,
    note: Seq<char>,
    words: Seq<char>,
    filter: Seq<char>,
    word: Seq<char>,
    kind: Seq<char>,
    title: Seq<char>,
)
    requires
        has_text(words, word),
    ensures
        !has_type(revised_kind((panels, note), words, true, filter, word, kind, title).0, kind),
        has_type(revised_kind((panels, note), words, false, filter, word, kind, title).0, kind),
{
    lemma_without(panels, kind);
    if !has_type(panels, kind) {
        let r = revised_kind((panels, note), words, false, filter, word, kind, title).0;
        assert(r[r.len() - 1].panel_type == kind);
    }
}

proof fn lemma_without(panels: Seq<PanelV>, kind: Seq<char>)
    ensures
        !has_type(without_type(panels, kind), kind),
    decreases panels.len(),
{
    if panels.len() > 0 {
        lemma_without(panels.drop_last(), kind);
        let before = without_type(panels.drop_last(), kind);
        let all = without_type(panels, kind);
        if has_type(all, kind) {
            let i = choose|i: int| 0 <= i < all.len() && (#[trigger] all[i]).panel_type == kind;
            if i < before.len() {
                assert(before[i].panel_type == kind);
            }
        }
    }
}

/// The questions of a model are numbered from one on, in their order.
pub proof fn law_questions_are_numbered(
    q: Seq<(Seq<char>, Option<Seq<Seq<char>>>)>,
    i: int,
)
    requires
        0 <= i < q.len(),
    ensures
        numbered(q).len() == q.len(),
        numbered(q)[i].id == i + 1,
        numbered(q)[i].question == q[i].0,
        q[i].1 matches Some(c) ==> c.len() > 0 ==> numbered(q)[i].choices == Some(c),
{
}

/// A reply that asks is answered by its questions, any other by its dashboard; and one that
/// could not be read is an error.
pub proof fn law_replies_are_answered(
    who: Seq<char>,
    raw: Seq<char>,
    x: ReplyV,
    columns: Map<Seq<char>, ColumnType>,
)
    ensures
        x.stage == "clarify"@ && x.questions.len() > 0 ==> (online(who, raw, Ok(x), columns) matches
            Ok(r) && r.stage == "clarify"@ && r.questions == numbered(x.questions) && r.dashboard
            is None && r.provider == who),
        x.stage == "clarify"@ && x.questions.len() == 0 ==> online(who, raw, Ok(x), columns) is Err,
        x.stage != "clarify"@ && x.dashboard is None ==> online(who, raw, Ok(x), columns) is Err,
        x.stage != "clarify"@ ==> (x.dashboard matches Some(d) ==> (checked_proposal(
            d,
            columns,
        ) matches Ok(p) ==> (online(who, raw, Ok(x), columns) matches Ok(r) && r.stage == "build"@
            && r.dashboard == Some(p) && r.provider == who))),
        forall|m: Seq<char>| #[trigger] online(who, raw, Err(m), columns) is Err,
{
}

/// A model is told the columns, the services, the wish, and what was answered before; for a
/// change also the dashboard that is there and what is to change. A wish that says nothing is
/// refused.
pub proof fn law_wishes_are_told(
    req: AiDashboardRequest,
    current_json: Seq<char>,
    columns: Seq<Seq<char>>,
    services: Seq<Seq<char>>,
)
    ensures
        ({
            let p = wish_prompt(req, current_json, columns, services);
            let change = req.current is Some && req.revision is Some && trim(
                req.revision->0@,
            ).len() > 0;
            let wish = wish_text(
                trim(req.description@),
                answers_view(req.answers@),
                columns,
                services,
            );
            &&& change ==> (p matches Ok(t) && begins(t, wish) && ends(
                t,
                "# Revision request\n\n"@ + trim(req.revision->0@) + "\n"@,
            ) && has_text(t, "# Current dashboard\n\n```json\n"@ + current_json + "\n```"@))
            &&& !change && trim(req.description@).len() > 0 ==> p == Ok::<Seq<char>, ErrorV>(wish)
            &&& !change && trim(req.description@).len() == 0 ==> p is Err
        }),
{
    if is_revision(req) {
        let wish = wish_text(
            trim(req.description@),
            answers_view(req.answers@),
            columns,
            services,
        );
        let a = "# Current dashboard\n\n```json\n"@ + current_json;
        let tail = "# Revision request\n\n"@ + trim(req.revision->0@) + "\n"@;
        reveal_strlit("\n```\n\n");
        reveal_strlit("\n```");
        let t = wish_prompt(req, current_json, columns, services)->Ok_0;
        assert(t =~= wish + a + "\n```\n\n"@ + tail);
        assert(t.subrange(0, wish.len() as int) =~= wish);
        assert(t.subrange(t.len() - tail.len(), t.len() as int) =~= tail);
        let mid = a + "\n```"@;
        let n = wish.len() as int;
        assert(t.subrange(n, n + mid.len()) =~= mid);
        assert(occurs_at(t, mid, n));
    }
}

/// What a model is told of a wish holds the wish itself.
pub proof fn law_wishes_hold_the_description(
    description: Seq<char>,
    columns: Seq<Seq<char>>,
    services: Seq<Seq<char>>,
)
    ensures
        ends(
            wish_text(description, Seq::empty(), columns, services),
            "\n# User request\n\n"@ + description + "\n"@,
        ),
{
    reveal_strlit("");
    let t = wish_text(description, Seq::empty(), columns, services);
    let tail = "\n# User request\n\n"@ + description + "\n"@;
    assert(t.subrange(t.len() - tail.len(), t.len() as int) =~= tail);
}

/// Names are listed one by one.
pub proof fn law_names_are_listed(names: Seq<Seq<char>>, name: Seq<char>)
    ensures
        bullets(names.push(name)) == bullets(names) + ("- `"@ + name + "`\n"@),
{
    assert(names.push(name).drop_last() =~= names);
}

/// Questions and answers are told in their order.
pub proof fn law_answers_are_told(answers: Seq<(Seq<char>, Seq<char>)>, q: Seq<char>, a: Seq<char>)
    ensures
        exchange(answers.push((q, a))) == exchange(answers) + ("Q: "@ + q + "\nA: "@ + a + "\n\n"@),
{
    assert(answers.push((q, a)).drop_last() =~= answers);
}

/// The object of a reply runs from its first opening brace to its last closing one.
pub proof fn law_objects_of_replies(a: Seq<char>, body: Seq<char>, c: Seq<char>)
    requires
        forall|i: int| 0 <= i < a.len() ==> #[trigger] a[i] != '{',
        forall|i: int| 0 <= i < c.len() ==> #[trigger] c[i] != '}',
    ensures
        braced(a + (seq!['{'] + body + seq!['}']) + c) == Some(seq!['{'] + body + seq!['}']),
{
    let o = seq!['{'] + body + seq!['}'];
    let s = a + o + c;
    let n = a.len() as int;
    assert forall|i: int| 0 <= i < n implies !just('{')(#[trigger] s[i]) by {
        assert(s[i] == a[i]);
    }
    assert(s[n] == '{');
    lemma_find_by(s, just('{'), n);
    let h = a + seq!['{'] + body;
    assert(s =~= h + seq!['}'] + c);
    lemma_last_brace(h, c, c.len() as int);
    assert(c.take(c.len() as int) =~= c);
    assert(s.subrange(n, h.len() as int + 1) =~= o);
}

proof fn lemma_last_brace(head: Seq<char>, tail: Seq<char>, n: int)
    requires
        0 <= n <= tail.len(),
        forall|i: int| 0 <= i < tail.len() ==> #[trigger] tail[i] != '}',
    ensures
        rsplit_once(head + seq!['}'] + tail.take(n), '}') == Some((head, tail.take(n))),
    decreases n,
{
    let s = head + seq!['}'] + tail.take(n);
    if n == 0 {
        assert(tail.take(0) =~= Seq::<char>::empty());
        assert(s.last() == '}');
        assert(s.drop_last() =~= head);
        assert(rsplit_once(s, '}') == Some((s.drop_last(), Seq::<char>::empty())));
    } else {
        assert(tail[n - 1] != '}');
        assert(s.last() == tail[n - 1]);
        assert(s.drop_last() =~= head + seq!['}'] + tail.take(n - 1));
        lemma_last_brace(head, tail, n - 1);
        assert(tail.take(n - 1).push(tail[n - 1]) =~= tail.take(n));
    }
}

/// The last line that says something is the filter.
pub proof fn law_last_lines_count(all: Seq<Seq<char>>, line: Seq<char>)
    ensures
        trim(line).len() > 0 ==> last_line(all.push(line)) == trim(line),
        trim(line).len() == 0 ==> last_line(all.push(line)) == last_line(all),
{
    assert(all.push(line).drop_last() =~= all);
}

/// The marks of a code block are taken off.
pub proof fn law_marks_are_taken_off(label: Seq<char>, t: Seq<char>)
    ensures
        unfenced_start("```"@ + (label + t), label) == t,
        unfenced_end(t + "```"@) == t,
{
    reveal_strlit("```");
    let s = "```"@ + (label + t);
    let u = label + t;
    assert(s.subrange(0, 3) =~= "```"@);
    assert(s.subrange(3, s.len() as int) =~= u);
    assert(u.subrange(0, label.len() as int) =~= label);
    assert(u.subrange(label.len() as int, u.len() as int) =~= t);
    let e = t + "```"@;
    assert(e.subrange(e.len() - 3, e.len() as int) =~= "```"@);
    assert(e.subrange(0, e.len() - 3) =~= t);
}

/// Without a model a wish is answered by a starter, and a change by the words in it; the
/// answer says that there was no model.
pub proof fn law_offline_answers(req: AiDashboardRequest, services: Seq<Seq<char>>)
    ensures
        ({
            let r = offline(req, services);
            let change = req.current is Some && req.revision is Some && trim(
                req.revision->0@,
            ).len() > 0;
            &&& change ==> (r matches Ok(x) && x.stage == "build"@ && x.provider == "off"@
                && x.dashboard == Some(revised(req.current->0@, req.revision->0@, services).0))
            &&& !change && trim(req.description@).len() > 0 ==> (r matches Ok(x) && x.stage
                == "build"@ && x.provider == "off"@ && x.dashboard == Some(
                starter(trim(req.description@), services),
            ))
            &&& !change && trim(req.description@).len() == 0 ==> r is Err
        }),
{
}

/// An endpoint stands below the address that is set, else below the usual one.
pub proof fn law_endpoints_of_models(base: Seq<char>, default: Seq<char>, path: Seq<char>)
    requires
        base.len() > 0,
        base.last() != '/',
    ensures
        endpoint_of(Some(base), default, path) == base + path,
        endpoint_of(None, default, path) == default + path,
{
    lemma_trim_end(base, just('/'), base.len() as int);
    assert(base.subrange(0, base.len() as int) =~= base);
}

/// Without a model the answer to a question is always a filter that can be run. It is the
/// whole hint where that is one, and otherwise the hint is shown beside it.
pub proof fn law_answers_without_a_model(query: Seq<char>, columns: Seq<Seq<char>>)
    ensures
        filter_of(offline_filter(query, columns)) is Ok,
        ({
            let hint = join(hinted(lower(query), columns), " "@);
            &&& filter_of(hint) is Ok ==> offline_filter(query, columns) == hint
            &&& filter_of(hint) is Ok ==> offline_note(query, columns) == "LLM disabled in config"@
            &&& filter_of(hint) is Err ==> offline_note(query, columns)
                == "LLM disabled in config; hint: "@ + hint
        }),
{
    lemma_trim_bounds(Seq::empty());
}

/// New panels show what the first panel with a filter shows.
pub proof fn law_the_first_filter(panels: Seq<PanelV>, i: int)
    requires
        0 <= i < panels.len(),
        panels[i].filter.len() > 0,
        forall|j: int| 0 <= j < i ==> (#[trigger] panels[j]).filter.len() == 0,
    ensures
        first_filter(panels) == panels[i].filter,
    decreases panels.len(),
{
    if i > 0 {
        let rest = panels.drop_first();
        assert(panels[0].filter.len() == 0);
        assert forall|j: int| 0 <= j < i - 1 implies (#[trigger] rest[j]).filter.len() == 0 by {
            assert(rest[j] == panels[j + 1]);
        }
        law_the_first_filter(rest, i - 1);
    }
}

/// A wish to remove, delete or drop the panels of one kind takes them away and leaves the
/// others. Any other wish for that kind adds a panel where there is none.
pub proof fn law_wishes_for_the_volume(panels: Seq<PanelV>, words: Seq<char>, filter: Seq<char>)
    requires
        has_text(words, "volume"@),
        !has_text(words, "latency"@),
        !has_text(words, "anomal"@),
        !has_text(words, "error"@),
        !has_text(words, "top service"@),
        !has_text(words, "top-service"@),
    ensures
        ({
            let after = revised_panels(panels, words, filter).0;
            let removing = has_text(words, "remove"@) || has_text(words, "delete"@) || has_text(
                words,
                "drop"@,
            );
            &&& removing ==> after == without_type(panels, "volume"@)
            &&& !removing && has_type(panels, "volume"@) ==> after == panels
            &&& !removing && !has_type(panels, "volume"@) ==> after.len() == panels.len() + 1
                && after.drop_last() == panels && after.last().panel_type == "volume"@
                && after.last().filter == filter
        }),
{
}

} // verus!

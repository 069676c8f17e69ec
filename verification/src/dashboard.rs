//! Dashboards out of plain words: what a model is asked, how its proposal is
//! checked, and what is built without a model.
use vstd::prelude::*;
use vstd::slice::slice_subrange;
use vstd::string::*;

use crate::ai::{
    bullets, push_bullets, strip_fence_end, strip_fence_start, unfenced_end, unfenced_start,
};
use crate::error::{Error, ErrorV};
use crate::hot::{HotAttribute, attrs_view};
use crate::query::{
    ColumnType, ColumnWhitelist, filter_of, filter_sql, parse_filter, standard_columns,
};
use crate::text::{
    all_digits, cat, cat3, char_is_alpha, chars_of, clone_strings, contains_text, find_by,
    find_char, has_text, is_alpha, just, lemma_find_by, lemma_split_some, lower, only_digits,
    opt_text, rsplit_once, rsplit_once_at, same, split, split_on, string_between, texts, to_lower,
    trim, trimmed,
};
use crate::units::alpha_class;

verus! {

// ---------------------------------------------------------------------
// Panels and proposals
// ---------------------------------------------------------------------
/// A panel of a dashboard.
#[derive(Debug, Clone)]
pub struct AiPanel {
    pub panel_type: String,
    pub title: String,
    pub window: String,
    pub filter: String,
    pub viz: String,
    /// The width on a grid of twelve columns.
    pub w: Option<u8>,
}

/// What an [`AiPanel`] says.
#[verifier::ext_equal]
pub struct PanelV {
    pub panel_type: Seq<char>,
    pub title: Seq<char>,
    pub window: Seq<char>,
    pub filter: Seq<char>,
    pub viz: Seq<char>,
    pub w: Option<u8>,
}

impl View for AiPanel {
    type V = PanelV;

    open spec fn view(&self) -> PanelV {
        PanelV {
            panel_type: self.panel_type@,
            title: self.title@,
            window: self.window@,
            filter: self.filter@,
            viz: self.viz@,
            w: self.w,
        }
    }
}

/// What panels say.
pub open spec fn panels_view(v: Seq<AiPanel>) -> Seq<PanelV> {
    Seq::new(v.len(), |i: int| v[i]@)
}

/// A dashboard.
#[derive(Debug, Clone)]
pub struct AiDashboardProposal {
    pub name: String,
    pub description: String,
    pub panels: Vec<AiPanel>,
}

/// What an [`AiDashboardProposal`] says.
#[verifier::ext_equal]
pub struct ProposalV {
    pub name: Seq<char>,
    pub description: Seq<char>,
    pub panels: Seq<PanelV>,
}

impl View for AiDashboardProposal {
    type V = ProposalV;

    open spec fn view(&self) -> ProposalV {
        ProposalV {
            name: self.name@,
            description: self.description@,
            panels: panels_view(self.panels@),
        }
    }
}

/// The answer to a question that was asked back.
#[derive(Debug, Clone)]
pub struct AiDashboardAnswer {
    pub question: String,
    pub answer: String,
}

impl View for AiDashboardAnswer {
    type V = (Seq<char>, Seq<char>);

    open spec fn view(&self) -> (Seq<char>, Seq<char>) {
        (self.question@, self.answer@)
    }
}

/// A wish for a dashboard.
#[derive(Debug, Clone)]
pub struct AiDashboardRequest {
    pub description: String,
    pub answers: Vec<AiDashboardAnswer>,
    /// The dashboard to be changed.
    pub current: Option<AiDashboardProposal>,
    /// How it is to be changed.
    pub revision: Option<String>,
}

/// A question that is asked back.
#[derive(Debug, Clone)]
pub struct AiDashboardQuestion {
    pub id: usize,
    pub question: String,
    pub choices: Option<Vec<String>>,
}

/// What an [`AiDashboardQuestion`] says.
pub struct QuestionV {
    pub id: nat,
    pub question: Seq<char>,
    pub choices: Option<Seq<Seq<char>>>,
}

impl View for AiDashboardQuestion {
    type V = QuestionV;

    open spec fn view(&self) -> QuestionV {
        QuestionV {
            id: self.id as nat,
            question: self.question@,
            choices: choices_view(self.choices),
        }
    }
}

/// What choices say.
pub open spec fn choices_view(c: Option<Vec<String>>) -> Option<Seq<Seq<char>>> {
    match c {
        Some(v) => Some(texts(v@)),
        None => None,
    }
}

/// What questions say.
pub open spec fn questions_view(v: Seq<AiDashboardQuestion>) -> Seq<QuestionV> {
    Seq::new(v.len(), |i: int| v[i]@)
}

/// What comes of a wish: questions, or a dashboard.
#[derive(Debug, Clone)]
pub struct AiDashboardResponse {
    /// `clarify` or `build`.
    pub stage: String,
    pub questions: Vec<AiDashboardQuestion>,
    pub dashboard: Option<AiDashboardProposal>,
    pub provider: String,
    pub raw: String,
}

/// What an [`AiDashboardResponse`] says.
#[verifier::ext_equal]
pub struct ResponseV {
    pub stage: Seq<char>,
    pub questions: Seq<QuestionV>,
    pub dashboard: Option<ProposalV>,
    pub provider: Seq<char>,
    pub raw: Seq<char>,
}

/// What a dashboard that may be there says.
pub open spec fn proposal_view(p: Option<AiDashboardProposal>) -> Option<ProposalV> {
    match p {
        Some(p) => Some(p@),
        None => None,
    }
}

impl View for AiDashboardResponse {
    type V = ResponseV;

    open spec fn view(&self) -> ResponseV {
        ResponseV {
            stage: self.stage@,
            questions: questions_view(self.questions@),
            dashboard: proposal_view(self.dashboard),
            provider: self.provider@,
            raw: self.raw@,
        }
    }
}

/// What is known of the data: the columns of filters, and the services.
#[derive(Debug, Clone)]
pub struct DashboardContext {
    pub columns: Vec<String>,
    pub services: Vec<String>,
}

/// The kinds of panels.
pub open spec fn panel_types() -> Seq<Seq<char>> {
    seq!["volume"@, "error-rate"@, "latency"@, "top-services"@, "log-count"@, "anomalies"@]
}

/// Whether a panel is of a known kind.
pub fn known_panel_type(t: &str) -> (r: bool)
    ensures
        r == panel_types().contains(t@),
{
    let r = same(t, "volume") || same(t, "error-rate") || same(t, "latency") || same(
        t,
        "top-services",
    ) || same(t, "log-count") || same(t, "anomalies");
    proof {
        let p = panel_types();
        assert(p[0] == "volume"@ && p[1] == "error-rate"@ && p[2] == "latency"@);
        assert(p[3] == "top-services"@ && p[4] == "log-count"@ && p[5] == "anomalies"@);
    }
    r
}

/// Whether a panel is shown in a known way.
pub open spec fn known_viz(v: Seq<char>) -> bool {
    v == "chart"@ || v == "number"@
}

/// A window: a number and a unit of time.
pub open spec fn is_window(w: Seq<char>) -> bool {
    let k = find_by(w, alpha_class());
    let unit = w.subrange(k, w.len() as int);
    &&& k > 0
    &&& all_digits(w.subrange(0, k))
    &&& unit == "s"@ || unit == "m"@ || unit == "h"@ || unit == "d"@ || unit == "w"@
}

/// Whether a text is a window.
pub fn valid_window(w: &str) -> (r: bool)
    ensures
        r == is_window(w@),
{
    let v = chars_of(w);
    let n: usize = v.len();
    let mut k: usize = 0;
    while k < n && !char_is_alpha(v[k])
        invariant
            n == v@.len(),
            k <= n,
            forall|i: int| 0 <= i < k ==> !is_alpha(#[trigger] v@[i]),
        decreases n - k,
    {
        k = k + 1;
    }
    proof {
        lemma_find_by(v@, alpha_class(), k as int);
    }
    let unit = string_between(v.as_slice(), k, n);
    let u = unit.as_str();
    k > 0 && only_digits(slice_subrange(v.as_slice(), 0, k)) && (same(u, "s") || same(u, "m")
        || same(u, "h") || same(u, "d") || same(u, "w"))
}

fn copy_panel(p: &AiPanel) -> (r: AiPanel)
    ensures
        r@ == p@,
{
    AiPanel {
        panel_type: p.panel_type.clone(),
        title: p.title.clone(),
        window: p.window.clone(),
        filter: p.filter.clone(),
        viz: p.viz.clone(),
        w: p.w,
    }
}

fn copy_panels(v: &Vec<AiPanel>) -> (r: Vec<AiPanel>)
    ensures
        panels_view(r@) == panels_view(v@),
{
    let mut out: Vec<AiPanel> = Vec::new();
    for i in 0..v.len()
        invariant
            out@.len() == i,
            forall|k: int| 0 <= k < i ==> (#[trigger] out@[k])@ == v@[k]@,
    {
        out.push(copy_panel(&v[i]));
    }
    assert(panels_view(out@) =~= panels_view(v@));
    out
}

fn copy_proposal(p: &AiDashboardProposal) -> (r: AiDashboardProposal)
    ensures
        r@ == p@,
{
    AiDashboardProposal {
        name: p.name.clone(),
        description: p.description.clone(),
        panels: copy_panels(&p.panels),
    }
}

// ---------------------------------------------------------------------
// What a model is asked
// ---------------------------------------------------------------------
/// Questions that were asked back, with their answers.
pub open spec fn exchange(answers: Seq<(Seq<char>, Seq<char>)>) -> Seq<char>
    decreases answers.len(),
{
    if answers.len() == 0 {
        Seq::empty()
    } else {
        exchange(answers.drop_last()) + ("Q: "@ + answers.last().0 + "\nA: "@ + answers.last().1
            + "\n\n"@)
    }
}

/// What answers say.
pub open spec fn answers_view(v: Seq<AiDashboardAnswer>) -> Seq<(Seq<char>, Seq<char>)> {
    Seq::new(v.len(), |i: int| v[i]@)
}

/// What a model is told of a wish.
pub open spec fn wish_text(
    description: Seq<char>,
    answers: Seq<(Seq<char>, Seq<char>)>,
    columns: Seq<Seq<char>>,
    services: Seq<Seq<char>>,
) -> Seq<char> {
    "# Context\n\nFilterable columns:\n"@ + bullets(columns) + (if services.len() == 0 {
        "\nServices seen in data: (none yet)\n"@
    } else {
        "\nServices seen in data (top by volume):\n"@ + bullets(services)
    }) + ("\n# User request\n\n"@ + description + "\n"@) + (if answers.len() == 0 {
        ""@
    } else {
        "\n# Answers to previous clarifying questions\n\n"@ + exchange(answers)
    })
}

/// What a model is told of a wish.
pub fn format_user_context(
    description: &str,
    answers: &Vec<AiDashboardAnswer>,
    ctx: &DashboardContext,
) -> (r: String)
    ensures
        r@ == wish_text(
            description@,
            answers_view(answers@),
            texts(ctx.columns@),
            texts(ctx.services@),
        ),
{
    let mut s = "# Context\n\nFilterable columns:\n".to_owned();
    push_bullets(&mut s, ctx.columns.as_slice());
    let mut served = String::new();
    if ctx.services.len() == 0 {
        served.append("\nServices seen in data: (none yet)\n");
        assert(served@ =~= "\nServices seen in data: (none yet)\n"@);
    } else {
        served.append("\nServices seen in data (top by volume):\n");
        assert(served@ =~= "\nServices seen in data (top by volume):\n"@);
        push_bullets(&mut served, ctx.services.as_slice());
    }
    s.append(served.as_str());
    let wish = cat3("\n# User request\n\n", description, "\n");
    s.append(wish.as_str());
    let mut said = String::new();
    let ghost all = answers_view(answers@);
    if answers.len() > 0 {
        said.append("\n# Answers to previous clarifying questions\n\n");
        assert(said@ =~= "\n# Answers to previous clarifying questions\n\n"@);
        let ghost start = said@;
        assert(start + exchange(all.take(0)) =~= start);
        for i in 0..answers.len()
            invariant
                all == answers_view(answers@),
                said@ == start + exchange(all.take(i as int)),
        {
            assert(all.take(i + 1).drop_last() == all.take(i as int));
            said.append("Q: ");
            said.append(answers[i].question.as_str());
            said.append("\nA: ");
            said.append(answers[i].answer.as_str());
            said.append("\n\n");
            assert(said@ =~= start + exchange(all.take(i + 1)));
        }
        assert(all.take(all.len() as int) == all);
    } else {
        proof {
            reveal_strlit("");
        }
        assert(said@ =~= ""@);
    }
    s.append(said.as_str());
    s
}

/// What a model is told of a change to a dashboard, which stands there as the JSON
/// text that it is given in.
pub fn format_revision_context(
    description: &str,
    current_json: &str,
    revision: &str,
    answers: &Vec<AiDashboardAnswer>,
    ctx: &DashboardContext,
) -> (r: String)
    ensures
        r@ == wish_text(
            description@,
            answers_view(answers@),
            texts(ctx.columns@),
            texts(ctx.services@),
        ) + "# Current dashboard\n\n```json\n"@ + current_json@ + "\n```\n\n"@
            + "# Revision request\n\n"@ + revision@ + "\n"@,
{
    let mut s = format_user_context(description, answers, ctx);
    s.append("# Current dashboard\n\n```json\n");
    s.append(current_json);
    s.append("\n```\n\n");
    s.append("# Revision request\n\n");
    s.append(revision);
    s.append("\n");
    s
}

// ---------------------------------------------------------------------
// Without a model
// ---------------------------------------------------------------------
/// The first service that a text in lower case mentions.
pub open spec fn mentioned(services: Seq<Seq<char>>, words: Seq<char>) -> Option<Seq<char>>
    decreases services.len(),
{
    if services.len() == 0 {
        None
    } else if has_text(words, lower(services[0])) {
        Some(services[0])
    } else {
        mentioned(services.drop_first(), words)
    }
}

fn mentioned_service(services: &Vec<String>, words: &str) -> (r: Option<String>)
    ensures
        opt_text(r) == mentioned(texts(services@), words@),
{
    let ghost all = texts(services@);
    assert(all.subrange(0, all.len() as int) == all);
    for i in 0..services.len()
        invariant
            all == texts(services@),
            mentioned(all.subrange(i as int, all.len() as int), words@) == mentioned(all, words@),
    {
        let ghost left = all.subrange(i as int, all.len() as int);
        assert(left.drop_first() == all.subrange(i + 1, all.len() as int));
        assert(left[0] == services@[i as int]@);
        let name = to_lower(services[i].as_str());
        if contains_text(words, name.as_str()) {
            return Some(services[i].clone());
        }
    }
    None
}

/// The filter on a service, or another one where there is no service.
pub open spec fn service_filter(service: Option<Seq<char>>, other: Seq<char>) -> Seq<char> {
    match service {
        Some(s) => "service:"@ + s,
        None => other,
    }
}

fn filter_on(service: Option<String>, other: String) -> (r: String)
    ensures
        r@ == service_filter(opt_text(service), other@),
{
    match service {
        Some(s) => cat("service:", s.as_str()),
        None => other,
    }
}

/// A panel of a chart.
pub open spec fn chart(
    kind: Seq<char>,
    title: Seq<char>,
    window: Seq<char>,
    filter: Seq<char>,
    w: u8,
) -> PanelV {
    PanelV { panel_type: kind, title, window, filter, viz: "chart"@, w: Some(w) }
}

fn chart_panel(kind: &str, title: &str, window: &str, filter: &str, w: u8) -> (r: AiPanel)
    ensures
        r@ == chart(kind@, title@, window@, filter@, w),
{
    AiPanel {
        panel_type: kind.to_owned(),
        title: title.to_owned(),
        window: window.to_owned(),
        filter: filter.to_owned(),
        viz: "chart".to_owned(),
        w: Some(w),
    }
}

fn add_panel(panels: &mut Vec<AiPanel>, p: AiPanel)
    ensures
        panels_view(final(panels)@) == panels_view(old(panels)@).push(p@),
        final(panels)@.len() == old(panels)@.len() + 1,
{
    let ghost before = panels_view(panels@);
    let ghost v = p@;
    panels.push(p);
    assert(panels_view(panels@) =~= before.push(v));
}

/// The panels of a starter dashboard.
pub open spec fn starter_panels(words: Seq<char>, filter: Seq<char>) -> Seq<PanelV> {
    let title = if filter.len() == 0 {
        "Volume"@
    } else {
        "Volume · "@ + filter
    };
    let two = seq![
        chart("volume"@, title, "1h"@, filter, 6),
        chart("error-rate"@, "Error rate"@, "24h"@, filter, 6),
    ];
    let three = if filter.len() > 0 || has_text(words, "latency"@) || has_text(words, "slow"@) {
        two.push(chart("latency"@, "Latency p95"@, "1h"@, filter, 6))
    } else {
        two
    };
    if has_text(words, "anomal"@) {
        three.push(chart("anomalies"@, "Anomalies"@, "24h"@, filter, 12))
    } else {
        three
    }
}

/// A starter dashboard. It is about the first service that the description mentions.
pub open spec fn starter(description: Seq<char>, services: Seq<Seq<char>>) -> ProposalV {
    let words = lower(description);
    let service = mentioned(services, words);
    let filter = service_filter(service, Seq::empty());
    ProposalV {
        name: match service {
            None => "Starter dashboard"@,
            Some(s) => split(s, ':')[0] + " dashboard"@,
        },
        description: "Generated from: "@ + description,
        panels: starter_panels(words, filter),
    }
}

/// Builds a starter dashboard.
pub fn heuristic_dashboard(description: &str, ctx: &DashboardContext) -> (r: AiDashboardProposal)
    ensures
        r@ == starter(description@, texts(ctx.services@)),
{
    let words = to_lower(description);
    let service = mentioned_service(&ctx.services, words.as_str());
    let name = match &service {
        None => "Starter dashboard".to_owned(),
        Some(s) => {
            let parts = split_on(s.as_str(), ':');
            proof {
                lemma_split_some(s@, ':');
                assert(texts(parts@)[0] == parts@[0]@);
            }
            cat(parts[0].as_str(), " dashboard")
        },
    };
    let filter = filter_on(service, String::new());
    let f = filter.as_str();
    let title = if f.is_empty() {
        "Volume".to_owned()
    } else {
        cat("Volume · ", f)
    };
    let mut panels: Vec<AiPanel> = Vec::new();
    assert(panels_view(panels@) =~= Seq::<PanelV>::empty());
    add_panel(&mut panels, chart_panel("volume", title.as_str(), "1h", f, 6));
    add_panel(&mut panels, chart_panel("error-rate", "Error rate", "24h", f, 6));
    assert(panels_view(panels@) =~= seq![
        chart("volume"@, title@, "1h"@, f@, 6),
        chart("error-rate"@, "Error rate"@, "24h"@, f@, 6),
    ]);
    if !f.is_empty() || contains_text(words.as_str(), "latency") || contains_text(
        words.as_str(),
        "slow",
    ) {
        add_panel(&mut panels, chart_panel("latency", "Latency p95", "1h", f, 6));
    }
    if contains_text(words.as_str(), "anomal") {
        add_panel(&mut panels, chart_panel("anomalies", "Anomalies", "24h", f, 12));
    }
    AiDashboardProposal { name, description: cat("Generated from: ", description), panels }
}

/// The filter of the first panel that has one.
pub open spec fn first_filter(panels: Seq<PanelV>) -> Seq<char>
    decreases panels.len(),
{
    if panels.len() == 0 {
        Seq::empty()
    } else if panels[0].filter.len() > 0 {
        panels[0].filter
    } else {
        first_filter(panels.drop_first())
    }
}

fn find_filter(panels: &Vec<AiPanel>) -> (r: String)
    ensures
        r@ == first_filter(panels_view(panels@)),
{
    let ghost all = panels_view(panels@);
    assert(all.subrange(0, all.len() as int) == all);
    for i in 0..panels.len()
        invariant
            all == panels_view(panels@),
            first_filter(all.subrange(i as int, all.len() as int)) == first_filter(all),
    {
        let ghost left = all.subrange(i as int, all.len() as int);
        assert(left.drop_first() == all.subrange(i + 1, all.len() as int));
        assert(left[0] == panels@[i as int]@);
        if !panels[i].filter.as_str().is_empty() {
            return panels[i].filter.clone();
        }
    }
    String::new()
}

/// Whether there is a panel of a kind.
pub open spec fn has_type(panels: Seq<PanelV>, kind: Seq<char>) -> bool {
    exists|i: int| 0 <= i < panels.len() && (#[trigger] panels[i]).panel_type == kind
}

/// Panels without those of a kind.
pub open spec fn without_type(panels: Seq<PanelV>, kind: Seq<char>) -> Seq<PanelV>
    decreases panels.len(),
{
    if panels.len() == 0 {
        Seq::empty()
    } else if panels.last().panel_type == kind {
        without_type(panels.drop_last(), kind)
    } else {
        without_type(panels.drop_last(), kind).push(panels.last())
    }
}

/// What becomes of panels, and what is noted, where a change mentions a kind by a
/// word.
pub open spec fn revised_kind(
    state: (Seq<PanelV>, Seq<char>),
    words: Seq<char>,
    removing: bool,
    filter: Seq<char>,
    word: Seq<char>,
    kind: Seq<char>,
    title: Seq<char>,
) -> (Seq<PanelV>, Seq<char>) {
    if !has_text(words, word) {
        state
    } else if removing {
        (
            without_type(state.0, kind),
            if has_type(state.0, kind) {
                state.1 + (" (removed "@ + kind + ")"@)
            } else {
                state.1
            },
        )
    } else if has_type(state.0, kind) {
        state
    } else {
        (
            state.0.push(chart(kind, title, "1h"@, filter, 6)),
            state.1 + (" (added "@ + kind + ")"@),
        )
    }
}

/// What becomes of panels by a change, and what is noted.
pub open spec fn revised_panels(
    panels: Seq<PanelV>,
    words: Seq<char>,
    filter: Seq<char>,
) -> (Seq<PanelV>, Seq<char>) {
    let r = has_text(words, "remove"@) || has_text(words, "delete"@) || has_text(words, "drop"@);
    let s0 = (panels, "applied simple keyword revisions"@);
    let s1 = revised_kind(s0, words, r, filter, "latency"@, "latency"@, "Latency p95"@);
    let s2 = revised_kind(s1, words, r, filter, "anomal"@, "anomalies"@, "Anomalies"@);
    let s3 = revised_kind(s2, words, r, filter, "volume"@, "volume"@, "Volume"@);
    let s4 = revised_kind(s3, words, r, filter, "error"@, "error-rate"@, "Error rate"@);
    let s5 = revised_kind(
        s4,
        words,
        r,
        filter,
        "top service"@,
        "top-services"@,
        "Top services"@,
    );
    revised_kind(s5, words, r, filter, "top-service"@, "top-services"@, "Top services"@)
}

/// A dashboard that is changed by the words of a wish, and what is noted. A change
/// that would leave no panel is not made.
pub open spec fn revised(current: ProposalV, revision: Seq<char>, services: Seq<Seq<char>>) -> (
    ProposalV,
    Seq<char>,
) {
    let words = lower(revision);
    let filter = service_filter(mentioned(services, words), first_filter(current.panels));
    let (panels, note) = revised_panels(current.panels, words, filter);
    if panels.len() == 0 {
        (current, "revision would remove every panel; returned the dashboard unchanged"@)
    } else {
        (ProposalV { panels, ..current }, note)
    }
}

fn drop_type(panels: &Vec<AiPanel>, kind: &str) -> (r: Vec<AiPanel>)
    ensures
        panels_view(r@) == without_type(panels_view(panels@), kind@),
        r@.len() < panels@.len() <==> has_type(panels_view(panels@), kind@),
{
    let mut out: Vec<AiPanel> = Vec::new();
    let ghost all = panels_view(panels@);
    let ghost mut gone = false;
    assert(panels_view(out@) =~= Seq::<PanelV>::empty());
    for i in 0..panels.len()
        invariant
            all == panels_view(panels@),
            panels_view(out@) == without_type(all.take(i as int), kind@),
            out@.len() <= i,
            gone <==> out@.len() < i,
            gone <==> exists|k: int| 0 <= k < i && (#[trigger] all[k]).panel_type == kind@,
    {
        assert(all.take(i + 1).drop_last() == all.take(i as int));
        assert(all[i as int] == panels@[i as int]@);
        if same(panels[i].panel_type.as_str(), kind) {
            proof {
                gone = true;
            }
        } else {
            add_panel(&mut out, copy_panel(&panels[i]));
        }
    }
    assert(all.take(all.len() as int) == all);
    out
}

fn any_type(panels: &Vec<AiPanel>, kind: &str) -> (r: bool)
    ensures
        r == has_type(panels_view(panels@), kind@),
{
    let ghost all = panels_view(panels@);
    for i in 0..panels.len()
        invariant
            all == panels_view(panels@),
            forall|k: int| 0 <= k < i ==> (#[trigger] all[k]).panel_type != kind@,
    {
        assert(all[i as int] == panels@[i as int]@);
        if same(panels[i].panel_type.as_str(), kind) {
            return true;
        }
    }
    false
}

/// A change under way.
struct Revision {
    panels: Vec<AiPanel>,
    note: String,
}

impl Revision {
    spec fn state(&self) -> (Seq<PanelV>, Seq<char>) {
        (panels_view(self.panels@), self.note@)
    }
}

fn revise_kind(
    rev: Revision,
    words: &str,
    removing: bool,
    filter: &str,
    word: &str,
    kind: &str,
    title: &str,
) -> (r: Revision)
    ensures
        r.state() == revised_kind(
            rev.state(),
            words@,
            removing,
            filter@,
            word@,
            kind@,
            title@,
        ),
{
    if !contains_text(words, word) {
        return rev;
    }
    let mut rev = rev;
    if removing {
        let before: usize = rev.panels.len();
        let left = drop_type(&rev.panels, kind);
        if left.len() < before {
            let said = cat3(" (removed ", kind, ")");
            rev.note.append(said.as_str());
        }
        rev.panels = left;
    } else if !any_type(&rev.panels, kind) {
        add_panel(&mut rev.panels, chart_panel(kind, title, "1h", filter, 6));
        let said = cat3(" (added ", kind, ")");
        rev.note.append(said.as_str());
    }
    rev
}

/// Changes a dashboard by the words of a wish.
pub fn heuristic_revision(
    current: &AiDashboardProposal,
    revision: &str,
    ctx: &DashboardContext,
) -> (r: (AiDashboardProposal, String))
    ensures
        (r.0@, r.1@) == revised(current@, revision@, texts(ctx.services@)),
{
    let words = to_lower(revision);
    let w = words.as_str();
    let filter = filter_on(mentioned_service(&ctx.services, w), find_filter(&current.panels));
    let f = filter.as_str();
    let removing = contains_text(w, "remove") || contains_text(w, "delete") || contains_text(
        w,
        "drop",
    );
    let s0 = Revision {
        panels: copy_panels(&current.panels),
        note: "applied simple keyword revisions".to_owned(),
    };
    let s1 = revise_kind(s0, w, removing, f, "latency", "latency", "Latency p95");
    let s2 = revise_kind(s1, w, removing, f, "anomal", "anomalies", "Anomalies");
    let s3 = revise_kind(s2, w, removing, f, "volume", "volume", "Volume");
    let s4 = revise_kind(s3, w, removing, f, "error", "error-rate", "Error rate");
    let s5 = revise_kind(s4, w, removing, f, "top service", "top-services", "Top services");
    let s6 = revise_kind(s5, w, removing, f, "top-service", "top-services", "Top services");
    if s6.panels.len() == 0 {
        return (
            copy_proposal(current),
            "revision would remove every panel; returned the dashboard unchanged".to_owned(),
        );
    }
    (
        AiDashboardProposal {
            name: current.name.clone(),
            description: current.description.clone(),
            panels: s6.panels,
        },
        s6.note,
    )
}

// ---------------------------------------------------------------------
// What a model replies
// ---------------------------------------------------------------------
/// A question in a reply.
#[derive(Debug, Clone)]
pub struct ModelQuestion {
    pub question: String,
    pub choices: Option<Vec<String>>,
}

impl View for ModelQuestion {
    type V = (Seq<char>, Option<Seq<Seq<char>>>);

    open spec fn view(&self) -> (Seq<char>, Option<Seq<Seq<char>>>) {
        (self.question@, choices_view(self.choices))
    }
}

/// A dashboard in a reply.
pub type ModelDashboard = AiDashboardProposal;

/// A reply: questions, or a dashboard.
#[derive(Debug, Clone)]
pub struct ModelReply {
    pub stage: String,
    pub questions: Vec<ModelQuestion>,
    pub dashboard: Option<AiDashboardProposal>,
}

/// What a [`ModelReply`] says.
#[verifier::ext_equal]
pub struct ReplyV {
    pub stage: Seq<char>,
    pub questions: Seq<(Seq<char>, Option<Seq<Seq<char>>>)>,
    pub dashboard: Option<ProposalV>,
}

/// What the questions of a reply say.
pub open spec fn asked_view(v: Seq<ModelQuestion>) -> Seq<(Seq<char>, Option<Seq<Seq<char>>>)> {
    Seq::new(v.len(), |i: int| v[i]@)
}

impl View for ModelReply {
    type V = ReplyV;

    open spec fn view(&self) -> ReplyV {
        ReplyV {
            stage: self.stage@,
            questions: asked_view(self.questions@),
            dashboard: proposal_view(self.dashboard),
        }
    }
}

/// The object in a text: from the first opening brace to the last closing one.
pub open spec fn braced(s: Seq<char>) -> Option<Seq<char>> {
    let a = find_by(s, just('{'));
    match rsplit_once(s, '}') {
        Some((before, _)) => if a < before.len() {
            Some(s.subrange(a, before.len() as int + 1))
        } else {
            None
        },
        None => None,
    }
}

/// The time that a panel shows where a reply does not say.
pub fn default_window() -> (r: String)
    ensures
        r@ == "1h"@,
{
    "1h".to_owned()
}

/// The view of a panel where a reply does not say.
pub fn default_viz() -> (r: String)
    ensures
        r@ == "chart"@,
{
    "chart".to_owned()
}

/// The name of a dashboard where a reply does not say.
pub fn default_name() -> (r: String)
    ensures
        r@ == "AI dashboard"@,
{
    "AI dashboard".to_owned()
}

/// The object in what a model said, without the marks of a code block.
pub open spec fn reply_text(raw: Seq<char>) -> Option<Seq<char>> {
    braced(unfenced_end(unfenced_start(trim(raw), "json"@)))
}

fn find_object(s: &str) -> (r: Option<String>)
    ensures
        opt_text(r) == braced(s@),
{
    let v = chars_of(s);
    let a: usize = find_char(v.as_slice(), '{');
    match rsplit_once_at(s, '}') {
        None => None,
        Some(p) => {
            proof {
                lemma_rsplit(s@, '}');
            }
            let before = chars_of(p.0.as_str());
            let n: usize = before.len();
            if a < n {
                Some(string_between(v.as_slice(), a, n + 1))
            } else {
                None
            }
        },
    }
}

proof fn lemma_rsplit(s: Seq<char>, sep: char)
    ensures
        rsplit_once(s, sep) matches Some(p) ==> p.0.len() < s.len(),
    decreases s.len(),
{
    if s.len() > 0 && s.last() != sep {
        lemma_rsplit(s.drop_last(), sep);
    }
}

/// Takes the object out of what a model said, in which its reply stands. The marks of a
/// code block, and words around the object, do not count.
pub fn reply_object(raw: &str) -> (r: Result<String, String>)
    ensures
        match r {
            Ok(t) => reply_text(raw@) == Some(t@),
            Err(m) => reply_text(raw@) is None && m@ == "no JSON object found in output"@,
        },
{
    let t = trimmed(raw);
    let open = strip_fence_start(t.as_str(), "json");
    let body = strip_fence_end(open.as_str());
    match find_object(body.as_str()) {
        Some(o) => Ok(o),
        None => Err("no JSON object found in output".to_owned()),
    }
}

// ---------------------------------------------------------------------
// Checking a proposal
// ---------------------------------------------------------------------
/// Whether a filter can be turned into a query on the columns.
pub open spec fn filter_compiles(filter: Seq<char>, columns: Map<Seq<char>, ColumnType>) -> bool {
    match filter_of(filter) {
        Ok(tree) => filter_sql(tree, columns) is Ok,
        Err(_) => false,
    }
}

/// A panel with what is wrong in it put right; none of an unknown kind.
pub open spec fn repaired(p: PanelV, columns: Map<Seq<char>, ColumnType>) -> Option<PanelV> {
    if !panel_types().contains(p.panel_type) {
        None
    } else {
        Some(
            PanelV {
                panel_type: p.panel_type,
                title: if trim(p.title).len() == 0 {
                    p.panel_type
                } else {
                    p.title
                },
                window: if is_window(p.window) {
                    p.window
                } else {
                    "1h"@
                },
                filter: if p.filter.len() > 0 && filter_compiles(p.filter, columns) {
                    p.filter
                } else {
                    Seq::empty()
                },
                viz: if known_viz(p.viz) {
                    p.viz
                } else {
                    "chart"@
                },
                w: match p.w {
                    Some(w) => Some(
                        if w < 1 {
                            1u8
                        } else if w > 12 {
                            12u8
                        } else {
                            w
                        },
                    ),
                    None => None,
                },
            },
        )
    }
}

/// Panels with what is wrong in them put right.
pub open spec fn repaired_panels(
    panels: Seq<PanelV>,
    columns: Map<Seq<char>, ColumnType>,
) -> Seq<PanelV>
    decreases panels.len(),
{
    if panels.len() == 0 {
        Seq::empty()
    } else {
        let before = repaired_panels(panels.drop_last(), columns);
        match repaired(panels.last(), columns) {
            Some(p) => before.push(p),
            None => before,
        }
    }
}

/// A proposal with what is wrong in it put right; an error where no panel is left.
pub open spec fn checked_proposal(d: ProposalV, columns: Map<Seq<char>, ColumnType>) -> Result<
    ProposalV,
    ErrorV,
> {
    let panels = repaired_panels(d.panels, columns);
    if panels.len() == 0 {
        Err(ErrorV::Config("LLM proposal contained no valid panels"@))
    } else {
        Ok(
            ProposalV {
                name: if trim(d.name).len() == 0 {
                    "AI dashboard"@
                } else {
                    d.name
                },
                description: d.description,
                panels,
            },
        )
    }
}

fn compiles(filter: &str, columns: &ColumnWhitelist) -> (r: bool)
    ensures
        r == filter_compiles(filter@, columns@),
{
    match parse_filter(filter) {
        Ok(c) => c.to_sql(columns).is_ok(),
        Err(_) => false,
    }
}

fn text_is_blank(s: &str) -> (r: bool)
    ensures
        r == (trim(s@).len() == 0),
{
    let t = trimmed(s);
    t.as_str().is_empty()
}

fn repair(p: &AiPanel, columns: &ColumnWhitelist) -> (r: Option<AiPanel>)
    ensures
        match r {
            Some(x) => repaired(p@, columns@) == Some(x@),
            None => repaired(p@, columns@) is None,
        },
{
    if !known_panel_type(p.panel_type.as_str()) {
        return None;
    }
    let title = if text_is_blank(p.title.as_str()) {
        p.panel_type.clone()
    } else {
        p.title.clone()
    };
    let window = if valid_window(p.window.as_str()) {
        p.window.clone()
    } else {
        "1h".to_owned()
    };
    let filter = if !p.filter.as_str().is_empty() && compiles(p.filter.as_str(), columns) {
        p.filter.clone()
    } else {
        String::new()
    };
    let viz = if same(p.viz.as_str(), "chart") || same(p.viz.as_str(), "number") {
        p.viz.clone()
    } else {
        "chart".to_owned()
    };
    let w: Option<u8> = match p.w {
        Some(w) => if w < 1 {
            Some(1)
        } else if w > 12 {
            Some(12)
        } else {
            Some(w)
        },
        None => None,
    };
    Some(AiPanel { panel_type: p.panel_type.clone(), title, window, filter, viz, w })
}

/// What a checked proposal says.
pub open spec fn checked_view(r: Result<AiDashboardProposal, Error>) -> Result<ProposalV, ErrorV> {
    match r {
        Ok(p) => Ok(p@),
        Err(e) => Err(e@),
    }
}

/// Checks a proposal and puts right what is wrong in it.
pub fn validate_proposal(dash: &AiDashboardProposal, hot: &[HotAttribute]) -> (r: Result<
    AiDashboardProposal,
    Error,
>)
    ensures
        checked_view(r) == checked_proposal(dash@, standard_columns(attrs_view(hot@))),
{
    let columns = ColumnWhitelist::standard(hot);
    let mut panels: Vec<AiPanel> = Vec::new();
    let ghost all = panels_view(dash.panels@);
    assert(panels_view(panels@) =~= Seq::<PanelV>::empty());
    for i in 0..dash.panels.len()
        invariant
            all == panels_view(dash.panels@),
            panels_view(panels@) == repaired_panels(all.take(i as int), columns@),
    {
        assert(all.take(i + 1).drop_last() == all.take(i as int));
        if let Some(p) = repair(&dash.panels[i], &columns) {
            add_panel(&mut panels, p);
        }
    }
    assert(all.take(all.len() as int) == all);
    if panels.len() == 0 {
        return Err(Error::config("LLM proposal contained no valid panels".to_owned()));
    }
    let name = if text_is_blank(dash.name.as_str()) {
        "AI dashboard".to_owned()
    } else {
        dash.name.clone()
    };
    Ok(AiDashboardProposal { name, description: dash.description.clone(), panels })
}

// ---------------------------------------------------------------------
// A wish
// ---------------------------------------------------------------------
/// Whether a wish is to change a dashboard.
pub open spec fn is_revision(req: AiDashboardRequest) -> bool {
    req.current is Some && match req.revision {
        Some(r) => trim(r@).len() > 0,
        None => false,
    }
}

fn revises(req: &AiDashboardRequest) -> (r: bool)
    ensures
        r == is_revision(*req),
{
    match &req.current {
        None => false,
        Some(_) => match &req.revision {
            Some(r) => !text_is_blank(r.as_str()),
            None => false,
        },
    }
}

/// What a model is asked for a wish. One that says nothing is refused. The dashboard
/// that is to be changed is shown as its JSON text.
pub open spec fn wish_prompt(
    req: AiDashboardRequest,
    current_json: Seq<char>,
    columns: Seq<Seq<char>>,
    services: Seq<Seq<char>>,
) -> Result<Seq<char>, ErrorV> {
    let wish = wish_text(trim(req.description@), answers_view(req.answers@), columns, services);
    if is_revision(req) {
        Ok(
            wish + "# Current dashboard\n\n```json\n"@ + current_json
                + "\n```\n\n"@ + "# Revision request\n\n"@ + trim(req.revision->0@) + "\n"@,
        )
    } else if trim(req.description@).len() == 0 {
        Err(ErrorV::InvalidInput("description must not be empty"@))
    } else {
        Ok(wish)
    }
}

/// What a model is asked for a wish, with the JSON text of the dashboard that it has.
pub fn dashboard_prompt(
    req: &AiDashboardRequest,
    current_json: &str,
    ctx: &DashboardContext,
) -> (r: Result<String, Error>)
    ensures
        match r {
            Ok(s) => wish_prompt(*req, current_json@, texts(ctx.columns@), texts(ctx.services@))
                == Ok::<Seq<char>, ErrorV>(s@),
            Err(e) => wish_prompt(*req, current_json@, texts(ctx.columns@), texts(ctx.services@))
                == Err::<Seq<char>, ErrorV>(e@),
        },
{
    let description = trimmed(req.description.as_str());
    if revises(req) {
        if let Some(revision) = &req.revision {
            let change = trimmed(revision.as_str());
            return Ok(
                format_revision_context(
                    description.as_str(),
                    current_json,
                    change.as_str(),
                    &req.answers,
                    ctx,
                ),
            );
        }
    }
    if description.as_str().is_empty() {
        return Err(Error::invalid_input("description must not be empty".to_owned()));
    }
    Ok(format_user_context(description.as_str(), &req.answers, ctx))
}

/// The answer that is a dashboard.
pub open spec fn built(p: ProposalV, who: Seq<char>, raw: Seq<char>) -> ResponseV {
    ResponseV {
        stage: "build"@,
        questions: Seq::empty(),
        dashboard: Some(p),
        provider: who,
        raw,
    }
}

fn build(p: AiDashboardProposal, who: &str, raw: &str) -> (r: AiDashboardResponse)
    ensures
        r@ == built(p@, who@, raw@),
{
    let questions: Vec<AiDashboardQuestion> = Vec::new();
    assert(questions_view(questions@) =~= Seq::<QuestionV>::empty());
    AiDashboardResponse {
        stage: "build".to_owned(),
        questions,
        dashboard: Some(p),
        provider: who.to_owned(),
        raw: raw.to_owned(),
    }
}

/// What comes of a wish without a model.
pub open spec fn offline(req: AiDashboardRequest, services: Seq<Seq<char>>) -> Result<
    ResponseV,
    ErrorV,
> {
    if is_revision(req) {
        let (p, note) = revised(req.current->0@, req.revision->0@, services);
        Ok(built(p, "off"@, "LLM disabled in config; "@ + note))
    } else if trim(req.description@).len() == 0 {
        Err(ErrorV::InvalidInput("description must not be empty"@))
    } else {
        Ok(
            built(
                starter(trim(req.description@), services),
                "off"@,
                "LLM disabled in config; generated a starter dashboard from keywords"@,
            ),
        )
    }
}

/// What an answer to a wish says.
pub open spec fn response_view(r: Result<AiDashboardResponse, Error>) -> Result<ResponseV, ErrorV> {
    match r {
        Ok(x) => Ok(x@),
        Err(e) => Err(e@),
    }
}

/// Answers a wish without a model.
pub fn dashboard_offline(req: &AiDashboardRequest, ctx: &DashboardContext) -> (r: Result<
    AiDashboardResponse,
    Error,
>)
    ensures
        response_view(r) == offline(*req, texts(ctx.services@)),
{
    if revises(req) {
        if let (Some(current), Some(revision)) = (&req.current, &req.revision) {
            let (p, note) = heuristic_revision(current, revision.as_str(), ctx);
            let raw = cat("LLM disabled in config; ", note.as_str());
            return Ok(build(p, "off", raw.as_str()));
        }
    }
    let description = trimmed(req.description.as_str());
    if description.as_str().is_empty() {
        return Err(Error::invalid_input("description must not be empty".to_owned()));
    }
    let p = heuristic_dashboard(description.as_str(), ctx);
    Ok(
        build(
            p,
            "off",
            "LLM disabled in config; generated a starter dashboard from keywords",
        ),
    )
}

/// The questions of a reply, numbered from one. An empty list of choices counts as
/// none.
pub open spec fn numbered(q: Seq<(Seq<char>, Option<Seq<Seq<char>>>)>) -> Seq<QuestionV> {
    Seq::new(
        q.len(),
        |i: int|
            QuestionV {
                id: (i + 1) as nat,
                question: q[i].0,
                choices: match q[i].1 {
                    Some(c) => if c.len() > 0 {
                        Some(c)
                    } else {
                        None
                    },
                    None => None,
                },
            },
    )
}

/// What a reply says, or why what a model said is none.
pub open spec fn reply_view(r: Result<ModelReply, String>) -> Result<ReplyV, Seq<char>> {
    match r {
        Ok(x) => Ok(x@),
        Err(m) => Err(m@),
    }
}

/// What comes of a wish by what a model said, and by the reply in it.
pub open spec fn online(
    who: Seq<char>,
    raw: Seq<char>,
    reply: Result<ReplyV, Seq<char>>,
    columns: Map<Seq<char>, ColumnType>,
) -> Result<ResponseV, ErrorV> {
    match reply {
        Err(m) => Err(ErrorV::Config("LLM reply not parseable: "@ + m)),
        Ok(x) => if x.stage == "clarify"@ {
            if x.questions.len() == 0 {
                Err(ErrorV::Config("LLM returned clarify stage with no questions"@))
            } else {
                Ok(
                    ResponseV {
                        stage: "clarify"@,
                        questions: numbered(x.questions),
                        dashboard: None,
                        provider: who,
                        raw,
                    },
                )
            }
        } else {
            match x.dashboard {
                None => Err(ErrorV::Config("LLM returned build stage with no dashboard"@)),
                Some(d) => match checked_proposal(d, columns) {
                    Ok(p) => Ok(built(p, who, raw)),
                    Err(e) => Err(e),
                },
            }
        },
    }
}

fn number_questions(q: &Vec<ModelQuestion>) -> (r: Vec<AiDashboardQuestion>)
    ensures
        questions_view(r@) == numbered(asked_view(q@)),
{
    let mut out: Vec<AiDashboardQuestion> = Vec::new();
    let n: usize = q.len();
    for i in 0..n
        invariant
            n == q@.len(),
            out@.len() == i,
            forall|k: int|
                0 <= k < i ==> (#[trigger] out@[k])@ == numbered(asked_view(q@))[k],
    {
        let choices = match &q[i].choices {
            Some(c) => if c.len() > 0 {
                Some(clone_strings(c.as_slice()))
            } else {
                None
            },
            None => None,
        };
        out.push(AiDashboardQuestion { id: i + 1, question: q[i].question.clone(), choices });
        assert(out@[i as int]@ == numbered(asked_view(q@))[i as int]);
    }
    assert(questions_view(out@) =~= numbered(asked_view(q@)));
    out
}

/// Answers a wish by what a model said: by the reply in it, or by the reason why there is
/// none.
pub fn dashboard_from_reply(
    who: &str,
    raw: &str,
    reply: Result<ModelReply, String>,
    hot: &[HotAttribute],
) -> (r: Result<AiDashboardResponse, Error>)
    ensures
        response_view(r) == online(
            who@,
            raw@,
            reply_view(reply),
            standard_columns(attrs_view(hot@)),
        ),
{
    let reply = match reply {
        Ok(x) => x,
        Err(m) => return Err(Error::config(cat("LLM reply not parseable: ", m.as_str()))),
    };
    if same(reply.stage.as_str(), "clarify") {
        if reply.questions.len() == 0 {
            return Err(
                Error::config("LLM returned clarify stage with no questions".to_owned()),
            );
        }
        return Ok(
            AiDashboardResponse {
                stage: "clarify".to_owned(),
                questions: number_questions(&reply.questions),
                dashboard: None,
                provider: who.to_owned(),
                raw: raw.to_owned(),
            },
        );
    }
    match &reply.dashboard {
        None => Err(Error::config("LLM returned build stage with no dashboard".to_owned())),
        Some(d) => match validate_proposal(d, hot) {
            Ok(p) => Ok(build(p, who, raw)),
            Err(e) => Err(e),
        },
    }
}

// ---------------------------------------------------------------------
// Laws
// ---------------------------------------------------------------------
/// Whether a panel can be shown: its kind, window, view and width are known, and its
/// filter is empty or turns into a query on the columns.
pub open spec fn showable(p: PanelV, columns: Map<Seq<char>, ColumnType>) -> bool {
    &&& panel_types().contains(p.panel_type)
    &&& trim(p.title).len() > 0 || p.title == p.panel_type
    &&& is_window(p.window)
    &&& p.filter.len() == 0 || filter_compiles(p.filter, columns)
    &&& known_viz(p.viz)
    &&& p.w matches Some(w) ==> 1 <= w <= 12
}

proof fn lemma_hour_is_window()
    ensures
        is_window("1h"@),
{
    reveal_strlit("1h");
    reveal_strlit("h");
    let w = "1h"@;
    lemma_find_by(w, alpha_class(), 1);
    assert(w.subrange(1, 2) =~= "h"@);
}

/// Whatever a model proposes, a dashboard that is accepted has at least one panel,
/// and every panel of it can be shown.
pub proof fn law_accepted_dashboards_can_be_shown(
    d: ProposalV,
    columns: Map<Seq<char>, ColumnType>,
)
    ensures
        checked_proposal(d, columns) matches Ok(p) ==> p.panels.len() > 0 && forall|i: int|
            0 <= i < p.panels.len() ==> showable(#[trigger] p.panels[i], columns),
{
    lemma_repaired(d.panels, columns);
}

proof fn lemma_repaired(panels: Seq<PanelV>, columns: Map<Seq<char>, ColumnType>)
    ensures
        forall|i: int|
            0 <= i < repaired_panels(panels, columns).len() ==> showable(
                #[trigger] repaired_panels(panels, columns)[i],
                columns,
            ),
    decreases panels.len(),
{
    if panels.len() > 0 {
        lemma_repaired(panels.drop_last(), columns);
        lemma_hour_is_window();
        let before = repaired_panels(panels.drop_last(), columns);
        let now = repaired_panels(panels, columns);
        assert forall|i: int| 0 <= i < now.len() implies showable(#[trigger] now[i], columns) by {
            if i < before.len() {
                assert(now[i] == before[i]);
            }
        }
    }
}

/// A change that is made without a model never leaves a dashboard without a panel.
pub proof fn law_revisions_keep_a_panel(
    current: ProposalV,
    revision: Seq<char>,
    services: Seq<Seq<char>>,
)
    requires
        current.panels.len() > 0,
    ensures
        revised(current, revision, services).0.panels.len() > 0,
{
}

} // verus!

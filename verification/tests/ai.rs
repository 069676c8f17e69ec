//! Filters and dashboards out of plain words.
use central_logs::ai::{
    chat_body, chat_reply, chat_url, messages_body, messages_reply, messages_url,
    parse_model_output, parse_sse_stream, provider_name, query_prompt, stream_refusal,
    suggest_from_keywords, translate_offline, translate_reply, LlmConfig,
};
use central_logs::dashboard::{
    dashboard_from_reply, dashboard_offline, dashboard_prompt, default_name, default_viz,
    default_window, format_revision_context, heuristic_dashboard, reply_object, valid_window,
    validate_proposal, AiDashboardAnswer, AiDashboardProposal, AiDashboardRequest, AiPanel,
    DashboardContext, ModelDashboard, ModelQuestion, ModelReply,
};
use central_logs::json::Json;
use central_logs::query::ColumnWhitelist;

fn columns() -> Vec<String> {
    ColumnWhitelist::standard(&[]).keys().into_iter().map(String::from).collect()
}

#[test]
fn parse_output_strips_fences() {
    let got = parse_model_output("```\nservice:api level:error\n```");
    assert_eq!(got, "service:api level:error");
}

#[test]
fn parse_output_takes_last_line() {
    let got = parse_model_output("Here's the DSL:\n\nservice:api level:error");
    assert_eq!(got, "service:api level:error");
}

#[test]
fn suggest_pulls_level_error() {
    let got = suggest_from_keywords("show me errors from api", &columns());
    assert!(got.contains("level:error"));
}

#[test]
fn suggest_pulls_known_column() {
    let got = suggest_from_keywords("filter by service", &columns());
    assert!(got.contains("service:"), "got: {got}");
}

#[test]
fn sse_stream_concatenates_delta_content() {
    let body = "\
data: {\"choices\":[{\"delta\":{\"content\":\"service\"}}]}\n\
data: {\"choices\":[{\"delta\":{\"content\":\":\"}}]}\n\
data: {\"choices\":[{\"delta\":{\"content\":\"api\"}}]}\n\
data: {\"choices\":[{\"delta\":{\"content\":\" level:error\"}}]}\n\
data: [DONE]\n";
    let got = parse_sse_stream(body);
    assert_eq!(got, "service:api level:error");
}

#[test]
fn sse_stream_tolerates_garbage_lines() {
    let body = "\
: comment line\n\
data: {\"choices\":[{\"delta\":{\"content\":\"x\"}}]}\n\
\n\
not an SSE line at all\n\
data: malformed-json\n\
data: [DONE]\n";
    assert_eq!(parse_sse_stream(body), "x");
}

#[test]
fn sse_stream_empty_input_returns_empty_string() {
    assert_eq!(parse_sse_stream(""), "");
    assert_eq!(parse_sse_stream("data: [DONE]\n"), "");
}

fn ctx() -> DashboardContext {
    DashboardContext {
        columns: vec!["service".into(), "level".into(), "message".into()],
        services: vec!["telegram-bot".into(), "api".into()],
    }
}

/// The reply in what a model said, put together from its JSON.
fn parse_dashboard_reply(raw: &str) -> Result<ModelReply, String> {
    let v: serde_json::Value =
        serde_json::from_str(&reply_object(raw)?).map_err(|e| e.to_string())?;
    let text = |v: &serde_json::Value, default: String| v.as_str().map_or(default, String::from);
    let list = |v: &serde_json::Value| v.as_array().cloned().unwrap_or_default();
    let questions = list(&v["questions"])
        .iter()
        .map(|q| ModelQuestion {
            question: text(&q["question"], String::new()),
            choices: q["choices"]
                .as_array()
                .map(|c| c.iter().map(|x| text(x, String::new())).collect()),
        })
        .collect();
    let mut panels = Vec::new();
    for p in list(&v["dashboard"]["panels"]) {
        panels.push(AiPanel {
            panel_type: p["type"].as_str().ok_or("missing field `type`")?.into(),
            title: p["title"].as_str().ok_or("missing field `title`")?.into(),
            window: text(&p["window"], default_window()),
            filter: text(&p["filter"], String::new()),
            viz: text(&p["viz"], default_viz()),
            w: p["w"].as_u64().map(|w| w as u8),
        });
    }
    let dashboard = v["dashboard"].as_object().map(|_| ModelDashboard {
        name: text(&v["dashboard"]["name"], default_name()),
        description: text(&v["dashboard"]["description"], String::new()),
        panels,
    });
    Ok(ModelReply { stage: text(&v["stage"], String::new()), questions, dashboard })
}

#[test]
fn dashboard_reply_parses_clarify_with_fences() {
    let raw = "```json\n{\"stage\":\"clarify\",\"questions\":[{\"id\":1,\"question\":\"Which service?\",\"choices\":[\"api\",\"web\"]},{\"question\":\"Keyword?\"}]}\n```";
    let r = parse_dashboard_reply(raw).unwrap();
    assert_eq!(r.stage, "clarify");
    assert_eq!(r.questions.len(), 2);
    assert_eq!(r.questions[0].choices.as_deref().unwrap(), ["api", "web"]);
    assert!(r.questions[1].choices.is_none());
}

#[test]
fn dashboard_reply_parses_build_with_prose_around_json() {
    let raw = "Here is your dashboard:\n{\"stage\":\"build\",\"dashboard\":{\"name\":\"Ops\",\"panels\":[{\"type\":\"error-rate\",\"title\":\"Errors\",\"window\":\"24h\",\"viz\":\"chart\",\"filter\":\"service:api level:error\"}]}}\nHope that helps!";
    let r = parse_dashboard_reply(raw).unwrap();
    assert_eq!(r.stage, "build");
    assert_eq!(r.dashboard.as_ref().unwrap().panels.len(), 1);
}

#[test]
fn dashboard_reply_rejects_non_json() {
    assert!(parse_dashboard_reply("no json here").is_err());
}

fn panel(kind: &str, title: &str) -> AiPanel {
    AiPanel {
        panel_type: kind.into(),
        title: title.into(),
        window: "1h".into(),
        filter: String::new(),
        viz: "chart".into(),
        w: None,
    }
}

#[test]
fn proposal_validation_drops_bad_panels_and_repairs_fields() {
    let dash = ModelDashboard {
        name: "  ".into(),
        description: String::new(),
        panels: vec![
            panel("bogus-type", "x"),
            AiPanel {
                panel_type: "error-rate".into(),
                title: "".into(),
                window: "yesterday".into(),
                filter: "service:api evil_col:1".into(),
                viz: "hologram".into(),
                w: None,
            },
        ],
    };
    let p = validate_proposal(&dash, &[]).unwrap();
    assert_eq!(p.panels.len(), 1);
    assert_eq!(p.panels[0].window, "1h", "bad window repaired to default");
    assert_eq!(p.panels[0].viz, "chart", "bad viz repaired to default");
    assert!(p.panels[0].filter.is_empty(), "filter with unknown column dropped");
    assert_eq!(p.panels[0].title, "error-rate", "empty title backfilled");
    assert_eq!(p.name, "AI dashboard", "empty name backfilled");
}

#[test]
fn proposal_validation_all_bad_panels_errors() {
    let dash = ModelDashboard {
        name: "n".into(),
        description: String::new(),
        panels: vec![panel("nope", "x")],
    };
    assert!(validate_proposal(&dash, &[]).is_err());
}

#[test]
fn window_validator() {
    for good in ["5m", "15m", "1h", "6h", "24h", "7d", "30s", "2w"] {
        assert!(valid_window(good), "{good} should be valid");
    }
    for bad in ["", "h", "1", "1x", "1hh", "abc", "1m30s"] {
        assert!(!valid_window(bad), "{bad} should be invalid");
    }
}

#[test]
fn heuristic_builder_matches_known_service() {
    let p = heuristic_dashboard("dashboard for the telegram-bot with latency focus", &ctx());
    assert_eq!(p.panels.len(), 3);
    assert!(p.panels.iter().all(|x| x.filter == "service:telegram-bot"));
    assert!(p.panels.iter().any(|x| x.panel_type == "latency"));
    assert!(p.name.contains("telegram-bot"));
}

#[test]
fn heuristic_builder_no_service_match_is_unfiltered() {
    let p = heuristic_dashboard("general overview", &ctx());
    assert!(p.panels.iter().all(|x| x.filter.is_empty()));
}

fn sample_proposal() -> AiDashboardProposal {
    AiDashboardProposal {
        name: "Ops".into(),
        description: "d".into(),
        panels: vec![AiPanel {
            panel_type: "volume".into(),
            title: "Volume".into(),
            window: "1h".into(),
            filter: "service:api".into(),
            viz: "chart".into(),
            w: Some(6),
        }],
    }
}

fn revision(text: &str) -> AiDashboardRequest {
    AiDashboardRequest {
        description: String::new(),
        answers: Vec::new(),
        current: Some(sample_proposal()),
        revision: Some(text.into()),
    }
}

#[test]
fn revision_off_mode_adds_requested_panel() {
    let resp = dashboard_offline(&revision("add a latency panel"), &ctx()).unwrap();
    assert_eq!(resp.stage, "build");
    let dash = resp.dashboard.unwrap();
    assert_eq!(dash.panels.len(), 2);
    assert!(dash.panels.iter().any(|p| p.panel_type == "latency"));
    // The panel that was there stays, and its filter is used for the new one.
    assert_eq!(dash.panels[0].filter, "service:api");
    assert_eq!(dash.panels[1].filter, "service:api");
}

#[test]
fn revision_off_mode_removes_requested_panel() {
    let resp = dashboard_offline(&revision("remove the volume panel"), &ctx()).unwrap();
    // No panel would be left, so nothing changes.
    assert_eq!(resp.dashboard.unwrap().panels.len(), 1);
    assert!(resp.raw.contains("returned the dashboard unchanged"));
}

/// The JSON text of a dashboard, over lines.
fn pretty(p: &AiDashboardProposal) -> String {
    let text = |s: &str| serde_json::Value::String(s.into());
    let panels = p
        .panels
        .iter()
        .map(|x| {
            let mut m = serde_json::Map::new();
            m.insert("type".into(), text(&x.panel_type));
            m.insert("title".into(), text(&x.title));
            m.insert("window".into(), text(&x.window));
            m.insert("filter".into(), text(&x.filter));
            m.insert("viz".into(), text(&x.viz));
            m.insert("w".into(), x.w.map_or(serde_json::Value::Null, Into::into));
            serde_json::Value::Object(m)
        })
        .collect();
    let mut m = serde_json::Map::new();
    m.insert("name".into(), text(&p.name));
    m.insert("description".into(), text(&p.description));
    m.insert("panels".into(), serde_json::Value::Array(panels));
    serde_json::to_string_pretty(&serde_json::Value::Object(m)).unwrap()
}

#[test]
fn revision_context_embeds_current_and_request() {
    let s = format_revision_context(
        "ops dashboard",
        &pretty(&sample_proposal()),
        "make it wider",
        &Vec::new(),
        &ctx(),
    );
    assert!(s.contains("# Current dashboard"));
    assert!(s.contains("\"name\": \"Ops\""));
    assert!(s.contains("# Revision request"));
    assert!(s.contains("make it wider"));
    // The dashboard stands there as valid JSON.
    let start = s.find("```json\n").unwrap() + 8;
    let end = s.rfind("\n```").unwrap();
    let v: serde_json::Value = serde_json::from_str(&s[start..end]).unwrap();
    assert_eq!(v["panels"][0]["w"], 6);
    assert_eq!(v["panels"][0]["type"], "volume");
}

#[test]
fn proposal_validation_clamps_width() {
    let dash = ModelDashboard {
        name: "n".into(),
        description: String::new(),
        panels: vec![AiPanel { w: Some(99), ..panel("volume", "v") }],
    };
    let p = validate_proposal(&dash, &[]).unwrap();
    assert_eq!(p.panels[0].w, Some(12));
}

#[test]
fn questions_are_answered_by_filters() {
    let r = translate_reply("openai", "```\nlevel:error\n```").unwrap();
    assert_eq!(r.filter, "level:error");
    assert_eq!(r.provider, "openai");
    let err = translate_reply("openai", "(level:error").unwrap_err();
    assert!(err.message().contains("LLM produced invalid DSL"));
    let r = translate_offline("filter errors by service", &columns()).unwrap();
    assert_eq!((r.filter.as_str(), r.provider.as_str()), ("level:error", "off"));
    assert!(r.raw.starts_with("LLM disabled in config; hint: level:error "));
    assert!(r.raw.contains("service:"));
    let r = translate_offline("filter by service", &columns()).unwrap();
    assert_eq!(r.filter, "");
    let r = translate_offline("warnings please", &[]).unwrap();
    assert_eq!((r.filter.as_str(), r.provider.as_str()), ("level:warn", "off"));
    assert_eq!(
        query_prompt(&["a".into()], " q "),
        "Available columns:\n- `a`\n\nUser query: q"
    );
}

#[test]
fn requests_to_models_have_their_forms() {
    let v: serde_json::Value =
        serde_json::from_str(&chat_body("m", "s", "u", 200, true).to_text()).unwrap();
    assert_eq!(v["messages"][1]["content"], "u");
    assert_eq!(v["temperature"], 0.0);
    assert_eq!(v["stream"], true);
    let v: serde_json::Value =
        serde_json::from_str(&messages_body("m", "s", "u", 9).to_text()).unwrap();
    assert_eq!(v["system"], "s");
    assert_eq!(v["max_tokens"], 9);
    assert_eq!(chat_url(&None), "https://api.openai.com/v1/chat/completions");
    assert_eq!(messages_url(&Some("https://g/".into())), "https://g/v1/messages");
    let chat = Json::parse(r#"{"choices":[{"message":{"content":"hi"}}]}"#).unwrap();
    assert_eq!(chat_reply(&chat).unwrap(), "hi");
    assert!(chat_reply(&Json::parse("{}").unwrap()).is_err());
    let msg = Json::parse(r#"{"content":[{"text":"ho"}]}"#).unwrap();
    assert_eq!(messages_reply(&msg).unwrap(), "ho");
    assert!(messages_reply(&chat).is_err());
    assert!(stream_refusal("500", "x").message().ends_with("9inference HTTP 500: x"));
    assert_eq!(provider_name(&LlmConfig::Off), "off");
}

#[test]
fn wishes_are_checked() {
    let req = AiDashboardRequest {
        description: "  ".into(),
        answers: vec![AiDashboardAnswer { question: "q".into(), answer: "a".into() }],
        current: None,
        revision: None,
    };
    assert!(dashboard_prompt(&req, "", &ctx()).is_err());
    assert!(dashboard_offline(&req, &ctx()).is_err());
    let req = AiDashboardRequest { description: "ops".into(), ..req };
    let text = dashboard_prompt(&req, "", &ctx()).unwrap();
    assert!(text.contains("# User request\n\nops\n"));
    assert!(text.ends_with("Q: q\nA: a\n\n"));
    let text = dashboard_prompt(&revision(" x "), "{}", &ctx()).unwrap();
    let end = "# Current dashboard\n\n```json\n{}\n```\n\n# Revision request\n\nx\n";
    assert!(text.ends_with(end));
}

#[test]
fn replies_are_questions_or_dashboards() {
    let go = |raw: &str| dashboard_from_reply("openai", raw, parse_dashboard_reply(raw), &[]);
    let r = go(r#"{"stage":"clarify","questions":[{"question":"a","choices":[]}]}"#).unwrap();
    assert_eq!(r.questions[0].id, 1);
    assert!(r.questions[0].choices.is_none());
    assert!(go(r#"{"stage":"clarify"}"#).is_err());
    assert!(go(r#"{"stage":"build"}"#).is_err());
    assert!(go("nothing").is_err());
    assert!(go(r#"{"dashboard":{"panels":[{"type":"volume"}]}}"#).is_err());
    let r = go(r#"{"dashboard":{"panels":[{"type":"volume","title":"t","w":0}]}}"#).unwrap();
    let d = r.dashboard.unwrap();
    assert_eq!(d.name, "AI dashboard");
    assert_eq!(d.panels[0].w, Some(1));
}

#[test]
fn the_object_of_a_reply_is_found() {
    let object = |raw: &str| reply_object(raw);
    assert_eq!(object(" ```json\n{\"a\":{}}\n```\n").unwrap(), "{\"a\":{}}");
    assert_eq!(object("```{1}```").unwrap(), "{1}");
    assert_eq!(object("so: {a} and {b}, see?").unwrap(), "{a} and {b}");
    for raw in ["", "no json here", "} {", "{"] {
        assert_eq!(object(raw).unwrap_err(), "no JSON object found in output");
    }
    let refused = dashboard_from_reply("openai", "x", Err("why".into()), &[]).unwrap_err();
    assert!(refused.message().ends_with("LLM reply not parseable: why"));
}

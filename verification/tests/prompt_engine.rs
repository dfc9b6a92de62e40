use fabio_claw::json::{Json, JsonKind, JsonNumber};
use fabio_claw::prompt_engine::{
    build_prompt, build_prompt_at, clean_response, parse_slash_command, ConversationHistory, Role,
    MAX_CONTEXT_CHARS,
};
use fabio_claw::summary::{summarise_plugin_result, PluginOutput, MAX_PLUGIN_RESULT_CHARS};

fn jstr(v: &str) -> Json {
    Json { kind: JsonKind::Str(v.to_string()), text: serde_json::to_string(v).unwrap() }
}

fn jnum(x: f64, text: &str) -> Json {
    let as_u64 = if x >= 0.0 && x.fract() == 0.0 { Some(x as u64) } else { None };
    let as_i64 = if x.fract() == 0.0 { Some(x as i64) } else { None };
    Json {
        kind: JsonKind::Number(JsonNumber {
            as_u64,
            as_i64,
            fixed0: format!("{:.0}", x),
            fixed1: format!("{:.1}", x),
        }),
        text: text.to_string(),
    }
}

fn jbool(b: bool) -> Json {
    Json { kind: JsonKind::Bool(b), text: b.to_string() }
}

fn jobj(es: Vec<(&str, Json)>) -> Json {
    let text = format!(
        "{{{}}}",
        es.iter()
            .map(|(k, v)| format!("{}:{}", serde_json::to_string(k).unwrap(), v.text))
            .collect::<Vec<_>>()
            .join(",")
    );
    Json {
        kind: JsonKind::Object(es.into_iter().map(|(k, v)| (k.to_string(), v)).collect()),
        text,
    }
}

fn jarr(items: Vec<Json>) -> Json {
    let text = format!("[{}]", items.iter().map(|v| v.text.clone()).collect::<Vec<_>>().join(","));
    Json { kind: JsonKind::Array(items), text }
}

fn output(v: Json) -> PluginOutput {
    PluginOutput { raw: v.text.clone(), parsed: Some(v) }
}

#[test]
fn test_parse_slash_command() {
    assert_eq!(parse_slash_command("/weather Milan"), Some(("weather", "Milan")));
    assert_eq!(parse_slash_command("/sysinfo"), Some(("sysinfo", "")));
    assert_eq!(parse_slash_command("hello world"), None);
}

#[test]
fn test_clean_response() {
    let raw = "<|assistant|>\nAs an AI language model, I cannot. But hello!";
    let cleaned = clean_response(raw);
    assert!(!cleaned.contains("<|assistant|>"));
    assert!(!cleaned.contains("As an AI"));
}

#[test]
fn test_summarise_weather() {
    let day = |d: &str, max: f64, min: f64, rain: f64, text: &str| {
        let _ = text;
        jobj(vec![
            ("date", jstr(d)),
            ("max_temp", jnum(max, &format!("{}", max))),
            ("min_temp", jnum(min, &format!("{}", min))),
            ("rain_mm", jnum(rain, &format!("{}", rain))),
        ])
    };
    let v = jobj(vec![
        ("success", jbool(true)),
        (
            "result",
            jobj(vec![
                ("location", jstr("Milan, Italy")),
                ("condition", jstr("Partly cloudy ⛅")),
                ("temperature", jstr("12.3°C")),
                ("feels_like", jstr("10.1°C")),
                ("humidity", jstr("72%")),
                ("wind", jstr("15.2 km/h")),
                (
                    "forecast",
                    jarr(vec![day("2026-02-26", 14.0, 8.0, 0.0, ""), day("2026-02-27", 11.0, 6.0, 5.0, "")]),
                ),
            ]),
        ),
    ]);
    let summary = summarise_plugin_result(&output(v));
    assert!(summary.contains("Milan"));
    assert!(summary.contains("12.3°C"));
    assert!(summary.contains("Forecast"));
}

#[test]
fn test_summarise_calc() {
    let v = jobj(vec![
        ("success", jbool(true)),
        (
            "result",
            jobj(vec![
                ("expression", jstr("2^10 - 1")),
                ("result", jnum(1023.0, "1023.0")),
                ("result_str", jstr("1023")),
            ]),
        ),
    ]);
    let s = summarise_plugin_result(&output(v));
    assert_eq!(s, "2^10 - 1 = 1023");
}

#[test]
fn test_build_prompt_contains_chatml() {
    let history = ConversationHistory::new();
    let prompt = build_prompt(&history, "What time is it?", None);
    assert!(prompt.contains("<|system|>"));
    assert!(prompt.contains("<|user|>"));
    assert!(prompt.contains("<|assistant|>"));
    assert!(prompt.contains("What time is it?"));
}

#[test]
fn test_context_budget_enforced() {
    let history = ConversationHistory::new();
    let long_plugin = "x".repeat(MAX_PLUGIN_RESULT_CHARS + 100);
    let out = PluginOutput { raw: long_plugin, parsed: None };
    let prompt = build_prompt(&history, "test", Some(&out));
    assert!(prompt.len() < MAX_CONTEXT_CHARS + 2000);
}

#[test]
fn summary_of_plain_text_is_cut_to_800_bytes() {
    let out = PluginOutput { raw: format!("  {}  ", "y".repeat(900)), parsed: None };
    let s = summarise_plugin_result(&out);
    assert_eq!(s, "y".repeat(800));
}

#[test]
fn failed_reply_is_summarised_with_its_error() {
    let v = jobj(vec![("success", jbool(false)), ("result", Json { kind: JsonKind::Null, text: "null".into() }), ("error", jstr("boom"))]);
    assert_eq!(summarise_plugin_result(&output(v)), "Command failed: boom");
}

#[test]
fn history_keeps_the_last_eight_turns() {
    let mut h = ConversationHistory::new();
    for i in 0..10 {
        h.push(if i % 2 == 0 { Role::User } else { Role::Assistant }, format!("m{}", i));
    }
    assert_eq!(h.len(), 8);
    assert_eq!(h.get(0).content, "m2");
    assert_eq!(h.get(7).content, "m9");
    h.clear();
    assert_eq!(h.len(), 0);
}

#[test]
fn prompt_holds_history_turns_in_order() {
    let mut h = ConversationHistory::new();
    h.push(Role::User, "first question".into());
    h.push(Role::Assistant, "first answer".into());
    let p = build_prompt(&h, "second question", None);
    let a = p.find("<|user|>\nfirst question\n").unwrap();
    let b = p.find("<|assistant|>\nfirst answer\n").unwrap();
    let c = p.find("<|user|>\nsecond question\n<|assistant|>\n").unwrap();
    assert!(a < b && b < c);
    assert!(p.ends_with("<|assistant|>\n"));
}

#[test]
fn clean_response_strips_markers_and_falls_back_when_empty() {
    assert_eq!(clean_response("Hello there.<|user|> Bye."), "Hello there. Bye.");
    assert_eq!(
        clean_response("   "),
        "I'm sorry, I couldn't generate a response. Please try again."
    );
}

#[test]
fn slash_command_with_extra_spaces() {
    assert_eq!(parse_slash_command("  /remind   10m  tea "), Some(("remind", "10m  tea")));
}

#[test]
fn clean_response_removes_markers_that_re_form() {
    assert_eq!(clean_response("<|sys<|user|>tem|>Hello."), "Hello.");
    assert_eq!(clean_response("A<</s>/s>B"), "AB");
}

#[test]
fn clean_response_trims_after_the_cut() {
    let raw = format!("{}\n{}", "a".repeat(300), "b".repeat(300));
    assert_eq!(clean_response(&raw), "a".repeat(300));
}

#[test]
fn prompt_with_given_labels() {
    let history = ConversationHistory::new();
    let p = build_prompt_at(&history, "hi", None, "Monday 01 January 2024", "10:00");
    assert!(p.starts_with(
        "<|system|>\nYou are Fabio, a helpful AI assistant running on a Raspberry Pi 4. Today is Monday 01 January 2024, 10:00.\n"
    ));
    assert!(p.ends_with("<|user|>\nhi\n<|assistant|>\n"));
}

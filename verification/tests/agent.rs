use fabio_claw::agent::{extract_tag, parse_react_output, AgentMove, AgentRun, AgentRunner};
use fabio_claw::plugins::{PluginManifest, PluginRegistry};
use fabio_claw::security::DeviceIdentity;
use fabio_claw::json::{Json, JsonKind};

#[test]
fn parse_thought_only() {
    let text = "<thought>I need more info.</thought><answer>42</answer>";
    assert_eq!(extract_tag(text, "thought"), Some("I need more info.".into()));
    assert_eq!(extract_tag(text, "answer"), Some("42".into()));
    assert_eq!(extract_tag(text, "action"), None);
}

#[test]
fn parse_action_block() {
    let text = r#"<thought>Let me check weather.</thought>
<action>weather</action>
<action_input>{"args": "Milan"}</action_input>"#;
    assert_eq!(extract_tag(text, "action"), Some("weather".into()));
    let input = extract_tag(text, "action_input").unwrap();
    let v: serde_json::Value = serde_json::from_str(&input).unwrap();
    assert_eq!(v["args"], "Milan");
}

#[test]
fn parse_missing_tags_returns_none() {
    let text = "just some text with no tags";
    assert_eq!(extract_tag(text, "thought"), None);
    assert_eq!(extract_tag(text, "action"), None);
}

fn args_input(a: &str) -> Json {
    Json {
        kind: JsonKind::Object(vec![(
            "args".to_string(),
            Json { kind: JsonKind::Str(a.to_string()), text: serde_json::to_string(a).unwrap() },
        )]),
        text: format!("{{\"args\":{}}}", serde_json::to_string(a).unwrap()),
    }
}

#[test]
fn react_output_without_thought_uses_the_text() {
    let step = parse_react_output("  plain answer  ", None);
    assert_eq!(step.thought, "plain answer");
    assert!(step.action.is_none() && step.answer.is_none());
}

#[test]
fn agent_run_uses_tool_then_answers() {
    let mut run = AgentRun::start(None, "- weather: Weather", "Weather in Milan?");
    assert!(run.prompt().starts_with("<|system|>\nYou are a helpful assistant.\nYou have access"));
    assert!(run.prompt().ends_with("<|user|>\nWeather in Milan?\n<|assistant|>\n"));
    let raw1 = "<thought>check</thought><action>weather</action><action_input>{\"args\": \"Milan\"}</action_input>";
    match run.after_output(raw1, Some(args_input("Milan"))) {
        AgentMove::UseTool { action, args } => {
            assert_eq!(action, "weather");
            assert_eq!(args, "Milan");
        }
        _ => panic!("expected a tool call"),
    }
    run.after_observation(raw1, "{\"t\":18}".to_string());
    assert!(run.prompt().ends_with("\n<observation>{\"t\":18}</observation>\n"));
    let raw2 = "<thought>done</thought><answer>18 degrees</answer>";
    match run.after_output(raw2, None) {
        AgentMove::Answer(a) => assert_eq!(a, "18 degrees"),
        _ => panic!("expected an answer"),
    }
    let steps = run.into_steps();
    assert_eq!(steps.len(), 2);
    assert_eq!(steps[0].observation.as_deref(), Some("{\"t\":18}"));
    assert_eq!(steps[1].answer.as_deref(), Some("18 degrees"));
}

#[test]
fn agent_run_stops_on_confused_output() {
    let mut run = AgentRun::start(Some("sys"), "(no tools available)", "q");
    match run.after_output("<thought>hmm</thought>", None) {
        AgentMove::Answer(a) => assert_eq!(a, "hmm"),
        _ => panic!("expected the thought as answer"),
    }
}

#[test]
fn step_limit_answer_text() {
    assert_eq!(
        AgentRun::step_limit_answer(),
        "I've reached my step limit. Please rephrase or break your request into smaller parts."
    );
}

fn weather_runner() -> AgentRunner {
    let mut reg = PluginRegistry::new("/opt/plugins");
    reg.register(PluginManifest {
        name: "plugin-weather".to_string(),
        version: "0.1.0".to_string(),
        description: "Weather".to_string(),
        commands: vec!["/Weather".to_string()],
        default_action: "forecast".to_string(),
        payload_from_args: true,
        tool_schema: None,
        require_signature: false,
    });
    AgentRunner::new(reg, DeviceIdentity::load(vec![3u8; 32]).ok().unwrap(), "/opt/plugins")
}

#[test]
fn agent_runner_offers_registered_tools() {
    let runner = weather_runner();
    let run = runner.begin("Weather in Milan?", None);
    assert!(run.prompt().contains("\n- plugin_weather: Weather\n"));
    let empty = AgentRunner::new(PluginRegistry::new("/p"), DeviceIdentity::generate(), "/p");
    assert!(empty.begin("q", Some("sys")).prompt().contains("tools:\n(no tools available)\n"));
}

#[test]
fn agent_runner_resolves_tools() {
    let runner = weather_runner();
    match runner.tool_call("/weather", "Milan") {
        Ok((m, req)) => {
            assert_eq!(m.name, "plugin-weather");
            assert_eq!(req.action, "forecast");
            assert_eq!(req.payload.text, "{\"args\":\"Milan\"}");
        }
        Err(_) => panic!("command should resolve"),
    }
    assert!(runner.tool_call("plugin-weather", "x").is_ok());
    assert_eq!(
        runner.tool_call("nope", "x").err(),
        Some("{\"error\": \"Unknown tool 'nope'.\"}".to_string())
    );
}

use fabio_claw::chat::{
    approx_tokens, builtin_command, check_stream, builtin_reply, latest_user_message, make_response, model_stage, plugin_stage,
    record_exchange, route, Builtin, ChatMessage, ChatRequest, ChatRoute, ModelStage, PluginStage,
};
use fabio_claw::json::{int_value, object_value, string_value, Json, JsonKind};
use fabio_claw::errors::AppError;
use fabio_claw::llm_client::LlmError;
use fabio_claw::plugin_manager::{PluginError, PluginManager, PluginManifest, PluginResponse, RegisteredPlugin};
use fabio_claw::prompt_engine::{ConversationHistory, Role};

fn msg(role: &str, content: &str) -> ChatMessage {
    ChatMessage { role: role.to_string(), content: content.to_string() }
}

fn null() -> Json {
    Json { kind: JsonKind::Null, text: "null".to_string() }
}

#[test]
fn the_last_user_message_is_answered() {
    let ms = vec![msg("system", "be nice"), msg("user", " first "), msg("assistant", "ok"), msg("user", "  second  ")];
    assert_eq!(latest_user_message(&ms), "second");
    assert_eq!(latest_user_message(&[msg("system", "x")]), "");
    assert_eq!(approx_tokens("abcdefgh"), 2);
    assert_eq!(approx_tokens("abc"), 0);
}

#[test]
fn messages_are_routed() {
    assert!(matches!(route(""), ChatRoute::Empty));
    assert!(matches!(route(" /HELP "), ChatRoute::Builtin(Builtin::Help)));
    assert!(matches!(route("/clear"), ChatRoute::Builtin(Builtin::Reset)));
    assert!(matches!(route("/status"), ChatRoute::Builtin(Builtin::Status)));
    match route("/weather  Milan ") {
        ChatRoute::Plugin { command, args } => {
            assert_eq!(command, "weather");
            assert_eq!(args, "Milan");
        }
        _ => panic!("a slash command goes to a plugin"),
    }
    assert!(matches!(route("hello there"), ChatRoute::Model));
    assert!(builtin_command("help").is_some());
    assert!(builtin_command("helpme").is_none());
}

#[test]
fn builtin_replies() {
    let mut pm = PluginManager::new();
    pm.register(RegisteredPlugin {
        manifest: PluginManifest {
            name: "plugin-weather".to_string(),
            version: "0.1.0".to_string(),
            description: "Weather".to_string(),
            commands: vec!["weather".to_string(), "forecast".to_string()],
            default_action: "run".to_string(),
            payload_from_args: true,
            cacheable: false,
            cache_ttl_secs: 0,
        },
        binary_path: "/opt/p/plugin-weather".to_string(),
    });
    let mut h = ConversationHistory::new();
    h.push(Role::User, "hi".to_string());
    assert_eq!(
        builtin_reply(Builtin::Status, &pm, &mut h),
        "Fabio-Claw is running. 2 commands available. Type /help for the full list."
    );
    let help = builtin_reply(Builtin::Help, &pm, &mut h);
    assert!(help.starts_with("Fabio-Claw\nAvailable commands:\n"));
    assert!(help.contains("/weather"));
    let mut h2 = ConversationHistory::new();
    assert_eq!(
        builtin_reply(Builtin::Help, &PluginManager::new(), &mut h2),
        "Fabio-Claw\nNo plugins registered. Check /opt/fabio-claw/plugins/"
    );
    assert_eq!(h.len(), 1);
    assert_eq!(builtin_reply(Builtin::Reset, &pm, &mut h), "Conversation history cleared.");
    assert_eq!(h.len(), 0);
}

#[test]
fn plugin_outcomes() {
    match plugin_stage(Err(PluginError::NotFound("nope".to_string()))) {
        PluginStage::Reply(t) => assert_eq!(t, "Unknown command: /nope. Type /help to see available commands."),
        _ => panic!(),
    }
    match plugin_stage(Err(PluginError::Timeout("plugin-x".to_string()))) {
        PluginStage::Reply(t) => assert_eq!(t, "\u{26a0} Plugin plugin-x timed out. The Raspberry Pi may be under load."),
        _ => panic!(),
    }
    match plugin_stage(Ok(PluginResponse { success: false, result: null(), error: Some("boom".to_string()) })) {
        PluginStage::Reply(t) => assert_eq!(t, "\u{26a0} Command failed: boom"),
        _ => panic!(),
    }
    match plugin_stage(Ok(PluginResponse { success: false, result: null(), error: None })) {
        PluginStage::Reply(t) => assert_eq!(t, "\u{26a0} Command failed: Unknown plugin error"),
        _ => panic!(),
    }
    let result = object_value(vec![
        ("expression".to_string(), string_value("1+1".to_string())),
        ("result".to_string(), int_value(2)),
        ("result_str".to_string(), string_value("2".to_string())),
    ]);
    match plugin_stage(Ok(PluginResponse { success: true, result, error: None })) {
        PluginStage::Summary(t) => assert_eq!(t, "1+1 = 2"),
        _ => panic!("a successful reply is summarised for the model"),
    }
}

#[test]
fn model_outcomes() {
    match model_stage(Ok("Hello there.<|user|> Bye.".to_string()), None) {
        ModelStage::Reply(t) => assert_eq!(t, "Hello there. Bye."),
        _ => panic!(),
    }
    match model_stage(Err(LlmError::Timeout), Some("Fallback summary".to_string())) {
        ModelStage::Reply(t) => assert_eq!(t, "Fallback summary"),
        _ => panic!(),
    }
    match model_stage(Err(LlmError::Server(503, "busy".to_string())), None) {
        ModelStage::Failed(m) => assert_eq!(m, "LLM error: LLM server error 503: busy"),
        _ => panic!(),
    }
}

#[test]
fn exchange_is_recorded_and_answered() {
    let mut h = ConversationHistory::new();
    record_exchange(&mut h, "q".to_string(), "a".to_string());
    assert_eq!(h.len(), 2);
    let r = make_response("tinyllama", "Hi!", 10, 2, 1700000000);
    assert_eq!(r.id, "chatcmpl-1700000000");
    assert_eq!(r.object, "chat.completion");
    assert_eq!(r.model, "tinyllama");
    assert_eq!(r.choices.len(), 1);
    assert_eq!(r.choices[0].message.role, "assistant");
    assert_eq!(r.choices[0].message.content, "Hi!");
    assert_eq!(r.choices[0].finish_reason, "stop");
    assert_eq!(r.usage.total_tokens, 12);
}

#[test]
fn stream_requests_are_refused() {
    let mut req = ChatRequest { model: "local".to_string(), messages: vec![msg("user", "hi")], max_tokens: 256, stream: true };
    match check_stream(&req) {
        Err(e) => {
            assert_eq!(e.status_code(), 400);
            assert!(e.message().contains("stream"));
            assert!(matches!(e, AppError::InvalidRequest(_)));
        }
        Ok(()) => panic!("a streamed reply must be refused"),
    }
    req.stream = false;
    assert!(check_stream(&req).is_ok());
}

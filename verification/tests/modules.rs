use fabio_claw::plugin_tools::files::{lines_result, list_result, read_result};
use fabio_claw::plugin_tools::reminders::{reminder_created, reminder_list};
use fabio_claw::errors::AppError;
use fabio_claw::llm_client::{base_url, completion_url, n_predict, probe_url, stop_sequences, LlmBackend};
use fabio_claw::plugin_tools::files::{
    access_denied, file_failure_message, is_path_allowed, join_lines, lines_of, read_window,
    shown_lines, size_ok, FileFailure,
};
use fabio_claw::plugin_tools::reminders::{
    parse_hhmm, parse_relative_duration, parse_time_spec, reminder_command, reminder_counts,
    reminder_times, seconds_until, split_reminder_args, unparsable_time, RelativeTime,
    ReminderCommand, TimeSpec,
};
use fabio_claw::plugin_tools::weather::{
    forecast_days, geocoding_url, location_label, urlencoded, weather_action,
    weather_code_to_string, weather_failure_message, WeatherFailure,
};
use fabio_claw::plugin_tools::web::{missing_query, search_url, url_encode, web_command, WebCommand};
use fabio_claw::plugins::{
    invalid_json, spawn_failed, stdin_failed, timed_out, wait_failed, PluginManifest, PluginRunner,
};
use fabio_claw::scheduler::UtcTime;
use fabio_claw::telegram::{forward_body, parse_allowed_chats, send_payload};

// ─── Weather ─────────────────────────────────────────────────────────────────

#[test]
fn weather_words() {
    assert!(weather_action("forecast"));
    assert!(!weather_action("rain"));
    assert_eq!(urlencoded("New York"), "New+York");
    assert_eq!(
        geocoding_url("New York"),
        "https://geocoding-api.open-meteo.com/v1/search?name=New+York&count=1&language=en&format=json"
    );
    assert_eq!(weather_code_to_string(0, false), "Clear sky \u{1f319}");
    assert_eq!(weather_code_to_string(63, true), "Rain \u{1f327}\u{fe0f}");
    assert_eq!(weather_code_to_string(42, true), "Unknown");
    assert_eq!(location_label("Milan", "Italy"), "Milan, Italy");
    assert_eq!(weather_failure_message(&WeatherFailure::CityNotFound("X".to_string())), "City 'X' not found");
    assert_eq!(weather_failure_message(&WeatherFailure::MissingCity), "Missing 'city' in payload");
    assert_eq!(forecast_days(7), 3);
    assert_eq!(forecast_days(2), 2);
}

// ─── Reminders ───────────────────────────────────────────────────────────────

#[test]
fn reminder_requests() {
    assert!(matches!(reminder_command("jobs", "x"), ReminderCommand::List));
    assert!(matches!(reminder_command("remind", ""), ReminderCommand::List));
    assert!(matches!(reminder_command("remind", "30min x"), ReminderCommand::Create));
    assert_eq!(
        split_reminder_args("30min Check the oven"),
        Ok(("30min".to_string(), "Check the oven".to_string()))
    );
    assert_eq!(
        split_reminder_args("30min"),
        Err("Usage: /remind <time> <message>  e.g. '/remind 30min Check the oven'".to_string())
    );
    assert_eq!(split_reminder_args("30min   "), Err("Usage: /remind <time> <message>".to_string()));
}

#[test]
fn reminder_times_read() {
    assert!(matches!(parse_relative_duration("1h30m"), RelativeTime::Seconds(5400)));
    assert!(matches!(parse_relative_duration("10min"), RelativeTime::Seconds(600)));
    assert!(matches!(parse_relative_duration("2d"), RelativeTime::Seconds(172800)));
    assert!(matches!(parse_relative_duration("tomorrow"), RelativeTime::Seconds(0)));
    assert!(matches!(parse_relative_duration("abc"), RelativeTime::NotRelative));
    assert_eq!(parse_hhmm("14:30"), Some((14, 30)));
    assert_eq!(parse_hhmm("24:00"), None);
    assert_eq!(parse_hhmm("1430"), None);
    let now = UtcTime { secs: 1_700_000_000, nanos: 5 };
    assert!(matches!(
        parse_time_spec("14:30", now),
        TimeSpec::At(UtcTime { secs: 1_700_058_600, nanos: 0 })
    ));
    assert!(matches!(
        parse_time_spec("23:00", now),
        TimeSpec::At(UtcTime { secs: 1_700_002_800, nanos: 0 })
    ));
    assert!(matches!(
        parse_time_spec(" 30S ", now),
        TimeSpec::At(UtcTime { secs: 1_700_000_030, nanos: 5 })
    ));
    assert!(matches!(parse_time_spec("later", now), TimeSpec::Unparsable));
    assert!(matches!(parse_time_spec("999999999999999d", now), TimeSpec::OutOfRange));
    assert_eq!(
        unparsable_time("later"),
        "Cannot parse time 'later'. Try: 10min 2h 1h30m tomorrow 14:30"
    );
    assert_eq!(seconds_until(now, UtcTime { secs: 1_700_000_090, nanos: 5 }), 90);
    assert_eq!(seconds_until(now, UtcTime { secs: 1_700_000_000, nanos: 0 }), 0);
    assert_eq!(
        reminder_times(UtcTime { secs: 0, nanos: 0 }),
        ("1970-01-01T00:00:00+00:00".to_string(), "1970-01-01 00:00 UTC".to_string())
    );
    assert_eq!(reminder_counts(&[true, false, false]), (3, 2, 1));
}

// ─── Files ───────────────────────────────────────────────────────────────────

#[test]
fn file_reader_rules() {
    assert!(is_path_allowed("/home/pi/documents/a.txt"));
    assert!(is_path_allowed("/tmp/fabio-claw"));
    assert!(!is_path_allowed("/home/pi/documentsX"));
    assert!(!is_path_allowed("/etc/shadow"));
    assert_eq!(
        access_denied(),
        "Access denied. Allowed directories: /home/pi/documents, /home/pi/data, /tmp/fabio-claw, /var/lib/fabio-claw/data"
    );
    assert_eq!(
        file_failure_message(&FileFailure::TooLarge(1_048_576)),
        "File too large (1024 KB). Maximum is 512 KB. Use 'head' or 'tail' for large files."
    );
    assert_eq!(
        file_failure_message(&FileFailure::Resolve("/x".to_string(), "gone".to_string())),
        "Cannot resolve path '/x': gone"
    );
    assert!(size_ok(524_288));
    assert!(!size_ok(524_289));
    let ls = lines_of("a\r\nb\n\nc");
    assert_eq!(ls, vec![vec!['a'], vec!['b'], vec![], vec!['c']]);
    assert_eq!(join_lines(&ls, 1, 4), "b\n\nc");
    assert_eq!(shown_lines(10, 3, true), (7, 10));
    assert_eq!(shown_lines(10, 30, false), (0, 10));
    assert_eq!(read_window(250), (200, true));
    assert_eq!(read_window(20), (20, false));
}

// ─── Web search ──────────────────────────────────────────────────────────────

#[test]
fn web_queries() {
    assert_eq!(url_encode("a b&c/é~"), "a+b%26c%2F%E9~");
    assert_eq!(search_url("x+y"), "https://api.duckduckgo.com/?q=x+y&format=json&no_html=1&skip_disambig=1");
    assert!(matches!(web_command("search", ""), WebCommand::Missing));
    assert!(matches!(web_command("rag", "q"), WebCommand::Rag));
    assert!(matches!(web_command("search", "q"), WebCommand::Search));
    assert_eq!(missing_query(), "Provide a search query. Usage: /web-search <query>");
}

// ─── Telegram ────────────────────────────────────────────────────────────────

#[test]
fn telegram_texts() {
    assert_eq!(parse_allowed_chats("12, -34,x,,56"), vec![12, -34, 56]);
    assert_eq!(parse_allowed_chats(""), Vec::<i64>::new());
    let p: serde_json::Value = serde_json::from_str(&send_payload(-5, "hi \"you\"", true)).unwrap();
    assert_eq!(p["chat_id"], -5);
    assert_eq!(p["text"], "hi \"you\"");
    assert_eq!(p["parse_mode"], "Markdown");
    let f: serde_json::Value = serde_json::from_str(&forward_body("hello")).unwrap();
    assert_eq!(f["messages"][0]["content"], "hello");
    assert_eq!(f["messages"][0]["role"], "user");
}

// ─── Plugins ─────────────────────────────────────────────────────────────────

fn bare_manifest(name: &str, signed: bool) -> PluginManifest {
    PluginManifest {
        name: name.to_string(),
        version: "0.1.0".to_string(),
        description: "d".to_string(),
        commands: vec!["x".to_string()],
        default_action: "run".to_string(),
        payload_from_args: true,
        tool_schema: None,
        require_signature: signed,
    }
}

#[test]
fn plugin_runner_checks() {
    let r = PluginRunner::new("/opt/plugins");
    let m = bare_manifest("plugin-echo", true);
    assert_eq!(r.binary_path(&m), "/opt/plugins/plugin-echo");
    assert_eq!(PluginRunner::signature_path("/opt/plugins/plugin-echo"), "/opt/plugins/plugin-echo.sig");
    assert!(PluginRunner::preflight(&m.name, "/b", true, "/b.sig", true).is_ok());
    match PluginRunner::preflight(&m.name, "/b", true, "/b.sig", false) {
        Err(AppError::SecurityError(s)) => {
            assert_eq!(s, "Plugin 'plugin-echo' requires a signature but '/b.sig' is missing")
        },
        _ => panic!("a missing signature must be refused"),
    }
    match PluginRunner::preflight(&m.name, "/b", false, "/b.sig", true) {
        Err(AppError::PluginError(s)) => assert_eq!(s, "Plugin binary not found: /b"),
        _ => panic!("a missing binary must be refused"),
    }
    // A manifest that does not ask for a signature is refused all the same.
    match PluginRunner::preflight(&bare_manifest("p", false).name, "/b", true, "/b.sig", false) {
        Err(AppError::SecurityError(s)) => assert_eq!(s, "Plugin 'p' requires a signature but '/b.sig' is missing"),
        _ => panic!("an unsigned plugin must never start"),
    }
}

#[test]
fn plugin_run_errors() {
    let text = |e: AppError| match e {
        AppError::PluginError(s) => s,
        _ => panic!("expected a plugin error"),
    };
    assert_eq!(text(spawn_failed("p", "denied")), "Failed to spawn 'p': denied");
    assert_eq!(text(stdin_failed("pipe")), "STDIN write error: pipe");
    assert_eq!(text(wait_failed("x")), "wait_with_output error: x");
    assert_eq!(text(timed_out("plugin-slow")), "Plugin 'plugin-slow' timed out after 10s");
    assert_eq!(
        text(invalid_json("plugin-badjson", "expected value", "not valid json at all!")),
        "Plugin 'plugin-badjson' returned invalid JSON: expected value | raw: not valid json at all!"
    );
}

// ─── Errors and the model client ─────────────────────────────────────────────

#[test]
fn error_answers() {
    let e = AppError::InvalidRequest("Empty user message".to_string());
    assert_eq!(e.message(), "Invalid request: Empty user message");
    assert_eq!(e.status_code(), 400);
    assert_eq!(
        e.body(),
        "{\"error\":{\"message\":\"Invalid request: Empty user message\",\"type\":\"edge_runtime_error\"}}"
    );
    assert_eq!(AppError::QueueFull.status_code(), 429);
    assert_eq!(AppError::Timeout(30).message(), "Inference timeout after 30s");
    assert_eq!(AppError::Timeout(30).status_code(), 504);
    assert_eq!(AppError::SecurityError("x".to_string()).status_code(), 403);
    assert_eq!(AppError::Cancelled.status_code(), 500);
}

#[test]
fn model_client_settings() {
    assert_eq!(base_url(LlmBackend::LlamaCpp), "http://localhost:8080");
    assert_eq!(base_url(LlmBackend::Ollama), "http://localhost:11434");
    assert_eq!(probe_url(LlmBackend::Ollama), "http://localhost:11434/api/tags");
    assert_eq!(probe_url(LlmBackend::LlamaCpp), "http://localhost:8080/health");
    assert_eq!(completion_url("http://h:1", LlmBackend::LlamaCpp), "http://h:1/completion");
    assert_eq!(completion_url("http://h:1", LlmBackend::Ollama), "http://h:1/api/generate");
    assert_eq!(n_predict(1000), 512);
    assert_eq!(n_predict(30), 30);
    assert_eq!(stop_sequences(LlmBackend::LlamaCpp).len(), 5);
    assert_eq!(stop_sequences(LlmBackend::Ollama), vec!["<|user|>", "<|system|>", "</s>", "\n\nUser:"]);
}

#[test]
fn file_reader_answers() {
    assert_eq!(
        read_result("/tmp/fabio-claw/a.txt", 12, 2, false, "a\nb".to_string()).text,
        "{\"content\":\"a\\nb\",\"lines\":2,\"path\":\"/tmp/fabio-claw/a.txt\",\"size_bytes\":12,\"truncated\":false}"
    );
    assert_eq!(
        lines_result("/tmp/fabio-claw/a.txt", 10, 3, true, "x".to_string()).text,
        "{\"content\":\"x\",\"from_end\":true,\"path\":\"/tmp/fabio-claw/a.txt\",\"shown_lines\":3,\"total_lines\":10}"
    );
    let entries = vec![
        ("zeta.txt".to_string(), false, 5u64),
        ("Alpha".to_string(), true, 4096u64),
        ("beta".to_string(), false, 0u64),
    ];
    assert_eq!(
        list_result("/tmp/fabio-claw", &entries).text,
        "{\"count\":3,\"files\":[{\"is_dir\":true,\"name\":\"Alpha\",\"size\":4096},{\"is_dir\":false,\"name\":\"beta\",\"size\":0},{\"is_dir\":false,\"name\":\"zeta.txt\",\"size\":5}],\"path\":\"/tmp/fabio-claw\"}"
    );
}

#[test]
fn reminder_answers() {
    assert_eq!(
        reminder_created(7, "tea", "2024-01-01T10:00:00+00:00", "2024-01-01 10:00 UTC", 600).text,
        "{\"id\":7,\"in_seconds\":600,\"message\":\"tea\",\"remind_at\":\"2024-01-01T10:00:00+00:00\",\"remind_at_human\":\"2024-01-01 10:00 UTC\"}"
    );
    let rows = vec![
        (2i64, "b".to_string(), "t2".to_string(), false, "c2".to_string()),
        (1i64, "a".to_string(), "t1".to_string(), true, "c1".to_string()),
    ];
    assert_eq!(
        reminder_list(&rows).text,
        "{\"done\":1,\"pending\":1,\"reminders\":[{\"created_at\":\"c2\",\"done\":false,\"id\":2,\"message\":\"b\",\"remind_at\":\"t2\"},{\"created_at\":\"c1\",\"done\":true,\"id\":1,\"message\":\"a\",\"remind_at\":\"t1\"}],\"total\":2}"
    );
    assert_eq!(reminder_list(&vec![]).text, "{\"done\":0,\"pending\":0,\"reminders\":[],\"total\":0}");
}

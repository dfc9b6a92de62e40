use fabio_claw::errors::AppError;
use fabio_claw::plugins::{PluginManifest, PluginRegistry};
use fabio_claw::scheduler::{
    default_tasks, due_tasks, is_due, new_task, run_times_after, saved_task, task_plugin, validate_task,
    CreateTaskRequest, ScheduledTask, TaskResponse, UtcTime,
};

fn at(secs: i64) -> UtcTime {
    UtcTime { secs, nanos: 0 }
}

fn task(name: &str, enabled: bool, next_run: Option<UtcTime>) -> ScheduledTask {
    ScheduledTask {
        id: Some(1),
        name: name.to_string(),
        cron_expr: "0 * * * * *".to_string(),
        command: "/time".to_string(),
        args: String::new(),
        enabled,
        last_run: None,
        next_run,
        created_at: at(0),
    }
}

fn registry() -> PluginRegistry {
    let mut reg = PluginRegistry::new("/opt/plugins");
    reg.register(PluginManifest {
        name: "plugin-datetime".to_string(),
        version: "0.1.0".to_string(),
        description: "Date and time".to_string(),
        commands: vec!["/Time".to_string(), "/date".to_string()],
        default_action: "now".to_string(),
        payload_from_args: true,
        tool_schema: None,
        require_signature: false,
    });
    reg
}

#[test]
fn due_means_enabled_and_time_reached() {
    let now = UtcTime { secs: 1000, nanos: 500 };
    assert!(is_due(&task("a", true, None), now));
    assert!(is_due(&task("b", true, Some(UtcTime { secs: 1000, nanos: 500 })), now));
    assert!(!is_due(&task("c", true, Some(UtcTime { secs: 1000, nanos: 501 })), now));
    assert!(!is_due(&task("d", false, None), now));
    let tasks = vec![
        task("a", true, Some(at(999))),
        task("b", false, Some(at(1))),
        task("c", true, Some(at(2000))),
        task("d", true, None),
    ];
    assert_eq!(due_tasks(&tasks, now), vec![0, 3]);
}

#[test]
fn next_run_follows_the_cron_expression() {
    // 2024-01-01T00:00:30Z: the next "0 * * * * *" is the full minute.
    let now = at(1_704_067_230);
    let (last, next) = run_times_after(&task("a", true, None), now);
    assert!(last == now);
    assert!(next == Some(at(1_704_067_260)));
    let mut bad = task("x", true, None);
    bad.cron_expr = "not cron".to_string();
    assert!(run_times_after(&bad, now).1.is_none());
}

#[test]
fn default_task_is_disabled_minutely_datetime() {
    let now = at(1_704_067_230);
    let d = default_tasks(now);
    assert_eq!(d.len(), 1);
    assert_eq!(d[0].name, "hourly-datetime");
    assert_eq!(d[0].cron_expr, "0 * * * * *");
    assert_eq!(d[0].command, "datetime");
    assert!(!d[0].enabled && d[0].id.is_none() && d[0].last_run.is_none());
    assert!(d[0].next_run == Some(at(1_704_067_260)));
    assert!(d[0].created_at == now);
}

#[test]
fn task_requests_are_validated() {
    let reg = registry();
    let req = |name: &str, command: &str| CreateTaskRequest {
        name: name.to_string(),
        cron_expr: "0 0 * * * *".to_string(),
        command: command.to_string(),
        args: "x".to_string(),
        enabled: true,
    };
    assert!(validate_task(&req("t", "/TIME"), &reg).is_ok());
    assert!(validate_task(&req("t", "plugin-datetime"), &reg).is_ok());
    match validate_task(&req("", "/time"), &reg) {
        Err(AppError::InvalidRequest(m)) => assert_eq!(m, "Task name cannot be empty"),
        _ => panic!("empty name must be refused"),
    }
    match validate_task(&req("t", "/nope"), &reg) {
        Err(AppError::InvalidRequest(m)) => {
            assert_eq!(m, "Unknown command '/nope'. Type /help to see available commands.")
        }
        _ => panic!("unknown command must be refused"),
    }
    let created = new_task(req("t", "/time"), at(1_704_067_230));
    assert_eq!(created.name, "t");
    assert!(created.enabled && created.id.is_none() && created.last_run.is_none());
    assert!(created.next_run == Some(at(1_704_070_800)));
}

#[test]
fn task_plugin_resolves_commands_and_names() {
    let reg = registry();
    assert_eq!(task_plugin(&reg, &task("a", true, None)).map(|m| m.name.as_str()), Some("plugin-datetime"));
    let mut by_name = task("b", true, None);
    by_name.command = "plugin-datetime".to_string();
    assert!(task_plugin(&reg, &by_name).is_some());
    by_name.command = "/weather".to_string();
    assert!(task_plugin(&reg, &by_name).is_none());
}

#[test]
fn saved_task_finds_the_first_by_name() {
    let tasks = vec![task("a", true, None), task("b", false, None), task("b", true, None)];
    let t = saved_task(tasks, "b").ok().unwrap();
    assert_eq!(t.name, "b");
    assert!(!t.enabled);
    match saved_task(vec![task("a", true, None)], "z") {
        Err(AppError::SchedulerError(m)) => assert_eq!(m, "Task not found after creation"),
        _ => panic!("missing task must be an error"),
    }
}

#[test]
fn task_response_prints_rfc3339() {
    let mut t = task("a", true, Some(at(1_704_067_260)));
    t.created_at = at(1_704_067_230);
    let r = TaskResponse::from_task(t);
    assert_eq!(r.created_at, "2024-01-01T00:00:30+00:00");
    assert_eq!(r.next_run.as_deref(), Some("2024-01-01T00:01:00+00:00"));
    assert!(r.last_run.is_none());
    assert_eq!(r.name, "a");
}

fn tool_manifest(name: &str, commands: &[&str], schema: Option<fabio_claw::plugins::ToolSchema>) -> PluginManifest {
    PluginManifest {
        name: name.to_string(),
        version: "0.1.0".to_string(),
        description: format!("{} tool", name),
        commands: commands.iter().map(|c| c.to_string()).collect(),
        default_action: "run".to_string(),
        payload_from_args: true,
        tool_schema: schema,
        require_signature: false,
    }
}

#[test]
fn registry_lists_tools_by_name() {
    let mut reg = PluginRegistry::new("/opt/plugins");
    reg.register(tool_manifest("plugin-zeta", &["/Z"], None));
    reg.register(tool_manifest(
        "plugin-alpha",
        &["/a", "/b"],
        Some(fabio_claw::plugins::ToolSchema {
            description: "Alpha".to_string(),
            parameters: fabio_claw::json::object_value(vec![]),
        }),
    ));
    let tools = reg.as_tools();
    assert_eq!(tools.len(), 2);
    assert_eq!(
        tools[0].text,
        "{\"function\":{\"description\":\"Alpha\",\"name\":\"plugin_alpha\",\"parameters\":{}},\"type\":\"function\"}"
    );
    assert_eq!(
        tools[1].text,
        "{\"function\":{\"description\":\"plugin-zeta tool\",\"name\":\"plugin_zeta\",\"parameters\":{\"properties\":{\"args\":{\"description\":\"Arguments to pass to the plugin\",\"type\":\"string\"}},\"required\":[],\"type\":\"object\"}},\"type\":\"function\"}"
    );
    let cmds: Vec<String> = reg.commands().into_iter().map(|(c, _)| c).collect();
    assert_eq!(cmds, vec!["/a", "/b", "/z"]);
    assert_eq!(reg.resolve("/Z").map(|m| m.name.as_str()), Some("plugin-zeta"));
    assert!(reg.resolve_by_name("plugin-alpha").is_some());
    assert!(reg.resolve_by_name("Plugin-Alpha").is_none());
    assert_eq!(reg.plugin_dir(), "/opt/plugins");
}

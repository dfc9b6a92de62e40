use fabio_claw::json::{Json, JsonKind};
use fabio_claw::plugin_tools::calculator::{calc_request, evaluation_error, sanitize_expression, unexpected_result};
use fabio_claw::plugin_tools::datetime::{datetime_result, time_action};
use fabio_claw::plugin_tools::gpio::{
    exported_pin, gpio_command, gpio_failure, gpio_status, pin_dir, pin_reading, pin_state, pin_value, pin_written,
    GpioCommand, GpioFailure,
};
use fabio_claw::plugin_tools::kb::{
    cannot_resolve, check_extension, chunk_text, fts_query, fts_result, index_result, index_usage,
    kb_access_denied, kb_allowed, kb_command, kb_hit, like_pattern, like_result, list_result,
    source_entry, trunc, KbCommand,
};
use fabio_claw::plugin_tools::logs::{
    contains_error, errors_only, file_tail, journal_args, journal_lines, line_count, log_files,
    log_result, no_log_source, sanitize_line,
};
use fabio_claw::plugin_tools::net::{
    dns_address, dns_failure, dns_result, latency_probes, latency_result, net_check, packet_loss,
    ping_failure, ping_result, probe_address, probe_result, rtt_stats, sanitize_host, target_host,
    NetCheck,
};
use fabio_claw::plugin_tools::sysinfo::{
    df_failure, disk_result, disk_summary, full_report, load_result, meminfo, memory_result,
    sys_report, uptime_failure, uptime_human, uptime_result, SysReport,
};
use fabio_claw::plugin_tools::web::{citations, ddg_results, synthesis};
use fabio_claw::plugin_tools::updater::{
    apt_failure, apt_report, check_report, plan_requested, runtime_report, unix_stamp,
    update_plan, update_scope, upgradable,
};

fn jstr(v: &str) -> Json {
    Json { kind: JsonKind::Str(v.to_string()), text: serde_json::to_string(v).unwrap() }
}

fn jobj(es: Vec<(&str, Json)>) -> Json {
    let text = format!(
        "{{{}}}",
        es.iter()
            .map(|(k, v)| format!("{}:{}", serde_json::to_string(k).unwrap(), v.text))
            .collect::<Vec<_>>()
            .join(",")
    );
    Json {
        kind: JsonKind::Object(es.into_iter().map(|(k, v)| (k.to_string(), v)).collect()),
        text,
    }
}

/// The text is valid JSON and is exactly what serde_json writes for it.
fn canonical(text: &str) -> serde_json::Value {
    let v: serde_json::Value = serde_json::from_str(text).unwrap();
    assert_eq!(serde_json::to_string(&v).unwrap(), text);
    v
}

// ─── GPIO ────────────────────────────────────────────────────────────────────

#[test]
fn gpio_commands_read() {
    assert!(matches!(gpio_command("on 17"), GpioCommand::Write(17, true)));
    assert!(matches!(gpio_command("low 4"), GpioCommand::Write(4, false)));
    assert!(matches!(gpio_command("read  27"), GpioCommand::Read(27)));
    assert!(matches!(gpio_command(""), GpioCommand::Status));
    assert!(matches!(gpio_command("all"), GpioCommand::Status));
}

#[test]
fn gpio_refusals() {
    match gpio_command("on 1") {
        GpioCommand::Invalid(m) => assert_eq!(
            m,
            "Pin 1 not in safe list [2, 3, 4, 5, 6, 7, 8, 9, 10, 11, 12, 13, 14, 15, 16, 17, 18, 19, 20, 21, 22, 23, 24, 25, 26, 27]"
        ),
        _ => panic!("expected a refusal"),
    }
    match gpio_command("blink 17") {
        GpioCommand::Invalid(m) => assert_eq!(m, "Unknown command 'blink'. Use: on, off, read, status"),
        _ => panic!("expected a refusal"),
    }
    match gpio_command("on abc") {
        GpioCommand::Invalid(m) => assert_eq!(m, "Invalid pin number 'abc'"),
        _ => panic!("expected a refusal"),
    }
    match gpio_command("on 300") {
        GpioCommand::Invalid(m) => assert_eq!(m, "Invalid pin number '300'"),
        _ => panic!("expected a refusal"),
    }
    match gpio_command("toggle") {
        GpioCommand::Invalid(m) => assert_eq!(m, "Usage: /gpio <on|off|read> <pin>  Got: 'toggle'"),
        _ => panic!("expected a refusal"),
    }
}

#[test]
fn gpio_pin_helpers() {
    assert_eq!(pin_dir(17), "/sys/class/gpio/gpio17");
    assert_eq!(pin_state(1), "HIGH");
    assert_eq!(pin_state(0), "LOW");
    assert_eq!(pin_value("1\n"), 1);
    assert_eq!(pin_value("x"), 0);
    assert_eq!(pin_value("999"), 0);
    assert_eq!(
        gpio_failure(GpioFailure::Export, 4, "denied"),
        "Export pin 4: denied (add user to gpio group: sudo adduser $USER gpio)"
    );
    assert_eq!(gpio_failure(GpioFailure::Write, 5, "busy"), "Write pin 5: busy");
}

// ─── Updater ─────────────────────────────────────────────────────────────────

#[test]
fn updater_scope_and_action() {
    assert!(plan_requested("plan"));
    assert!(plan_requested("update-plan"));
    assert!(!plan_requested("check"));
    assert_eq!(update_scope(""), (true, true));
    assert_eq!(update_scope("system"), (true, false));
    assert_eq!(update_scope("apt"), (true, false));
    assert_eq!(update_scope("fabio"), (false, true));
    assert_eq!(update_scope("other"), (false, false));
}

#[test]
fn updater_reads_simulated_upgrade() {
    let out = "Reading package lists...\nInst libc6 [2.31] (2.32 Debian)\nConf libc6 (2.32)\nInst vim (8.2)\n";
    assert_eq!(upgradable(out), vec!["libc6".to_string(), "vim".to_string()]);
    assert_eq!(
        apt_report(out).text,
        "{\"available_updates\":2,\"packages\":[\"libc6\",\"vim\"],\"status\":\"updates_available\"}"
    );
    assert_eq!(
        apt_report("").text,
        "{\"available_updates\":0,\"packages\":[],\"status\":\"up_to_date\"}"
    );
    let many: String = (0..35).map(|i| format!("Inst pkg{} (1.0)\n", i)).collect();
    let v = canonical(&apt_report(&many).text);
    assert_eq!(v["available_updates"], 30);
    assert_eq!(v["packages"].as_array().unwrap().len(), 20);
    assert_eq!(v["packages"][19], "pkg19");
}

#[test]
fn updater_reports() {
    assert_eq!(apt_failure("boom").text, "{\"error\":\"boom\",\"status\":\"check_failed\"}");
    assert_eq!(
        runtime_report(Some("  abc123 fix\n".to_string())).text,
        "{\"binary_path\":\"/usr/local/bin/fabio-claw\",\"git_recent_commits\":\"abc123 fix\"}"
    );
    assert!(runtime_report(None).text.contains("\"git unavailable\""));
    assert_eq!(unix_stamp(Some(5)), "unix:5");
    assert_eq!(unix_stamp(None), "unknown");
    let r = check_report(Some(apt_failure("x")), None, "unix:1");
    let v = canonical(&r.text);
    assert_eq!(v["safe_mode"], true);
    assert_eq!(v["checked_at"], "unix:1");
    assert_eq!(v["system"]["status"], "check_failed");
    assert!(v.get("fabio_claw").is_none());
    assert_eq!(v["note"], "READ-ONLY check \u{2014} no changes made. Use /update-plan for steps.");
}

#[test]
fn updater_plans() {
    let v = canonical(&update_plan(true, true, "unix:7").text);
    assert_eq!(v["total_steps"], 4);
    assert_eq!(v["safe_mode"], true);
    assert_eq!(v["steps"][0]["step"], 1);
    assert_eq!(v["steps"][0]["action"], "Update system packages");
    assert_eq!(v["steps"][0]["requires_reboot"], false);
    assert_eq!(v["steps"][1]["downtime_estimate"], "30-60 minutes on Raspberry Pi");
    assert_eq!(v["steps"][2]["commands"][2], "sudo cp target/release/plugin-* /opt/fabio-claw/plugins/");
    assert_eq!(v["steps"][3]["action"], "Verify health after update");
    assert_eq!(v["steps"][3]["step"], 4);
    let only = canonical(&update_plan(false, false, "unix:7").text);
    assert_eq!(only["total_steps"], 1);
    assert_eq!(only["steps"][0]["risk"], "none");
    assert_eq!(only["steps"][0]["step"], 1);
}

// ─── Network diagnostics ─────────────────────────────────────────────────────

#[test]
fn net_host_is_cleaned() {
    assert_eq!(sanitize_host("exa mple.com;rm -rf"), "example.comrm-rf");
    assert_eq!(target_host(""), "8.8.8.8");
    assert_eq!(target_host("host_1:80"), "host180");
    assert_eq!(sanitize_host(&"a".repeat(300)).len(), 253);
    assert_eq!(net_check("dns"), NetCheck::Dns);
    assert_eq!(net_check("latency"), NetCheck::Latency);
    assert_eq!(net_check("ping"), NetCheck::Ping);
    assert_eq!(net_check("whatever"), NetCheck::Ping);
}

const PING_OUT: &str = "PING 8.8.8.8 (8.8.8.8) 56(84) bytes of data.\n64 bytes from 8.8.8.8: icmp_seq=1 ttl=117 time=12.1 ms\n\n--- 8.8.8.8 ping statistics ---\n4 packets transmitted, 4 received, 0% packet loss, time 3004ms\nrtt min/avg/max/mdev = 10.1/12.2/14.3/1.5 ms\n";

#[test]
fn net_reads_ping_output() {
    assert_eq!(rtt_stats(PING_OUT), Some("10.1/12.2/14.3/1.5 ms".to_string()));
    assert_eq!(packet_loss(PING_OUT), Some("0% packet loss".to_string()));
    assert_eq!(rtt_stats("nothing here"), None);
    assert_eq!(packet_loss("nothing here"), None);
    let v = canonical(&ping_result("8.8.8.8", true, PING_OUT).text);
    assert_eq!(v["reachable"], true);
    assert_eq!(v["packet_loss"], "0% packet loss");
    assert_eq!(v["raw"], PING_OUT);
    let long = "x".repeat(500);
    let w = canonical(&ping_result("h", false, &long).text);
    assert_eq!(w["raw"].as_str().unwrap().len(), 400);
    assert!(w["rtt_stats"].is_null());
    assert_eq!(ping_failure("no binary"), "ping failed: no binary");
}

#[test]
fn net_dns_and_latency() {
    assert_eq!(dns_address("example.com"), "example.com:80");
    assert_eq!(dns_result("x", vec![], 3).err().unwrap(), "No DNS records for 'x'");
    let ok = dns_result("x", vec!["1.2.3.4".to_string(), "::1".to_string()], 3).unwrap();
    assert_eq!(
        ok.text,
        "{\"host\":\"x\",\"record_count\":2,\"resolve_ms\":3,\"resolved\":[\"1.2.3.4\",\"::1\"]}"
    );
    assert_eq!(dns_failure("x", "nope"), "DNS failed for 'x': nope");
    let ports: Vec<(u16, String)> = latency_probes();
    assert_eq!(ports, vec![(443, "HTTPS".to_string()), (80, "HTTP".to_string()), (22, "SSH".to_string())]);
    assert_eq!(probe_address("h", 443), "h:443");
    assert_eq!(
        probe_result("HTTPS", 443, false, 5).text,
        "{\"latency_ms\":null,\"open\":false,\"port\":443,\"protocol\":\"HTTPS\"}"
    );
    let p = probe_result("SSH", 22, true, 17);
    assert_eq!(p.text, "{\"latency_ms\":17,\"open\":true,\"port\":22,\"protocol\":\"SSH\"}");
    let all = latency_result("h", vec![p]);
    canonical(&all.text);
}

// ─── System information ──────────────────────────────────────────────────────

#[test]
fn sysinfo_reports_and_uptime() {
    assert_eq!(sys_report("", "uptime"), SysReport::Uptime);
    assert_eq!(sys_report("disk", "sysinfo"), SysReport::Disk);
    assert_eq!(sys_report("", "sysinfo"), SysReport::Full);
    assert_eq!(uptime_human(90061, true), "1d 1h 1m 1s");
    assert_eq!(uptime_human(3661, true), "1h 1m 1s");
    assert_eq!(uptime_human(61, true), "1m 1s");
    assert_eq!(uptime_human(90061, false), "1d 1h 1m");
    assert_eq!(uptime_human(59, false), "0m");
    assert_eq!(
        uptime_result(3661).text,
        "{\"days\":0,\"hours\":1,\"minutes\":1,\"uptime_human\":\"1h 1m 1s\",\"uptime_seconds\":3661}"
    );
    assert_eq!(uptime_failure("gone"), "Cannot read /proc/uptime: gone");
}

#[test]
fn sysinfo_memory_load_disk() {
    let m = meminfo("MemTotal:  4096000 kB\nMemFree: 1024000 kB\nMemAvailable: 2048000 kB\nMemTotal: x\n");
    assert_eq!((m.total_kb, m.free_kb, m.avail_kb), (0, 1024000, 2048000));
    let m2 = meminfo("MemTotal:  4096000 kB\nMemFree: 1024000 kB\nMemAvailable: 2048000 kB\n");
    assert_eq!(
        memory_result(&m2, 50).text,
        "{\"available_mb\":2000,\"free_mb\":1000,\"total_mb\":4000,\"used_mb\":2000,\"used_pct\":50}"
    );
    assert_eq!(
        load_result("0.52 0.58 0.59 1/123 4567\n").text,
        "{\"15min\":\"0.59\",\"1min\":\"0.52\",\"5min\":\"0.58\"}"
    );
    assert_eq!(load_result("").text, "{\"15min\":\"?\",\"1min\":\"?\",\"5min\":\"?\"}");
    let df = "Filesystem      Size  Used Avail Use% Mounted on\n/dev/root        29G  5.0G   23G  18% /\n";
    assert_eq!(
        disk_result(df).unwrap().text,
        "{\"available\":\"23G\",\"filesystem\":\"/dev/root\",\"mount\":\"/\",\"size\":\"29G\",\"use_pct\":\"18%\",\"used\":\"5.0G\"}"
    );
    assert_eq!(disk_result("Filesystem Size\n").err().unwrap(), "Could not parse df output");
    assert_eq!(disk_result("Filesystem Size\n/dev/root 29G\n").err().unwrap(), "Could not parse df output");
    assert_eq!(
        disk_summary(df).text,
        "{\"available\":\"23G\",\"size\":\"29G\",\"use_pct\":\"18%\",\"used\":\"5.0G\"}"
    );
    assert_eq!(disk_summary("").text, "null");
    assert_eq!(df_failure("no df"), "df failed: no df");
    let full = full_report(
        120,
        Json { kind: JsonKind::Null, text: "null".to_string() },
        memory_result(&m2, 50),
        load_result(""),
        disk_summary(df),
    );
    let v = canonical(&full.text);
    assert_eq!(v["uptime"], "2m");
    assert_eq!(v["uptime_seconds"], 120);
}

// ─── Calculator ──────────────────────────────────────────────────────────────

#[test]
fn calculator_requests() {
    assert_eq!(sanitize_expression("2^10 - 1; drop"), "2^10 - 1 ");
    assert_eq!(
        calc_request("eval", &jobj(vec![("expression", jstr("1+1"))])),
        Ok("1+1".to_string())
    );
    assert_eq!(
        calc_request("calculate", &jobj(vec![("args", jstr("2^10 - 1"))])),
        Ok("2^10 - 1".to_string())
    );
    assert_eq!(
        calc_request("calculate", &jobj(vec![("args", jstr("")), ("expression", jstr("3*3"))])),
        Ok("3*3".to_string())
    );
    assert_eq!(
        calc_request("calculate", &jobj(vec![])),
        Err("Missing 'expression' in payload".to_string())
    );
    assert_eq!(
        calc_request("compute", &jobj(vec![("expression", jstr("abc"))])),
        Err("Expression contains no valid math characters".to_string())
    );
    assert_eq!(
        calc_request("sum", &jobj(vec![("expression", jstr("1"))])),
        Err("Unknown action 'sum'. Supported: calculate, eval, compute".to_string())
    );
    assert_eq!(evaluation_error("bad"), "Evaluation error: bad");
    assert_eq!(unexpected_result("Tuple"), "Unexpected result type: Tuple");
}

// ─── Knowledge base ──────────────────────────────────────────────────────────

#[test]
fn kb_chunks_overlap() {
    assert_eq!(chunk_text("abcdefghij", 4, 1), vec!["abcd", "defg", "ghij"]);
    assert_eq!(chunk_text("abc", 500, 50), vec!["abc"]);
    assert!(chunk_text("   \n  ", 4, 1).is_empty());
    assert_eq!(chunk_text("ab    cd", 3, 0), vec!["ab", "cd"]);
    let long: String = "x".repeat(1200);
    let cs = chunk_text(&long, 500, 50);
    assert_eq!(cs.len(), 3);
    assert!(cs.iter().all(|c| !c.is_empty() && c.chars().count() <= 500));
}

#[test]
fn kb_queries() {
    assert_eq!(fts_query("GPIO setup; rm"), Ok("\"GPIO\" OR \"setup\" OR \"rm\"".to_string()));
    assert_eq!(fts_query("!!!"), Err("Empty query.".to_string()));
    assert_eq!(like_pattern("50%_off"), "%50\\%\\_off%");
    assert_eq!(kb_command("index", "/x"), KbCommand::Index);
    assert_eq!(kb_command("list", "q"), KbCommand::List);
    assert_eq!(kb_command("kb", ""), KbCommand::List);
    assert_eq!(kb_command("kb", "gpio"), KbCommand::Search);
}

#[test]
fn kb_paths_and_files() {
    assert!(kb_allowed("/home/pi/manuals/x.txt"));
    assert!(kb_allowed("/tmp/fabio-claw/kb"));
    assert!(!kb_allowed("/home/pi/manualsx"));
    assert!(!kb_allowed("/etc/passwd"));
    let dirs = "/home/pi/documents, /home/pi/manuals, /home/pi/data, /opt/fabio-claw/kb, /tmp/fabio-claw/kb";
    assert_eq!(index_usage(), format!("Specify a path. Allowed dirs: {}", dirs));
    assert_eq!(kb_access_denied(), format!("Access denied. Allowed: {}", dirs));
    assert_eq!(cannot_resolve("/x", "gone"), "Cannot resolve '/x': gone");
    assert!(check_extension("MD").is_ok());
    assert_eq!(check_extension("exe"), Err("Unsupported file type: .exe".to_string()));
}

#[test]
fn kb_answers() {
    assert_eq!(trunc("hello world", 5), "hello\u{2026}");
    assert_eq!(trunc("hello", 5), "hello");
    let hit = kb_hit("/a.txt", 2, "content", None);
    assert_eq!(hit.text, "{\"chunk_idx\":2,\"excerpt\":\"content\",\"source\":\"/a.txt\"}");
    let scored = kb_hit(
        "/a.txt",
        0,
        "c",
        Some(Json { kind: JsonKind::Null, text: "-1.5".to_string() }),
    );
    assert_eq!(scored.text, "{\"chunk_idx\":0,\"excerpt\":\"c\",\"score\":-1.5,\"source\":\"/a.txt\"}");
    let v = canonical(&fts_result("q", vec![hit]).text);
    assert_eq!(v["method"], "fts5");
    assert_eq!(v["count"], 1);
    let none = canonical(&like_result("q", vec![]).text);
    assert_eq!(none["hint"], "No docs indexed yet. Use /kb index <path> to add documents.");
    let (ok, j) = index_result("/p", 3, &vec![]);
    assert!(ok);
    assert_eq!(j.text, "{\"chunks_indexed\":3,\"errors\":[],\"path\":\"/p\"}");
    let (bad, _) = index_result("/p", 0, &vec!["x: y".to_string()]);
    assert!(!bad);
    let s = source_entry("/a.txt", 4, "2024-01-01 00:00:00");
    let l = canonical(&list_result(vec![s]).text);
    assert_eq!(l["indexed_sources"], 1);
    assert_eq!(l["allowed_dirs"][1], "/home/pi/manuals");
}

// ─── Logs ────────────────────────────────────────────────────────────────────

#[test]
fn logs_request() {
    assert_eq!(line_count("50"), 50);
    assert_eq!(line_count(""), 20);
    assert_eq!(line_count("abc 500"), 100);
    assert_eq!(line_count("x 7 9"), 7);
    assert!(errors_only("errors"));
    assert!(!errors_only("logs"));
    assert_eq!(
        journal_args(20, true),
        vec!["-u", "fabio-claw", "--no-pager", "-n", "20", "--output=short", "-p", "err"]
    );
    assert_eq!(journal_args(5, false).len(), 6);
    assert_eq!(journal_lines(""), None);
    assert_eq!(journal_lines("a\nb\n"), Some(vec!["a".to_string(), "b".to_string()]));
    assert_eq!(log_files(), vec!["/var/log/syslog", "/var/log/messages", "/tmp/fabio-claw.log"]);
    let (l, s) = no_log_source();
    assert_eq!(l, vec!["[No log source available. journald or syslog required.]"]);
    assert_eq!(s, "none");
}

#[test]
fn logs_error_lines() {
    assert!(contains_error("Fatal thing"));
    assert!(contains_error("a WARNING"));
    assert!(!contains_error("all good"));
    let content = "a\nerror b\nc\nWARN d\n";
    assert_eq!(file_tail(content, 1, true), vec!["WARN d"]);
    assert_eq!(file_tail(content, 5, true), vec!["error b", "WARN d"]);
    assert_eq!(file_tail(content, 2, false), vec!["c", "WARN d"]);
}

#[test]
fn logs_secrets_are_blanked() {
    assert_eq!(sanitize_line("password=hunter2 rest"), Some("password=[REDACTED]".to_string()));
    let line = format!("api_key: {} tail", "A".repeat(50));
    assert_eq!(
        sanitize_line(&line),
        Some(format!("api_key:[REDACTED]{} tail", "A".repeat(11)))
    );
    assert_eq!(sanitize_line("Token found but no value"), Some("Token found but no value".to_string()));
    assert_eq!(sanitize_line("all quiet"), Some("all quiet".to_string()));
    let long = "x".repeat(400);
    let cut = sanitize_line(&long).unwrap();
    assert_eq!(cut.len(), 300);
    assert!(cut.ends_with("..."));
    assert_eq!(sanitize_line(&"é".repeat(200)), None);
}

#[test]
fn logs_answer() {
    let lines = vec!["error here".to_string(), "ok".to_string()];
    assert_eq!(
        log_result("none", &lines, false).unwrap().text,
        "{\"error_count\":1,\"errors_only\":false,\"lines_shown\":2,\"log\":[\"error here\",\"ok\"],\"source\":\"none\"}"
    );
}

// ─── Date and time ───────────────────────────────────────────────────────────

#[test]
fn datetime_answer() {
    assert!(time_action("now"));
    assert!(time_action("date"));
    assert!(!time_action("tomorrow"));
    let j = datetime_result("2024-05-01 10:00:00", "2024-05-01", "10:00:00", "Wednesday", "+02:00", 1714550400);
    assert_eq!(
        j.text,
        "{\"date\":\"2024-05-01\",\"datetime\":\"2024-05-01 10:00:00\",\"day_of_week\":\"Wednesday\",\"time\":\"10:00:00\",\"timezone\":\"+02:00\",\"unix\":1714550400}"
    );
}

#[test]
fn gpio_answers_match_their_json() {
    assert_eq!(pin_written(17, true).text, "{\"direction\":\"out\",\"pin\":17,\"state\":\"HIGH\",\"value\":1}");
    assert_eq!(pin_reading(4, 0, "in").text, "{\"direction\":\"in\",\"pin\":4,\"state\":\"LOW\",\"value\":0}");
    let pins = vec![exported_pin(18, 1, "out")];
    let safe: Vec<String> = (2..=27).map(|p: u8| p.to_string()).collect();
    let expected = format!(
        "{{\"exported_pins\":1,\"note\":\"Only exported pins shown. Use /gpio on|off|read <pin> to interact.\",\"pins\":[{{\"direction\":\"out\",\"exported\":true,\"pin\":18,\"state\":\"HIGH\",\"value\":1}}],\"safe_pins\":[{}]}}",
        safe.join(",")
    );
    assert_eq!(gpio_status(pins).text, expected);
}

#[test]
fn instant_answer_results_are_objects() {
    let body = jobj(vec![("Answer", jstr("42")), ("Abstract", jstr(""))]);
    let rs = ddg_results(&body, "q").unwrap();
    assert_eq!(rs.len(), 1);
    assert_eq!(
        rs[0].text,
        "{\"snippet\":\"42\",\"title\":\"Direct Answer\",\"type\":\"answer_box\",\"url\":\"\"}"
    );
    match &rs[0].kind {
        JsonKind::Object(es) => {
            assert_eq!(es.len(), 4);
            assert_eq!(es[0].0, "snippet");
            assert!(matches!(&es[0].1.kind, JsonKind::Str(s) if s == "42"));
        }
        _ => panic!("a result is an object"),
    }
    assert!(synthesis(&rs).contains("42"));
    let cs = citations(&rs);
    assert_eq!(cs[0].text, "{\"title\":\"Direct Answer\",\"url\":\"\"}");
    let empty = ddg_results(&jobj(vec![]), "q%20x").unwrap();
    assert_eq!(empty.len(), 1);
    assert!(empty[0].text.contains("No instant results"));
}

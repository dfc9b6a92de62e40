use fabio_claw::api::{HealthResponse, ModelsResponse, ReadinessResponse};
use fabio_claw::errors::AppError;
use fabio_claw::json::{int_value, uint_value, Json, JsonKind};
use fabio_claw::plugin_manager::{
    cache_key, format_help, PluginManager, PluginManifest, PluginResponse, PreparedCall,
    RegisteredPlugin,
};
use fabio_claw::scheduler::{next_run_time, UtcTime};
use fabio_claw::security::DeviceIdentity;
use fabio_claw::sha256::sha256;
use fabio_claw::telegram::split_message;

fn hex(b: &[u8]) -> String {
    b.iter().map(|x| format!("{:02x}", x)).collect()
}

#[test]
fn sha256_known_digests() {
    assert_eq!(hex(&sha256(b"")), "e3b0c44298fc1c149afbf4c8996fb92427ae41e4649b934ca495991b7852b855");
    assert_eq!(hex(&sha256(b"abc")), "ba7816bf8f01cfea414140de5dae2223b00361a396177a9cb410ff61f20015ad");
    assert_eq!(
        hex(&sha256(b"abcdbcdecdefdefgefghfghighijhijkijkljklmklmnlmnomnopnopq")),
        "248d6a61d20638b8e5c026930c3e6039a33ce45964ff2167f6ecedd419db06c1"
    );
    let million = vec![b'a'; 1_000_000];
    assert_eq!(hex(&sha256(&million)), "cdc76e5c9914fb9281a1c7e284d73e67f1809a48a497200e046d39ccc7112cd0");
}

#[test]
fn signed_plugin_verifies() {
    let id = DeviceIdentity::load(vec![7u8; 32]).ok().unwrap();
    assert_eq!(id.to_bytes(), vec![7u8; 32]);
    assert_eq!(id.public_key_hex().len(), 64);
    let sig = id.sign_plugin(b"plugin binary");
    assert!(id.verify_plugin_signature(b"plugin binary", &sig, "p").is_ok());
    assert!(id.verify_plugin_signature(b"plugin binary", &format!("  {}\n", sig), "p").is_ok());
    match id.verify_plugin_signature(b"tampered binary", &sig, "p") {
        Err(AppError::SecurityError(m)) => assert!(m.starts_with("Plugin signature invalid for 'p': ")),
        _ => panic!("a tampered binary must be refused"),
    }
    match id.verify_plugin_signature(b"plugin binary", "not base64!", "p") {
        Err(AppError::SecurityError(m)) => assert!(m.starts_with("Invalid base64 in .sig file: ")),
        _ => panic!("a bad signature file must be refused"),
    }
    match id.verify_plugin_signature(b"plugin binary", "AAAA", "p") {
        Err(AppError::SecurityError(m)) => assert_eq!(m, "Signature must be 64 bytes"),
        _ => panic!("a short signature must be refused"),
    }
    let other = DeviceIdentity::load(vec![9u8; 32]).ok().unwrap();
    assert!(other.verify_plugin_signature(b"plugin binary", &sig, "p").is_err());
    assert_eq!(id.sign(b"x"), id.sign(b"x"));
    assert_eq!(id.sign(b"x").len(), 64);
}

#[test]
fn key_file_must_hold_a_key() {
    match DeviceIdentity::load(vec![1u8; 5]) {
        Err(AppError::SecurityError(m)) => assert_eq!(m, "Invalid key file length"),
        _ => panic!("a short key file must be refused"),
    }
    let g = DeviceIdentity::generate();
    assert_eq!(g.to_bytes().len(), 32);
}

#[test]
fn telegram_split_on_newlines() {
    assert_eq!(split_message("short", 10), vec!["short"]);
    assert_eq!(split_message("aa\nbb\ncc", 4), vec!["aa\n", "bb\n", "cc"]);
    assert_eq!(split_message("abcdefgh", 3), vec!["abc", "def", "gh"]);
    let text = "line one\nline two\nline three\n".repeat(300);
    let parts = split_message(&text, 4096);
    assert!(parts.iter().all(|p| p.chars().count() <= 4096));
    assert_eq!(parts.concat(), text);
}

fn manifest(name: &str, commands: &[&str], cacheable: bool) -> RegisteredPlugin {
    RegisteredPlugin {
        manifest: PluginManifest {
            name: name.to_string(),
            version: "0.1.0".to_string(),
            description: format!("{} plugin", name),
            commands: commands.iter().map(|c| c.to_string()).collect(),
            default_action: "run".to_string(),
            payload_from_args: true,
            cacheable,
            cache_ttl_secs: 300,
        },
        binary_path: format!("/opt/fabio-claw/plugins/{}", name),
    }
}

#[test]
fn plugin_manager_routes_and_caches() {
    let mut pm = PluginManager::new();
    assert!(pm.find("weather").is_none());
    pm.register(manifest("plugin-weather", &["weather", "forecast"], true));
    pm.register(manifest("plugin-system-info", &["sysinfo", "uptime"], false));
    assert_eq!(pm.find("forecast").unwrap().manifest.name, "plugin-weather");
    assert_eq!(pm.find("uptime").unwrap().manifest.name, "plugin-system-info");
    assert!(pm.find("nope").is_none());
    let listed: Vec<String> = pm.list_commands().into_iter().map(|(c, _)| c).collect();
    assert_eq!(listed, vec!["forecast", "sysinfo", "uptime", "weather"]);
    let help = format_help(&pm.list_commands());
    assert!(help.starts_with("Available commands:\n"));
    assert!(help.contains("  /forecast  plugin-weather plugin"));
    assert_eq!(format_help(&[]), "No plugins registered. Check /opt/fabio-claw/plugins/");

    let key = match pm.prepare_call("weather", "Milan", 1_000) {
        Ok(PreparedCall::Run { request, cache_key, .. }) => {
            assert_eq!(request, "{\"action\":\"run\",\"payload\":{\"args\":\"Milan\"}}");
            cache_key
        },
        _ => panic!("the first call must run the plugin"),
    };
    assert_eq!(key, cache_key("plugin-weather", "Milan"));
    let reply = PluginResponse {
        success: true,
        result: Json { kind: JsonKind::Null, text: "null".to_string() },
        error: None,
    };
    pm.remember(key, "plugin-weather", true, reply, 1_000);
    match pm.prepare_call("weather", "Milan", 2_000) {
        Ok(PreparedCall::Cached(r)) => assert!(r.success),
        _ => panic!("a fresh reply must come from the cache"),
    }
    match pm.prepare_call("weather", "Milan", 1_000 + 301_000_000_000) {
        Ok(PreparedCall::Run { .. }) => {},
        _ => panic!("a stale reply must not be served"),
    }
    match pm.prepare_call("nope", "", 0) {
        Err(e) => assert_eq!(e.message(), "No plugin handles /nope"),
        _ => panic!("an unknown command must be refused"),
    }
}

#[test]
fn cron_next_run() {
    let t = next_run_time("0 0 * * * *", UtcTime { secs: 0, nanos: 0 }).unwrap();
    assert_eq!((t.secs, t.nanos), (3600, 0));
    let u = next_run_time("0 * * * * *", UtcTime { secs: 59, nanos: 0 }).unwrap();
    assert_eq!(u.secs, 60);
    assert!(next_run_time("not a cron", UtcTime { secs: 0, nanos: 0 }).is_none());
}

#[test]
fn api_answers() {
    let h = HealthResponse::ok("t".to_string(), "0.3.0".to_string(), "ab".to_string());
    assert_eq!(h.status, "ok");
    assert_eq!(h.device_id, "ab");
    let r = ReadinessResponse::from_checks(true, false);
    assert!(!r.ready && r.llm_loaded && !r.memory_ok);
    assert!(ReadinessResponse::from_checks(true, true).ready);
    let m = ModelsResponse::for_model("tinyllama".to_string(), 5);
    assert_eq!(m.object, "list");
    assert_eq!(m.data.len(), 1);
    assert_eq!(m.data[0].id, "tinyllama");
    assert_eq!(m.data[0].owned_by, "fabio-claw-edge");
}

fn number_parts(j: &Json) -> (Option<u64>, Option<i64>, String, String) {
    match &j.kind {
        JsonKind::Number(n) => (n.as_u64, n.as_i64, n.fixed0.clone(), n.fixed1.clone()),
        _ => panic!("not a number"),
    }
}

#[test]
fn integers_keep_exact_text_and_float_renderings() {
    for v in [0u64, 7, 9007199254740992, 9007199254740993, 9007199254740995, 9007199254740997, 1 << 60, u64::MAX] {
        let j = uint_value(v);
        let (u, i, f0, f1) = number_parts(&j);
        assert_eq!(j.text, v.to_string());
        assert_eq!(u, Some(v));
        assert_eq!(i, i64::try_from(v).ok());
        assert_eq!(f0, format!("{:.0}", v as f64));
        assert_eq!(f1, format!("{:.1}", v as f64));
    }
    assert_eq!(number_parts(&uint_value(9007199254740995)).2, "9007199254740996");
    assert_eq!(number_parts(&uint_value(u64::MAX)).2, "18446744073709551616");
    for v in [-1i64, -42, -9007199254740993, i64::MIN, i64::MAX] {
        let j = int_value(v);
        let (u, i, f0, f1) = number_parts(&j);
        assert_eq!(j.text, v.to_string());
        assert_eq!(i, Some(v));
        assert_eq!(u, u64::try_from(v).ok());
        assert_eq!(f0, format!("{:.0}", v as f64));
        assert_eq!(f1, format!("{:.1}", v as f64));
    }
}

#[test]
fn signature_text_is_padded_standard_base64() {
    let id = DeviceIdentity::load(vec![5u8; 32]).ok().unwrap();
    let bin = b"plugin binary bytes";
    let text = id.sign_plugin(bin);
    let expected = base64::Engine::encode(&base64::engine::general_purpose::STANDARD, id.sign(&sha256(bin)));
    assert_eq!(text, expected);
    assert_eq!(text.len(), 88);
    assert!(text.ends_with("=="));
}

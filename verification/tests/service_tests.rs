use gateway_kit::model::{ChangePlan, PlanStatus, RenderedFile};
use gateway_kit::config::wan_direct_cidr;
use gateway_kit::model::AppConfig;
use gateway_kit::net::{ipv4_network, parse_ipv4_cidr};
use gateway_kit::discovery::json_member_names;
use gateway_kit::redact::redact_pretty_json;
use gateway_kit::singbox::wg_outbound_json;
use gateway_kit::error::CoreError;
use gateway_kit::model::{ProbeStatus, Secrets, SecretsPatch};
use gateway_kit::monitor::{disk_metric, net_metric};
use gateway_kit::paths::{join, parent, Paths};
use gateway_kit::proxy::{hex_value, percent_decode, validate_proxy_uri};
use gateway_kit::store::{
    generation_id, journal_value, next_generation_id, parse_i64_text, parse_journal,
    probe_status_text, schema_check, schema_plan, seconds_since_epoch, unix_now,
};
use gateway_kit::watch::{strike_message, watch_step, WatchAction, WatchObservation};
use gateway_kit::web::{
    authorize, check_secrets_patch, header_token, mime_of, refusal, requires_auth, AuthDecision,
};

#[test]
fn three_failed_checks_in_a_row_roll_back() {
    let u = WatchObservation::Unhealthy;
    assert_eq!(watch_step(0, u), (1, WatchAction::Strike(1)));
    assert_eq!(watch_step(1, u), (2, WatchAction::Strike(2)));
    assert_eq!(watch_step(2, u), (0, WatchAction::StrikeAndRollback(3)));
}

#[test]
fn good_rounds_reset_and_unreadable_rounds_keep_strikes() {
    assert_eq!(watch_step(2, WatchObservation::Healthy), (0, WatchAction::Nothing));
    assert_eq!(watch_step(2, WatchObservation::NotGateway), (0, WatchAction::Nothing));
    assert_eq!(watch_step(1, WatchObservation::NoGeneration), (0, WatchAction::Nothing));
    assert_eq!(watch_step(2, WatchObservation::Unreadable), (2, WatchAction::Nothing));
    let mut strikes = 0u8;
    let mut rollbacks = 0;
    for obs in [
        WatchObservation::Unhealthy,
        WatchObservation::Unreadable,
        WatchObservation::Unhealthy,
        WatchObservation::Healthy,
        WatchObservation::Unhealthy,
        WatchObservation::Unhealthy,
        WatchObservation::Unhealthy,
    ] {
        let (next, action) = watch_step(strikes, obs);
        strikes = next;
        if matches!(action, WatchAction::StrikeAndRollback(_)) {
            rollbacks += 1;
        }
        assert!(strikes < 3);
    }
    assert_eq!(rollbacks, 1);
    assert_eq!(strikes, 0);
}

#[test]
fn strike_event_text() {
    assert_eq!(
        strike_message(2, &vec!["nft table missing".into(), "WAN gateway is unreachable".into()]),
        "strike 2: nft table missing; WAN gateway is unreachable"
    );
    assert_eq!(strike_message(1, &vec![]), "strike 1: ");
}

#[test]
fn loopback_ui_needs_no_token() {
    assert!(!requires_auth("127.0.0.1:7677"));
    assert!(!requires_auth("localhost:7677"));
    assert!(requires_auth("0.0.0.0:7677"));
    assert!(requires_auth("192.168.50.1:7677"));
    assert_eq!(authorize(false, "", None), AuthDecision::Allow);
    assert_eq!(refusal(AuthDecision::Allow), None);
}

#[test]
fn lan_ui_refuses_without_the_token() {
    let missing = authorize(true, "", Some("anything"));
    assert_eq!(missing, AuthDecision::TokenMissing);
    assert_eq!(refusal(missing), Some((403, "LAN token missing")));
    let wrong = authorize(true, "secret", Some("guess"));
    assert_eq!(wrong, AuthDecision::TokenRequired);
    assert_eq!(refusal(wrong), Some((401, "token required")));
    assert_eq!(authorize(true, "secret", None), AuthDecision::TokenRequired);
    assert_eq!(authorize(true, "secret", Some("secret")), AuthDecision::Allow);
}

#[test]
fn presented_token_headers() {
    assert_eq!(
        header_token(Some(Some("t1")), Some(Some("Bearer t2"))),
        Some("t1".to_string())
    );
    assert_eq!(header_token(None, Some(Some("Bearer t2"))), Some("t2".to_string()));
    assert_eq!(header_token(None, Some(Some("Basic dXNlcg=="))), None);
    assert_eq!(header_token(Some(None), Some(Some("Bearer t2"))), None);
    assert_eq!(header_token(None, Some(None)), None);
    assert_eq!(header_token(None, None), None);
}

#[test]
fn asset_content_types() {
    assert_eq!(mime_of("index.html"), "text/html; charset=utf-8");
    assert_eq!(mime_of("assets/app.js"), "application/javascript; charset=utf-8");
    assert_eq!(mime_of("assets/app.css"), "text/css; charset=utf-8");
    assert_eq!(mime_of("assets/logo.svg"), "image/svg+xml");
    assert_eq!(mime_of("assets/font.woff2"), "font/woff2");
    assert_eq!(mime_of("assets/app.js.map"), "application/json");
    assert_eq!(mime_of("assets/blob.bin"), "application/octet-stream");
}

#[test]
fn secrets_patch_proxy_link_is_checked() {
    let blank = SecretsPatch {
        proxy_uri: Some("   ".into()),
        ..Default::default()
    };
    assert_eq!(check_secrets_patch(&blank), Ok(()));
    assert_eq!(check_secrets_patch(&SecretsPatch::default()), Ok(()));
    let bad = SecretsPatch {
        proxy_uri: Some("not a link".into()),
        ..Default::default()
    };
    assert!(matches!(check_secrets_patch(&bad), Err(CoreError::ConfigParse(_))));
    let good = SecretsPatch {
        proxy_uri: Some(
            " vless://11111111-2222-3333-4444-555555555555@203.0.113.10:443?security=reality&pbk=abc&sid=01&sni=www.example.com "
                .into(),
        ),
        ..Default::default()
    };
    assert_eq!(check_secrets_patch(&good), Ok(()));
}

#[test]
fn secrets_patch_twice_is_patch_once() {
    let mut once = Secrets {
        ui_lan_token: Some("old".into()),
        ..Default::default()
    };
    let patch = SecretsPatch {
        ui_lan_token: Some("new".into()),
        proxy_uri: Some("".into()),
        ..Default::default()
    };
    once.apply_patch(&patch);
    let mut twice = once.clone();
    twice.apply_patch(&patch);
    assert_eq!(once, twice);
    assert_eq!(once.ui_lan_token.as_deref(), Some("new"));
}

#[test]
fn percent_escapes_decode() {
    assert_eq!(percent_decode("a%20b%2Fc"), "a b/c");
    assert_eq!(percent_decode("100%"), "100%");
    assert_eq!(percent_decode("%zz"), "%zz");
    assert_eq!(percent_decode("%E4%BD%A0"), "\u{4f60}");
    assert_eq!(percent_decode("%FF"), "\u{FFFD}");
    assert_eq!(hex_value(b'a'), Some(10));
    assert_eq!(hex_value(b'F'), Some(15));
    assert_eq!(hex_value(b'g'), None);
}

#[test]
fn proxy_link_errors() {
    assert!(validate_proxy_uri("vless://uuid@host:443").is_ok());
    assert!(matches!(validate_proxy_uri("http://host:80"), Err(CoreError::ConfigParse(_))));
    assert_eq!(
        validate_proxy_uri("vless://host:443"),
        Err(CoreError::ConfigParse("proxy_uri has no UUID or server".into()))
    );
    assert_eq!(
        validate_proxy_uri("vless://@host:443"),
        Err(CoreError::ConfigParse("proxy_uri has no UUID".into()))
    );
    assert_eq!(
        validate_proxy_uri("vless://u@host:443?pbk=abc"),
        Err(CoreError::ConfigParse(
            "proxy_uri reality parameters require both pbk and sid".into()
        ))
    );
}

#[test]
fn apply_journal_round_trip() {
    let value = journal_value("g12-34", "{\"mode\":\"gateway\"}\nsecond line");
    assert_eq!(value, "g12-34\n{\"mode\":\"gateway\"}\nsecond line");
    assert_eq!(
        parse_journal(&value),
        (
            "g12-34".to_string(),
            "{\"mode\":\"gateway\"}\nsecond line".to_string()
        )
    );
    assert_eq!(
        parse_journal("g1-1"),
        ("g1-1".to_string(), String::new())
    );
}

#[test]
fn schema_versions_decide_migrations() {
    let fresh = schema_plan(None);
    assert_eq!(fresh.version, 0);
    assert!(fresh.migrate_v2 && fresh.migrate_v3 && !fresh.too_new);
    let v2 = schema_plan(Some("2"));
    assert!(!v2.migrate_v2 && v2.migrate_v3);
    let current = schema_plan(Some("3"));
    assert!(!current.migrate_v2 && !current.migrate_v3 && !current.too_new);
    assert_eq!(schema_check(&current), Ok(()));
    let garbage = schema_plan(Some("three"));
    assert_eq!(garbage.version, 0);
    let newer = schema_plan(Some("7"));
    assert!(newer.too_new);
    let err = schema_check(&newer).unwrap_err();
    assert_eq!(err, CoreError::UnsupportedSchema(7));
    assert_eq!(
        err.to_message(),
        "unsupported database schema version: 7 (current: 3)"
    );
    assert_eq!(parse_i64_text("-12"), Some(-12));
    assert_eq!(parse_i64_text("+5"), Some(5));
    assert_eq!(parse_i64_text("9223372036854775808"), None);
}

#[test]
fn generation_ids() {
    assert_eq!(generation_id(12, 34), "g12-34");
    assert_eq!(generation_id(0, 0), "g0-0");
    let id = next_generation_id();
    assert!(id.starts_with('g'));
    let (secs, nanos) = id[1..].split_once('-').unwrap();
    assert!(secs.parse::<u64>().unwrap() > 0);
    assert!(nanos.parse::<u32>().unwrap() < 1_000_000_000);
}

#[test]
fn error_messages() {
    assert_eq!(
        CoreError::ConfigNotFound("/etc/gateway-kit/config.toml".into()).to_message(),
        "configuration file not found: /etc/gateway-kit/config.toml"
    );
    assert_eq!(
        CoreError::Database("locked".into()).to_message(),
        "database error: locked"
    );
    assert_eq!(
        CoreError::UnsupportedSchema(-1).to_message(),
        "unsupported database schema version: -1 (current: 3)"
    );
    assert_eq!(
        CoreError::Blocked("x".into()).to_message(),
        "apply blocked: x"
    );
}

#[test]
fn disk_and_interface_metrics() {
    let d = disk_metric("/".into(), 100, 30).unwrap();
    assert_eq!((d.mount.as_str(), d.total_bytes, d.used_bytes), ("/", 100, 70));
    assert_eq!(disk_metric("/boot".into(), 100, 200).unwrap().used_bytes, 0);
    assert!(disk_metric("/proc".into(), 0, 0).is_none());
    assert!(net_metric("lo".into(), 1, 2).is_none());
    assert!(net_metric("Loopback Pseudo-Interface 1".into(), 1, 2).is_none());
    let n = net_metric("eth0".into(), 5, 6).unwrap();
    assert_eq!((n.name.as_str(), n.rx_bytes, n.tx_bytes), ("eth0", 5, 6));
}

#[test]
fn path_joining_and_parents() {
    assert_eq!(join("/etc/gateway-kit", "config.toml"), "/etc/gateway-kit/config.toml");
    assert_eq!(join("/etc/", "x"), "/etc/x");
    assert_eq!(join("", "x"), "x");
    assert_eq!(join("/etc", "/abs"), "/abs");
    assert_eq!(parent("/opt/gk/config.toml"), Some("/opt/gk".to_string()));
    assert_eq!(parent("/config.toml"), Some("/".to_string()));
    assert_eq!(parent("config.toml"), Some(String::new()));
    assert_eq!(parent("/"), None);
}

#[test]
fn configured_config_file_moves_secrets_and_generated_files() {
    let p = Paths::production_with(Some("/opt/gk/config.toml"));
    assert_eq!(p.config, "/opt/gk/config.toml");
    assert_eq!(p.secrets, "/opt/gk/secrets.toml");
    assert_eq!(p.generated_dir, "/opt/gk/generated");
    assert_eq!(p.state_db, "/var/lib/gateway-kit/state.db");
    assert!(!p.manages_host_units());
    let host = Paths::production_with(None);
    assert_eq!(host, Paths::from_root("/"));
    assert!(host.manages_host_units());
    assert!(!Paths::workspace().manages_host_units());
}

#[test]
fn probe_status_names() {
    assert_eq!(probe_status_text(ProbeStatus::Detected), "detected");
    assert_eq!(probe_status_text(ProbeStatus::NotPresent), "not_present");
    assert_eq!(probe_status_text(ProbeStatus::Unavailable), "unavailable");
    assert_eq!(probe_status_text(ProbeStatus::Failed), "failed");
}

#[test]
fn json_interface_members_skip_loopback_and_non_strings() {
    let items = vec![
        Some("lo".to_string()),
        Some("eth0".to_string()),
        None,
        Some("lo:1".to_string()),
        Some("wg0".to_string()),
    ];
    assert_eq!(json_member_names(&items), vec!["eth0", "wg0"]);
}

#[test]
fn pretty_json_credentials_are_hidden() {
    let pretty = "{\n  \"outbounds\": [\n    {\n      \"uuid\": \"11111111-2222\",\n      \"server\": \"203.0.113.10\"\n    }\n  ]\n}";
    let out = redact_pretty_json(pretty);
    assert!(!out.contains("11111111-2222"));
    assert!(out.contains("\"server\": \"203.0.113.10\""));
    assert_eq!(out.lines().count(), pretty.lines().count());
}

#[test]
fn tunnel_outbound_binds_the_interface() {
    assert_eq!(
        wg_outbound_json("\"wg0\""),
        "{\"type\":\"direct\",\"tag\":\"wg-out\",\"bind_interface\": \"wg0\"}"
    );
}

#[test]
fn wan_direct_prefix_parses_back_to_the_wan_network() {
    let mut cfg = AppConfig::default();
    cfg.wan.address = Some("10.20.30.77/22".into());
    let text = wan_direct_cidr(&cfg).unwrap();
    assert_eq!(text, "10.20.28.0/22");
    let (ip, prefix) = parse_ipv4_cidr("10.20.30.77/22").unwrap();
    assert_eq!(parse_ipv4_cidr(&text).unwrap(), (ipv4_network(ip, prefix), prefix));
    cfg.wan.address = Some("10.20.30.77".into());
    assert_eq!(wan_direct_cidr(&cfg), None);
    cfg.wan.address = None;
    assert_eq!(wan_direct_cidr(&cfg), None);
}

#[test]
fn wg_key_lines_keep_no_value() {
    let plan = ChangePlan {
        status: PlanStatus::Ready,
        explanation: "ready".into(),
        issues: vec![],
        actions: vec![],
        files: vec![RenderedFile {
            relative_path: "wg0.conf".into(),
            contents: "[Interface]\nPrivateKey = abc/def=\nAddress = 10.66.0.2/32\n[Peer]\n  PresharedKey=xyz=\nEndpoint = 203.0.113.9:51820".into(),
        }],
    };
    let shown = plan.redacted();
    assert_eq!(
        shown.files[0].contents,
        "[Interface]\nPrivateKey = [redacted]\nAddress = 10.66.0.2/32\n[Peer]\nPresharedKey = [redacted]\nEndpoint = 203.0.113.9:51820"
    );
    assert_eq!(shown.files[0].relative_path, "wg0.conf");
    assert_eq!(shown.explanation, "ready");
}

#[test]
fn host_installation_is_recognised_as_a_path() {
    let mut p = Paths::workspace();
    for (config, host) in [
        ("/etc/gateway-kit/config.toml", true),
        ("/etc/gateway-kit//config.toml", true),
        ("/etc/./gateway-kit/config.toml", true),
        ("/etc/gateway-kit/config.toml/", true),
        ("etc/gateway-kit/config.toml", false),
        ("/etc/gateway-kit/../gateway-kit/config.toml", false),
        ("/opt/gk/config.toml", false),
        ("", false),
    ] {
        p.config = config.into();
        assert_eq!(p.manages_host_units(), host, "{config}");
    }
}

#[test]
fn parent_agrees_with_std_path_parent() {
    let cases = [
        "", "/", "//", "/.", ".", "./", "./a", "..", "../a", "a", "a/", "a/.", "a/./", "a//b",
        "a/b/", "a/b/.", "a/./b", "/a", "/a/", "/a/./", "//a", "/etc/gk/config.toml/",
        "/etc/gk/config.toml/.", "/etc//gk//config.toml", ".a/b", "a/..", "a/../", "./.", "/./a",
    ];
    for case in cases {
        let expected = std::path::Path::new(case)
            .parent()
            .map(|d| d.to_str().unwrap().to_string());
        assert_eq!(parent(case), expected, "parent of {:?}", case);
    }
}

#[test]
fn config_named_with_trailing_slash_keeps_its_directory() {
    let p = Paths::production_with(Some("/opt/gk/config.toml/"));
    assert_eq!(p.secrets, "/opt/gk/secrets.toml");
    assert_eq!(p.generated_dir, "/opt/gk/generated");
}

#[test]
fn clock_readings_give_their_seconds() {
    assert_eq!(seconds_since_epoch(Some((1_700_000_000, 5))), 1_700_000_000);
    assert_eq!(seconds_since_epoch(None), 0);
    assert_eq!(seconds_since_epoch(Some((u64::MAX, 0))), -1);
    assert!(unix_now() > 1_600_000_000);
}

/// Hides the credential members of a parsed value.
fn hide_credentials(v: &mut serde_json::Value) {
    match v {
        serde_json::Value::Object(o) => {
            for (k, x) in o.iter_mut() {
                if k == "uuid" || k == "public_key" || k == "private_key" {
                    *x = serde_json::Value::String("[redacted]".into());
                } else {
                    hide_credentials(x);
                }
            }
        }
        serde_json::Value::Array(a) => a.iter_mut().for_each(hide_credentials),
        _ => {}
    }
}

#[test]
fn redacted_json_matches_redacting_the_parsed_value() {
    let mut value: serde_json::Value = serde_json::from_str(
        r#"{"outbounds":[{"uuid":{"a":[1,2]},"tls":{"reality":{"public_key":"pk","short_id":"s"}},"private_key":"k","x":1}]}"#,
    )
    .unwrap();
    let pretty = serde_json::to_string_pretty(&value).unwrap();
    let out = redact_pretty_json(&pretty);
    hide_credentials(&mut value);
    assert_eq!(out, serde_json::to_string_pretty(&value).unwrap());
}

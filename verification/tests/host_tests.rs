use gateway_kit::command::ScriptedRunner;
use gateway_kit::discovery::{discover_host, parse_interface_names};
use gateway_kit::health::{check_applied, check_applied_with_cache, probe_uplinks, GeoCache};
use gateway_kit::model::{
    AppConfig, ConflictSeverity, DhcpConfig, HealthStatus, InterfaceConfig, OperatingMode,
};

#[test]
fn parse_ip_json_skips_loopback() {
    let names = parse_interface_names(r#"[{"ifname":"lo"},{"ifname":"eth0"},{"ifname":"eth1"}]"#);
    assert_eq!(names, vec!["eth0", "eth1"]);
}

#[test]
fn parse_ip_text() {
    let names = parse_interface_names("1: lo: <LOOPBACK>\n2: eth0: <BROADCAST>\n");
    assert_eq!(names, vec!["eth0"]);
}

#[test]
fn iptables_legacy_blocks() {
    let mut runner = ScriptedRunner::succeeding();
    runner.push_ok("iptables", "iptables v1.8.7 (legacy)");
    let report = discover_host(&AppConfig::default(), &mut runner);
    assert!(report
        .conflicts
        .iter()
        .any(|c| c.id == "iptables-legacy" && c.severity == ConflictSeverity::Blocker));
}

#[test]
fn same_wan_lan_blocks_in_gateway() {
    let cfg = AppConfig {
        mode: OperatingMode::Gateway,
        wan: InterfaceConfig {
            interface: "eth0".into(),
            ..Default::default()
        },
        lan: InterfaceConfig {
            interface: "eth0".into(),
            ..Default::default()
        },
        ..Default::default()
    };
    let report = discover_host(&cfg, &mut ScriptedRunner::succeeding());
    assert!(report.conflicts.iter().any(|c| c.id == "wan-lan-same"));
    assert!(report.has_blockers());
}

#[test]
fn gateway_blocks_without_singbox() {
    let cfg = AppConfig {
        mode: OperatingMode::Gateway,
        wan: InterfaceConfig {
            interface: "eth0".into(),
            ..Default::default()
        },
        lan: InterfaceConfig {
            interface: "eth1".into(),
            ..Default::default()
        },
        dhcp: DhcpConfig {
            enabled: false,
            ..Default::default()
        },
        ..Default::default()
    };
    let mut runner = ScriptedRunner::succeeding();
    runner.push_unavailable("sing-box");
    runner.push_unavailable("/usr/local/bin/sing-box");
    let report = discover_host(&cfg, &mut runner);
    assert!(report
        .conflicts
        .iter()
        .any(|c| c.id == "missing-sing-box" && c.severity == ConflictSeverity::Blocker));
    assert!(report.has_blockers());
}

#[test]
fn observe_warns_without_singbox() {
    let mut cfg = AppConfig::default();
    cfg.dhcp.enabled = false;
    let mut runner = ScriptedRunner::succeeding();
    runner.push_unavailable("sing-box");
    runner.push_unavailable("/usr/local/bin/sing-box");
    let report = discover_host(&cfg, &mut runner);
    assert!(report
        .conflicts
        .iter()
        .any(|c| c.id == "missing-sing-box" && c.severity == ConflictSeverity::Warning));
    assert!(!report.has_blockers());
}

#[test]
fn ufw_inactive_status_does_not_block_gateway() {
    let mut runner = ScriptedRunner::succeeding();
    runner.push_ok("ufw", "Status: inactive");
    let report = discover_host(&AppConfig::default(), &mut runner);
    assert!(!report.conflicts.iter().any(|c| c.id == "ufw-active"));
}

#[test]
fn gateway_blocks_when_legacy_router_project_is_present() {
    let cfg = AppConfig {
        mode: OperatingMode::Gateway,
        wan: InterfaceConfig {
            interface: "eth0".into(),
            ..Default::default()
        },
        lan: InterfaceConfig {
            interface: "eth1".into(),
            ..Default::default()
        },
        dhcp: DhcpConfig {
            enabled: false,
            ..Default::default()
        },
        ..Default::default()
    };
    let mut runner = ScriptedRunner::succeeding();
    runner.push_ok("test", "");
    let report = discover_host(&cfg, &mut runner);
    assert!(report.conflicts.iter().any(|c| {
        c.id == "legacy-router-installed" && c.severity == ConflictSeverity::Blocker
    }));
}

#[test]
fn nonempty_ip_rule_must_mention_policy_table() {
    let mut runner = ScriptedRunner::succeeding();
    runner.push_ok("nft", "table inet gateway_kit");
    runner.push_ok("ip", "0: from all lookup main");
    let health = check_applied(&AppConfig::default(), &mut runner, false);
    assert_eq!(health.status, HealthStatus::Unhealthy);
    assert!(health.failed_checks.iter().any(|c| c.contains("51820")));
}

#[test]
fn production_health_requires_tproxy_listen() {
    let mut runner = ScriptedRunner::succeeding();
    runner.push_ok("nft", "table inet gateway_kit");
    runner.push_ok("ip", "fwmark 1 lookup 51820");
    runner.push_ok("ip", "local default dev lo scope host");
    runner.push_ok("ss", "tcp LISTEN 127.0.0.1:22");
    let health = check_applied(&AppConfig::default(), &mut runner, true);
    assert_eq!(health.status, HealthStatus::Unhealthy);
    assert!(health.failed_checks.iter().any(|c| c.contains("tproxy")));
}

#[test]
fn production_health_rejects_unreachable_wan_gateway() {
    let mut cfg = AppConfig::default();
    cfg.wan.gateway = Some("192.168.40.1".into());
    let mut runner = ScriptedRunner::succeeding();
    runner.push_unavailable("ping");
    let health = check_applied(&cfg, &mut runner, true);
    assert_eq!(health.status, HealthStatus::Unhealthy);
    assert!(health
        .failed_checks
        .iter()
        .any(|check| check.contains("WAN gateway")));
}

#[test]
fn production_health_requires_nonempty_geofile_cache() {
    let mut runner = ScriptedRunner::succeeding();
    let missing_cache = GeoCache {
        path: "/tmp/gk-geo-cache".into(),
        nonempty_file: false,
    };
    let missing = check_applied_with_cache(
        &AppConfig::default(),
        &mut runner,
        true,
        Some(&missing_cache),
    );
    assert_eq!(missing.status, HealthStatus::Unhealthy);
    assert!(missing
        .failed_checks
        .iter()
        .any(|check| check.contains("GeoFile cache")));
    let present_cache = GeoCache {
        path: "/tmp/gk-geo-cache".into(),
        nonempty_file: true,
    };
    let present = check_applied_with_cache(
        &AppConfig::default(),
        &mut runner,
        true,
        Some(&present_cache),
    );
    assert_eq!(present.status, HealthStatus::Healthy);
}

#[test]
fn wg_zero_handshake_is_note_not_failure() {
    let mut cfg = AppConfig::default();
    cfg.wireguard.enabled = true;
    cfg.wireguard.interface = "wg0".into();
    let mut runner = ScriptedRunner::succeeding();
    runner.push_ok("wg", "wg0\tabc=\t0");
    runner.push_ok("nft", "table inet gateway_kit");
    runner.push_ok("ip", "fwmark 1 lookup 51820");
    runner.push_ok("ip", "wg0: <POINTOPOINT,UP>");
    let health = check_applied(&cfg, &mut runner, false);
    assert_eq!(health.status, HealthStatus::Healthy);
    assert!(health.notes.iter().any(|n| n.contains("handshake")));
}

#[test]
fn health_check_agrees_with_uplink_probe_on_the_same_answers() {
    let mut cfg = AppConfig::default();
    cfg.wan.gateway = Some(" 192.168.40.1 ".into());
    cfg.wireguard.enabled = true;
    let mut probe_runner = ScriptedRunner::succeeding();
    probe_runner.push_unavailable("ping");
    probe_runner.push_ok("wg", "peer\t0");
    let (wan, tunnel, notes) = probe_uplinks(&cfg, &mut probe_runner);
    let mut health_runner = ScriptedRunner::succeeding();
    health_runner.push_unavailable("ping");
    health_runner.push_ok("wg", "peer\t0");
    let health = check_applied(&cfg, &mut health_runner, true);
    assert_eq!(wan, "down");
    assert_eq!(tunnel, "down");
    assert_eq!(health.wan_uplink, wan);
    assert_eq!(health.tunnel_uplink, tunnel);
    assert_eq!(&health.notes[..notes.len()], &notes[..]);
    assert!(health.failed_checks.iter().any(|c| c == "WAN gateway is unreachable"));
    assert_eq!(health.status, HealthStatus::Unhealthy);
    assert_eq!(probe_runner.calls, health_runner.calls[..2].to_vec());
}

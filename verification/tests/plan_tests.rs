use gateway_kit::apply::apply_gate;
use gateway_kit::error::CoreError;
use gateway_kit::model::{
    AppConfig, ApplyReason, ChangePlan, Conflict, ConflictSeverity, OperatingMode, PlanStatus,
    PreflightReport, RenderedFile, Secrets,
};
use gateway_kit::paths::Paths;
use gateway_kit::plan::build_plan;
use gateway_kit::render::render_nftables;
use gateway_kit::singbox::{render_singbox, render_singbox_with_secrets};

fn gateway_config() -> (AppConfig, Secrets) {
    let mut cfg = AppConfig::default();
    cfg.mode = OperatingMode::Gateway;
    cfg.wan.dns = vec!["192.0.2.53".into()];
    cfg.wan.interface = "eth0".into();
    cfg.lan.interface = "eth1".into();
    cfg.wireguard.enabled = true;
    cfg.wireguard.address = "10.66.0.2/32".into();
    cfg.wireguard.peer_endpoint = "203.0.113.9:51820".into();
    let secrets = Secrets {
        wireguard_private_key: Some("PRIV".into()),
        wireguard_peer_public_key: Some("PUB".into()),
        ..Default::default()
    };
    (cfg, secrets)
}

#[test]
fn workspace_paths_are_relative() {
    let paths = Paths::workspace();
    assert_eq!(paths.config, "config.toml");
}

#[test]
fn production_paths_live_under_etc() {
    let paths = Paths::from_root("/");
    assert!(
        paths.config.ends_with("etc/gateway-kit/config.toml")
            || paths.config.ends_with("etc\\gateway-kit\\config.toml")
    );
    assert!(paths.generated_dir.ends_with("generated"));
}

#[test]
fn observe_plan_is_observe_only() {
    let plan = build_plan(
        &AppConfig::default(),
        &Secrets::default(),
        &PreflightReport::default(),
    )
    .unwrap();
    assert_eq!(plan.status, PlanStatus::ObserveOnly);
    assert!(plan.files.is_empty());
}

#[test]
fn gateway_plan_renders_split_routing() {
    let (cfg, secrets) = gateway_config();
    let plan = build_plan(&cfg, &secrets, &PreflightReport::default()).unwrap();
    assert_eq!(plan.status, PlanStatus::Ready);
    let nft = plan
        .files
        .iter()
        .find(|f| f.relative_path.ends_with("nftables.conf"))
        .unwrap();
    assert!(nft.contents.contains("table inet gateway_kit"));
    assert!(nft.contents.contains("meta nfproto ipv6 drop"));
    assert!(nft.contents.contains("oifname \"eth0\" masquerade"));
    assert!(nft.contents.contains("tproxy ip to 127.0.0.1:7895"));
    assert!(!nft.contents.contains("policy drop"));
    assert!(nft.contents.contains("chain output"));
    assert!(nft.contents.contains("ip daddr { 192.168.50.1, 127.0.0.1 }"));
    assert!(!nft.contents.contains("tcp dport 22 return\n    tcp dport"));
    let redacted = plan.redacted();
    let wg_pub = redacted
        .files
        .iter()
        .find(|f| f.relative_path.ends_with("wg0.conf"))
        .unwrap();
    assert!(!wg_pub.contents.contains("PRIV"));
    let sb = plan
        .files
        .iter()
        .find(|f| f.relative_path.ends_with("sing-box.json"))
        .unwrap();
    assert!(sb.contents.contains("192.168.40.0/24"));
    assert!(sb.contents.contains("geoip-cn"));
    assert!(nft.contents.contains("ip daddr 192.168.40.0/24 return"));
    assert!(nft.contents.contains("iifname \"eth0\" oifname \"eth1\" accept"));
    assert!(sb.contents.contains("jsdelivr.net"));
    assert!(!sb.contents.contains("githubusercontent"));
    assert!(sb.contents.contains("wg-out"));
    assert!(sb.contents.contains("\"bind_interface\": \"eth0\""));
    assert!(sb.contents.contains("\"bind_interface\": \"wg0\""));
    assert!(sb.contents.contains("\"auto_detect_interface\": false"));
    let wg = plan
        .files
        .iter()
        .find(|f| f.relative_path.ends_with("wg0.conf"))
        .unwrap();
    assert!(wg.contents.contains("PRIV"));
    assert!(!plan.explanation.contains("PRIV"));
    let dhcp = plan
        .files
        .iter()
        .find(|f| f.relative_path.contains("dnsmasq"))
        .unwrap();
    assert!(dhcp.contents.contains("dhcp-option=3,192.168.50.1"));
    assert!(dhcp.contents.contains("dhcp-option=6,192.168.50.1"));
    assert!(dhcp.contents.contains("no-resolv"));
    assert!(dhcp.contents.contains("server=127.0.0.1#5353"));
    assert!(dhcp.contents.contains("listen-address=192.168.50.1"));
    assert!(nft.contents.contains("dport 53 return"));
    assert!(nft.contents.contains("chain prerouting_nat"));
    assert!(nft
        .contents
        .contains("iifname \"eth1\" udp dport 53 dnat ip to 192.168.50.1:53"));
    assert!(sb.contents.contains("\"dns-in\""));
    assert!(sb.contents.contains("\"proxy-dns\""));
    assert!(sb.contents.contains("\"strategy\": \"ipv4_only\""));
}

#[test]
fn china_direct_off_does_not_pull_geoip() {
    let (mut cfg, secrets) = gateway_config();
    cfg.routing.china_direct = false;
    let plan = build_plan(&cfg, &secrets, &PreflightReport::default()).unwrap();
    let sb = plan
        .files
        .iter()
        .find(|f| f.relative_path.ends_with("sing-box.json"))
        .unwrap();
    assert!(!sb.contents.contains("geoip-cn"));
    assert!(sb.contents.contains("\"final\": \"wg-out\""));
}

#[test]
fn blockers_stop_apply() {
    let (cfg, secrets) = gateway_config();
    let mut report = PreflightReport::default();
    report.conflicts.push(Conflict {
        id: "ufw".into(),
        severity: ConflictSeverity::Blocker,
        resource_id: "ufw".into(),
        title: "UFW".into(),
        detail: "on".into(),
        recommendation: "off".into(),
    });
    let plan = build_plan(&cfg, &secrets, &report).unwrap();
    assert_eq!(plan.status, PlanStatus::Blocked);
    let err = apply_gate(&plan, ApplyReason::UserConfirm, false).unwrap_err();
    assert!(matches!(err, CoreError::Blocked(_)));
}

#[test]
fn singbox_json_parses() {
    let cfg = AppConfig {
        wan: gateway_kit::model::InterfaceConfig {
            interface: "eth0".into(),
            ..Default::default()
        },
        ..Default::default()
    };
    let raw = render_singbox(&cfg);
    let value: serde_json::Value = serde_json::from_str(&raw).expect(&raw);
    assert_eq!(value["route"]["final"], "wg-out");
    assert_eq!(value["outbounds"][0]["bind_interface"], "eth0");
    assert_eq!(value["outbounds"][1]["bind_interface"], "wg0");
    assert_eq!(value["route"]["auto_detect_interface"], false);
    assert_eq!(
        value["experimental"]["cache_file"]["path"],
        "sing-box-cache.db"
    );
    let sets = value["route"]["rule_set"].as_array().expect("rule_set");
    assert!(
        sets.iter()
            .all(|s| s["url"].as_str().unwrap_or("").contains("jsdelivr.net")),
        "{raw}"
    );
    assert!(
        sets.iter()
            .all(|s| !s["url"].as_str().unwrap_or("").contains("githubusercontent")),
        "{raw}"
    );
    assert!(value["route"]["rules"]
        .as_array()
        .unwrap()
        .iter()
        .any(|r| r.get("ip_cidr").is_some()));
}

#[test]
fn singbox_keeps_wan_prefix_when_extra_direct_empty() {
    let cfg = AppConfig {
        routing: gateway_kit::model::RoutingConfig {
            china_direct: false,
            extra_direct_cidrs: vec![],
            ..Default::default()
        },
        ..Default::default()
    };
    let raw = render_singbox(&cfg);
    let value: serde_json::Value = serde_json::from_str(&raw).expect(&raw);
    let rules = value["route"]["rules"].as_array().expect("rules");
    let has_wan = rules.iter().any(|r| {
        r.get("ip_cidr")
            .and_then(|v| v.as_array())
            .is_some_and(|arr| arr.iter().any(|c| c.as_str() == Some("192.168.40.0/24")))
    });
    assert!(has_wan, "{raw}");
    assert_eq!(value["route"]["final"], "wg-out");
}

#[test]
fn singbox_renders_vless_reality_proxy_uri_without_wireguard() {
    let cfg = AppConfig::default();
    let secrets = Secrets {
        proxy_uri: Some("vless://11111111-1111-1111-1111-111111111111@example.com:443?sni=example.org&security=reality&pbk=public-key&sid=short-id&fp=chrome&flow=xtls-rprx-vision".into()),
        ..Secrets::default()
    };
    let raw = render_singbox_with_secrets(&cfg, &secrets).expect("valid proxy URI");
    let value: serde_json::Value = serde_json::from_str(&raw).expect(&raw);
    assert_eq!(value["route"]["final"], "proxy-out");
    assert!(value["inbounds"][0].get("sniff").is_none());
    assert_eq!(value["route"]["rules"][0]["action"], "hijack-dns");
    assert_eq!(value["route"]["rules"][1]["action"], "sniff");
    assert_eq!(value["dns"]["final"], "proxy-dns");
    assert_eq!(value["dns"]["strategy"], "ipv4_only");
    assert_eq!(value["outbounds"][1]["type"], "vless");
    assert_eq!(value["outbounds"][1]["server"], "example.com");
    assert_eq!(
        value["outbounds"][1]["uuid"],
        "11111111-1111-1111-1111-111111111111"
    );
    assert_eq!(
        value["outbounds"][1]["tls"]["reality"]["public_key"],
        "public-key"
    );
    assert_eq!(value["outbounds"][1]["flow"], "xtls-rprx-vision");
    assert!(value["outbounds"][1].get("bind_interface").is_none());
}

#[test]
fn singbox_rejects_malformed_proxy_uri() {
    let cfg = AppConfig::default();
    let secrets = Secrets {
        proxy_uri: Some("https://example.com/not-vless".into()),
        ..Secrets::default()
    };
    assert!(render_singbox_with_secrets(&cfg, &secrets).is_err());
}

#[test]
fn redacted_plan_hides_proxy_credentials() {
    let plan = ChangePlan {
        status: PlanStatus::Ready,
        explanation: String::new(),
        issues: Vec::new(),
        actions: Vec::new(),
        files: vec![RenderedFile {
            relative_path: "sing-box.json".into(),
            contents:
                r#"{"outbounds":[{"uuid":"secret","tls":{"reality":{"public_key":"key"}}}]}"#
                    .into(),
        }],
    };
    let redacted = plan.redacted();
    assert!(!redacted.files[0].contents.contains("secret"));
    assert!(!redacted.files[0].contents.contains(": \"key\""));
    assert!(redacted.files[0].contents.contains("[redacted]"));
}

#[test]
fn nft_ruleset_lists_port_forwards() {
    let mut cfg = AppConfig {
        wan: gateway_kit::model::InterfaceConfig {
            interface: "eth0".into(),
            ..Default::default()
        },
        lan: gateway_kit::model::InterfaceConfig {
            interface: "eth1".into(),
            ..Default::default()
        },
        ..Default::default()
    };
    cfg.port_forwards.push(gateway_kit::model::PortForward {
        enabled: true,
        protocol: "TCP".into(),
        wan_port: 8080,
        lan_ip: "192.168.50.10".into(),
        lan_port: 80,
    });
    let body = render_nftables(&cfg);
    assert!(body.contains(
        "    iifname \"eth0\" ip daddr 0.0.0.0/0 tcp dport 8080 dnat ip to 192.168.50.10:80\n"
    ));
    assert!(body.starts_with("#!/usr/sbin/nft -f\n"));
    assert!(body.ends_with("  }\n}\n"));
}

#[test]
fn tunnel_off_drops_only_the_tunnel_rules() {
    let (on_cfg, _) = gateway_config();
    let mut off_cfg = on_cfg.clone();
    off_cfg.wireguard.enabled = false;
    let on = render_nftables(&on_cfg);
    let off = render_nftables(&off_cfg);
    let wg = on_cfg.wireguard.interface.clone();
    let forward = format!("    iifname \"eth1\" oifname \"{}\" accept\n", wg);
    let masq = format!("    oifname \"{}\" masquerade\n", wg);
    assert!(on.contains(&forward));
    assert!(on.contains(&masq));
    assert!(!off.contains(&forward));
    assert!(!off.contains(&masq));
    assert_eq!(on.replacen(&forward, "", 1).replacen(&masq, "", 1), off);
}

#[test]
fn inactive_forwards_give_no_dnat_line() {
    let (mut cfg, _) = gateway_config();
    let forward = |enabled: bool, wan_port: u16, lan_ip: &str, lan_port: u16| gateway_kit::model::PortForward {
        enabled,
        protocol: "UDP".into(),
        wan_port,
        lan_ip: lan_ip.into(),
        lan_port,
    };
    cfg.port_forwards.push(forward(true, 9000, "192.168.50.20", 9001));
    cfg.port_forwards.push(forward(false, 9100, "192.168.50.21", 9101));
    cfg.port_forwards.push(forward(true, 0, "192.168.50.22", 9201));
    cfg.port_forwards.push(forward(true, 9300, "", 9301));
    cfg.port_forwards.push(forward(true, 9400, "192.168.50.24", 0));
    cfg.port_forwards.push(forward(true, 9500, "192.168.50.25", 9501));
    let body = render_nftables(&cfg);
    let dnat: Vec<&str> = body.lines().filter(|l| l.contains("ip daddr 0.0.0.0/0")).collect();
    assert_eq!(
        dnat,
        vec![
            "    iifname \"eth0\" ip daddr 0.0.0.0/0 udp dport 9000 dnat ip to 192.168.50.20:9001",
            "    iifname \"eth0\" ip daddr 0.0.0.0/0 udp dport 9500 dnat ip to 192.168.50.25:9501",
        ]
    );
}

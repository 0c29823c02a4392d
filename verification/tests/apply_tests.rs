use gateway_kit::apply::{
    apply_gate, apply_message, apply_wireguard, boot_action, disable, disable_gate, disable_step_list,
    health_failure, is_sensitive_file, network_step_list, next_stage, recovery_error, run_steps,
    start_unit_step_list, tproxy_listening_in, tproxy_listening_now, rollback_action, ApplyStage,
    BootAction, PrivateFileWriter, RollbackAction,
};
use gateway_kit::command::{CommandError, CommandOutput, ScriptedRunner};
use gateway_kit::error::CoreError;
use gateway_kit::model::{AppConfig, ApplyReason, ChangePlan, OperatingMode, PlanStatus};
use gateway_kit::paths::Paths;

fn plan_with(status: PlanStatus) -> ChangePlan {
    ChangePlan {
        status,
        explanation: "because".into(),
        issues: vec![],
        actions: vec![],
        files: vec![],
    }
}

fn gateway_config() -> AppConfig {
    let mut cfg = AppConfig::default();
    cfg.mode = OperatingMode::Gateway;
    cfg.wan.interface = "eth0".into();
    cfg.lan.interface = "eth1".into();
    cfg.wireguard.enabled = true;
    cfg.wireguard.address = "10.66.0.2/32".into();
    cfg.wireguard.peer_endpoint = "203.0.113.9:51820".into();
    cfg
}

fn ran(runner: &ScriptedRunner, program: &str, args: &[&str]) -> bool {
    runner
        .calls
        .iter()
        .any(|(p, a)| p == program && a.iter().map(String::as_str).eq(args.iter().copied()))
}

fn any_route_default(runner: &ScriptedRunner) -> bool {
    runner
        .calls
        .iter()
        .any(|(p, a)| p == "ip" && a.windows(2).any(|w| w[0] == "route" && w[1] == "default"))
}

#[derive(Default)]
struct RecordingWriter {
    written: Vec<(String, String)>,
}

impl PrivateFileWriter for RecordingWriter {
    fn write_private(&mut self, path: &str, contents: &str) -> bool {
        self.written.push((path.to_string(), contents.to_string()));
        true
    }
}

#[test]
fn apply_gate_sends_disable_and_rollback_to_their_helpers() {
    let plan = plan_with(PlanStatus::Ready);
    for reason in [ApplyReason::Disable, ApplyReason::Rollback] {
        assert_eq!(
            apply_gate(&plan, reason, true),
            Err(CoreError::Apply("use disable/rollback helpers".into()))
        );
    }
}

#[test]
fn apply_gate_refuses_observe_and_blocked_plans() {
    assert_eq!(
        apply_gate(&plan_with(PlanStatus::ObserveOnly), ApplyReason::UserConfirm, true),
        Err(CoreError::Blocked("observe mode refuses network mutation".into()))
    );
    assert_eq!(
        apply_gate(&plan_with(PlanStatus::Blocked), ApplyReason::BootRestore, true),
        Err(CoreError::Blocked("because".into()))
    );
}

#[test]
fn apply_gate_requires_confirmation() {
    let plan = plan_with(PlanStatus::Ready);
    assert_eq!(
        apply_gate(&plan, ApplyReason::UserConfirm, false),
        Err(CoreError::Blocked(
            "apply requires --confirm or a prior successful generation on boot".into()
        ))
    );
    assert_eq!(apply_gate(&plan, ApplyReason::UserConfirm, true), Ok(()));
    assert_eq!(apply_gate(&plan, ApplyReason::BootRestore, true), Ok(()));
}

#[test]
fn disable_requires_confirmation_and_runs_nothing() {
    assert_eq!(
        disable_gate(false),
        Err(CoreError::Blocked("disable requires --confirm".into()))
    );
    assert_eq!(disable_gate(true), Ok(()));
    let mut runner = ScriptedRunner::succeeding();
    let result = disable(&Paths::workspace(), &gateway_config(), &mut runner, false);
    assert_eq!(
        result,
        Err(CoreError::Blocked("disable requires --confirm".into()))
    );
    assert!(runner.calls.is_empty());
}

#[test]
fn confirmed_disable_removes_table_tunnel_and_units() {
    let mut runner = ScriptedRunner::succeeding();
    let result = disable(&Paths::workspace(), &gateway_config(), &mut runner, true).unwrap();
    assert_eq!(result.generation_id, "disabled");
    assert_eq!(
        result.message,
        "removed gateway_kit nft table and stopped product data-plane units"
    );
    assert!(ran(&runner, "nft", &["delete", "table", "inet", "gateway_kit"]));
    assert!(ran(&runner, "rm", &["-f", "/etc/sysctl.d/99-gateway-kit.conf"]));
    assert!(ran(&runner, "ip", &["rule", "del", "fwmark", "1", "lookup", "51820"]));
    assert!(ran(&runner, "ip", &["route", "flush", "table", "51820"]));
    assert!(ran(&runner, "wg-quick", &["down", "generated/wg0.conf"]));
    assert!(ran(&runner, "systemctl", &["stop", "gateway-kit-singbox"]));
    assert!(ran(&runner, "systemctl", &["stop", "gateway-kit-dnsmasq"]));
    assert!(!runner
        .calls
        .iter()
        .any(|(p, a)| p == "systemctl" && a.iter().any(|x| x == "disable")));
}

#[test]
fn network_steps_replace_interface_addresses_not_main_default() {
    let cfg = gateway_config();
    let steps = network_step_list(&cfg, "generated", false);
    let mut runner = ScriptedRunner::succeeding();
    assert_eq!(run_steps(&mut runner, &steps), Ok(()));
    assert!(ran(&runner, "ip", &["addr", "replace", "192.168.50.1/24", "dev", "eth1"]));
    assert!(ran(&runner, "ip", &["addr", "replace", "192.168.40.2/24", "dev", "eth0"]));
    assert!(ran(&runner, "ip", &["route", "replace", "192.168.40.1/32", "dev", "eth0"]));
    assert!(ran(&runner, "nft", &["-f", "generated/nftables.conf"]));
    assert!(ran(&runner, "ip", &["rule", "add", "fwmark", "1", "lookup", "51820"]));
    assert!(ran(
        &runner,
        "ip",
        &["route", "replace", "local", "0.0.0.0/0", "dev", "lo", "table", "51820"]
    ));
    assert!(!any_route_default(&runner));
    assert!(!runner.calls.iter().any(|(p, _)| p == "install"));
}

#[test]
fn generated_sysctl_dropin_is_installed() {
    let steps = network_step_list(&gateway_config(), "/etc/gateway-kit/generated", true);
    let mut runner = ScriptedRunner::succeeding();
    assert_eq!(run_steps(&mut runner, &steps), Ok(()));
    assert!(ran(
        &runner,
        "install",
        &[
            "-D",
            "-m",
            "644",
            "/etc/gateway-kit/generated/sysctl.d/99-gateway-kit.conf",
            "/etc/sysctl.d/99-gateway-kit.conf"
        ]
    ));
}

#[test]
fn missing_required_program_stops_the_steps() {
    let steps = network_step_list(&gateway_config(), "generated", false);
    let mut runner = ScriptedRunner::default();
    assert_eq!(
        run_steps(&mut runner, &steps),
        Err(CoreError::Apply("command unavailable: ip".into()))
    );
    assert_eq!(runner.calls.len(), 1);
}

#[test]
fn failing_required_step_reports_its_stderr() {
    let mut cfg = gateway_config();
    cfg.lan.address = None;
    cfg.wan.address = None;
    cfg.wan.gateway = None;
    let steps = network_step_list(&cfg, "generated", false);
    let mut runner = ScriptedRunner::succeeding();
    runner.push_ok("nft", "");
    runner.replies.push((
        "nft".into(),
        Ok(CommandOutput {
            status: Some(1),
            stdout: String::new(),
            stderr: "syntax error".into(),
        }),
    ));
    assert_eq!(
        run_steps(&mut runner, &steps),
        Err(CoreError::Apply("nft failed: syntax error".into()))
    );
    assert_eq!(runner.calls.len(), 2);
}

#[test]
fn wireguard_routes_skip_default_routes() {
    let mut cfg = gateway_config();
    cfg.wireguard.peer_allowed_ips = "10.66.0.1/32,0.0.0.0/0".into();
    let mut runner = ScriptedRunner::succeeding();
    let mut writer = RecordingWriter::default();
    assert_eq!(apply_wireguard(&mut runner, &mut writer, &cfg, "generated"), Ok(()));
    assert!(ran(&runner, "ip", &["route", "replace", "10.66.0.1/32", "dev", "wg0"]));
    assert!(!ran(&runner, "ip", &["route", "replace", "0.0.0.0/0", "dev", "wg0"]));
    assert!(!any_route_default(&runner));
    // Nothing to sync from `wg-quick strip`: the tunnel is restarted.
    assert!(ran(&runner, "wg-quick", &["down", "generated/wg0.conf"]));
    assert!(ran(&runner, "wg-quick", &["up", "generated/wg0.conf"]));
    assert!(writer.written.is_empty());
}

#[test]
fn wireguard_sync_uses_the_stripped_file() {
    let cfg = gateway_config();
    let mut runner = ScriptedRunner::succeeding();
    runner.push_ok("wg-quick", "[Interface]\nPrivateKey = k\n");
    let mut writer = RecordingWriter::default();
    assert_eq!(apply_wireguard(&mut runner, &mut writer, &cfg, "generated"), Ok(()));
    assert_eq!(
        writer.written,
        vec![(
            "generated/wg0.sync.conf".to_string(),
            "[Interface]\nPrivateKey = k\n".to_string()
        )]
    );
    assert!(ran(&runner, "wg", &["syncconf", "wg0", "generated/wg0.sync.conf"]));
    assert!(!runner
        .calls
        .iter()
        .any(|(p, a)| p == "wg" && a.iter().any(|x| x.ends_with("wg0.conf"))));
    assert!(!ran(&runner, "wg-quick", &["up", "generated/wg0.conf"]));
}

#[test]
fn wireguard_failure_is_an_apply_error() {
    let cfg = gateway_config();
    let mut runner = ScriptedRunner::default();
    let mut writer = RecordingWriter::default();
    assert_eq!(
        apply_wireguard(&mut runner, &mut writer, &cfg, "generated"),
        Err(CoreError::Apply("command unavailable: wg-quick".into()))
    );
}

#[test]
fn workspace_apply_does_not_enable_host_units() {
    let cfg = gateway_config();
    let steps = start_unit_step_list(&cfg, false);
    let mut runner = ScriptedRunner::succeeding();
    assert_eq!(run_steps(&mut runner, &steps), Ok(()));
    assert!(ran(&runner, "systemctl", &["restart", "gateway-kit-singbox"]));
    assert!(ran(&runner, "systemctl", &["restart", "gateway-kit-dnsmasq"]));
    assert!(!runner
        .calls
        .iter()
        .any(|(p, a)| p == "systemctl" && a.iter().any(|x| x == "enable")));

    let host = start_unit_step_list(&cfg, true);
    let mut runner = ScriptedRunner::succeeding();
    assert_eq!(run_steps(&mut runner, &host), Ok(()));
    assert!(ran(&runner, "systemctl", &["enable", "gateway-kit-forwarding"]));
    assert!(ran(&runner, "systemctl", &["enable", "gateway-kit-dnsmasq"]));
}

#[test]
fn apply_stages_in_order_and_failures_bypass() {
    let mut stage = ApplyStage::Gate;
    let mut seen = vec![stage];
    while stage != ApplyStage::Done {
        stage = next_stage(stage, true, true, true);
        seen.push(stage);
    }
    assert_eq!(
        seen,
        vec![
            ApplyStage::Gate,
            ApplyStage::Prepare,
            ApplyStage::WriteFiles,
            ApplyStage::Network,
            ApplyStage::Tunnel,
            ApplyStage::Units,
            ApplyStage::WaitTproxy,
            ApplyStage::Health,
            ApplyStage::Commit,
            ApplyStage::Done
        ]
    );
    assert_eq!(next_stage(ApplyStage::Gate, false, true, true), ApplyStage::Done);
    assert_eq!(next_stage(ApplyStage::Network, true, false, false), ApplyStage::Units);
    assert_eq!(next_stage(ApplyStage::Units, true, false, false), ApplyStage::Health);
    assert_eq!(next_stage(ApplyStage::Prepare, false, true, true), ApplyStage::Done);
    for failed in [ApplyStage::WriteFiles, ApplyStage::Network, ApplyStage::Tunnel, ApplyStage::Units, ApplyStage::WaitTproxy, ApplyStage::Health, ApplyStage::Commit] {
        assert_eq!(next_stage(failed, false, true, true), ApplyStage::Bypass);
    }
    assert_eq!(next_stage(ApplyStage::Bypass, false, true, true), ApplyStage::Done);
}

#[test]
fn private_generated_files() {
    assert!(is_sensitive_file("sing-box.json", "{}"));
    assert!(is_sensitive_file("wg0.conf", "[Interface]\nPrivateKey = k"));
    assert!(!is_sensitive_file("wg0.conf", "[Interface]"));
    assert!(!is_sensitive_file("dnsmasq.d/gateway-kit.conf", "interface=eth1"));
}

#[test]
fn apply_messages() {
    assert_eq!(apply_message(ApplyReason::UserConfirm), "applied (UserConfirm)");
    assert_eq!(apply_message(ApplyReason::BootRestore), "applied (BootRestore)");
    assert_eq!(
        health_failure(&vec!["a".to_string(), "b".to_string()]),
        CoreError::Apply("health failed: a; b".into())
    );
    assert_eq!(
        health_failure(&vec!["a".to_string()]).to_message(),
        "apply failed: health failed: a"
    );
}

#[test]
fn tproxy_port_detection() {
    let listening = Ok(CommandOutput {
        status: Some(0),
        stdout: "tcp LISTEN 0 4096 127.0.0.1:7895 0.0.0.0:*".into(),
        stderr: String::new(),
    });
    assert!(tproxy_listening_in(&listening));
    let other = Ok(CommandOutput {
        status: Some(0),
        stdout: "tcp LISTEN 0 4096 127.0.0.1:22".into(),
        stderr: String::new(),
    });
    assert!(!tproxy_listening_in(&other));
    let failed = Ok(CommandOutput {
        status: Some(1),
        stdout: ":7895".into(),
        stderr: String::new(),
    });
    assert!(!tproxy_listening_in(&failed));
    assert!(!tproxy_listening_in(&Err(CommandError::Unavailable("ss".into()))));
    let mut runner = ScriptedRunner::succeeding();
    assert!(tproxy_listening_now(&mut runner));
    assert!(ran(&runner, "ss", &["-lntu"]));
}

#[test]
fn boot_bypasses_interrupted_apply_and_replays_only_gateways() {
    assert_eq!(boot_action(true, true, true), BootAction::Bypass);
    assert_eq!(boot_action(true, false, false), BootAction::Bypass);
    assert_eq!(boot_action(false, true, true), BootAction::Replay);
    assert_eq!(boot_action(false, false, true), BootAction::Stay);
    assert_eq!(boot_action(false, true, false), BootAction::Stay);
    assert_eq!(
        recovery_error("g1-2"),
        CoreError::Apply("recovered interrupted apply g1-2; dataplane is in bypass".into())
    );
}

#[test]
fn rollback_replays_or_bypasses() {
    assert_eq!(rollback_action(true), RollbackAction::Replay);
    assert_eq!(rollback_action(false), RollbackAction::Bypass);
}

#[test]
fn disable_hands_the_runner_exactly_the_bypass_commands() {
    let mut runner = ScriptedRunner::succeeding();
    let cfg = gateway_config();
    disable(&Paths::workspace(), &cfg, &mut runner, true).unwrap();
    let expected: Vec<(String, Vec<String>)> = disable_step_list(&cfg, "generated", false)
        .into_iter()
        .map(|s| (s.program, s.args))
        .collect();
    assert_eq!(runner.calls, expected);
    assert_eq!(runner.calls[0].0, "nft");
}

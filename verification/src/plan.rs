//! The change plan: what applying a configuration would write and run,
//! built without touching the host.

use vstd::prelude::*;

use crate::config::spec_validate;
use crate::error::CoreError;
use crate::model::{
    spec_has_blockers, ActionKind, AppConfig, ChangePlan, ChangePlanView, Conflict, ConflictPolicy,
    ConflictSeverity, OperatingMode, PlanAction, PlanActionView, PlanStatus, PreflightReport,
    RenderedFile, RenderedFileView, Secrets, ValidationIssueView,
};
use crate::render::{
    forwarding_env_text, render_dnsmasq, render_forwarding_env, render_nftables, render_sysctl,
    render_wg_quick, spec_render_dnsmasq, spec_render_nftables, spec_render_wg_quick, SYSCTL_CONF,
};
use crate::singbox::{render_singbox_with_secrets, spec_render_singbox_with_secrets};
use crate::text::{decimal, from_chars, push_decimal, push_str};

verus! {

pub open spec fn observe_explanation() -> Seq<char> {
    "observe mode: no nft, routing, NAT, or tunnel changes"@
}

/// The titles of the blocking conflicts, in order.
pub open spec fn blocker_titles(cs: Seq<Conflict>) -> Seq<Seq<char>>
    decreases cs.len(),
{
    if cs.len() == 0 {
        seq![]
    } else if cs.last().severity == ConflictSeverity::Blocker {
        blocker_titles(cs.drop_last()).push(cs.last().title@)
    } else {
        blocker_titles(cs.drop_last())
    }
}

/// The texts joined by `, `.
pub open spec fn comma_join(v: Seq<Seq<char>>) -> Seq<char>
    decreases v.len(),
{
    if v.len() == 0 {
        Seq::empty()
    } else if v.len() == 1 {
        v[0]
    } else {
        comma_join(v.drop_last()) + ", "@ + v.last()
    }
}

pub open spec fn file_view(path: Seq<char>, contents: Seq<char>) -> RenderedFileView {
    RenderedFileView { relative_path: path, contents }
}

pub open spec fn action_view(id: Seq<char>, kind: ActionKind, summary: Seq<char>) -> PlanActionView {
    PlanActionView { id, kind, summary }
}

/// The files a ready plan writes: the ruleset, sysctl, sing-box and the
/// forwarding environment, then the tunnel's wg-quick file when WireGuard is
/// on, then dnsmasq when DHCP is on.
pub open spec fn ready_files(cfg: AppConfig, secrets: Secrets, singbox: Seq<char>) -> Seq<
    RenderedFileView,
> {
    let base = seq![
        file_view("nftables.conf"@, spec_render_nftables(cfg)),
        file_view("sysctl.d/99-gateway-kit.conf"@, SYSCTL_CONF@),
        file_view("sing-box.json"@, singbox),
        file_view(
            "forwarding.env"@,
            forwarding_env_text(cfg.lan.interface@, cfg.wan.interface@),
        ),
    ];
    let with_wg = if cfg.wireguard.enabled {
        base.push(
            file_view(cfg.wireguard.interface@ + ".conf"@, spec_render_wg_quick(cfg, secrets)),
        )
    } else {
        base
    };
    if cfg.dhcp.enabled {
        with_wg.push(file_view("dnsmasq.gateway-kit.conf"@, spec_render_dnsmasq(cfg)))
    } else {
        with_wg
    }
}

/// The overseas transport named in summaries.
pub open spec fn transport_name(cfg: AppConfig) -> Seq<char> {
    if cfg.wireguard.enabled {
        "WireGuard wg-out"@
    } else {
        "VLESS proxy-out"@
    }
}

/// The steps of a ready plan.
pub open spec fn ready_actions(cfg: AppConfig, file_count: nat) -> Seq<PlanActionView> {
    let transport_action = if cfg.wireguard.enabled {
        action_view(
            "wg-sync"@,
            ActionKind::WgSync,
            "sync WireGuard interface without replacing the main routing table"@,
        )
    } else {
        action_view(
            "proxy-uri"@,
            ActionKind::Systemctl,
            "start sing-box with the VLESS proxy_uri outbound"@,
        )
    };
    seq![
        action_view(
            "write-generated"@,
            ActionKind::WriteFile,
            "write "@ + decimal(file_count) + " generated file(s)"@,
        ),
        action_view(
            "iface-addr"@,
            ActionKind::IpRule,
            "ip addr replace on named LAN/WAN (does not add a main-table default route)"@,
        ),
        action_view(
            "sysctl-forward"@,
            ActionKind::Sysctl,
            "install /etc/sysctl.d/99-gateway-kit.conf and apply forwarding"@,
        ),
        action_view(
            "nft-apply"@,
            ActionKind::NftApply,
            "load table inet gateway_kit (does not rewrite host default route)"@,
        ),
        action_view(
            "docker-forwarding"@,
            ActionKind::Systemctl,
            "install tagged LAN/WAN forwarding compatibility rules without flushing Docker chains"@,
        ),
        action_view(
            "policy-route"@,
            ActionKind::IpRule,
            "ensure ip rule to table "@ + decimal(cfg.routing.policy_table_id as nat)
                + " for marked tunnel traffic"@,
        ),
        transport_action,
        action_view(
            "sing-box"@,
            ActionKind::Systemctl,
            "start sing-box with generated config (china direct / else "@ + transport_name(cfg)
                + ")"@,
        ),
    ]
}

/// The plan for a valid configuration, given its issues.
pub open spec fn plan_for(
    cfg: AppConfig,
    secrets: Secrets,
    conflicts: Seq<Conflict>,
    issues: Seq<ValidationIssueView>,
) -> Result<ChangePlanView, Seq<char>> {
    if cfg.mode == OperatingMode::Observe {
        Ok(
            ChangePlanView {
                status: PlanStatus::ObserveOnly,
                explanation: observe_explanation(),
                issues,
                actions: seq![],
                files: seq![],
            },
        )
    } else if spec_has_blockers(conflicts) && cfg.environment.conflict_policy
        == ConflictPolicy::Block {
        Ok(
            ChangePlanView {
                status: PlanStatus::Blocked,
                explanation: "blocked by: "@ + comma_join(blocker_titles(conflicts)),
                issues,
                actions: seq![],
                files: seq![],
            },
        )
    } else {
        match spec_render_singbox_with_secrets(cfg, secrets) {
            Err(m) => Err(m),
            Ok(sb) => {
                let files = ready_files(cfg, secrets, sb);
                Ok(
                    ChangePlanView {
                        status: PlanStatus::Ready,
                        explanation: "LAN DNS is hijacked to sing-box; private/China traffic is direct via WAN, other traffic uses "@
                            + transport_name(cfg) + "; host SSH/UI bypass tproxy"@,
                        issues,
                        actions: ready_actions(cfg, files.len()),
                        files,
                    },
                )
            },
        }
    }
}

/// Only a gateway-mode configuration without unacknowledged blockers gets a
/// ready plan, and only a ready plan writes files or runs actions.
pub proof fn lemma_only_ready_plans_change_the_host(
    cfg: AppConfig,
    secrets: Secrets,
    conflicts: Seq<Conflict>,
    issues: Seq<ValidationIssueView>,
)
    ensures
        plan_for(cfg, secrets, conflicts, issues) matches Ok(p) ==> {
            &&& (p.status == PlanStatus::Ready <==> (cfg.mode == OperatingMode::Gateway && !(
            spec_has_blockers(conflicts) && cfg.environment.conflict_policy == ConflictPolicy::Block)))
            &&& (p.status != PlanStatus::Ready ==> p.actions.len() == 0 && p.files.len() == 0)
        },
{
}

fn action(id: &str, kind: ActionKind, summary: String) -> (r: PlanAction)
    ensures
        r@ == action_view(id@, kind, summary@),
{
    PlanAction { id: id.to_owned(), kind, summary }
}

fn file(path: String, contents: String) -> (r: RenderedFile)
    ensures
        r@ == file_view(path@, contents@),
{
    RenderedFile { relative_path: path, contents }
}

fn blocked_explanation(conflicts: &Vec<Conflict>) -> (r: String)
    ensures
        r@ == "blocked by: "@ + comma_join(blocker_titles(conflicts@)),
{
    let mut out: Vec<char> = Vec::new();
    push_str(&mut out, "blocked by: ");
    let ghost head = out@;
    let mut count: usize = 0;
    let n = conflicts.len();
    assert(conflicts@.take(0) =~= Seq::<Conflict>::empty());
    for i in 0..n
        invariant
            n == conflicts@.len(),
            head == "blocked by: "@,
            count == blocker_titles(conflicts@.take(i as int)).len(),
            out@ == head + comma_join(blocker_titles(conflicts@.take(i as int))),
            count <= i,
    {
        let ghost t = conflicts@.take((i + 1) as int);
        assert(t.drop_last() =~= conflicts@.take(i as int));
        if conflicts[i].severity == ConflictSeverity::Blocker {
            let ghost prev = blocker_titles(conflicts@.take(i as int));
            if count > 0 {
                push_str(&mut out, ", ");
            }
            push_str(&mut out, conflicts[i].title.as_str());
            proof {
                let titles = blocker_titles(t);
                assert(titles == prev.push(conflicts@[i as int].title@));
                assert(titles.drop_last() =~= prev);
                if prev.len() == 0 {
                    assert(comma_join(titles) == titles[0]);
                }
            }
            assert(out@ =~= head + comma_join(blocker_titles(t)));
            count = count + 1;
        }
    }
    assert(conflicts@.take(n as int) =~= conflicts@);
    from_chars(out.as_slice())
}

fn summary_with_number(a: &str, n: u64, b: &str) -> (r: String)
    ensures
        r@ == a@ + decimal(n as nat) + b@,
{
    let mut out: Vec<char> = Vec::new();
    push_str(&mut out, a);
    push_decimal(&mut out, n);
    push_str(&mut out, b);
    from_chars(out.as_slice())
}

fn summary_with_text(a: &str, t: &str, b: &str) -> (r: String)
    ensures
        r@ == a@ + t@ + b@,
{
    let mut out: Vec<char> = Vec::new();
    push_str(&mut out, a);
    push_str(&mut out, t);
    push_str(&mut out, b);
    from_chars(out.as_slice())
}

/// Builds the change plan of a configuration against a preflight report.
pub fn build_plan(config: &AppConfig, secrets: &Secrets, report: &PreflightReport) -> (r: Result<
    ChangePlan,
    CoreError,
>)
    ensures
        match spec_validate(*config, *secrets) {
            Err(m) => r matches Err(CoreError::Validate(e)) && e.message() == m,
            Ok(issues) => match plan_for(*config, *secrets, report.conflicts@, issues) {
                Ok(p) => r matches Ok(plan) && plan@ == p,
                Err(m) => r matches Err(CoreError::ConfigParse(t)) && t@ == m,
            },
        },
        config.mode == OperatingMode::Observe ==> (r matches Ok(plan) ==> plan.status
            == PlanStatus::ObserveOnly && plan.actions@.len() == 0 && plan.files@.len() == 0),
{
    let issues = match config.validate(secrets) {
        Ok(v) => v,
        Err(e) => {
            return Err(CoreError::Validate(e));
        },
    };
    if config.mode == OperatingMode::Observe {
        let p = ChangePlan {
            status: PlanStatus::ObserveOnly,
            explanation: "observe mode: no nft, routing, NAT, or tunnel changes".to_owned(),
            issues,
            actions: Vec::new(),
            files: Vec::new(),
        };
        assert(p@.actions =~= Seq::<PlanActionView>::empty());
        assert(p@.files =~= Seq::<RenderedFileView>::empty());
        return Ok(p);
    }
    if report.has_blockers() && config.environment.conflict_policy == ConflictPolicy::Block {
        let p = ChangePlan {
            status: PlanStatus::Blocked,
            explanation: blocked_explanation(&report.conflicts),
            issues,
            actions: Vec::new(),
            files: Vec::new(),
        };
        assert(p@.actions =~= Seq::<PlanActionView>::empty());
        assert(p@.files =~= Seq::<RenderedFileView>::empty());
        return Ok(p);
    }
    let singbox = match render_singbox_with_secrets(config, secrets) {
        Ok(s) => s,
        Err(e) => {
            return Err(e);
        },
    };
    let files = ready_files_exec(config, secrets, singbox);
    let actions = ready_actions_exec(config, files.len());
    let transport: &str = if config.wireguard.enabled {
        "WireGuard wg-out"
    } else {
        "VLESS proxy-out"
    };
    let explanation = summary_with_text(
        "LAN DNS is hijacked to sing-box; private/China traffic is direct via WAN, other traffic uses ",
        transport,
        "; host SSH/UI bypass tproxy",
    );
    Ok(ChangePlan { status: PlanStatus::Ready, explanation, issues, actions, files })
}

fn ready_files_exec(config: &AppConfig, secrets: &Secrets, singbox: String) -> (r: Vec<RenderedFile>)
    ensures
        r@.map_values(|f: RenderedFile| f@) == ready_files(*config, *secrets, singbox@),
{
    let ghost sb = singbox@;
    let mut files: Vec<RenderedFile> = Vec::new();
    files.push(file("nftables.conf".to_owned(), render_nftables(config)));
    files.push(file("sysctl.d/99-gateway-kit.conf".to_owned(), render_sysctl().to_owned()));
    files.push(file("sing-box.json".to_owned(), singbox));
    files.push(file("forwarding.env".to_owned(), render_forwarding_env(config)));
    let ghost base = files@.map_values(|f: RenderedFile| f@);
    if config.wireguard.enabled {
        let path = summary_with_text("", config.wireguard.interface.as_str(), ".conf");
        assert(path@ =~= config.wireguard.interface@ + ".conf"@) by {
            reveal_strlit("");
        }
        files.push(file(path, render_wg_quick(config, secrets)));
    }
    let ghost with_wg = files@.map_values(|f: RenderedFile| f@);
    if config.dhcp.enabled {
        files.push(file("dnsmasq.gateway-kit.conf".to_owned(), render_dnsmasq(config)));
    }
    assert(files@.map_values(|f: RenderedFile| f@) =~= ready_files(*config, *secrets, sb));
    files
}

fn ready_actions_exec(config: &AppConfig, file_count: usize) -> (r: Vec<PlanAction>)
    ensures
        r@.map_values(|a: PlanAction| a@) == ready_actions(*config, file_count as nat),
{
    let transport: &str = if config.wireguard.enabled {
        "WireGuard wg-out"
    } else {
        "VLESS proxy-out"
    };
    let transport_action = if config.wireguard.enabled {
        action(
            "wg-sync",
            ActionKind::WgSync,
            "sync WireGuard interface without replacing the main routing table".to_owned(),
        )
    } else {
        action(
            "proxy-uri",
            ActionKind::Systemctl,
            "start sing-box with the VLESS proxy_uri outbound".to_owned(),
        )
    };
    let mut actions: Vec<PlanAction> = Vec::new();
    actions.push(
        action(
            "write-generated",
            ActionKind::WriteFile,
            summary_with_number("write ", file_count as u64, " generated file(s)"),
        ),
    );
    actions.push(
        action(
            "iface-addr",
            ActionKind::IpRule,
            "ip addr replace on named LAN/WAN (does not add a main-table default route)".to_owned(),
        ),
    );
    actions.push(
        action(
            "sysctl-forward",
            ActionKind::Sysctl,
            "install /etc/sysctl.d/99-gateway-kit.conf and apply forwarding".to_owned(),
        ),
    );
    actions.push(
        action(
            "nft-apply",
            ActionKind::NftApply,
            "load table inet gateway_kit (does not rewrite host default route)".to_owned(),
        ),
    );
    actions.push(
        action(
            "docker-forwarding",
            ActionKind::Systemctl,
            "install tagged LAN/WAN forwarding compatibility rules without flushing Docker chains".to_owned(),
        ),
    );
    actions.push(
        action(
            "policy-route",
            ActionKind::IpRule,
            summary_with_number(
                "ensure ip rule to table ",
                config.routing.policy_table_id as u64,
                " for marked tunnel traffic",
            ),
        ),
    );
    actions.push(transport_action);
    actions.push(
        action(
            "sing-box",
            ActionKind::Systemctl,
            summary_with_text("start sing-box with generated config (china direct / else ", transport, ")"),
        ),
    );
    assert(actions@.map_values(|a: PlanAction| a@) =~= ready_actions(*config, file_count as nat));
    actions
}

} // verus!

//! Applying a plan to the host, and leaving it again: the gates that refuse
//! a change, and the host commands a change runs.

use vstd::prelude::*;

use crate::command::{args_view, CommandError, CommandOutput, CommandRunner};
use crate::error::CoreError;
use crate::model::{
    strs_view, AppConfig, ApplyReason, ChangePlan, PlanStatus, TPROXY_MARK, TPROXY_PORT,
};
use crate::paths::{join, join_path};
use crate::text::{
    join_with, contains, contains_str, decimal, decimal_chars, ends_with, ends_with_str, eq_str,
    from_chars, push_decimal, push_str, split_char, split_chars, to_chars, trim, trim_chars,
};

verus! {

/// The sysctl drop-in the gateway installs.
pub const SYSCTL_DROPIN: &'static str = "/etc/sysctl.d/99-gateway-kit.conf";

#[derive(Debug, Clone, PartialEq, Eq)]
pub struct ApplyResult {
    pub generation_id: String,
    pub message: String,
}

// ---------------------------------------------------------------------------
// Gates
// ---------------------------------------------------------------------------

/// Whether an apply may go ahead: only for a user confirmation or a boot
/// restore, only for a ready plan, and only when execution is confirmed.
pub open spec fn apply_allowed(status: PlanStatus, reason: ApplyReason, execute: bool) -> bool {
    (reason == ApplyReason::UserConfirm || reason == ApplyReason::BootRestore) && status
        == PlanStatus::Ready && execute
}

/// Refuses what `apply_plan` refuses, with its error.
pub fn apply_gate(plan: &ChangePlan, reason: ApplyReason, execute: bool) -> (r: Result<(), CoreError>)
    ensures
        r is Ok <==> apply_allowed(plan.status, reason, execute),
        (reason == ApplyReason::Disable || reason == ApplyReason::Rollback) ==> (r matches Err(
            CoreError::Apply(m),
        ) && m@ == "use disable/rollback helpers"@),
        (reason == ApplyReason::UserConfirm || reason == ApplyReason::BootRestore) ==> {
            &&& plan.status == PlanStatus::ObserveOnly ==> (r matches Err(CoreError::Blocked(m))
                && m@ == "observe mode refuses network mutation"@)
            &&& plan.status == PlanStatus::Blocked ==> (r matches Err(CoreError::Blocked(m)) && m@
                == plan.explanation@)
            &&& plan.status == PlanStatus::Ready && !execute ==> (r matches Err(CoreError::Blocked(m))
                && m@ == "apply requires --confirm or a prior successful generation on boot"@)
        },
{
    match reason {
        ApplyReason::UserConfirm | ApplyReason::BootRestore => {},
        ApplyReason::Disable | ApplyReason::Rollback => {
            return Err(CoreError::Apply("use disable/rollback helpers".to_owned()));
        },
    }
    if plan.status == PlanStatus::ObserveOnly {
        return Err(CoreError::Blocked("observe mode refuses network mutation".to_owned()));
    }
    if plan.status == PlanStatus::Blocked {
        return Err(CoreError::Blocked(plan.explanation.clone()));
    }
    if !execute {
        return Err(
            CoreError::Blocked(
                "apply requires --confirm or a prior successful generation on boot".to_owned(),
            ),
        );
    }
    Ok(())
}

/// Refuses a disable that is not confirmed.
pub fn disable_gate(execute: bool) -> (r: Result<(), CoreError>)
    ensures
        r is Ok <==> execute,
        !execute ==> (r matches Err(CoreError::Blocked(m)) && m@ == "disable requires --confirm"@),
{
    if !execute {
        return Err(CoreError::Blocked("disable requires --confirm".to_owned()));
    }
    Ok(())
}

/// A generated file that must be readable by root only: the sing-box
/// configuration, or a `.conf` holding a private key.
pub open spec fn sensitive_file(path: Seq<char>, contents: Seq<char>) -> bool {
    ends_with(path, "sing-box.json"@) || (ends_with(path, ".conf"@) && contains(
        contents,
        "PrivateKey"@,
    ))
}

pub fn is_sensitive_file(path: &str, contents: &str) -> (r: bool)
    ensures
        r == sensitive_file(path@, contents@),
{
    let p = to_chars(path);
    ends_with_str(p.as_slice(), "sing-box.json") || (ends_with_str(p.as_slice(), ".conf")
        && contains_str(to_chars(contents).as_slice(), "PrivateKey"))
}

/// The name of an apply reason, as it appears in messages.
pub open spec fn reason_name(reason: ApplyReason) -> Seq<char> {
    match reason {
        ApplyReason::UserConfirm => "UserConfirm"@,
        ApplyReason::BootRestore => "BootRestore"@,
        ApplyReason::Disable => "Disable"@,
        ApplyReason::Rollback => "Rollback"@,
    }
}

/// The message of a successful apply.
pub fn apply_message(reason: ApplyReason) -> (r: String)
    ensures
        r@ == "applied ("@ + reason_name(reason) + ")"@,
{
    let mut m = to_chars("applied (");
    match reason {
        ApplyReason::UserConfirm => push_str(&mut m, "UserConfirm"),
        ApplyReason::BootRestore => push_str(&mut m, "BootRestore"),
        ApplyReason::Disable => push_str(&mut m, "Disable"),
        ApplyReason::Rollback => push_str(&mut m, "Rollback"),
    }
    push_str(&mut m, ")");
    from_chars(m.as_slice())
}

/// The error of an apply whose health check failed.
pub fn health_failure(failed: &Vec<String>) -> (r: CoreError)
    ensures
        r matches CoreError::Apply(m) && m@ == "health failed: "@ + join_with(strs_view(failed@), "; "@),
{
    let mut m = to_chars("health failed: ");
    let ghost head = m@;
    let n = failed.len();
    assert(strs_view(failed@).take(0) =~= Seq::<Seq<char>>::empty());
    for i in 0..n
        invariant
            n == failed@.len(),
            head == "health failed: "@,
            m@ == head + join_with(strs_view(failed@).take(i as int), "; "@),
    {
        let ghost t = strs_view(failed@).take((i + 1) as int);
        assert(t.drop_last() =~= strs_view(failed@).take(i as int));
        if i > 0 {
            push_str(&mut m, "; ");
        }
        push_str(&mut m, failed[i].as_str());
        assert(m@ =~= head + join_with(t, "; "@));
    }
    assert(strs_view(failed@).take(n as int) =~= strs_view(failed@));
    CoreError::Apply(from_chars(m.as_slice()))
}

// ---------------------------------------------------------------------------
// Steps
// ---------------------------------------------------------------------------

/// A host command of an apply; a required one stops the apply when it fails.
#[derive(Debug, Clone, PartialEq, Eq)]
pub struct Step {
    pub program: String,
    pub args: Vec<String>,
    pub required: bool,
}

pub struct StepView {
    pub program: Seq<char>,
    pub args: Seq<Seq<char>>,
    pub required: bool,
}

impl View for Step {
    type V = StepView;

    open spec fn view(&self) -> StepView {
        StepView { program: self.program@, args: strs_view(self.args@), required: self.required }
    }
}

pub open spec fn steps_view(v: Seq<Step>) -> Seq<StepView> {
    v.map_values(|s: Step| s@)
}

pub open spec fn step_view(program: Seq<char>, args: Seq<Seq<char>>, required: bool) -> StepView {
    StepView { program, args, required }
}

/// The calls a list of steps makes: each step's program and arguments.
pub open spec fn step_calls(steps: Seq<StepView>) -> Seq<(Seq<char>, Seq<Seq<char>>)> {
    steps.map_values(|s: StepView| (s.program, s.args))
}

/// Why a required command counts as failed: a non-zero (or missing) exit
/// status, or that it could not run.
pub open spec fn required_failure(program: Seq<char>, o: Result<CommandOutput, CommandError>) -> Option<
    Seq<char>,
> {
    match o {
        Ok(out) => if (match out.status {
            Some(c) => c as int,
            None => 1,
        }) == 0 {
            None
        } else {
            Some(program + " failed: "@ + out.stderr@)
        },
        Err(e) => Some(e.message()),
    }
}

/// The result of running steps, given the outcomes of those run: the first
/// failure of a required step, or success.
pub open spec fn steps_result(steps: Seq<StepView>, o: Seq<Result<CommandOutput, CommandError>>) -> Result<
    (),
    Seq<char>,
>
    decreases o.len(),
{
    if steps.len() == 0 || o.len() == 0 {
        Ok(())
    } else if steps[0].required && required_failure(steps[0].program, o[0]) is Some {
        Err(required_failure(steps[0].program, o[0]).unwrap())
    } else {
        steps_result(steps.drop_first(), o.drop_first())
    }
}

/// The outcomes are those of a complete run: every step ran, or the run
/// stopped at the first failing required step.
pub open spec fn complete_run(steps: Seq<StepView>, o: Seq<Result<CommandOutput, CommandError>>) -> bool {
    o.len() <= steps.len() && (o.len() == steps.len() || steps_result(steps, o) is Err)
}

fn required_check(program: &str, o: &Result<CommandOutput, CommandError>) -> (r: Option<String>)
    ensures
        match r {
            Some(m) => required_failure(program@, *o) == Some(m@),
            None => required_failure(program@, *o) is None,
        },
{
    match o {
        Ok(out) => {
            let code: i32 = match out.status {
                Some(c) => c,
                None => 1,
            };
            if code == 0 {
                None
            } else {
                let mut m = to_chars(program);
                push_str(&mut m, " failed: ");
                push_str(&mut m, out.stderr.as_str());
                Some(from_chars(m.as_slice()))
            }
        },
        Err(e) => Some(e.to_message()),
    }
}

fn run_one<R: CommandRunner>(runner: &mut R, step: &Step) -> (r: Result<CommandOutput, CommandError>)
    ensures
        R::records_calls() ==> final(runner).calls() == old(runner).calls().push(
            (step@.program, step@.args),
        ),
{
    let mut argv: Vec<&str> = Vec::new();
    let n = step.args.len();
    for i in 0..n
        invariant
            n == step.args@.len(),
            args_view(argv@) == strs_view(step.args@.take(i as int)),
    {
        let ghost before = argv@;
        argv.push(step.args[i].as_str());
        assert(args_view(argv@) =~= args_view(before).push(step.args@[i as int]@));
        assert(strs_view(step.args@.take((i + 1) as int)) =~= strs_view(step.args@.take(i as int)).push(
            step.args@[i as int]@,
        ));
    }
    assert(step.args@.take(n as int) =~= step.args@);
    runner.run(step.program.as_str(), argv.as_slice())
}

proof fn lemma_steps_result_extend(
    steps: Seq<StepView>,
    o: Seq<Result<CommandOutput, CommandError>>,
    x: Result<CommandOutput, CommandError>,
)
    requires
        o.len() < steps.len(),
        steps_result(steps, o) is Ok,
    ensures
        steps_result(steps, o.push(x)) == (if steps[o.len() as int].required && required_failure(
            steps[o.len() as int].program,
            x,
        ) is Some {
            Err(required_failure(steps[o.len() as int].program, x).unwrap())
        } else {
            Ok(())
        }),
    decreases o.len(),
{
    if o.len() > 0 {
        assert(o.push(x)[0] == o[0]);
        assert(o.push(x).drop_first() =~= o.drop_first().push(x));
        assert(steps_result(steps.drop_first(), o.drop_first()) is Ok);
        lemma_steps_result_extend(steps.drop_first(), o.drop_first(), x);
        assert(steps.drop_first()[o.len() - 1] == steps[o.len() as int]);
        assert(steps_result(steps, o.push(x)) == steps_result(steps.drop_first(), o.push(x).drop_first()));
    } else {
        assert(o.push(x)[0] == x);
        assert(o.push(x).drop_first() =~= Seq::<Result<CommandOutput, CommandError>>::empty());
    }
}

/// Runs the steps in order, stopping at the first required step that fails;
/// the other steps are best effort.
pub fn run_steps<R: CommandRunner>(runner: &mut R, steps: &Vec<Step>) -> (r: Result<(), CoreError>)
    ensures
        exists|o: Seq<Result<CommandOutput, CommandError>>|
            complete_run(steps_view(steps@), o) && match #[trigger] steps_result(
                steps_view(steps@),
                o,
            ) {
                Ok(_) => r is Ok,
                Err(m) => r matches Err(CoreError::Apply(t)) && t@ == m,
            } && (R::records_calls() ==> final(runner).calls() == old(runner).calls() + step_calls(
                steps_view(steps@).take(o.len() as int),
            )),
{
    let ghost sv = steps_view(steps@);
    let ghost mut o: Seq<Result<CommandOutput, CommandError>> = Seq::empty();
    let n = steps.len();
    assert(step_calls(sv.take(0)) =~= Seq::<(Seq<char>, Seq<Seq<char>>)>::empty());
    for i in 0..n
        invariant
            n == steps@.len(),
            sv == steps_view(steps@),
            o.len() == i,
            steps_result(sv, o) is Ok,
            R::records_calls() ==> runner.calls() == old(runner).calls() + step_calls(sv.take(i as int)),
    {
        let outcome = run_one(runner, &steps[i]);
        assert(sv[i as int] == steps@[i as int]@);
        assert(step_calls(sv.take((i + 1) as int)) =~= step_calls(sv.take(i as int)).push(
            (sv[i as int].program, sv[i as int].args),
        ));
        proof {
            lemma_steps_result_extend(sv, o, outcome);
            o = o.push(outcome);
        }
        if steps[i].required {
            match required_check(steps[i].program.as_str(), &outcome) {
                Some(m) => {
                    assert(complete_run(sv, o));
                    return Err(CoreError::Apply(m));
                },
                None => {},
            }
        }
    }
    assert(complete_run(sv, o));
    Ok(())
}

fn step(program: &str, args: Vec<String>, required: bool) -> (r: Step)
    ensures
        r@ == step_view(program@, strs_view(args@), required),
{
    Step { program: program.to_owned(), args, required }
}

fn strings(parts: &[&str]) -> (r: Vec<String>)
    ensures
        strs_view(r@) == args_view(parts@),
{
    let mut v: Vec<String> = Vec::new();
    let n = parts.len();
    for i in 0..n
        invariant
            n == parts@.len(),
            strs_view(v@) == args_view(parts@.take(i as int)),
    {
        let ghost before = v@;
        v.push(parts[i].to_owned());
        assert(strs_view(v@) =~= strs_view(before).push(parts@[i as int]@));
        assert(args_view(parts@.take((i + 1) as int)) =~= args_view(parts@.take(i as int)).push(
            parts@[i as int]@,
        ));
    }
    assert(parts@.take(n as int) =~= parts@);
    v
}

fn push_string(v: &mut Vec<String>, s: String)
    ensures
        strs_view(final(v)@) == strs_view(old(v)@).push(s@),
{
    v.push(s);
    assert(strs_view(v@) =~= strs_view(old(v)@).push(s@));
}

fn push_step(steps: &mut Vec<Step>, s: Step)
    ensures
        steps_view(final(steps)@) == steps_view(old(steps)@).push(s@),
{
    steps.push(s);
    assert(steps_view(steps@) =~= steps_view(old(steps)@).push(s@));
}

fn with_tail(head: &[&str], tail: &str) -> (r: Vec<String>)
    ensures
        strs_view(r@) == args_view(head@).push(tail@),
{
    let mut v = strings(head);
    let ghost before = strs_view(v@);
    v.push(tail.to_owned());
    assert(strs_view(v@) =~= before.push(tail@));
    v
}

// ---------------------------------------------------------------------------
// Network steps
// ---------------------------------------------------------------------------

/// `ip addr replace` of an address on a named interface, when both are set.
pub open spec fn address_steps(iface: Seq<char>, address: Option<Seq<char>>) -> Seq<StepView> {
    match address {
        Some(a) => if a.len() > 0 && iface.len() > 0 {
            seq![step_view("ip"@, seq!["addr"@, "replace"@, a, "dev"@, iface], true)]
        } else {
            seq![]
        },
        None => seq![],
    }
}

/// A host route to the WAN gateway on the WAN interface, when both are set
/// (so that the gateway stays reachable without a main-table default route).
pub open spec fn onlink_steps(cfg: AppConfig) -> Seq<StepView> {
    match cfg.wan.gateway {
        Some(g) => if g@.len() > 0 && cfg.wan.interface@.len() > 0 {
            seq![
                step_view(
                    "ip"@,
                    seq!["route"@, "replace"@, g@ + "/32"@, "dev"@, cfg.wan.interface@],
                    true,
                ),
            ]
        } else {
            seq![]
        },
        None => seq![],
    }
}

/// The sysctl drop-in install, when it was generated.
pub open spec fn sysctl_steps(generated_dir: Seq<char>, sysctl_present: bool) -> Seq<StepView> {
    if sysctl_present {
        seq![
            step_view(
                "install"@,
                seq![
                    "-D"@,
                    "-m"@,
                    "644"@,
                    join_path(generated_dir, "sysctl.d/99-gateway-kit.conf"@),
                    SYSCTL_DROPIN@,
                ],
                false,
            ),
        ]
    } else {
        seq![]
    }
}

/// The nft table (its old copy deleted first), forwarding, and the policy
/// rule and route of marked traffic.
pub open spec fn dataplane_steps(cfg: AppConfig, generated_dir: Seq<char>) -> Seq<StepView> {
    let id = decimal(cfg.routing.policy_table_id as nat);
    let mark = decimal(TPROXY_MARK as nat);
    seq![
        step_view("nft"@, seq!["delete"@, "table"@, "inet"@, cfg.firewall.table_name@], false),
        step_view("nft"@, seq!["-f"@, join_path(generated_dir, "nftables.conf"@)], true),
        step_view("sysctl"@, seq!["-w"@, "net.ipv4.ip_forward=1"@], false),
        step_view("sysctl"@, seq!["-w"@, "net.ipv4.conf.all.route_localnet=1"@], false),
        step_view("ip"@, seq!["rule"@, "del"@, "fwmark"@, mark, "lookup"@, id], false),
        step_view("ip"@, seq!["rule"@, "add"@, "fwmark"@, mark, "lookup"@, id], true),
        step_view(
            "ip"@,
            seq!["route"@, "replace"@, "local"@, "0.0.0.0/0"@, "dev"@, "lo"@, "table"@, id],
            true,
        ),
    ]
}

/// The host commands that put the network in place: interface addresses,
/// the gateway route, the sysctl drop-in, then the data plane.
pub open spec fn network_steps(cfg: AppConfig, generated_dir: Seq<char>, sysctl_present: bool) -> Seq<
    StepView,
> {
    address_steps(cfg.lan.interface@, crate::model::opt_view(cfg.lan.address)) + address_steps(
        cfg.wan.interface@,
        crate::model::opt_view(cfg.wan.address),
    ) + onlink_steps(cfg) + sysctl_steps(generated_dir, sysctl_present) + dataplane_steps(
        cfg,
        generated_dir,
    )
}

fn address_steps_exec(steps: &mut Vec<Step>, iface: &String, address: &Option<String>)
    ensures
        steps_view(final(steps)@) == steps_view(old(steps)@) + address_steps(
            iface@,
            crate::model::opt_view(*address),
        ),
{
    match address {
        Some(a) => if !a.as_str().is_empty() && !iface.as_str().is_empty() {
            let mut args = strings(&["addr", "replace"]);
            assert(strs_view(args@) =~= seq!["addr"@, "replace"@]);
            push_string(&mut args, a.clone());
            push_string(&mut args, "dev".to_owned());
            push_string(&mut args, iface.clone());
            assert(strs_view(args@) =~= seq!["addr"@, "replace"@, a@, "dev"@, iface@]);
            push_step(steps, step("ip", args, true));
            assert(steps_view(steps@) =~= steps_view(old(steps)@) + address_steps(
                iface@,
                crate::model::opt_view(*address),
            ));
        } else {
            assert(steps_view(steps@) =~= steps_view(old(steps)@) + address_steps(
                iface@,
                crate::model::opt_view(*address),
            ));
        },
        None => {
            assert(steps_view(steps@) =~= steps_view(old(steps)@) + address_steps(
                iface@,
                crate::model::opt_view(*address),
            ));
        },
    }
}

fn dataplane_step_list(steps: &mut Vec<Step>, config: &AppConfig, generated_dir: &str)
    ensures
        steps_view(final(steps)@) == steps_view(old(steps)@) + dataplane_steps(*config, generated_dir@),
{
    let ghost s4 = steps_view(steps@);
    let id = from_chars(decimal_chars(config.routing.policy_table_id as u64).as_slice());
    let mark = from_chars(decimal_chars(TPROXY_MARK as u64).as_slice());
    let a1 = with_tail(&["delete", "table", "inet"], config.firewall.table_name.as_str());
    assert(strs_view(a1@) =~= seq!["delete"@, "table"@, "inet"@, config.firewall.table_name@]);
    push_step(steps, step("nft", a1, false));
    let nft_path = join(generated_dir, "nftables.conf");
    let a2 = with_tail(&["-f"], nft_path.as_str());
    assert(strs_view(a2@) =~= seq!["-f"@, join_path(generated_dir@, "nftables.conf"@)]);
    push_step(steps, step("nft", a2, true));
    let a3 = strings(&["-w", "net.ipv4.ip_forward=1"]);
    assert(strs_view(a3@) =~= seq!["-w"@, "net.ipv4.ip_forward=1"@]);
    push_step(steps, step("sysctl", a3, false));
    let a4 = strings(&["-w", "net.ipv4.conf.all.route_localnet=1"]);
    assert(strs_view(a4@) =~= seq!["-w"@, "net.ipv4.conf.all.route_localnet=1"@]);
    push_step(steps, step("sysctl", a4, false));
    let mut del = strings(&["rule", "del", "fwmark"]);
    assert(strs_view(del@) =~= seq!["rule"@, "del"@, "fwmark"@]);
    push_string(&mut del, mark.clone());
    push_string(&mut del, "lookup".to_owned());
    push_string(&mut del, id.clone());
    assert(strs_view(del@) =~= seq!["rule"@, "del"@, "fwmark"@, mark@, "lookup"@, id@]);
    push_step(steps, step("ip", del, false));
    let mut add = strings(&["rule", "add", "fwmark"]);
    assert(strs_view(add@) =~= seq!["rule"@, "add"@, "fwmark"@]);
    push_string(&mut add, mark.clone());
    push_string(&mut add, "lookup".to_owned());
    push_string(&mut add, id.clone());
    assert(strs_view(add@) =~= seq!["rule"@, "add"@, "fwmark"@, mark@, "lookup"@, id@]);
    push_step(steps, step("ip", add, true));
    let a7 = with_tail(&["route", "replace", "local", "0.0.0.0/0", "dev", "lo", "table"], id.as_str());
    assert(strs_view(a7@) =~= seq!["route"@, "replace"@, "local"@, "0.0.0.0/0"@, "dev"@, "lo"@, "table"@, id@]);
    push_step(steps, step("ip", a7, true));
    let ghost id_s = decimal(config.routing.policy_table_id as nat);
    let ghost mark_s = decimal(TPROXY_MARK as nat);
    assert(steps_view(steps@) =~= s4 + dataplane_steps(*config, generated_dir@));
}

/// The host commands that put the network in place.
pub fn network_step_list(config: &AppConfig, generated_dir: &str, sysctl_present: bool) -> (r: Vec<Step>)
    ensures
        steps_view(r@) == network_steps(*config, generated_dir@, sysctl_present),
{
    let mut steps: Vec<Step> = Vec::new();
    address_steps_exec(&mut steps, &config.lan.interface, &config.lan.address);
    address_steps_exec(&mut steps, &config.wan.interface, &config.wan.address);
    let ghost s2 = steps_view(steps@);
    match &config.wan.gateway {
        Some(g) => if !g.as_str().is_empty() && !config.wan.interface.as_str().is_empty() {
            let mut host = to_chars(g.as_str());
            push_str(&mut host, "/32");
            let mut args = strings(&["route", "replace"]);
            assert(strs_view(args@) =~= seq!["route"@, "replace"@]);
            push_string(&mut args, from_chars(host.as_slice()));
            push_string(&mut args, "dev".to_owned());
            push_string(&mut args, config.wan.interface.clone());
            assert(strs_view(args@) =~= seq!["route"@, "replace"@, g@ + "/32"@, "dev"@, config.wan.interface@]);
            push_step(&mut steps, step("ip", args, true));
        },
        None => {},
    }
    assert(steps_view(steps@) =~= s2 + onlink_steps(*config));
    let ghost s3 = steps_view(steps@);
    if sysctl_present {
        let src = join(generated_dir, "sysctl.d/99-gateway-kit.conf");
        let mut args = strings(&["-D", "-m", "644"]);
        assert(strs_view(args@) =~= seq!["-D"@, "-m"@, "644"@]);
        push_string(&mut args, src);
        push_string(&mut args, SYSCTL_DROPIN.to_owned());
        assert(strs_view(args@) =~= seq![
            "-D"@,
            "-m"@,
            "644"@,
            join_path(generated_dir@, "sysctl.d/99-gateway-kit.conf"@),
            SYSCTL_DROPIN@,
        ]);
        push_step(&mut steps, step("install", args, false));
    }
    assert(steps_view(steps@) =~= s3 + sysctl_steps(generated_dir@, sysctl_present));
    dataplane_step_list(&mut steps, config, generated_dir);
    assert(steps_view(steps@) =~= network_steps(*config, generated_dir@, sysctl_present));
    steps
}


// ---------------------------------------------------------------------------
// WireGuard
// ---------------------------------------------------------------------------

/// The peer prefixes that get a route on the tunnel: the trimmed entries of
/// `peer_allowed_ips`, without blanks and the IPv4/IPv6 default routes.
pub open spec fn peer_route_cidrs(pieces: Seq<Seq<char>>) -> Seq<Seq<char>>
    decreases pieces.len(),
{
    if pieces.len() == 0 {
        seq![]
    } else {
        let c = trim(pieces.last());
        if c.len() == 0 || c == "0.0.0.0/0"@ || c == "::/0"@ {
            peer_route_cidrs(pieces.drop_last())
        } else {
            peer_route_cidrs(pieces.drop_last()).push(c)
        }
    }
}

/// The routes installed for the tunnel's peer prefixes.
pub open spec fn peer_route_steps(cfg: AppConfig) -> Seq<StepView> {
    peer_route_cidrs(split_char(cfg.wireguard.peer_allowed_ips@, ',')).map_values(
        |c: Seq<char>| step_view("ip"@, seq!["route"@, "replace"@, c, "dev"@, cfg.wireguard.interface@], true),
    )
}

/// A default route's destination: `default`, `0.0.0.0/0` or `::/0`.
pub open spec fn default_destination(d: Seq<char>) -> bool {
    d == "default"@ || d == "0.0.0.0/0"@ || d == "::/0"@
}

/// A step that installs a default route in the main routing table: `ip
/// route replace|add <default> ...` without a `table` argument.
pub open spec fn replaces_main_default(s: StepView) -> bool {
    &&& s.program == "ip"@
    &&& s.args.len() >= 3
    &&& s.args[0] == "route"@
    &&& (s.args[1] == "replace"@ || s.args[1] == "add"@)
    &&& default_destination(s.args[2])
    &&& !s.args.contains("table"@)
}

/// Every prefix that gets a peer route is a trimmed entry of the list, and
/// none is blank or an IPv4/IPv6 default route.
proof fn lemma_peer_route_cidrs(pieces: Seq<Seq<char>>)
    ensures
        forall|i: int|
            0 <= i < peer_route_cidrs(pieces).len() ==> {
                let c = #[trigger] peer_route_cidrs(pieces)[i];
                &&& c.len() > 0
                &&& c != "0.0.0.0/0"@
                &&& c != "::/0"@
                &&& exists|k: int| 0 <= k < pieces.len() && c == trim(pieces[k])
            },
    decreases pieces.len(),
{
    if pieces.len() > 0 {
        let rest = pieces.drop_last();
        lemma_peer_route_cidrs(rest);
        assert forall|i: int| 0 <= i < peer_route_cidrs(pieces).len() implies {
            let c = #[trigger] peer_route_cidrs(pieces)[i];
            &&& c.len() > 0
            &&& c != "0.0.0.0/0"@
            &&& c != "::/0"@
            &&& exists|k: int| 0 <= k < pieces.len() && c == trim(pieces[k])
        } by {
            let c = peer_route_cidrs(pieces)[i];
            if i < peer_route_cidrs(rest).len() {
                assert(c == peer_route_cidrs(rest)[i]);
                let k = choose|k: int| 0 <= k < rest.len() && c == trim(rest[k]);
                assert(pieces[k] == rest[k]);
            } else {
                assert(c == trim(pieces.last()));
                assert(pieces[pieces.len() - 1] == pieces.last());
            }
        }
    }
}

/// No step installs a default route in the main table.
pub open spec fn keeps_main_default(steps: Seq<StepView>) -> bool {
    forall|i: int| 0 <= i < steps.len() ==> !replaces_main_default(#[trigger] steps[i])
}

proof fn lemma_keeps_main_default_concat(a: Seq<StepView>, b: Seq<StepView>)
    requires
        keeps_main_default(a),
        keeps_main_default(b),
    ensures
        keeps_main_default(a + b),
{
    assert forall|i: int| 0 <= i < (a + b).len() implies !replaces_main_default(#[trigger] (a + b)[i]) by {
        if i < a.len() {
            assert((a + b)[i] == a[i]);
        } else {
            assert((a + b)[i] == b[i - a.len()]);
        }
    }
}

proof fn lemma_address_steps_keep_default(iface: Seq<char>, address: Option<Seq<char>>)
    ensures
        keeps_main_default(address_steps(iface, address)),
{
    reveal_strlit("addr");
    reveal_strlit("route");
    let steps = address_steps(iface, address);
    if steps.len() > 0 {
        assert(steps[0].args[0] == "addr"@);
        assert("addr"@.len() != "route"@.len());
    }
}

proof fn lemma_literal_words()
    ensures
        !default_destination("local"@),
        "install"@ != "ip"@,
        "nft"@ != "ip"@,
        "sysctl"@ != "ip"@,
        "systemctl"@ != "ip"@,
        "rule"@ != "route"@,
        "addr"@ != "route"@,
{
    reveal_strlit("local");
    reveal_strlit("default");
    reveal_strlit("0.0.0.0/0");
    reveal_strlit("::/0");
    reveal_strlit("install");
    reveal_strlit("ip");
    reveal_strlit("nft");
    reveal_strlit("sysctl");
    reveal_strlit("systemctl");
    reveal_strlit("rule");
    reveal_strlit("route");
    reveal_strlit("addr");
    assert("local"@.len() == 5 && "default"@.len() == 7 && "0.0.0.0/0"@.len() == 9);
    assert("::/0"@.len() == 4 && "ip"@.len() == 2 && "install"@.len() == 7);
    assert("nft"@.len() == 3 && "sysctl"@.len() == 6 && "systemctl"@.len() == 9);
    assert("rule"@.len() == 4 && "route"@.len() == 5 && "addr"@.len() == 4);
}

/// The apply leaves the main default route alone: none of its network or
/// unit commands, and none of the tunnel's peer routes, installs a default
/// route outside the policy table. (A peer prefix that is literally
/// `default` would be routed as it stands, so that input is left out.)
pub proof fn lemma_apply_keeps_main_default_route(
    cfg: AppConfig,
    generated_dir: Seq<char>,
    sysctl_present: bool,
    host_units: bool,
)
    requires
        forall|k: int|
            0 <= k < split_char(cfg.wireguard.peer_allowed_ips@, ',').len() ==> trim(
                #[trigger] split_char(cfg.wireguard.peer_allowed_ips@, ',')[k],
            ) != "default"@,
    ensures
        keeps_main_default(network_steps(cfg, generated_dir, sysctl_present)),
        keeps_main_default(peer_route_steps(cfg)),
        keeps_main_default(start_unit_steps(cfg, host_units)),
{
    reveal_strlit("ip");
    reveal_strlit("install");
    reveal_strlit("nft");
    reveal_strlit("sysctl");
    reveal_strlit("systemctl");
    reveal_strlit("addr");
    reveal_strlit("route");
    reveal_strlit("rule");
    reveal_strlit("replace");
    reveal_strlit("add");
    reveal_strlit("local");
    reveal_strlit("default");
    reveal_strlit("0.0.0.0/0");
    reveal_strlit("::/0");
    reveal_strlit("/32");
    let lan = address_steps(cfg.lan.interface@, crate::model::opt_view(cfg.lan.address));
    let wan = address_steps(cfg.wan.interface@, crate::model::opt_view(cfg.wan.address));
    let onlink = onlink_steps(cfg);
    let sysctl = sysctl_steps(generated_dir, sysctl_present);
    let dataplane = dataplane_steps(cfg, generated_dir);
    lemma_address_steps_keep_default(cfg.lan.interface@, crate::model::opt_view(cfg.lan.address));
    lemma_address_steps_keep_default(cfg.wan.interface@, crate::model::opt_view(cfg.wan.address));
    match cfg.wan.gateway {
        Some(g) => {
            let h = g@ + "/32"@;
            assert(h.last() == '2');
            assert(!default_destination(h));
        },
        None => {},
    }
    assert(keeps_main_default(onlink));
    lemma_literal_words();
    assert(keeps_main_default(sysctl));
    assert forall|i: int| 0 <= i < dataplane.len() implies !replaces_main_default(#[trigger] dataplane[i]) by {
        if i == 6 {
            assert(dataplane[i].args[2] == "local"@);
        }
    }
    lemma_keeps_main_default_concat(lan, wan);
    lemma_keeps_main_default_concat(lan + wan, onlink);
    lemma_keeps_main_default_concat(lan + wan + onlink, sysctl);
    lemma_keeps_main_default_concat(lan + wan + onlink + sysctl, dataplane);
    assert(network_steps(cfg, generated_dir, sysctl_present) == lan + wan + onlink + sysctl + dataplane);
    let pieces = split_char(cfg.wireguard.peer_allowed_ips@, ',');
    lemma_peer_route_cidrs(pieces);
    let peers = peer_route_steps(cfg);
    assert forall|i: int| 0 <= i < peers.len() implies !replaces_main_default(#[trigger] peers[i]) by {
        let c = peer_route_cidrs(pieces)[i];
        let k = choose|k: int| 0 <= k < pieces.len() && c == trim(pieces[k]);
        assert(peers[i].args[2] == c);
    }
    let units = start_unit_steps(cfg, host_units);
    assert forall|i: int| 0 <= i < units.len() implies !replaces_main_default(#[trigger] units[i]) by {
        assert(units[i].program == "systemctl"@);
    }
}

/// The peer route commands of the tunnel.
pub fn peer_route_step_list(config: &AppConfig) -> (r: Vec<Step>)
    ensures
        steps_view(r@) == peer_route_steps(*config),
{
    let pieces = split_chars(to_chars(config.wireguard.peer_allowed_ips.as_str()).as_slice(), ',');
    let ghost pv = pieces@.map_values(|v: Vec<char>| v@);
    let mut steps: Vec<Step> = Vec::new();
    let n = pieces.len();
    assert(pv.take(0) =~= Seq::<Seq<char>>::empty());
    assert(steps_view(steps@) =~= peer_route_cidrs(pv.take(0)).map_values(
        |c: Seq<char>| step_view("ip"@, seq!["route"@, "replace"@, c, "dev"@, config.wireguard.interface@], true),
    ));
    for i in 0..n
        invariant
            n == pieces@.len(),
            pv == pieces@.map_values(|v: Vec<char>| v@),
            steps_view(steps@) == peer_route_cidrs(pv.take(i as int)).map_values(
                |c: Seq<char>| step_view("ip"@, seq!["route"@, "replace"@, c, "dev"@, config.wireguard.interface@], true),
            ),
    {
        assert(pv.take((i + 1) as int).drop_last() =~= pv.take(i as int));
        assert(pv[i as int] == pieces@[i as int]@);
        let c = trim_chars(pieces[i].as_slice());
        if !(c.len() == 0 || eq_str(c.as_slice(), "0.0.0.0/0") || eq_str(c.as_slice(), "::/0")) {
            let mut args = strings(&["route", "replace"]);
            assert(strs_view(args@) =~= seq!["route"@, "replace"@]);
            push_string(&mut args, from_chars(c.as_slice()));
            push_string(&mut args, "dev".to_owned());
            push_string(&mut args, config.wireguard.interface.clone());
            assert(strs_view(args@) =~= seq!["route"@, "replace"@, c@, "dev"@, config.wireguard.interface@]);
            let ghost before = steps_view(steps@);
            push_step(&mut steps, step("ip", args, true));
            assert(steps_view(steps@) =~= peer_route_cidrs(pv.take((i + 1) as int)).map_values(
                |c: Seq<char>| step_view("ip"@, seq!["route"@, "replace"@, c, "dev"@, config.wireguard.interface@], true),
            ));
        }
    }
    assert(pv.take(n as int) =~= pv);
    steps
}

/// Writes a file readable by its owner only; `false` when that failed.
pub trait PrivateFileWriter {
    fn write_private(&mut self, path: &str, contents: &str) -> bool;
}

/// Whether `ip -o link show dev <iface>` shows the interface.
pub open spec fn link_present(iface: Seq<char>, o: Result<CommandOutput, CommandError>) -> bool {
    o matches Ok(out) && out.status == Some(0i32) && contains(out.stdout@, iface)
}

/// The output of `wg-quick strip`, when it succeeded with something to sync.
pub open spec fn usable_strip(o: Result<CommandOutput, CommandError>) -> Option<Seq<char>> {
    match o {
        Ok(out) => if out.status == Some(0i32) && trim(out.stdout@).len() > 0 {
            Some(out.stdout@)
        } else {
            None
        },
        Err(_) => None,
    }
}

fn run_args<R: CommandRunner>(runner: &mut R, program: &str, args: &Vec<String>) -> (r: Result<
    CommandOutput,
    CommandError,
>)
    ensures
        R::records_calls() ==> final(runner).calls() == old(runner).calls().push(
            (program@, strs_view(args@)),
        ),
{
    let mut argv: Vec<&str> = Vec::new();
    let n = args.len();
    for i in 0..n
        invariant
            n == args@.len(),
            args_view(argv@) == strs_view(args@.take(i as int)),
    {
        let ghost before = argv@;
        argv.push(args[i].as_str());
        assert(args_view(argv@) =~= args_view(before).push(args@[i as int]@));
        assert(strs_view(args@.take((i + 1) as int)) =~= strs_view(args@.take(i as int)).push(
            args@[i as int]@,
        ));
    }
    assert(args@.take(n as int) =~= args@);
    runner.run(program, argv.as_slice())
}

fn run_required<R: CommandRunner>(runner: &mut R, program: &str, args: &Vec<String>) -> (r: Result<
    (),
    CoreError,
>)
    ensures
        exists|o: Result<CommandOutput, CommandError>|
            match #[trigger] required_failure(program@, o) {
                Some(m) => r matches Err(CoreError::Apply(t)) && t@ == m,
                None => r is Ok,
            },
        R::records_calls() ==> final(runner).calls() == old(runner).calls().push(
            (program@, strs_view(args@)),
        ),
{
    let o = run_args(runner, program, args);
    match required_check(program, &o) {
        Some(m) => Err(CoreError::Apply(m)),
        None => Ok(()),
    }
}

fn link_present_exec(iface: &str, o: &Result<CommandOutput, CommandError>) -> (r: bool)
    ensures
        r == link_present(iface@, *o),
{
    match o {
        Ok(out) => out.status == Some(0i32) && contains_str(to_chars(out.stdout.as_str()).as_slice(), iface),
        Err(_) => false,
    }
}

fn usable_strip_exec(o: &Result<CommandOutput, CommandError>) -> (r: Option<String>)
    ensures
        match r {
            Some(t) => usable_strip(*o) == Some(t@),
            None => usable_strip(*o) is None,
        },
{
    match o {
        Ok(out) => if out.status == Some(0i32) && trim_chars(to_chars(out.stdout.as_str()).as_slice()).len() > 0 {
            Some(out.stdout.clone())
        } else {
            None
        },
        Err(_) => None,
    }
}

/// The tunnel's configuration file and the stripped copy that is synced.
pub open spec fn wg_conf(cfg: AppConfig, generated_dir: Seq<char>) -> Seq<char> {
    join_path(generated_dir, cfg.wireguard.interface@ + ".conf"@)
}

pub open spec fn wg_sync_conf(cfg: AppConfig, generated_dir: Seq<char>) -> Seq<char> {
    join_path(generated_dir, cfg.wireguard.interface@ + ".sync.conf"@)
}

pub open spec fn link_call(cfg: AppConfig) -> (Seq<char>, Seq<Seq<char>>) {
    ("ip"@, seq!["-o"@, "link"@, "show"@, "dev"@, cfg.wireguard.interface@])
}

pub open spec fn strip_call(cfg: AppConfig, generated_dir: Seq<char>) -> (Seq<char>, Seq<Seq<char>>) {
    ("wg-quick"@, seq!["strip"@, wg_conf(cfg, generated_dir)])
}

pub open spec fn sync_call(cfg: AppConfig, generated_dir: Seq<char>) -> (Seq<char>, Seq<Seq<char>>) {
    ("wg"@, seq!["syncconf"@, cfg.wireguard.interface@, wg_sync_conf(cfg, generated_dir)])
}

pub open spec fn down_call(cfg: AppConfig, generated_dir: Seq<char>) -> (Seq<char>, Seq<Seq<char>>) {
    ("wg-quick"@, seq!["down"@, wg_conf(cfg, generated_dir)])
}

pub open spec fn up_call(cfg: AppConfig, generated_dir: Seq<char>) -> (Seq<char>, Seq<Seq<char>>) {
    ("wg-quick"@, seq!["up"@, wg_conf(cfg, generated_dir)])
}

/// How the tunnel was brought up.
#[derive(Debug, Clone, Copy, PartialEq, Eq, Structural)]
pub enum TunnelPath {
    /// No interface was there: it was brought up.
    Fresh,
    /// The running interface was synced in place from the stripped file.
    Synced,
    /// The stripped file was written but the sync failed: restarted.
    SyncFailed,
    /// Nothing usable to sync (or the file could not be written): restarted.
    Restarted,
}

/// The tunnel commands before the peer routes, by the way the tunnel came
/// up.
pub open spec fn tunnel_calls(cfg: AppConfig, generated_dir: Seq<char>, path: TunnelPath) -> Seq<
    (Seq<char>, Seq<Seq<char>>),
> {
    let g = generated_dir;
    match path {
        TunnelPath::Fresh => seq![link_call(cfg), up_call(cfg, g)],
        TunnelPath::Synced => seq![link_call(cfg), strip_call(cfg, g), sync_call(cfg, g)],
        TunnelPath::SyncFailed => seq![
            link_call(cfg),
            strip_call(cfg, g),
            sync_call(cfg, g),
            down_call(cfg, g),
            up_call(cfg, g),
        ],
        TunnelPath::Restarted => seq![link_call(cfg), strip_call(cfg, g), down_call(cfg, g), up_call(cfg, g)],
    }
}

/// One way bringing the tunnel up can have gone: `r` is what
/// `tunnel_result` makes of the outcomes, `wg-quick up` ran unless the
/// interface was synced in place, and a runner that keeps a log was handed
/// the tunnel commands of that way and then the peer routes that ran.
pub open spec fn tunnel_ran(
    cfg: AppConfig,
    generated_dir: Seq<char>,
    r: Result<(), CoreError>,
    before: Seq<(Seq<char>, Seq<Seq<char>>)>,
    after: Seq<(Seq<char>, Seq<Seq<char>>)>,
    records: bool,
    up: Option<Result<CommandOutput, CommandError>>,
    routes: Seq<Result<CommandOutput, CommandError>>,
    path: TunnelPath,
) -> bool {
    &&& tunnel_settled(cfg, up, routes)
    &&& match tunnel_result(cfg, up, routes) {
        Ok(_) => r is Ok,
        Err(m) => r matches Err(CoreError::Apply(t)) && t@ == m,
    }
    &&& (up is None <==> path == TunnelPath::Synced)
    &&& (records ==> after == before + tunnel_calls(cfg, generated_dir, path) + step_calls(
        peer_route_steps(cfg).take(routes.len() as int),
    ))
}

/// What bringing the tunnel up came to: `up` is the outcome of `wg-quick
/// up` when that ran (none when the running interface was synced in place),
/// `routes` those of the peer route commands. A failed `wg-quick up` is the
/// error; otherwise the peer routes decide.
pub open spec fn tunnel_result(
    cfg: AppConfig,
    up: Option<Result<CommandOutput, CommandError>>,
    routes: Seq<Result<CommandOutput, CommandError>>,
) -> Result<(), Seq<char>> {
    match up {
        Some(o) => match required_failure("wg-quick"@, o) {
            Some(m) => Err(m),
            None => steps_result(peer_route_steps(cfg), routes),
        },
        None => steps_result(peer_route_steps(cfg), routes),
    }
}

/// The outcomes are those of a finished attempt: `wg-quick up` failed, or
/// the peer route commands ran as `run_steps` runs them.
pub open spec fn tunnel_settled(
    cfg: AppConfig,
    up: Option<Result<CommandOutput, CommandError>>,
    routes: Seq<Result<CommandOutput, CommandError>>,
) -> bool {
    ||| (up matches Some(o) && required_failure("wg-quick"@, o) is Some)
    ||| complete_run(peer_route_steps(cfg), routes)
}

/// Brings the tunnel up: an interface that is already there is synced in
/// place from the stripped configuration (written next to the generated
/// files), and otherwise, or when that fails, taken down and up again with
/// wg-quick; then the peer routes are installed. The result is what
/// `tunnel_result` makes of the outcomes of `wg-quick up` (when it ran) and
/// of the peer route commands.
pub fn apply_wireguard<R: CommandRunner, W: PrivateFileWriter>(
    runner: &mut R,
    writer: &mut W,
    config: &AppConfig,
    generated_dir: &str,
) -> (r: Result<(), CoreError>)
    ensures
        exists|
            up: Option<Result<CommandOutput, CommandError>>,
            routes: Seq<Result<CommandOutput, CommandError>>,
            path: TunnelPath,
        |
            #[trigger] tunnel_ran(
                *config,
                generated_dir@,
                r,
                old(runner).calls(),
                final(runner).calls(),
                R::records_calls(),
                up,
                routes,
                path,
            ),
{
    let ghost c0 = runner.calls();
    let ghost g = generated_dir@;
    let iface = config.wireguard.interface.as_str();
    let mut conf_name = to_chars(iface);
    push_str(&mut conf_name, ".conf");
    let conf = join(generated_dir, from_chars(conf_name.as_slice()).as_str());
    assert(conf@ == wg_conf(*config, g));
    let link_args = with_tail(&["-o", "link", "show", "dev"], iface);
    assert(strs_view(link_args@) =~= link_call(*config).1);
    let probe = run_args(runner, "ip", &link_args);
    let ghost mut path = TunnelPath::Fresh;
    if link_present_exec(iface, &probe) {
        let strip_args = with_tail(&["strip"], conf.as_str());
        assert(strs_view(strip_args@) =~= strip_call(*config, g).1);
        let strip = run_args(runner, "wg-quick", &strip_args);
        proof {
            path = TunnelPath::Restarted;
        }
        match usable_strip_exec(&strip) {
            Some(text) => {
                let mut sync_name = to_chars(iface);
                push_str(&mut sync_name, ".sync.conf");
                let dest = join(generated_dir, from_chars(sync_name.as_slice()).as_str());
                assert(dest@ == wg_sync_conf(*config, g));
                if writer.write_private(dest.as_str(), text.as_str()) {
                    let mut args = strings(&["syncconf"]);
                    let ghost a0 = strs_view(args@);
                    assert(a0 =~= seq!["syncconf"@]);
                    args.push(iface.to_owned());
                    assert(strs_view(args@) =~= a0.push(iface@));
                    let ghost a1 = strs_view(args@);
                    let ghost d = dest@;
                    args.push(dest);
                    assert(strs_view(args@) =~= a1.push(d));
                    assert(strs_view(args@) =~= sync_call(*config, g).1);
                    let synced = run_required(runner, "wg", &args).is_ok();
                    proof {
                        path = TunnelPath::SyncFailed;
                    }
                    if synced {
                        let peers = peer_route_step_list(config);
                        let ghost c1 = runner.calls();
                        let res = run_steps(runner, &peers);
                        proof {
                            let o = choose|o: Seq<Result<CommandOutput, CommandError>>|
                                complete_run(steps_view(peers@), o) && match #[trigger] steps_result(
                                    steps_view(peers@),
                                    o,
                                ) {
                                    Ok(_) => res is Ok,
                                    Err(m) => res matches Err(CoreError::Apply(t)) && t@ == m,
                                } && (R::records_calls() ==> runner.calls() == c1 + step_calls(
                                    steps_view(peers@).take(o.len() as int),
                                ));
                            assert(tunnel_settled(*config, None, o));
                            assert(R::records_calls() ==> runner.calls() =~= c0 + tunnel_calls(
                                *config,
                                g,
                                TunnelPath::Synced,
                            ) + step_calls(peer_route_steps(*config).take(o.len() as int)));
                            assert(tunnel_ran(
                                *config,
                                generated_dir@,
                                res,
                                c0,
                                runner.calls(),
                                R::records_calls(),
                                None,
                                o,
                                TunnelPath::Synced,
                            ));
                        }
                        return res;
                    }
                }
            },
            None => {},
        }
        let down_args = with_tail(&["down"], conf.as_str());
        assert(strs_view(down_args@) =~= down_call(*config, g).1);
        let _ = run_args(runner, "wg-quick", &down_args);
    }
    let up_args = with_tail(&["up"], conf.as_str());
    assert(strs_view(up_args@) =~= up_call(*config, g).1);
    let up = run_required(runner, "wg-quick", &up_args);
    let ghost c2 = runner.calls();
    assert(R::records_calls() ==> c2 =~= c0 + tunnel_calls(*config, g, path));
    let ghost ou = choose|o: Result<CommandOutput, CommandError>|
        match #[trigger] required_failure("wg-quick"@, o) {
            Some(m) => up matches Err(CoreError::Apply(t)) && t@ == m,
            None => up is Ok,
        };
    match up {
        Ok(()) => {},
        Err(e) => {
            proof {
                assert(tunnel_settled(*config, Some(ou), Seq::empty()));
                assert(peer_route_steps(*config).take(0) =~= Seq::<StepView>::empty());
                assert(step_calls(Seq::<StepView>::empty()) =~= Seq::<(Seq<char>, Seq<Seq<char>>)>::empty());
                assert(R::records_calls() ==> runner.calls() =~= c0 + tunnel_calls(
                    *config,
                    generated_dir@,
                    path,
                ) + step_calls(peer_route_steps(*config).take(0)));
                assert(path != TunnelPath::Synced);
                assert(tunnel_ran(
                    *config,
                    generated_dir@,
                    Err(e),
                    c0,
                    runner.calls(),
                    R::records_calls(),
                    Some(ou),
                    Seq::empty(),
                    path,
                ));
            }
            return Err(e);
        },
    }
    let peers = peer_route_step_list(config);
    let res = run_steps(runner, &peers);
    proof {
        let o = choose|o: Seq<Result<CommandOutput, CommandError>>|
            complete_run(steps_view(peers@), o) && match #[trigger] steps_result(steps_view(peers@), o) {
                Ok(_) => res is Ok,
                Err(m) => res matches Err(CoreError::Apply(t)) && t@ == m,
            } && (R::records_calls() ==> runner.calls() == c2 + step_calls(
                steps_view(peers@).take(o.len() as int),
            ));
        assert(tunnel_settled(*config, Some(ou), o));
        assert(path != TunnelPath::Synced);
        assert(R::records_calls() ==> runner.calls() =~= c0 + tunnel_calls(*config, generated_dir@, path)
            + step_calls(peer_route_steps(*config).take(o.len() as int)));
        assert(tunnel_ran(
            *config,
            generated_dir@,
            res,
            c0,
            runner.calls(),
            R::records_calls(),
            Some(ou),
            o,
            path,
        ));
    }
    res
}

// ---------------------------------------------------------------------------
// Units, waiting, disable
// ---------------------------------------------------------------------------

pub open spec fn unit_step(args: Seq<Seq<char>>) -> StepView {
    step_view("systemctl"@, args, false)
}

/// Starting the units: on a host installation the forwarding unit is enabled
/// and restarted, sing-box enabled and dnsmasq enabled or disabled with
/// DHCP; then sing-box is restarted, and dnsmasq when DHCP is on.
pub open spec fn start_unit_steps(cfg: AppConfig, host_units: bool) -> Seq<StepView> {
    let host = if host_units {
        seq![
            unit_step(seq!["enable"@, "gateway-kit-forwarding"@]),
            unit_step(seq!["restart"@, "gateway-kit-forwarding"@]),
            unit_step(seq!["enable"@, "gateway-kit-singbox"@]),
            if cfg.dhcp.enabled {
                unit_step(seq!["enable"@, "gateway-kit-dnsmasq"@])
            } else {
                unit_step(seq!["disable"@, "--now"@, "gateway-kit-dnsmasq"@])
            },
        ]
    } else {
        seq![]
    };
    let restart = seq![unit_step(seq!["restart"@, "gateway-kit-singbox"@])];
    host + if cfg.dhcp.enabled {
        restart.push(unit_step(seq!["restart"@, "gateway-kit-dnsmasq"@]))
    } else {
        restart
    }
}

/// Stopping the units: disabled on a host installation, else stopped.
pub open spec fn stop_unit_steps(host_units: bool) -> Seq<StepView> {
    if host_units {
        seq![
            unit_step(seq!["disable"@, "--now"@, "gateway-kit-forwarding"@]),
            unit_step(seq!["disable"@, "--now"@, "gateway-kit-singbox"@]),
            unit_step(seq!["disable"@, "--now"@, "gateway-kit-dnsmasq"@]),
        ]
    } else {
        seq![
            unit_step(seq!["stop"@, "gateway-kit-singbox"@]),
            unit_step(seq!["stop"@, "gateway-kit-dnsmasq"@]),
        ]
    }
}

/// The bypass: the gateway's nft table, sysctl drop-in, policy rule and
/// routes removed, the tunnel taken down, and the units stopped. Every step
/// is best effort.
pub open spec fn disable_steps(cfg: AppConfig, generated_dir: Seq<char>, host_units: bool) -> Seq<
    StepView,
> {
    let id = decimal(cfg.routing.policy_table_id as nat);
    let mark = decimal(TPROXY_MARK as nat);
    let base = seq![
        step_view("nft"@, seq!["delete"@, "table"@, "inet"@, cfg.firewall.table_name@], false),
        step_view("rm"@, seq!["-f"@, SYSCTL_DROPIN@], false),
        step_view("ip"@, seq!["rule"@, "del"@, "fwmark"@, mark, "lookup"@, id], false),
        step_view("ip"@, seq!["route"@, "flush"@, "table"@, id], false),
    ];
    let wg = if cfg.wireguard.enabled {
        base.push(
            step_view(
                "wg-quick"@,
                seq!["down"@, join_path(generated_dir, cfg.wireguard.interface@ + ".conf"@)],
                false,
            ),
        )
    } else {
        base
    };
    wg + stop_unit_steps(host_units)
}

fn unit2(a: &str, b: &str) -> (r: Step)
    ensures
        r@ == unit_step(seq![a@, b@]),
{
    let mut v: Vec<String> = Vec::new();
    push_string(&mut v, a.to_owned());
    push_string(&mut v, b.to_owned());
    assert(strs_view(v@) =~= seq![a@, b@]);
    step("systemctl", v, false)
}

fn unit3(a: &str, b: &str, c: &str) -> (r: Step)
    ensures
        r@ == unit_step(seq![a@, b@, c@]),
{
    let mut v: Vec<String> = Vec::new();
    push_string(&mut v, a.to_owned());
    push_string(&mut v, b.to_owned());
    push_string(&mut v, c.to_owned());
    assert(strs_view(v@) =~= seq![a@, b@, c@]);
    step("systemctl", v, false)
}

/// The unit commands of an apply.
pub fn start_unit_step_list(config: &AppConfig, host_units: bool) -> (r: Vec<Step>)
    ensures
        steps_view(r@) == start_unit_steps(*config, host_units),
{
    let mut v: Vec<Step> = Vec::new();
    if host_units {
        push_step(&mut v, unit2("enable", "gateway-kit-forwarding"));
        push_step(&mut v, unit2("restart", "gateway-kit-forwarding"));
        push_step(&mut v, unit2("enable", "gateway-kit-singbox"));
        if config.dhcp.enabled {
            push_step(&mut v, unit2("enable", "gateway-kit-dnsmasq"));
        } else {
            push_step(&mut v, unit3("disable", "--now", "gateway-kit-dnsmasq"));
        }
    }
    push_step(&mut v, unit2("restart", "gateway-kit-singbox"));
    if config.dhcp.enabled {
        push_step(&mut v, unit2("restart", "gateway-kit-dnsmasq"));
    }
    assert(steps_view(v@) =~= start_unit_steps(*config, host_units));
    v
}

fn stop_unit_step_list(v: &mut Vec<Step>, host_units: bool)
    ensures
        steps_view(final(v)@) == steps_view(old(v)@) + stop_unit_steps(host_units),
{
    if host_units {
        push_step(v, unit3("disable", "--now", "gateway-kit-forwarding"));
        push_step(v, unit3("disable", "--now", "gateway-kit-singbox"));
        push_step(v, unit3("disable", "--now", "gateway-kit-dnsmasq"));
    } else {
        push_step(v, unit2("stop", "gateway-kit-singbox"));
        push_step(v, unit2("stop", "gateway-kit-dnsmasq"));
    }
    assert(steps_view(v@) =~= steps_view(old(v)@) + stop_unit_steps(host_units));
}

/// The bypass only stops or disables units, never enables or starts one,
/// and every step of it is best effort.
pub proof fn lemma_bypass_starts_nothing(cfg: AppConfig, generated_dir: Seq<char>, host_units: bool)
    ensures
        forall|i: int|
            0 <= i < disable_steps(cfg, generated_dir, host_units).len() ==> {
                let s = #[trigger] disable_steps(cfg, generated_dir, host_units)[i];
                &&& !s.required
                &&& s.program == "systemctl"@ ==> s.args.len() > 0 && (s.args[0] == "stop"@
                    || s.args[0] == "disable"@)
            },
{
    reveal_strlit("systemctl");
    reveal_strlit("nft");
    reveal_strlit("rm");
    reveal_strlit("ip");
    reveal_strlit("wg-quick");
    let steps = disable_steps(cfg, generated_dir, host_units);
    let base_len: int = if cfg.wireguard.enabled { 5 } else { 4 };
    assert forall|i: int| 0 <= i < steps.len() implies {
        let s = #[trigger] steps[i];
        &&& !s.required
        &&& s.program == "systemctl"@ ==> s.args.len() > 0 && (s.args[0] == "stop"@ || s.args[0]
            == "disable"@)
    } by {
        if i >= base_len {
            assert(steps[i] == stop_unit_steps(host_units)[i - base_len]);
        } else {
            assert("nft"@.len() != "systemctl"@.len());
            assert("rm"@.len() != "systemctl"@.len());
            assert("ip"@.len() != "systemctl"@.len());
            assert("wg-quick"@.len() != "systemctl"@.len());
        }
    }
}

/// Steps that are all best effort never fail as a run.
proof fn lemma_best_effort_ok(steps: Seq<StepView>, o: Seq<Result<CommandOutput, CommandError>>)
    requires
        forall|i: int| 0 <= i < steps.len() ==> !(#[trigger] steps[i]).required,
    ensures
        steps_result(steps, o) is Ok,
    decreases o.len(),
{
    if steps.len() > 0 && o.len() > 0 {
        assert(!steps[0].required);
        let rest = steps.drop_first();
        assert forall|i: int| 0 <= i < rest.len() implies !(#[trigger] rest[i]).required by {
            assert(rest[i] == steps[i + 1]);
        }
        lemma_best_effort_ok(rest, o.drop_first());
    }
}

/// The bypass commands.
pub fn disable_step_list(config: &AppConfig, generated_dir: &str, host_units: bool) -> (r: Vec<Step>)
    ensures
        steps_view(r@) == disable_steps(*config, generated_dir@, host_units),
{
    let id = from_chars(decimal_chars(config.routing.policy_table_id as u64).as_slice());
    let mark = from_chars(decimal_chars(TPROXY_MARK as u64).as_slice());
    let mut v: Vec<Step> = Vec::new();
    let a1 = with_tail(&["delete", "table", "inet"], config.firewall.table_name.as_str());
    assert(strs_view(a1@) =~= seq!["delete"@, "table"@, "inet"@, config.firewall.table_name@]);
    push_step(&mut v, step("nft", a1, false));
    let a2 = with_tail(&["-f"], SYSCTL_DROPIN);
    assert(strs_view(a2@) =~= seq!["-f"@, SYSCTL_DROPIN@]);
    push_step(&mut v, step("rm", a2, false));
    let mut del = strings(&["rule", "del", "fwmark"]);
    assert(strs_view(del@) =~= seq!["rule"@, "del"@, "fwmark"@]);
    push_string(&mut del, mark.clone());
    push_string(&mut del, "lookup".to_owned());
    push_string(&mut del, id.clone());
    assert(strs_view(del@) =~= seq!["rule"@, "del"@, "fwmark"@, mark@, "lookup"@, id@]);
    push_step(&mut v, step("ip", del, false));
    let a4 = with_tail(&["route", "flush", "table"], id.as_str());
    assert(strs_view(a4@) =~= seq!["route"@, "flush"@, "table"@, id@]);
    push_step(&mut v, step("ip", a4, false));
    if config.wireguard.enabled {
        let mut name = to_chars(config.wireguard.interface.as_str());
        push_str(&mut name, ".conf");
        let conf = join(generated_dir, from_chars(name.as_slice()).as_str());
        let a5 = with_tail(&["down"], conf.as_str());
        assert(strs_view(a5@) =~= seq!["down"@, join_path(generated_dir@, config.wireguard.interface@ + ".conf"@)]);
        push_step(&mut v, step("wg-quick", a5, false));
    }
    stop_unit_step_list(&mut v, host_units);
    assert(steps_view(v@) =~= disable_steps(*config, generated_dir@, host_units));
    v
}

/// Whether `ss -lntu` shows the tproxy port listening.
pub open spec fn tproxy_listening(o: Result<CommandOutput, CommandError>) -> bool {
    o matches Ok(out) && out.status == Some(0i32) && contains(out.stdout@, seq![':'] + decimal(TPROXY_PORT as nat))
}

/// Whether an outcome of `ss -lntu` shows the tproxy port listening.
pub fn tproxy_listening_in(o: &Result<CommandOutput, CommandError>) -> (r: bool)
    ensures
        r == tproxy_listening(*o),
{
    let mut needle = to_chars(":");
    proof {
        reveal_strlit(":");
    }
    assert(needle@ =~= seq![':']);
    push_decimal(&mut needle, TPROXY_PORT as u64);
    match o {
        Ok(out) => {
            let text = to_chars(out.stdout.as_str());
            let found = crate::text::find(text.as_slice(), needle.as_slice()).is_some();
            let ok = match out.status {
                Some(c) => c == 0,
                None => false,
            };
            ok && found
        },
        Err(_) => false,
    }
}

/// Asks the host once whether the tproxy port listens yet: what
/// `tproxy_listening_in` makes of the outcome of `ss -lntu`, the only call it
/// makes. For a runner that keeps a log the answer is that of its logged
/// outcome; otherwise the outcome is the host's and nothing is claimed of it.
pub fn tproxy_listening_now<R: CommandRunner>(runner: &mut R) -> (r: bool)
    ensures
        R::records_calls() ==> final(runner).calls() == old(runner).calls().push(
            ("ss"@, seq!["-lntu"@]),
        ),
        R::records_calls() ==> final(runner).answers().len() == old(runner).answers().len() + 1
            && r == tproxy_listening(final(runner).answers().last()),
{
    let args: [&str; 1] = ["-lntu"];
    assert(args_view(args@) =~= seq!["-lntu"@]);
    let o = runner.run("ss", &args);
    tproxy_listening_in(&o)
}

/// Runs the bypass commands (`disable_steps`, all best effort, every one of
/// them and nothing else). The result names the disabled state.
pub fn disable_dataplane<R: CommandRunner>(
    runner: &mut R,
    config: &AppConfig,
    generated_dir: &str,
    host_units: bool,
) -> (r: ApplyResult)
    ensures
        r.generation_id@ == "disabled"@,
        r.message@ == "removed gateway_kit nft table and stopped product data-plane units"@,
        R::records_calls() ==> final(runner).calls() == old(runner).calls() + step_calls(
            disable_steps(*config, generated_dir@, host_units),
        ),
{
    let steps = disable_step_list(config, generated_dir, host_units);
    let _ = run_steps(runner, &steps);
    proof {
        let sv = steps_view(steps@);
        assert forall|i: int| 0 <= i < sv.len() implies !(#[trigger] sv[i]).required by {
            let base_len: int = if config.wireguard.enabled { 5 } else { 4 };
            if i >= base_len {
                assert(sv[i] == stop_unit_steps(host_units)[i - base_len]);
            }
        }
        let o = choose|o: Seq<Result<CommandOutput, CommandError>>|
            complete_run(sv, o) && match #[trigger] steps_result(sv, o) {
                Ok(_) => true,
                Err(_) => true,
            } && (R::records_calls() ==> runner.calls() == old(runner).calls() + step_calls(sv.take(o.len() as int)));
        lemma_best_effort_ok(sv, o);
        assert(sv.take(o.len() as int) =~= sv);
    }
    ApplyResult {
        generation_id: "disabled".to_owned(),
        message: "removed gateway_kit nft table and stopped product data-plane units".to_owned(),
    }
}

// ---------------------------------------------------------------------------
// The course of an apply
// ---------------------------------------------------------------------------

/// The stages of an apply that passed its gate. The caller performs each
/// stage (writing files and the database is its part) and asks for the next.
#[derive(Debug, Clone, Copy, PartialEq, Eq, Structural)]
pub enum ApplyStage {
    /// Check the plan, the reason and the confirmation (`apply_gate`).
    Gate,
    /// Journal the apply and back up the generated files.
    Prepare,
    /// Write the plan's files.
    WriteFiles,
    /// Run `network_step_list`.
    Network,
    /// Run `apply_wireguard`.
    Tunnel,
    /// Run `start_unit_step_list`.
    Units,
    /// Wait for the tproxy port (host installations only).
    WaitTproxy,
    /// Run the health check.
    Health,
    /// Record the generation as the active one.
    Commit,
    /// Run `disable_dataplane` and restore the backed-up files.
    Bypass,
    /// Nothing is left to do.
    Done,
}

/// The stage after `stage` finished (`ok` tells whether it succeeded).
/// Before anything was changed a failure just ends the apply; afterwards
/// every failure leads to the bypass.
pub open spec fn spec_next_stage(stage: ApplyStage, ok: bool, wireguard: bool, host_units: bool) -> ApplyStage {
    match stage {
        ApplyStage::Gate => if ok {
            ApplyStage::Prepare
        } else {
            ApplyStage::Done
        },
        ApplyStage::Prepare => if ok {
            ApplyStage::WriteFiles
        } else {
            ApplyStage::Done
        },
        ApplyStage::WriteFiles => if ok {
            ApplyStage::Network
        } else {
            ApplyStage::Bypass
        },
        ApplyStage::Network => if !ok {
            ApplyStage::Bypass
        } else if wireguard {
            ApplyStage::Tunnel
        } else {
            ApplyStage::Units
        },
        ApplyStage::Tunnel => if ok {
            ApplyStage::Units
        } else {
            ApplyStage::Bypass
        },
        ApplyStage::Units => if !ok {
            ApplyStage::Bypass
        } else if host_units {
            ApplyStage::WaitTproxy
        } else {
            ApplyStage::Health
        },
        ApplyStage::WaitTproxy => if ok {
            ApplyStage::Health
        } else {
            ApplyStage::Bypass
        },
        ApplyStage::Health => if ok {
            ApplyStage::Commit
        } else {
            ApplyStage::Bypass
        },
        ApplyStage::Commit => if ok {
            ApplyStage::Done
        } else {
            ApplyStage::Bypass
        },
        ApplyStage::Bypass => ApplyStage::Done,
        ApplyStage::Done => ApplyStage::Done,
    }
}

/// The next stage of an apply.
pub fn next_stage(stage: ApplyStage, ok: bool, wireguard: bool, host_units: bool) -> (r: ApplyStage)
    ensures
        r == spec_next_stage(stage, ok, wireguard, host_units),
{
    match stage {
        ApplyStage::Gate => if ok {
            ApplyStage::Prepare
        } else {
            ApplyStage::Done
        },
        ApplyStage::Prepare => if ok {
            ApplyStage::WriteFiles
        } else {
            ApplyStage::Done
        },
        ApplyStage::WriteFiles => if ok {
            ApplyStage::Network
        } else {
            ApplyStage::Bypass
        },
        ApplyStage::Network => if !ok {
            ApplyStage::Bypass
        } else if wireguard {
            ApplyStage::Tunnel
        } else {
            ApplyStage::Units
        },
        ApplyStage::Tunnel => if ok {
            ApplyStage::Units
        } else {
            ApplyStage::Bypass
        },
        ApplyStage::Units => if !ok {
            ApplyStage::Bypass
        } else if host_units {
            ApplyStage::WaitTproxy
        } else {
            ApplyStage::Health
        },
        ApplyStage::WaitTproxy => if ok {
            ApplyStage::Health
        } else {
            ApplyStage::Bypass
        },
        ApplyStage::Health => if ok {
            ApplyStage::Commit
        } else {
            ApplyStage::Bypass
        },
        ApplyStage::Commit => if ok {
            ApplyStage::Done
        } else {
            ApplyStage::Bypass
        },
        ApplyStage::Bypass => ApplyStage::Done,
        ApplyStage::Done => ApplyStage::Done,
    }
}

/// The stages at which the host may already have been changed.
pub open spec fn host_touched(stage: ApplyStage) -> bool {
    stage != ApplyStage::Gate && stage != ApplyStage::Prepare && stage != ApplyStage::Bypass && stage
        != ApplyStage::Done
}

/// The stage reached from `stage` when the next `n` stages all succeed.
pub open spec fn run_ok(stage: ApplyStage, n: nat, wireguard: bool, host_units: bool) -> ApplyStage
    decreases n,
{
    if n == 0 {
        stage
    } else {
        spec_next_stage(run_ok(stage, (n - 1) as nat, wireguard, host_units), true, wireguard, host_units)
    }
}

/// A refused apply ends at its gate: no stage that journals, writes or runs
/// anything comes after a failed gate.
pub proof fn lemma_refused_apply_does_nothing(wireguard: bool, host_units: bool)
    ensures
        spec_next_stage(ApplyStage::Gate, false, wireguard, host_units) == ApplyStage::Done,
        spec_next_stage(ApplyStage::Gate, true, wireguard, host_units) == ApplyStage::Prepare,
{
}

/// A failure after the host may have been changed leads to the bypass.
pub proof fn lemma_failure_leads_to_bypass(stage: ApplyStage, wireguard: bool, host_units: bool)
    requires
        host_touched(stage),
    ensures
        spec_next_stage(stage, false, wireguard, host_units) == ApplyStage::Bypass,
{
}

/// A generation is committed only right after a successful health check.
pub proof fn lemma_commit_follows_health(stage: ApplyStage, ok: bool, wireguard: bool, host_units: bool)
    ensures
        spec_next_stage(stage, ok, wireguard, host_units) == ApplyStage::Commit ==> stage
            == ApplyStage::Health && ok,
{
}

/// The bypass is the last thing an apply does.
pub proof fn lemma_bypass_ends(ok: bool, wireguard: bool, host_units: bool)
    ensures
        spec_next_stage(ApplyStage::Bypass, ok, wireguard, host_units) == ApplyStage::Done,
        spec_next_stage(ApplyStage::Done, ok, wireguard, host_units) == ApplyStage::Done,
{
}

/// When every stage succeeds the apply passes the health check and the
/// commit, never the bypass, and is done after at most eight stages.
pub proof fn lemma_success_commits(wireguard: bool, host_units: bool)
    ensures
        forall|n: nat| n <= 8 ==> run_ok(ApplyStage::Prepare, n, wireguard, host_units) != ApplyStage::Bypass,
        run_ok(ApplyStage::Prepare, 8, wireguard, host_units) == ApplyStage::Done,
        exists|n: nat| n < 8 && run_ok(ApplyStage::Prepare, n, wireguard, host_units) == ApplyStage::Commit,
{
    let w = wireguard;
    let h = host_units;
    let p = ApplyStage::Prepare;
    assert(run_ok(p, 0, w, h) == ApplyStage::Prepare);
    assert(run_ok(p, 1, w, h) == ApplyStage::WriteFiles);
    assert(run_ok(p, 2, w, h) == ApplyStage::Network);
    assert(run_ok(p, 3, w, h) == (if w { ApplyStage::Tunnel } else { ApplyStage::Units }));
    if w {
        assert(run_ok(p, 4, w, h) == ApplyStage::Units);
        assert(run_ok(p, 5, w, h) == (if h { ApplyStage::WaitTproxy } else { ApplyStage::Health }));
        if h {
            assert(run_ok(p, 6, w, h) == ApplyStage::Health);
            assert(run_ok(p, 7, w, h) == ApplyStage::Commit);
            assert(run_ok(p, 8, w, h) == ApplyStage::Done);
        } else {
            assert(run_ok(p, 6, w, h) == ApplyStage::Commit);
            assert(run_ok(p, 7, w, h) == ApplyStage::Done);
            assert(run_ok(p, 8, w, h) == ApplyStage::Done);
        }
    } else {
        assert(run_ok(p, 4, w, h) == (if h { ApplyStage::WaitTproxy } else { ApplyStage::Health }));
        if h {
            assert(run_ok(p, 5, w, h) == ApplyStage::Health);
            assert(run_ok(p, 6, w, h) == ApplyStage::Commit);
            assert(run_ok(p, 7, w, h) == ApplyStage::Done);
            assert(run_ok(p, 8, w, h) == ApplyStage::Done);
        } else {
            assert(run_ok(p, 5, w, h) == ApplyStage::Commit);
            assert(run_ok(p, 6, w, h) == ApplyStage::Done);
            assert(run_ok(p, 7, w, h) == ApplyStage::Done);
            assert(run_ok(p, 8, w, h) == ApplyStage::Done);
        }
    }
    assert forall|n: nat| n <= 8 implies run_ok(p, n, w, h) != ApplyStage::Bypass by {
        if n == 0 {
        } else if n == 1 {
        } else if n == 2 {
        } else if n == 3 {
        } else if n == 4 {
        } else if n == 5 {
        } else if n == 6 {
        } else if n == 7 {
        } else {
        }
    }
}

/// The emergency bypass: refused without confirmation, and then the runner
/// is left untouched; otherwise the bypass commands (`disable_steps`) run,
/// best effort, and no other. Recording the disabled state in the state
/// store is the caller's part.
pub fn disable<R: CommandRunner>(paths: &crate::paths::Paths, config: &AppConfig, runner: &mut R, execute: bool) -> (r: Result<
    ApplyResult,
    CoreError,
>)
    ensures
        !execute ==> (r matches Err(CoreError::Blocked(m)) && m@ == "disable requires --confirm"@),
        execute ==> (r matches Ok(res) && res.generation_id@ == "disabled"@ && res.message@
            == "removed gateway_kit nft table and stopped product data-plane units"@),
        !execute ==> *final(runner) == *old(runner),
        execute && R::records_calls() ==> final(runner).calls() == old(runner).calls() + step_calls(
            disable_steps(*config, paths.generated_dir@, crate::paths::is_host_config(paths.config@)),
        ),
{
    match disable_gate(execute) {
        Err(e) => {
            return Err(e);
        },
        Ok(()) => {},
    }
    let host_units = paths.manages_host_units();
    Ok(disable_dataplane(runner, config, paths.generated_dir.as_str(), host_units))
}

// ---------------------------------------------------------------------------
// Boot
// ---------------------------------------------------------------------------

/// What the agent does with the data plane when it starts.
#[derive(Debug, Clone, Copy, PartialEq, Eq, Structural)]
pub enum BootAction {
    /// A previous process stopped in the middle of an apply: enter the
    /// bypass with the configuration that apply was writing.
    Bypass,
    /// Leave the host as it is.
    Stay,
    /// Plan the last successful generation again and apply it when the plan
    /// is ready.
    Replay,
}

/// An interrupted apply always ends in the bypass; otherwise only a gateway
/// with a successful generation replays it.
pub open spec fn spec_boot_action(interrupted: bool, gateway_mode: bool, last_generation: bool) -> BootAction {
    if interrupted {
        BootAction::Bypass
    } else if gateway_mode && last_generation {
        BootAction::Replay
    } else {
        BootAction::Stay
    }
}

/// What to do at boot: `interrupted` tells whether the apply journal holds
/// an apply that never finished, `gateway_mode` whether the configuration is
/// in gateway mode, `last_generation` whether a successful generation is
/// recorded.
pub fn boot_action(interrupted: bool, gateway_mode: bool, last_generation: bool) -> (r: BootAction)
    ensures
        r == spec_boot_action(interrupted, gateway_mode, last_generation),
{
    if interrupted {
        BootAction::Bypass
    } else if gateway_mode && last_generation {
        BootAction::Replay
    } else {
        BootAction::Stay
    }
}

/// The error of a boot that found an interrupted apply.
pub fn recovery_error(id: &str) -> (r: CoreError)
    ensures
        r matches CoreError::Apply(m) && m@ == "recovered interrupted apply "@ + id@
            + "; dataplane is in bypass"@,
{
    let mut m = to_chars("recovered interrupted apply ");
    push_str(&mut m, id);
    push_str(&mut m, "; dataplane is in bypass");
    CoreError::Apply(from_chars(m.as_slice()))
}

/// A boot never replays a generation over an interrupted apply, and never
/// touches a host in observe mode.
pub proof fn lemma_boot_is_safe(interrupted: bool, gateway_mode: bool, last_generation: bool)
    ensures
        interrupted ==> spec_boot_action(interrupted, gateway_mode, last_generation) == BootAction::Bypass,
        spec_boot_action(interrupted, gateway_mode, last_generation) == BootAction::Replay ==> (
        !interrupted && gateway_mode && last_generation),
        !interrupted && !gateway_mode ==> spec_boot_action(interrupted, gateway_mode, last_generation)
            == BootAction::Stay,
{
}

// ---------------------------------------------------------------------------
// Waiting for the data plane, rollback
// ---------------------------------------------------------------------------

/// How often a host installation asks whether the tproxy port listens
/// before the health check, and the pause in milliseconds after each
/// negative answer.
pub const TPROXY_WAIT_TRIES: u32 = 15;
pub const TPROXY_WAIT_MS: u64 = 200;

/// What a rollback does.
#[derive(Debug, Clone, Copy, PartialEq, Eq, Structural)]
pub enum RollbackAction {
    /// Plan and apply the successful generation before the active one.
    Replay,
    /// There is none: enter the bypass.
    Bypass,
}

/// A rollback replays the previous successful generation when one is
/// recorded, and otherwise enters the bypass.
pub fn rollback_action(previous_generation: bool) -> (r: RollbackAction)
    ensures
        r == (if previous_generation {
            RollbackAction::Replay
        } else {
            RollbackAction::Bypass
        }),
{
    if previous_generation {
        RollbackAction::Replay
    } else {
        RollbackAction::Bypass
    }
}

} // verus!

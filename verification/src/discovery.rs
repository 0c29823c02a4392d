//! Read-only host discovery: which tools and services are present, and what
//! stands in the way of gateway mode.

use vstd::prelude::*;

use crate::command::{args_view, CommandError, CommandOutput, CommandOutputView, CommandRunner};
use crate::model::{
    opt_view, strs_view, AppConfig, Conflict, ConflictSeverity, ConflictView, OperatingMode,
    Ownership, PreflightReport, PreflightReportView, ProbeResult, ProbeResultView, ProbeStatus,
    ResourceObservation, ResourceObservationView, ResourceOwner, ResourceType, NFT_TABLE,
};
use crate::text::{
    before_either, before_either_chars, contains, contains_str, eq_str, find, first_occurrence,
    from_chars, lines, lines_of, lower, lower_chars, push_str, slice_of, starts_with,
    starts_with_str, to_chars, trim, trim_chars,
};

verus! {

// ---------------------------------------------------------------------------
// Probe details
// ---------------------------------------------------------------------------

/// How many bytes a character takes in UTF-8.
pub open spec fn utf8_width(c: char) -> nat {
    if (c as u32) < 0x80 {
        1
    } else if (c as u32) < 0x800 {
        2
    } else if (c as u32) < 0x10000 {
        3
    } else {
        4
    }
}

/// The longest prefix of `s` whose UTF-8 encoding fits in `budget` bytes.
pub open spec fn prefix_within(s: Seq<char>, budget: nat) -> Seq<char>
    decreases s.len(),
{
    if s.len() == 0 || utf8_width(s[0]) > budget {
        Seq::empty()
    } else {
        seq![s[0]] + prefix_within(s.drop_first(), (budget - utf8_width(s[0])) as nat)
    }
}

/// The most of a probe's output that is kept.
pub const DETAIL_BYTES: u64 = 4000;

/// A probe's output cut to at most `DETAIL_BYTES` bytes, at a character
/// boundary.
pub open spec fn truncated(s: Seq<char>) -> Seq<char> {
    prefix_within(s, DETAIL_BYTES as nat)
}

fn width_of(c: char) -> (r: u64)
    ensures
        r == utf8_width(c),
{
    let v = c as u32;
    if v < 0x80 {
        1
    } else if v < 0x800 {
        2
    } else if v < 0x10000 {
        3
    } else {
        4
    }
}

/// Cuts a probe's output to at most `DETAIL_BYTES` bytes.
pub fn truncate_detail(s: &str) -> (r: String)
    ensures
        r@ == truncated(s@),
{
    let cs = to_chars(s);
    let n = cs.len();
    let mut i: usize = 0;
    let mut budget: u64 = DETAIL_BYTES;
    assert(cs@.skip(0) =~= cs@);
    assert(cs@.take(0) + prefix_within(cs@.skip(0), budget as nat) =~= truncated(cs@));
    while i < n
        invariant
            i <= n == cs@.len(),
            budget <= DETAIL_BYTES,
            cs@ == s@,
            cs@.take(i as int) + prefix_within(cs@.skip(i as int), budget as nat) == truncated(s@),
        decreases n - i,
    {
        let w = width_of(cs[i]);
        let ghost rest = cs@.skip(i as int);
        assert(rest[0] == cs@[i as int]);
        if w > budget {
            assert(prefix_within(rest, budget as nat) == Seq::<char>::empty());
            assert(cs@.take(i as int) =~= cs@.take(i as int) + Seq::<char>::empty());
            return from_chars(slice_of(cs.as_slice(), 0, i).as_slice());
        }
        assert(rest.drop_first() =~= cs@.skip(i + 1));
        assert(cs@.take(i + 1) =~= cs@.take(i as int) + seq![cs@[i as int]]);
        budget = budget - w;
        i = i + 1;
    }
    assert(cs@.skip(n as int) =~= Seq::<char>::empty());
    assert(cs@.take(n as int) =~= cs@);
    from_chars(cs.as_slice())
}

// ---------------------------------------------------------------------------
// Interface names
// ---------------------------------------------------------------------------

/// For a text that `serde_json` parses as a JSON array: for each item, its
/// `ifname` member when that is a string.
pub uninterp spec fn json_ifname_members(raw: Seq<char>) -> Option<Seq<Option<Seq<char>>>>;

/// `serde_json::from_str::<Value>`, then `as_array`, and per item
/// `get("ifname")` and `as_str`. `None` when the text is not a JSON array.
/// The result is named; nothing else is claimed of it.
#[verifier::external_body]
fn json_ifname_members_of(raw: &str) -> (r: Option<Vec<Option<String>>>)
    ensures
        match r {
            Some(v) => json_ifname_members(raw@) == Some(
                v@.map_values(|o: Option<String>| opt_view(o)),
            ),
            None => json_ifname_members(raw@) is None,
        },
{
    let value: serde_json::Value = serde_json::from_str(raw).ok()?;
    let items = value.as_array()?;
    Some(
        items.iter().map(|item| item.get("ifname").and_then(|n| n.as_str()).map(|n| n.to_string())).collect(),
    )
}

/// A loopback device name (`lo`, or an alias `lo:*`).
pub open spec fn is_loopback_name(n: Seq<char>) -> bool {
    n == "lo"@ || starts_with(n, "lo:"@)
}

/// The string `ifname` members that do not name loopback, in order.
pub open spec fn json_names(items: Seq<Option<Seq<char>>>) -> Seq<Seq<char>>
    decreases items.len(),
{
    if items.len() == 0 {
        seq![]
    } else {
        match items.last() {
            Some(n) => if is_loopback_name(n) {
                json_names(items.drop_last())
            } else {
                json_names(items.drop_last()).push(n)
            },
            None => json_names(items.drop_last()),
        }
    }
}

/// The device named on a line of `ip link` text (`2: eth0@if3: <...>`):
/// after the first `: `, up to `@` or `:`, trimmed; none for `lo` or blank.
pub open spec fn text_ifname(line: Seq<char>) -> Option<Seq<char>> {
    let l = trim(line);
    match first_occurrence(l, ": "@) {
        None => None,
        Some(i) => {
            let name = trim(before_either(l.skip(i + 2), '@', ':'));
            if name.len() == 0 || name == "lo"@ {
                None
            } else {
                Some(name)
            }
        },
    }
}

/// The device names of `ip link` text, in order.
pub open spec fn text_names(ls: Seq<Seq<char>>) -> Seq<Seq<char>>
    decreases ls.len(),
{
    if ls.len() == 0 {
        seq![]
    } else {
        match text_ifname(ls.last()) {
            Some(n) => text_names(ls.drop_last()).push(n),
            None => text_names(ls.drop_last()),
        }
    }
}

/// The non-loopback interfaces of `ip -j link` output, read as JSON, or as
/// `ip link` text when it is not a JSON array.
pub open spec fn spec_parse_interface_names(raw: Seq<char>) -> Seq<Seq<char>> {
    match json_ifname_members(raw) {
        Some(items) => json_names(items),
        None => text_names(lines(raw)),
    }
}

fn text_ifname_of(line: &[char]) -> (r: Option<Vec<char>>)
    ensures
        match r {
            Some(n) => text_ifname(line@) == Some(n@),
            None => text_ifname(line@) is None,
        },
{
    let l = trim_chars(line);
    let sep = to_chars(": ");
    match find(l.as_slice(), sep.as_slice()) {
        None => None,
        Some(i) => {
            proof {
                reveal_strlit(": ");
                crate::text::lemma_first_occurrence_bounds(l@, sep@);
            }
            let len = l.len();
            assert(sep@.len() == 2);
            assert(i + 2 <= len);
            let rest = slice_of(l.as_slice(), i + 2, len);
            assert(rest@ =~= l@.skip(i + 2));
            let name = trim_chars(before_either_chars(rest.as_slice(), '@', ':').as_slice());
            if name.len() == 0 || eq_str(name.as_slice(), "lo") {
                None
            } else {
                Some(name)
            }
        },
    }
}

/// The interface names of the `ifname` members of a JSON array, in order:
/// the string ones that do not name loopback.
pub fn json_member_names(items: &Vec<Option<String>>) -> (r: Vec<String>)
    ensures
        strs_view(r@) == json_names(items@.map_values(|o: Option<String>| opt_view(o))),
{
    let mut out: Vec<String> = Vec::new();
    let ghost iv = items@.map_values(|o: Option<String>| opt_view(o));
    let n = items.len();
    assert(iv.take(0) =~= Seq::<Option<Seq<char>>>::empty());
    for i in 0..n
        invariant
            n == items@.len(),
            iv == items@.map_values(|o: Option<String>| opt_view(o)),
            strs_view(out@) == json_names(iv.take(i as int)),
    {
        assert(iv.take((i + 1) as int).drop_last() =~= iv.take(i as int));
        assert(iv[i as int] == opt_view(items@[i as int]));
        match &items[i] {
            Some(name) => {
                let nc = to_chars(name.as_str());
                if !(eq_str(nc.as_slice(), "lo") || starts_with_str(nc.as_slice(), "lo:")) {
                    let ghost before = out@;
                    out.push(name.clone());
                    assert(strs_view(out@) =~= strs_view(before).push(name@));
                }
            },
            None => {},
        }
    }
    assert(iv.take(n as int) =~= iv);
    out
}

/// Lists the non-loopback interfaces in `ip -j link` (or `ip link`) output.
pub fn parse_interface_names(raw: &str) -> (r: Vec<String>)
    ensures
        strs_view(r@) == spec_parse_interface_names(raw@),
{
    let mut out: Vec<String> = Vec::new();
    match json_ifname_members_of(raw) {
        Some(items) => {
            out = json_member_names(&items);
        },
        None => {
            let cs = to_chars(raw);
            let ls = lines_of(cs.as_slice());
            let ghost lv = lines(raw@);
            let n = ls.len();
            assert(lv.take(0) =~= Seq::<Seq<char>>::empty());
            for i in 0..n
                invariant
                    n == ls@.len(),
                    ls@.map_values(|v: Vec<char>| v@) == lv,
                    strs_view(out@) == text_names(lv.take(i as int)),
            {
                assert(lv.take((i + 1) as int).drop_last() =~= lv.take(i as int));
                assert(lv[i as int] == ls@[i as int]@);
                match text_ifname_of(ls[i].as_slice()) {
                    Some(name) => {
                        let ghost before = out@;
                        out.push(from_chars(name.as_slice()));
                        assert(strs_view(out@) =~= strs_view(before).push(name@));
                    },
                    None => {},
                }
            }
            assert(lv.take(n as int) =~= lv);
        },
    }
    out
}

// ---------------------------------------------------------------------------
// Probes
// ---------------------------------------------------------------------------

/// How a probe reads a command's output.
#[derive(Debug, Clone, Copy, PartialEq, Eq, Structural)]
pub enum ProbeRule {
    /// Exit 0: detected; otherwise failed.
    ExitZero,
    /// Exit 0: detected; otherwise not present.
    ExitZeroPresent,
    /// `systemctl is-active` printed `active`.
    UnitActive,
    /// Exit 0 and a line reading `Status: active` (any case).
    UfwActive,
    /// Exit 0 and `systemctl is-enabled` printed `enabled`.
    ServiceEnabled,
}

/// Some line, trimmed and lower-cased, reads `status: active`.
pub open spec fn ufw_active_line(ls: Seq<Seq<char>>) -> bool {
    exists|i: int| 0 <= i < ls.len() && lower(trim(#[trigger] ls[i])) == "status: active"@
}

pub open spec fn classify(rule: ProbeRule, out: CommandOutputView) -> ProbeStatus {
    match rule {
        ProbeRule::ExitZero => if out.status == Some(0i32) {
            ProbeStatus::Detected
        } else {
            ProbeStatus::Failed
        },
        ProbeRule::ExitZeroPresent => if out.status == Some(0i32) {
            ProbeStatus::Detected
        } else {
            ProbeStatus::NotPresent
        },
        ProbeRule::UnitActive => if trim(out.stdout) == "active"@ {
            ProbeStatus::Detected
        } else {
            ProbeStatus::NotPresent
        },
        ProbeRule::UfwActive => if out.status == Some(0i32) && ufw_active_line(lines(out.stdout)) {
            ProbeStatus::Detected
        } else {
            ProbeStatus::NotPresent
        },
        ProbeRule::ServiceEnabled => if out.status == Some(0i32) && trim(out.stdout) == "enabled"@ {
            ProbeStatus::Detected
        } else {
            ProbeStatus::NotPresent
        },
    }
}

/// The probe result of one command: its classified output, `<program> not
/// found` when it is missing, or the error text when it could not run.
pub open spec fn probe_view(
    name: Seq<char>,
    rule: ProbeRule,
    o: Result<CommandOutput, CommandError>,
) -> ProbeResultView {
    match o {
        Ok(out) => ProbeResultView {
            name,
            status: classify(rule, out@),
            detail: truncated(out.stdout@),
        },
        Err(CommandError::Unavailable(p)) => ProbeResultView {
            name,
            status: ProbeStatus::Unavailable,
            detail: p@ + " not found"@,
        },
        Err(e) => ProbeResultView { name, status: ProbeStatus::Failed, detail: e.message() },
    }
}

fn ufw_active_exec(stdout: &str) -> (r: bool)
    ensures
        r == ufw_active_line(lines(stdout@)),
{
    let cs = to_chars(stdout);
    let ls = lines_of(cs.as_slice());
    let ghost lv = lines(stdout@);
    let n = ls.len();
    for i in 0..n
        invariant
            n == ls@.len(),
            ls@.map_values(|v: Vec<char>| v@) == lv,
            lv == lines(stdout@),
            forall|j: int| 0 <= j < i ==> lower(trim(#[trigger] lv[j])) != "status: active"@,
    {
        assert(lv[i as int] == ls@[i as int]@);
        let l = lower_chars(trim_chars(ls[i].as_slice()).as_slice());
        if eq_str(l.as_slice(), "status: active") {
            assert(lower(trim(lv[i as int])) == "status: active"@);
            return true;
        }
    }
    false
}

fn classify_exec(rule: ProbeRule, out: &CommandOutput) -> (r: ProbeStatus)
    ensures
        r == classify(rule, out@),
{
    let zero = match out.status {
        Some(c) => c == 0,
        None => false,
    };
    match rule {
        ProbeRule::ExitZero => if zero {
            ProbeStatus::Detected
        } else {
            ProbeStatus::Failed
        },
        ProbeRule::ExitZeroPresent => if zero {
            ProbeStatus::Detected
        } else {
            ProbeStatus::NotPresent
        },
        ProbeRule::UnitActive => if eq_str(trim_chars(to_chars(out.stdout.as_str()).as_slice()).as_slice(), "active") {
            ProbeStatus::Detected
        } else {
            ProbeStatus::NotPresent
        },
        ProbeRule::UfwActive => if zero && ufw_active_exec(out.stdout.as_str()) {
            ProbeStatus::Detected
        } else {
            ProbeStatus::NotPresent
        },
        ProbeRule::ServiceEnabled => if zero && eq_str(trim_chars(to_chars(out.stdout.as_str()).as_slice()).as_slice(), "enabled") {
            ProbeStatus::Detected
        } else {
            ProbeStatus::NotPresent
        },
    }
}

/// Turns one command's outcome into a probe result.
pub fn probe_result(name: &str, rule: ProbeRule, outcome: &Result<CommandOutput, CommandError>) -> (r: ProbeResult)
    ensures
        r@ == probe_view(name@, rule, *outcome),
{
    match outcome {
        Ok(out) => ProbeResult {
            name: name.to_owned(),
            status: classify_exec(rule, out),
            detail: truncate_detail(out.stdout.as_str()),
        },
        Err(CommandError::Unavailable(p)) => {
            let mut d = to_chars(p.as_str());
            push_str(&mut d, " not found");
            ProbeResult { name: name.to_owned(), status: ProbeStatus::Unavailable, detail: from_chars(d.as_slice()) }
        },
        Err(e) => ProbeResult { name: name.to_owned(), status: ProbeStatus::Failed, detail: e.to_message() },
    }
}

// ---------------------------------------------------------------------------
// The commands discovery runs
// ---------------------------------------------------------------------------

/// The commands discovery runs, in order: the fixed probes, the check of the
/// gateway's own DHCP unit, the legacy-router probes, sing-box, then the
/// WireGuard tools when the tunnel is on and dnsmasq when DHCP is on.
pub open spec fn discovery_commands(cfg: AppConfig) -> Seq<(Seq<char>, Seq<Seq<char>>)> {
    let base = seq![
        ("ip"@, seq!["-j"@, "link"@]),
        ("nft"@, seq!["list"@, "tables"@]),
        ("systemctl"@, seq!["is-active"@, "NetworkManager"@]),
        ("systemctl"@, seq!["is-active"@, "docker"@]),
        ("ufw"@, seq!["status"@]),
        ("systemctl"@, seq!["is-active"@, "firewalld"@]),
        ("ss"@, seq!["-lntu"@]),
        ("iptables"@, seq!["--version"@]),
        ("systemctl"@, seq!["is-active"@, "--quiet"@, "gateway-kit-dnsmasq"@]),
        ("test"@, seq!["-f"@, "/root/work/soft-router/gateway.py"@]),
        ("systemctl"@, seq!["is-enabled"@, "gateway-firewall.service"@]),
        ("nft"@, seq!["list"@, "table"@, "inet"@, "router"@]),
        ("sing-box"@, seq!["version"@]),
        ("/usr/local/bin/sing-box"@, seq!["version"@]),
    ];
    let with_wg = if cfg.wireguard.enabled {
        base + seq![("wg"@, seq!["--version"@]), ("wg-quick"@, seq!["--help"@])]
    } else {
        base
    };
    if cfg.dhcp.enabled {
        with_wg.push(("dnsmasq"@, seq!["--version"@]))
    } else {
        with_wg
    }
}

/// The views of a command list.
pub open spec fn commands_view(v: Seq<(&str, Vec<&str>)>) -> Seq<(Seq<char>, Seq<Seq<char>>)> {
    v.map_values(|c: (&str, Vec<&str>)| (c.0@, args_view(c.1@)))
}

fn arg_list(args: &[&'static str]) -> (r: Vec<&'static str>)
    ensures
        args_view(r@) == args_view(args@),
{
    let mut v: Vec<&'static str> = Vec::new();
    let n = args.len();
    for i in 0..n
        invariant
            n == args@.len(),
            args_view(v@) == args_view(args@.take(i as int)),
    {
        let ghost before = v@;
        v.push(args[i]);
        assert(args_view(v@) =~= args_view(before).push(args@[i as int]@));
        assert(args_view(args@.take((i + 1) as int)) =~= args_view(args@.take(i as int)).push(
            args@[i as int]@,
        ));
    }
    assert(args@.take(n as int) =~= args@);
    v
}

/// The commands discovery runs for a configuration.
pub fn discovery_command_list(config: &AppConfig) -> (r: Vec<(&'static str, Vec<&'static str>)>)
    ensures
        commands_view(r@) == discovery_commands(*config),
{
    let mut v: Vec<(&'static str, Vec<&'static str>)> = Vec::new();
    v.push(("ip", arg_list(&["-j", "link"])));
    assert(args_view(v@.last().1@) == seq!["-j"@, "link"@]);
    v.push(("nft", arg_list(&["list", "tables"])));
    assert(args_view(v@.last().1@) == seq!["list"@, "tables"@]);
    v.push(("systemctl", arg_list(&["is-active", "NetworkManager"])));
    assert(args_view(v@.last().1@) == seq!["is-active"@, "NetworkManager"@]);
    v.push(("systemctl", arg_list(&["is-active", "docker"])));
    assert(args_view(v@.last().1@) == seq!["is-active"@, "docker"@]);
    v.push(("ufw", arg_list(&["status"])));
    assert(args_view(v@.last().1@) == seq!["status"@]);
    v.push(("systemctl", arg_list(&["is-active", "firewalld"])));
    assert(args_view(v@.last().1@) == seq!["is-active"@, "firewalld"@]);
    v.push(("ss", arg_list(&["-lntu"])));
    assert(args_view(v@.last().1@) == seq!["-lntu"@]);
    v.push(("iptables", arg_list(&["--version"])));
    assert(args_view(v@.last().1@) == seq!["--version"@]);
    v.push(("systemctl", arg_list(&["is-active", "--quiet", "gateway-kit-dnsmasq"])));
    assert(args_view(v@.last().1@) == seq!["is-active"@, "--quiet"@, "gateway-kit-dnsmasq"@]);
    v.push(("test", arg_list(&["-f", "/root/work/soft-router/gateway.py"])));
    assert(args_view(v@.last().1@) == seq!["-f"@, "/root/work/soft-router/gateway.py"@]);
    v.push(("systemctl", arg_list(&["is-enabled", "gateway-firewall.service"])));
    assert(args_view(v@.last().1@) == seq!["is-enabled"@, "gateway-firewall.service"@]);
    v.push(("nft", arg_list(&["list", "table", "inet", "router"])));
    assert(args_view(v@.last().1@) == seq!["list"@, "table"@, "inet"@, "router"@]);
    v.push(("sing-box", arg_list(&["version"])));
    assert(args_view(v@.last().1@) == seq!["version"@]);
    v.push(("/usr/local/bin/sing-box", arg_list(&["version"])));
    assert(args_view(v@.last().1@) == seq!["version"@]);
    if config.wireguard.enabled {
        v.push(("wg", arg_list(&["--version"])));
    assert(args_view(v@.last().1@) == seq!["--version"@]);
        v.push(("wg-quick", arg_list(&["--help"])));
    assert(args_view(v@.last().1@) == seq!["--help"@]);
    }
    if config.dhcp.enabled {
        v.push(("dnsmasq", arg_list(&["--version"])));
    assert(args_view(v@.last().1@) == seq!["--version"@]);
    }
    assert(commands_view(v@) =~= discovery_commands(*config));
    v
}

// ---------------------------------------------------------------------------
// The report
// ---------------------------------------------------------------------------

/// The probe results of the discovery outcomes, in the order of the
/// commands (the DHCP-unit check gives no probe).
pub open spec fn discovered_probes(
    cfg: AppConfig,
    o: Seq<Result<CommandOutput, CommandError>>,
) -> Seq<ProbeResultView> {
    let base = seq![
        probe_view("ip"@, ProbeRule::ExitZero, o[0]),
        probe_view("nft"@, ProbeRule::ExitZero, o[1]),
        probe_view("NetworkManager"@, ProbeRule::UnitActive, o[2]),
        probe_view("docker"@, ProbeRule::UnitActive, o[3]),
        probe_view("ufw"@, ProbeRule::UfwActive, o[4]),
        probe_view("firewalld"@, ProbeRule::UnitActive, o[5]),
        probe_view("ss"@, ProbeRule::ExitZero, o[6]),
        probe_view("iptables"@, ProbeRule::ExitZero, o[7]),
        probe_view("legacy-router-project"@, ProbeRule::ExitZeroPresent, o[9]),
        probe_view("legacy-router-service"@, ProbeRule::ServiceEnabled, o[10]),
        probe_view("legacy-router-nft"@, ProbeRule::ExitZeroPresent, o[11]),
        probe_view("sing-box"@, ProbeRule::ExitZero, o[12]),
        probe_view("sing-box-local"@, ProbeRule::ExitZero, o[13]),
    ];
    let with_wg = if cfg.wireguard.enabled {
        base + seq![
            probe_view("wg"@, ProbeRule::ExitZero, o[14]),
            probe_view("wg-quick"@, ProbeRule::ExitZero, o[15]),
        ]
    } else {
        base
    };
    if cfg.dhcp.enabled {
        with_wg.push(
            probe_view("dnsmasq"@, ProbeRule::ExitZero, o[if cfg.wireguard.enabled { 16 } else { 14 }]),
        )
    } else {
        with_wg
    }
}

pub open spec fn detected(p: ProbeResultView) -> bool {
    p.status == ProbeStatus::Detected
}

pub open spec fn conflict_view(
    id: Seq<char>,
    severity: ConflictSeverity,
    resource_id: Seq<char>,
    title: Seq<char>,
    detail: Seq<char>,
    recommendation: Seq<char>,
) -> ConflictView {
    ConflictView { id, severity, resource_id, title, detail, recommendation }
}

pub open spec fn one_if<T>(b: bool, t: T) -> Seq<T> {
    if b {
        seq![t]
    } else {
        seq![]
    }
}

/// Blocker in gateway mode, warning in observe mode.
pub open spec fn mode_severity(cfg: AppConfig) -> ConflictSeverity {
    if cfg.mode == OperatingMode::Gateway {
        ConflictSeverity::Blocker
    } else {
        ConflictSeverity::Warning
    }
}

/// The conflicts that the firewall probes show.
pub open spec fn firewall_conflicts(p: Seq<ProbeResultView>) -> Seq<ConflictView> {
    let ipt = p[7];
    one_if(
        detected(ipt) && contains(lower(ipt.detail), "legacy"@) && !contains(
            lower(ipt.detail),
            "nf_tables"@,
        ),
        conflict_view(
            "iptables-legacy"@,
            ConflictSeverity::Blocker,
            "iptables-legacy"@,
            "iptables-legacy is active"@,
            ipt.detail,
            "Use nftables (iptables-nft). Gateway-Kit will not rewrite iptables-legacy."@,
        ),
    ) + one_if(
        detected(p[4]),
        conflict_view(
            "ufw-active"@,
            ConflictSeverity::Blocker,
            "service:ufw"@,
            "UFW is active"@,
            "UFW owns host firewall policy"@,
            "Disable UFW before gateway apply; do not let Gateway-Kit rewrite UFW."@,
        ),
    ) + one_if(
        detected(p[5]),
        conflict_view(
            "firewalld-active"@,
            ConflictSeverity::Blocker,
            "service:firewalld"@,
            "firewalld is active"@,
            "firewalld owns host firewall policy"@,
            "Disable firewalld before gateway apply."@,
        ),
    ) + one_if(
        detected(p[3]),
        conflict_view(
            "docker-present"@,
            ConflictSeverity::Warning,
            "service:docker"@,
            "Docker detected"@,
            "Container bridges stay external"@,
            "Keep DHCP off of any port Docker already binds."@,
        ),
    )
}

pub open spec fn missing_nic(name: Seq<char>) -> ConflictView {
    conflict_view(
        "missing-"@ + name,
        ConflictSeverity::Blocker,
        "iface:"@ + name,
        "No "@ + name + " interface"@,
        "gateway mode needs named NICs"@,
        "Set interface names in config or wizard."@,
    )
}

/// The conflicts of the interface names, in gateway mode only.
pub open spec fn nic_conflicts(cfg: AppConfig) -> Seq<ConflictView> {
    let wan = cfg.wan.interface@;
    let lan = cfg.lan.interface@;
    if cfg.mode == OperatingMode::Gateway {
        one_if(wan.len() == 0, missing_nic("wan"@)) + one_if(lan.len() == 0, missing_nic("lan"@))
            + one_if(
            wan == lan && wan.len() > 0,
            conflict_view(
                "wan-lan-same"@,
                ConflictSeverity::Blocker,
                "iface:"@ + wan,
                "WAN and LAN are the same NIC"@,
                "split routing needs two interfaces"@,
                "Pick distinct WAN and LAN device names."@,
            ),
        )
    } else {
        seq![]
    }
}

/// The conflict of another DHCP server on port 67, unless it is the
/// gateway's own.
pub open spec fn dhcp_conflicts(cfg: AppConfig, p: Seq<ProbeResultView>, own_dhcp: bool) -> Seq<
    ConflictView,
> {
    one_if(
        cfg.dhcp.enabled && !own_dhcp && contains(p[6].detail, ":67"@),
        conflict_view(
            "dhcp-port"@,
            ConflictSeverity::Blocker,
            "port:67/udp"@,
            "DHCP port in use"@,
            p[6].detail,
            "Disable the other DHCP server or disable Gateway-Kit DHCP."@,
        ),
    )
}

/// The conflicts of a legacy router installation and of missing data-plane
/// programs.
pub open spec fn install_conflicts(cfg: AppConfig, p: Seq<ProbeResultView>) -> Seq<ConflictView> {
    let sev = mode_severity(cfg);
    let dnsmasq_at: int = if cfg.wireguard.enabled {
        15
    } else {
        13
    };
    one_if(
        detected(p[8]) || detected(p[9]) || detected(p[10]),
        conflict_view(
            "legacy-router-installed"@,
            sev,
            "legacy:soft-router"@,
            "Legacy Python Router installation detected"@,
            "The old router project or its gateway-firewall service still owns shared LAN/proxy resources."@,
            "Back up and explicitly migrate/disable the legacy installation before Gateway-Kit apply; do not flush Docker or global nftables rules."@,
        ),
    ) + one_if(
        !detected(p[11]) && !detected(p[12]),
        conflict_view(
            "missing-sing-box"@,
            sev,
            "bin:sing-box"@,
            "sing-box is not installed"@,
            "gateway apply starts tproxy via sing-box; without it LAN overseas traffic blackholes"@,
            "Install the official sing-box binary into PATH or /usr/local/bin before confirm apply."@,
        ),
    ) + one_if(
        cfg.wireguard.enabled && !detected(p[13]) && !detected(p[14]),
        conflict_view(
            "missing-wg"@,
            sev,
            "bin:wg"@,
            "wireguard-tools is not installed"@,
            "gateway apply needs wg / wg-quick for the VPS tunnel"@,
            "apt-get install wireguard-tools"@,
        ),
    ) + one_if(
        cfg.dhcp.enabled && !detected(p[dnsmasq_at]),
        conflict_view(
            "missing-dnsmasq"@,
            sev,
            "bin:dnsmasq"@,
            "dnsmasq is not installed"@,
            "DHCP is enabled but dnsmasq is missing"@,
            "apt-get install dnsmasq, or disable DHCP in the wizard."@,
        ),
    )
}

/// A host on which firewalld is running blocks gateway apply: whenever the
/// report's `firewalld` probe is detected, the report holds the conflict
/// `firewalld-active` with blocker severity, whatever the mode and whatever
/// else the host answered.
pub proof fn lemma_firewalld_blocks(cfg: AppConfig, o: Seq<Result<CommandOutput, CommandError>>)
    ensures
        forall|i: int|
            0 <= i < spec_discover(cfg, o).probes.len() && (#[trigger] spec_discover(cfg, o).probes[i]).name
                == "firewalld"@ && spec_discover(cfg, o).probes[i].status == ProbeStatus::Detected
                ==> exists|j: int|
                0 <= j < spec_discover(cfg, o).conflicts.len() && (#[trigger] spec_discover(
                    cfg,
                    o,
                ).conflicts[j]).id == "firewalld-active"@ && spec_discover(cfg, o).conflicts[j].severity
                    == ConflictSeverity::Blocker,
{
    let r = spec_discover(cfg, o);
    let p = r.probes;
    reveal_strlit("firewalld");
    reveal_strlit("ip");
    reveal_strlit("nft");
    reveal_strlit("NetworkManager");
    reveal_strlit("docker");
    reveal_strlit("ufw");
    reveal_strlit("ss");
    reveal_strlit("iptables");
    reveal_strlit("legacy-router-project");
    reveal_strlit("legacy-router-service");
    reveal_strlit("legacy-router-nft");
    reveal_strlit("sing-box");
    reveal_strlit("sing-box-local");
    reveal_strlit("wg");
    reveal_strlit("wg-quick");
    reveal_strlit("dnsmasq");
    assert forall|i: int|
        0 <= i < p.len() && (#[trigger] p[i]).name == "firewalld"@ && p[i].status
            == ProbeStatus::Detected implies exists|j: int|
        0 <= j < r.conflicts.len() && (#[trigger] r.conflicts[j]).id == "firewalld-active"@
            && r.conflicts[j].severity == ConflictSeverity::Blocker by {
        assert(p[i].name.len() == 9);
        assert(i == 5);
        let ipt = p[7];
        let a = one_if(
            detected(ipt) && contains(lower(ipt.detail), "legacy"@) && !contains(
                lower(ipt.detail),
                "nf_tables"@,
            ),
            conflict_view(
                "iptables-legacy"@,
                ConflictSeverity::Blocker,
                "iptables-legacy"@,
                "iptables-legacy is active"@,
                ipt.detail,
                "Use nftables (iptables-nft). Gateway-Kit will not rewrite iptables-legacy."@,
            ),
        );
        let b = one_if(
            detected(p[4]),
            conflict_view(
                "ufw-active"@,
                ConflictSeverity::Blocker,
                "service:ufw"@,
                "UFW is active"@,
                "UFW owns host firewall policy"@,
                "Disable UFW before gateway apply; do not let Gateway-Kit rewrite UFW."@,
            ),
        );
        let k = (a.len() + b.len()) as int;
        assert(r.conflicts[k].id == "firewalld-active"@);
    }
}

/// A host on which UFW is active blocks gateway apply: whenever the
/// report's `ufw` probe is detected, the report holds the conflict
/// `ufw-active` with blocker severity, whatever the mode and whatever
/// else the host answered.
pub proof fn lemma_ufw_blocks(cfg: AppConfig, o: Seq<Result<CommandOutput, CommandError>>)
    ensures
        forall|i: int|
            0 <= i < spec_discover(cfg, o).probes.len() && (#[trigger] spec_discover(cfg, o).probes[i]).name
                == "ufw"@ && spec_discover(cfg, o).probes[i].status == ProbeStatus::Detected
                ==> exists|j: int|
                0 <= j < spec_discover(cfg, o).conflicts.len() && (#[trigger] spec_discover(
                    cfg,
                    o,
                ).conflicts[j]).id == "ufw-active"@ && spec_discover(cfg, o).conflicts[j].severity
                    == ConflictSeverity::Blocker,
{
    let r = spec_discover(cfg, o);
    let p = r.probes;
    reveal_strlit("firewalld");
    reveal_strlit("ip");
    reveal_strlit("nft");
    reveal_strlit("NetworkManager");
    reveal_strlit("docker");
    reveal_strlit("ufw");
    reveal_strlit("ss");
    reveal_strlit("iptables");
    reveal_strlit("legacy-router-project");
    reveal_strlit("legacy-router-service");
    reveal_strlit("legacy-router-nft");
    reveal_strlit("sing-box");
    reveal_strlit("sing-box-local");
    reveal_strlit("wg");
    reveal_strlit("wg-quick");
    reveal_strlit("dnsmasq");
    assert forall|i: int|
        0 <= i < p.len() && (#[trigger] p[i]).name == "ufw"@ && p[i].status
            == ProbeStatus::Detected implies exists|j: int|
        0 <= j < r.conflicts.len() && (#[trigger] r.conflicts[j]).id == "ufw-active"@
            && r.conflicts[j].severity == ConflictSeverity::Blocker by {
        assert(p[i].name.len() == 3);
        assert(p[i].name[0] == 'u');
        assert(i == 4);
        let ipt = p[7];
        let a = one_if(
            detected(ipt) && contains(lower(ipt.detail), "legacy"@) && !contains(
                lower(ipt.detail),
                "nf_tables"@,
            ),
            conflict_view(
                "iptables-legacy"@,
                ConflictSeverity::Blocker,
                "iptables-legacy"@,
                "iptables-legacy is active"@,
                ipt.detail,
                "Use nftables (iptables-nft). Gateway-Kit will not rewrite iptables-legacy."@,
            ),
        );
        let b = one_if(
            detected(p[4]),
            conflict_view(
                "ufw-active"@,
                ConflictSeverity::Blocker,
                "service:ufw"@,
                "UFW is active"@,
                "UFW owns host firewall policy"@,
                "Disable UFW before gateway apply; do not let Gateway-Kit rewrite UFW."@,
            ),
        );
        let k = a.len() as int;
        assert(r.conflicts[k].id == "ufw-active"@);
    }
}

/// All conflicts, in the order discovery reports them.
pub open spec fn discovered_conflicts(cfg: AppConfig, p: Seq<ProbeResultView>, own_dhcp: bool) -> Seq<
    ConflictView,
> {
    firewall_conflicts(p) + nic_conflicts(cfg) + dhcp_conflicts(cfg, p, own_dhcp)
        + install_conflicts(cfg, p)
}

/// The observations: the gateway's own nft table, and Docker.
pub open spec fn discovered_observations(p: Seq<ProbeResultView>) -> Seq<ResourceObservationView> {
    one_if(
        detected(p[1]) && contains(p[1].detail, NFT_TABLE@),
        ResourceObservationView {
            resource_id: "nft:"@ + NFT_TABLE@,
            resource_type: ResourceType::NftTable,
            ownership: Ownership::Managed,
            owner: ResourceOwner::Gateway,
            summary: "gateway_kit nft table present"@,
        },
    ) + one_if(
        detected(p[3]),
        ResourceObservationView {
            resource_id: "service:docker"@,
            resource_type: ResourceType::Service,
            ownership: Ownership::External,
            owner: ResourceOwner::Docker,
            summary: "Docker present; docker0 will not be modified"@,
        },
    )
}

/// The gateway's own DHCP unit answered active.
pub open spec fn own_dhcp_active(o: Result<CommandOutput, CommandError>) -> bool {
    o matches Ok(out) && out.status == Some(0i32)
}

/// The preflight report of a configuration, given the outcomes of
/// `discovery_commands` in order.
pub open spec fn spec_discover(cfg: AppConfig, o: Seq<Result<CommandOutput, CommandError>>) -> PreflightReportView {
    let p = discovered_probes(cfg, o);
    PreflightReportView {
        observations: discovered_observations(p),
        conflicts: discovered_conflicts(cfg, p, own_dhcp_active(o[8])),
        probes: p,
        interfaces: spec_parse_interface_names(p[0].detail),
    }
}

pub open spec fn probes_view(v: Seq<ProbeResult>) -> Seq<ProbeResultView> {
    v.map_values(|p: ProbeResult| p@)
}

pub open spec fn conflicts_view(v: Seq<Conflict>) -> Seq<ConflictView> {
    v.map_values(|c: Conflict| c@)
}

fn conflict(
    id: String,
    severity: ConflictSeverity,
    resource_id: String,
    title: String,
    detail: String,
    recommendation: &str,
) -> (r: Conflict)
    ensures
        r@ == conflict_view(id@, severity, resource_id@, title@, detail@, recommendation@),
{
    Conflict { id, severity, resource_id, title, detail, recommendation: recommendation.to_owned() }
}

fn push_conflict(out: &mut Vec<Conflict>, c: Conflict)
    ensures
        conflicts_view(final(out)@) == conflicts_view(old(out)@).push(c@),
{
    out.push(c);
    assert(conflicts_view(out@) =~= conflicts_view(old(out)@).push(c@));
}

fn text(s: &str) -> (r: String)
    ensures
        r@ == s@,
{
    s.to_owned()
}

fn joined(a: &str, b: &str) -> (r: String)
    ensures
        r@ == a@ + b@,
{
    let mut v = to_chars(a);
    push_str(&mut v, b);
    from_chars(v.as_slice())
}

fn is_detected(p: &ProbeResult) -> (r: bool)
    ensures
        r == detected(p@),
{
    p.status == ProbeStatus::Detected
}

fn discovered_probes_exec(config: &AppConfig, o: &Vec<Result<CommandOutput, CommandError>>) -> (r: Vec<ProbeResult>)
    requires
        o@.len() == discovery_commands(*config).len(),
    ensures
        probes_view(r@) == discovered_probes(*config, o@),
        r@.len() == 13 + (if config.wireguard.enabled { 2int } else { 0int }) + (if config.dhcp.enabled { 1int } else { 0int }),
{
    let mut v: Vec<ProbeResult> = Vec::new();
    v.push(probe_result("ip", ProbeRule::ExitZero, &o[0]));
    v.push(probe_result("nft", ProbeRule::ExitZero, &o[1]));
    v.push(probe_result("NetworkManager", ProbeRule::UnitActive, &o[2]));
    v.push(probe_result("docker", ProbeRule::UnitActive, &o[3]));
    v.push(probe_result("ufw", ProbeRule::UfwActive, &o[4]));
    v.push(probe_result("firewalld", ProbeRule::UnitActive, &o[5]));
    v.push(probe_result("ss", ProbeRule::ExitZero, &o[6]));
    v.push(probe_result("iptables", ProbeRule::ExitZero, &o[7]));
    v.push(probe_result("legacy-router-project", ProbeRule::ExitZeroPresent, &o[9]));
    v.push(probe_result("legacy-router-service", ProbeRule::ServiceEnabled, &o[10]));
    v.push(probe_result("legacy-router-nft", ProbeRule::ExitZeroPresent, &o[11]));
    v.push(probe_result("sing-box", ProbeRule::ExitZero, &o[12]));
    v.push(probe_result("sing-box-local", ProbeRule::ExitZero, &o[13]));
    if config.wireguard.enabled {
        v.push(probe_result("wg", ProbeRule::ExitZero, &o[14]));
        v.push(probe_result("wg-quick", ProbeRule::ExitZero, &o[15]));
    }
    if config.dhcp.enabled {
        let at: usize = if config.wireguard.enabled {
            16
        } else {
            14
        };
        v.push(probe_result("dnsmasq", ProbeRule::ExitZero, &o[at]));
    }
    assert(probes_view(v@) =~= discovered_probes(*config, o@));
    v
}

fn firewall_conflicts_exec(p: &Vec<ProbeResult>, out: &mut Vec<Conflict>)
    requires
        p@.len() >= 13,
    ensures
        conflicts_view(final(out)@) == conflicts_view(old(out)@) + firewall_conflicts(probes_view(p@)),
{
    let ghost pv = probes_view(p@);
    let ghost start = conflicts_view(out@);
    let ipt = &p[7];
    let low = lower_chars(to_chars(ipt.detail.as_str()).as_slice());
    if is_detected(ipt) && contains_str(low.as_slice(), "legacy") && !contains_str(low.as_slice(), "nf_tables") {
        push_conflict(
            out,
            conflict(
                text("iptables-legacy"),
                ConflictSeverity::Blocker,
                text("iptables-legacy"),
                text("iptables-legacy is active"),
                ipt.detail.clone(),
                "Use nftables (iptables-nft). Gateway-Kit will not rewrite iptables-legacy.",
            ),
        );
    }
    let ghost s1 = conflicts_view(out@);
    if is_detected(&p[4]) {
        push_conflict(
            out,
            conflict(
                text("ufw-active"),
                ConflictSeverity::Blocker,
                text("service:ufw"),
                text("UFW is active"),
                text("UFW owns host firewall policy"),
                "Disable UFW before gateway apply; do not let Gateway-Kit rewrite UFW.",
            ),
        );
    }
    let ghost s2 = conflicts_view(out@);
    if is_detected(&p[5]) {
        push_conflict(
            out,
            conflict(
                text("firewalld-active"),
                ConflictSeverity::Blocker,
                text("service:firewalld"),
                text("firewalld is active"),
                text("firewalld owns host firewall policy"),
                "Disable firewalld before gateway apply.",
            ),
        );
    }
    let ghost s3 = conflicts_view(out@);
    if is_detected(&p[3]) {
        push_conflict(
            out,
            conflict(
                text("docker-present"),
                ConflictSeverity::Warning,
                text("service:docker"),
                text("Docker detected"),
                text("Container bridges stay external"),
                "Keep DHCP off of any port Docker already binds.",
            ),
        );
    }
    proof {
        assert(pv[7] == p@[7]@);
        assert(pv[4] == p@[4]@);
        assert(pv[5] == p@[5]@);
        assert(pv[3] == p@[3]@);
    }
    assert(conflicts_view(out@) =~= start + firewall_conflicts(pv));
}

fn nic_conflicts_exec(config: &AppConfig, out: &mut Vec<Conflict>)
    ensures
        conflicts_view(final(out)@) == conflicts_view(old(out)@) + nic_conflicts(*config),
{
    let ghost start = conflicts_view(out@);
    if config.mode == OperatingMode::Gateway {
        let wan = to_chars(config.wan.interface.as_str());
        let lan = to_chars(config.lan.interface.as_str());
        if wan.len() == 0 {
            push_conflict(
                out,
                conflict(
                    joined("missing-", "wan"),
                    ConflictSeverity::Blocker,
                    joined("iface:", "wan"),
                    joined("No wan", " interface"),
                    text("gateway mode needs named NICs"),
                    "Set interface names in config or wizard.",
                ),
            );
            proof {
                reveal_strlit("No ");
                reveal_strlit("No wan");
                reveal_strlit("wan");
                assert("No wan"@ =~= "No "@ + "wan"@);
            }
        }
        let ghost s1 = conflicts_view(out@);
        if lan.len() == 0 {
            push_conflict(
                out,
                conflict(
                    joined("missing-", "lan"),
                    ConflictSeverity::Blocker,
                    joined("iface:", "lan"),
                    joined("No lan", " interface"),
                    text("gateway mode needs named NICs"),
                    "Set interface names in config or wizard.",
                ),
            );
            proof {
                reveal_strlit("No ");
                reveal_strlit("No lan");
                reveal_strlit("lan");
                assert("No lan"@ =~= "No "@ + "lan"@);
            }
        }
        let ghost s2 = conflicts_view(out@);
        if crate::text::chars_eq(wan.as_slice(), lan.as_slice()) && wan.len() > 0 {
            push_conflict(
                out,
                conflict(
                    text("wan-lan-same"),
                    ConflictSeverity::Blocker,
                    joined("iface:", config.wan.interface.as_str()),
                    text("WAN and LAN are the same NIC"),
                    text("split routing needs two interfaces"),
                    "Pick distinct WAN and LAN device names.",
                ),
            );
        }
        assert(conflicts_view(out@) =~= start + nic_conflicts(*config));
    } else {
        assert(conflicts_view(out@) =~= start + nic_conflicts(*config));
    }
}

fn dhcp_conflicts_exec(config: &AppConfig, p: &Vec<ProbeResult>, own_dhcp: bool, out: &mut Vec<Conflict>)
    requires
        p@.len() >= 13,
    ensures
        conflicts_view(final(out)@) == conflicts_view(old(out)@) + dhcp_conflicts(
            *config,
            probes_view(p@),
            own_dhcp,
        ),
{
    let ghost start = conflicts_view(out@);
    let ss = &p[6];
    assert(probes_view(p@)[6] == p@[6]@);
    if config.dhcp.enabled && !own_dhcp && contains_str(to_chars(ss.detail.as_str()).as_slice(), ":67") {
        push_conflict(
            out,
            conflict(
                text("dhcp-port"),
                ConflictSeverity::Blocker,
                text("port:67/udp"),
                text("DHCP port in use"),
                ss.detail.clone(),
                "Disable the other DHCP server or disable Gateway-Kit DHCP.",
            ),
        );
    }
    assert(conflicts_view(out@) =~= start + dhcp_conflicts(*config, probes_view(p@), own_dhcp));
}

fn install_conflicts_exec(config: &AppConfig, p: &Vec<ProbeResult>, out: &mut Vec<Conflict>)
    requires
        p@.len() == 13 + (if config.wireguard.enabled { 2int } else { 0int }) + (if config.dhcp.enabled { 1int } else { 0int }),
    ensures
        conflicts_view(final(out)@) == conflicts_view(old(out)@) + install_conflicts(
            *config,
            probes_view(p@),
        ),
{
    let ghost pv = probes_view(p@);
    let ghost start = conflicts_view(out@);
    let sev = if config.mode == OperatingMode::Gateway {
        ConflictSeverity::Blocker
    } else {
        ConflictSeverity::Warning
    };
    assert(pv[8] == p@[8]@ && pv[9] == p@[9]@ && pv[10] == p@[10]@);
    assert(pv[11] == p@[11]@ && pv[12] == p@[12]@);
    if is_detected(&p[8]) || is_detected(&p[9]) || is_detected(&p[10]) {
        push_conflict(
            out,
            conflict(
                text("legacy-router-installed"),
                sev,
                text("legacy:soft-router"),
                text("Legacy Python Router installation detected"),
                text("The old router project or its gateway-firewall service still owns shared LAN/proxy resources."),
                "Back up and explicitly migrate/disable the legacy installation before Gateway-Kit apply; do not flush Docker or global nftables rules.",
            ),
        );
    }
    let ghost s1 = conflicts_view(out@);
    if !is_detected(&p[11]) && !is_detected(&p[12]) {
        push_conflict(
            out,
            conflict(
                text("missing-sing-box"),
                sev,
                text("bin:sing-box"),
                text("sing-box is not installed"),
                text("gateway apply starts tproxy via sing-box; without it LAN overseas traffic blackholes"),
                "Install the official sing-box binary into PATH or /usr/local/bin before confirm apply.",
            ),
        );
    }
    let ghost s2 = conflicts_view(out@);
    if config.wireguard.enabled {
        assert(pv[13] == p@[13]@ && pv[14] == p@[14]@);
        if !is_detected(&p[13]) && !is_detected(&p[14]) {
            push_conflict(
                out,
                conflict(
                    text("missing-wg"),
                    sev,
                    text("bin:wg"),
                    text("wireguard-tools is not installed"),
                    text("gateway apply needs wg / wg-quick for the VPS tunnel"),
                    "apt-get install wireguard-tools",
                ),
            );
        }
    }
    let ghost s3 = conflicts_view(out@);
    if config.dhcp.enabled {
        let at: usize = if config.wireguard.enabled {
            15
        } else {
            13
        };
        assert(pv[at as int] == p@[at as int]@);
        if !is_detected(&p[at]) {
            push_conflict(
                out,
                conflict(
                    text("missing-dnsmasq"),
                    sev,
                    text("bin:dnsmasq"),
                    text("dnsmasq is not installed"),
                    text("DHCP is enabled but dnsmasq is missing"),
                    "apt-get install dnsmasq, or disable DHCP in the wizard.",
                ),
            );
        }
    }
    assert(conflicts_view(out@) =~= start + install_conflicts(*config, pv));
}

fn observations_exec(p: &Vec<ProbeResult>) -> (r: Vec<ResourceObservation>)
    requires
        p@.len() >= 13,
    ensures
        r@.map_values(|o: ResourceObservation| o@) == discovered_observations(probes_view(p@)),
{
    let ghost pv = probes_view(p@);
    assert(pv[1] == p@[1]@ && pv[3] == p@[3]@);
    let mut v: Vec<ResourceObservation> = Vec::new();
    if is_detected(&p[1]) && contains_str(to_chars(p[1].detail.as_str()).as_slice(), NFT_TABLE) {
        v.push(
            ResourceObservation {
                resource_id: joined("nft:", NFT_TABLE),
                resource_type: ResourceType::NftTable,
                ownership: Ownership::Managed,
                owner: ResourceOwner::Gateway,
                summary: text("gateway_kit nft table present"),
            },
        );
    }
    if is_detected(&p[3]) {
        v.push(
            ResourceObservation {
                resource_id: text("service:docker"),
                resource_type: ResourceType::Service,
                ownership: Ownership::External,
                owner: ResourceOwner::Docker,
                summary: text("Docker present; docker0 will not be modified"),
            },
        );
    }
    assert(v@.map_values(|o: ResourceObservation| o@) =~= discovered_observations(pv));
    v
}

/// Builds the preflight report from the outcomes of `discovery_commands`,
/// given in order.
pub fn assemble_report(config: &AppConfig, outcomes: &Vec<Result<CommandOutput, CommandError>>) -> (r: PreflightReport)
    requires
        outcomes@.len() == discovery_commands(*config).len(),
    ensures
        r@ == spec_discover(*config, outcomes@),
{
    let probes = discovered_probes_exec(config, outcomes);
    let own_dhcp = match &outcomes[8] {
        Ok(out) => match out.status {
            Some(c) => c == 0,
            None => false,
        },
        Err(_) => false,
    };
    let mut conflicts: Vec<Conflict> = Vec::new();
    firewall_conflicts_exec(&probes, &mut conflicts);
    nic_conflicts_exec(config, &mut conflicts);
    dhcp_conflicts_exec(config, &probes, own_dhcp, &mut conflicts);
    install_conflicts_exec(config, &probes, &mut conflicts);
    let observations = observations_exec(&probes);
    assert(probes_view(probes@)[0] == probes@[0]@);
    let interfaces = parse_interface_names(probes[0].detail.as_str());
    let ghost pv = probes_view(probes@);
    assert(conflicts_view(conflicts@) =~= discovered_conflicts(*config, pv, own_dhcp_active(outcomes@[8])));
    PreflightReport { observations, conflicts, probes, interfaces }
}

/// Probes the host read-only and reports what gateway mode would collide
/// with. The commands run are `discovery_commands(config)`, in order; the
/// report is what `assemble_report` makes of their outcomes (for a runner
/// that keeps a log, of the answers it logged).
pub fn discover_host<R: CommandRunner>(config: &AppConfig, runner: &mut R) -> (r: PreflightReport)
    ensures
        exists|o: Seq<Result<CommandOutput, CommandError>>|
            o.len() == discovery_commands(*config).len() && r@ == spec_discover(*config, o),
        R::records_calls() ==> final(runner).calls() == old(runner).calls() + discovery_commands(
            *config,
        ),
        R::records_calls() ==> final(runner).answers().len() == old(runner).answers().len()
            + discovery_commands(*config).len() && r@ == spec_discover(
            *config,
            final(runner).answers().skip(old(runner).answers().len() as int),
        ),
{
    let ghost a0 = runner.answers();
    let commands = discovery_command_list(config);
    let ghost cv = commands_view(commands@);
    let mut outcomes: Vec<Result<CommandOutput, CommandError>> = Vec::new();
    let n = commands.len();
    assert(cv.take(0) =~= Seq::<(Seq<char>, Seq<Seq<char>>)>::empty());
    for i in 0..n
        invariant
            n == commands@.len(),
            outcomes@.len() == i,
            cv == commands_view(commands@),
            R::records_calls() ==> runner.calls() == old(runner).calls() + cv.take(i as int),
            R::records_calls() ==> runner.answers() == a0 + outcomes@,
    {
        let outcome = runner.run(commands[i].0, commands[i].1.as_slice());
        assert(cv[i as int] == (commands@[i as int].0@, args_view(commands@[i as int].1@)));
        assert(cv.take((i + 1) as int) =~= cv.take(i as int).push(cv[i as int]));
        let ghost before = outcomes@;
        outcomes.push(outcome);
        assert(a0 + outcomes@ =~= (a0 + before).push(outcome));
    }
    assert(R::records_calls() ==> runner.answers().skip(a0.len() as int) =~= outcomes@);
    assert(cv.take(n as int) =~= cv);
    assert(commands_view(commands@).len() == n);
    let r = assemble_report(config, &outcomes);
    assert(outcomes@.len() == discovery_commands(*config).len() && r@ == spec_discover(*config, outcomes@));
    r
}

} // verus!

//! Post-apply health: is the data plane the gateway installed still in place,
//! and are its uplinks answering. Reads no secrets.

use vstd::prelude::*;

use crate::command::{args_view, CommandError, CommandOutput, CommandRunner};
use crate::model::{
    strs_view, AppConfig, HealthSnapshot, HealthSnapshotView, HealthStatus, DNS_PROXY_PORT,
    TPROXY_PORT,
};
use crate::text::{
    contains, contains_str, decimal, decimal_chars, eq_str, from_chars, is_ws, is_ws_char, lines,
    lines_of, push_all, push_decimal, push_str, slice_of, to_chars, trim, trim_chars,
};

verus! {

// ---------------------------------------------------------------------------
// Uplinks
// ---------------------------------------------------------------------------

/// The non-whitespace run at the end of `s`.
pub open spec fn word_suffix(s: Seq<char>) -> Seq<char>
    decreases s.len(),
{
    if s.len() == 0 || is_ws(s.last()) {
        Seq::empty()
    } else {
        word_suffix(s.drop_last()).push(s.last())
    }
}

/// The last whitespace-separated word of `s` (`split_whitespace().last()`).
pub open spec fn last_word(s: Seq<char>) -> Option<Seq<char>>
    decreases s.len(),
{
    if s.len() == 0 {
        None
    } else if is_ws(s.last()) {
        last_word(s.drop_last())
    } else {
        Some(word_suffix(s))
    }
}

/// A `latest-handshakes` line whose timestamp says there was none.
pub open spec fn no_handshake_line(l: Seq<char>) -> bool {
    match last_word(l) {
        None => true,
        Some(w) => w == "0"@ || w == "(none)"@,
    }
}

/// `wg show <if> latest-handshakes` reports no handshake on any peer.
pub open spec fn handshake_never(stdout: Seq<char>) -> bool {
    let body = trim(stdout);
    body.len() == 0 || forall|i: int| 0 <= i < lines(body).len() ==> no_handshake_line(
        #[trigger] lines(body)[i],
    )
}

fn last_word_of(s: &[char]) -> (r: Option<Vec<char>>)
    ensures
        match r {
            Some(w) => last_word(s@) == Some(w@),
            None => last_word(s@) is None,
        },
{
    let n = s.len();
    let mut k: usize = n;
    assert(s@.take(n as int) =~= s@);
    while k > 0 && is_ws_char(s[k - 1])
        invariant
            k <= n == s@.len(),
            last_word(s@) == last_word(s@.take(k as int)),
        decreases k,
    {
        assert(s@.take(k as int).drop_last() =~= s@.take(k - 1));
        k = k - 1;
    }
    if k == 0 {
        return None;
    }
    let mut j: usize = k;
    assert(s@.subrange(k as int, k as int) =~= Seq::<char>::empty());
    assert(word_suffix(s@.take(k as int)) =~= word_suffix(s@.take(k as int)) + s@.subrange(k as int, k as int));
    while j > 0 && !is_ws_char(s[j - 1])
        invariant
            j <= k <= n == s@.len(),
            word_suffix(s@.take(k as int)) == word_suffix(s@.take(j as int)) + s@.subrange(j as int, k as int),
        decreases j,
    {
        assert(s@.take(j as int).drop_last() =~= s@.take(j - 1));
        assert(s@.subrange(j - 1, k as int) =~= seq![s@[j - 1]] + s@.subrange(j as int, k as int));
        assert(word_suffix(s@.take(j as int)) == word_suffix(s@.take(j - 1)).push(s@[j - 1]));
        assert(word_suffix(s@.take(j - 1)).push(s@[j - 1]) + s@.subrange(j as int, k as int) =~= word_suffix(s@.take(j - 1)) + s@.subrange(j - 1, k as int));
        j = j - 1;
    }
    assert(word_suffix(s@.take(j as int)) == Seq::<char>::empty());
    assert(word_suffix(s@.take(k as int)) =~= s@.subrange(j as int, k as int));
    Some(slice_of(s, j, k))
}

/// Whether the `latest-handshakes` output shows no handshake yet.
pub fn handshake_never_exec(stdout: &str) -> (r: bool)
    ensures
        r == handshake_never(stdout@),
{
    let body = trim_chars(to_chars(stdout).as_slice());
    if body.len() == 0 {
        return true;
    }
    let ls = lines_of(body.as_slice());
    let ghost lv = lines(body@);
    let n = ls.len();
    for i in 0..n
        invariant
            n == ls@.len(),
            ls@.map_values(|v: Vec<char>| v@) == lv,
            lv == lines(trim(stdout@)),
            forall|j: int| 0 <= j < i ==> no_handshake_line(#[trigger] lv[j]),
    {
        assert(lv[i as int] == ls@[i as int]@);
        let ok = match last_word_of(ls[i].as_slice()) {
            None => true,
            Some(w) => eq_str(w.as_slice(), "0") || eq_str(w.as_slice(), "(none)"),
        };
        if !ok {
            assert(!no_handshake_line(lv[i as int]));
            return false;
        }
    }
    true
}

/// The WAN gateway to ping: the configured one, trimmed, when not blank.
pub open spec fn ping_target(cfg: AppConfig) -> Option<Seq<char>> {
    match cfg.wan.gateway {
        Some(g) => if trim(g@).len() > 0 {
            Some(trim(g@))
        } else {
            None
        },
        None => None,
    }
}

/// The tunnel is on and has a named interface.
pub open spec fn tunnel_named(cfg: AppConfig) -> bool {
    cfg.wireguard.enabled && cfg.wireguard.interface@.len() > 0
}

/// The uplink commands: a ping of the WAN gateway, then the tunnel's
/// handshakes, each only where it applies.
pub open spec fn uplink_commands(cfg: AppConfig) -> Seq<(Seq<char>, Seq<Seq<char>>)> {
    let ping = match ping_target(cfg) {
        Some(g) => seq![("ping"@, seq!["-c"@, "1"@, "-W"@, "1"@, g])],
        None => seq![],
    };
    if tunnel_named(cfg) {
        ping.push(("wg"@, seq!["show"@, cfg.wireguard.interface@, "latest-handshakes"@]))
    } else {
        ping
    }
}

pub open spec fn exit_zero(o: Result<CommandOutput, CommandError>) -> bool {
    o matches Ok(out) && out.status == Some(0i32)
}

/// The WAN uplink, the tunnel uplink and the notes, from the outcomes of
/// `uplink_commands`: `up`/`down` (a ping that did not answer adds a note)
/// or `unknown` without a gateway; for the tunnel `down` with a note when
/// there was no handshake yet, `up`, `unknown` when `wg` failed, or `idle`
/// when the tunnel is off.
pub open spec fn spec_uplinks(cfg: AppConfig, o: Seq<Result<CommandOutput, CommandError>>) -> (
    Seq<char>,
    Seq<char>,
    Seq<Seq<char>>,
) {
    let (wan, notes, next): (Seq<char>, Seq<Seq<char>>, int) = match ping_target(cfg) {
        Some(g) => if exit_zero(o[0]) {
            ("up"@, seq![], 1)
        } else {
            ("down"@, seq!["上级网关 "@ + g + " ping 无应答"@], 1)
        },
        None => ("unknown"@, seq![], 0),
    };
    if tunnel_named(cfg) {
        match o[next] {
            Ok(out) => if out.status == Some(0i32) && handshake_never(out.stdout@) {
                (
                    wan,
                    "down"@,
                    notes.push("wireguard has no handshake yet (VPS/endpoint may be down)"@),
                )
            } else if out.status == Some(0i32) {
                (wan, "up"@, notes)
            } else {
                (wan, "unknown"@, notes)
            },
            Err(_) => (wan, "unknown"@, notes),
        }
    } else {
        (wan, "idle"@, notes)
    }
}

fn text(s: &str) -> (r: String)
    ensures
        r@ == s@,
{
    s.to_owned()
}

fn strings(parts: &[&str]) -> (r: Vec<String>)
    ensures
        strs_view(r@) == args_view(parts@),
{
    let mut v: Vec<String> = Vec::new();
    let n = parts.len();
    for i in 0..n
        invariant
            n == parts@.len(),
            strs_view(v@) == args_view(parts@.take(i as int)),
    {
        let ghost before = v@;
        v.push(parts[i].to_owned());
        assert(strs_view(v@) =~= strs_view(before).push(parts@[i as int]@));
        assert(args_view(parts@.take((i + 1) as int)) =~= args_view(parts@.take(i as int)).push(
            parts@[i as int]@,
        ));
    }
    assert(parts@.take(n as int) =~= parts@);
    v
}

fn run_command<R: CommandRunner>(runner: &mut R, program: &str, args: &Vec<String>) -> (r: Result<
    CommandOutput,
    CommandError,
>)
    ensures
        R::records_calls() ==> final(runner).calls() == old(runner).calls().push(
            (program@, strs_view(args@)),
        ),
        R::records_calls() ==> final(runner).answers() == old(runner).answers().push(r),
{
    let mut argv: Vec<&str> = Vec::new();
    let n = args.len();
    for i in 0..n
        invariant
            n == args@.len(),
            args_view(argv@) == strs_view(args@.take(i as int)),
    {
        let ghost before = argv@;
        argv.push(args[i].as_str());
        assert(args_view(argv@) =~= args_view(before).push(args@[i as int]@));
        assert(strs_view(args@.take((i + 1) as int)) =~= strs_view(args@.take(i as int)).push(
            args@[i as int]@,
        ));
    }
    assert(args@.take(n as int) =~= args@);
    runner.run(program, argv.as_slice())
}

fn ping_target_exec(config: &AppConfig) -> (r: Option<Vec<char>>)
    ensures
        match r {
            Some(g) => ping_target(*config) == Some(g@),
            None => ping_target(*config) is None,
        },
{
    match &config.wan.gateway {
        Some(g) => {
            let t = trim_chars(to_chars(g.as_str()).as_slice());
            if t.len() > 0 {
                Some(t)
            } else {
                None
            }
        },
        None => None,
    }
}

/// The uplink states from the outcomes of `uplink_commands`, in order.
pub fn uplinks_from(config: &AppConfig, o: &Vec<Result<CommandOutput, CommandError>>) -> (r: (
    String,
    String,
    Vec<String>,
))
    requires
        o@.len() >= uplink_commands(*config).len(),
    ensures
        (r.0@, r.1@, strs_view(r.2@)) == spec_uplinks(
            *config,
            o@.take(uplink_commands(*config).len() as int),
        ),
{
    let ghost t = o@.take(uplink_commands(*config).len() as int);
    assert(forall|k: int| 0 <= k < t.len() ==> t[k] == o@[k]);
    let mut notes: Vec<String> = Vec::new();
    let mut next: usize = 0;
    let wan = match ping_target_exec(config) {
        Some(g) => {
            next = 1;
            let ok = match &o[0] {
                Ok(out) => out.status == Some(0i32),
                Err(_) => false,
            };
            if ok {
                text("up")
            } else {
                let mut m = to_chars("上级网关 ");
                push_all(&mut m, g.as_slice());
                push_str(&mut m, " ping 无应答");
                notes.push(from_chars(m.as_slice()));
                assert(strs_view(notes@) =~= seq!["上级网关 "@ + g@ + " ping 无应答"@]);
                text("down")
            }
        },
        None => text("unknown"),
    };
    let tunnel_on = config.wireguard.enabled && !config.wireguard.interface.as_str().is_empty();
    if !tunnel_on {
        assert(strs_view(notes@) == spec_uplinks(*config, o@).2);
        return (wan, text("idle"), notes);
    }
    let ghost before = notes@;
    let tunnel = match &o[next] {
        Ok(out) => {
            let zero = out.status == Some(0i32);
            if zero && handshake_never_exec(out.stdout.as_str()) {
                notes.push(text("wireguard has no handshake yet (VPS/endpoint may be down)"));
                assert(strs_view(notes@) =~= strs_view(before).push(
                    "wireguard has no handshake yet (VPS/endpoint may be down)"@,
                ));
                text("down")
            } else if zero {
                text("up")
            } else {
                text("unknown")
            }
        },
        Err(_) => text("unknown"),
    };
    (wan, tunnel, notes)
}

/// Pings the WAN gateway and reads the tunnel's handshakes. Safe in observe

/// Runs the uplink commands, appending their outcomes.
fn run_uplink_commands<R: CommandRunner>(
    config: &AppConfig,
    runner: &mut R,
    o: &mut Vec<Result<CommandOutput, CommandError>>,
)
    ensures
        final(o)@.len() == old(o)@.len() + uplink_commands(*config).len(),
        final(o)@.take(old(o)@.len() as int) == old(o)@,
        R::records_calls() ==> final(runner).calls() == old(runner).calls() + uplink_commands(*config),
        R::records_calls() ==> final(runner).answers() == old(runner).answers() + final(o)@.skip(
            old(o)@.len() as int,
        ),
{
    let ghost c0 = runner.calls();
    let ghost a0 = runner.answers();
    let ghost o0 = o@;
    assert(o@.skip(o0.len() as int) =~= Seq::<Result<CommandOutput, CommandError>>::empty());
    match ping_target_exec(config) {
        Some(g) => {
            let gw = from_chars(g.as_slice());
            let mut args = strings(&["-c", "1", "-W", "1"]);
            let ghost a0 = strs_view(args@);
            args.push(gw);
            assert(strs_view(args@) =~= a0.push(g@));
            assert(strs_view(args@) =~= seq!["-c"@, "1"@, "-W"@, "1"@, g@]);
            let ghost before = o@;
            o.push(run_command(runner, "ping", &args));
            assert(o@.skip(o0.len() as int) =~= before.skip(o0.len() as int).push(o@.last()));
        },
        None => {},
    }
    let ghost ping = match ping_target(*config) {
        Some(g) => seq![("ping"@, seq!["-c"@, "1"@, "-W"@, "1"@, g])],
        None => Seq::<(Seq<char>, Seq<Seq<char>>)>::empty(),
    };
    assert(R::records_calls() ==> runner.calls() == c0 + ping);
    if config.wireguard.enabled && !config.wireguard.interface.as_str().is_empty() {
        let mut args = strings(&["show"]);
        let ghost a0 = strs_view(args@);
        args.push(config.wireguard.interface.clone());
        assert(strs_view(args@) =~= a0.push(config.wireguard.interface@));
        let ghost a1 = strs_view(args@);
        let tail = text("latest-handshakes");
        args.push(tail);
        assert(strs_view(args@) =~= a1.push("latest-handshakes"@));
        assert(strs_view(args@) =~= seq!["show"@, config.wireguard.interface@, "latest-handshakes"@]);
        let ghost before = o@;
        o.push(run_command(runner, "wg", &args));
        assert(o@.skip(o0.len() as int) =~= before.skip(o0.len() as int).push(o@.last()));
        assert(R::records_calls() ==> runner.calls() == c0 + ping.push(
            ("wg"@, seq!["show"@, config.wireguard.interface@, "latest-handshakes"@]),
        ));
    }
}

/// mode. The result is what `uplinks_from` makes of the outcomes.
pub fn probe_uplinks<R: CommandRunner>(config: &AppConfig, runner: &mut R) -> (r: (
    String,
    String,
    Vec<String>,
))
    ensures
        exists|o: Seq<Result<CommandOutput, CommandError>>|
            o.len() == uplink_commands(*config).len() && (r.0@, r.1@, strs_view(r.2@))
                == spec_uplinks(*config, o),
        R::records_calls() ==> final(runner).calls() == old(runner).calls() + uplink_commands(*config),
        R::records_calls() ==> final(runner).answers().len() == old(runner).answers().len()
            + uplink_commands(*config).len() && (r.0@, r.1@, strs_view(r.2@)) == spec_uplinks(
            *config,
            final(runner).answers().skip(old(runner).answers().len() as int),
        ),
{
    let mut o: Vec<Result<CommandOutput, CommandError>> = Vec::new();
    run_uplink_commands(config, runner, &mut o);
    assert(o@.skip(0) =~= o@);
    let r = uplinks_from(config, &o);
    assert(o@.len() == uplink_commands(*config).len());
    assert(o@.take(o@.len() as int) =~= o@);
    r
}

// ---------------------------------------------------------------------------
// Data-plane checks
// ---------------------------------------------------------------------------

/// One check of the installed data plane.
#[derive(Debug, Clone, PartialEq, Eq)]
pub enum HealthCheck {
    /// The gateway's nft table is loaded.
    NftTable(String),
    /// An ip rule points at the policy table (its number in decimal).
    IpRule(String),
    /// The policy table holds the local default route.
    PolicyRoute(String),
    /// The tunnel interface exists.
    WgLink(String),
    /// sing-box accepts its generated configuration file.
    SingboxCheck(String),
    /// The tproxy port listens, and the proxy's DNS port when DHCP is on.
    Listen(bool),
    /// A systemd unit is active.
    Unit(String),
}

pub enum HealthCheckView {
    NftTable(Seq<char>),
    IpRule(Seq<char>),
    PolicyRoute(Seq<char>),
    WgLink(Seq<char>),
    SingboxCheck(Seq<char>),
    Listen(bool),
    Unit(Seq<char>),
}

impl View for HealthCheck {
    type V = HealthCheckView;

    open spec fn view(&self) -> HealthCheckView {
        match self {
            HealthCheck::NftTable(t) => HealthCheckView::NftTable(t@),
            HealthCheck::IpRule(t) => HealthCheckView::IpRule(t@),
            HealthCheck::PolicyRoute(t) => HealthCheckView::PolicyRoute(t@),
            HealthCheck::WgLink(t) => HealthCheckView::WgLink(t@),
            HealthCheck::SingboxCheck(t) => HealthCheckView::SingboxCheck(t@),
            HealthCheck::Listen(b) => HealthCheckView::Listen(*b),
            HealthCheck::Unit(t) => HealthCheckView::Unit(t@),
        }
    }
}

/// The command a check runs.
pub open spec fn check_command(c: HealthCheckView) -> (Seq<char>, Seq<Seq<char>>) {
    match c {
        HealthCheckView::NftTable(t) => ("nft"@, seq!["list"@, "table"@, "inet"@, t]),
        HealthCheckView::IpRule(_) => ("ip"@, seq!["rule"@, "show"@]),
        HealthCheckView::PolicyRoute(id) => ("ip"@, seq!["route"@, "show"@, "table"@, id]),
        HealthCheckView::WgLink(i) => ("ip"@, seq!["-o"@, "link"@, "show"@, "dev"@, i]),
        HealthCheckView::SingboxCheck(p) => ("sing-box"@, seq!["check"@, "-c"@, p]),
        HealthCheckView::Listen(_) => ("ss"@, seq!["-lntu"@]),
        HealthCheckView::Unit(u) => ("systemctl"@, seq!["is-active"@, "--quiet"@, u]),
    }
}

/// The checks run after the uplinks: the nft table and ip rule always; with
/// `require_tproxy` the policy route; the tunnel link when the tunnel is on;
/// and with `require_tproxy` the sing-box file (when one is given), the
/// listening ports and the units.
pub open spec fn health_checks(cfg: AppConfig, require_tproxy: bool, singbox: Option<Seq<char>>) -> Seq<
    HealthCheckView,
> {
    let id = decimal(cfg.routing.policy_table_id as nat);
    let base = seq![HealthCheckView::NftTable(cfg.firewall.table_name@), HealthCheckView::IpRule(id)];
    let a = if require_tproxy {
        base.push(HealthCheckView::PolicyRoute(id))
    } else {
        base
    };
    let b = if tunnel_named(cfg) {
        a.push(HealthCheckView::WgLink(cfg.wireguard.interface@))
    } else {
        a
    };
    if require_tproxy {
        let c = match singbox {
            Some(p) => b.push(HealthCheckView::SingboxCheck(p)),
            None => b,
        };
        let d = c + seq![
            HealthCheckView::Listen(cfg.dhcp.enabled),
            HealthCheckView::Unit("gateway-kit-singbox"@),
            HealthCheckView::Unit("gateway-kit-forwarding"@),
        ];
        if cfg.dhcp.enabled {
            d.push(HealthCheckView::Unit("gateway-kit-dnsmasq"@))
        } else {
            d
        }
    } else {
        b
    }
}

pub open spec fn tproxy_needle() -> Seq<char> {
    seq![':'] + decimal(TPROXY_PORT as nat)
}

pub open spec fn dns_needle() -> Seq<char> {
    seq![':'] + decimal(DNS_PROXY_PORT as nat)
}

/// What one check reports as failed, given its command's outcome.
pub open spec fn check_failure(c: HealthCheckView, o: Result<CommandOutput, CommandError>) -> Seq<
    Seq<char>,
> {
    match o {
        Err(e) => match c {
            HealthCheckView::SingboxCheck(_) => seq!["sing-box config check: "@ + e.message()],
            HealthCheckView::Unit(u) => seq!["unit "@ + u + ": "@ + e.message()],
            _ => seq![e.message()],
        },
        Ok(out) => {
            let zero = out.status == Some(0i32);
            let so = out.stdout@;
            let se = out.stderr@;
            match c {
                HealthCheckView::NftTable(t) => if zero && contains(so, t) {
                    seq![]
                } else if zero {
                    seq!["nft table missing "@ + t]
                } else {
                    seq!["nft table: "@ + se]
                },
                HealthCheckView::IpRule(id) => if zero && contains(so, id) {
                    seq![]
                } else if zero {
                    seq!["ip rule missing lookup "@ + id]
                } else {
                    seq!["ip rule: "@ + se]
                },
                HealthCheckView::PolicyRoute(id) => if zero && (contains(so, "local 0.0.0.0/0"@)
                    || contains(so, "local default"@)) {
                    seq![]
                } else if zero {
                    seq!["policy table "@ + id + " missing local default route"@]
                } else {
                    seq!["policy route: "@ + se]
                },
                HealthCheckView::WgLink(i) => if zero && contains(so, i) {
                    seq![]
                } else if zero {
                    seq!["wireguard iface missing: "@ + i]
                } else {
                    seq!["wg link: "@ + se]
                },
                HealthCheckView::SingboxCheck(_) => if zero {
                    seq![]
                } else {
                    seq!["sing-box config invalid: "@ + se]
                },
                HealthCheckView::Listen(dhcp) => if zero && contains(so, tproxy_needle()) && (!dhcp
                    || contains(so, dns_needle())) {
                    seq![]
                } else if zero {
                    (if !contains(so, tproxy_needle()) {
                        seq!["tproxy "@ + decimal(TPROXY_PORT as nat) + " not listening"@]
                    } else {
                        seq![]
                    }) + (if dhcp && !contains(so, dns_needle()) {
                        seq!["sing-box DNS "@ + decimal(DNS_PROXY_PORT as nat) + " not listening"@]
                    } else {
                        seq![]
                    })
                } else {
                    seq!["ss: "@ + se]
                },
                HealthCheckView::Unit(u) => if zero {
                    seq![]
                } else {
                    seq!["unit "@ + u + " inactive: "@ + se]
                },
            }
        },
    }
}

/// The failures of the checks, in order, given their outcomes.
pub open spec fn check_failures(
    cs: Seq<HealthCheckView>,
    o: Seq<Result<CommandOutput, CommandError>>,
) -> Seq<Seq<char>>
    decreases cs.len(),
{
    if cs.len() == 0 || o.len() == 0 {
        seq![]
    } else {
        check_failures(cs.drop_last(), o.drop_last()) + check_failure(cs.last(), o.last())
    }
}

/// The state of the GeoFile cache, as read from disk: its path, and whether
/// it is a non-empty file.
#[derive(Debug, Clone, PartialEq, Eq)]
pub struct GeoCache {
    pub path: String,
    pub nonempty_file: bool,
}

pub open spec fn path_view(p: Option<&str>) -> Option<Seq<char>> {
    match p {
        Some(t) => Some(t@),
        None => None,
    }
}

pub open spec fn geo_view(g: Option<&GeoCache>) -> Option<(Seq<char>, bool)> {
    match g {
        Some(c) => Some((c.path@, c.nonempty_file)),
        None => None,
    }
}

/// The health snapshot of a configuration, given the outcomes of
/// `health_commands` in order and the state of the GeoFile cache.
pub open spec fn spec_health(
    cfg: AppConfig,
    require_tproxy: bool,
    singbox: Option<Seq<char>>,
    geo: Option<(Seq<char>, bool)>,
    o: Seq<Result<CommandOutput, CommandError>>,
) -> HealthSnapshotView {
    let nu = uplink_commands(cfg).len() as int;
    let (wan, tunnel, notes) = spec_uplinks(cfg, o.take(nu));
    let f0: Seq<Seq<char>> = if require_tproxy && wan == "down"@ {
        seq!["WAN gateway is unreachable"@]
    } else {
        seq![]
    };
    let f1 = check_failures(health_checks(cfg, require_tproxy, singbox), o.skip(nu));
    let (fg, ng): (Seq<Seq<char>>, Seq<Seq<char>>) = if require_tproxy && cfg.routing.china_direct {
        match geo {
            Some((p, ok)) => if ok {
                (seq![], seq![])
            } else {
                (seq!["GeoFile cache missing or empty: "@ + p], seq![])
            },
            None => (seq![], seq!["GeoFile cache path was not supplied"@]),
        }
    } else {
        (seq![], seq![])
    };
    let failed = f0 + f1 + fg;
    HealthSnapshotView {
        status: if failed.len() == 0 {
            HealthStatus::Healthy
        } else {
            HealthStatus::Unhealthy
        },
        message: if failed.len() == 0 {
            "gateway_kit table and policy rules reachable"@
        } else {
            "post-apply health failed"@
        },
        failed_checks: failed,
        notes: notes + ng,
        wan_uplink: wan,
        tunnel_uplink: tunnel,
    }
}

/// A health check agrees with an uplink probe that got the same answers to
/// the uplink commands (as a runner whose answer depends only on the call
/// gives them): the same WAN and tunnel states, the probe's notes first among
/// the check's notes, and with tproxy required a WAN that is down is a failed
/// check. The check is healthy exactly when nothing failed, and is otherwise
/// unhealthy.
pub proof fn lemma_health_agrees_with_probe(
    cfg: AppConfig,
    require_tproxy: bool,
    singbox: Option<Seq<char>>,
    geo: Option<(Seq<char>, bool)>,
    probe: Seq<Result<CommandOutput, CommandError>>,
    health: Seq<Result<CommandOutput, CommandError>>,
)
    requires
        probe.len() == uplink_commands(cfg).len(),
        health.len() == health_commands(cfg, require_tproxy, singbox).len(),
        health.take(probe.len() as int) == probe,
    ensures
        ({
            let (w, t, n) = spec_uplinks(cfg, probe);
            let h = spec_health(cfg, require_tproxy, singbox, geo, health);
            &&& h.wan_uplink == w
            &&& h.tunnel_uplink == t
            &&& h.notes.take(n.len() as int) == n
            &&& (h.status == HealthStatus::Healthy <==> h.failed_checks.len() == 0)
            &&& (h.status == HealthStatus::Healthy || h.status == HealthStatus::Unhealthy)
            &&& (require_tproxy && w == "down"@ ==> h.failed_checks.contains(
                "WAN gateway is unreachable"@,
            ))
        }),
{
    let (w, t, n) = spec_uplinks(cfg, probe);
    let h = spec_health(cfg, require_tproxy, singbox, geo, health);
    assert(h.notes.take(n.len() as int) =~= n);
    if require_tproxy && w == "down"@ {
        assert(h.failed_checks[0] == "WAN gateway is unreachable"@);
    }
}

proof fn lemma_check_failures_hold(
    cs: Seq<HealthCheckView>,
    o: Seq<Result<CommandOutput, CommandError>>,
    j: int,
    m: int,
)
    requires
        cs.len() == o.len(),
        0 <= j < cs.len(),
        0 <= m < check_failure(cs[j], o[j]).len(),
    ensures
        check_failures(cs, o).contains(check_failure(cs[j], o[j])[m]),
    decreases cs.len(),
{
    let rest = check_failures(cs.drop_last(), o.drop_last());
    let last = check_failure(cs.last(), o.last());
    assert(check_failures(cs, o) == rest + last);
    if j == cs.len() - 1 {
        assert((rest + last)[rest.len() + m] == last[m]);
    } else {
        assert(cs.drop_last()[j] == cs[j]);
        assert(o.drop_last()[j] == o[j]);
        lemma_check_failures_hold(cs.drop_last(), o.drop_last(), j, m);
        let x = check_failure(cs[j], o[j])[m];
        let t = choose|t: int| 0 <= t < rest.len() && rest[t] == x;
        assert((rest + last)[t] == x);
    }
}

/// Any check of the data plane whose command could not run or exited with
/// anything but 0 makes the health check fail: the snapshot is unhealthy
/// and holds at least one failed check.
pub proof fn lemma_failed_command_fails(
    cfg: AppConfig,
    require_tproxy: bool,
    singbox: Option<Seq<char>>,
    geo: Option<(Seq<char>, bool)>,
    o: Seq<Result<CommandOutput, CommandError>>,
    k: int,
)
    requires
        o.len() == health_commands(cfg, require_tproxy, singbox).len(),
        uplink_commands(cfg).len() <= k < o.len(),
        !exit_zero(o[k]),
    ensures
        spec_health(cfg, require_tproxy, singbox, geo, o).status == HealthStatus::Unhealthy,
        spec_health(cfg, require_tproxy, singbox, geo, o).failed_checks.len() > 0,
{
    let nu = uplink_commands(cfg).len() as int;
    let cs = health_checks(cfg, require_tproxy, singbox);
    let ob = o.skip(nu);
    let j = k - nu;
    let cmds = cs.map_values(|c: HealthCheckView| check_command(c));
    assert(cmds.len() == cs.len());
    assert(ob[j] == o[k]);
    let f = check_failure(cs[j], ob[j]);
    assert(f.len() >= 1);
    lemma_check_failures_hold(cs, ob, j, 0);
    let h = spec_health(cfg, require_tproxy, singbox, geo, o);
    let f1 = check_failures(cs, ob);
    assert(f1.len() > 0);
    assert(h.failed_checks.len() >= f1.len());
}

/// A unit that is not running makes the health check fail: whenever a
/// `systemctl is-active --quiet <unit>` command of the check ran and exited
/// with anything but 0, the snapshot is unhealthy and its failed checks name
/// the unit as inactive, with what the command wrote to stderr (empty or
/// not); when the command could not run, they name the unit with the error.
pub proof fn lemma_inactive_unit_fails(
    cfg: AppConfig,
    require_tproxy: bool,
    singbox: Option<Seq<char>>,
    geo: Option<(Seq<char>, bool)>,
    o: Seq<Result<CommandOutput, CommandError>>,
    k: int,
    unit: Seq<char>,
)
    requires
        o.len() == health_commands(cfg, require_tproxy, singbox).len(),
        uplink_commands(cfg).len() <= k < o.len(),
        health_commands(cfg, require_tproxy, singbox)[k] == ("systemctl"@, seq![
            "is-active"@,
            "--quiet"@,
            unit,
        ]),
    ensures
        ({
            let h = spec_health(cfg, require_tproxy, singbox, geo, o);
            match o[k] {
                Ok(out) => out.status != Some(0i32) ==> h.status == HealthStatus::Unhealthy
                    && h.failed_checks.contains("unit "@ + unit + " inactive: "@ + out.stderr@),
                Err(e) => h.status == HealthStatus::Unhealthy && h.failed_checks.contains(
                    "unit "@ + unit + ": "@ + e.message(),
                ),
            }
        }),
{
    let nu = uplink_commands(cfg).len() as int;
    let cs = health_checks(cfg, require_tproxy, singbox);
    let ob = o.skip(nu);
    let j = k - nu;
    let cmds = cs.map_values(|c: HealthCheckView| check_command(c));
    assert(health_commands(cfg, require_tproxy, singbox)[k] == cmds[j]);
    assert(cmds[j] == check_command(cs[j]));
    reveal_strlit("systemctl");
    reveal_strlit("nft");
    reveal_strlit("ip");
    reveal_strlit("sing-box");
    reveal_strlit("ss");
    assert(cs[j] == HealthCheckView::Unit(unit)) by {
        match cs[j] {
            HealthCheckView::Unit(u) => {
                assert(check_command(cs[j]).1[2] == u);
            },
            _ => {
                assert(check_command(cs[j]).0.len() != 9);
            },
        }
    }
    assert(ob[j] == o[k]);
    let h = spec_health(cfg, require_tproxy, singbox, geo, o);
    let f = check_failure(cs[j], ob[j]);
    let failed = h.failed_checks;
    let f1 = check_failures(cs, ob);
    let good = match o[k] {
        Ok(out) => out.status != Some(0i32),
        Err(_) => true,
    };
    if good {
        assert(f.len() == 1);
        lemma_check_failures_hold(cs, ob, j, 0);
        let t = choose|t: int| 0 <= t < f1.len() && f1[t] == f[0];
        let f0: Seq<Seq<char>> = if require_tproxy && spec_uplinks(cfg, o.take(nu)).0 == "down"@ {
            seq!["WAN gateway is unreachable"@]
        } else {
            seq![]
        };
        assert(failed[f0.len() + t] == f[0]);
        assert(failed.contains(f[0]));
    }
}

/// All commands a health check runs, in order.
pub open spec fn health_commands(cfg: AppConfig, require_tproxy: bool, singbox: Option<Seq<char>>) -> Seq<
    (Seq<char>, Seq<Seq<char>>),
> {
    uplink_commands(cfg) + health_checks(cfg, require_tproxy, singbox).map_values(
        |c: HealthCheckView| check_command(c),
    )
}

pub open spec fn checks_view(v: Seq<HealthCheck>) -> Seq<HealthCheckView> {
    v.map_values(|c: HealthCheck| c@)
}

fn health_checks_exec(config: &AppConfig, require_tproxy: bool, singbox: Option<&str>) -> (r: Vec<HealthCheck>)
    ensures
        checks_view(r@) == health_checks(*config, require_tproxy, match singbox {
            Some(p) => Some(p@),
            None => None,
        }),
{
    let id = from_chars(decimal_chars(config.routing.policy_table_id as u64).as_slice());
    let mut v: Vec<HealthCheck> = Vec::new();
    v.push(HealthCheck::NftTable(config.firewall.table_name.clone()));
    v.push(HealthCheck::IpRule(id.clone()));
    if require_tproxy {
        v.push(HealthCheck::PolicyRoute(id.clone()));
    }
    if config.wireguard.enabled && !config.wireguard.interface.as_str().is_empty() {
        v.push(HealthCheck::WgLink(config.wireguard.interface.clone()));
    }
    if require_tproxy {
        match singbox {
            Some(p) => v.push(HealthCheck::SingboxCheck(p.to_owned())),
            None => {},
        }
        v.push(HealthCheck::Listen(config.dhcp.enabled));
        v.push(HealthCheck::Unit(text("gateway-kit-singbox")));
        v.push(HealthCheck::Unit(text("gateway-kit-forwarding")));
        if config.dhcp.enabled {
            v.push(HealthCheck::Unit(text("gateway-kit-dnsmasq")));
        }
    }
    assert(checks_view(v@) =~= health_checks(*config, require_tproxy, match singbox {
        Some(p) => Some(p@),
        None => None,
    }));
    v
}

fn one(m: Vec<char>) -> (r: Vec<String>)
    ensures
        strs_view(r@) == seq![m@],
{
    let mut v: Vec<String> = Vec::new();
    v.push(from_chars(m.as_slice()));
    assert(strs_view(v@) =~= seq![m@]);
    v
}

fn cat(a: &str, b: &str) -> (r: Vec<char>)
    ensures
        r@ == a@ + b@,
{
    let mut m = to_chars(a);
    push_str(&mut m, b);
    m
}

fn check_failure_exec(c: &HealthCheck, o: &Result<CommandOutput, CommandError>) -> (r: Vec<String>)
    ensures
        strs_view(r@) == check_failure(c@, *o),
{
    match o {
        Err(e) => {
            let em = e.to_message();
            match c {
                HealthCheck::SingboxCheck(_) => one(cat("sing-box config check: ", em.as_str())),
                HealthCheck::Unit(u) => {
                    let mut m = cat("unit ", u.as_str());
                    push_str(&mut m, ": ");
                    push_str(&mut m, em.as_str());
                    one(m)
                },
                _ => one(to_chars(em.as_str())),
            }
        },
        Ok(out) => {
            let zero = out.status == Some(0i32);
            let so = to_chars(out.stdout.as_str());
            let se = out.stderr.as_str();
            match c {
                HealthCheck::NftTable(t) => if zero && contains_str(so.as_slice(), t.as_str()) {
                    Vec::new()
                } else if zero {
                    one(cat("nft table missing ", t.as_str()))
                } else {
                    one(cat("nft table: ", se))
                },
                HealthCheck::IpRule(id) => if zero && contains_str(so.as_slice(), id.as_str()) {
                    Vec::new()
                } else if zero {
                    one(cat("ip rule missing lookup ", id.as_str()))
                } else {
                    one(cat("ip rule: ", se))
                },
                HealthCheck::PolicyRoute(id) => if zero && (contains_str(so.as_slice(), "local 0.0.0.0/0")
                    || contains_str(so.as_slice(), "local default")) {
                    Vec::new()
                } else if zero {
                    let mut m = cat("policy table ", id.as_str());
                    push_str(&mut m, " missing local default route");
                    one(m)
                } else {
                    one(cat("policy route: ", se))
                },
                HealthCheck::WgLink(i) => if zero && contains_str(so.as_slice(), i.as_str()) {
                    Vec::new()
                } else if zero {
                    one(cat("wireguard iface missing: ", i.as_str()))
                } else {
                    one(cat("wg link: ", se))
                },
                HealthCheck::SingboxCheck(_) => if zero {
                    Vec::new()
                } else {
                    one(cat("sing-box config invalid: ", se))
                },
                HealthCheck::Listen(dhcp) => {
                    let mut needle = to_chars(":");
                    push_decimal(&mut needle, TPROXY_PORT as u64);
                    let mut dns = to_chars(":");
                    push_decimal(&mut dns, DNS_PROXY_PORT as u64);
                    proof {
                        reveal_strlit(":");
                        assert(needle@ =~= tproxy_needle());
                        assert(dns@ =~= dns_needle());
                    }
                    let has_tproxy = crate::text::find(so.as_slice(), needle.as_slice()).is_some();
                    let has_dns = crate::text::find(so.as_slice(), dns.as_slice()).is_some();
                    if zero && has_tproxy && (!*dhcp || has_dns) {
                        Vec::new()
                    } else if zero {
                        let mut v: Vec<String> = Vec::new();
                        if !has_tproxy {
                            let mut m = to_chars("tproxy ");
                            push_decimal(&mut m, TPROXY_PORT as u64);
                            push_str(&mut m, " not listening");
                            v.push(from_chars(m.as_slice()));
                        }
                        let ghost first = strs_view(v@);
                        if *dhcp && !has_dns {
                            let mut m = to_chars("sing-box DNS ");
                            push_decimal(&mut m, DNS_PROXY_PORT as u64);
                            push_str(&mut m, " not listening");
                            v.push(from_chars(m.as_slice()));
                        }
                        assert(strs_view(v@) =~= check_failure(c@, *o));
                        v
                    } else {
                        one(cat("ss: ", se))
                    }
                },
                HealthCheck::Unit(u) => if zero {
                    Vec::new()
                } else {
                    let mut m = cat("unit ", u.as_str());
                    push_str(&mut m, " inactive: ");
                    push_str(&mut m, se);
                    one(m)
                },
            }
        },
    }
}

fn append_strings(dst: &mut Vec<String>, src: Vec<String>)
    ensures
        strs_view(final(dst)@) == strs_view(old(dst)@) + strs_view(src@),
{
    let n = src.len();
    for i in 0..n
        invariant
            n == src@.len(),
            strs_view(dst@) == strs_view(old(dst)@) + strs_view(src@.take(i as int)),
    {
        let ghost before = dst@;
        dst.push(src[i].clone());
        assert(strs_view(dst@) =~= strs_view(before).push(src@[i as int]@));
        assert(strs_view(src@.take((i + 1) as int)) =~= strs_view(src@.take(i as int)).push(
            src@[i as int]@,
        ));
    }
    assert(src@.take(n as int) =~= src@);
}

/// The snapshot from the outcomes of `health_commands`, in order, and the
/// state of the GeoFile cache.
pub fn health_from(
    config: &AppConfig,
    require_tproxy: bool,
    singbox_config: Option<&str>,
    geo_cache: Option<&GeoCache>,
    o: &Vec<Result<CommandOutput, CommandError>>,
) -> (r: HealthSnapshot)
    requires
        o@.len() == health_commands(*config, require_tproxy, match singbox_config {
            Some(p) => Some(p@),
            None => None,
        }).len(),
    ensures
        r@ == spec_health(*config, require_tproxy, match singbox_config {
            Some(p) => Some(p@),
            None => None,
        }, geo_view(geo_cache), o@),
{
    let ghost sb = match singbox_config {
        Some(p) => Some(p@),
        None => None,
    };
    let ping = ping_target_exec(config).is_some();
    let tunnel_on = config.wireguard.enabled && !config.wireguard.interface.as_str().is_empty();
    let nu: usize = (if ping { 1 } else { 0 }) + (if tunnel_on { 1 } else { 0 });
    assert(nu == uplink_commands(*config).len());
    let (wan, tunnel, mut notes) = uplinks_from(config, o);
    let mut failed: Vec<String> = Vec::new();
    if require_tproxy && eq_str(to_chars(wan.as_str()).as_slice(), "down") {
        failed.push(text("WAN gateway is unreachable"));
    }
    let ghost f0 = strs_view(failed@);
    let checks = health_checks_exec(config, require_tproxy, singbox_config);
    let ghost cv = checks_view(checks@);
    let ghost rest = o@.skip(nu as int);
    assert(rest.len() == cv.len()) by {
        assert(health_commands(*config, require_tproxy, sb).len() == uplink_commands(*config).len() + cv.len());
    }
    let n = checks.len();
    let total = o.len();
    assert(cv.take(0) =~= Seq::<HealthCheckView>::empty());
    for i in 0..n
        invariant
            n == checks@.len(),
            cv == checks_view(checks@),
            rest == o@.skip(nu as int),
            rest.len() == n,
            nu + n == total,
            total == o@.len(),
            strs_view(failed@) == f0 + check_failures(cv.take(i as int), rest.take(i as int)),
    {
        assert(cv.take((i + 1) as int).drop_last() =~= cv.take(i as int));
        assert(rest.take((i + 1) as int).drop_last() =~= rest.take(i as int));
        assert(rest[i as int] == o@[nu + i]);
        assert(cv[i as int] == checks@[i as int]@);
        let fs = check_failure_exec(&checks[i], &o[nu + i]);
        append_strings(&mut failed, fs);
        assert(strs_view(failed@) =~= f0 + check_failures(cv.take((i + 1) as int), rest.take((i + 1) as int)));
    }
    assert(cv.take(n as int) =~= cv);
    assert(rest.take(n as int) =~= rest);
    let ghost f01 = strs_view(failed@);
    let ghost nu_spec = uplink_commands(*config).len() as int;
    assert(nu_spec == nu);
    assert(wan@ == spec_uplinks(*config, o@.take(nu_spec)).0);
    assert(f01 == (if require_tproxy && spec_uplinks(*config, o@.take(nu_spec)).0 == "down"@ {
        seq!["WAN gateway is unreachable"@]
    } else {
        Seq::<Seq<char>>::empty()
    }) + check_failures(health_checks(*config, require_tproxy, sb), o@.skip(nu_spec)));
    let ghost notes0 = strs_view(notes@);
    if require_tproxy && config.routing.china_direct {
        match geo_cache {
            Some(g) => if !g.nonempty_file {
                failed.push(from_chars(cat("GeoFile cache missing or empty: ", g.path.as_str()).as_slice()));
            },
            None => {
                notes.push(text("GeoFile cache path was not supplied"));
            },
        }
    }
    let ok = failed.len() == 0;
    let r = HealthSnapshot {
        status: if ok {
            HealthStatus::Healthy
        } else {
            HealthStatus::Unhealthy
        },
        message: if ok {
            text("gateway_kit table and policy rules reachable")
        } else {
            text("post-apply health failed")
        },
        failed_checks: failed,
        notes,
        wan_uplink: wan,
        tunnel_uplink: tunnel,
    };
    assert(r@.failed_checks =~= spec_health(*config, require_tproxy, sb, geo_view(geo_cache), o@).failed_checks);
    assert(r@.notes =~= spec_health(*config, require_tproxy, sb, geo_view(geo_cache), o@).notes);
    r
}

fn check_args(c: &HealthCheck) -> (r: (&'static str, Vec<String>))
    ensures
        (r.0@, strs_view(r.1@)) == check_command(c@),
{
    match c {
        HealthCheck::NftTable(t) => {
            let mut a = strings(&["list", "table", "inet"]);
            let ghost a0 = strs_view(a@);
            a.push(t.clone());
            assert(strs_view(a@) =~= a0.push(t@));
            ("nft", a)
        },
        HealthCheck::IpRule(_) => ("ip", strings(&["rule", "show"])),
        HealthCheck::PolicyRoute(id) => {
            let mut a = strings(&["route", "show", "table"]);
            let ghost a0 = strs_view(a@);
            a.push(id.clone());
            assert(strs_view(a@) =~= a0.push(id@));
            ("ip", a)
        },
        HealthCheck::WgLink(i) => {
            let mut a = strings(&["-o", "link", "show", "dev"]);
            let ghost a0 = strs_view(a@);
            a.push(i.clone());
            assert(strs_view(a@) =~= a0.push(i@));
            ("ip", a)
        },
        HealthCheck::SingboxCheck(p) => {
            let mut a = strings(&["check", "-c"]);
            let ghost a0 = strs_view(a@);
            a.push(p.clone());
            assert(strs_view(a@) =~= a0.push(p@));
            ("sing-box", a)
        },
        HealthCheck::Listen(_) => ("ss", strings(&["-lntu"])),
        HealthCheck::Unit(u) => {
            let mut a = strings(&["is-active", "--quiet"]);
            let ghost a0 = strs_view(a@);
            a.push(u.clone());
            assert(strs_view(a@) =~= a0.push(u@));
            ("systemctl", a)
        },
    }
}

/// Checks the applied data plane and, with `require_tproxy`, the sing-box
/// file (when given) and the GeoFile cache. The snapshot is what
/// `health_from` makes of the outcomes of `health_commands`.
pub fn check_applied_with_artifacts<R: CommandRunner>(
    config: &AppConfig,
    runner: &mut R,
    require_tproxy: bool,
    singbox_config: Option<&str>,
    geo_cache: Option<&GeoCache>,
) -> (r: HealthSnapshot)
    ensures
        exists|o: Seq<Result<CommandOutput, CommandError>>|
            o.len() == health_commands(*config, require_tproxy, path_view(singbox_config)).len()
                && r@ == #[trigger] spec_health(
                *config,
                require_tproxy,
                path_view(singbox_config),
                geo_view(geo_cache),
                o,
            ),
        R::records_calls() ==> final(runner).calls() == old(runner).calls() + health_commands(
            *config,
            require_tproxy,
            path_view(singbox_config),
        ),
        R::records_calls() ==> final(runner).answers().len() == old(runner).answers().len()
            + health_commands(*config, require_tproxy, path_view(singbox_config)).len() && r@
            == spec_health(
            *config,
            require_tproxy,
            path_view(singbox_config),
            geo_view(geo_cache),
            final(runner).answers().skip(old(runner).answers().len() as int),
        ),
{
    let ghost sb = match singbox_config {
        Some(p) => Some(p@),
        None => None,
    };
    let ghost a0 = runner.answers();
    let mut o: Vec<Result<CommandOutput, CommandError>> = Vec::new();
    run_uplink_commands(config, runner, &mut o);
    assert(o@.skip(0) =~= o@);
    let ghost c1 = runner.calls();
    assert(o@.len() == uplink_commands(*config).len());
    let checks = health_checks_exec(config, require_tproxy, singbox_config);
    let ghost cmds = checks_view(checks@).map_values(|c: HealthCheckView| check_command(c));
    let n = checks.len();
    let ghost nu = o@.len();
    assert(cmds.take(0) =~= Seq::<(Seq<char>, Seq<Seq<char>>)>::empty());
    for i in 0..n
        invariant
            n == checks@.len(),
            o@.len() == nu + i,
            cmds == checks_view(checks@).map_values(|c: HealthCheckView| check_command(c)),
            R::records_calls() ==> runner.calls() == c1 + cmds.take(i as int),
            R::records_calls() ==> runner.answers() == a0 + o@,
    {
        let (program, args) = check_args(&checks[i]);
        assert(cmds[i as int] == check_command(checks@[i as int]@));
        let ghost before = o@;
        o.push(run_command(runner, program, &args));
        assert(a0 + o@ =~= (a0 + before).push(o@.last()));
        assert(cmds.take((i + 1) as int) =~= cmds.take(i as int).push(cmds[i as int]));
    }
    assert(checks_view(checks@).len() == n);
    assert(cmds.take(n as int) =~= cmds);
    assert(R::records_calls() ==> runner.calls() =~= old(runner).calls() + health_commands(*config, require_tproxy, sb));
    let r = health_from(config, require_tproxy, singbox_config, geo_cache, &o);
    assert(R::records_calls() ==> runner.answers().skip(a0.len() as int) =~= o@);
    r
}

/// Checks the applied data plane without the sing-box file or GeoFile cache.
pub fn check_applied<R: CommandRunner>(config: &AppConfig, runner: &mut R, require_tproxy: bool) -> (r: HealthSnapshot)
    ensures
        exists|o: Seq<Result<CommandOutput, CommandError>>|
            o.len() == health_commands(*config, require_tproxy, None).len() && r@ == #[trigger] spec_health(
                *config,
                require_tproxy,
                None,
                None,
                o,
            ),
        R::records_calls() ==> final(runner).calls() == old(runner).calls() + health_commands(
            *config,
            require_tproxy,
            None,
        ),
        R::records_calls() ==> final(runner).answers().len() == old(runner).answers().len()
            + health_commands(*config, require_tproxy, None).len() && r@ == spec_health(
            *config,
            require_tproxy,
            None,
            None,
            final(runner).answers().skip(old(runner).answers().len() as int),
        ),
{
    check_applied_with_artifacts(config, runner, require_tproxy, None, None)
}

/// Checks the applied data plane and the GeoFile cache.
pub fn check_applied_with_cache<R: CommandRunner>(
    config: &AppConfig,
    runner: &mut R,
    require_tproxy: bool,
    geo_cache: Option<&GeoCache>,
) -> (r: HealthSnapshot)
    ensures
        exists|o: Seq<Result<CommandOutput, CommandError>>|
            o.len() == health_commands(*config, require_tproxy, None).len() && r@ == #[trigger] spec_health(
                *config,
                require_tproxy,
                None,
                geo_view(geo_cache),
                o,
            ),
        R::records_calls() ==> final(runner).calls() == old(runner).calls() + health_commands(
            *config,
            require_tproxy,
            None,
        ),
        R::records_calls() ==> final(runner).answers().len() == old(runner).answers().len()
            + health_commands(*config, require_tproxy, None).len() && r@ == spec_health(
            *config,
            require_tproxy,
            None,
            geo_view(geo_cache),
            final(runner).answers().skip(old(runner).answers().len() as int),
        ),
{
    check_applied_with_artifacts(config, runner, require_tproxy, None, geo_cache)
}

} // verus!

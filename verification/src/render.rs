//! Renderers for the data-plane configuration files: nftables, wg-quick,
//! dnsmasq, the forwarding environment and sysctl. Pure functions of the
//! configuration.

use vstd::prelude::*;

use crate::config::{spec_wan_direct_cidr, wan_direct_cidr_chars};
use crate::model::{
    AppConfig, DhcpReservation, PortForward, Secrets, WireGuardConfig, DEFAULT_UI_PORT,
    DNS_PROXY_PORT, TPROXY_MARK,
    TPROXY_PORT,
};
use crate::net::{
    ipv4_text, ipv4_to_chars, parse_ipv4_cidr, parse_mac, spec_parse_ipv4_cidr, spec_parse_mac,
};
use crate::text::{
    contains, decimal, ends_with, from_chars, lemma_contains_at, lemma_contains_in_concat,
    lemma_contains_transitive, lower, starts_with,
    lower_chars, push_all, push_decimal, push_str, to_chars, trim, trim_chars,
};

verus! {

/// The nftables ruleset around its variable parts.
pub open spec fn nft_text(
    table: Seq<char>,
    lan: Seq<char>,
    lan_ip: Seq<char>,
    ssh: u64,
    ui: u64,
    wan_cidr: Seq<char>,
    wan: Seq<char>,
    wg_forward: Seq<char>,
    wg_masq: Seq<char>,
    tproxy: u64,
    mark: u64,
    nat_prerouting: Seq<char>,
) -> Seq<char> {
    Seq::<char>::empty()
        + "#!/usr/sbin/nft -f\n# Coexistence: policy accept. Do not take over host input filtering.\n# Host SSH/UI: only this box's LAN/loopback ports bypass tproxy (not every dport 22).\ntable inet "@
        + table
        + " {\n  chain prerouting {\n    type filter hook prerouting priority mangle; policy accept;\n    iifname != \""@
        + lan
        + "\" return\n    meta nfproto ipv6 drop\n    udp dport { 67, 68 } return\n    udp dport 53 return\n    tcp dport 53 return\n    ip daddr { "@
        + lan_ip
        + ", 127.0.0.1 } tcp dport 53 return\n    ip daddr { "@
        + lan_ip
        + ", 127.0.0.1 } udp dport 53 return\n    ip daddr { "@
        + lan_ip
        + ", 127.0.0.1 } tcp dport { "@
        + decimal(ssh as nat)
        + ", "@
        + decimal(ui as nat)
        + " } return\n    ip daddr "@
        + wan_cidr
        + " return\n    ip daddr { 10.0.0.0/8, 172.16.0.0/12, 192.168.0.0/16, 169.254.0.0/16, 127.0.0.0/8 } return\n    meta l4proto { tcp, udp } tproxy ip to 127.0.0.1:"@
        + decimal(tproxy as nat)
        + " meta mark set "@
        + decimal(mark as nat)
        + "\n  }\n  chain output {\n    type route hook output priority mangle; policy accept;\n    tcp sport { "@
        + decimal(ssh as nat)
        + ", "@
        + decimal(ui as nat)
        + " } return\n    tcp dport { "@
        + decimal(ssh as nat)
        + ", "@
        + decimal(ui as nat)
        + " } return\n  }\n  chain forward {\n    type filter hook forward priority 0; policy accept;\n    iifname \""@
        + lan
        + "\" oifname \""@
        + wan
        + "\" accept\n"@
        + wg_forward
        + "    iifname \""@
        + wan
        + "\" oifname \""@
        + lan
        + "\" accept\n  }\n  chain postrouting {\n    type nat hook postrouting priority srcnat; policy accept;\n    oifname \""@
        + wan
        + "\" masquerade\n"@
        + wg_masq
        + "\n  }\n"@
        + nat_prerouting
        + "}\n"@
}

fn nft_text_chars(
    table: &[char],
    lan: &[char],
    lan_ip: &[char],
    ssh: u64,
    ui: u64,
    wan_cidr: &[char],
    wan: &[char],
    wg_forward: &[char],
    wg_masq: &[char],
    tproxy: u64,
    mark: u64,
    nat_prerouting: &[char],
) -> (r: Vec<char>)
    ensures
        r@ == nft_text(table@, lan@, lan_ip@, ssh, ui, wan_cidr@, wan@, wg_forward@, wg_masq@, tproxy, mark, nat_prerouting@),
{
    let mut out: Vec<char> = Vec::new();
    push_str(&mut out, "#!/usr/sbin/nft -f\n# Coexistence: policy accept. Do not take over host input filtering.\n# Host SSH/UI: only this box's LAN/loopback ports bypass tproxy (not every dport 22).\ntable inet ");
    push_all(&mut out, table);
    push_str(&mut out, " {\n  chain prerouting {\n    type filter hook prerouting priority mangle; policy accept;\n    iifname != \"");
    push_all(&mut out, lan);
    push_str(&mut out, "\" return\n    meta nfproto ipv6 drop\n    udp dport { 67, 68 } return\n    udp dport 53 return\n    tcp dport 53 return\n    ip daddr { ");
    push_all(&mut out, lan_ip);
    push_str(&mut out, ", 127.0.0.1 } tcp dport 53 return\n    ip daddr { ");
    push_all(&mut out, lan_ip);
    push_str(&mut out, ", 127.0.0.1 } udp dport 53 return\n    ip daddr { ");
    push_all(&mut out, lan_ip);
    push_str(&mut out, ", 127.0.0.1 } tcp dport { ");
    push_decimal(&mut out, ssh);
    push_str(&mut out, ", ");
    push_decimal(&mut out, ui);
    push_str(&mut out, " } return\n    ip daddr ");
    push_all(&mut out, wan_cidr);
    push_str(&mut out, " return\n    ip daddr { 10.0.0.0/8, 172.16.0.0/12, 192.168.0.0/16, 169.254.0.0/16, 127.0.0.0/8 } return\n    meta l4proto { tcp, udp } tproxy ip to 127.0.0.1:");
    push_decimal(&mut out, tproxy);
    push_str(&mut out, " meta mark set ");
    push_decimal(&mut out, mark);
    push_str(&mut out, "\n  }\n  chain output {\n    type route hook output priority mangle; policy accept;\n    tcp sport { ");
    push_decimal(&mut out, ssh);
    push_str(&mut out, ", ");
    push_decimal(&mut out, ui);
    push_str(&mut out, " } return\n    tcp dport { ");
    push_decimal(&mut out, ssh);
    push_str(&mut out, ", ");
    push_decimal(&mut out, ui);
    push_str(&mut out, " } return\n  }\n  chain forward {\n    type filter hook forward priority 0; policy accept;\n    iifname \"");
    push_all(&mut out, lan);
    push_str(&mut out, "\" oifname \"");
    push_all(&mut out, wan);
    push_str(&mut out, "\" accept\n");
    push_all(&mut out, wg_forward);
    push_str(&mut out, "    iifname \"");
    push_all(&mut out, wan);
    push_str(&mut out, "\" oifname \"");
    push_all(&mut out, lan);
    push_str(&mut out, "\" accept\n  }\n  chain postrouting {\n    type nat hook postrouting priority srcnat; policy accept;\n    oifname \"");
    push_all(&mut out, wan);
    push_str(&mut out, "\" masquerade\n");
    push_all(&mut out, wg_masq);
    push_str(&mut out, "\n  }\n");
    push_all(&mut out, nat_prerouting);
    push_str(&mut out, "}\n");
    out
}

/// The DNS and port-forward DNAT chain.
pub open spec fn nft_nat_prerouting(lan: Seq<char>, lan_ip: Seq<char>, dnat_rules: Seq<char>) -> Seq<char> {
    Seq::<char>::empty()
        + "  chain prerouting_nat {\n    type nat hook prerouting priority dstnat; policy accept;\n    iifname \""@
        + lan
        + "\" udp dport 53 dnat ip to "@
        + lan_ip
        + ":53\n    iifname \""@
        + lan
        + "\" tcp dport 53 dnat ip to "@
        + lan_ip
        + ":53\n"@
        + dnat_rules
        + "  }\n"@
}

fn nft_nat_prerouting_chars(lan: &[char], lan_ip: &[char], dnat_rules: &[char]) -> (r: Vec<char>)
    ensures
        r@ == nft_nat_prerouting(lan@, lan_ip@, dnat_rules@),
{
    let mut out: Vec<char> = Vec::new();
    push_str(&mut out, "  chain prerouting_nat {\n    type nat hook prerouting priority dstnat; policy accept;\n    iifname \"");
    push_all(&mut out, lan);
    push_str(&mut out, "\" udp dport 53 dnat ip to ");
    push_all(&mut out, lan_ip);
    push_str(&mut out, ":53\n    iifname \"");
    push_all(&mut out, lan);
    push_str(&mut out, "\" tcp dport 53 dnat ip to ");
    push_all(&mut out, lan_ip);
    push_str(&mut out, ":53\n");
    push_all(&mut out, dnat_rules);
    push_str(&mut out, "  }\n");
    out
}

/// One port-forward DNAT rule.
pub open spec fn nft_dnat_line(
    wan: Seq<char>,
    proto: Seq<char>,
    wp: u64,
    lip: Seq<char>,
    lp: u64,
) -> Seq<char> {
    Seq::<char>::empty()
        + "    iifname \""@
        + wan
        + "\" ip daddr 0.0.0.0/0 "@
        + proto
        + " dport "@
        + decimal(wp as nat)
        + " dnat ip to "@
        + lip
        + ":"@
        + decimal(lp as nat)
        + "\n"@
}

fn nft_dnat_line_chars(
    wan: &[char],
    proto: &[char],
    wp: u64,
    lip: &[char],
    lp: u64,
) -> (r: Vec<char>)
    ensures
        r@ == nft_dnat_line(wan@, proto@, wp, lip@, lp),
{
    let mut out: Vec<char> = Vec::new();
    push_str(&mut out, "    iifname \"");
    push_all(&mut out, wan);
    push_str(&mut out, "\" ip daddr 0.0.0.0/0 ");
    push_all(&mut out, proto);
    push_str(&mut out, " dport ");
    push_decimal(&mut out, wp);
    push_str(&mut out, " dnat ip to ");
    push_all(&mut out, lip);
    push_str(&mut out, ":");
    push_decimal(&mut out, lp);
    push_str(&mut out, "\n");
    out
}

/// The LAN-to-tunnel forward rule.
pub open spec fn nft_wg_forward(lan: Seq<char>, wg: Seq<char>) -> Seq<char> {
    Seq::<char>::empty()
        + "    iifname \""@
        + lan
        + "\" oifname \""@
        + wg
        + "\" accept\n"@
}

fn nft_wg_forward_chars(lan: &[char], wg: &[char]) -> (r: Vec<char>)
    ensures
        r@ == nft_wg_forward(lan@, wg@),
{
    let mut out: Vec<char> = Vec::new();
    push_str(&mut out, "    iifname \"");
    push_all(&mut out, lan);
    push_str(&mut out, "\" oifname \"");
    push_all(&mut out, wg);
    push_str(&mut out, "\" accept\n");
    out
}

/// The tunnel masquerade rule.
pub open spec fn nft_wg_masq(wg: Seq<char>) -> Seq<char> {
    Seq::<char>::empty()
        + "    oifname \""@
        + wg
        + "\" masquerade\n"@
}

fn nft_wg_masq_chars(wg: &[char]) -> (r: Vec<char>)
    ensures
        r@ == nft_wg_masq(wg@),
{
    let mut out: Vec<char> = Vec::new();
    push_str(&mut out, "    oifname \"");
    push_all(&mut out, wg);
    push_str(&mut out, "\" masquerade\n");
    out
}

/// The wg-quick file around its variable parts.
pub open spec fn wg_quick_text(
    address: Seq<char>,
    listen: u64,
    privk: Seq<char>,
    pubk: Seq<char>,
    psk: Seq<char>,
    allowed: Seq<char>,
    endpoint: Seq<char>,
) -> Seq<char> {
    Seq::<char>::empty()
        + "[Interface]\nAddress = "@
        + address
        + "\nListenPort = "@
        + decimal(listen as nat)
        + "\nPrivateKey = "@
        + privk
        + "\nTable = off\n\n[Peer]\nPublicKey = "@
        + pubk
        + "\n"@
        + psk
        + "AllowedIPs = "@
        + allowed
        + "\nEndpoint = "@
        + endpoint
        + "\nPersistentKeepalive = 25\n"@
}

fn wg_quick_text_chars(
    address: &[char],
    listen: u64,
    privk: &[char],
    pubk: &[char],
    psk: &[char],
    allowed: &[char],
    endpoint: &[char],
) -> (r: Vec<char>)
    ensures
        r@ == wg_quick_text(address@, listen, privk@, pubk@, psk@, allowed@, endpoint@),
{
    let mut out: Vec<char> = Vec::new();
    push_str(&mut out, "[Interface]\nAddress = ");
    push_all(&mut out, address);
    push_str(&mut out, "\nListenPort = ");
    push_decimal(&mut out, listen);
    push_str(&mut out, "\nPrivateKey = ");
    push_all(&mut out, privk);
    push_str(&mut out, "\nTable = off\n\n[Peer]\nPublicKey = ");
    push_all(&mut out, pubk);
    push_str(&mut out, "\n");
    push_all(&mut out, psk);
    push_str(&mut out, "AllowedIPs = ");
    push_all(&mut out, allowed);
    push_str(&mut out, "\nEndpoint = ");
    push_all(&mut out, endpoint);
    push_str(&mut out, "\nPersistentKeepalive = 25\n");
    out
}

/// The preshared-key line.
pub open spec fn wg_psk_line(k: Seq<char>) -> Seq<char> {
    Seq::<char>::empty()
        + "PresharedKey = "@
        + k
        + "\n"@
}

fn wg_psk_line_chars(k: &[char]) -> (r: Vec<char>)
    ensures
        r@ == wg_psk_line(k@),
{
    let mut out: Vec<char> = Vec::new();
    push_str(&mut out, "PresharedKey = ");
    push_all(&mut out, k);
    push_str(&mut out, "\n");
    out
}

/// The dnsmasq configuration around its variable parts.
pub open spec fn dnsmasq_text(
    lan: Seq<char>,
    lan_ip: Seq<char>,
    start: Seq<char>,
    end: Seq<char>,
    lease: Seq<char>,
    dns_port: u64,
    hosts: Seq<char>,
    wan: Seq<char>,
) -> Seq<char> {
    Seq::<char>::empty()
        + "interface="@
        + lan
        + "\nlisten-address="@
        + lan_ip
        + "\nbind-interfaces\ndhcp-authoritative\ndhcp-option=3,"@
        + lan_ip
        + "\ndhcp-range="@
        + start
        + ","@
        + end
        + ","@
        + lease
        + "\nno-resolv\nno-hosts\nserver=127.0.0.1#"@
        + decimal(dns_port as nat)
        + "\ndhcp-option=6,"@
        + lan_ip
        + "\n"@
        + hosts
        + "except-interface="@
        + wan
        + "\n"@
}

fn dnsmasq_text_chars(
    lan: &[char],
    lan_ip: &[char],
    start: &[char],
    end: &[char],
    lease: &[char],
    dns_port: u64,
    hosts: &[char],
    wan: &[char],
) -> (r: Vec<char>)
    ensures
        r@ == dnsmasq_text(lan@, lan_ip@, start@, end@, lease@, dns_port, hosts@, wan@),
{
    let mut out: Vec<char> = Vec::new();
    push_str(&mut out, "interface=");
    push_all(&mut out, lan);
    push_str(&mut out, "\nlisten-address=");
    push_all(&mut out, lan_ip);
    push_str(&mut out, "\nbind-interfaces\ndhcp-authoritative\ndhcp-option=3,");
    push_all(&mut out, lan_ip);
    push_str(&mut out, "\ndhcp-range=");
    push_all(&mut out, start);
    push_str(&mut out, ",");
    push_all(&mut out, end);
    push_str(&mut out, ",");
    push_all(&mut out, lease);
    push_str(&mut out, "\nno-resolv\nno-hosts\nserver=127.0.0.1#");
    push_decimal(&mut out, dns_port);
    push_str(&mut out, "\ndhcp-option=6,");
    push_all(&mut out, lan_ip);
    push_str(&mut out, "\n");
    push_all(&mut out, hosts);
    push_str(&mut out, "except-interface=");
    push_all(&mut out, wan);
    push_str(&mut out, "\n");
    out
}

/// One static DHCP lease.
pub open spec fn dnsmasq_host_line(mac: Seq<char>, ip: Seq<char>) -> Seq<char> {
    Seq::<char>::empty()
        + "dhcp-host="@
        + mac
        + ","@
        + ip
        + "\n"@
}

fn dnsmasq_host_line_chars(mac: &[char], ip: &[char]) -> (r: Vec<char>)
    ensures
        r@ == dnsmasq_host_line(mac@, ip@),
{
    let mut out: Vec<char> = Vec::new();
    push_str(&mut out, "dhcp-host=");
    push_all(&mut out, mac);
    push_str(&mut out, ",");
    push_all(&mut out, ip);
    push_str(&mut out, "\n");
    out
}

/// The interface contract of the forwarding compatibility unit.
pub open spec fn forwarding_env_text(lan: Seq<char>, wan: Seq<char>) -> Seq<char> {
    Seq::<char>::empty()
        + "LAN_IF="@
        + lan
        + "\nWAN_IF="@
        + wan
        + "\n"@
}

fn forwarding_env_text_chars(lan: &[char], wan: &[char]) -> (r: Vec<char>)
    ensures
        r@ == forwarding_env_text(lan@, wan@),
{
    let mut out: Vec<char> = Vec::new();
    push_str(&mut out, "LAN_IF=");
    push_all(&mut out, lan);
    push_str(&mut out, "\nWAN_IF=");
    push_all(&mut out, wan);
    push_str(&mut out, "\n");
    out
}

/// The kernel settings the gateway needs.
pub const SYSCTL_CONF: &'static str = "net.ipv4.ip_forward=1\nnet.ipv4.conf.all.route_localnet=1\n";

// ---------------------------------------------------------------------------
// Shared values
// ---------------------------------------------------------------------------

/// The LAN address of the gateway itself: the host part of `lan.address`,
/// or `192.168.50.1` when that does not parse.
pub open spec fn spec_lan_host_ip(cfg: AppConfig) -> Seq<char> {
    match cfg.lan.address {
        Some(a) => match spec_parse_ipv4_cidr(a@) {
            Ok((ip, _)) => ipv4_text(ip),
            Err(_) => "192.168.50.1"@,
        },
        None => "192.168.50.1"@,
    }
}

fn lan_host_ip_chars(config: &AppConfig) -> (r: Vec<char>)
    ensures
        r@ == spec_lan_host_ip(*config),
{
    match &config.lan.address {
        Some(a) => match parse_ipv4_cidr(a.as_str()) {
            Ok((ip, _)) => ipv4_to_chars(ip),
            Err(_) => to_chars("192.168.50.1"),
        },
        None => to_chars("192.168.50.1"),
    }
}

/// The UI port that the firewall keeps open: the configured one, or the
/// default when it is 0.
pub open spec fn ui_port(cfg: AppConfig) -> u16 {
    if cfg.ui.port == 0 {
        DEFAULT_UI_PORT
    } else {
        cfg.ui.port
    }
}

// ---------------------------------------------------------------------------
// nftables
// ---------------------------------------------------------------------------

/// A port forward that takes effect: enabled, both ports set, a LAN address
/// given.
pub open spec fn forward_active(fw: PortForward) -> bool {
    fw.enabled && fw.wan_port > 0 && fw.lan_port > 0 && fw.lan_ip@.len() > 0
}

/// The DNAT rules of the active port forwards, in order.
pub open spec fn nft_dnat_rules(fws: Seq<PortForward>, wan: Seq<char>) -> Seq<char>
    decreases fws.len(),
{
    if fws.len() == 0 {
        Seq::empty()
    } else if forward_active(fws.last()) {
        nft_dnat_rules(fws.drop_last(), wan) + nft_dnat_line(
            wan,
            lower(fws.last().protocol@),
            fws.last().wan_port as u64,
            fws.last().lan_ip@,
            fws.last().lan_port as u64,
        )
    } else {
        nft_dnat_rules(fws.drop_last(), wan)
    }
}

fn nft_dnat_rules_chars(fws: &Vec<PortForward>, wan: &[char]) -> (r: Vec<char>)
    ensures
        r@ == nft_dnat_rules(fws@, wan@),
{
    let mut out: Vec<char> = Vec::new();
    let n = fws.len();
    assert(fws@.take(0) =~= Seq::<PortForward>::empty());
    for i in 0..n
        invariant
            n == fws@.len(),
            out@ == nft_dnat_rules(fws@.take(i as int), wan@),
    {
        assert(fws@.take((i + 1) as int).drop_last() =~= fws@.take(i as int));
        let fw = &fws[i];
        if fw.enabled && fw.wan_port > 0 && fw.lan_port > 0 && !fw.lan_ip.as_str().is_empty() {
            let proto = lower_chars(to_chars(fw.protocol.as_str()).as_slice());
            let lip = to_chars(fw.lan_ip.as_str());
            let line = nft_dnat_line_chars(
                wan,
                proto.as_slice(),
                fw.wan_port as u64,
                lip.as_slice(),
                fw.lan_port as u64,
            );
            push_all(&mut out, line.as_slice());
        }
    }
    assert(fws@.take(n as int) =~= fws@);
    out
}

/// The nftables ruleset of a configuration.
pub open spec fn spec_render_nftables(cfg: AppConfig) -> Seq<char> {
    let wan = cfg.wan.interface@;
    let lan = cfg.lan.interface@;
    let lan_ip = spec_lan_host_ip(cfg);
    let wg = cfg.wireguard.interface@;
    let wg_forward = if cfg.wireguard.enabled {
        nft_wg_forward(lan, wg)
    } else {
        Seq::empty()
    };
    let wg_masq = if cfg.wireguard.enabled {
        nft_wg_masq(wg)
    } else {
        Seq::empty()
    };
    let wan_cidr = match spec_wan_direct_cidr(cfg) {
        Some(c) => c,
        None => "192.168.0.0/16"@,
    };
    nft_text(
        cfg.firewall.table_name@,
        lan,
        lan_ip,
        cfg.firewall.ssh_port as u64,
        ui_port(cfg) as u64,
        wan_cidr,
        wan,
        wg_forward,
        wg_masq,
        TPROXY_PORT as u64,
        TPROXY_MARK as u64,
        nft_nat_prerouting(lan, lan_ip, nft_dnat_rules(cfg.port_forwards@, wan)),
    )
}

/// The DNAT line of a port forward.
pub open spec fn forward_line(fw: PortForward, wan: Seq<char>) -> Seq<char> {
    nft_dnat_line(wan, lower(fw.protocol@), fw.wan_port as u64, fw.lan_ip@, fw.lan_port as u64)
}

/// Every active port forward has its DNAT line among the rules.
pub proof fn lemma_dnat_rules_have_each_forward(fws: Seq<PortForward>, wan: Seq<char>)
    ensures
        forall|i: int|
            0 <= i < fws.len() && forward_active(fws[i]) ==> contains(
                nft_dnat_rules(fws, wan),
                #[trigger] forward_line(fws[i], wan),
            ),
    decreases fws.len(),
{
    lemma_contains_in_concat();
    if fws.len() > 0 {
        let rest = fws.drop_last();
        lemma_dnat_rules_have_each_forward(rest, wan);
        assert forall|i: int| 0 <= i < fws.len() && forward_active(fws[i]) implies contains(
            nft_dnat_rules(fws, wan),
            #[trigger] forward_line(fws[i], wan),
        ) by {
            if i < fws.len() - 1 {
                assert(fws[i] == rest[i]);
                assert(contains(nft_dnat_rules(rest, wan), forward_line(rest[i], wan)));
            } else {
                assert(contains(forward_line(fws[i], wan), forward_line(fws[i], wan)));
            }
        }
    }
}

/// The active port forwards' DNAT lines, in order.
pub open spec fn active_forward_lines(fws: Seq<PortForward>, wan: Seq<char>) -> Seq<Seq<char>> {
    fws.filter(|f: PortForward| forward_active(f)).map_values(|f: PortForward| forward_line(f, wan))
}

proof fn lemma_dnat_rules_alt(fws: Seq<PortForward>, wan: Seq<char>)
    ensures
        nft_dnat_rules(fws, wan) == active_forward_lines(fws, wan).flatten_alt(),
    decreases fws.len(),
{
    reveal(Seq::filter);
    if fws.len() > 0 {
        lemma_dnat_rules_alt(fws.drop_last(), wan);
        let pred = |f: PortForward| forward_active(f);
        let rest = fws.drop_last().filter(pred);
        let mapf = |f: PortForward| forward_line(f, wan);
        if forward_active(fws.last()) {
            let l = rest.push(fws.last()).map_values(mapf);
            assert(l.drop_last() =~= rest.map_values(mapf));
            assert(l.last() == forward_line(fws.last(), wan));
        }
    }
}

/// The DNAT rules are exactly the lines of the active port forwards, in
/// order: an inactive forward (disabled, a zero port, or no LAN address)
/// gives no line, and nothing stands between the lines.
pub proof fn lemma_dnat_rules_exact(fws: Seq<PortForward>, wan: Seq<char>)
    ensures
        nft_dnat_rules(fws, wan) == active_forward_lines(fws, wan).flatten(),
{
    lemma_dnat_rules_alt(fws, wan);
    active_forward_lines(fws, wan).lemma_flatten_and_flatten_alt_are_equivalent();
}

/// The ruleset holds the DNAT rules of the active port forwards (one line
/// each, in order, as `nft_dnat_rules` writes them), and with the tunnel on
/// the LAN-to-tunnel forward and the tunnel masquerade; the UI port left at
/// 0 is the default one.
pub proof fn lemma_nftables_holds_forwards_and_tunnel(cfg: AppConfig)
    ensures
        contains(spec_render_nftables(cfg), nft_dnat_rules(cfg.port_forwards@, cfg.wan.interface@)),
        forall|i: int|
            0 <= i < cfg.port_forwards@.len() && forward_active(cfg.port_forwards@[i]) ==> contains(
                spec_render_nftables(cfg),
                #[trigger] forward_line(cfg.port_forwards@[i], cfg.wan.interface@),
            ),
        cfg.wireguard.enabled ==> contains(
            spec_render_nftables(cfg),
            nft_wg_forward(cfg.lan.interface@, cfg.wireguard.interface@),
        ),
        cfg.wireguard.enabled ==> contains(spec_render_nftables(cfg), nft_wg_masq(cfg.wireguard.interface@)),
        cfg.ui.port == 0 ==> ui_port(cfg) == DEFAULT_UI_PORT,
{
    lemma_contains_in_concat();
    let rules = nft_dnat_rules(cfg.port_forwards@, cfg.wan.interface@);
    assert(contains(rules, rules));
    assert(contains(spec_render_nftables(cfg), rules));
    lemma_dnat_rules_have_each_forward(cfg.port_forwards@, cfg.wan.interface@);
    assert forall|i: int|
        0 <= i < cfg.port_forwards@.len() && forward_active(cfg.port_forwards@[i]) implies contains(
            spec_render_nftables(cfg),
            #[trigger] forward_line(cfg.port_forwards@[i], cfg.wan.interface@),
        ) by {
        let l = forward_line(cfg.port_forwards@[i], cfg.wan.interface@);
        assert(contains(rules, l));
        lemma_contains_transitive(spec_render_nftables(cfg), rules, l);
    }
    if cfg.wireguard.enabled {
        let f = nft_wg_forward(cfg.lan.interface@, cfg.wireguard.interface@);
        let m = nft_wg_masq(cfg.wireguard.interface@);
        assert(contains(f, f));
        assert(contains(m, m));
    }
}

/// The ruleset text before the tunnel forward slot: up to the LAN-to-WAN
/// forward.
pub open spec fn nft_head(
    table: Seq<char>,
    lan: Seq<char>,
    lan_ip: Seq<char>,
    ssh: u64,
    ui: u64,
    wan_cidr: Seq<char>,
    wan: Seq<char>,
    tproxy: u64,
    mark: u64,
) -> Seq<char> {
    Seq::<char>::empty()
        + "#!/usr/sbin/nft -f\n# Coexistence: policy accept. Do not take over host input filtering.\n# Host SSH/UI: only this box's LAN/loopback ports bypass tproxy (not every dport 22).\ntable inet "@
        + table
        + " {\n  chain prerouting {\n    type filter hook prerouting priority mangle; policy accept;\n    iifname != \""@
        + lan
        + "\" return\n    meta nfproto ipv6 drop\n    udp dport { 67, 68 } return\n    udp dport 53 return\n    tcp dport 53 return\n    ip daddr { "@
        + lan_ip
        + ", 127.0.0.1 } tcp dport 53 return\n    ip daddr { "@
        + lan_ip
        + ", 127.0.0.1 } udp dport 53 return\n    ip daddr { "@
        + lan_ip
        + ", 127.0.0.1 } tcp dport { "@
        + decimal(ssh as nat)
        + ", "@
        + decimal(ui as nat)
        + " } return\n    ip daddr "@
        + wan_cidr
        + " return\n    ip daddr { 10.0.0.0/8, 172.16.0.0/12, 192.168.0.0/16, 169.254.0.0/16, 127.0.0.0/8 } return\n    meta l4proto { tcp, udp } tproxy ip to 127.0.0.1:"@
        + decimal(tproxy as nat)
        + " meta mark set "@
        + decimal(mark as nat)
        + "\n  }\n  chain output {\n    type route hook output priority mangle; policy accept;\n    tcp sport { "@
        + decimal(ssh as nat)
        + ", "@
        + decimal(ui as nat)
        + " } return\n    tcp dport { "@
        + decimal(ssh as nat)
        + ", "@
        + decimal(ui as nat)
        + " } return\n  }\n  chain forward {\n    type filter hook forward priority 0; policy accept;\n    iifname \""@
        + lan
        + "\" oifname \""@
        + wan
        + "\" accept\n"@
}

/// The ruleset text between the two tunnel slots: the WAN-to-LAN forward
/// and the WAN masquerade.
pub open spec fn nft_mid(wan: Seq<char>, lan: Seq<char>) -> Seq<char> {
    Seq::<char>::empty()
        + "    iifname \""@
        + wan
        + "\" oifname \""@
        + lan
        + "\" accept\n  }\n  chain postrouting {\n    type nat hook postrouting priority srcnat; policy accept;\n    oifname \""@
        + wan
        + "\" masquerade\n"@
}

/// The ruleset text after the tunnel masquerade slot.
pub open spec fn nft_tail(nat_prerouting: Seq<char>) -> Seq<char> {
    Seq::<char>::empty()
        + "\n  }\n"@
        + nat_prerouting
        + "}\n"@
}

/// With both tunnel slots empty the ruleset is its head, middle and tail.
pub proof fn lemma_nft_text_off(
    table: Seq<char>,
    lan: Seq<char>,
    lan_ip: Seq<char>,
    ssh: u64,
    ui: u64,
    wan_cidr: Seq<char>,
    wan: Seq<char>,
    tproxy: u64,
    mark: u64,
    nat_prerouting: Seq<char>,
)
    ensures
        nft_text(
            table,
            lan,
            lan_ip,
            ssh,
            ui,
            wan_cidr,
            wan,
            Seq::empty(),
            Seq::empty(),
            tproxy,
            mark,
            nat_prerouting,
        ) == nft_head(table, lan, lan_ip, ssh, ui, wan_cidr, wan, tproxy, mark) + nft_mid(wan, lan)
            + nft_tail(nat_prerouting),
{
    assert(nft_text(
        table,
        lan,
        lan_ip,
        ssh,
        ui,
        wan_cidr,
        wan,
        Seq::empty(),
        Seq::empty(),
        tproxy,
        mark,
        nat_prerouting,
    ) =~= nft_head(table, lan, lan_ip, ssh, ui, wan_cidr, wan, tproxy, mark) + nft_mid(wan, lan)
        + nft_tail(nat_prerouting));
}

/// The ruleset text around its two tunnel slots.
proof fn lemma_nft_text_slots(
    table: Seq<char>,
    lan: Seq<char>,
    lan_ip: Seq<char>,
    ssh: u64,
    ui: u64,
    wan_cidr: Seq<char>,
    wan: Seq<char>,
    wg_forward: Seq<char>,
    wg_masq: Seq<char>,
    tproxy: u64,
    mark: u64,
    nat_prerouting: Seq<char>,
)
    ensures
        exists|p: Seq<char>, q: Seq<char>, r: Seq<char>|
            #![trigger p + q + r]
            nft_text(table, lan, lan_ip, ssh, ui, wan_cidr, wan, wg_forward, wg_masq, tproxy, mark, nat_prerouting)
                == p + wg_forward + q + wg_masq + r && nft_text(
                table,
                lan,
                lan_ip,
                ssh,
                ui,
                wan_cidr,
                wan,
                Seq::empty(),
                Seq::empty(),
                tproxy,
                mark,
                nat_prerouting,
            ) == p + q + r,
{
    let p = nft_head(table, lan, lan_ip, ssh, ui, wan_cidr, wan, tproxy, mark);
    let q = nft_mid(wan, lan);
    let r = nft_tail(nat_prerouting);
    assert(nft_text(table, lan, lan_ip, ssh, ui, wan_cidr, wan, wg_forward, wg_masq, tproxy, mark, nat_prerouting)
        =~= p + wg_forward + q + wg_masq + r);
    assert(nft_text(
        table,
        lan,
        lan_ip,
        ssh,
        ui,
        wan_cidr,
        wan,
        Seq::empty(),
        Seq::empty(),
        tproxy,
        mark,
        nat_prerouting,
    ) =~= p + q + r);
}

/// The configuration with the tunnel switched off.
pub open spec fn tunnel_off(cfg: AppConfig) -> AppConfig {
    AppConfig { wireguard: WireGuardConfig { enabled: false, ..cfg.wireguard }, ..cfg }
}

/// Switching the tunnel off takes exactly its two rules out of the ruleset:
/// the ruleset with the tunnel on is the one with it off with the
/// LAN-to-tunnel forward and the tunnel masquerade put back in their places,
/// and nothing else differs.
pub proof fn lemma_tunnel_off_drops_only_its_rules(cfg: AppConfig)
    requires
        cfg.wireguard.enabled,
    ensures
        exists|p: Seq<char>, q: Seq<char>, r: Seq<char>|
            #![trigger p + q + r]
            spec_render_nftables(cfg) == p + nft_wg_forward(cfg.lan.interface@, cfg.wireguard.interface@)
                + q + nft_wg_masq(cfg.wireguard.interface@) + r && spec_render_nftables(tunnel_off(cfg))
                == p + q + r,
{
    let off = tunnel_off(cfg);
    let wan = cfg.wan.interface@;
    let lan = cfg.lan.interface@;
    let wg = cfg.wireguard.interface@;
    assert(spec_lan_host_ip(off) == spec_lan_host_ip(cfg));
    assert(spec_wan_direct_cidr(off) == spec_wan_direct_cidr(cfg));
    assert(ui_port(off) == ui_port(cfg));
    let wan_cidr = match spec_wan_direct_cidr(cfg) {
        Some(c) => c,
        None => "192.168.0.0/16"@,
    };
    lemma_nft_text_slots(
        cfg.firewall.table_name@,
        lan,
        spec_lan_host_ip(cfg),
        cfg.firewall.ssh_port as u64,
        ui_port(cfg) as u64,
        wan_cidr,
        wan,
        nft_wg_forward(lan, wg),
        nft_wg_masq(wg),
        TPROXY_PORT as u64,
        TPROXY_MARK as u64,
        nft_nat_prerouting(lan, spec_lan_host_ip(cfg), nft_dnat_rules(cfg.port_forwards@, wan)),
    );
}

/// Renders the gateway's nftables ruleset.
pub fn render_nftables(config: &AppConfig) -> (r: String)
    ensures
        r@ == spec_render_nftables(*config),
{
    let wan = to_chars(config.wan.interface.as_str());
    let lan = to_chars(config.lan.interface.as_str());
    let lan_ip = lan_host_ip_chars(config);
    let ui: u16 = if config.ui.port == 0 {
        DEFAULT_UI_PORT
    } else {
        config.ui.port
    };
    let table = to_chars(config.firewall.table_name.as_str());
    let wg = to_chars(config.wireguard.interface.as_str());
    let wg_forward = if config.wireguard.enabled {
        nft_wg_forward_chars(lan.as_slice(), wg.as_slice())
    } else {
        Vec::new()
    };
    let wg_masq = if config.wireguard.enabled {
        nft_wg_masq_chars(wg.as_slice())
    } else {
        Vec::new()
    };
    let wan_cidr = match wan_direct_cidr_chars(config) {
        Some(c) => c,
        None => to_chars("192.168.0.0/16"),
    };
    let dnat = nft_dnat_rules_chars(&config.port_forwards, wan.as_slice());
    let nat_chain = nft_nat_prerouting_chars(lan.as_slice(), lan_ip.as_slice(), dnat.as_slice());
    let text = nft_text_chars(
        table.as_slice(),
        lan.as_slice(),
        lan_ip.as_slice(),
        config.firewall.ssh_port as u64,
        ui as u64,
        wan_cidr.as_slice(),
        wan.as_slice(),
        wg_forward.as_slice(),
        wg_masq.as_slice(),
        TPROXY_PORT as u64,
        TPROXY_MARK as u64,
        nat_chain.as_slice(),
    );
    from_chars(text.as_slice())
}

// ---------------------------------------------------------------------------
// wg-quick
// ---------------------------------------------------------------------------

/// The text of an optional secret, empty when absent.
pub open spec fn or_empty(o: Option<String>) -> Seq<char> {
    match o {
        Some(s) => s@,
        None => Seq::empty(),
    }
}

fn or_empty_chars(o: &Option<String>) -> (r: Vec<char>)
    ensures
        r@ == or_empty(*o),
{
    match o {
        Some(s) => to_chars(s.as_str()),
        None => Vec::new(),
    }
}

/// The wg-quick file of the tunnel: `Table = off`, the preshared key only
/// when one is set.
pub open spec fn spec_render_wg_quick(cfg: AppConfig, secrets: Secrets) -> Seq<char> {
    let psk = match secrets.wireguard_preshared_key {
        Some(k) => if k@.len() > 0 {
            wg_psk_line(k@)
        } else {
            Seq::empty()
        },
        None => Seq::empty(),
    };
    wg_quick_text(
        cfg.wireguard.address@,
        cfg.wireguard.listen_port as u64,
        or_empty(secrets.wireguard_private_key),
        or_empty(secrets.wireguard_peer_public_key),
        psk,
        cfg.wireguard.peer_allowed_ips@,
        cfg.wireguard.peer_endpoint@,
    )
}

/// Renders the wg-quick file of the tunnel.
pub fn render_wg_quick(config: &AppConfig, secrets: &Secrets) -> (r: String)
    ensures
        r@ == spec_render_wg_quick(*config, *secrets),
{
    let psk = match &secrets.wireguard_preshared_key {
        Some(k) => if !k.as_str().is_empty() {
            wg_psk_line_chars(to_chars(k.as_str()).as_slice())
        } else {
            Vec::new()
        },
        None => Vec::new(),
    };
    let text = wg_quick_text_chars(
        to_chars(config.wireguard.address.as_str()).as_slice(),
        config.wireguard.listen_port as u64,
        or_empty_chars(&secrets.wireguard_private_key).as_slice(),
        or_empty_chars(&secrets.wireguard_peer_public_key).as_slice(),
        psk.as_slice(),
        to_chars(config.wireguard.peer_allowed_ips.as_str()).as_slice(),
        to_chars(config.wireguard.peer_endpoint.as_str()).as_slice(),
    );
    from_chars(text.as_slice())
}

// ---------------------------------------------------------------------------
// dnsmasq
// ---------------------------------------------------------------------------

/// The static lease of one reservation: none when its MAC or address is
/// blank or the MAC does not parse.
pub open spec fn host_entry(r: DhcpReservation) -> Seq<char> {
    if trim(r.mac@).len() == 0 || trim(r.ip@).len() == 0 {
        Seq::empty()
    } else {
        match spec_parse_mac(r.mac@) {
            Ok(mac) => dnsmasq_host_line(mac, trim(r.ip@)),
            Err(_) => Seq::empty(),
        }
    }
}

/// The static leases of all reservations, in order.
pub open spec fn dnsmasq_hosts(rs: Seq<DhcpReservation>) -> Seq<char>
    decreases rs.len(),
{
    if rs.len() == 0 {
        Seq::empty()
    } else {
        dnsmasq_hosts(rs.drop_last()) + host_entry(rs.last())
    }
}

fn host_entry_chars(r: &DhcpReservation) -> (out: Vec<char>)
    ensures
        out@ == host_entry(*r),
{
    let mac_t = trim_chars(to_chars(r.mac.as_str()).as_slice());
    let ip_t = trim_chars(to_chars(r.ip.as_str()).as_slice());
    if mac_t.len() == 0 || ip_t.len() == 0 {
        return Vec::new();
    }
    match parse_mac(r.mac.as_str()) {
        Ok(mac) => dnsmasq_host_line_chars(to_chars(mac.as_str()).as_slice(), ip_t.as_slice()),
        Err(_) => Vec::new(),
    }
}

fn dnsmasq_hosts_chars(rs: &Vec<DhcpReservation>) -> (r: Vec<char>)
    ensures
        r@ == dnsmasq_hosts(rs@),
{
    let mut out: Vec<char> = Vec::new();
    let n = rs.len();
    assert(rs@.take(0) =~= Seq::<DhcpReservation>::empty());
    for i in 0..n
        invariant
            n == rs@.len(),
            out@ == dnsmasq_hosts(rs@.take(i as int)),
    {
        assert(rs@.take((i + 1) as int).drop_last() =~= rs@.take(i as int));
        let entry = host_entry_chars(&rs[i]);
        push_all(&mut out, entry.as_slice());
    }
    assert(rs@.take(n as int) =~= rs@);
    out
}

/// The dnsmasq configuration of a configuration.
pub open spec fn spec_render_dnsmasq(cfg: AppConfig) -> Seq<char> {
    dnsmasq_text(
        cfg.lan.interface@,
        spec_lan_host_ip(cfg),
        cfg.dhcp.range_start@,
        cfg.dhcp.range_end@,
        cfg.dhcp.lease_time@,
        DNS_PROXY_PORT as u64,
        dnsmasq_hosts(cfg.dhcp.reservations@),
        cfg.wan.interface@,
    )
}

/// The DHCP pool line of the dnsmasq file.
pub open spec fn dhcp_range_line(start: Seq<char>, end: Seq<char>, lease: Seq<char>) -> Seq<char> {
    "\ndhcp-range="@ + start + ","@ + end + ","@ + lease + "\n"@
}

/// The dnsmasq file hands out the configured pool on the LAN: it holds the
/// whole line `dhcp-range=<range_start>,<range_end>,<lease_time>` of the
/// configuration, starts with the line `interface=<lan>`, and ends with
/// `except-interface=<wan>` and a line break.
pub proof fn lemma_dnsmasq_serves_the_range(cfg: AppConfig)
    ensures
        contains(
            spec_render_dnsmasq(cfg),
            dhcp_range_line(cfg.dhcp.range_start@, cfg.dhcp.range_end@, cfg.dhcp.lease_time@),
        ),
        starts_with(spec_render_dnsmasq(cfg), "interface="@ + cfg.lan.interface@ + "\n"@),
        ends_with(spec_render_dnsmasq(cfg), "except-interface="@ + cfg.wan.interface@ + "\n"@),
{
    let start = cfg.dhcp.range_start@;
    let end = cfg.dhcp.range_end@;
    let lease = cfg.dhcp.lease_time@;
    let lan_ip = spec_lan_host_ip(cfg);
    let line = dhcp_range_line(start, end, lease);
    let before = Seq::<char>::empty() + "interface="@ + cfg.lan.interface@ + "\nlisten-address="@
        + lan_ip + "\nbind-interfaces\ndhcp-authoritative\ndhcp-option=3,"@ + lan_ip;
    let after = "no-resolv\nno-hosts\nserver=127.0.0.1#"@ + decimal(DNS_PROXY_PORT as nat)
        + "\ndhcp-option=6,"@ + lan_ip + "\n"@ + dnsmasq_hosts(cfg.dhcp.reservations@)
        + "except-interface="@ + cfg.wan.interface@ + "\n"@;
    assert(spec_render_dnsmasq(cfg) =~= before + line + after) by {
        reveal_strlit("\nno-resolv\nno-hosts\nserver=127.0.0.1#");
        reveal_strlit("no-resolv\nno-hosts\nserver=127.0.0.1#");
        reveal_strlit("\n");
    }
    let b = before.len() as int;
    assert((before + line + after).subrange(b, b + line.len()) =~= line);
    lemma_contains_at(before + line + after, line, before.len() as int);
    let text = spec_render_dnsmasq(cfg);
    let first = "interface="@ + cfg.lan.interface@ + "\n"@;
    assert(text.take(first.len() as int) =~= first) by {
        reveal_strlit("\nlisten-address=");
        reveal_strlit("\n");
    }
    let last = "except-interface="@ + cfg.wan.interface@ + "\n"@;
    assert(text.skip(text.len() - last.len()) =~= last);
}

/// Renders the dnsmasq configuration: DHCP on the LAN, DNS handed to the
/// proxy's DNS port.
pub fn render_dnsmasq(config: &AppConfig) -> (r: String)
    ensures
        r@ == spec_render_dnsmasq(*config),
{
    let lan_ip = lan_host_ip_chars(config);
    let hosts = dnsmasq_hosts_chars(&config.dhcp.reservations);
    let text = dnsmasq_text_chars(
        to_chars(config.lan.interface.as_str()).as_slice(),
        lan_ip.as_slice(),
        to_chars(config.dhcp.range_start.as_str()).as_slice(),
        to_chars(config.dhcp.range_end.as_str()).as_slice(),
        to_chars(config.dhcp.lease_time.as_str()).as_slice(),
        DNS_PROXY_PORT as u64,
        hosts.as_slice(),
        to_chars(config.wan.interface.as_str()).as_slice(),
    );
    from_chars(text.as_slice())
}

// ---------------------------------------------------------------------------
// Small files
// ---------------------------------------------------------------------------

/// Renders the interface contract consumed by the Docker FORWARD
/// compatibility unit.
pub fn render_forwarding_env(config: &AppConfig) -> (r: String)
    ensures
        r@ == forwarding_env_text(config.lan.interface@, config.wan.interface@),
{
    let text = forwarding_env_text_chars(
        to_chars(config.lan.interface.as_str()).as_slice(),
        to_chars(config.wan.interface.as_str()).as_slice(),
    );
    from_chars(text.as_slice())
}

/// The sysctl settings file.
pub fn render_sysctl() -> (r: &'static str)
    ensures
        r@ == SYSCTL_CONF@,
{
    SYSCTL_CONF
}


} // verus!

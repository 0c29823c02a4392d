//! Validation of the operator's configuration.

use vstd::prelude::*;
use crate::model::{
    opt_view, AppConfig, ConflictSeverity, DhcpReservation, OperatingMode, PortForward, Secrets,
    ValidateError, ValidationIssue, ValidationIssueView, issues_view, POLICY_TABLE_ID,
};
use crate::net::{
    cidr_overlap, ipv4_in_cidr, ipv4_network, ipv4_to_chars, ipv4_text, is_loopback_bind,
    is_rfc1918, parse_ipv4, parse_ipv4_cidr, parse_mac, spec_cidr_overlap, spec_ipv4_in_cidr,
    spec_ipv4_network, spec_is_loopback_bind, spec_is_rfc1918, spec_parse_ipv4,
    spec_parse_ipv4_cidr, spec_parse_mac,
};
use crate::text::{
    decimal, eq_str, from_chars, lower, lower_chars, push_decimal, push_str, to_chars, trim,
    trim_str,
};

verus! {

/// The first error that `f` reports along `items`.
pub open spec fn first_error<T>(items: Seq<T>, f: spec_fn(T) -> Option<Seq<char>>) -> Option<
    Seq<char>,
>
    decreases items.len(),
{
    if items.len() == 0 {
        None
    } else {
        match first_error(items.drop_last(), f) {
            Some(e) => Some(e),
            None => f(items.last()),
        }
    }
}

pub proof fn lemma_first_error_prefix<T>(
    items: Seq<T>,
    f: spec_fn(T) -> Option<Seq<char>>,
    k: int,
)
    requires
        0 <= k <= items.len(),
        first_error(items.take(k), f) is Some,
    ensures
        first_error(items, f) == first_error(items.take(k), f),
    decreases items.len() - k,
{
    if k < items.len() {
        assert(items.take(k + 1).drop_last() =~= items.take(k));
        lemma_first_error_prefix(items, f, k + 1);
    } else {
        assert(items.take(k) =~= items);
    }
}

/// The option is absent or holds an empty string.
pub open spec fn none_or_empty(o: Option<String>) -> bool {
    match o {
        Some(s) => s@.len() == 0,
        None => true,
    }
}

fn none_or_empty_exec(o: &Option<String>) -> (r: bool)
    ensures
        r == none_or_empty(*o),
{
    match o {
        Some(s) => s.as_str().is_empty(),
        None => true,
    }
}

/// What makes a DHCP reservation invalid, if anything. A reservation whose
/// MAC and IP are both blank is ignored.
pub open spec fn reservation_error(r: DhcpReservation, net: u32, prefix: u8) -> Option<Seq<char>> {
    if trim(r.mac@).len() == 0 && trim(r.ip@).len() == 0 {
        None
    } else {
        match spec_parse_mac(r.mac@) {
            Err(e) => Some(e),
            Ok(_) => match spec_parse_ipv4(r.ip@) {
                None => Some("invalid IPv4: "@ + r.ip@),
                Some(ip) => if !spec_ipv4_in_cidr(ip, net, prefix) {
                    Some("DHCP reservation IP must sit inside the LAN CIDR"@)
                } else {
                    None
                },
            },
        }
    }
}

/// What makes the DHCP range invalid, if anything.
pub open spec fn dhcp_range_error(cfg: AppConfig, net: u32, prefix: u8) -> Option<Seq<char>> {
    if !cfg.dhcp.enabled {
        None
    } else {
        match spec_parse_ipv4(cfg.dhcp.range_start@) {
            None => Some("invalid IPv4: "@ + cfg.dhcp.range_start@),
            Some(start) => match spec_parse_ipv4(cfg.dhcp.range_end@) {
                None => Some("invalid IPv4: "@ + cfg.dhcp.range_end@),
                Some(end) => if !spec_ipv4_in_cidr(start, net, prefix) || !spec_ipv4_in_cidr(
                    end,
                    net,
                    prefix,
                ) {
                    Some("DHCP range must sit inside the LAN CIDR"@)
                } else if start > end {
                    Some("DHCP range_start > range_end"@)
                } else {
                    None
                },
            },
        }
    }
}

/// The LAN checks: the LAN CIDR parses, the DHCP range and reservations sit
/// inside it; a public LAN block is a warning.
pub open spec fn lan_stage(cfg: AppConfig) -> Result<Seq<ValidationIssueView>, Seq<char>> {
    match cfg.lan.address {
        None => Ok(Seq::empty()),
        Some(addr) => match spec_parse_ipv4_cidr(addr@) {
            Err(e) => Err(e),
            Ok((net, prefix)) => {
                let issues = if !spec_is_rfc1918(net, prefix) {
                    seq![
                        ValidationIssueView {
                            id: "lan-public-cidr"@,
                            severity: ConflictSeverity::Warning,
                            detail: addr@ + " is not RFC1918; routing conflicts are likely"@,
                        },
                    ]
                } else {
                    Seq::empty()
                };
                match dhcp_range_error(cfg, net, prefix) {
                    Some(e) => Err(e),
                    None => match first_error(
                        cfg.dhcp.reservations@,
                        |r: DhcpReservation| reservation_error(r, net, prefix),
                    ) {
                        Some(e) => Err(e),
                        None => Ok(issues),
                    },
                }
            },
        },
    }
}

/// The WAN checks: the WAN CIDR parses and does not overlap the LAN; a
/// public WAN block is a warning.
pub open spec fn wan_stage(cfg: AppConfig) -> Result<Seq<ValidationIssueView>, Seq<char>> {
    match cfg.wan.address {
        None => Ok(Seq::empty()),
        Some(addr) => match spec_parse_ipv4_cidr(addr@) {
            Err(e) => Err(e),
            Ok((wan, wp)) => {
                let issues = if !spec_is_rfc1918(wan, wp) {
                    seq![
                        ValidationIssueView {
                            id: "wan-public-cidr"@,
                            severity: ConflictSeverity::Warning,
                            detail: addr@ + " is not RFC1918; confirm this is intentional"@,
                        },
                    ]
                } else {
                    Seq::empty()
                };
                match cfg.lan.address {
                    None => Ok(issues),
                    Some(lan_addr) => match spec_parse_ipv4_cidr(lan_addr@) {
                        Err(e) => Err(e),
                        Ok((lan, lp)) => if spec_cidr_overlap(lan, lp, wan, wp) {
                            Err("LAN and WAN CIDRs overlap"@)
                        } else {
                            Ok(issues)
                        },
                    },
                }
            },
        },
    }
}

/// What makes an enabled port forward invalid, if anything.
pub open spec fn forward_error(fw: PortForward, net: u32, prefix: u8) -> Option<Seq<char>> {
    if !fw.enabled {
        None
    } else if lower(fw.protocol@) != "tcp"@ && lower(fw.protocol@) != "udp"@ {
        Some("port forward protocol must be tcp or udp"@)
    } else if fw.wan_port == 0 || fw.lan_port == 0 {
        Some("port forward ports must be 1-65535"@)
    } else {
        match spec_parse_ipv4(fw.lan_ip@) {
            None => Some("invalid IPv4: "@ + fw.lan_ip@),
            Some(ip) => if !spec_ipv4_in_cidr(ip, net, prefix) {
                Some("port forward LAN IP must sit inside the LAN CIDR"@)
            } else {
                None
            },
        }
    }
}

/// The port-forward checks, against the LAN CIDR.
pub open spec fn forwards_stage(cfg: AppConfig) -> Option<Seq<char>> {
    match cfg.lan.address {
        None => None,
        Some(addr) => match spec_parse_ipv4_cidr(addr@) {
            Err(e) => Some(e),
            Ok((net, prefix)) => first_error(
                cfg.port_forwards@,
                |fw: PortForward| forward_error(fw, net, prefix),
            ),
        },
    }
}

/// Some LAN or WAN DNS server is more than whitespace.
pub open spec fn dns_configured(cfg: AppConfig) -> bool {
    ||| exists|i: int| 0 <= i < cfg.lan.dns@.len() && trim(cfg.lan.dns@[i]@).len() > 0
    ||| exists|i: int| 0 <= i < cfg.wan.dns@.len() && trim(cfg.wan.dns@[i]@).len() > 0
}

/// `secrets.proxy_uri` holds more than whitespace.
pub open spec fn has_proxy_uri(secrets: Secrets) -> bool {
    match secrets.proxy_uri {
        Some(u) => trim(u@).len() > 0,
        None => false,
    }
}

/// The gateway-mode checks: DNS, two distinct NICs, exactly one transport.
pub open spec fn gateway_stage(cfg: AppConfig, secrets: Secrets) -> Option<Seq<char>> {
    if cfg.mode != OperatingMode::Gateway {
        None
    } else if !dns_configured(cfg) {
        Some("gateway mode requires at least one configured DNS server"@)
    } else if trim(cfg.wan.interface@).len() == 0 || trim(cfg.lan.interface@).len() == 0 {
        Some("gateway mode requires wan.interface and lan.interface"@)
    } else if cfg.wan.interface@ == cfg.lan.interface@ {
        Some("WAN and LAN must be different NICs"@)
    } else if !cfg.wireguard.enabled && !has_proxy_uri(secrets) {
        Some("gateway mode requires WireGuard or a proxy_uri in secrets.toml"@)
    } else if cfg.wireguard.enabled && has_proxy_uri(secrets) {
        Some("choose exactly one overseas transport: WireGuard or proxy_uri"@)
    } else {
        None
    }
}

/// The WireGuard checks: an address, an endpoint and both keys.
pub open spec fn wireguard_stage(cfg: AppConfig, secrets: Secrets) -> Option<Seq<char>> {
    if !cfg.wireguard.enabled {
        None
    } else if trim(cfg.wireguard.address@).len() == 0 || trim(cfg.wireguard.peer_endpoint@).len()
        == 0 {
        Some("wireguard.enabled requires address and peer_endpoint"@)
    } else if none_or_empty(secrets.wireguard_private_key) || none_or_empty(
        secrets.wireguard_peer_public_key,
    ) {
        Some("wireguard.enabled requires keys in secrets.toml"@)
    } else {
        None
    }
}

/// `AppConfig::validate`: the first failing check's message, or the
/// warnings of the LAN and WAN stages, in that order.
pub open spec fn spec_validate(cfg: AppConfig, secrets: Secrets) -> Result<
    Seq<ValidationIssueView>,
    Seq<char>,
> {
    if cfg.firewall.table_name@ != "gateway_kit"@ {
        Err("nft table must be gateway_kit"@)
    } else if cfg.routing.policy_table_id != POLICY_TABLE_ID {
        Err("policy table id must be 51820"@)
    } else if !spec_is_loopback_bind(cfg.ui.bind@) && none_or_empty(secrets.ui_lan_token) {
        Err("non-loopback UI bind requires secrets.ui_lan_token"@)
    } else {
        match lan_stage(cfg) {
            Err(e) => Err(e),
            Ok(lan_issues) => match wan_stage(cfg) {
                Err(e) => Err(e),
                Ok(wan_issues) => match forwards_stage(cfg) {
                    Some(e) => Err(e),
                    None => match gateway_stage(cfg, secrets) {
                        Some(e) => Err(e),
                        None => match wireguard_stage(cfg, secrets) {
                            Some(e) => Err(e),
                            None => Ok(lan_issues + wan_issues),
                        },
                    },
                },
            },
        }
    }
}

fn err_text(s: &str) -> (r: ValidateError)
    ensures
        r.message() == s@,
{
    ValidateError::Message(s.to_owned())
}

fn warning_for(id: &str, addr: &str, tail: &str) -> (r: ValidationIssue)
    ensures
        r@ == (ValidationIssueView {
            id: id@,
            severity: ConflictSeverity::Warning,
            detail: addr@ + tail@,
        }),
{
    let mut m = to_chars(addr);
    push_str(&mut m, tail);
    ValidationIssue::warning(id, from_chars(m.as_slice()))
}

fn reservation_check(r: &DhcpReservation, net: u32, prefix: u8) -> (e: Option<ValidateError>)
    requires
        prefix <= 32,
    ensures
        match e {
            Some(e) => reservation_error(*r, net, prefix) == Some(e.message()),
            None => reservation_error(*r, net, prefix) is None,
        },
{
    let mac_t = trim_str(r.mac.as_str());
    let ip_t = trim_str(r.ip.as_str());
    if mac_t.len() == 0 && ip_t.len() == 0 {
        return None;
    }
    match parse_mac(r.mac.as_str()) {
        Err(e) => return Some(e),
        Ok(_) => {},
    }
    let ip = match parse_ipv4(r.ip.as_str()) {
        Err(e) => return Some(e),
        Ok(ip) => ip,
    };
    if !ipv4_in_cidr(ip, net, prefix) {
        return Some(err_text("DHCP reservation IP must sit inside the LAN CIDR"));
    }
    None
}

fn dhcp_check(cfg: &AppConfig, net: u32, prefix: u8) -> (e: Option<ValidateError>)
    requires
        prefix <= 32,
    ensures
        match e {
            Some(e) => dhcp_range_error(*cfg, net, prefix) == Some(e.message()),
            None => dhcp_range_error(*cfg, net, prefix) is None,
        },
{
    if !cfg.dhcp.enabled {
        return None;
    }
    let start = match parse_ipv4(cfg.dhcp.range_start.as_str()) {
        Err(e) => return Some(e),
        Ok(v) => v,
    };
    let end = match parse_ipv4(cfg.dhcp.range_end.as_str()) {
        Err(e) => return Some(e),
        Ok(v) => v,
    };
    if !ipv4_in_cidr(start, net, prefix) || !ipv4_in_cidr(end, net, prefix) {
        return Some(err_text("DHCP range must sit inside the LAN CIDR"));
    }
    if start > end {
        return Some(err_text("DHCP range_start > range_end"));
    }
    None
}

fn reservations_check(cfg: &AppConfig, net: u32, prefix: u8) -> (e: Option<ValidateError>)
    requires
        prefix <= 32,
    ensures
        match e {
            Some(e) => first_error(
                cfg.dhcp.reservations@,
                |r: DhcpReservation| reservation_error(r, net, prefix),
            ) == Some(e.message()),
            None => first_error(
                cfg.dhcp.reservations@,
                |r: DhcpReservation| reservation_error(r, net, prefix),
            ) is None,
        },
{
    let ghost f = |r: DhcpReservation| reservation_error(r, net, prefix);
    let ghost items = cfg.dhcp.reservations@;
    let n = cfg.dhcp.reservations.len();
    for i in 0..n
        invariant
            n == items.len(),
            items == cfg.dhcp.reservations@,
            prefix <= 32,
            f == (|r: DhcpReservation| reservation_error(r, net, prefix)),
            first_error(items.take(i as int), f) is None,
    {
        assert(items.take((i + 1) as int).drop_last() =~= items.take(i as int));
        assert(items.take((i + 1) as int).last() == items[i as int]);
        match reservation_check(&cfg.dhcp.reservations[i], net, prefix) {
            Some(e) => {
                proof {
                    lemma_first_error_prefix(items, f, (i + 1) as int);
                }
                return Some(e);
            },
            None => {},
        }
    }
    assert(items.take(n as int) =~= items);
    None
}

fn lan_check(cfg: &AppConfig) -> (r: Result<Vec<ValidationIssue>, ValidateError>)
    ensures
        match r {
            Ok(v) => lan_stage(*cfg) == Ok::<Seq<ValidationIssueView>, Seq<char>>(issues_view(v@)),
            Err(e) => lan_stage(*cfg) == Err::<Seq<ValidationIssueView>, Seq<char>>(e.message()),
        },
{
    let mut issues: Vec<ValidationIssue> = Vec::new();
    match &cfg.lan.address {
        None => {
            assert(issues_view(issues@) =~= Seq::<ValidationIssueView>::empty());
            Ok(issues)
        },
        Some(addr) => {
            let (net, prefix) = match parse_ipv4_cidr(addr.as_str()) {
                Err(e) => return Err(e),
                Ok(v) => v,
            };
            proof {
                crate::net::lemma_parse_cidr_prefix(addr@);
            }
            if !is_rfc1918(net, prefix) {
                issues.push(
                    warning_for(
                        "lan-public-cidr",
                        addr.as_str(),
                        " is not RFC1918; routing conflicts are likely",
                    ),
                );
            }
            match dhcp_check(cfg, net, prefix) {
                Some(e) => return Err(e),
                None => {},
            }
            match reservations_check(cfg, net, prefix) {
                Some(e) => return Err(e),
                None => {},
            }
            assert(issues_view(issues@) =~= (if !spec_is_rfc1918(net, prefix) {
                seq![
                    ValidationIssueView {
                        id: "lan-public-cidr"@,
                        severity: ConflictSeverity::Warning,
                        detail: addr@ + " is not RFC1918; routing conflicts are likely"@,
                    },
                ]
            } else {
                Seq::empty()
            }));
            Ok(issues)
        },
    }
}

fn wan_check(cfg: &AppConfig) -> (r: Result<Vec<ValidationIssue>, ValidateError>)
    ensures
        match r {
            Ok(v) => wan_stage(*cfg) == Ok::<Seq<ValidationIssueView>, Seq<char>>(issues_view(v@)),
            Err(e) => wan_stage(*cfg) == Err::<Seq<ValidationIssueView>, Seq<char>>(e.message()),
        },
{
    let mut issues: Vec<ValidationIssue> = Vec::new();
    match &cfg.wan.address {
        None => {
            assert(issues_view(issues@) =~= Seq::<ValidationIssueView>::empty());
            Ok(issues)
        },
        Some(addr) => {
            let (wan, wp) = match parse_ipv4_cidr(addr.as_str()) {
                Err(e) => return Err(e),
                Ok(v) => v,
            };
            proof {
                crate::net::lemma_parse_cidr_prefix(addr@);
            }
            if !is_rfc1918(wan, wp) {
                issues.push(
                    warning_for(
                        "wan-public-cidr",
                        addr.as_str(),
                        " is not RFC1918; confirm this is intentional",
                    ),
                );
            }
            assert(issues_view(issues@) =~= (if !spec_is_rfc1918(wan, wp) {
                seq![
                    ValidationIssueView {
                        id: "wan-public-cidr"@,
                        severity: ConflictSeverity::Warning,
                        detail: addr@ + " is not RFC1918; confirm this is intentional"@,
                    },
                ]
            } else {
                Seq::empty()
            }));
            match &cfg.lan.address {
                None => Ok(issues),
                Some(lan_addr) => {
                    let (lan, lp) = match parse_ipv4_cidr(lan_addr.as_str()) {
                        Err(e) => return Err(e),
                        Ok(v) => v,
                    };
                    proof {
                        crate::net::lemma_parse_cidr_prefix(lan_addr@);
                    }
                    if cidr_overlap(lan, lp, wan, wp) {
                        return Err(err_text("LAN and WAN CIDRs overlap"));
                    }
                    Ok(issues)
                },
            }
        },
    }
}

fn forward_check(fw: &PortForward, net: u32, prefix: u8) -> (e: Option<ValidateError>)
    requires
        prefix <= 32,
    ensures
        match e {
            Some(e) => forward_error(*fw, net, prefix) == Some(e.message()),
            None => forward_error(*fw, net, prefix) is None,
        },
{
    if !fw.enabled {
        return None;
    }
    let pc = to_chars(fw.protocol.as_str());
    let proto = lower_chars(pc.as_slice());
    if !eq_str(proto.as_slice(), "tcp") && !eq_str(proto.as_slice(), "udp") {
        return Some(err_text("port forward protocol must be tcp or udp"));
    }
    if fw.wan_port == 0 || fw.lan_port == 0 {
        return Some(err_text("port forward ports must be 1-65535"));
    }
    let ip = match parse_ipv4(fw.lan_ip.as_str()) {
        Err(e) => return Some(e),
        Ok(ip) => ip,
    };
    if !ipv4_in_cidr(ip, net, prefix) {
        return Some(err_text("port forward LAN IP must sit inside the LAN CIDR"));
    }
    None
}

fn forwards_first_error(cfg: &AppConfig, net: u32, prefix: u8) -> (e: Option<ValidateError>)
    requires
        prefix <= 32,
    ensures
        match e {
            Some(e) => first_error(
                cfg.port_forwards@,
                |fw: PortForward| forward_error(fw, net, prefix),
            ) == Some(e.message()),
            None => first_error(
                cfg.port_forwards@,
                |fw: PortForward| forward_error(fw, net, prefix),
            ) is None,
        },
{
    let ghost f = |fw: PortForward| forward_error(fw, net, prefix);
    let ghost items = cfg.port_forwards@;
    let n = cfg.port_forwards.len();
    for i in 0..n
        invariant
            n == items.len(),
            items == cfg.port_forwards@,
            prefix <= 32,
            f == (|fw: PortForward| forward_error(fw, net, prefix)),
            first_error(items.take(i as int), f) is None,
    {
        assert(items.take((i + 1) as int).drop_last() =~= items.take(i as int));
        assert(items.take((i + 1) as int).last() == items[i as int]);
        match forward_check(&cfg.port_forwards[i], net, prefix) {
            Some(e) => {
                proof {
                    lemma_first_error_prefix(items, f, (i + 1) as int);
                }
                return Some(e);
            },
            None => {},
        }
    }
    assert(items.take(n as int) =~= items);
    None
}

fn forwards_check(cfg: &AppConfig) -> (e: Option<ValidateError>)
    ensures
        match e {
            Some(e) => forwards_stage(*cfg) == Some(e.message()),
            None => forwards_stage(*cfg) is None,
        },
{
    match &cfg.lan.address {
        None => None,
        Some(addr) => {
            let (net, prefix) = match parse_ipv4_cidr(addr.as_str()) {
                Err(e) => return Some(e),
                Ok(v) => v,
            };
            proof {
                crate::net::lemma_parse_cidr_prefix(addr@);
            }
            forwards_first_error(cfg, net, prefix)
        },
    }
}

fn any_nonblank(v: &Vec<String>) -> (r: bool)
    ensures
        r == exists|i: int| 0 <= i < v@.len() && trim(v@[i]@).len() > 0,
{
    let n = v.len();
    for i in 0..n
        invariant
            n == v@.len(),
            forall|j: int| 0 <= j < i ==> trim(v@[j]@).len() == 0,
    {
        let t = trim_str(v[i].as_str());
        if t.len() > 0 {
            return true;
        }
    }
    false
}

fn has_proxy_uri_exec(secrets: &Secrets) -> (r: bool)
    ensures
        r == has_proxy_uri(*secrets),
{
    match &secrets.proxy_uri {
        Some(u) => trim_str(u.as_str()).len() > 0,
        None => false,
    }
}

fn gateway_check(cfg: &AppConfig, secrets: &Secrets) -> (e: Option<ValidateError>)
    ensures
        match e {
            Some(e) => gateway_stage(*cfg, *secrets) == Some(e.message()),
            None => gateway_stage(*cfg, *secrets) is None,
        },
{
    if cfg.mode != OperatingMode::Gateway {
        return None;
    }
    if !any_nonblank(&cfg.lan.dns) && !any_nonblank(&cfg.wan.dns) {
        return Some(err_text("gateway mode requires at least one configured DNS server"));
    }
    if trim_str(cfg.wan.interface.as_str()).len() == 0 || trim_str(cfg.lan.interface.as_str()).len()
        == 0 {
        return Some(err_text("gateway mode requires wan.interface and lan.interface"));
    }
    if cfg.wan.interface == cfg.lan.interface {
        return Some(err_text("WAN and LAN must be different NICs"));
    }
    let proxy = has_proxy_uri_exec(secrets);
    if !cfg.wireguard.enabled && !proxy {
        return Some(err_text("gateway mode requires WireGuard or a proxy_uri in secrets.toml"));
    }
    if cfg.wireguard.enabled && proxy {
        return Some(err_text("choose exactly one overseas transport: WireGuard or proxy_uri"));
    }
    None
}

fn wireguard_check(cfg: &AppConfig, secrets: &Secrets) -> (e: Option<ValidateError>)
    ensures
        match e {
            Some(e) => wireguard_stage(*cfg, *secrets) == Some(e.message()),
            None => wireguard_stage(*cfg, *secrets) is None,
        },
{
    if !cfg.wireguard.enabled {
        return None;
    }
    if trim_str(cfg.wireguard.address.as_str()).len() == 0 || trim_str(
        cfg.wireguard.peer_endpoint.as_str(),
    ).len() == 0 {
        return Some(err_text("wireguard.enabled requires address and peer_endpoint"));
    }
    if none_or_empty_exec(&secrets.wireguard_private_key) || none_or_empty_exec(
        &secrets.wireguard_peer_public_key,
    ) {
        return Some(err_text("wireguard.enabled requires keys in secrets.toml"));
    }
    None
}

impl AppConfig {
    /// Checks the configuration against the secrets. Returns the warnings, or
    /// the first problem that makes the configuration unusable.
    pub fn validate(&self, secrets: &Secrets) -> (r: Result<Vec<ValidationIssue>, ValidateError>)
        ensures
            match r {
                Ok(v) => spec_validate(*self, *secrets) == Ok::<
                    Seq<ValidationIssueView>,
                    Seq<char>,
                >(issues_view(v@)),
                Err(e) => spec_validate(*self, *secrets) == Err::<
                    Seq<ValidationIssueView>,
                    Seq<char>,
                >(e.message()),
            },
    {
        if !eq_str(to_chars(self.firewall.table_name.as_str()).as_slice(), "gateway_kit") {
            return Err(err_text("nft table must be gateway_kit"));
        }
        if self.routing.policy_table_id != POLICY_TABLE_ID {
            return Err(err_text("policy table id must be 51820"));
        }
        if !is_loopback_bind(self.ui.bind.as_str()) && none_or_empty_exec(&secrets.ui_lan_token) {
            return Err(err_text("non-loopback UI bind requires secrets.ui_lan_token"));
        }
        let mut issues = match lan_check(self) {
            Err(e) => return Err(e),
            Ok(v) => v,
        };
        let wan_issues = match wan_check(self) {
            Err(e) => return Err(e),
            Ok(v) => v,
        };
        match forwards_check(self) {
            Some(e) => return Err(e),
            None => {},
        }
        match gateway_check(self, secrets) {
            Some(e) => return Err(e),
            None => {},
        }
        match wireguard_check(self, secrets) {
            Some(e) => return Err(e),
            None => {},
        }
        let ghost lan_v = issues@;
        let n = wan_issues.len();
        for i in 0..n
            invariant
                n == wan_issues@.len(),
                issues@ == lan_v + wan_issues@.take(i as int),
        {
            issues.push(wan_issues[i].clone_issue());
            assert(wan_issues@.take((i + 1) as int) =~= wan_issues@.take(i as int).push(
                wan_issues@[i as int],
            ));
        }
        assert(wan_issues@.take(n as int) =~= wan_issues@);
        assert(issues_view(issues@) =~= issues_view(lan_v) + issues_view(wan_issues@));
        Ok(issues)
    }
}

impl ValidationIssue {
    /// A copy of the issue.
    pub fn clone_issue(&self) -> (r: ValidationIssue)
        ensures
            r == *self,
    {
        ValidationIssue { id: self.id.clone(), severity: self.severity, detail: self.detail.clone() }
    }
}

/// `wan_direct_cidr`: the WAN network prefix, e.g. `192.168.40.0/24`, when
/// the WAN address parses.
pub open spec fn spec_wan_direct_cidr(cfg: AppConfig) -> Option<Seq<char>> {
    match cfg.wan.address {
        None => None,
        Some(addr) => match spec_parse_ipv4_cidr(addr@) {
            Err(_) => None,
            Ok((ip, prefix)) => Some(
                ipv4_text(spec_ipv4_network(ip, prefix)) + seq!['/'] + decimal(prefix as nat),
            ),
        },
    }
}

/// A configuration that passes validation with DHCP on and a LAN address
/// hands out a well-formed pool: both ends of the range are IPv4 addresses
/// inside the LAN network, and the start is not above the end.
pub proof fn lemma_valid_dhcp_range(cfg: AppConfig, secrets: Secrets)
    requires
        spec_validate(cfg, secrets) is Ok,
        cfg.dhcp.enabled,
        cfg.lan.address is Some,
    ensures
        spec_parse_ipv4_cidr(cfg.lan.address->0@) matches Ok((net, prefix)) && spec_parse_ipv4(
            cfg.dhcp.range_start@,
        ) matches Some(start) && spec_parse_ipv4(cfg.dhcp.range_end@) matches Some(end) && start <= end
            && spec_ipv4_in_cidr(start, net, prefix) && spec_ipv4_in_cidr(end, net, prefix),
{
}

/// The directly routed WAN prefix is the WAN network in CIDR form: it
/// parses back to the network address and prefix length of the WAN
/// address, and that address is its own network.
pub proof fn lemma_wan_direct_cidr_parses_back(cfg: AppConfig)
    ensures
        match opt_view(cfg.wan.address) {
            Some(a) => match spec_parse_ipv4_cidr(a) {
                Ok((ip, p)) => spec_wan_direct_cidr(cfg) matches Some(t) && spec_parse_ipv4_cidr(t)
                    == Ok::<(u32, u8), Seq<char>>((spec_ipv4_network(ip, p), p))
                    && spec_ipv4_network(spec_ipv4_network(ip, p), p) == spec_ipv4_network(ip, p),
                Err(_) => spec_wan_direct_cidr(cfg) is None,
            },
            None => spec_wan_direct_cidr(cfg) is None,
        },
{
    match cfg.wan.address {
        Some(a) => {
            crate::net::lemma_parse_cidr_prefix(a@);
            match spec_parse_ipv4_cidr(a@) {
                Ok((ip, p)) => {
                    crate::net::lemma_cidr_text_parses_back(spec_ipv4_network(ip, p), p);
                    crate::net::lemma_network_idempotent(ip, p);
                },
                Err(_) => {},
            }
        },
        None => {},
    }
}

/// The WAN prefix that is always routed directly (work PCs reach the upstream
/// LAN via masquerade).
pub fn wan_direct_cidr(config: &AppConfig) -> (r: Option<String>)
    ensures
        opt_view(r) == spec_wan_direct_cidr(*config),
{
    match wan_direct_cidr_chars(config) {
        Some(v) => Some(from_chars(v.as_slice())),
        None => None,
    }
}

/// `wan_direct_cidr` as characters.
pub fn wan_direct_cidr_chars(config: &AppConfig) -> (r: Option<Vec<char>>)
    ensures
        match r {
            Some(v) => spec_wan_direct_cidr(*config) == Some(v@),
            None => spec_wan_direct_cidr(*config) is None,
        },
{
    match &config.wan.address {
        None => None,
        Some(addr) => match parse_ipv4_cidr(addr.as_str()) {
            Err(_) => None,
            Ok((ip, prefix)) => {
                proof {
                    crate::net::lemma_parse_cidr_prefix(addr@);
                }
                let mut out = ipv4_to_chars(ipv4_network(ip, prefix));
                out.push('/');
                push_decimal(&mut out, prefix as u64);
                Some(out)
            },
        },
    }
}

} // verus!

//! The sing-box configuration: transparent proxy inbound, DNS, and the
//! overseas transport (the WireGuard interface, or a VLESS proxy link).

use vstd::prelude::*;

use crate::config::{spec_wan_direct_cidr, wan_direct_cidr_chars};
use crate::error::CoreError;
use crate::model::{AppConfig, Secrets, DNS_PROXY_PORT, TPROXY_PORT};
use crate::proxy::{parse_proxy_uri, spec_parse_proxy_uri, ProxyEndpoint, ProxyEndpointView};
use crate::text::{
    chars_eq, decimal, from_chars, push_all, push_decimal, push_str, to_chars, trim, trim_chars,
};

verus! {

/// The sing-box configuration around its variable parts.
pub open spec fn singbox_text(
    dns_json: Seq<char>,
    port: u64,
    dns_port: u64,
    direct_bind: Seq<char>,
    overseas_outbound: Seq<char>,
    cidr_rule: Seq<char>,
    china: Seq<char>,
    overseas_tag: Seq<char>,
    auto_detect: Seq<char>,
    rule_set: Seq<char>,
) -> Seq<char> {
    Seq::<char>::empty()
        + "{\n  \"log\": { \"level\": \"info\" },\n  \"experimental\": {\n    \"cache_file\": {\n      \"enabled\": true,\n      \"path\": \"sing-box-cache.db\"\n    }\n  },\n  \"dns\": {\n    \"servers\": "@
        + dns_json
        + ",\n    \"rules\": [\n      { \"inbound\": [\"dns-in\"], \"action\": \"route\", \"server\": \"proxy-dns\" }\n    ],\n    \"final\": \"proxy-dns\",\n    \"strategy\": \"ipv4_only\"\n  },\n  \"inbounds\": [\n    {\n      \"type\": \"tproxy\",\n      \"tag\": \"tproxy-in\",\n      \"listen\": \"127.0.0.1\",\n      \"listen_port\": "@
        + decimal(port as nat)
        + "\n    },\n    {\n      \"type\": \"direct\",\n      \"tag\": \"dns-in\",\n      \"listen\": \"127.0.0.1\",\n      \"listen_port\": "@
        + decimal(dns_port as nat)
        + "\n    }\n  ],\n  \"outbounds\": [\n    {\n      \"type\": \"direct\",\n      \"tag\": \"direct\""@
        + direct_bind
        + "\n    },\n    "@
        + overseas_outbound
        + "\n  ],\n    \"route\": {\n    \"rules\": [\n      { \"inbound\": [\"dns-in\"], \"action\": \"hijack-dns\" },\n      { \"inbound\": [\"tproxy-in\"], \"action\": \"sniff\" },\n      { \"ip_is_private\": true, \"outbound\": \"direct\" }"@
        + cidr_rule
        + china
        + "\n    ],\n    \"final\": \""@
        + overseas_tag
        + "\",\n    \"default_domain_resolver\": \"direct-dns-0\",\n    \"auto_detect_interface\": "@
        + auto_detect
        + ",\n    \"rule_set\": "@
        + rule_set
        + "\n  }\n}\n"@
}

fn singbox_text_chars(
    dns_json: &[char],
    port: u64,
    dns_port: u64,
    direct_bind: &[char],
    overseas_outbound: &[char],
    cidr_rule: &[char],
    china: &[char],
    overseas_tag: &[char],
    auto_detect: &[char],
    rule_set: &[char],
) -> (r: Vec<char>)
    ensures
        r@ == singbox_text(dns_json@, port, dns_port, direct_bind@, overseas_outbound@, cidr_rule@, china@, overseas_tag@, auto_detect@, rule_set@),
{
    let mut out: Vec<char> = Vec::new();
    push_str(&mut out, "{\n  \"log\": { \"level\": \"info\" },\n  \"experimental\": {\n    \"cache_file\": {\n      \"enabled\": true,\n      \"path\": \"sing-box-cache.db\"\n    }\n  },\n  \"dns\": {\n    \"servers\": ");
    push_all(&mut out, dns_json);
    push_str(&mut out, ",\n    \"rules\": [\n      { \"inbound\": [\"dns-in\"], \"action\": \"route\", \"server\": \"proxy-dns\" }\n    ],\n    \"final\": \"proxy-dns\",\n    \"strategy\": \"ipv4_only\"\n  },\n  \"inbounds\": [\n    {\n      \"type\": \"tproxy\",\n      \"tag\": \"tproxy-in\",\n      \"listen\": \"127.0.0.1\",\n      \"listen_port\": ");
    push_decimal(&mut out, port);
    push_str(&mut out, "\n    },\n    {\n      \"type\": \"direct\",\n      \"tag\": \"dns-in\",\n      \"listen\": \"127.0.0.1\",\n      \"listen_port\": ");
    push_decimal(&mut out, dns_port);
    push_str(&mut out, "\n    }\n  ],\n  \"outbounds\": [\n    {\n      \"type\": \"direct\",\n      \"tag\": \"direct\"");
    push_all(&mut out, direct_bind);
    push_str(&mut out, "\n    },\n    ");
    push_all(&mut out, overseas_outbound);
    push_str(&mut out, "\n  ],\n    \"route\": {\n    \"rules\": [\n      { \"inbound\": [\"dns-in\"], \"action\": \"hijack-dns\" },\n      { \"inbound\": [\"tproxy-in\"], \"action\": \"sniff\" },\n      { \"ip_is_private\": true, \"outbound\": \"direct\" }");
    push_all(&mut out, cidr_rule);
    push_all(&mut out, china);
    push_str(&mut out, "\n    ],\n    \"final\": \"");
    push_all(&mut out, overseas_tag);
    push_str(&mut out, "\",\n    \"default_domain_resolver\": \"direct-dns-0\",\n    \"auto_detect_interface\": ");
    push_all(&mut out, auto_detect);
    push_str(&mut out, ",\n    \"rule_set\": ");
    push_all(&mut out, rule_set);
    push_str(&mut out, "\n  }\n}\n");
    out
}

/// The route rule that sends mainland-China destinations direct.
pub const CHINA_RULE: &'static str = ",\n      {\n        \"rule_set\": [\"geoip-cn\", \"geosite-cn\"],\n        \"outbound\": \"direct\"\n      }";

/// The remote rule sets behind `CHINA_RULE`.
pub const CHINA_RULE_SETS: &'static str = "[\n      {\n        \"tag\": \"geoip-cn\",\n        \"type\": \"remote\",\n        \"format\": \"binary\",\n        \"url\": \"https://cdn.jsdelivr.net/gh/SagerNet/sing-geoip@rule-set/geoip-cn.srs\",\n        \"download_detour\": \"direct\"\n      },\n      {\n        \"tag\": \"geosite-cn\",\n        \"type\": \"remote\",\n        \"format\": \"binary\",\n        \"url\": \"https://cdn.jsdelivr.net/gh/SagerNet/sing-geosite@rule-set/geosite-cn.srs\",\n        \"download_detour\": \"direct\"\n      }\n    ]";

/// The route rule that sends the listed prefixes direct.
pub open spec fn singbox_cidr_rule(joined: Seq<char>) -> Seq<char> {
    Seq::<char>::empty()
        + ",\n      { \"ip_cidr\": ["@
        + joined
        + "], \"outbound\": \"direct\" }"@
}

fn singbox_cidr_rule_chars(joined: &[char]) -> (r: Vec<char>)
    ensures
        r@ == singbox_cidr_rule(joined@),
{
    let mut out: Vec<char> = Vec::new();
    push_str(&mut out, ",\n      { \"ip_cidr\": [");
    push_all(&mut out, joined);
    push_str(&mut out, "], \"outbound\": \"direct\" }");
    out
}

/// Binds the direct outbound to the WAN interface.
pub open spec fn singbox_direct_bind(wan: Seq<char>) -> Seq<char> {
    Seq::<char>::empty()
        + ",\n      \"bind_interface\": \""@
        + wan
        + "\""@
}

fn singbox_direct_bind_chars(wan: &[char]) -> (r: Vec<char>)
    ensures
        r@ == singbox_direct_bind(wan@),
{
    let mut out: Vec<char> = Vec::new();
    push_str(&mut out, ",\n      \"bind_interface\": \"");
    push_all(&mut out, wan);
    push_str(&mut out, "\"");
    out
}

/// The outbound that leaves through the tunnel interface (`iface` comes quoted).
pub open spec fn wg_outbound(iface: Seq<char>) -> Seq<char> {
    Seq::<char>::empty()
        + "{\"type\":\"direct\",\"tag\":\"wg-out\",\"bind_interface\": "@
        + iface
        + "}"@
}

fn wg_outbound_chars(iface: &[char]) -> (r: Vec<char>)
    ensures
        r@ == wg_outbound(iface@),
{
    let mut out: Vec<char> = Vec::new();
    push_str(&mut out, "{\"type\":\"direct\",\"tag\":\"wg-out\",\"bind_interface\": ");
    push_all(&mut out, iface);
    push_str(&mut out, "}");
    out
}

/// The direct outbound bound to the tunnel interface, given the interface
/// name as `Debug` quotes it.
pub fn wg_outbound_json(quoted_iface: &str) -> (r: String)
    ensures
        r@ == wg_outbound(quoted_iface@),
{
    from_chars(wg_outbound_chars(to_chars(quoted_iface).as_slice()).as_slice())
}

/// The two DNS servers, in the compact JSON of their serialisation (keys sorted; `server` and `tag` come quoted).
pub open spec fn dns_servers_json(server: Seq<char>, tag: Seq<char>) -> Seq<char> {
    Seq::<char>::empty()
        + "[{\"detour\":\"direct\",\"server\":"@
        + server
        + ",\"server_port\":53,\"tag\":\"direct-dns-0\",\"type\":\"udp\"},{\"detour\":"@
        + tag
        + ",\"server\":"@
        + server
        + ",\"server_port\":53,\"tag\":\"proxy-dns\",\"type\":\"udp\"}]"@
}

fn dns_servers_json_chars(server: &[char], tag: &[char]) -> (r: Vec<char>)
    ensures
        r@ == dns_servers_json(server@, tag@),
{
    let mut out: Vec<char> = Vec::new();
    push_str(&mut out, "[{\"detour\":\"direct\",\"server\":");
    push_all(&mut out, server);
    push_str(&mut out, ",\"server_port\":53,\"tag\":\"direct-dns-0\",\"type\":\"udp\"},{\"detour\":");
    push_all(&mut out, tag);
    push_str(&mut out, ",\"server\":");
    push_all(&mut out, server);
    push_str(&mut out, ",\"server_port\":53,\"tag\":\"proxy-dns\",\"type\":\"udp\"}]");
    out
}

/// The VLESS outbound, in the compact JSON of its serialisation (keys sorted; the string values come quoted).
pub open spec fn vless_outbound_json(
    flow_part: Seq<char>,
    server: Seq<char>,
    port: u64,
    reality_part: Seq<char>,
    server_name: Seq<char>,
    fingerprint: Seq<char>,
    uuid: Seq<char>,
) -> Seq<char> {
    Seq::<char>::empty()
        + "{\"domain_resolver\":\"direct-dns-0\","@
        + flow_part
        + "\"server\":"@
        + server
        + ",\"server_port\":"@
        + decimal(port as nat)
        + ",\"tag\":\"proxy-out\",\"tls\":{\"enabled\":true,"@
        + reality_part
        + "\"server_name\":"@
        + server_name
        + ",\"utls\":{\"enabled\":true,\"fingerprint\":"@
        + fingerprint
        + "}},\"type\":\"vless\",\"uuid\":"@
        + uuid
        + "}"@
}

fn vless_outbound_json_chars(
    flow_part: &[char],
    server: &[char],
    port: u64,
    reality_part: &[char],
    server_name: &[char],
    fingerprint: &[char],
    uuid: &[char],
) -> (r: Vec<char>)
    ensures
        r@ == vless_outbound_json(flow_part@, server@, port, reality_part@, server_name@, fingerprint@, uuid@),
{
    let mut out: Vec<char> = Vec::new();
    push_str(&mut out, "{\"domain_resolver\":\"direct-dns-0\",");
    push_all(&mut out, flow_part);
    push_str(&mut out, "\"server\":");
    push_all(&mut out, server);
    push_str(&mut out, ",\"server_port\":");
    push_decimal(&mut out, port);
    push_str(&mut out, ",\"tag\":\"proxy-out\",\"tls\":{\"enabled\":true,");
    push_all(&mut out, reality_part);
    push_str(&mut out, "\"server_name\":");
    push_all(&mut out, server_name);
    push_str(&mut out, ",\"utls\":{\"enabled\":true,\"fingerprint\":");
    push_all(&mut out, fingerprint);
    push_str(&mut out, "}},\"type\":\"vless\",\"uuid\":");
    push_all(&mut out, uuid);
    push_str(&mut out, "}");
    out
}

/// The `flow` member (the value comes quoted).
pub open spec fn flow_member(flow: Seq<char>) -> Seq<char> {
    Seq::<char>::empty()
        + "\"flow\":"@
        + flow
        + ","@
}

fn flow_member_chars(flow: &[char]) -> (r: Vec<char>)
    ensures
        r@ == flow_member(flow@),
{
    let mut out: Vec<char> = Vec::new();
    push_str(&mut out, "\"flow\":");
    push_all(&mut out, flow);
    push_str(&mut out, ",");
    out
}

/// The `reality` member (the values come quoted).
pub open spec fn reality_member(public_key: Seq<char>, short_id: Seq<char>) -> Seq<char> {
    Seq::<char>::empty()
        + "\"reality\":{\"enabled\":true,\"public_key\":"@
        + public_key
        + ",\"short_id\":"@
        + short_id
        + "},"@
}

fn reality_member_chars(public_key: &[char], short_id: &[char]) -> (r: Vec<char>)
    ensures
        r@ == reality_member(public_key@, short_id@),
{
    let mut out: Vec<char> = Vec::new();
    push_str(&mut out, "\"reality\":{\"enabled\":true,\"public_key\":");
    push_all(&mut out, public_key);
    push_str(&mut out, ",\"short_id\":");
    push_all(&mut out, short_id);
    push_str(&mut out, "},");
    out
}

// ---------------------------------------------------------------------------
// JSON strings
// ---------------------------------------------------------------------------

/// A lower-case hex digit.
pub open spec fn hex_lower(d: nat) -> char {
    if d < 10 {
        ((d + 48) as u32) as char
    } else {
        ((d + 87) as u32) as char
    }
}

/// How one character is written inside a JSON string.
pub open spec fn json_escape_char(c: char) -> Seq<char> {
    if c == '"' {
        seq!['\\', '"']
    } else if c == '\\' {
        seq!['\\', '\\']
    } else if c == '\u{8}' {
        seq!['\\', 'b']
    } else if c == '\t' {
        seq!['\\', 't']
    } else if c == '\n' {
        seq!['\\', 'n']
    } else if c == '\u{c}' {
        seq!['\\', 'f']
    } else if c == '\r' {
        seq!['\\', 'r']
    } else if (c as u32) < 0x20 {
        seq!['\\', 'u', '0', '0', hex_lower((c as u32 / 16) as nat), hex_lower((c as u32 % 16) as nat)]
    } else {
        seq![c]
    }
}

/// The characters of a text, escaped for a JSON string.
pub open spec fn json_escape(s: Seq<char>) -> Seq<char>
    decreases s.len(),
{
    if s.len() == 0 {
        Seq::empty()
    } else {
        json_escape(s.drop_last()) + json_escape_char(s.last())
    }
}

/// A text as a JSON string literal.
pub open spec fn json_quoted(s: Seq<char>) -> Seq<char> {
    seq!['"'] + json_escape(s) + seq!['"']
}

/// `serde_json::to_string` of a string slice: the text in double quotes with
/// `"` and `\` escaped by a backslash, U+0008, tab, newline, U+000C and
/// carriage return by their short forms, the other characters below U+0020
/// as `\u00xx` in lower-case hex, and every other character as it is.
/// Serialising a `str` into memory cannot fail; the empty default of the
/// error arm is never produced.
#[verifier::external_body]
fn json_string(s: &str) -> (r: String)
    ensures
        r@ == json_quoted(s@),
{
    serde_json::to_string(s).unwrap_or_default()
}

fn json_chars(s: &[char]) -> (r: Vec<char>)
    ensures
        r@ == json_quoted(s@),
{
    let t = from_chars(s);
    let q = json_string(t.as_str());
    to_chars(q.as_str())
}

/// What `format!("{:?}", s)` writes for a string: its `Debug` rendering.
pub uninterp spec fn debug_quoted(s: Seq<char>) -> Seq<char>;

/// `Debug` of a string slice, through `format!`. The result is named and
/// nothing else is claimed of it.
#[verifier::external_body]
fn debug_string(s: &str) -> (r: String)
    ensures
        r@ == debug_quoted(s@),
{
    format!("{:?}", s)
}

// ---------------------------------------------------------------------------
// Variable parts
// ---------------------------------------------------------------------------

/// The trimmed, non-blank entries of a list, in order.
pub open spec fn trimmed_nonblank(v: Seq<String>) -> Seq<Seq<char>>
    decreases v.len(),
{
    if v.len() == 0 {
        seq![]
    } else if trim(v.last()@).len() == 0 {
        trimmed_nonblank(v.drop_last())
    } else {
        trimmed_nonblank(v.drop_last()).push(trim(v.last()@))
    }
}

/// The prefixes routed direct: the extra direct prefixes, with the WAN
/// prefix put first when it is not among them.
pub open spec fn direct_cidrs(cfg: AppConfig) -> Seq<Seq<char>> {
    let cidrs = trimmed_nonblank(cfg.routing.extra_direct_cidrs@);
    match spec_wan_direct_cidr(cfg) {
        Some(w) => if cidrs.contains(w) {
            cidrs
        } else {
            seq![w] + cidrs
        },
        None => cidrs,
    }
}

/// Each prefix in double quotes, joined by `, `.
pub open spec fn quoted_join(cs: Seq<Seq<char>>) -> Seq<char>
    decreases cs.len(),
{
    if cs.len() == 0 {
        Seq::empty()
    } else if cs.len() == 1 {
        seq!['"'] + cs[0] + seq!['"']
    } else {
        quoted_join(cs.drop_last()) + ", "@ + seq!['"'] + cs.last() + seq!['"']
    }
}

/// The first non-blank DNS server (trimmed) of the LAN list, or of the WAN
/// list when the LAN list is empty; empty when there is none.
pub open spec fn first_nonblank(v: Seq<String>) -> Seq<char>
    decreases v.len(),
{
    if v.len() == 0 {
        Seq::empty()
    } else if trim(v[0]@).len() > 0 {
        trim(v[0]@)
    } else {
        first_nonblank(v.drop_first())
    }
}

pub open spec fn dns_server(cfg: AppConfig) -> Seq<char> {
    if cfg.lan.dns@.len() == 0 {
        first_nonblank(cfg.wan.dns@)
    } else {
        first_nonblank(cfg.lan.dns@)
    }
}

/// The outbound JSON of a VLESS endpoint.
pub open spec fn spec_vless_outbound(p: ProxyEndpointView) -> Seq<char> {
    let flow_part = match p.flow {
        Some(f) => flow_member(json_quoted(f)),
        None => Seq::empty(),
    };
    let reality_part = match (p.public_key, p.short_id) {
        (Some(k), Some(s)) => reality_member(json_quoted(k), json_quoted(s)),
        _ => Seq::empty(),
    };
    vless_outbound_json(
        flow_part,
        json_quoted(p.server),
        p.port as u64,
        reality_part,
        json_quoted(p.server_name),
        json_quoted(p.fingerprint),
        json_quoted(p.uuid),
    )
}

/// The sing-box configuration for the configuration and, when the overseas
/// transport is a proxy link, its endpoint.
pub open spec fn spec_render_singbox_transport(
    cfg: AppConfig,
    proxy: Option<ProxyEndpointView>,
) -> Seq<char> {
    let wan = cfg.wan.interface@;
    let cidrs = direct_cidrs(cfg);
    let cidr_rule = if cidrs.len() == 0 {
        Seq::empty()
    } else {
        singbox_cidr_rule(quoted_join(cidrs))
    };
    let direct_bind = if wan.len() == 0 {
        Seq::empty()
    } else {
        singbox_direct_bind(wan)
    };
    let china = if cfg.routing.china_direct {
        CHINA_RULE@
    } else {
        Seq::empty()
    };
    let rule_set = if cfg.routing.china_direct {
        CHINA_RULE_SETS@
    } else {
        "[]"@
    };
    let tag = if proxy is Some {
        "proxy-out"@
    } else {
        "wg-out"@
    };
    let outbound = match proxy {
        Some(p) => spec_vless_outbound(p),
        None => wg_outbound(debug_quoted(cfg.wireguard.interface@)),
    };
    let server = dns_server(cfg);
    let auto_detect = if wan.len() == 0 {
        "true"@
    } else {
        "false"@
    };
    singbox_text(
        dns_servers_json(json_quoted(server), json_quoted(tag)),
        TPROXY_PORT as u64,
        DNS_PROXY_PORT as u64,
        direct_bind,
        outbound,
        cidr_rule,
        china,
        tag,
        auto_detect,
        rule_set,
    )
}

fn trimmed_nonblank_vec(v: &Vec<String>) -> (r: Vec<Vec<char>>)
    ensures
        r@.map_values(|c: Vec<char>| c@) == trimmed_nonblank(v@),
{
    let mut out: Vec<Vec<char>> = Vec::new();
    let n = v.len();
    assert(v@.take(0) =~= Seq::<String>::empty());
    assert(out@.map_values(|c: Vec<char>| c@) =~= trimmed_nonblank(v@.take(0)));
    for i in 0..n
        invariant
            n == v@.len(),
            out@.map_values(|c: Vec<char>| c@) == trimmed_nonblank(v@.take(i as int)),
    {
        assert(v@.take((i + 1) as int).drop_last() =~= v@.take(i as int));
        let t = trim_chars(to_chars(v[i].as_str()).as_slice());
        if t.len() > 0 {
            let ghost before = out@;
            out.push(t);
            assert(out@.map_values(|c: Vec<char>| c@) =~= before.map_values(|c: Vec<char>| c@).push(
                t@,
            ));
        }
    }
    assert(v@.take(n as int) =~= v@);
    out
}

fn direct_cidrs_vec(config: &AppConfig) -> (r: Vec<Vec<char>>)
    ensures
        r@.map_values(|c: Vec<char>| c@) == direct_cidrs(*config),
{
    let cidrs = trimmed_nonblank_vec(&config.routing.extra_direct_cidrs);
    let ghost cv = cidrs@.map_values(|c: Vec<char>| c@);
    match wan_direct_cidr_chars(config) {
        Some(w) => {
            let n = cidrs.len();
            let mut found = false;
            for i in 0..n
                invariant
                    n == cidrs@.len(),
                    cv == cidrs@.map_values(|c: Vec<char>| c@),
                    found <==> exists|j: int| 0 <= j < i && cv[j] == w@,
            {
                assert(cv[i as int] == cidrs@[i as int]@);
                if chars_eq(cidrs[i].as_slice(), w.as_slice()) {
                    found = true;
                }
            }
            if found {
                cidrs
            } else {
                assert(!cv.contains(w@));
                let mut out: Vec<Vec<char>> = Vec::new();
                out.push(w);
                let ghost first = out@;
                for i in 0..n
                    invariant
                        n == cidrs@.len(),
                        cv == cidrs@.map_values(|c: Vec<char>| c@),
                        out@.len() == i + 1,
                        out@.map_values(|c: Vec<char>| c@) =~= seq![first[0]@] + cv.take(i as int),
                {
                    let ghost before = out@;
                    let mut c: Vec<char> = Vec::new();
                    push_all(&mut c, cidrs[i].as_slice());
                    out.push(c);
                    assert(out@.map_values(|c: Vec<char>| c@) =~= before.map_values(|c: Vec<char>| c@).push(
                        cv[i as int],
                    ));
                    assert(cv.take((i + 1) as int) =~= cv.take(i as int).push(cv[i as int]));
                }
                assert(cv.take(n as int) =~= cv);
                out
            }
        },
        None => cidrs,
    }
}

fn quoted_join_chars(cs: &Vec<Vec<char>>) -> (r: Vec<char>)
    ensures
        r@ == quoted_join(cs@.map_values(|c: Vec<char>| c@)),
{
    let ghost cv = cs@.map_values(|c: Vec<char>| c@);
    let mut out: Vec<char> = Vec::new();
    let n = cs.len();
    assert(cv.take(0) =~= Seq::<Seq<char>>::empty());
    for i in 0..n
        invariant
            n == cs@.len(),
            cv == cs@.map_values(|c: Vec<char>| c@),
            out@ == quoted_join(cv.take(i as int)),
    {
        let ghost t = cv.take((i + 1) as int);
        assert(t.drop_last() =~= cv.take(i as int));
        if i > 0 {
            push_str(&mut out, ", ");
        }
        out.push('"');
        push_all(&mut out, cs[i].as_slice());
        out.push('"');
        if i == 0 {
            assert(out@ =~= quoted_join(t));
        } else {
            assert(out@ =~= quoted_join(t));
        }
    }
    assert(cv.take(n as int) =~= cv);
    out
}

fn first_nonblank_chars(v: &Vec<String>) -> (r: Vec<char>)
    ensures
        r@ == first_nonblank(v@),
{
    let n = v.len();
    let mut i: usize = 0;
    assert(v@.skip(0) =~= v@);
    while i < n
        invariant
            i <= n == v@.len(),
            first_nonblank(v@) == first_nonblank(v@.skip(i as int)),
        decreases n - i,
    {
        assert(v@.skip(i as int)[0] == v@[i as int]);
        assert(v@.skip(i as int).drop_first() =~= v@.skip(i + 1));
        let t = trim_chars(to_chars(v[i].as_str()).as_slice());
        if t.len() > 0 {
            return t;
        }
        i = i + 1;
    }
    Vec::new()
}

fn vless_outbound_chars(p: &ProxyEndpoint) -> (r: Vec<char>)
    ensures
        r@ == spec_vless_outbound(p@),
{
    let flow_part = match &p.flow {
        Some(f) => flow_member_chars(json_chars(to_chars(f.as_str()).as_slice()).as_slice()),
        None => Vec::new(),
    };
    let reality_part = match (&p.public_key, &p.short_id) {
        (Some(k), Some(s)) => reality_member_chars(
            json_chars(to_chars(k.as_str()).as_slice()).as_slice(),
            json_chars(to_chars(s.as_str()).as_slice()).as_slice(),
        ),
        _ => Vec::new(),
    };
    vless_outbound_json_chars(
        flow_part.as_slice(),
        json_chars(to_chars(p.server.as_str()).as_slice()).as_slice(),
        p.port as u64,
        reality_part.as_slice(),
        json_chars(to_chars(p.server_name.as_str()).as_slice()).as_slice(),
        json_chars(to_chars(p.fingerprint.as_str()).as_slice()).as_slice(),
        json_chars(to_chars(p.uuid.as_str()).as_slice()).as_slice(),
    )
}

/// The view of an optional endpoint reference.
pub open spec fn proxy_view(p: Option<&ProxyEndpoint>) -> Option<ProxyEndpointView> {
    match p {
        Some(e) => Some(e@),
        None => None,
    }
}

/// Renders the sing-box configuration with the given overseas transport.
pub fn render_singbox_transport(config: &AppConfig, proxy: Option<&ProxyEndpoint>) -> (r: String)
    ensures
        r@ == spec_render_singbox_transport(*config, proxy_view(proxy)),
{
    let wan = to_chars(config.wan.interface.as_str());
    let cidrs = direct_cidrs_vec(config);
    let cidr_rule = if cidrs.len() == 0 {
        Vec::new()
    } else {
        singbox_cidr_rule_chars(quoted_join_chars(&cidrs).as_slice())
    };
    let direct_bind = if wan.len() == 0 {
        Vec::new()
    } else {
        singbox_direct_bind_chars(wan.as_slice())
    };
    let china = if config.routing.china_direct {
        to_chars(CHINA_RULE)
    } else {
        Vec::new()
    };
    let rule_set = if config.routing.china_direct {
        to_chars(CHINA_RULE_SETS)
    } else {
        to_chars("[]")
    };
    let (tag, outbound) = match proxy {
        Some(p) => (to_chars("proxy-out"), vless_outbound_chars(p)),
        None => {
            let d = debug_string(config.wireguard.interface.as_str());
            (to_chars("wg-out"), wg_outbound_chars(to_chars(d.as_str()).as_slice()))
        },
    };
    let lan_dns = config.lan.dns.len() == 0;
    let server = if lan_dns {
        first_nonblank_chars(&config.wan.dns)
    } else {
        first_nonblank_chars(&config.lan.dns)
    };
    let auto_detect = if wan.len() == 0 {
        to_chars("true")
    } else {
        to_chars("false")
    };
    let dns_json = dns_servers_json_chars(
        json_chars(server.as_slice()).as_slice(),
        json_chars(tag.as_slice()).as_slice(),
    );
    let text = singbox_text_chars(
        dns_json.as_slice(),
        TPROXY_PORT as u64,
        DNS_PROXY_PORT as u64,
        direct_bind.as_slice(),
        outbound.as_slice(),
        cidr_rule.as_slice(),
        china.as_slice(),
        tag.as_slice(),
        auto_detect.as_slice(),
        rule_set.as_slice(),
    );
    from_chars(text.as_slice())
}

/// The sing-box configuration with the WireGuard interface as the overseas
/// transport.
pub fn render_singbox(config: &AppConfig) -> (r: String)
    ensures
        r@ == spec_render_singbox_transport(*config, None),
{
    render_singbox_transport(config, None)
}

/// What `render_singbox_with_secrets` gives: the proxy link is used when it
/// is set and not blank, and an unparsable link is refused with its message.
pub open spec fn spec_render_singbox_with_secrets(cfg: AppConfig, secrets: Secrets) -> Result<
    Seq<char>,
    Seq<char>,
> {
    match secrets.proxy_uri {
        Some(u) => if trim(u@).len() > 0 {
            match spec_parse_proxy_uri(u@) {
                Ok(p) => Ok(spec_render_singbox_transport(cfg, Some(p))),
                Err(m) => Err(m),
            }
        } else {
            Ok(spec_render_singbox_transport(cfg, None))
        },
        None => Ok(spec_render_singbox_transport(cfg, None)),
    }
}

/// Renders the sing-box configuration with the transport the secrets select.
pub fn render_singbox_with_secrets(config: &AppConfig, secrets: &Secrets) -> (r: Result<
    String,
    CoreError,
>)
    ensures
        match r {
            Ok(t) => spec_render_singbox_with_secrets(*config, *secrets) == Ok::<
                Seq<char>,
                Seq<char>,
            >(t@),
            Err(e) => e matches CoreError::ConfigParse(m) && spec_render_singbox_with_secrets(
                *config,
                *secrets,
            ) == Err::<Seq<char>, Seq<char>>(m@),
        },
{
    match &secrets.proxy_uri {
        Some(u) => {
            let t = trim_chars(to_chars(u.as_str()).as_slice());
            if t.len() > 0 {
                match parse_proxy_uri(u.as_str()) {
                    Ok(p) => Ok(render_singbox_transport(config, Some(&p))),
                    Err(e) => Err(e),
                }
            } else {
                Ok(render_singbox_transport(config, None))
            }
        },
        None => Ok(render_singbox_transport(config, None)),
    }
}


} // verus!

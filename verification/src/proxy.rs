//! The VLESS proxy link (`vless://uuid@host:port?params#name`) that the
//! overseas transport may use instead of WireGuard.

use vstd::prelude::*;
use vstd::utf8::{decode_utf8, encode_utf8, valid_utf8};

use crate::error::CoreError;
use crate::text::{
    before_either, before_either_chars,
    eq_str, find, find_char, first_occurrence, index_of, lower, lower_chars, parse_unsigned,
    parse_unsigned_chars, push_all, rsplit_once, rsplit_once_chars, slice_of, split_char,
    split_chars, split_once, split_once_chars, to_chars, from_chars,
};

verus! {

// ---------------------------------------------------------------------------
// Percent-decoding
// ---------------------------------------------------------------------------

/// The value of an ASCII hex digit byte.
pub open spec fn hex_of(b: u8) -> Option<u8> {
    if 48 <= b <= 57 {
        Some((b - 48) as u8)
    } else if 97 <= b <= 102 {
        Some((b - 87) as u8)
    } else if 65 <= b <= 70 {
        Some((b - 55) as u8)
    } else {
        None
    }
}

pub fn hex_value(value: u8) -> (r: Option<u8>)
    ensures
        r == hex_of(value),
{
    if 48 <= value && value <= 57 {
        Some(value - 48)
    } else if 97 <= value && value <= 102 {
        Some(value - 87)
    } else if 65 <= value && value <= 70 {
        Some(value - 55)
    } else {
        None
    }
}

/// The bytes with every `%XX` (two hex digits) replaced by the byte it
/// names; any other byte, a lone `%` included, is kept.
pub open spec fn pct_bytes(b: Seq<u8>) -> Seq<u8>
    decreases b.len(),
{
    if b.len() == 0 {
        seq![]
    } else if b.len() >= 3 && b[0] == 37 && hex_of(b[1]) is Some && hex_of(b[2]) is Some {
        seq![(hex_of(b[1]).unwrap() * 16 + hex_of(b[2]).unwrap()) as u8] + pct_bytes(b.skip(3))
    } else {
        seq![b[0]] + pct_bytes(b.skip(1))
    }
}

/// What `String::from_utf8_lossy` makes of the bytes.
pub uninterp spec fn utf8_lossy(bytes: Seq<u8>) -> Seq<char>;

/// `String::from_utf8_lossy`, owned. Its result is named; where the bytes are
/// well-formed UTF-8 it is the text they encode, as the documentation says.
#[verifier::external_body]
fn lossy_string(bytes: &[u8]) -> (r: String)
    ensures
        r@ == utf8_lossy(bytes@),
        valid_utf8(bytes@) ==> r@ == decode_utf8(bytes@),
{
    String::from_utf8_lossy(bytes).into_owned()
}

/// The percent-decoded text of `s`.
pub open spec fn pct_decoded(s: Seq<char>) -> Seq<char> {
    utf8_lossy(pct_bytes(encode_utf8(s)))
}

/// Decodes `%XX` escapes; what is not UTF-8 afterwards becomes U+FFFD.
pub fn percent_decode(raw: &str) -> (r: String)
    ensures
        r@ == pct_decoded(raw@),
{
    let bytes = raw.as_bytes();
    let ghost b = bytes@;
    let n = bytes.len();
    let mut output: Vec<u8> = Vec::new();
    let mut index: usize = 0;
    assert(b.skip(0) =~= b);
    while index < n
        invariant
            n == b.len(),
            b == bytes@,
            index <= n,
            output@ + pct_bytes(b.skip(index as int)) == pct_bytes(b),
        decreases n - index,
    {
        let ghost rest = b.skip(index as int);
        if bytes[index] == 37u8 && n - index > 2 {
            let high = hex_value(bytes[index + 1]);
            let low = hex_value(bytes[index + 2]);
            if high.is_some() && low.is_some() {
                let h = high.unwrap();
                let l = low.unwrap();
                assert(rest.skip(3) =~= b.skip(index + 3));
                output.push(h * 16 + l);
                assert(output@ + pct_bytes(b.skip(index + 3)) =~= pct_bytes(b)) by {
                    assert(rest[0] == 37u8 && rest[1] == bytes@[index + 1] && rest[2] == bytes@[
                        index + 2
                    ]);
                }
                index = index + 3;
                continue;
            }
        }
        assert(rest.skip(1) =~= b.skip(index + 1));
        output.push(bytes[index]);
        assert(output@ + pct_bytes(b.skip(index + 1)) =~= pct_bytes(b));
        index = index + 1;
    }
    assert(output@ =~= pct_bytes(b));
    lossy_string(output.as_slice())
}

fn percent_decode_chars(raw: &[char]) -> (r: Vec<char>)
    ensures
        r@ == pct_decoded(raw@),
{
    let s = from_chars(raw);
    let d = percent_decode(s.as_str());
    to_chars(d.as_str())
}

// ---------------------------------------------------------------------------
// Host and port
// ---------------------------------------------------------------------------

pub open spec fn msg_invalid_port() -> Seq<char> {
    "proxy_uri has invalid port"@
}

pub open spec fn msg_no_server() -> Seq<char> {
    "proxy_uri has no server"@
}

/// `host:port`, `[v6]:port`, or a host alone (port 443).
pub open spec fn spec_parse_host_port(raw: Seq<char>) -> Result<(Seq<char>, u16), Seq<char>> {
    if raw.len() > 0 && raw[0] == '[' {
        match split_once(raw.drop_first(), ']') {
            None => Err("proxy_uri has invalid IPv6 server"@),
            Some((host, after)) => {
                let port: Result<u16, Seq<char>> = if after.len() > 1 && after[0] == ':' {
                    match parse_unsigned(after.drop_first(), 65535) {
                        Some(p) => Ok(p as u16),
                        None => Err(msg_invalid_port()),
                    }
                } else {
                    Ok(443u16)
                };
                match port {
                    Err(e) => Err(e),
                    Ok(p) => if host.len() == 0 {
                        Err(msg_no_server())
                    } else {
                        Ok((host, p))
                    },
                }
            },
        }
    } else {
        let (server, port) = match rsplit_once(raw, ':') {
            Some(pair) => pair,
            None => (raw, "443"@),
        };
        if server.len() == 0 {
            Err(msg_no_server())
        } else {
            match parse_unsigned(port, 65535) {
                Some(p) => Ok((server, p as u16)),
                None => Err(msg_invalid_port()),
            }
        }
    }
}

fn parse_error(m: &str) -> (e: CoreError)
    ensures
        e matches CoreError::ConfigParse(t) && t@ == m@,
{
    CoreError::ConfigParse(m.to_owned())
}

fn port_of(digits: &[char]) -> (r: Option<u16>)
    ensures
        match r {
            Some(p) => parse_unsigned(digits@, 65535) == Some(p as nat),
            None => parse_unsigned(digits@, 65535) is None,
        },
{
    match parse_unsigned_chars(digits, 65535) {
        Some(v) => Some(v as u16),
        None => None,
    }
}

/// Splits the server part of a proxy link into host and port.
pub fn parse_host_port(raw: &[char]) -> (r: Result<(Vec<char>, u16), CoreError>)
    ensures
        match r {
            Ok((h, p)) => spec_parse_host_port(raw@) == Ok::<(Seq<char>, u16), Seq<char>>((h@, p)),
            Err(e) => e matches CoreError::ConfigParse(m) && spec_parse_host_port(raw@) == Err::<
                (Seq<char>, u16),
                Seq<char>,
            >(m@),
        },
{
    if raw.len() > 0 && raw[0] == '[' {
        let rest = slice_of(raw, 1, raw.len());
        assert(rest@ =~= raw@.drop_first());
        match split_once_chars(rest.as_slice(), ']') {
            None => Err(parse_error("proxy_uri has invalid IPv6 server")),
            Some((host, after)) => {
                let mut port: u16 = 443;
                if after.len() > 1 && after[0] == ':' {
                    let digits = slice_of(after.as_slice(), 1, after.len());
                    assert(digits@ =~= after@.drop_first());
                    match port_of(digits.as_slice()) {
                        Some(p) => {
                            port = p;
                        },
                        None => {
                            return Err(parse_error("proxy_uri has invalid port"));
                        },
                    }
                }
                if host.len() == 0 {
                    return Err(parse_error("proxy_uri has no server"));
                }
                Ok((host, port))
            },
        }
    } else {
        let (server, port_text) = match rsplit_once_chars(raw, ':') {
            Some(pair) => pair,
            None => {
                let mut all: Vec<char> = Vec::new();
                push_all(&mut all, raw);
                (all, to_chars("443"))
            },
        };
        if server.len() == 0 {
            return Err(parse_error("proxy_uri has no server"));
        }
        match port_of(port_text.as_slice()) {
            Some(p) => Ok((server, p)),
            None => Err(parse_error("proxy_uri has invalid port")),
        }
    }
}

// ---------------------------------------------------------------------------
// The link
// ---------------------------------------------------------------------------

/// What a parsed proxy link holds.
#[derive(Debug, Clone, PartialEq, Eq)]
pub struct ProxyEndpoint {
    pub server: String,
    pub port: u16,
    pub uuid: String,
    pub server_name: String,
    pub public_key: Option<String>,
    pub short_id: Option<String>,
    pub fingerprint: String,
    pub flow: Option<String>,
}

pub struct ProxyEndpointView {
    pub server: Seq<char>,
    pub port: u16,
    pub uuid: Seq<char>,
    pub server_name: Seq<char>,
    pub public_key: Option<Seq<char>>,
    pub short_id: Option<Seq<char>>,
    pub fingerprint: Seq<char>,
    pub flow: Option<Seq<char>>,
}

impl View for ProxyEndpoint {
    type V = ProxyEndpointView;

    open spec fn view(&self) -> ProxyEndpointView {
        ProxyEndpointView {
            server: self.server@,
            port: self.port,
            uuid: self.uuid@,
            server_name: self.server_name@,
            public_key: crate::model::opt_view(self.public_key),
            short_id: crate::model::opt_view(self.short_id),
            fingerprint: self.fingerprint@,
            flow: crate::model::opt_view(self.flow),
        }
    }
}

/// The part of a link's remainder before its query or fragment.
pub open spec fn authority(s: Seq<char>) -> Seq<char> {
    before_either(s, '?', '#')
}

/// The query of a link: after the first `?`, up to the first `#` after it.
pub open spec fn query_part(rem: Seq<char>) -> Seq<char> {
    match split_once(rem, '?') {
        Some((_, q)) => match index_of(q, '#') {
            Some(k) => q.take(k),
            None => q,
        },
        None => Seq::empty(),
    }
}

/// One `key=value` item, both sides percent-decoded; an item without `=`
/// has an empty value.
pub open spec fn query_item(item: Seq<char>) -> (Seq<char>, Seq<char>) {
    match split_once(item, '=') {
        Some((k, v)) => (pct_decoded(k), pct_decoded(v)),
        None => (pct_decoded(item), pct_decoded(Seq::empty())),
    }
}

/// The decoded pairs of the non-empty items, in order.
pub open spec fn query_pairs(items: Seq<Seq<char>>) -> Seq<(Seq<char>, Seq<char>)>
    decreases items.len(),
{
    if items.len() == 0 {
        seq![]
    } else if items.last().len() == 0 {
        query_pairs(items.drop_last())
    } else {
        query_pairs(items.drop_last()).push(query_item(items.last()))
    }
}

/// The value of the last pair with the given key (a later item overrides an
/// earlier one, as when the pairs are collected into a map).
pub open spec fn query_get(pairs: Seq<(Seq<char>, Seq<char>)>, key: Seq<char>) -> Option<Seq<char>>
    decreases pairs.len(),
{
    if pairs.len() == 0 {
        None
    } else if pairs.last().0 == key {
        Some(pairs.last().1)
    } else {
        query_get(pairs.drop_last(), key)
    }
}

pub open spec fn msg_scheme() -> Seq<char> {
    "proxy_uri must use vless://"@
}

/// The endpoint built from the host, port, uuid and query pairs.
pub open spec fn endpoint_of(
    server: Seq<char>,
    port: u16,
    uuid: Seq<char>,
    pairs: Seq<(Seq<char>, Seq<char>)>,
) -> ProxyEndpointView {
    ProxyEndpointView {
        server,
        port,
        uuid: pct_decoded(uuid),
        server_name: match query_get(pairs, "sni"@) {
            Some(v) => v,
            None => match query_get(pairs, "serverName"@) {
                Some(v) => v,
                None => server,
            },
        },
        public_key: query_get(pairs, "pbk"@),
        short_id: query_get(pairs, "sid"@),
        fingerprint: match query_get(pairs, "fp"@) {
            Some(v) => v,
            None => "chrome"@,
        },
        flow: match query_get(pairs, "flow"@) {
            Some(v) => if v.len() > 0 {
                Some(v)
            } else {
                None
            },
            None => None,
        },
    }
}

/// What a proxy link parses to, or the message of the error it is refused
/// with.
pub open spec fn spec_parse_proxy_uri(raw: Seq<char>) -> Result<ProxyEndpointView, Seq<char>> {
    match first_occurrence(raw, "://"@) {
        None => Err(msg_scheme()),
        Some(i) => {
            let scheme = raw.take(i);
            let rem = raw.skip(i + 3);
            if lower(scheme) != "vless"@ {
                Err(msg_scheme())
            } else {
                match rsplit_once(authority(rem), '@') {
                    None => Err("proxy_uri has no UUID or server"@),
                    Some((uuid, host_port)) => if uuid.len() == 0 {
                        Err("proxy_uri has no UUID"@)
                    } else {
                        match spec_parse_host_port(host_port) {
                            Err(e) => Err(e),
                            Ok((server, port)) => {
                                let pairs = query_pairs(split_char(query_part(rem), '&'));
                                if (query_get(pairs, "pbk"@) is Some) != (query_get(pairs, "sid"@) is Some) {
                                    Err("proxy_uri reality parameters require both pbk and sid"@)
                                } else {
                                    Ok(endpoint_of(server, port, uuid, pairs))
                                }
                            },
                        }
                    },
                }
            }
        },
    }
}

/// The view of a list of pairs.
pub open spec fn pairs_view(v: Seq<(Vec<char>, Vec<char>)>) -> Seq<(Seq<char>, Seq<char>)> {
    v.map_values(|p: (Vec<char>, Vec<char>)| (p.0@, p.1@))
}

fn query_item_exec(item: &[char]) -> (r: (Vec<char>, Vec<char>))
    ensures
        (r.0@, r.1@) == query_item(item@),
{
    match split_once_chars(item, '=') {
        Some((k, v)) => (percent_decode_chars(k.as_slice()), percent_decode_chars(v.as_slice())),
        None => {
            let empty: Vec<char> = Vec::new();
            (percent_decode_chars(item), percent_decode_chars(empty.as_slice()))
        },
    }
}

fn query_pairs_exec(items: &Vec<Vec<char>>) -> (r: Vec<(Vec<char>, Vec<char>)>)
    ensures
        pairs_view(r@) == query_pairs(items@.map_values(|v: Vec<char>| v@)),
{
    let ghost iv = items@.map_values(|v: Vec<char>| v@);
    let mut out: Vec<(Vec<char>, Vec<char>)> = Vec::new();
    let n = items.len();
    assert(iv.take(0) =~= Seq::<Seq<char>>::empty());
    assert(pairs_view(out@) =~= query_pairs(iv.take(0)));
    for i in 0..n
        invariant
            n == items@.len(),
            iv == items@.map_values(|v: Vec<char>| v@),
            pairs_view(out@) == query_pairs(iv.take(i as int)),
    {
        assert(iv.take((i + 1) as int).drop_last() =~= iv.take(i as int));
        assert(iv[i as int] == items@[i as int]@);
        if items[i].len() > 0 {
            let pair = query_item_exec(items[i].as_slice());
            let ghost before = out@;
            out.push(pair);
            assert(pairs_view(out@) =~= pairs_view(before).push((pair.0@, pair.1@)));
        }
    }
    assert(iv.take(n as int) =~= iv);
    out
}

fn query_get_exec(pairs: &Vec<(Vec<char>, Vec<char>)>, key: &str) -> (r: Option<Vec<char>>)
    ensures
        match r {
            Some(v) => query_get(pairs_view(pairs@), key@) == Some(v@),
            None => query_get(pairs_view(pairs@), key@) is None,
        },
{
    let ghost pv = pairs_view(pairs@);
    let mut k = pairs.len();
    assert(pv.take(k as int) =~= pv);
    while k > 0
        invariant
            k <= pairs@.len(),
            pv == pairs_view(pairs@),
            query_get(pv, key@) == query_get(pv.take(k as int), key@),
        decreases k,
    {
        let ghost t = pv.take(k as int);
        assert(t.drop_last() =~= pv.take(k - 1));
        assert(t.last() == (pairs@[k - 1].0@, pairs@[k - 1].1@));
        if eq_str(pairs[k - 1].0.as_slice(), key) {
            let mut v: Vec<char> = Vec::new();
            push_all(&mut v, pairs[k - 1].1.as_slice());
            return Some(v);
        }
        k = k - 1;
    }
    None
}

fn string_of(v: Option<Vec<char>>) -> (r: Option<String>)
    ensures
        crate::model::opt_view(r) == match v {
            Some(c) => Some(c@),
            None => None::<Seq<char>>,
        },
{
    match v {
        Some(c) => Some(from_chars(c.as_slice())),
        None => None,
    }
}

/// The decoded `key=value` parameters of a link's query, in order.
pub open spec fn link_params(raw: Seq<char>) -> Seq<(Seq<char>, Seq<char>)> {
    match first_occurrence(raw, "://"@) {
        Some(i) => query_pairs(split_char(query_part(raw.skip(i + 3)), '&')),
        None => seq![],
    }
}

/// The TLS server name of a parsed link is its `sni` parameter (the last
/// one, when it occurs more than once); without one, its `serverName`
/// parameter; without either, the server it connects to.
pub proof fn lemma_server_name_from_link(raw: Seq<char>)
    ensures
        spec_parse_proxy_uri(raw) matches Ok(p) ==> p.server_name == match query_get(
            link_params(raw),
            "sni"@,
        ) {
            Some(v) => v,
            None => match query_get(link_params(raw), "serverName"@) {
                Some(v) => v,
                None => p.server,
            },
        },
{
}

/// Parses a `vless://` proxy link.
pub fn parse_proxy_uri(raw: &str) -> (r: Result<ProxyEndpoint, CoreError>)
    ensures
        match r {
            Ok(p) => spec_parse_proxy_uri(raw@) == Ok::<ProxyEndpointView, Seq<char>>(p@),
            Err(e) => e matches CoreError::ConfigParse(m) && spec_parse_proxy_uri(raw@) == Err::<
                ProxyEndpointView,
                Seq<char>,
            >(m@),
        },
{
    let cs = to_chars(raw);
    let sep = to_chars("://");
    let i = match find(cs.as_slice(), sep.as_slice()) {
        Some(i) => i,
        None => {
            return Err(parse_error("proxy_uri must use vless://"));
        },
    };
    proof {
        reveal_strlit("://");
        crate::text::lemma_first_occurrence_bounds(cs@, sep@);
    }
    assert(sep@.len() == 3);
    let len = cs.len();
    assert(i + 3 <= len);
    let scheme = slice_of(cs.as_slice(), 0, i);
    let rem = slice_of(cs.as_slice(), i + 3, len);
    assert(scheme@ =~= raw@.take(i as int));
    assert(rem@ =~= raw@.skip(i + 3));
    let scheme_lower = lower_chars(scheme.as_slice());
    if !eq_str(scheme_lower.as_slice(), "vless") {
        return Err(parse_error("proxy_uri must use vless://"));
    }
    let auth = before_either_chars(rem.as_slice(), '?', '#');
    let (uuid, host_port) = match rsplit_once_chars(auth.as_slice(), '@') {
        Some(pair) => pair,
        None => {
            return Err(parse_error("proxy_uri has no UUID or server"));
        },
    };
    if uuid.len() == 0 {
        return Err(parse_error("proxy_uri has no UUID"));
    }
    let (server, port) = match parse_host_port(host_port.as_slice()) {
        Ok(hp) => hp,
        Err(e) => {
            return Err(e);
        },
    };
    let query: Vec<char> = match split_once_chars(rem.as_slice(), '?') {
        Some((_, q)) => match find_char(q.as_slice(), '#') {
            Some(k) => {
                proof {
                    crate::text::lemma_index_of_found(q@, '#');
                }
                slice_of(q.as_slice(), 0, k)
            },
            None => q,
        },
        None => Vec::new(),
    };
    assert(query@ =~= query_part(rem@));
    let items = split_chars(query.as_slice(), '&');
    let pairs = query_pairs_exec(&items);
    let pbk = query_get_exec(&pairs, "pbk");
    let sid = query_get_exec(&pairs, "sid");
    if pbk.is_some() != sid.is_some() {
        return Err(parse_error("proxy_uri reality parameters require both pbk and sid"));
    }
    let server_name = match query_get_exec(&pairs, "sni") {
        Some(v) => v,
        None => match query_get_exec(&pairs, "serverName") {
            Some(v) => v,
            None => {
                let mut v: Vec<char> = Vec::new();
                push_all(&mut v, server.as_slice());
                v
            },
        },
    };
    let fingerprint = match query_get_exec(&pairs, "fp") {
        Some(v) => v,
        None => to_chars("chrome"),
    };
    let flow = match query_get_exec(&pairs, "flow") {
        Some(v) => if v.len() > 0 {
            Some(v)
        } else {
            None
        },
        None => None,
    };
    let uuid_text = percent_decode_chars(uuid.as_slice());
    let endpoint = ProxyEndpoint {
        server: from_chars(server.as_slice()),
        port,
        uuid: from_chars(uuid_text.as_slice()),
        server_name: from_chars(server_name.as_slice()),
        public_key: string_of(pbk),
        short_id: string_of(sid),
        fingerprint: from_chars(fingerprint.as_slice()),
        flow: string_of(flow),
    };
    Ok(endpoint)
}

/// Checks a proxy link without handing out what it holds.
pub fn validate_proxy_uri(raw: &str) -> (r: Result<(), CoreError>)
    ensures
        match r {
            Ok(_) => spec_parse_proxy_uri(raw@) is Ok,
            Err(e) => e matches CoreError::ConfigParse(m) && spec_parse_proxy_uri(raw@) == Err::<
                ProxyEndpointView,
                Seq<char>,
            >(m@),
        },
{
    match parse_proxy_uri(raw) {
        Ok(_) => Ok(()),
        Err(e) => Err(e),
    }
}

} // verus!

//! IPv4 addresses, CIDR prefixes and MAC addresses.
//!
//! An IPv4 address is held as its 32-bit value, most significant octet first.

use vstd::prelude::*;
use crate::text::{
    all_digits, decimal, decimal_chars, decimal_value, digit_value, eq_str, find,
    first_occurrence, from_chars, is_digit, lemma_first_occurrence_bounds, lower_char,
    lower_char_exec, parse_unsigned, parse_unsigned_chars, push_all, push_decimal, slice_of,
    split_char, split_chars, split_once, split_once_chars, to_chars, index_of, lemma_index_of,
    lemma_decimal_reads_back,
};
use crate::model::ValidateError;

verus! {

/// One dotted-quad octet as `Ipv4Addr::from_str` accepts it: one to three
/// ASCII digits, no leading zero, at most 255.
pub open spec fn octet_ok(p: Seq<char>) -> bool {
    &&& 1 <= p.len() <= 3
    &&& all_digits(p)
    &&& !(p.len() > 1 && p[0] == '0')
    &&& decimal_value(p) <= 255
}

/// The address whose octets are `a.b.c.d`.
pub open spec fn ipv4_of_octets(a: nat, b: nat, c: nat, d: nat) -> u32 {
    (a * 16777216 + b * 65536 + c * 256 + d) as u32
}

/// `Ipv4Addr::from_str`: exactly four well-formed octets separated by dots.
pub open spec fn spec_parse_ipv4(s: Seq<char>) -> Option<u32> {
    let parts = split_char(s, '.');
    if parts.len() == 4 && octet_ok(parts[0]) && octet_ok(parts[1]) && octet_ok(parts[2])
        && octet_ok(parts[3]) {
        Some(
            ipv4_of_octets(
                decimal_value(parts[0]),
                decimal_value(parts[1]),
                decimal_value(parts[2]),
                decimal_value(parts[3]),
            ),
        )
    } else {
        None
    }
}

pub open spec fn octet0(ip: u32) -> nat {
    (ip / 16777216) as nat
}

pub open spec fn octet1(ip: u32) -> nat {
    ((ip / 65536) % 256) as nat
}

pub open spec fn octet2(ip: u32) -> nat {
    ((ip / 256) % 256) as nat
}

pub open spec fn octet3(ip: u32) -> nat {
    (ip % 256) as nat
}

/// The dotted-quad text of an address (`Ipv4Addr`'s `Display`).
pub open spec fn ipv4_text(ip: u32) -> Seq<char> {
    decimal(octet0(ip)) + seq!['.'] + decimal(octet1(ip)) + seq!['.'] + decimal(octet2(ip))
        + seq!['.'] + decimal(octet3(ip))
}

/// Parses one octet.
fn parse_octet(p: &[char]) -> (r: Option<u64>)
    ensures
        match r {
            Some(v) => octet_ok(p@) && v == decimal_value(p@),
            None => !octet_ok(p@),
        },
{
    if p.len() == 0 || p.len() > 3 {
        return None;
    }
    if p.len() > 1 && p[0] == '0' {
        return None;
    }
    let mut value: u64 = 0;
    let n = p.len();
    for i in 0..n
        invariant
            n == p@.len() <= 3,
            all_digits(p@.take(i as int)),
            value == decimal_value(p@.take(i as int)),
            i == 0 ==> value == 0,
            i <= 1 ==> value < 10,
            i <= 2 ==> value < 100,
            value < 1000,
    {
        let c = p[i];
        if !('0' <= c && c <= '9') {
            assert(!all_digits(p@)) by {
                assert(!is_digit(p@[i as int]));
            }
            return None;
        }
        assert(p@.take((i + 1) as int).drop_last() =~= p@.take(i as int));
        value = value * 10 + ((c as u64) - 48);
    }
    assert(p@.take(n as int) =~= p@);
    if value > 255 {
        return None;
    }
    Some(value)
}

/// Parses a dotted-quad IPv4 address.
pub fn parse_ipv4_chars(s: &[char]) -> (r: Option<u32>)
    ensures
        r == spec_parse_ipv4(s@),
{
    let parts = split_chars(s, '.');
    let ghost pv = parts@.map_values(|v: Vec<char>| v@);
    if parts.len() != 4 {
        return None;
    }
    assert(pv[0] == parts@[0]@);
    assert(pv[1] == parts@[1]@);
    assert(pv[2] == parts@[2]@);
    assert(pv[3] == parts@[3]@);
    let a = match parse_octet(parts[0].as_slice()) {
        Some(v) => v,
        None => return None,
    };
    let b = match parse_octet(parts[1].as_slice()) {
        Some(v) => v,
        None => return None,
    };
    let c = match parse_octet(parts[2].as_slice()) {
        Some(v) => v,
        None => return None,
    };
    let d = match parse_octet(parts[3].as_slice()) {
        Some(v) => v,
        None => return None,
    };
    let v = a * 16777216 + b * 65536 + c * 256 + d;
    Some(v as u32)
}

/// `parse_ipv4`: the address, or the message `invalid IPv4: <raw>`.
pub open spec fn spec_parse_ipv4_result(raw: Seq<char>) -> Result<u32, Seq<char>> {
    match spec_parse_ipv4(raw) {
        Some(ip) => Ok(ip),
        None => Err("invalid IPv4: "@ + raw),
    }
}

/// Parses an IPv4 address, as `Ipv4Addr::from_str` does.
pub fn parse_ipv4(raw: &str) -> (r: Result<u32, ValidateError>)
    ensures
        match r {
            Ok(ip) => spec_parse_ipv4_result(raw@) == Ok::<u32, Seq<char>>(ip),
            Err(e) => spec_parse_ipv4_result(raw@) == Err::<u32, Seq<char>>(e.message()),
        },
{
    let cs = to_chars(raw);
    parse_ipv4_in(cs.as_slice())
}

/// `parse_ipv4` on characters.
pub fn parse_ipv4_in(raw: &[char]) -> (r: Result<u32, ValidateError>)
    ensures
        match r {
            Ok(ip) => spec_parse_ipv4_result(raw@) == Ok::<u32, Seq<char>>(ip),
            Err(e) => spec_parse_ipv4_result(raw@) == Err::<u32, Seq<char>>(e.message()),
        },
{
    match parse_ipv4_chars(raw) {
        Some(ip) => Ok(ip),
        None => {
            let mut m = to_chars("invalid IPv4: ");
            push_all(&mut m, raw);
            Err(ValidateError::Message(from_chars(m.as_slice())))
        },
    }
}

/// `parse_ipv4_cidr`: address and prefix length, or the message that names
/// the first problem.
pub open spec fn spec_parse_ipv4_cidr(raw: Seq<char>) -> Result<(u32, u8), Seq<char>> {
    match split_once(raw, '/') {
        None => Err("CIDR required: "@ + raw),
        Some((addr, prefix)) => match spec_parse_ipv4(addr) {
            None => Err("invalid IPv4: "@ + addr),
            Some(ip) => match parse_unsigned(prefix, 255) {
                None => Err("invalid prefix: "@ + raw),
                Some(p) => if p > 32 {
                    Err("prefix out of range: "@ + raw)
                } else {
                    Ok((ip, p as u8))
                },
            },
        },
    }
}

fn message_with(prefix: &str, tail: &[char]) -> (r: ValidateError)
    ensures
        r.message() == prefix@ + tail@,
{
    let mut m = to_chars(prefix);
    push_all(&mut m, tail);
    ValidateError::Message(from_chars(m.as_slice()))
}

/// Parses `a.b.c.d/p`.
pub fn parse_ipv4_cidr(raw: &str) -> (r: Result<(u32, u8), ValidateError>)
    ensures
        match r {
            Ok(v) => spec_parse_ipv4_cidr(raw@) == Ok::<(u32, u8), Seq<char>>(v),
            Err(e) => spec_parse_ipv4_cidr(raw@) == Err::<(u32, u8), Seq<char>>(e.message()),
        },
{
    let cs = to_chars(raw);
    parse_ipv4_cidr_in(cs.as_slice())
}

/// `parse_ipv4_cidr` on characters.
pub fn parse_ipv4_cidr_in(raw: &[char]) -> (r: Result<(u32, u8), ValidateError>)
    ensures
        match r {
            Ok(v) => spec_parse_ipv4_cidr(raw@) == Ok::<(u32, u8), Seq<char>>(v),
            Err(e) => spec_parse_ipv4_cidr(raw@) == Err::<(u32, u8), Seq<char>>(e.message()),
        },
        r is Ok ==> r->Ok_0.1 <= 32,
{
    let (addr, prefix) = match split_once_chars(raw, '/') {
        Some(pair) => pair,
        None => return Err(message_with("CIDR required: ", raw)),
    };
    let ip = match parse_ipv4_chars(addr.as_slice()) {
        Some(ip) => ip,
        None => return Err(message_with("invalid IPv4: ", addr.as_slice())),
    };
    let p = match parse_unsigned_chars(prefix.as_slice(), 255) {
        Some(p) => p,
        None => return Err(message_with("invalid prefix: ", raw)),
    };
    if p > 32 {
        return Err(message_with("prefix out of range: ", raw));
    }
    Ok((ip, p as u8))
}

/// A parsed prefix length is at most 32.
pub proof fn lemma_parse_cidr_prefix(raw: Seq<char>)
    ensures
        spec_parse_ipv4_cidr(raw) matches Ok((ip, p)) ==> p <= 32,
{
}

/// The network mask of a prefix length.
pub open spec fn prefix_mask(prefix: u8) -> u32 {
    if prefix == 0 {
        0
    } else {
        0xffff_ffffu32 << ((32 - prefix) as u32)
    }
}

fn mask_of(prefix: u8) -> (m: u32)
    requires
        prefix <= 32,
    ensures
        m == prefix_mask(prefix),
{
    if prefix == 0 {
        0
    } else {
        u32::MAX << ((32 - prefix) as u32)
    }
}

/// The network address: the host bits cleared.
pub open spec fn spec_ipv4_network(ip: u32, prefix: u8) -> u32 {
    ip & prefix_mask(prefix)
}

/// `ip` lies in `net/prefix`.
pub open spec fn spec_ipv4_in_cidr(ip: u32, net: u32, prefix: u8) -> bool {
    (ip & prefix_mask(prefix)) == (net & prefix_mask(prefix))
}

/// Clears the host bits of `ip`.
pub fn ipv4_network(ip: u32, prefix: u8) -> (r: u32)
    requires
        prefix <= 32,
    ensures
        r == spec_ipv4_network(ip, prefix),
{
    ip & mask_of(prefix)
}

/// Whether `ip` lies in `net/prefix`.
pub fn ipv4_in_cidr(ip: u32, net: u32, prefix: u8) -> (r: bool)
    requires
        prefix <= 32,
    ensures
        r == spec_ipv4_in_cidr(ip, net, prefix),
{
    let m = mask_of(prefix);
    (ip & m) == (net & m)
}

/// Two CIDR blocks overlap when either base address lies in the other block.
pub open spec fn spec_cidr_overlap(a: u32, ap: u8, b: u32, bp: u8) -> bool {
    spec_ipv4_in_cidr(a, b, bp) || spec_ipv4_in_cidr(b, a, ap)
}

/// Whether two CIDR blocks overlap. The first block's prefix length is
/// only looked at when the first address is outside the second block.
pub fn cidr_overlap(a: u32, ap: u8, b: u32, bp: u8) -> (r: bool)
    requires
        bp <= 32,
        spec_ipv4_in_cidr(a, b, bp) || ap <= 32,
    ensures
        r == spec_cidr_overlap(a, ap, b, bp),
{
    ipv4_in_cidr(a, b, bp) || ipv4_in_cidr(b, a, ap)
}

/// The block lies inside 10/8, 172.16/12 or 192.168/16.
pub open spec fn spec_is_rfc1918(ip: u32, prefix: u8) -> bool {
    ||| octet0(ip) == 10 && prefix >= 8
    ||| octet0(ip) == 172 && 16 <= octet1(ip) <= 31 && prefix >= 12
    ||| octet0(ip) == 192 && octet1(ip) == 168 && prefix >= 16
}

/// Whether a block is private address space (RFC 1918).
pub fn is_rfc1918(ip: u32, prefix: u8) -> (r: bool)
    ensures
        r == spec_is_rfc1918(ip, prefix),
{
    let o0 = ip / 16777216;
    let o1 = (ip / 65536) % 256;
    (o0 == 10 && prefix >= 8) || (o0 == 172 && 16 <= o1 && o1 <= 31 && prefix >= 12) || (o0 == 192
        && o1 == 168 && prefix >= 16)
}

/// Renders an address as dotted-quad text.
pub fn ipv4_to_chars(ip: u32) -> (r: Vec<char>)
    ensures
        r@ == ipv4_text(ip),
{
    let mut out = decimal_chars((ip / 16777216) as u64);
    out.push('.');
    push_decimal(&mut out, ((ip / 65536) % 256) as u64);
    out.push('.');
    push_decimal(&mut out, ((ip / 256) % 256) as u64);
    out.push('.');
    push_decimal(&mut out, (ip % 256) as u64);
    assert(out@ =~= ipv4_text(ip));
    out
}

// ---------------------------------------------------------------------------
// IPv6 text (only as far as loopback detection needs it)
// ---------------------------------------------------------------------------

pub open spec fn is_hex_digit(c: char) -> bool {
    is_digit(c) || ('a' <= c && c <= 'f') || ('A' <= c && c <= 'F')
}

pub open spec fn hex_digit_value(c: char) -> nat {
    if is_digit(c) {
        digit_value(c)
    } else if 'a' <= c && c <= 'f' {
        ((c as int) - ('a' as int) + 10) as nat
    } else {
        ((c as int) - ('A' as int) + 10) as nat
    }
}

/// The value of a string of hex digits.
pub open spec fn hex_value(s: Seq<char>) -> nat
    decreases s.len(),
{
    if s.len() == 0 {
        0
    } else {
        hex_value(s.drop_last()) * 16 + hex_digit_value(s.last())
    }
}

/// One 16-bit group: one to four hex digits, leading zeros allowed.
pub open spec fn h16_ok(p: Seq<char>) -> bool {
    1 <= p.len() <= 4 && forall|i: int| 0 <= i < p.len() ==> is_hex_digit(#[trigger] p[i])
}

/// The values of a list of 16-bit groups, if every piece is one.
pub open spec fn h16_groups(pieces: Seq<Seq<char>>) -> Option<Seq<nat>>
    decreases pieces.len(),
{
    if pieces.len() == 0 {
        Some(Seq::empty())
    } else {
        match h16_groups(pieces.drop_last()) {
            Some(g) => if h16_ok(pieces.last()) {
                Some(g.push(hex_value(pieces.last())))
            } else {
                None
            },
            None => None,
        }
    }
}

/// The groups of a colon-separated list whose last piece may be an embedded
/// dotted-quad address (worth two groups).
pub open spec fn colon_groups(pieces: Seq<Seq<char>>) -> Option<Seq<nat>> {
    if pieces.len() == 0 {
        Some(Seq::empty())
    } else {
        match h16_groups(pieces.drop_last()) {
            None => None,
            Some(g) => if h16_ok(pieces.last()) {
                Some(g.push(hex_value(pieces.last())))
            } else {
                match spec_parse_ipv4(pieces.last()) {
                    Some(v) => Some(g.push((v / 65536) as nat).push((v % 65536) as nat)),
                    None => None,
                }
            },
        }
    }
}

/// The eight groups of an IPv6 text, as `Ipv6Addr::from_str` reads it: either
/// eight groups, or a head and a tail around the first `::` that together
/// hold at most seven groups; only the last group list may end in a
/// dotted-quad address.
pub open spec fn spec_parse_ipv6(s: Seq<char>) -> Option<Seq<nat>> {
    match first_occurrence(s, seq![':', ':']) {
        None => match colon_groups(split_char(s, ':')) {
            Some(g) => if g.len() == 8 {
                Some(g)
            } else {
                None
            },
            None => None,
        },
        Some(k) => {
            let head = s.take(k);
            let tail = s.skip(k + 2);
            let hg = if head.len() == 0 {
                Some(Seq::<nat>::empty())
            } else {
                h16_groups(split_char(head, ':'))
            };
            let tg = if tail.len() == 0 {
                Some(Seq::<nat>::empty())
            } else {
                colon_groups(split_char(tail, ':'))
            };
            match (hg, tg) {
                (Some(h), Some(t)) => if h.len() + t.len() <= 7 {
                    Some(h + Seq::new((8 - h.len() - t.len()) as nat, |i: int| 0nat) + t)
                } else {
                    None
                },
                _ => None,
            }
        },
    }
}

/// The groups of `::1`.
pub open spec fn ipv6_loopback_groups() -> Seq<nat> {
    seq![0nat, 0, 0, 0, 0, 0, 0, 1]
}

fn hex_digit_exec(c: char) -> (r: Option<u64>)
    ensures
        match r {
            Some(v) => is_hex_digit(c) && v == hex_digit_value(c),
            None => !is_hex_digit(c),
        },
{
    if '0' <= c && c <= '9' {
        Some((c as u64) - 48)
    } else if 'a' <= c && c <= 'f' {
        Some((c as u64) - 87)
    } else if 'A' <= c && c <= 'F' {
        Some((c as u64) - 55)
    } else {
        None
    }
}

fn parse_h16(p: &[char]) -> (r: Option<u64>)
    ensures
        match r {
            Some(v) => h16_ok(p@) && v == hex_value(p@),
            None => !h16_ok(p@),
        },
{
    let n = p.len();
    if n == 0 || n > 4 {
        return None;
    }
    let mut value: u64 = 0;
    for i in 0..n
        invariant
            n == p@.len() <= 4,
            forall|j: int| 0 <= j < i ==> is_hex_digit(#[trigger] p@[j]),
            value == hex_value(p@.take(i as int)),
            value < 65536,
            i == 0 ==> value == 0,
            i <= 1 ==> value < 16,
            i <= 2 ==> value < 256,
            i <= 3 ==> value < 4096,
    {
        let d = match hex_digit_exec(p[i]) {
            Some(d) => d,
            None => return None,
        };
        assert(p@.take((i + 1) as int).drop_last() =~= p@.take(i as int));
        value = value * 16 + d;
    }
    assert(p@.take(n as int) =~= p@);
    Some(value)
}

fn h16_groups_exec(pieces: &Vec<Vec<char>>, count: usize) -> (r: Option<Vec<u64>>)
    requires
        count <= pieces@.len(),
    ensures
        match r {
            Some(g) => h16_groups(pieces@.map_values(|v: Vec<char>| v@).take(count as int)) == Some(
                g@.map_values(|x: u64| x as nat),
            ),
            None => h16_groups(pieces@.map_values(|v: Vec<char>| v@).take(count as int)) is None,
        },
{
    let ghost pv = pieces@.map_values(|v: Vec<char>| v@);
    let mut out: Vec<u64> = Vec::new();
    for i in 0..count
        invariant
            count <= pieces@.len(),
            pv == pieces@.map_values(|v: Vec<char>| v@),
            h16_groups(pv.take(i as int)) == Some(out@.map_values(|x: u64| x as nat)),
    {
        assert(pv.take((i + 1) as int).drop_last() =~= pv.take(i as int));
        assert(pv.take((i + 1) as int).last() == pieces@[i as int]@);
        match parse_h16(pieces[i].as_slice()) {
            Some(v) => {
                let ghost before = out@;
                out.push(v);
                assert(out@.map_values(|x: u64| x as nat) =~= before.map_values(|x: u64| x as nat).push(
                    v as nat,
                ));
            },
            None => {
                proof {
                    lemma_h16_groups_none_extends(pv.take(count as int), (i + 1) as int);
                    assert(pv.take(count as int).take((i + 1) as int) =~= pv.take((i + 1) as int));
                }
                return None;
            },
        }
    }
    assert(h16_groups(pv.take(0)) == Some(Seq::<nat>::empty()));
    Some(out)
}

proof fn lemma_h16_groups_none_extends(p: Seq<Seq<char>>, k: int)
    requires
        0 <= k <= p.len(),
        h16_groups(p.take(k)) is None,
    ensures
        h16_groups(p) is None,
    decreases p.len() - k,
{
    if k < p.len() {
        assert(p.take(k + 1).drop_last() =~= p.take(k));
        lemma_h16_groups_none_extends(p, k + 1);
    } else {
        assert(p.take(k) =~= p);
    }
}

fn colon_groups_exec(pieces: &Vec<Vec<char>>) -> (r: Option<Vec<u64>>)
    ensures
        match r {
            Some(g) => colon_groups(pieces@.map_values(|v: Vec<char>| v@)) == Some(
                g@.map_values(|x: u64| x as nat),
            ),
            None => colon_groups(pieces@.map_values(|v: Vec<char>| v@)) is None,
        },
{
    let ghost pv = pieces@.map_values(|v: Vec<char>| v@);
    let n = pieces.len();
    if n == 0 {
        let out: Vec<u64> = Vec::new();
        assert(out@.map_values(|x: u64| x as nat) =~= Seq::<nat>::empty());
        return Some(out);
    }
    assert(pv.drop_last() =~= pv.take((n - 1) as int));
    let mut g = match h16_groups_exec(pieces, n - 1) {
        Some(g) => g,
        None => return None,
    };
    let ghost before = g@;
    assert(pv.last() == pieces@[n - 1]@);
    let last = pieces[n - 1].as_slice();
    match parse_h16(last) {
        Some(v) => {
            g.push(v);
            assert(g@.map_values(|x: u64| x as nat) =~= before.map_values(|x: u64| x as nat).push(
                v as nat,
            ));
            Some(g)
        },
        None => match parse_ipv4_chars(last) {
            Some(v4) => {
                g.push((v4 / 65536) as u64);
                g.push((v4 % 65536) as u64);
                assert(g@.map_values(|x: u64| x as nat) =~= before.map_values(|x: u64| x as nat).push(
                    (v4 / 65536) as nat,
                ).push((v4 % 65536) as nat));
                Some(g)
            },
            None => None,
        },
    }
}

pub open spec fn groups_view(g: Seq<u64>) -> Seq<nat> {
    g.map_values(|x: u64| x as nat)
}

fn join_groups(h: &Vec<u64>, t: &Vec<u64>) -> (r: Vec<u64>)
    requires
        h@.len() + t@.len() <= 7,
    ensures
        groups_view(r@) == groups_view(h@) + Seq::new(
            (8 - h@.len() - t@.len()) as nat,
            |i: int| 0nat,
        ) + groups_view(t@),
{
    let mut all: Vec<u64> = Vec::new();
    let hl = h.len();
    let tl = t.len();
    for i in 0..hl
        invariant
            hl == h@.len(),
            all@ =~= h@.take(i as int),
    {
        all.push(h[i]);
        assert(h@.take((i + 1) as int) =~= h@.take(i as int).push(h@[i as int]));
    }
    let zeros = 8 - hl - tl;
    for i in 0..zeros
        invariant
            hl == h@.len(),
            all@ =~= h@.take(hl as int) + Seq::new(i as nat, |j: int| 0u64),
    {
        all.push(0);
    }
    for i in 0..tl
        invariant
            tl == t@.len(),
            hl == h@.len(),
            all@ =~= h@.take(hl as int) + Seq::new(zeros as nat, |j: int| 0u64) + t@.take(i as int),
    {
        all.push(t[i]);
        assert(t@.take((i + 1) as int) =~= t@.take(i as int).push(t@[i as int]));
    }
    assert(t@.take(tl as int) =~= t@);
    assert(h@.take(hl as int) =~= h@);
    assert(groups_view(all@) =~= groups_view(h@) + Seq::new(
        (8 - h@.len() - t@.len()) as nat,
        |i: int| 0nat,
    ) + groups_view(t@));
    all
}

fn empty_groups() -> (r: Vec<u64>)
    ensures
        groups_view(r@) == Seq::<nat>::empty(),
{
    let e: Vec<u64> = Vec::new();
    assert(groups_view(e@) =~= Seq::<nat>::empty());
    e
}

/// The eight groups of an IPv6 text.
fn ipv6_groups(s: &[char]) -> (r: Option<Vec<u64>>)
    ensures
        match r {
            Some(g) => spec_parse_ipv6(s@) == Some(groups_view(g@)),
            None => spec_parse_ipv6(s@) is None,
        },
{
    let mut sep: Vec<char> = Vec::new();
    sep.push(':');
    sep.push(':');
    assert(sep@ =~= seq![':', ':']);
    match find(s, sep.as_slice()) {
        None => {
            let pieces = split_chars(s, ':');
            match colon_groups_exec(&pieces) {
                Some(g) => {
                    if g.len() != 8 {
                        return None;
                    }
                    Some(g)
                },
                None => None,
            }
        },
        Some(k) => {
            proof {
                lemma_first_occurrence_bounds(s@, sep@);
            }
            let slen = s.len();
            let head = slice_of(s, 0, k);
            let tail = slice_of(s, k + 2, slen);
            assert(head@ =~= s@.take(k as int));
            assert(tail@ =~= s@.skip(k + 2));
            let h: Vec<u64> = if head.len() == 0 {
                empty_groups()
            } else {
                let hp = split_chars(head.as_slice(), ':');
                let n = hp.len();
                assert(hp@.map_values(|v: Vec<char>| v@).take(n as int) =~= hp@.map_values(
                    |v: Vec<char>| v@,
                ));
                match h16_groups_exec(&hp, n) {
                    Some(g) => g,
                    None => return None,
                }
            };
            let t: Vec<u64> = if tail.len() == 0 {
                empty_groups()
            } else {
                let tp = split_chars(tail.as_slice(), ':');
                match colon_groups_exec(&tp) {
                    Some(g) => g,
                    None => return None,
                }
            };
            if h.len() > 7 || t.len() > 7 - h.len() {
                return None;
            }
            Some(join_groups(&h, &t))
        },
    }
}

/// Whether an IPv6 text reads as `::1`.
pub fn is_ipv6_loopback_text(s: &[char]) -> (r: bool)
    ensures
        r == (spec_parse_ipv6(s@) == Some(ipv6_loopback_groups())),
{
    let groups = match ipv6_groups(s) {
        Some(g) => g,
        None => return false,
    };
    let r = groups.len() == 8 && groups[0] == 0 && groups[1] == 0 && groups[2] == 0 && groups[3]
        == 0 && groups[4] == 0 && groups[5] == 0 && groups[6] == 0 && groups[7] == 1;
    proof {
        let gv = groups_view(groups@);
        assert(gv.len() == groups@.len());
        assert(forall|j: int| 0 <= j < gv.len() ==> gv[j] == groups@[j] as nat);
        if r {
            assert(gv =~= ipv6_loopback_groups());
        } else if gv == ipv6_loopback_groups() {
            assert(gv[0] == 0 && gv[1] == 0 && gv[2] == 0 && gv[3] == 0);
            assert(gv[4] == 0 && gv[5] == 0 && gv[6] == 0 && gv[7] == 1);
        }
    }
    r
}

/// `bind.parse::<IpAddr>()` gives a loopback address: `127.x.y.z`, or `::1`.
pub open spec fn spec_ip_text_is_loopback(s: Seq<char>) -> bool {
    match spec_parse_ipv4(s) {
        Some(ip) => octet0(ip) == 127,
        None => spec_parse_ipv6(s) == Some(ipv6_loopback_groups()),
    }
}

/// `is_loopback_bind`: a loopback name, or text that parses as a loopback
/// address.
pub open spec fn spec_is_loopback_bind(bind: Seq<char>) -> bool {
    ||| bind == "127.0.0.1"@
    ||| bind == "::1"@
    ||| bind == "localhost"@
    ||| spec_ip_text_is_loopback(bind)
}

/// Whether a UI bind address only listens on the loopback interface.
pub fn is_loopback_bind(bind: &str) -> (r: bool)
    ensures
        r == spec_is_loopback_bind(bind@),
{
    let cs = to_chars(bind);
    is_loopback_bind_in(cs.as_slice())
}

/// `is_loopback_bind` on characters.
pub fn is_loopback_bind_in(bind: &[char]) -> (r: bool)
    ensures
        r == spec_is_loopback_bind(bind@),
{
    if eq_str(bind, "127.0.0.1") || eq_str(bind, "::1") || eq_str(bind, "localhost") {
        return true;
    }
    match parse_ipv4_chars(bind) {
        Some(ip) => ip / 16777216 == 127,
        None => is_ipv6_loopback_text(bind),
    }
}

// ---------------------------------------------------------------------------
// MAC addresses
// ---------------------------------------------------------------------------

/// The hex digits of a text, lower-cased, everything else dropped.
pub open spec fn hex_filter(s: Seq<char>) -> Seq<char>
    decreases s.len(),
{
    if s.len() == 0 {
        Seq::empty()
    } else if is_hex_digit(s.last()) {
        hex_filter(s.drop_last()).push(lower_char(s.last()))
    } else {
        hex_filter(s.drop_last())
    }
}

/// Pairs of characters joined by `:`.
pub open spec fn colon_pairs(h: Seq<char>) -> Seq<char>
    decreases h.len(),
{
    if h.len() <= 2 {
        h
    } else {
        h.take(2) + seq![':'] + colon_pairs(h.skip(2))
    }
}

/// `parse_mac`: twelve hex digits in any layout, rendered `aa:bb:cc:dd:ee:ff`.
pub open spec fn spec_parse_mac(raw: Seq<char>) -> Result<Seq<char>, Seq<char>> {
    let h = hex_filter(raw);
    if h.len() != 12 {
        Err("invalid MAC: "@ + raw)
    } else {
        Ok(colon_pairs(h))
    }
}

/// Normalises a MAC address.
pub fn parse_mac(raw: &str) -> (r: Result<String, ValidateError>)
    ensures
        match r {
            Ok(m) => spec_parse_mac(raw@) == Ok::<Seq<char>, Seq<char>>(m@),
            Err(e) => spec_parse_mac(raw@) == Err::<Seq<char>, Seq<char>>(e.message()),
        },
{
    let cs = to_chars(raw);
    match parse_mac_in(cs.as_slice()) {
        Ok(m) => Ok(from_chars(m.as_slice())),
        Err(e) => Err(e),
    }
}

/// `parse_mac` on characters.
pub fn parse_mac_in(raw: &[char]) -> (r: Result<Vec<char>, ValidateError>)
    ensures
        match r {
            Ok(m) => spec_parse_mac(raw@) == Ok::<Seq<char>, Seq<char>>(m@),
            Err(e) => spec_parse_mac(raw@) == Err::<Seq<char>, Seq<char>>(e.message()),
        },
{
    let mut h: Vec<char> = Vec::new();
    let n = raw.len();
    for i in 0..n
        invariant
            n == raw@.len(),
            h@ == hex_filter(raw@.take(i as int)),
    {
        let c = raw[i];
        assert(raw@.take((i + 1) as int).drop_last() =~= raw@.take(i as int));
        if hex_digit_exec(c).is_some() {
            h.push(lower_char_exec(c));
        }
    }
    assert(raw@.take(n as int) =~= raw@);
    if h.len() != 12 {
        return Err(message_with("invalid MAC: ", raw));
    }
    let mut out: Vec<char> = Vec::new();
    out.push(h[0]);
    out.push(h[1]);
    out.push(':');
    out.push(h[2]);
    out.push(h[3]);
    out.push(':');
    out.push(h[4]);
    out.push(h[5]);
    out.push(':');
    out.push(h[6]);
    out.push(h[7]);
    out.push(':');
    out.push(h[8]);
    out.push(h[9]);
    out.push(':');
    out.push(h[10]);
    out.push(h[11]);
    proof {
        let hv = h@;
        assert(hv.skip(2).skip(2) =~= hv.skip(4));
        assert(hv.skip(4).skip(2) =~= hv.skip(6));
        assert(hv.skip(6).skip(2) =~= hv.skip(8));
        assert(hv.skip(8).skip(2) =~= hv.skip(10));
        assert(colon_pairs(hv.skip(10)) == hv.skip(10));
        assert(colon_pairs(hv.skip(8)) == hv.skip(8).take(2) + seq![':'] + colon_pairs(hv.skip(10)));
        assert(colon_pairs(hv.skip(6)) == hv.skip(6).take(2) + seq![':'] + colon_pairs(hv.skip(8)));
        assert(colon_pairs(hv.skip(4)) == hv.skip(4).take(2) + seq![':'] + colon_pairs(hv.skip(6)));
        assert(colon_pairs(hv.skip(2)) == hv.skip(2).take(2) + seq![':'] + colon_pairs(hv.skip(4)));
        assert(colon_pairs(hv) == hv.take(2) + seq![':'] + colon_pairs(hv.skip(2)));
        assert(out@ =~= colon_pairs(hv));
    }
    Ok(out)
}

// ---------------------------------------------------------------------------
// Laws of CIDR arithmetic
// ---------------------------------------------------------------------------

/// Every address lies in its own network.
pub proof fn lemma_ip_in_own_network(ip: u32, prefix: u8)
    requires
        prefix <= 32,
    ensures
        spec_ipv4_in_cidr(ip, spec_ipv4_network(ip, prefix), prefix),
{
    let m = prefix_mask(prefix);
    assert((ip & m) == ((ip & m) & m)) by (bit_vector);
}

/// Taking the network address twice changes nothing.
pub proof fn lemma_network_idempotent(ip: u32, prefix: u8)
    requires
        prefix <= 32,
    ensures
        spec_ipv4_network(spec_ipv4_network(ip, prefix), prefix) == spec_ipv4_network(ip, prefix),
{
    let m = prefix_mask(prefix);
    assert(((ip & m) & m) == (ip & m)) by (bit_vector);
}

/// An address lies in a block exactly when both have the same network address.
pub proof fn lemma_in_cidr_iff_same_network(ip: u32, net: u32, prefix: u8)
    requires
        prefix <= 32,
    ensures
        spec_ipv4_in_cidr(ip, net, prefix) <==> spec_ipv4_network(ip, prefix) == spec_ipv4_network(
            net,
            prefix,
        ),
{
}

/// Overlap does not depend on the order of the two blocks.
pub proof fn lemma_overlap_symmetric(a: u32, ap: u8, b: u32, bp: u8)
    ensures
        spec_cidr_overlap(a, ap, b, bp) == spec_cidr_overlap(b, bp, a, ap),
{
}

/// A block always overlaps itself.
pub proof fn lemma_overlap_reflexive(a: u32, ap: u8)
    ensures
        spec_cidr_overlap(a, ap, a, ap),
{
}

proof fn lemma_split_after_digits(x: Seq<char>, rest: Seq<char>)
    requires
        all_digits(x),
    ensures
        split_char(x + seq!['.'] + rest, '.') == seq![x] + split_char(rest, '.'),
{
    let s = x + seq!['.'] + rest;
    assert forall|j: int| 0 <= j < x.len() implies s[j] != '.' by {
        assert(s[j] == x[j] && is_digit(x[j]));
    }
    lemma_index_of(s, '.', x.len() as int);
    assert(index_of(s, '.') == Some(x.len() as int));
    assert(s.take(x.len() as int) =~= x);
    assert(s.skip(x.len() as int + 1) =~= rest);
}

proof fn lemma_split_digits_alone(x: Seq<char>)
    requires
        all_digits(x),
    ensures
        split_char(x, '.') == seq![x],
{
    assert forall|j: int| 0 <= j < x.len() implies x[j] != '.' by {
        assert(is_digit(x[j]));
    }
    lemma_index_of(x, '.', x.len() as int);
}

proof fn lemma_octet_text(n: nat)
    requires
        n <= 255,
    ensures
        octet_ok(decimal(n)),
        decimal_value(decimal(n)) == n,
{
    lemma_decimal_reads_back(n);
}

proof fn lemma_octets_recombine(ip: u32)
    ensures
        octet0(ip) <= 255,
        ipv4_of_octets(octet0(ip), octet1(ip), octet2(ip), octet3(ip)) == ip,
{
    assert(ip / 16777216 <= 255) by (bit_vector);
    assert(ip == (ip / 16777216) * 16777216 + ((ip / 65536) % 256) * 65536 + ((ip / 256) % 256) * 256
        + ip % 256) by (bit_vector);
}

proof fn lemma_ipv4_text_chars(ip: u32)
    ensures
        forall|j: int| 0 <= j < ipv4_text(ip).len() ==> #[trigger] ipv4_text(ip)[j] == '.' || is_digit(ipv4_text(ip)[j]),
{
    let (d0, d1, d2, d3) = (decimal(octet0(ip)), decimal(octet1(ip)), decimal(octet2(ip)), decimal(octet3(ip)));
    lemma_decimal_reads_back(octet0(ip));
    lemma_decimal_reads_back(octet1(ip));
    lemma_decimal_reads_back(octet2(ip));
    lemma_decimal_reads_back(octet3(ip));
    let t = ipv4_text(ip);
    assert forall|j: int| 0 <= j < t.len() implies #[trigger] t[j] == '.' || is_digit(t[j]) by {
        let a = d0.len() as int;
        let b = a + 1 + d1.len();
        let c = b + 1 + d2.len();
        if j < a {
            assert(t[j] == d0[j]);
        } else if j == a {
        } else if j < b {
            assert(t[j] == d1[j - a - 1]);
        } else if j == b {
        } else if j < c {
            assert(t[j] == d2[j - b - 1]);
        } else if j == c {
        } else {
            assert(t[j] == d3[j - c - 1]);
        }
    }
}

/// The dotted-quad text of an address parses back to it, and holds only
/// digits and dots.
pub proof fn lemma_ipv4_text_parses_back(ip: u32)
    ensures
        spec_parse_ipv4(ipv4_text(ip)) == Some(ip),
        forall|j: int| 0 <= j < ipv4_text(ip).len() ==> #[trigger] ipv4_text(ip)[j] == '.' || is_digit(ipv4_text(ip)[j]),
{
    let (o0, o1, o2, o3) = (octet0(ip), octet1(ip), octet2(ip), octet3(ip));
    lemma_octets_recombine(ip);
    lemma_octet_text(o0);
    lemma_octet_text(o1);
    lemma_octet_text(o2);
    lemma_octet_text(o3);
    let (d0, d1, d2, d3) = (decimal(o0), decimal(o1), decimal(o2), decimal(o3));
    let t = ipv4_text(ip);
    assert(t =~= d0 + seq!['.'] + (d1 + seq!['.'] + (d2 + seq!['.'] + d3)));
    lemma_split_digits_alone(d3);
    lemma_split_after_digits(d2, d3);
    lemma_split_after_digits(d1, d2 + seq!['.'] + d3);
    lemma_split_after_digits(d0, d1 + seq!['.'] + (d2 + seq!['.'] + d3));
    assert(split_char(t, '.') =~= seq![d0, d1, d2, d3]);
    lemma_ipv4_text_chars(ip);
}

/// `a.b.c.d/p` written from an address and a prefix length parses back to
/// them.
pub proof fn lemma_cidr_text_parses_back(ip: u32, prefix: u8)
    requires
        prefix <= 32,
    ensures
        spec_parse_ipv4_cidr(ipv4_text(ip) + seq!['/'] + decimal(prefix as nat)) == Ok::<(u32, u8), Seq<char>>((ip, prefix)),
{
    lemma_ipv4_text_parses_back(ip);
    lemma_decimal_reads_back(prefix as nat);
    let t = ipv4_text(ip);
    let d = decimal(prefix as nat);
    let raw = t + seq!['/'] + d;
    assert forall|j: int| 0 <= j < t.len() implies raw[j] != '/' by {
        assert(raw[j] == t[j]);
        assert(t[j] == '.' || is_digit(t[j]));
    }
    lemma_index_of(raw, '/', t.len() as int);
    assert(raw.take(t.len() as int) =~= t);
    assert(raw.skip(t.len() as int + 1) =~= d);
    assert(split_once(raw, '/') == Some((t, d)));
    assert(is_digit(d[0]));
    assert(parse_unsigned(d, 255) == Some(prefix as nat));
}

/// A /0 block contains every address.
pub proof fn lemma_prefix_zero_contains_all(ip: u32, net: u32)
    ensures
        spec_ipv4_in_cidr(ip, net, 0),
{
    assert((ip & 0u32) == (net & 0u32)) by (bit_vector);
}

} // verus!

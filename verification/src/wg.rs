//! Import of a pasted WireGuard client configuration: wg-quick text, or
//! base64 wrapping that text. No I/O; keys stay in the returned value.

use base64::Engine;
use vstd::prelude::*;
use vstd::utf8::{decode_utf8, encode_utf8, valid_utf8};

use crate::model::{opt_view, AppConfig, Secrets, ValidateError};
use crate::render::{or_empty, spec_render_wg_quick, wg_psk_line, wg_quick_text};
use crate::text::{
    decimal, eq_str, from_chars, index_of, is_ws, is_ws_char, lemma_decimal_reads_back,
    lemma_index_of, lemma_trim_padded,
    lemma_trimmed_ends, lines, lines_of, lower, lower_chars, parse_unsigned,
    parse_unsigned_chars, slice_of, split_once, split_once_chars, to_chars, trim, trim_chars,
    trim_end, trim_start, trim_str,
};

verus! {

/// Fields taken from a pasted WireGuard client config.
#[derive(Debug, Clone, PartialEq, Eq)]
pub struct WgImport {
    pub address: Option<String>,
    pub listen_port: Option<u16>,
    pub peer_endpoint: Option<String>,
    pub peer_allowed_ips: Option<String>,
    pub private_key: Option<String>,
    pub peer_public_key: Option<String>,
    pub preshared_key: Option<String>,
}

pub struct WgImportView {
    pub address: Option<Seq<char>>,
    pub listen_port: Option<u16>,
    pub peer_endpoint: Option<Seq<char>>,
    pub peer_allowed_ips: Option<Seq<char>>,
    pub private_key: Option<Seq<char>>,
    pub peer_public_key: Option<Seq<char>>,
    pub preshared_key: Option<Seq<char>>,
}

impl View for WgImport {
    type V = WgImportView;

    open spec fn view(&self) -> WgImportView {
        WgImportView {
            address: opt_view(self.address),
            listen_port: self.listen_port,
            peer_endpoint: opt_view(self.peer_endpoint),
            peer_allowed_ips: opt_view(self.peer_allowed_ips),
            private_key: opt_view(self.private_key),
            peer_public_key: opt_view(self.peer_public_key),
            preshared_key: opt_view(self.preshared_key),
        }
    }
}

impl WgImportView {
    pub open spec fn empty() -> WgImportView {
        WgImportView {
            address: None,
            listen_port: None,
            peer_endpoint: None,
            peer_allowed_ips: None,
            private_key: None,
            peer_public_key: None,
            preshared_key: None,
        }
    }
}

impl Default for WgImport {
    fn default() -> (r: Self)
        ensures
            r@ == WgImportView::empty(),
    {
        WgImport {
            address: None,
            listen_port: None,
            peer_endpoint: None,
            peer_allowed_ips: None,
            private_key: None,
            peer_public_key: None,
            preshared_key: None,
        }
    }
}

// ---------------------------------------------------------------------------
// wg-quick text
// ---------------------------------------------------------------------------

/// What the scan of a wg-quick text has seen so far.
pub struct WgScan {
    pub section: Seq<char>,
    pub out: WgImportView,
    pub saw_interface: bool,
}

/// `value.parse::<u16>().ok()`.
pub open spec fn port_value(v: Seq<char>) -> Option<u16> {
    match parse_unsigned(v, 65535) {
        Some(n) => Some(n as u16),
        None => None,
    }
}

/// Records `key = value` of the given section.
pub open spec fn wg_assign(
    section: Seq<char>,
    key: Seq<char>,
    value: Seq<char>,
    out: WgImportView,
) -> WgImportView {
    if section == "interface"@ {
        if key == "address"@ {
            WgImportView { address: Some(value), ..out }
        } else if key == "listenport"@ {
            WgImportView { listen_port: port_value(value), ..out }
        } else if key == "privatekey"@ {
            WgImportView { private_key: Some(value), ..out }
        } else {
            out
        }
    } else if section == "peer"@ {
        if key == "publickey"@ {
            WgImportView { peer_public_key: Some(value), ..out }
        } else if key == "presharedkey"@ {
            WgImportView { preshared_key: Some(value), ..out }
        } else if key == "endpoint"@ {
            WgImportView { peer_endpoint: Some(value), ..out }
        } else if key == "allowedips"@ {
            WgImportView { peer_allowed_ips: Some(value), ..out }
        } else {
            out
        }
    } else {
        out
    }
}

/// A `[name]` header line.
pub open spec fn is_header(l: Seq<char>) -> bool {
    l.len() >= 2 && l[0] == '[' && l.last() == ']'
}

/// One line of a wg-quick text: blank lines and `#` comments are skipped,
/// `[name]` opens a section (case-insensitive), `key = value` is recorded
/// under the open section, and anything else is ignored.
pub open spec fn wg_line(st: WgScan, line: Seq<char>) -> WgScan {
    let l = trim(line);
    if l.len() == 0 || l[0] == '#' {
        st
    } else if is_header(l) {
        let sec = lower(l.subrange(1, l.len() - 1));
        WgScan {
            section: sec,
            out: st.out,
            saw_interface: st.saw_interface || sec == "interface"@,
        }
    } else {
        match split_once(l, '=') {
            None => st,
            Some((k, v)) => WgScan {
                section: st.section,
                out: wg_assign(st.section, lower(trim(k)), trim(v), st.out),
                saw_interface: st.saw_interface,
            },
        }
    }
}

/// The scan state after the given lines.
pub open spec fn wg_scan(ls: Seq<Seq<char>>) -> WgScan
    decreases ls.len(),
{
    if ls.len() == 0 {
        WgScan { section: Seq::empty(), out: WgImportView::empty(), saw_interface: false }
    } else {
        wg_line(wg_scan(ls.drop_last()), ls.last())
    }
}

pub open spec fn no_interface_message() -> Seq<char> {
    "not a wg-quick config ([Interface] missing)"@
}

/// What a wg-quick text yields: its fields, or an error when no
/// `[Interface]` section occurs.
pub open spec fn spec_parse_wg_quick(text: Seq<char>) -> Result<WgImportView, Seq<char>> {
    let st = wg_scan(lines(text));
    if st.saw_interface {
        Ok(st.out)
    } else {
        Err(no_interface_message())
    }
}

struct ScanState {
    section: Vec<char>,
    out: WgImport,
    saw_interface: bool,
}

impl ScanState {
    spec fn view_scan(&self) -> WgScan {
        WgScan { section: self.section@, out: self.out@, saw_interface: self.saw_interface }
    }
}

fn assign_field(section: &[char], key: &[char], value: Vec<char>, out: &mut WgImport)
    ensures
        final(out)@ == wg_assign(section@, key@, value@, old(out)@),
{
    if eq_str(section, "interface") {
        if eq_str(key, "address") {
            out.address = Some(from_chars(value.as_slice()));
        } else if eq_str(key, "listenport") {
            out.listen_port = match parse_unsigned_chars(value.as_slice(), 65535) {
                Some(n) => Some(n as u16),
                None => None,
            };
        } else if eq_str(key, "privatekey") {
            out.private_key = Some(from_chars(value.as_slice()));
        }
    } else if eq_str(section, "peer") {
        if eq_str(key, "publickey") {
            out.peer_public_key = Some(from_chars(value.as_slice()));
        } else if eq_str(key, "presharedkey") {
            out.preshared_key = Some(from_chars(value.as_slice()));
        } else if eq_str(key, "endpoint") {
            out.peer_endpoint = Some(from_chars(value.as_slice()));
        } else if eq_str(key, "allowedips") {
            out.peer_allowed_ips = Some(from_chars(value.as_slice()));
        }
    }
}

fn scan_line(st: &mut ScanState, line: &[char])
    ensures
        final(st).view_scan() == wg_line(old(st).view_scan(), line@),
{
    let l = trim_chars(line);
    let n = l.len();
    if n == 0 || l[0] == '#' {
        return;
    }
    if n >= 2 && l[0] == '[' && l[n - 1] == ']' {
        let name = slice_of(l.as_slice(), 1, n - 1);
        let sec = lower_chars(name.as_slice());
        let is_interface = eq_str(sec.as_slice(), "interface");
        st.section = sec;
        st.saw_interface = st.saw_interface || is_interface;
        return;
    }
    match split_once_chars(l.as_slice(), '=') {
        None => {},
        Some((k, v)) => {
            let kt = trim_chars(k.as_slice());
            let key = lower_chars(kt.as_slice());
            let value = trim_chars(v.as_slice());
            assign_field(st.section.as_slice(), key.as_slice(), value, &mut st.out);
        },
    }
}

/// Reads the fields of a wg-quick text.
pub fn parse_wg_quick(text: &str) -> (r: Result<WgImport, ValidateError>)
    ensures
        match r {
            Ok(w) => spec_parse_wg_quick(text@) == Ok::<WgImportView, Seq<char>>(w@),
            Err(e) => spec_parse_wg_quick(text@) == Err::<WgImportView, Seq<char>>(e.message()),
        },
{
    let cs = to_chars(text);
    let ls = lines_of(cs.as_slice());
    let ghost lv = lines(text@);
    let mut st = ScanState { section: Vec::new(), out: WgImport::default(), saw_interface: false };
    let n = ls.len();
    assert(lv.take(0) =~= Seq::<Seq<char>>::empty());
    for i in 0..n
        invariant
            n == ls@.len(),
            ls@.map_values(|v: Vec<char>| v@) == lv,
            st.view_scan() == wg_scan(lv.take(i as int)),
    {
        assert(ls@[i as int]@ == lv[i as int]);
        scan_line(&mut st, ls[i].as_slice());
        assert(lv.take((i + 1) as int).drop_last() =~= lv.take(i as int));
    }
    assert(lv.take(n as int) =~= lv);
    if !st.saw_interface {
        return Err(ValidateError::Message("not a wg-quick config ([Interface] missing)".to_owned()));
    }
    Ok(st.out)
}

// ---------------------------------------------------------------------------
// Paste buffers
// ---------------------------------------------------------------------------

/// The four base64 dialects a paste may come in, tried in this order.
#[derive(Debug, Clone, Copy, PartialEq, Eq, Structural)]
pub enum Base64Dialect {
    Standard,
    StandardNoPad,
    UrlSafe,
    UrlSafeNoPad,
}

/// What `Engine::decode` of the dialect's engine returns for the input:
/// the decoded bytes, or `None` where it reports an error.
pub uninterp spec fn base64_decoded(dialect: Base64Dialect, input: Seq<u8>) -> Option<Seq<u8>>;

/// `base64::Engine::decode` with the `general_purpose` engine of the dialect.
/// The contract names the result and claims nothing else of it.
#[verifier::external_body]
fn base64_decode(dialect: Base64Dialect, input: &[u8]) -> (r: Option<Vec<u8>>)
    ensures
        match r {
            Some(b) => base64_decoded(dialect, input@) == Some(b@),
            None => base64_decoded(dialect, input@) is None,
        },
{
    let engine = match dialect {
        Base64Dialect::Standard => base64::engine::general_purpose::STANDARD,
        Base64Dialect::StandardNoPad => base64::engine::general_purpose::STANDARD_NO_PAD,
        Base64Dialect::UrlSafe => base64::engine::general_purpose::URL_SAFE,
        Base64Dialect::UrlSafeNoPad => base64::engine::general_purpose::URL_SAFE_NO_PAD,
    };
    engine.decode(input).ok()
}

/// `String::from_utf8`: succeeds exactly on well-formed UTF-8, and then holds
/// the characters those bytes encode.
#[verifier::external_body]
fn utf8_string(bytes: Vec<u8>) -> (r: Option<String>)
    ensures
        r is Some <==> valid_utf8(bytes@),
        r matches Some(s) ==> s@ == decode_utf8(bytes@),
{
    String::from_utf8(bytes).ok()
}

/// The characters that are not whitespace.
pub open spec fn strip_ws(s: Seq<char>) -> Seq<char>
    decreases s.len(),
{
    if s.len() == 0 {
        s
    } else if is_ws(s.last()) {
        strip_ws(s.drop_last())
    } else {
        strip_ws(s.drop_last()).push(s.last())
    }
}

/// The text that one dialect decodes the compacted paste to, if it decodes
/// to well-formed UTF-8.
pub open spec fn candidate_text(dialect: Base64Dialect, compact: Seq<char>) -> Option<Seq<char>> {
    match base64_decoded(dialect, encode_utf8(compact)) {
        Some(bytes) => if valid_utf8(bytes) {
            Some(decode_utf8(bytes))
        } else {
            None
        },
        None => None,
    }
}

/// The first candidate that holds a `[`; the trimmed paste if none does.
pub open spec fn pick_text(trimmed: Seq<char>, candidates: Seq<Option<Seq<char>>>) -> Seq<char>
    decreases candidates.len(),
{
    if candidates.len() == 0 {
        trimmed
    } else {
        match candidates[0] {
            Some(t) => if index_of(t, '[') is Some {
                t
            } else {
                pick_text(trimmed, candidates.drop_first())
            },
            None => pick_text(trimmed, candidates.drop_first()),
        }
    }
}

/// The candidates of the four dialects, in the order they are tried.
pub open spec fn dialect_candidates(compact: Seq<char>) -> Seq<Option<Seq<char>>> {
    seq![
        candidate_text(Base64Dialect::Standard, compact),
        candidate_text(Base64Dialect::StandardNoPad, compact),
        candidate_text(Base64Dialect::UrlSafe, compact),
        candidate_text(Base64Dialect::UrlSafeNoPad, compact),
    ]
}

/// The wg-quick text of a trimmed paste: the paste itself when it holds a
/// `[`, else the first base64 decoding of it (whitespace removed) that is
/// UTF-8 holding a `[`, else the paste.
pub open spec fn spec_decode_maybe_base64(trimmed: Seq<char>) -> Seq<char> {
    if index_of(trimmed, '[') is Some {
        trimmed
    } else {
        pick_text(trimmed, dialect_candidates(strip_ws(trimmed)))
    }
}

/// The candidates' texts as character sequences.
pub open spec fn candidates_view(v: Seq<Option<Vec<char>>>) -> Seq<Option<Seq<char>>> {
    v.map_values(|o: Option<Vec<char>>| match o {
        Some(c) => Some(c@),
        None => None,
    })
}

/// Chooses the text among decoded candidates.
pub fn pick_wireguard_text(trimmed: &[char], candidates: &[Option<Vec<char>>]) -> (r: Vec<char>)
    ensures
        r@ == pick_text(trimmed@, candidates_view(candidates@)),
{
    let n = candidates.len();
    let mut i: usize = 0;
    assert(candidates_view(candidates@).skip(0) =~= candidates_view(candidates@));
    while i < n
        invariant
            i <= n == candidates@.len(),
            pick_text(trimmed@, candidates_view(candidates@)) == pick_text(
                trimmed@,
                candidates_view(candidates@).skip(i as int),
            ),
        decreases n - i,
    {
        let ghost rest = candidates_view(candidates@).skip(i as int);
        assert(rest.drop_first() =~= candidates_view(candidates@).skip(i + 1));
        match &candidates[i] {
            Some(t) => {
                if crate::text::find_char(t.as_slice(), '[').is_some() {
                    let mut out: Vec<char> = Vec::new();
                    crate::text::push_all(&mut out, t.as_slice());
                    return out;
                }
            },
            None => {},
        }
        i = i + 1;
    }
    let mut out: Vec<char> = Vec::new();
    crate::text::push_all(&mut out, trimmed);
    out
}

fn strip_ws_chars(s: &[char]) -> (r: Vec<char>)
    ensures
        r@ == strip_ws(s@),
{
    let mut out: Vec<char> = Vec::new();
    let n = s.len();
    assert(s@.take(0) =~= Seq::<char>::empty());
    for i in 0..n
        invariant
            n == s@.len(),
            out@ == strip_ws(s@.take(i as int)),
    {
        assert(s@.take((i + 1) as int).drop_last() =~= s@.take(i as int));
        if !is_ws_char(s[i]) {
            out.push(s[i]);
        }
    }
    assert(s@.take(n as int) =~= s@);
    out
}

fn decode_candidate(dialect: Base64Dialect, compact: &str) -> (r: Option<Vec<char>>)
    ensures
        match r {
            Some(c) => candidate_text(dialect, compact@) == Some(c@),
            None => candidate_text(dialect, compact@) is None,
        },
{
    match base64_decode(dialect, compact.as_bytes()) {
        Some(bytes) => match utf8_string(bytes) {
            Some(s) => Some(to_chars(s.as_str())),
            None => None,
        },
        None => None,
    }
}

/// The wg-quick text inside a trimmed paste buffer.
pub fn decode_maybe_base64(trimmed: &str) -> (r: String)
    ensures
        r@ == spec_decode_maybe_base64(trimmed@),
{
    let cs = to_chars(trimmed);
    if crate::text::find_char(cs.as_slice(), '[').is_some() {
        return trimmed.to_owned();
    }
    let compact_chars = strip_ws_chars(cs.as_slice());
    let compact = from_chars(compact_chars.as_slice());
    let mut candidates: Vec<Option<Vec<char>>> = Vec::new();
    candidates.push(decode_candidate(Base64Dialect::Standard, compact.as_str()));
    candidates.push(decode_candidate(Base64Dialect::StandardNoPad, compact.as_str()));
    candidates.push(decode_candidate(Base64Dialect::UrlSafe, compact.as_str()));
    candidates.push(decode_candidate(Base64Dialect::UrlSafeNoPad, compact.as_str()));
    assert(candidates_view(candidates@) =~= dialect_candidates(compact@));
    let text = pick_wireguard_text(cs.as_slice(), candidates.as_slice());
    from_chars(text.as_slice())
}

/// Reads a paste buffer: wg-quick text, or standard or URL-safe base64
/// (padded or not) wrapping that text.
pub fn parse_wireguard_blob(raw: &str) -> (r: Result<WgImport, ValidateError>)
    ensures
        trim(raw@).len() == 0 ==> (r matches Err(e) && e.message() == "empty WireGuard paste"@),
        trim(raw@).len() > 0 ==> match r {
            Ok(w) => spec_parse_wg_quick(spec_decode_maybe_base64(trim(raw@)))
                == Ok::<WgImportView, Seq<char>>(w@),
            Err(e) => spec_parse_wg_quick(spec_decode_maybe_base64(trim(raw@)))
                == Err::<WgImportView, Seq<char>>(e.message()),
        },
{
    let t = trim_str(raw);
    if t.len() == 0 {
        return Err(ValidateError::Message("empty WireGuard paste".to_owned()));
    }
    let trimmed = from_chars(t.as_slice());
    let text = decode_maybe_base64(trimmed.as_str());
    parse_wg_quick(text.as_str())
}


// ---------------------------------------------------------------------------
// Rendered tunnel files read back
// ---------------------------------------------------------------------------

/// A field value that a wg-quick line carries unchanged: no line break
/// and no whitespace at either end.
pub open spec fn readable_field(x: Seq<char>) -> bool {
    x == trim(x) && !x.contains('\n')
}

/// `lines` takes the first line off a text.
proof fn lemma_lines_cons(a: Seq<char>, b: Seq<char>)
    requires
        !a.contains('\n'),
        a.len() > 0 ==> a.last() != '\r',
    ensures
        lines(a + seq!['\n'] + b) == seq![a] + lines(b),
{
    let s = a + seq!['\n'] + b;
    assert forall|j: int| 0 <= j < a.len() implies s[j] != '\n' by {
        assert(s[j] == a[j]);
    }
    assert(s[a.len() as int] == '\n');
    lemma_index_of(s, '\n', a.len() as int);
    assert(s.take(a.len() as int) =~= a);
    assert(s.skip(a.len() as int + 1) =~= b);
}

/// A text without a line break is one line.
proof fn lemma_lines_one(a: Seq<char>)
    requires
        a.len() > 0,
        !a.contains('\n'),
    ensures
        lines(a) == seq![a],
{
    lemma_index_of(a, '\n', a.len() as int);
}

/// A `[name]` line opens the section `name`, lowercased.
proof fn lemma_header_line(st: WgScan, name: Seq<char>)
    ensures
        wg_line(st, seq!['['] + name + seq![']']) == (WgScan {
            section: lower(name),
            out: st.out,
            saw_interface: st.saw_interface || lower(name) == "interface"@,
        }),
{
    let h = seq!['['] + name + seq![']'];
    assert(h[0] == '[');
    assert(h.last() == ']');
    assert(trim_start(h) == h);
    assert(trim_end(h) == h);
    assert(h.subrange(1, h.len() - 1) =~= name);
}

/// A `key = value` line records the value under the open section.
proof fn lemma_kv_line(st: WgScan, key: Seq<char>, x: Seq<char>)
    requires
        key.len() > 0,
        !is_ws(key[0]),
        !is_ws(key.last()),
        key[0] != '#',
        key[0] != '[',
        !key.contains('='),
        x == trim(x),
    ensures
        wg_line(st, key + " = "@ + x) == (WgScan {
            section: st.section,
            out: wg_assign(st.section, lower(key), x, st.out),
            saw_interface: st.saw_interface,
        }),
{
    reveal_strlit(" = ");
    let line = key + " = "@ + x;
    let n = key.len() as int;
    lemma_trimmed_ends(x);
    lemma_trim_padded(x);
    lemma_trim_padded(key);
    assert(line[0] == key[0]);
    assert(trim_start(line) == line);
    let l = if x.len() > 0 {
        assert(line.last() == x.last());
        assert(trim_end(line) == line);
        line
    } else {
        assert(line.last() == ' ');
        assert(line.drop_last().last() == '=');
        assert(trim_end(line.drop_last()) == line.drop_last());
        line.drop_last()
    };
    assert(trim(line) == l);
    assert forall|j: int| 0 <= j < n + 1 implies l[j] != '=' by {
        if j < n {
            assert(l[j] == key[j]);
        }
    }
    assert(l[n + 1] == '=');
    lemma_index_of(l, '=', n + 1);
    assert(l.take(n + 1) =~= key + seq![' ']);
    if x.len() > 0 {
        assert(l.skip(n + 2) =~= seq![' '] + x);
    } else {
        assert(l.skip(n + 2) =~= x);
    }
}

/// A `key = value` line of a literal key and a field value is one line.
proof fn lemma_kv_line_shape(key: Seq<char>, x: Seq<char>)
    requires
        key.len() > 0,
        !key.contains('\n'),
        readable_field(x),
    ensures
        !(key + " = "@ + x).contains('\n'),
        (key + " = "@ + x).last() != '\r',
{
    reveal_strlit(" = ");
    let line = key + " = "@ + x;
    let n = key.len() as int;
    assert forall|j: int| 0 <= j < line.len() implies line[j] != '\n' by {
        if j < n {
            assert(line[j] == key[j]);
        } else if j >= n + 3 {
            assert(line[j] == x[j - n - 3]);
        }
    }
    lemma_trimmed_ends(x);
    if x.len() > 0 {
        assert(line.last() == x.last());
    }
}

/// The scan over one more line.
proof fn lemma_scan_push(ls: Seq<Seq<char>>, l: Seq<char>)
    ensures
        wg_scan(ls.push(l)) == wg_line(wg_scan(ls), l),
{
    assert(ls.push(l).drop_last() =~= ls);
}


/// A `key = value` line.
pub open spec fn kv_text(key: Seq<char>, x: Seq<char>) -> Seq<char> {
    key + " = "@ + x
}

/// A `[name]` line.
pub open spec fn header_text(name: Seq<char>) -> Seq<char> {
    seq!['['] + name + seq![']']
}

/// The lines of a rendered tunnel file.
pub open spec fn tunnel_lines(
    address: Seq<char>,
    listen: u16,
    privk: Seq<char>,
    pubk: Seq<char>,
    k: Seq<char>,
    allowed: Seq<char>,
    endpoint: Seq<char>,
) -> Seq<Seq<char>> {
    let head = seq![
        header_text("Interface"@),
        kv_text("Address"@, address),
        kv_text("ListenPort"@, decimal(listen as nat)),
        kv_text("PrivateKey"@, privk),
        kv_text("Table"@, "off"@),
        Seq::<char>::empty(),
        header_text("Peer"@),
        kv_text("PublicKey"@, pubk),
    ];
    let body = if k.len() > 0 {
        head.push(kv_text("PresharedKey"@, k))
    } else {
        head
    };
    body.push(kv_text("AllowedIPs"@, allowed)).push(kv_text("Endpoint"@, endpoint)).push(
        kv_text("PersistentKeepalive"@, "25"@),
    )
}

/// The peer lines from the allowed IPs on, joined.
spec fn tunnel_tail(allowed: Seq<char>, endpoint: Seq<char>) -> Seq<char> {
    kv_text("AllowedIPs"@, allowed) + seq!['\n'] + (kv_text("Endpoint"@, endpoint) + seq!['\n']
        + kv_text("PersistentKeepalive"@, "25"@))
}

/// The peer lines from the public key on, joined.
spec fn tunnel_peer(pubk: Seq<char>, k: Seq<char>, allowed: Seq<char>, endpoint: Seq<char>) -> Seq<
    char,
> {
    let rest = if k.len() > 0 {
        kv_text("PresharedKey"@, k) + seq!['\n'] + tunnel_tail(allowed, endpoint)
    } else {
        tunnel_tail(allowed, endpoint)
    };
    kv_text("PublicKey"@, pubk) + seq!['\n'] + rest
}

/// The lines of a rendered tunnel file, joined again.
spec fn tunnel_joined(
    address: Seq<char>,
    listen: u16,
    privk: Seq<char>,
    pubk: Seq<char>,
    k: Seq<char>,
    allowed: Seq<char>,
    endpoint: Seq<char>,
) -> Seq<char> {
    let nl = seq!['\n'];
    header_text("Interface"@) + nl + (kv_text("Address"@, address) + nl + (kv_text(
        "ListenPort"@,
        decimal(listen as nat),
    ) + nl + (kv_text("PrivateKey"@, privk) + nl + (kv_text("Table"@, "off"@) + nl + (
    Seq::<char>::empty() + nl + (header_text("Peer"@) + nl + tunnel_peer(
        pubk,
        k,
        allowed,
        endpoint,
    )))))))
}

/// The preshared-key line of a key, left out when the key is empty.
pub open spec fn psk_part(k: Seq<char>) -> Seq<char> {
    if k.len() > 0 {
        wg_psk_line(k)
    } else {
        Seq::empty()
    }
}

/// The rendered text, trimmed, is its lines joined.
#[verifier::spinoff_prover]
#[verifier::rlimit(40)]
proof fn lemma_tunnel_text_joined(
    address: Seq<char>,
    listen: u16,
    privk: Seq<char>,
    pubk: Seq<char>,
    k: Seq<char>,
    allowed: Seq<char>,
    endpoint: Seq<char>,
)
    ensures
        trim(wg_quick_text(address, listen as u64, privk, pubk, psk_part(k), allowed, endpoint))
            == tunnel_joined(address, listen, privk, pubk, k, allowed, endpoint),
        tunnel_joined(address, listen, privk, pubk, k, allowed, endpoint).len() > 0,
        tunnel_joined(address, listen, privk, pubk, k, allowed, endpoint)[0] == '[',
{
    reveal_strlit("[Interface]\nAddress = ");
    reveal_strlit("\nListenPort = ");
    reveal_strlit("\nPrivateKey = ");
    reveal_strlit("\nTable = off\n\n[Peer]\nPublicKey = ");
    reveal_strlit("\n");
    reveal_strlit("AllowedIPs = ");
    reveal_strlit("\nEndpoint = ");
    reveal_strlit("\nPersistentKeepalive = 25\n");
    reveal_strlit("PresharedKey = ");
    reveal_strlit(" = ");
    reveal_strlit("Interface");
    reveal_strlit("Peer");
    reveal_strlit("Address");
    reveal_strlit("ListenPort");
    reveal_strlit("PrivateKey");
    reveal_strlit("Table");
    reveal_strlit("off");
    reveal_strlit("PublicKey");
    reveal_strlit("PresharedKey");
    reveal_strlit("AllowedIPs");
    reveal_strlit("Endpoint");
    reveal_strlit("PersistentKeepalive");
    reveal_strlit("25");
    let text = wg_quick_text(address, listen as u64, privk, pubk, psk_part(k), allowed, endpoint);
    let t = text.drop_last();
    let j = tunnel_joined(address, listen, privk, pubk, k, allowed, endpoint);
    assert(tunnel_tail(allowed, endpoint) =~= "AllowedIPs = "@ + allowed + "\nEndpoint = "@
        + endpoint + "\nPersistentKeepalive = 25"@) by {
        reveal_strlit("\nPersistentKeepalive = 25");
    }
    let nl = seq!['\n'];
    assert(header_text("Interface"@) + nl + "Address"@ + " = "@ =~= "[Interface]\nAddress = "@);
    assert(nl + "ListenPort"@ + " = "@ =~= "\nListenPort = "@);
    assert(nl + "PrivateKey"@ + " = "@ =~= "\nPrivateKey = "@);
    assert(nl + kv_text("Table"@, "off"@) + nl + Seq::<char>::empty() + nl + header_text("Peer"@)
        + nl + "PublicKey"@ + " = "@ =~= "\nTable = off\n\n[Peer]\nPublicKey = "@);
    assert(nl + psk_part(k) + "AllowedIPs = "@ =~= if k.len() > 0 {
        nl + kv_text("PresharedKey"@, k) + nl + "AllowedIPs"@ + " = "@
    } else {
        nl + "AllowedIPs"@ + " = "@
    });
    assert(t =~= j) by {
        reveal_strlit("\nPersistentKeepalive = 25");
    }
    assert(text[0] == '[');
    assert(text.last() == '\n');
    assert(t.last() == '5');
    assert(trim_start(text) == text);
    assert(trim_end(t) == t);
    assert(trim_end(text) == trim_end(t));
}

/// The joined peer lines split back into those lines.
#[verifier::spinoff_prover]
#[verifier::rlimit(40)]
proof fn lemma_peer_lines(pubk: Seq<char>, k: Seq<char>, allowed: Seq<char>, endpoint: Seq<char>)
    requires
        readable_field(pubk),
        readable_field(k),
        readable_field(allowed),
        readable_field(endpoint),
    ensures
        lines(tunnel_peer(pubk, k, allowed, endpoint)) == (if k.len() > 0 {
            seq![
                kv_text("PublicKey"@, pubk),
                kv_text("PresharedKey"@, k),
                kv_text("AllowedIPs"@, allowed),
                kv_text("Endpoint"@, endpoint),
                kv_text("PersistentKeepalive"@, "25"@),
            ]
        } else {
            seq![
                kv_text("PublicKey"@, pubk),
                kv_text("AllowedIPs"@, allowed),
                kv_text("Endpoint"@, endpoint),
                kv_text("PersistentKeepalive"@, "25"@),
            ]
        }),
{
    reveal_strlit("PublicKey");
    reveal_strlit("PresharedKey");
    reveal_strlit("AllowedIPs");
    reveal_strlit("Endpoint");
    reveal_strlit("PersistentKeepalive");
    reveal_strlit("25");
    lemma_trim_padded("25"@);
    let nl = seq!['\n'];
    let l8 = kv_text("PublicKey"@, pubk);
    let lp = kv_text("PresharedKey"@, k);
    let l9 = kv_text("AllowedIPs"@, allowed);
    let l10 = kv_text("Endpoint"@, endpoint);
    let l11 = kv_text("PersistentKeepalive"@, "25"@);
    lemma_kv_line_shape("PublicKey"@, pubk);
    lemma_kv_line_shape("PresharedKey"@, k);
    lemma_kv_line_shape("AllowedIPs"@, allowed);
    lemma_kv_line_shape("Endpoint"@, endpoint);
    lemma_kv_line_shape("PersistentKeepalive"@, "25"@);
    let r10 = l10 + nl + l11;
    let r9 = tunnel_tail(allowed, endpoint);
    let rp = if k.len() > 0 {
        lp + nl + r9
    } else {
        r9
    };
    lemma_lines_one(l11);
    lemma_lines_cons(l10, l11);
    lemma_lines_cons(l9, r10);
    lemma_lines_cons(lp, r9);
    lemma_lines_cons(l8, rp);
    assert(lines(r9) =~= seq![l9, l10, l11]);
    if k.len() > 0 {
        assert(lines(tunnel_peer(pubk, k, allowed, endpoint)) =~= seq![l8, lp, l9, l10, l11]);
    } else {
        assert(lines(tunnel_peer(pubk, k, allowed, endpoint)) =~= seq![l8, l9, l10, l11]);
    }
}

/// The joined lines of a rendered tunnel file split back into those lines.
#[verifier::spinoff_prover]
#[verifier::rlimit(40)]
proof fn lemma_tunnel_lines(
    address: Seq<char>,
    listen: u16,
    privk: Seq<char>,
    pubk: Seq<char>,
    k: Seq<char>,
    allowed: Seq<char>,
    endpoint: Seq<char>,
)
    requires
        readable_field(address),
        readable_field(privk),
        readable_field(pubk),
        readable_field(k),
        readable_field(allowed),
        readable_field(endpoint),
    ensures
        lines(tunnel_joined(address, listen, privk, pubk, k, allowed, endpoint)) == tunnel_lines(
            address,
            listen,
            privk,
            pubk,
            k,
            allowed,
            endpoint,
        ),
{
    reveal_strlit("Interface");
    reveal_strlit("Peer");
    reveal_strlit("Address");
    reveal_strlit("ListenPort");
    reveal_strlit("PrivateKey");
    reveal_strlit("Table");
    reveal_strlit("off");
    let dec = decimal(listen as nat);
    lemma_decimal_reads_back(listen as nat);
    assert(!is_ws(dec[0]) && !is_ws(dec.last()));
    lemma_trim_padded(dec);
    assert(!dec.contains('\n'));
    lemma_trim_padded("off"@);
    let nl = seq!['\n'];
    let l1 = header_text("Interface"@);
    let l2 = kv_text("Address"@, address);
    let l3 = kv_text("ListenPort"@, dec);
    let l4 = kv_text("PrivateKey"@, privk);
    let l5 = kv_text("Table"@, "off"@);
    let l6 = Seq::<char>::empty();
    let l7 = header_text("Peer"@);
    lemma_kv_line_shape("Address"@, address);
    lemma_kv_line_shape("ListenPort"@, dec);
    lemma_kv_line_shape("PrivateKey"@, privk);
    lemma_kv_line_shape("Table"@, "off"@);
    assert(!l1.contains('\n') && l1.last() != '\r');
    assert(!l7.contains('\n') && l7.last() != '\r');
    assert(!l6.contains('\n'));
    let r8 = tunnel_peer(pubk, k, allowed, endpoint);
    let r7 = l7 + nl + r8;
    let r6 = l6 + nl + r7;
    let r5 = l5 + nl + r6;
    let r4 = l4 + nl + r5;
    let r3 = l3 + nl + r4;
    let r2 = l2 + nl + r3;
    lemma_peer_lines(pubk, k, allowed, endpoint);
    lemma_lines_cons(l7, r8);
    lemma_lines_cons(l6, r7);
    lemma_lines_cons(l5, r6);
    lemma_lines_cons(l4, r5);
    lemma_lines_cons(l3, r4);
    lemma_lines_cons(l2, r3);
    lemma_lines_cons(l1, r2);
    assert(lines(tunnel_joined(address, listen, privk, pubk, k, allowed, endpoint)) =~= tunnel_lines(
        address,
        listen,
        privk,
        pubk,
        k,
        allowed,
        endpoint,
    ));
}

/// What a scan of the rendered tunnel lines has recorded.
#[verifier::spinoff_prover]
#[verifier::rlimit(60)]
proof fn lemma_tunnel_scan(
    address: Seq<char>,
    listen: u16,
    privk: Seq<char>,
    pubk: Seq<char>,
    k: Seq<char>,
    allowed: Seq<char>,
    endpoint: Seq<char>,
)
    requires
        readable_field(address),
        readable_field(privk),
        readable_field(pubk),
        readable_field(k),
        readable_field(allowed),
        readable_field(endpoint),
    ensures
        ({
            let st = wg_scan(tunnel_lines(address, listen, privk, pubk, k, allowed, endpoint));
            &&& st.saw_interface
            &&& st.out == (WgImportView {
                address: Some(address),
                listen_port: Some(listen),
                peer_endpoint: Some(endpoint),
                peer_allowed_ips: Some(allowed),
                private_key: Some(privk),
                peer_public_key: Some(pubk),
                preshared_key: if k.len() > 0 {
                    Some(k)
                } else {
                    None
                },
            })
        }),
{
    reveal_strlit("Interface");
    reveal_strlit("Peer");
    reveal_strlit("Address");
    reveal_strlit("ListenPort");
    reveal_strlit("PrivateKey");
    reveal_strlit("Table");
    reveal_strlit("off");
    reveal_strlit("PublicKey");
    reveal_strlit("PresharedKey");
    reveal_strlit("AllowedIPs");
    reveal_strlit("Endpoint");
    reveal_strlit("PersistentKeepalive");
    reveal_strlit("25");
    reveal_strlit("interface");
    reveal_strlit("peer");
    reveal_strlit("address");
    reveal_strlit("listenport");
    reveal_strlit("privatekey");
    reveal_strlit("table");
    reveal_strlit("publickey");
    reveal_strlit("presharedkey");
    reveal_strlit("allowedips");
    reveal_strlit("endpoint");
    reveal_strlit("persistentkeepalive");
    let dec = decimal(listen as nat);
    lemma_decimal_reads_back(listen as nat);
    assert(!is_ws(dec[0]) && !is_ws(dec.last()));
    lemma_trim_padded(dec);
    assert(dec[0] != '+');
    assert(port_value(dec) == Some(listen));
    lemma_trim_padded("off"@);
    lemma_trim_padded("25"@);
    assert(lower("Interface"@) =~= "interface"@);
    assert(lower("Peer"@) =~= "peer"@);
    assert(lower("Address"@) =~= "address"@);
    assert(lower("ListenPort"@) =~= "listenport"@);
    assert(lower("PrivateKey"@) =~= "privatekey"@);
    assert(lower("Table"@) =~= "table"@);
    assert(lower("PublicKey"@) =~= "publickey"@);
    assert(lower("PresharedKey"@) =~= "presharedkey"@);
    assert(lower("AllowedIPs"@) =~= "allowedips"@);
    assert(lower("Endpoint"@) =~= "endpoint"@);
    assert(lower("PersistentKeepalive"@) =~= "persistentkeepalive"@);
    assert("privatekey"@[0] != "listenport"@[0]);
    assert(!"Address"@.contains('='));
    assert(!"ListenPort"@.contains('='));
    assert(!"PrivateKey"@.contains('='));
    assert(!"Table"@.contains('='));
    assert(!"PublicKey"@.contains('='));
    assert(!"PresharedKey"@.contains('='));
    assert(!"AllowedIPs"@.contains('='));
    assert(!"Endpoint"@.contains('='));
    assert(!"PersistentKeepalive"@.contains('='));
    let l1 = header_text("Interface"@);
    let l2 = kv_text("Address"@, address);
    let l3 = kv_text("ListenPort"@, dec);
    let l4 = kv_text("PrivateKey"@, privk);
    let l5 = kv_text("Table"@, "off"@);
    let l6 = Seq::<char>::empty();
    let l7 = header_text("Peer"@);
    let l8 = kv_text("PublicKey"@, pubk);
    let lp = kv_text("PresharedKey"@, k);
    let l9 = kv_text("AllowedIPs"@, allowed);
    let l10 = kv_text("Endpoint"@, endpoint);
    let l11 = kv_text("PersistentKeepalive"@, "25"@);
    let s0 = Seq::<Seq<char>>::empty();
    let s1 = s0.push(l1);
    let s2 = s1.push(l2);
    let s3 = s2.push(l3);
    let s4 = s3.push(l4);
    let s5 = s4.push(l5);
    let s6 = s5.push(l6);
    let s7 = s6.push(l7);
    let s8 = s7.push(l8);
    lemma_scan_push(s0, l1);
    lemma_header_line(wg_scan(s0), "Interface"@);
    lemma_scan_push(s1, l2);
    lemma_kv_line(wg_scan(s1), "Address"@, address);
    lemma_scan_push(s2, l3);
    lemma_kv_line(wg_scan(s2), "ListenPort"@, dec);
    lemma_scan_push(s3, l4);
    lemma_kv_line(wg_scan(s3), "PrivateKey"@, privk);
    lemma_scan_push(s4, l5);
    lemma_kv_line(wg_scan(s4), "Table"@, "off"@);
    lemma_scan_push(s5, l6);
    lemma_scan_push(s6, l7);
    lemma_header_line(wg_scan(s6), "Peer"@);
    lemma_scan_push(s7, l8);
    lemma_kv_line(wg_scan(s7), "PublicKey"@, pubk);
    let head = seq![l1, l2, l3, l4, l5, l6, l7, l8];
    assert(s8 =~= head);
    let body = if k.len() > 0 {
        head.push(lp)
    } else {
        head
    };
    if k.len() > 0 {
        lemma_scan_push(head, lp);
        lemma_kv_line(wg_scan(head), "PresharedKey"@, k);
    }
    lemma_scan_push(body, l9);
    lemma_kv_line(wg_scan(body), "AllowedIPs"@, allowed);
    lemma_scan_push(body.push(l9), l10);
    lemma_kv_line(wg_scan(body.push(l9)), "Endpoint"@, endpoint);
    lemma_scan_push(body.push(l9).push(l10), l11);
    lemma_kv_line(wg_scan(body.push(l9).push(l10)), "PersistentKeepalive"@, "25"@);
}

/// What `parse_wireguard_blob` reads from the tunnel file that
/// `render_wg_quick` writes: when the address, endpoint, allowed IPs and the
/// three keys hold no line break and no whitespace at either end, the paste is
/// not empty and reads back to exactly those values and the listen port; a
/// missing key reads back empty, and an empty preshared key is not there.
pub proof fn lemma_rendered_tunnel_reads_back(cfg: AppConfig, secrets: Secrets)
    requires
        readable_field(cfg.wireguard.address@),
        readable_field(cfg.wireguard.peer_endpoint@),
        readable_field(cfg.wireguard.peer_allowed_ips@),
        readable_field(or_empty(secrets.wireguard_private_key)),
        readable_field(or_empty(secrets.wireguard_peer_public_key)),
        readable_field(or_empty(secrets.wireguard_preshared_key)),
    ensures
        trim(spec_render_wg_quick(cfg, secrets)).len() > 0,
        spec_parse_wg_quick(spec_decode_maybe_base64(trim(spec_render_wg_quick(cfg, secrets))))
            == Ok::<WgImportView, Seq<char>>(
            WgImportView {
                address: Some(cfg.wireguard.address@),
                listen_port: Some(cfg.wireguard.listen_port),
                peer_endpoint: Some(cfg.wireguard.peer_endpoint@),
                peer_allowed_ips: Some(cfg.wireguard.peer_allowed_ips@),
                private_key: Some(or_empty(secrets.wireguard_private_key)),
                peer_public_key: Some(or_empty(secrets.wireguard_peer_public_key)),
                preshared_key: if or_empty(secrets.wireguard_preshared_key).len() > 0 {
                    Some(or_empty(secrets.wireguard_preshared_key))
                } else {
                    None
                },
            },
        ),
{
    let address = cfg.wireguard.address@;
    let listen = cfg.wireguard.listen_port;
    let privk = or_empty(secrets.wireguard_private_key);
    let pubk = or_empty(secrets.wireguard_peer_public_key);
    let k = or_empty(secrets.wireguard_preshared_key);
    let allowed = cfg.wireguard.peer_allowed_ips@;
    let endpoint = cfg.wireguard.peer_endpoint@;
    assert(spec_render_wg_quick(cfg, secrets) == wg_quick_text(
        address,
        listen as u64,
        privk,
        pubk,
        psk_part(k),
        allowed,
        endpoint,
    ));
    lemma_tunnel_text_joined(address, listen, privk, pubk, k, allowed, endpoint);
    let t = tunnel_joined(address, listen, privk, pubk, k, allowed, endpoint);
    lemma_index_of(t, '[', 0);
    assert(spec_decode_maybe_base64(t) == t);
    lemma_tunnel_lines(address, listen, privk, pubk, k, allowed, endpoint);
    lemma_tunnel_scan(address, listen, privk, pubk, k, allowed, endpoint);
}

} // verus!

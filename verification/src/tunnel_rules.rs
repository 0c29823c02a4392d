//! The tunnel rules of the nftables ruleset are absent when the tunnel is
//! off: no line of the ruleset can be mistaken for them.

use vstd::prelude::*;

use crate::config::spec_wan_direct_cidr;
use crate::model::{AppConfig, PortForward};
use crate::net::{ipv4_text, octet0, octet1, octet2, octet3, spec_ipv4_network, spec_parse_ipv4_cidr};
use crate::model::{TPROXY_MARK, TPROXY_PORT};
use crate::render::{
    forward_active, lemma_nft_text_off, nft_dnat_line, nft_dnat_rules, nft_head, nft_mid,
    nft_nat_prerouting, nft_tail, nft_wg_forward, nft_wg_masq, spec_lan_host_ip,
    spec_render_nftables, ui_port,
};
use crate::text::{
    contains, decimal, ends_with, first_occurrence, is_digit, lemma_decimal_reads_back,
    lemma_first_occurrence_bounds, lower, lower_char, occurs_at,
};

verus! {

/// No line of `s` ends with `c`: every line break with a character before
/// it has one other than `c` there.
pub open spec fn no_line_ends_with(s: Seq<char>, c: char) -> bool {
    forall|j: int| 0 < j < s.len() && #[trigger] s[j] == '\n' ==> s[j - 1] != c
}

/// Text without line breaks and quotes, such as an interface name.
pub open spec fn plain_name(s: Seq<char>) -> bool {
    !s.contains('\n') && !s.contains('"')
}

pub proof fn lemma_ends_concat(a: Seq<char>, b: Seq<char>, c: char)
    requires
        no_line_ends_with(a, c),
        no_line_ends_with(b, c),
        a.len() > 0 && b.len() > 0 && b[0] == '\n' ==> a.last() != c,
    ensures
        no_line_ends_with(a + b, c),
{
    let s = a + b;
    assert forall|j: int| 0 < j < s.len() && #[trigger] s[j] == '\n' implies s[j - 1] != c by {
        if j < a.len() {
            assert(s[j] == a[j]);
            assert(s[j - 1] == a[j - 1]);
        } else if j == a.len() {
            assert(s[j] == b[0]);
            assert(s[j - 1] == a.last());
        } else {
            assert(s[j] == b[j - a.len()]);
            assert(s[j - 1] == b[j - 1 - a.len()]);
        }
    }
}

pub proof fn lemma_ends_free(s: Seq<char>, c: char)
    requires
        !s.contains('\n'),
    ensures
        no_line_ends_with(s, c),
        s.len() > 0 ==> s[0] != '\n',
{
    assert forall|j: int| 0 < j < s.len() && #[trigger] s[j] == '\n' implies s[j - 1] != c by {
        assert(s.contains(s[j]));
    }
    if s.len() > 0 {
        assert(s.contains(s[0]));
    }
}

/// An occurrence of a line that ends with `c` in `x + y`, where the lines
/// of `x` before its last one and the lines of `y` do not end with `c`,
/// ends where `x` does.
pub proof fn lemma_occurrence_at_line_end(x: Seq<char>, y: Seq<char>, p: Seq<char>, c: char, i: int)
    requires
        c != '\n',
        p.len() >= 2,
        p.last() == '\n',
        p[p.len() - 2] == c,
        x.len() > 0,
        x.last() == '\n',
        no_line_ends_with(x.drop_last(), c),
        no_line_ends_with(y, c),
        occurs_at(x + y, p, i),
    ensures
        i + p.len() == x.len(),
        ends_with(x, p),
{
    let s = x + y;
    let e = i + p.len() - 1;
    assert(s.subrange(i, i + p.len())[p.len() - 1] == s[e]);
    assert(s.subrange(i, i + p.len())[p.len() - 2] == s[e - 1]);
    assert(s[e] == '\n');
    assert(s[e - 1] == c);
    if e < x.len() - 1 {
        assert(x.drop_last()[e] == s[e]);
        assert(x.drop_last()[e - 1] == s[e - 1]);
    } else if e > x.len() - 1 {
        if e - 1 == x.len() - 1 {
            assert(s[e - 1] == x.last());
        } else {
            assert(s[e] == y[e - x.len()]);
            assert(s[e - 1] == y[e - 1 - x.len()]);
        }
    }
    assert(x.skip(x.len() - p.len()) =~= s.subrange(i, i + p.len()));
}

/// As above, with two places where such a line may end.
pub proof fn lemma_occurrence_at_two_line_ends(
    x1: Seq<char>,
    x2: Seq<char>,
    y: Seq<char>,
    p: Seq<char>,
    c: char,
    i: int,
)
    requires
        c != '\n',
        p.len() >= 2,
        p.last() == '\n',
        p[p.len() - 2] == c,
        x1.len() > 0,
        x1.last() == '\n',
        x2.len() > 0,
        x2.last() == '\n',
        no_line_ends_with(x1.drop_last(), c),
        no_line_ends_with(x2.drop_last(), c),
        no_line_ends_with(y, c),
        occurs_at(x1 + x2 + y, p, i),
    ensures
        ends_with(x1, p) || ends_with(x1 + x2, p),
{
    let s = x1 + x2 + y;
    let e = i + p.len() - 1;
    assert(s.subrange(i, i + p.len())[p.len() - 1] == s[e]);
    assert(s.subrange(i, i + p.len())[p.len() - 2] == s[e - 1]);
    let n1 = x1.len() as int;
    let n2 = n1 + x2.len();
    if e == n1 - 1 {
        assert(x1.skip(n1 - p.len()) =~= s.subrange(i, i + p.len()));
    } else if e == n2 - 1 {
        assert((x1 + x2).skip(n2 - p.len()) =~= s.subrange(i, i + p.len()));
    } else if e < n1 - 1 {
        assert(x1.drop_last()[e] == s[e]);
        assert(x1.drop_last()[e - 1] == s[e - 1]);
    } else if e - 1 == n1 - 1 {
        assert(s[e - 1] == x1.last());
    } else if e < n2 - 1 {
        assert(x2.drop_last()[e - n1] == s[e]);
        assert(x2.drop_last()[e - 1 - n1] == s[e - 1]);
    } else if e - 1 == n2 - 1 {
        assert(s[e - 1] == x2.last());
    } else {
        assert(s[e] == y[e - n2]);
        assert(s[e - 1] == y[e - 1 - n2]);
    }
}

/// Two texts that end alike, each a quoted name followed by the same rest,
/// name the same thing when neither name holds a quote.
pub proof fn lemma_quoted_tail(x: Seq<char>, a: Seq<char>, pre: Seq<char>, b: Seq<char>, post: Seq<char>)
    requires
        !a.contains('"'),
        !b.contains('"'),
        ends_with(x + seq!['"'] + a + post, pre + seq!['"'] + b + post),
    ensures
        a == b,
{
    let s = x + seq!['"'] + a + post;
    let p = pre + seq!['"'] + b + post;
    let n = s.len() as int;
    let m = p.len() as int;
    let t = post.len() as int;
    assert forall|k: int| 0 <= k < m implies #[trigger] p[m - 1 - k] == s[n - 1 - k] by {
        assert(s.skip(n - m)[m - 1 - k] == s[n - 1 - k]);
    }
    if a.len() < b.len() {
        let k = t + a.len();
        assert(p[m - 1 - k] == s[n - 1 - k]);
        assert(s[n - 1 - k] == '"');
        assert(p[m - 1 - k] == b[b.len() - 1 - a.len()]);
        assert(b.contains(b[b.len() - 1 - a.len()]));
    } else if a.len() > b.len() {
        let k = t + b.len();
        assert(p[m - 1 - k] == s[n - 1 - k]);
        assert(p[m - 1 - k] == '"');
        assert(s[n - 1 - k] == a[a.len() - 1 - b.len()]);
        assert(a.contains(a[a.len() - 1 - b.len()]));
    } else {
        assert forall|j: int| 0 <= j < a.len() implies a[j] == b[j] by {
            let k = t + a.len() - 1 - j;
            assert(p[m - 1 - k] == s[n - 1 - k]);
            assert(s[n - 1 - k] == a[j]);
            assert(p[m - 1 - k] == b[j]);
        }
        assert(a =~= b);
    }
}

/// A decimal rendering is a non-empty run of digits.
proof fn lemma_decimal_plain(n: nat)
    ensures
        !decimal(n).contains('\n'),
        decimal(n).len() > 0,
        is_digit(decimal(n).last()),
{
    lemma_decimal_reads_back(n);
    assert(is_digit(decimal(n)[decimal(n).len() - 1]));
    if decimal(n).contains('\n') {
        let j = choose|j: int| 0 <= j < decimal(n).len() && decimal(n)[j] == '\n';
        assert(is_digit(decimal(n)[j]));
    }
}

/// How the ruleset head ends: the LAN-to-WAN forward's `oifname` and the
/// WAN name, then `" accept` and a line break.
pub open spec fn acc_form(z: Seq<char>, wan: Seq<char>) -> Seq<char> {
    z + "\" oifname \""@ + wan + "\" accept\n"@
}

/// No line of the ruleset head but its last ends with `e` or `t`.
#[verifier::spinoff_prover]
#[verifier::rlimit(60)]
proof fn lemma_head_ends(
    table: Seq<char>,
    lan: Seq<char>,
    lan_ip: Seq<char>,
    ssh: u64,
    ui: u64,
    wan_cidr: Seq<char>,
    wan: Seq<char>,
    tproxy: u64,
    mark: u64,
    c: char,
) -> (z: Seq<char>)
    requires
        !table.contains('\n'),
        !lan.contains('\n'),
        !lan_ip.contains('\n'),
        !wan_cidr.contains('\n'),
        !wan.contains('\n'),
        c == 'e' || c == 't',
    ensures
        no_line_ends_with(nft_head(table, lan, lan_ip, ssh, ui, wan_cidr, wan, tproxy, mark).drop_last(), c),
        nft_head(table, lan, lan_ip, ssh, ui, wan_cidr, wan, tproxy, mark).len() > 1,
        nft_head(table, lan, lan_ip, ssh, ui, wan_cidr, wan, tproxy, mark).last() == '\n',
        nft_head(table, lan, lan_ip, ssh, ui, wan_cidr, wan, tproxy, mark).drop_last().last() == 't',
        nft_head(table, lan, lan_ip, ssh, ui, wan_cidr, wan, tproxy, mark) == acc_form(z, wan),
{
    let acc0 = Seq::<char>::empty();
    assert(no_line_ends_with("#!/usr/sbin/nft -f\n# Coexistence: policy accept. Do not take over host input filtering.\n# Host SSH/UI: only this box's LAN/loopback ports bypass tproxy (not every dport 22).\ntable inet "@, c) && "#!/usr/sbin/nft -f\n# Coexistence: policy accept. Do not take over host input filtering.\n# Host SSH/UI: only this box's LAN/loopback ports bypass tproxy (not every dport 22).\ntable inet "@.len() > 0 && "#!/usr/sbin/nft -f\n# Coexistence: policy accept. Do not take over host input filtering.\n# Host SSH/UI: only this box's LAN/loopback ports bypass tproxy (not every dport 22).\ntable inet "@[0] != '\n') by {
        reveal_strlit("#!/usr/sbin/nft -f\n# Coexistence: policy accept. Do not take over host input filtering.\n# Host SSH/UI: only this box's LAN/loopback ports bypass tproxy (not every dport 22).\ntable inet ");
    }
    lemma_ends_concat(acc0, "#!/usr/sbin/nft -f\n# Coexistence: policy accept. Do not take over host input filtering.\n# Host SSH/UI: only this box's LAN/loopback ports bypass tproxy (not every dport 22).\ntable inet "@, c);
    let acc1 = acc0 + "#!/usr/sbin/nft -f\n# Coexistence: policy accept. Do not take over host input filtering.\n# Host SSH/UI: only this box's LAN/loopback ports bypass tproxy (not every dport 22).\ntable inet "@;
    lemma_ends_free(table, c);
    lemma_ends_concat(acc1, table, c);
    let acc2 = acc1 + table;
    assert(no_line_ends_with(" {\n  chain prerouting {\n    type filter hook prerouting priority mangle; policy accept;\n    iifname != \""@, c) && " {\n  chain prerouting {\n    type filter hook prerouting priority mangle; policy accept;\n    iifname != \""@.len() > 0 && " {\n  chain prerouting {\n    type filter hook prerouting priority mangle; policy accept;\n    iifname != \""@[0] != '\n') by {
        reveal_strlit(" {\n  chain prerouting {\n    type filter hook prerouting priority mangle; policy accept;\n    iifname != \"");
    }
    lemma_ends_concat(acc2, " {\n  chain prerouting {\n    type filter hook prerouting priority mangle; policy accept;\n    iifname != \""@, c);
    let acc3 = acc2 + " {\n  chain prerouting {\n    type filter hook prerouting priority mangle; policy accept;\n    iifname != \""@;
    lemma_ends_free(lan, c);
    lemma_ends_concat(acc3, lan, c);
    let acc4 = acc3 + lan;
    assert(no_line_ends_with("\" return\n    meta nfproto ipv6 drop\n    udp dport { 67, 68 } return\n    udp dport 53 return\n    tcp dport 53 return\n    ip daddr { "@, c) && "\" return\n    meta nfproto ipv6 drop\n    udp dport { 67, 68 } return\n    udp dport 53 return\n    tcp dport 53 return\n    ip daddr { "@.len() > 0 && "\" return\n    meta nfproto ipv6 drop\n    udp dport { 67, 68 } return\n    udp dport 53 return\n    tcp dport 53 return\n    ip daddr { "@[0] != '\n') by {
        reveal_strlit("\" return\n    meta nfproto ipv6 drop\n    udp dport { 67, 68 } return\n    udp dport 53 return\n    tcp dport 53 return\n    ip daddr { ");
    }
    lemma_ends_concat(acc4, "\" return\n    meta nfproto ipv6 drop\n    udp dport { 67, 68 } return\n    udp dport 53 return\n    tcp dport 53 return\n    ip daddr { "@, c);
    let acc5 = acc4 + "\" return\n    meta nfproto ipv6 drop\n    udp dport { 67, 68 } return\n    udp dport 53 return\n    tcp dport 53 return\n    ip daddr { "@;
    lemma_ends_free(lan_ip, c);
    lemma_ends_concat(acc5, lan_ip, c);
    let acc6 = acc5 + lan_ip;
    assert(no_line_ends_with(", 127.0.0.1 } tcp dport 53 return\n    ip daddr { "@, c) && ", 127.0.0.1 } tcp dport 53 return\n    ip daddr { "@.len() > 0 && ", 127.0.0.1 } tcp dport 53 return\n    ip daddr { "@[0] != '\n') by {
        reveal_strlit(", 127.0.0.1 } tcp dport 53 return\n    ip daddr { ");
    }
    lemma_ends_concat(acc6, ", 127.0.0.1 } tcp dport 53 return\n    ip daddr { "@, c);
    let acc7 = acc6 + ", 127.0.0.1 } tcp dport 53 return\n    ip daddr { "@;
    lemma_ends_free(lan_ip, c);
    lemma_ends_concat(acc7, lan_ip, c);
    let acc8 = acc7 + lan_ip;
    assert(no_line_ends_with(", 127.0.0.1 } udp dport 53 return\n    ip daddr { "@, c) && ", 127.0.0.1 } udp dport 53 return\n    ip daddr { "@.len() > 0 && ", 127.0.0.1 } udp dport 53 return\n    ip daddr { "@[0] != '\n') by {
        reveal_strlit(", 127.0.0.1 } udp dport 53 return\n    ip daddr { ");
    }
    lemma_ends_concat(acc8, ", 127.0.0.1 } udp dport 53 return\n    ip daddr { "@, c);
    let acc9 = acc8 + ", 127.0.0.1 } udp dport 53 return\n    ip daddr { "@;
    lemma_ends_free(lan_ip, c);
    lemma_ends_concat(acc9, lan_ip, c);
    let acc10 = acc9 + lan_ip;
    assert(no_line_ends_with(", 127.0.0.1 } tcp dport { "@, c) && ", 127.0.0.1 } tcp dport { "@.len() > 0 && ", 127.0.0.1 } tcp dport { "@[0] != '\n') by {
        reveal_strlit(", 127.0.0.1 } tcp dport { ");
    }
    lemma_ends_concat(acc10, ", 127.0.0.1 } tcp dport { "@, c);
    let acc11 = acc10 + ", 127.0.0.1 } tcp dport { "@;
    lemma_decimal_plain(ssh as nat);
    lemma_ends_free(decimal(ssh as nat), c);
    lemma_ends_concat(acc11, decimal(ssh as nat), c);
    let acc12 = acc11 + decimal(ssh as nat);
    assert(no_line_ends_with(", "@, c) && ", "@.len() > 0 && ", "@[0] != '\n') by {
        reveal_strlit(", ");
    }
    lemma_ends_concat(acc12, ", "@, c);
    let acc13 = acc12 + ", "@;
    lemma_decimal_plain(ui as nat);
    lemma_ends_free(decimal(ui as nat), c);
    lemma_ends_concat(acc13, decimal(ui as nat), c);
    let acc14 = acc13 + decimal(ui as nat);
    assert(no_line_ends_with(" } return\n    ip daddr "@, c) && " } return\n    ip daddr "@.len() > 0 && " } return\n    ip daddr "@[0] != '\n') by {
        reveal_strlit(" } return\n    ip daddr ");
    }
    lemma_ends_concat(acc14, " } return\n    ip daddr "@, c);
    let acc15 = acc14 + " } return\n    ip daddr "@;
    lemma_ends_free(wan_cidr, c);
    lemma_ends_concat(acc15, wan_cidr, c);
    let acc16 = acc15 + wan_cidr;
    assert(no_line_ends_with(" return\n    ip daddr { 10.0.0.0/8, 172.16.0.0/12, 192.168.0.0/16, 169.254.0.0/16, 127.0.0.0/8 } return\n    meta l4proto { tcp, udp } tproxy ip to 127.0.0.1:"@, c) && " return\n    ip daddr { 10.0.0.0/8, 172.16.0.0/12, 192.168.0.0/16, 169.254.0.0/16, 127.0.0.0/8 } return\n    meta l4proto { tcp, udp } tproxy ip to 127.0.0.1:"@.len() > 0 && " return\n    ip daddr { 10.0.0.0/8, 172.16.0.0/12, 192.168.0.0/16, 169.254.0.0/16, 127.0.0.0/8 } return\n    meta l4proto { tcp, udp } tproxy ip to 127.0.0.1:"@[0] != '\n') by {
        reveal_strlit(" return\n    ip daddr { 10.0.0.0/8, 172.16.0.0/12, 192.168.0.0/16, 169.254.0.0/16, 127.0.0.0/8 } return\n    meta l4proto { tcp, udp } tproxy ip to 127.0.0.1:");
    }
    lemma_ends_concat(acc16, " return\n    ip daddr { 10.0.0.0/8, 172.16.0.0/12, 192.168.0.0/16, 169.254.0.0/16, 127.0.0.0/8 } return\n    meta l4proto { tcp, udp } tproxy ip to 127.0.0.1:"@, c);
    let acc17 = acc16 + " return\n    ip daddr { 10.0.0.0/8, 172.16.0.0/12, 192.168.0.0/16, 169.254.0.0/16, 127.0.0.0/8 } return\n    meta l4proto { tcp, udp } tproxy ip to 127.0.0.1:"@;
    lemma_decimal_plain(tproxy as nat);
    lemma_ends_free(decimal(tproxy as nat), c);
    lemma_ends_concat(acc17, decimal(tproxy as nat), c);
    let acc18 = acc17 + decimal(tproxy as nat);
    assert(no_line_ends_with(" meta mark set "@, c) && " meta mark set "@.len() > 0 && " meta mark set "@[0] != '\n') by {
        reveal_strlit(" meta mark set ");
    }
    lemma_ends_concat(acc18, " meta mark set "@, c);
    let acc19 = acc18 + " meta mark set "@;
    lemma_decimal_plain(mark as nat);
    lemma_ends_free(decimal(mark as nat), c);
    lemma_ends_concat(acc19, decimal(mark as nat), c);
    let acc20 = acc19 + decimal(mark as nat);
    assert(no_line_ends_with("\n  }\n  chain output {\n    type route hook output priority mangle; policy accept;\n    tcp sport { "@, c)) by {
        reveal_strlit("\n  }\n  chain output {\n    type route hook output priority mangle; policy accept;\n    tcp sport { ");
    }
    assert(acc20.last() == (decimal(mark as nat)).last());
    lemma_ends_concat(acc20, "\n  }\n  chain output {\n    type route hook output priority mangle; policy accept;\n    tcp sport { "@, c);
    let acc21 = acc20 + "\n  }\n  chain output {\n    type route hook output priority mangle; policy accept;\n    tcp sport { "@;
    lemma_decimal_plain(ssh as nat);
    lemma_ends_free(decimal(ssh as nat), c);
    lemma_ends_concat(acc21, decimal(ssh as nat), c);
    let acc22 = acc21 + decimal(ssh as nat);
    assert(no_line_ends_with(", "@, c) && ", "@.len() > 0 && ", "@[0] != '\n') by {
        reveal_strlit(", ");
    }
    lemma_ends_concat(acc22, ", "@, c);
    let acc23 = acc22 + ", "@;
    lemma_decimal_plain(ui as nat);
    lemma_ends_free(decimal(ui as nat), c);
    lemma_ends_concat(acc23, decimal(ui as nat), c);
    let acc24 = acc23 + decimal(ui as nat);
    assert(no_line_ends_with(" } return\n    tcp dport { "@, c) && " } return\n    tcp dport { "@.len() > 0 && " } return\n    tcp dport { "@[0] != '\n') by {
        reveal_strlit(" } return\n    tcp dport { ");
    }
    lemma_ends_concat(acc24, " } return\n    tcp dport { "@, c);
    let acc25 = acc24 + " } return\n    tcp dport { "@;
    lemma_decimal_plain(ssh as nat);
    lemma_ends_free(decimal(ssh as nat), c);
    lemma_ends_concat(acc25, decimal(ssh as nat), c);
    let acc26 = acc25 + decimal(ssh as nat);
    assert(no_line_ends_with(", "@, c) && ", "@.len() > 0 && ", "@[0] != '\n') by {
        reveal_strlit(", ");
    }
    lemma_ends_concat(acc26, ", "@, c);
    let acc27 = acc26 + ", "@;
    lemma_decimal_plain(ui as nat);
    lemma_ends_free(decimal(ui as nat), c);
    lemma_ends_concat(acc27, decimal(ui as nat), c);
    let acc28 = acc27 + decimal(ui as nat);
    assert(no_line_ends_with(" } return\n  }\n  chain forward {\n    type filter hook forward priority 0; policy accept;\n    iifname \""@, c) && " } return\n  }\n  chain forward {\n    type filter hook forward priority 0; policy accept;\n    iifname \""@.len() > 0 && " } return\n  }\n  chain forward {\n    type filter hook forward priority 0; policy accept;\n    iifname \""@[0] != '\n') by {
        reveal_strlit(" } return\n  }\n  chain forward {\n    type filter hook forward priority 0; policy accept;\n    iifname \"");
    }
    lemma_ends_concat(acc28, " } return\n  }\n  chain forward {\n    type filter hook forward priority 0; policy accept;\n    iifname \""@, c);
    let acc29 = acc28 + " } return\n  }\n  chain forward {\n    type filter hook forward priority 0; policy accept;\n    iifname \""@;
    lemma_ends_free(lan, c);
    lemma_ends_concat(acc29, lan, c);
    let acc30 = acc29 + lan;
    assert(no_line_ends_with("\" oifname \""@, c) && "\" oifname \""@.len() > 0 && "\" oifname \""@[0] != '\n') by {
        reveal_strlit("\" oifname \"");
    }
    lemma_ends_concat(acc30, "\" oifname \""@, c);
    let acc31 = acc30 + "\" oifname \""@;
    lemma_ends_free(wan, c);
    lemma_ends_concat(acc31, wan, c);
    let acc32 = acc31 + wan;
    assert(no_line_ends_with("\" accept"@, c) && "\" accept"@.len() > 0 && "\" accept"@[0] != '\n') by {
        reveal_strlit("\" accept");
    }
    lemma_ends_concat(acc32, "\" accept"@, c);
    let acc33 = acc32 + "\" accept"@;
    assert(nft_head(table, lan, lan_ip, ssh, ui, wan_cidr, wan, tproxy, mark).len() > 1 && nft_head(table, lan, lan_ip, ssh, ui, wan_cidr, wan, tproxy, mark).drop_last() =~= acc33 && nft_head(table, lan, lan_ip, ssh, ui, wan_cidr, wan, tproxy, mark).last() == '\n' && acc33.last() == 't') by {
        reveal_strlit("\" accept\n");
        reveal_strlit("\" accept");
    }
    assert(nft_head(table, lan, lan_ip, ssh, ui, wan_cidr, wan, tproxy, mark) == acc_form(acc30, wan));
    acc30
}

/// No line of the middle part but its last ends with `e`.
#[verifier::spinoff_prover]
proof fn lemma_mid_ends_e(wan: Seq<char>, lan: Seq<char>, c: char)
    requires
        !lan.contains('\n'),
        !wan.contains('\n'),
        c == 'e',
    ensures
        no_line_ends_with(nft_mid(wan, lan).drop_last(), c),
        nft_mid(wan, lan).len() > 1,
        nft_mid(wan, lan).last() == '\n',
        nft_mid(wan, lan).drop_last().last() == 'e',
{
    let acc0 = Seq::<char>::empty();
    assert(no_line_ends_with("    iifname \""@, c) && "    iifname \""@.len() > 0 && "    iifname \""@[0] != '\n') by {
        reveal_strlit("    iifname \"");
    }
    lemma_ends_concat(acc0, "    iifname \""@, c);
    let acc1 = acc0 + "    iifname \""@;
    lemma_ends_free(wan, c);
    lemma_ends_concat(acc1, wan, c);
    let acc2 = acc1 + wan;
    assert(no_line_ends_with("\" oifname \""@, c) && "\" oifname \""@.len() > 0 && "\" oifname \""@[0] != '\n') by {
        reveal_strlit("\" oifname \"");
    }
    lemma_ends_concat(acc2, "\" oifname \""@, c);
    let acc3 = acc2 + "\" oifname \""@;
    lemma_ends_free(lan, c);
    lemma_ends_concat(acc3, lan, c);
    let acc4 = acc3 + lan;
    assert(no_line_ends_with("\" accept\n  }\n  chain postrouting {\n    type nat hook postrouting priority srcnat; policy accept;\n    oifname \""@, c) && "\" accept\n  }\n  chain postrouting {\n    type nat hook postrouting priority srcnat; policy accept;\n    oifname \""@.len() > 0 && "\" accept\n  }\n  chain postrouting {\n    type nat hook postrouting priority srcnat; policy accept;\n    oifname \""@[0] != '\n') by {
        reveal_strlit("\" accept\n  }\n  chain postrouting {\n    type nat hook postrouting priority srcnat; policy accept;\n    oifname \"");
    }
    lemma_ends_concat(acc4, "\" accept\n  }\n  chain postrouting {\n    type nat hook postrouting priority srcnat; policy accept;\n    oifname \""@, c);
    let acc5 = acc4 + "\" accept\n  }\n  chain postrouting {\n    type nat hook postrouting priority srcnat; policy accept;\n    oifname \""@;
    lemma_ends_free(wan, c);
    lemma_ends_concat(acc5, wan, c);
    let acc6 = acc5 + wan;
    assert(no_line_ends_with("\" masquerade"@, c) && "\" masquerade"@.len() > 0 && "\" masquerade"@[0] != '\n') by {
        reveal_strlit("\" masquerade");
    }
    lemma_ends_concat(acc6, "\" masquerade"@, c);
    let acc7 = acc6 + "\" masquerade"@;
    assert(nft_mid(wan, lan).len() > 1 && nft_mid(wan, lan).drop_last() =~= acc7 && nft_mid(wan, lan).last() == '\n' && acc7.last() == 'e') by {
        reveal_strlit("\" masquerade\n");
        reveal_strlit("\" masquerade");
    }
}

/// No line of a DNAT rule ends with `e` or `t`.
#[verifier::spinoff_prover]
proof fn lemma_dnat_line_ends(wan: Seq<char>, proto: Seq<char>, wp: u64, lip: Seq<char>, lp: u64, c: char)
    requires
        !wan.contains('\n'),
        !proto.contains('\n'),
        !lip.contains('\n'),
        c == 'e' || c == 't',
    ensures
        no_line_ends_with(nft_dnat_line(wan, proto, wp, lip, lp), c),
        nft_dnat_line(wan, proto, wp, lip, lp)[0] != '\n',
{
    let acc0 = Seq::<char>::empty();
    assert(no_line_ends_with("    iifname \""@, c) && "    iifname \""@.len() > 0 && "    iifname \""@[0] != '\n') by {
        reveal_strlit("    iifname \"");
    }
    lemma_ends_concat(acc0, "    iifname \""@, c);
    let acc1 = acc0 + "    iifname \""@;
    lemma_ends_free(wan, c);
    lemma_ends_concat(acc1, wan, c);
    let acc2 = acc1 + wan;
    assert(no_line_ends_with("\" ip daddr 0.0.0.0/0 "@, c) && "\" ip daddr 0.0.0.0/0 "@.len() > 0 && "\" ip daddr 0.0.0.0/0 "@[0] != '\n') by {
        reveal_strlit("\" ip daddr 0.0.0.0/0 ");
    }
    lemma_ends_concat(acc2, "\" ip daddr 0.0.0.0/0 "@, c);
    let acc3 = acc2 + "\" ip daddr 0.0.0.0/0 "@;
    lemma_ends_free(proto, c);
    lemma_ends_concat(acc3, proto, c);
    let acc4 = acc3 + proto;
    assert(no_line_ends_with(" dport "@, c) && " dport "@.len() > 0 && " dport "@[0] != '\n') by {
        reveal_strlit(" dport ");
    }
    lemma_ends_concat(acc4, " dport "@, c);
    let acc5 = acc4 + " dport "@;
    lemma_decimal_plain(wp as nat);
    lemma_ends_free(decimal(wp as nat), c);
    lemma_ends_concat(acc5, decimal(wp as nat), c);
    let acc6 = acc5 + decimal(wp as nat);
    assert(no_line_ends_with(" dnat ip to "@, c) && " dnat ip to "@.len() > 0 && " dnat ip to "@[0] != '\n') by {
        reveal_strlit(" dnat ip to ");
    }
    lemma_ends_concat(acc6, " dnat ip to "@, c);
    let acc7 = acc6 + " dnat ip to "@;
    lemma_ends_free(lip, c);
    lemma_ends_concat(acc7, lip, c);
    let acc8 = acc7 + lip;
    assert(no_line_ends_with(":"@, c) && ":"@.len() > 0 && ":"@[0] != '\n') by {
        reveal_strlit(":");
    }
    lemma_ends_concat(acc8, ":"@, c);
    let acc9 = acc8 + ":"@;
    lemma_decimal_plain(lp as nat);
    lemma_ends_free(decimal(lp as nat), c);
    lemma_ends_concat(acc9, decimal(lp as nat), c);
    let acc10 = acc9 + decimal(lp as nat);
    assert(no_line_ends_with("\n"@, c)) by {
        reveal_strlit("\n");
    }
    assert(acc10.last() == (decimal(lp as nat)).last());
    lemma_ends_concat(acc10, "\n"@, c);
    let acc11 = acc10 + "\n"@;
    assert(nft_dnat_line(wan, proto, wp, lip, lp) == acc11);
}

/// The WAN-to-LAN forward rule.
pub open spec fn nft_wan_lan_forward(wan: Seq<char>, lan: Seq<char>) -> Seq<char> {
    Seq::<char>::empty()
        + "    iifname \""@
        + wan
        + "\" oifname \""@
        + lan
        + "\" accept\n"@
}

/// The end of the forward chain and the postrouting chain up to the WAN
/// masquerade.
pub open spec fn nft_postrouting_head(wan: Seq<char>) -> Seq<char> {
    Seq::<char>::empty()
        + "  }\n  chain postrouting {\n    type nat hook postrouting priority srcnat; policy accept;\n    oifname \""@
        + wan
        + "\" masquerade\n"@
}

/// No line of the WAN-to-LAN forward but its last ends with `t`.
#[verifier::spinoff_prover]
proof fn lemma_wan_lan_forward_ends(wan: Seq<char>, lan: Seq<char>, c: char)
    requires
        !lan.contains('\n'),
        !wan.contains('\n'),
        c == 't',
    ensures
        no_line_ends_with(nft_wan_lan_forward(wan, lan).drop_last(), c),
        nft_wan_lan_forward(wan, lan).len() > 1,
        nft_wan_lan_forward(wan, lan).last() == '\n',
        nft_wan_lan_forward(wan, lan).drop_last().last() == 't',
{
    let acc0 = Seq::<char>::empty();
    assert(no_line_ends_with("    iifname \""@, c) && "    iifname \""@.len() > 0 && "    iifname \""@[0] != '\n') by {
        reveal_strlit("    iifname \"");
    }
    lemma_ends_concat(acc0, "    iifname \""@, c);
    let acc1 = acc0 + "    iifname \""@;
    lemma_ends_free(wan, c);
    lemma_ends_concat(acc1, wan, c);
    let acc2 = acc1 + wan;
    assert(no_line_ends_with("\" oifname \""@, c) && "\" oifname \""@.len() > 0 && "\" oifname \""@[0] != '\n') by {
        reveal_strlit("\" oifname \"");
    }
    lemma_ends_concat(acc2, "\" oifname \""@, c);
    let acc3 = acc2 + "\" oifname \""@;
    lemma_ends_free(lan, c);
    lemma_ends_concat(acc3, lan, c);
    let acc4 = acc3 + lan;
    assert(no_line_ends_with("\" accept"@, c) && "\" accept"@.len() > 0 && "\" accept"@[0] != '\n') by {
        reveal_strlit("\" accept");
    }
    lemma_ends_concat(acc4, "\" accept"@, c);
    let acc5 = acc4 + "\" accept"@;
    assert(nft_wan_lan_forward(wan, lan).len() > 1 && nft_wan_lan_forward(wan, lan).drop_last() =~= acc5 && nft_wan_lan_forward(wan, lan).last() == '\n' && acc5.last() == 't') by {
        reveal_strlit("\" accept\n");
        reveal_strlit("\" accept");
    }
}

/// No line of the postrouting part ends with `t`.
#[verifier::spinoff_prover]
proof fn lemma_postrouting_head_ends(wan: Seq<char>, c: char)
    requires
        !wan.contains('\n'),
        c == 't',
    ensures
        no_line_ends_with(nft_postrouting_head(wan), c),
        nft_postrouting_head(wan).len() > 0,
        nft_postrouting_head(wan)[0] != '\n',
{
    let acc0 = Seq::<char>::empty();
    assert(no_line_ends_with("  }\n  chain postrouting {\n    type nat hook postrouting priority srcnat; policy accept;\n    oifname \""@, c) && "  }\n  chain postrouting {\n    type nat hook postrouting priority srcnat; policy accept;\n    oifname \""@.len() > 0 && "  }\n  chain postrouting {\n    type nat hook postrouting priority srcnat; policy accept;\n    oifname \""@[0] != '\n') by {
        reveal_strlit("  }\n  chain postrouting {\n    type nat hook postrouting priority srcnat; policy accept;\n    oifname \"");
    }
    lemma_ends_concat(acc0, "  }\n  chain postrouting {\n    type nat hook postrouting priority srcnat; policy accept;\n    oifname \""@, c);
    let acc1 = acc0 + "  }\n  chain postrouting {\n    type nat hook postrouting priority srcnat; policy accept;\n    oifname \""@;
    lemma_ends_free(wan, c);
    lemma_ends_concat(acc1, wan, c);
    let acc2 = acc1 + wan;
    assert(no_line_ends_with("\" masquerade\n"@, c) && "\" masquerade\n"@.len() > 0 && "\" masquerade\n"@[0] != '\n') by {
        reveal_strlit("\" masquerade\n");
    }
    lemma_ends_concat(acc2, "\" masquerade\n"@, c);
    let acc3 = acc2 + "\" masquerade\n"@;
    assert(nft_postrouting_head(wan) == acc3);
}

/// No line of the DNAT chain ends with `e` or `t`.
#[verifier::spinoff_prover]
proof fn lemma_nat_prerouting_ends(lan: Seq<char>, lan_ip: Seq<char>, dnat_rules: Seq<char>, c: char)
    requires
        !lan.contains('\n'),
        !lan_ip.contains('\n'),
        no_line_ends_with(dnat_rules, c),
        dnat_rules.len() > 0 ==> dnat_rules[0] != '\n',
        c == 'e' || c == 't',
    ensures
        no_line_ends_with(nft_nat_prerouting(lan, lan_ip, dnat_rules), c),
        nft_nat_prerouting(lan, lan_ip, dnat_rules).len() > 0,
        nft_nat_prerouting(lan, lan_ip, dnat_rules)[0] != '\n',
{
    let acc0 = Seq::<char>::empty();
    assert(no_line_ends_with("  chain prerouting_nat {\n    type nat hook prerouting priority dstnat; policy accept;\n    iifname \""@, c) && "  chain prerouting_nat {\n    type nat hook prerouting priority dstnat; policy accept;\n    iifname \""@.len() > 0 && "  chain prerouting_nat {\n    type nat hook prerouting priority dstnat; policy accept;\n    iifname \""@[0] != '\n') by {
        reveal_strlit("  chain prerouting_nat {\n    type nat hook prerouting priority dstnat; policy accept;\n    iifname \"");
    }
    lemma_ends_concat(acc0, "  chain prerouting_nat {\n    type nat hook prerouting priority dstnat; policy accept;\n    iifname \""@, c);
    let acc1 = acc0 + "  chain prerouting_nat {\n    type nat hook prerouting priority dstnat; policy accept;\n    iifname \""@;
    lemma_ends_free(lan, c);
    lemma_ends_concat(acc1, lan, c);
    let acc2 = acc1 + lan;
    assert(no_line_ends_with("\" udp dport 53 dnat ip to "@, c) && "\" udp dport 53 dnat ip to "@.len() > 0 && "\" udp dport 53 dnat ip to "@[0] != '\n') by {
        reveal_strlit("\" udp dport 53 dnat ip to ");
    }
    lemma_ends_concat(acc2, "\" udp dport 53 dnat ip to "@, c);
    let acc3 = acc2 + "\" udp dport 53 dnat ip to "@;
    lemma_ends_free(lan_ip, c);
    lemma_ends_concat(acc3, lan_ip, c);
    let acc4 = acc3 + lan_ip;
    assert(no_line_ends_with(":53\n    iifname \""@, c) && ":53\n    iifname \""@.len() > 0 && ":53\n    iifname \""@[0] != '\n') by {
        reveal_strlit(":53\n    iifname \"");
    }
    lemma_ends_concat(acc4, ":53\n    iifname \""@, c);
    let acc5 = acc4 + ":53\n    iifname \""@;
    lemma_ends_free(lan, c);
    lemma_ends_concat(acc5, lan, c);
    let acc6 = acc5 + lan;
    assert(no_line_ends_with("\" tcp dport 53 dnat ip to "@, c) && "\" tcp dport 53 dnat ip to "@.len() > 0 && "\" tcp dport 53 dnat ip to "@[0] != '\n') by {
        reveal_strlit("\" tcp dport 53 dnat ip to ");
    }
    lemma_ends_concat(acc6, "\" tcp dport 53 dnat ip to "@, c);
    let acc7 = acc6 + "\" tcp dport 53 dnat ip to "@;
    lemma_ends_free(lan_ip, c);
    lemma_ends_concat(acc7, lan_ip, c);
    let acc8 = acc7 + lan_ip;
    assert(no_line_ends_with(":53\n"@, c) && ":53\n"@.len() > 0 && ":53\n"@[0] != '\n') by {
        reveal_strlit(":53\n");
    }
    lemma_ends_concat(acc8, ":53\n"@, c);
    let acc9 = acc8 + ":53\n"@;
    lemma_ends_concat(acc9, dnat_rules, c);
    let acc10 = acc9 + dnat_rules;
    assert(no_line_ends_with("  }\n"@, c) && "  }\n"@.len() > 0 && "  }\n"@[0] != '\n') by {
        reveal_strlit("  }\n");
    }
    lemma_ends_concat(acc10, "  }\n"@, c);
    let acc11 = acc10 + "  }\n"@;
    assert(nft_nat_prerouting(lan, lan_ip, dnat_rules) == acc11);
}

/// No line of the ruleset tail ends with `e` or `t`.
#[verifier::spinoff_prover]
proof fn lemma_tail_ends(nat_prerouting: Seq<char>, c: char)
    requires
        no_line_ends_with(nat_prerouting, c),
        nat_prerouting.len() > 0 ==> nat_prerouting[0] != '\n',
        c == 'e' || c == 't',
    ensures
        no_line_ends_with(nft_tail(nat_prerouting), c),
{
    let acc0 = Seq::<char>::empty();
    assert(no_line_ends_with("\n  }\n"@, c)) by {
        reveal_strlit("\n  }\n");
    }
    lemma_ends_concat(acc0, "\n  }\n"@, c);
    let acc1 = acc0 + "\n  }\n"@;
    lemma_ends_concat(acc1, nat_prerouting, c);
    let acc2 = acc1 + nat_prerouting;
    assert(no_line_ends_with("}\n"@, c) && "}\n"@.len() > 0 && "}\n"@[0] != '\n') by {
        reveal_strlit("}\n");
    }
    lemma_ends_concat(acc2, "}\n"@, c);
    let acc3 = acc2 + "}\n"@;
    assert(nft_tail(nat_prerouting) == acc3);
}

/// Two texts without line breaks make one without.
proof fn lemma_no_break_concat(a: Seq<char>, b: Seq<char>)
    requires
        !a.contains('\n'),
        !b.contains('\n'),
    ensures
        !(a + b).contains('\n'),
{
    if (a + b).contains('\n') {
        let j = choose|j: int| 0 <= j < (a + b).len() && (a + b)[j] == '\n';
        if j < a.len() {
            assert(a.contains(a[j]));
        } else {
            assert(b.contains(b[j - a.len()]));
        }
    }
}

/// Lowercasing puts no line break into a text.
proof fn lemma_lower_plain(s: Seq<char>)
    requires
        !s.contains('\n'),
    ensures
        !lower(s).contains('\n'),
{
    if lower(s).contains('\n') {
        let j = choose|j: int| 0 <= j < lower(s).len() && lower(s)[j] == '\n';
        assert(lower(s)[j] == lower_char(s[j]));
        assert(s.contains(s[j]));
    }
}

/// A dotted IPv4 address holds no line break.
proof fn lemma_ipv4_text_plain(ip: u32)
    ensures
        !ipv4_text(ip).contains('\n'),
{
    let dot = seq!['.'];
    assert(!dot.contains('\n')) by {
        if dot.contains('\n') {
            let j = choose|j: int| 0 <= j < dot.len() && dot[j] == '\n';
        }
    }
    lemma_decimal_plain(octet0(ip));
    lemma_decimal_plain(octet1(ip));
    lemma_decimal_plain(octet2(ip));
    lemma_decimal_plain(octet3(ip));
    lemma_no_break_concat(decimal(octet0(ip)), dot);
    lemma_no_break_concat(decimal(octet0(ip)) + dot, decimal(octet1(ip)));
    lemma_no_break_concat(decimal(octet0(ip)) + dot + decimal(octet1(ip)), dot);
    lemma_no_break_concat(decimal(octet0(ip)) + dot + decimal(octet1(ip)) + dot, decimal(octet2(ip)));
    lemma_no_break_concat(
        decimal(octet0(ip)) + dot + decimal(octet1(ip)) + dot + decimal(octet2(ip)),
        dot,
    );
    lemma_no_break_concat(
        decimal(octet0(ip)) + dot + decimal(octet1(ip)) + dot + decimal(octet2(ip)) + dot,
        decimal(octet3(ip)),
    );
}

/// The LAN address and the directly routed WAN prefix in the ruleset hold no
/// line break.
proof fn lemma_addresses_plain(cfg: AppConfig)
    ensures
        !spec_lan_host_ip(cfg).contains('\n'),
        spec_wan_direct_cidr(cfg) matches Some(c) ==> !c.contains('\n'),
        !"192.168.0.0/16"@.contains('\n'),
{
    reveal_strlit("192.168.50.1");
    reveal_strlit("192.168.0.0/16");
    match cfg.lan.address {
        Some(a) => match spec_parse_ipv4_cidr(a@) {
            Ok((ip, _)) => lemma_ipv4_text_plain(ip),
            Err(_) => {},
        },
        None => {},
    }
    match cfg.wan.address {
        Some(addr) => match spec_parse_ipv4_cidr(addr@) {
            Ok((ip, prefix)) => {
                let n = spec_ipv4_network(ip, prefix);
                lemma_ipv4_text_plain(n);
                lemma_decimal_plain(prefix as nat);
                let slash = seq!['/'];
                assert(!slash.contains('\n')) by {
                    if slash.contains('\n') {
                        let j = choose|j: int| 0 <= j < slash.len() && slash[j] == '\n';
                    }
                }
                lemma_no_break_concat(ipv4_text(n), slash);
                lemma_no_break_concat(ipv4_text(n) + slash, decimal(prefix as nat));
            },
            Err(_) => {},
        },
        None => {},
    }
}

/// No line of the DNAT rules ends with `e` or `t`.
proof fn lemma_dnat_rules_ends(fws: Seq<PortForward>, wan: Seq<char>, c: char)
    requires
        !wan.contains('\n'),
        forall|i: int|
            0 <= i < fws.len() ==> !(#[trigger] fws[i]).protocol@.contains('\n') && !fws[i].lan_ip@.contains(
                '\n',
            ),
        c == 'e' || c == 't',
    ensures
        no_line_ends_with(nft_dnat_rules(fws, wan), c),
        nft_dnat_rules(fws, wan).len() > 0 ==> nft_dnat_rules(fws, wan)[0] != '\n',
    decreases fws.len(),
{
    if fws.len() == 0 {
        assert(no_line_ends_with(Seq::<char>::empty(), c));
    } else {
        let rest = fws.drop_last();
        assert forall|i: int| 0 <= i < rest.len() implies !(#[trigger] rest[i]).protocol@.contains('\n')
            && !rest[i].lan_ip@.contains('\n') by {
            assert(rest[i] == fws[i]);
        }
        lemma_dnat_rules_ends(rest, wan, c);
        if forward_active(fws.last()) {
            let f = fws.last();
            assert(f == fws[fws.len() - 1]);
            lemma_lower_plain(f.protocol@);
            let l = nft_dnat_line(wan, lower(f.protocol@), f.wan_port as u64, f.lan_ip@, f.lan_port as u64);
            lemma_dnat_line_ends(wan, lower(f.protocol@), f.wan_port as u64, f.lan_ip@, f.lan_port as u64, c);
            lemma_ends_concat(nft_dnat_rules(rest, wan), l, c);
            let r = nft_dnat_rules(rest, wan);
            if r.len() > 0 {
                assert((r + l)[0] == r[0]);
            } else {
                assert((r + l)[0] == l[0]);
            }
        }
    }
}

/// The ruleset with its tunnel slots empty holds no tunnel masquerade.
#[verifier::spinoff_prover]
#[verifier::rlimit(40)]
proof fn lemma_masq_absent(
    table: Seq<char>,
    lan: Seq<char>,
    lan_ip: Seq<char>,
    ssh: u64,
    ui: u64,
    wan_cidr: Seq<char>,
    wan: Seq<char>,
    tp: u64,
    mk: u64,
    natp: Seq<char>,
    wg: Seq<char>,
)
    requires
        !table.contains('\n'),
        !lan.contains('\n'),
        !lan_ip.contains('\n'),
        !wan_cidr.contains('\n'),
        plain_name(wan),
        plain_name(wg),
        wg != wan,
        no_line_ends_with(nft_tail(natp), 'e'),
    ensures
        !contains(
            nft_head(table, lan, lan_ip, ssh, ui, wan_cidr, wan, tp, mk) + nft_mid(wan, lan) + nft_tail(
                natp,
            ),
            nft_wg_masq(wg),
        ),
{
    let head = nft_head(table, lan, lan_ip, ssh, ui, wan_cidr, wan, tp, mk);
    let mid = nft_mid(wan, lan);
    let tail = nft_tail(natp);
    let text = head + mid + tail;
    let post_m = "\" masquerade\n"@;
    let pm = nft_wg_masq(wg);
    if contains(text, pm) {
        lemma_first_occurrence_bounds(text, pm);
        let i = first_occurrence(text, pm)->0;
        lemma_head_ends(table, lan, lan_ip, ssh, ui, wan_cidr, wan, tp, mk, 'e');
        lemma_mid_ends_e(wan, lan, 'e');
        let nl = seq!['\n'];
        assert(no_line_ends_with(nl, 'e'));
        assert(head =~= head.drop_last() + nl);
        lemma_ends_concat(head.drop_last(), nl, 'e');
        assert(mid[0] == ' ') by {
            reveal_strlit("    iifname \"");
        }
        assert(mid.drop_last()[0] == mid[0]);
        lemma_ends_concat(head, mid.drop_last(), 'e');
        let x = head + mid;
        assert(x.drop_last() =~= head + mid.drop_last());
        assert(pm.len() >= 2 && pm.last() == '\n' && pm[pm.len() - 2] == 'e') by {
            reveal_strlit("\" masquerade\n");
        }
        assert(text == x + tail);
        lemma_occurrence_at_line_end(x, tail, pm, 'e', i);
        let lit = "\" accept\n  }\n  chain postrouting {\n    type nat hook postrouting priority srcnat; policy accept;\n    oifname \""@;
        let x0 = head + (Seq::<char>::empty() + "    iifname \""@ + wan + "\" oifname \""@ + lan
            + lit.drop_last());
        assert(x =~= x0 + seq!['"'] + wan + post_m) by {
            reveal_strlit("\" accept\n  }\n  chain postrouting {\n    type nat hook postrouting priority srcnat; policy accept;\n    oifname \"");
        }
        assert(pm =~= "    oifname "@ + seq!['"'] + wg + post_m) by {
            reveal_strlit("    oifname \"");
            reveal_strlit("    oifname ");
        }
        lemma_quoted_tail(x0, wan, "    oifname "@, wg, post_m);
    }
}

/// The ruleset with its tunnel slots empty holds no LAN-to-tunnel forward.
#[verifier::spinoff_prover]
#[verifier::rlimit(40)]
proof fn lemma_forward_absent(
    table: Seq<char>,
    lan: Seq<char>,
    lan_ip: Seq<char>,
    ssh: u64,
    ui: u64,
    wan_cidr: Seq<char>,
    wan: Seq<char>,
    tp: u64,
    mk: u64,
    natp: Seq<char>,
    wg: Seq<char>,
)
    requires
        !table.contains('\n'),
        !lan_ip.contains('\n'),
        !wan_cidr.contains('\n'),
        plain_name(wan),
        plain_name(lan),
        plain_name(wg),
        wg != wan,
        wg != lan,
        no_line_ends_with(nft_tail(natp), 't'),
        nft_tail(natp)[0] == '\n',
    ensures
        !contains(
            nft_head(table, lan, lan_ip, ssh, ui, wan_cidr, wan, tp, mk) + nft_mid(wan, lan) + nft_tail(
                natp,
            ),
            nft_wg_forward(lan, wg),
        ),
{
    let head = nft_head(table, lan, lan_ip, ssh, ui, wan_cidr, wan, tp, mk);
    let mid = nft_mid(wan, lan);
    let tail = nft_tail(natp);
    let text = head + mid + tail;
    let post_a = "\" accept\n"@;
    let pf = nft_wg_forward(lan, wg);
    if contains(text, pf) {
        lemma_first_occurrence_bounds(text, pf);
        let i = first_occurrence(text, pf)->0;
        let z = lemma_head_ends(table, lan, lan_ip, ssh, ui, wan_cidr, wan, tp, mk, 't');
        let m1 = nft_wan_lan_forward(wan, lan);
        let m2 = nft_postrouting_head(wan);
        assert(mid =~= m1 + m2) by {
            reveal_strlit("\" accept\n  }\n  chain postrouting {\n    type nat hook postrouting priority srcnat; policy accept;\n    oifname \"");
            reveal_strlit("\" accept\n");
            reveal_strlit("  }\n  chain postrouting {\n    type nat hook postrouting priority srcnat; policy accept;\n    oifname \"");
        }
        lemma_wan_lan_forward_ends(wan, lan, 't');
        lemma_postrouting_head_ends(wan, 't');
        assert(m2.last() == '\n') by {
            reveal_strlit("\" masquerade\n");
        }
        lemma_ends_concat(m2, tail, 't');
        assert(text =~= head + m1 + (m2 + tail));
        assert(pf.len() >= 2 && pf.last() == '\n' && pf[pf.len() - 2] == 't') by {
            reveal_strlit("\" accept\n");
        }
        lemma_occurrence_at_two_line_ends(head, m1, m2 + tail, pf, 't', i);
        assert(pf =~= "    iifname \""@ + lan + "\" oifname "@ + seq!['"'] + wg + post_a) by {
            reveal_strlit("\" oifname \"");
            reveal_strlit("\" oifname ");
        }
        if ends_with(head, pf) {
            assert(head =~= z + "\" oifname "@ + seq!['"'] + wan + post_a) by {
                reveal_strlit("\" oifname \"");
                reveal_strlit("\" oifname ");
            }
            lemma_quoted_tail(z + "\" oifname "@, wan, "    iifname \""@ + lan + "\" oifname "@, wg, post_a);
        } else {
            assert(head + m1 =~= head + "    iifname \""@ + wan + "\" oifname "@ + seq!['"'] + lan
                + post_a) by {
                reveal_strlit("\" oifname \"");
                reveal_strlit("\" oifname ");
            }
            lemma_quoted_tail(
                head + "    iifname \""@ + wan + "\" oifname "@,
                lan,
                "    iifname \""@ + lan + "\" oifname "@,
                wg,
                post_a,
            );
        }
    }
}

/// With the tunnel off the ruleset holds neither of its tunnel rules: no
/// LAN-to-tunnel forward and no tunnel masquerade, anywhere in the text,
/// as long as the interface names hold no line break or quote and the
/// tunnel is named apart from the WAN and the LAN, and the table name and
/// the protocols and LAN addresses of the port forwards hold no line break
/// (else one of them could spell such a rule itself).
pub proof fn lemma_tunnel_rules_absent_when_off(cfg: AppConfig)
    requires
        !cfg.wireguard.enabled,
        plain_name(cfg.wan.interface@),
        plain_name(cfg.lan.interface@),
        plain_name(cfg.wireguard.interface@),
        cfg.wireguard.interface@ != cfg.wan.interface@,
        cfg.wireguard.interface@ != cfg.lan.interface@,
        !cfg.firewall.table_name@.contains('\n'),
        forall|i: int|
            0 <= i < cfg.port_forwards@.len() ==> !(#[trigger] cfg.port_forwards@[i]).protocol@.contains(
                '\n',
            ) && !cfg.port_forwards@[i].lan_ip@.contains('\n'),
    ensures
        !contains(
            spec_render_nftables(cfg),
            nft_wg_forward(cfg.lan.interface@, cfg.wireguard.interface@),
        ),
        !contains(spec_render_nftables(cfg), nft_wg_masq(cfg.wireguard.interface@)),
{
    let wan = cfg.wan.interface@;
    let lan = cfg.lan.interface@;
    let wg = cfg.wireguard.interface@;
    let table = cfg.firewall.table_name@;
    let lan_ip = spec_lan_host_ip(cfg);
    let wan_cidr = match spec_wan_direct_cidr(cfg) {
        Some(c) => c,
        None => "192.168.0.0/16"@,
    };
    let ssh = cfg.firewall.ssh_port as u64;
    let ui = ui_port(cfg) as u64;
    let tp = TPROXY_PORT as u64;
    let mk = TPROXY_MARK as u64;
    let rules = nft_dnat_rules(cfg.port_forwards@, wan);
    let natp = nft_nat_prerouting(lan, lan_ip, rules);
    lemma_addresses_plain(cfg);
    lemma_nft_text_off(table, lan, lan_ip, ssh, ui, wan_cidr, wan, tp, mk, natp);
    assert(spec_render_nftables(cfg) == nft_head(table, lan, lan_ip, ssh, ui, wan_cidr, wan, tp, mk)
        + nft_mid(wan, lan) + nft_tail(natp));
    lemma_dnat_rules_ends(cfg.port_forwards@, wan, 'e');
    lemma_dnat_rules_ends(cfg.port_forwards@, wan, 't');
    lemma_nat_prerouting_ends(lan, lan_ip, rules, 'e');
    lemma_nat_prerouting_ends(lan, lan_ip, rules, 't');
    lemma_tail_ends(natp, 'e');
    lemma_tail_ends(natp, 't');
    assert(nft_tail(natp)[0] == '\n') by {
        reveal_strlit("\n  }\n");
    }
    lemma_masq_absent(table, lan, lan_ip, ssh, ui, wan_cidr, wan, tp, mk, natp, wg);
    lemma_forward_absent(table, lan, lan_ip, ssh, ui, wan_cidr, wan, tp, mk, natp, wg);
}

} // verus!

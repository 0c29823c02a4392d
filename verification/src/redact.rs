//! Hiding secrets in a plan before it is shown: key lines of wg-quick files,
//! and the credentials in the sing-box configuration.

use vstd::prelude::*;

use crate::model::{
    ChangePlan, ChangePlanView, PlanAction, RenderedFile, RenderedFileView, ValidationIssue,
};
use crate::text::{
    before_either, before_either_chars, ends_with, ends_with_str, eq_str, from_chars, join_chars,
    join_with, lines, lines_of, push_all, push_str, slice_of, split_once, starts_with,
    starts_with_str, to_chars, trim, trim_chars, trim_start, trim_start_chars,
};

verus! {

// ---------------------------------------------------------------------------
// Key lines
// ---------------------------------------------------------------------------

/// A `PrivateKey` or `PresharedKey` line becomes `<key> = [redacted]`; any
/// other line stays.
pub open spec fn redact_key_line(line: Seq<char>) -> Seq<char> {
    let t = trim_start(line);
    if starts_with(t, "PrivateKey"@) || starts_with(t, "PresharedKey"@) {
        trim(before_either(t, '=', '=')) + " = [redacted]"@
    } else {
        line
    }
}

/// A key line keeps nothing of its value: the only `=` left in it is the
/// one before `[redacted]`.
pub proof fn lemma_key_line_hides_value(line: Seq<char>)
    requires
        starts_with(trim_start(line), "PrivateKey"@) || starts_with(trim_start(line), "PresharedKey"@),
    ensures
        split_once(redact_key_line(line), '=') matches Some((_, v)) && v == " [redacted]"@,
{
    let t = trim_start(line);
    let b = before_either(t, '=', '=');
    let k = trim(b);
    crate::text::lemma_before_either_excludes(t, '=', '=');
    crate::text::lemma_trim_within(b);
    reveal_strlit(" = [redacted]");
    reveal_strlit(" [redacted]");
    let r = k + " = [redacted]"@;
    assert(redact_key_line(line) == r);
    assert forall|j: int| 0 <= j < k.len() + 1 implies r[j] != '=' by {
        if j < k.len() {
            assert(r[j] == k[j]);
            assert(b.contains(k[j]));
        } else {
            assert(r[j] == ' ');
        }
    }
    let n = k.len() as int;
    assert(r[n + 1] == '=');
    crate::text::lemma_index_of(r, '=', n + 1);
    assert(r.skip(n + 2) =~= " [redacted]"@);
}

/// A text with its key lines redacted, its lines joined by newlines.
pub open spec fn redact_key_lines(text: Seq<char>) -> Seq<char> {
    join_with(lines(text).map_values(|l: Seq<char>| redact_key_line(l)), "\n"@)
}

fn redact_key_line_exec(line: &[char]) -> (r: Vec<char>)
    ensures
        r@ == redact_key_line(line@),
{
    let t = trim_start_chars(line);
    if starts_with_str(t.as_slice(), "PrivateKey") || starts_with_str(t.as_slice(), "PresharedKey") {
        let mut out = trim_chars(before_either_chars(t.as_slice(), '=', '=').as_slice());
        push_str(&mut out, " = [redacted]");
        out
    } else {
        let mut out: Vec<char> = Vec::new();
        push_all(&mut out, line);
        out
    }
}

fn redact_key_lines_exec(text: &str) -> (r: Vec<char>)
    ensures
        r@ == redact_key_lines(text@),
{
    let ls = lines_of(to_chars(text).as_slice());
    let ghost lv = lines(text@);
    let mut out: Vec<Vec<char>> = Vec::new();
    let n = ls.len();
    for i in 0..n
        invariant
            n == ls@.len(),
            ls@.map_values(|v: Vec<char>| v@) == lv,
            out@.map_values(|v: Vec<char>| v@) == lv.take(i as int).map_values(
                |l: Seq<char>| redact_key_line(l),
            ),
    {
        assert(lv[i as int] == ls@[i as int]@);
        let ghost before = out@.map_values(|v: Vec<char>| v@);
        let l = redact_key_line_exec(ls[i].as_slice());
        out.push(l);
        assert(out@.map_values(|v: Vec<char>| v@) =~= before.push(l@));
        assert(lv.take((i + 1) as int).map_values(|l: Seq<char>| redact_key_line(l)) =~= lv.take(
            i as int,
        ).map_values(|l: Seq<char>| redact_key_line(l)).push(redact_key_line(lv[i as int])));
    }
    assert(lv.take(n as int) =~= lv);
    join_chars(&out, "\n")
}

// ---------------------------------------------------------------------------
// The sing-box configuration
// ---------------------------------------------------------------------------

/// What `serde_json` makes of a text that it parses as JSON: the value
/// printed by `to_string_pretty`.
pub uninterp spec fn json_pretty(text: Seq<char>) -> Option<Seq<char>>;

/// `serde_json::from_str::<serde_json::Value>`, then `to_string_pretty` of
/// that value; `None` when the text is not JSON. The result is named; nothing
/// else is claimed of it.
#[verifier::external_body]
fn json_pretty_of(text: &str) -> (r: Option<String>)
    ensures
        match r {
            Some(p) => json_pretty(text@) == Some(p@),
            None => json_pretty(text@) is None,
        },
{
    let value: serde_json::Value = serde_json::from_str(text).ok()?;
    serde_json::to_string_pretty(&value).ok()
}

/// The number of leading spaces.
pub open spec fn indent_len(s: Seq<char>) -> nat
    decreases s.len(),
{
    if s.len() > 0 && s[0] == ' ' {
        1 + indent_len(s.drop_first())
    } else {
        0
    }
}

/// How an object member with the given key starts after its indentation in
/// pretty-printed JSON.
pub open spec fn member_head(key: Seq<char>) -> Seq<char> {
    seq!['"'] + key + "\": "@
}

/// The member keys whose values are secrets.
pub open spec fn secret_key(after: Seq<char>) -> Option<Seq<char>> {
    if starts_with(after, member_head("uuid"@)) {
        Some("uuid"@)
    } else if starts_with(after, member_head("public_key"@)) {
        Some("public_key"@)
    } else if starts_with(after, member_head("private_key"@)) {
        Some("private_key"@)
    } else {
        None
    }
}

/// A pretty-printed line that opens a member with a secret value: its
/// indentation, key, and what follows `": `.
pub open spec fn secret_member(line: Seq<char>) -> Option<(nat, Seq<char>, Seq<char>)> {
    let k = indent_len(line);
    let after = line.skip(k as int);
    match secret_key(after) {
        Some(key) => Some((k, key, after.skip(member_head(key).len() as int))),
        None => None,
    }
}

/// A line that closes an object or array opened at the given indentation.
pub open spec fn closes(line: Seq<char>, ind: nat) -> bool {
    let rest = line.skip(ind as int);
    indent_len(line) == ind && ind <= line.len() && (rest == "}"@ || rest == "},"@ || rest == "]"@
        || rest == "],"@)
}

/// The first line that closes what was opened at `ind`.
pub open spec fn closing_at(ls: Seq<Seq<char>>, ind: nat) -> Option<int>
    decreases ls.len(),
{
    if ls.len() == 0 {
        None
    } else if closes(ls[0], ind) {
        Some(0)
    } else {
        match closing_at(ls.drop_first(), ind) {
            Some(j) => Some(j + 1),
            None => None,
        }
    }
}

/// The member with its value replaced by the string `[redacted]`.
pub open spec fn redacted_member(line: Seq<char>, ind: nat, key: Seq<char>, comma: bool) -> Seq<char> {
    line.take(ind as int) + member_head(key) + "\"[redacted]\""@ + if comma {
        ","@
    } else {
        Seq::empty()
    }
}

/// The lines of pretty-printed JSON with the value of every `uuid`,
/// `public_key` and `private_key` member replaced by `"[redacted]"`; a nested
/// value is replaced whole, from its opening line to the line that closes it.
pub open spec fn redact_json_lines(ls: Seq<Seq<char>>) -> Seq<Seq<char>>
    decreases ls.len(),
{
    if ls.len() == 0 {
        seq![]
    } else {
        match secret_member(ls[0]) {
            None => seq![ls[0]] + redact_json_lines(ls.drop_first()),
            Some((ind, key, rest)) => if rest == "{"@ || rest == "["@ {
                match closing_at(ls.drop_first(), ind) {
                    Some(j) => if 0 <= j < ls.len() - 1 {
                        seq![redacted_member(ls[0], ind, key, ls[j + 1].last() == ',')]
                            + redact_json_lines(ls.skip(j + 2))
                    } else {
                        seq![ls[0]] + redact_json_lines(ls.drop_first())
                    },
                    None => seq![ls[0]] + redact_json_lines(ls.drop_first()),
                }
            } else {
                seq![redacted_member(ls[0], ind, key, rest.len() > 0 && rest.last() == ',')]
                    + redact_json_lines(ls.drop_first())
            },
        }
    }
}

/// A rendered file as shown: key lines redacted, and for the sing-box
/// configuration that parses as JSON, its pretty-printed form with the
/// credentials redacted.
pub open spec fn redact_file(f: RenderedFileView) -> RenderedFileView {
    let c1 = redact_key_lines(f.contents);
    RenderedFileView {
        relative_path: f.relative_path,
        contents: if ends_with(f.relative_path, "sing-box.json"@) {
            match json_pretty(c1) {
                Some(p) => join_with(redact_json_lines(lines(p)), "\n"@),
                None => c1,
            }
        } else {
            c1
        },
    }
}

proof fn lemma_indent_len(s: Seq<char>, i: int)
    requires
        0 <= i <= s.len(),
        forall|j: int| 0 <= j < i ==> s[j] == ' ',
    ensures
        indent_len(s) == i + indent_len(s.skip(i)),
    decreases i,
{
    if i > 0 {
        lemma_indent_len(s.drop_first(), i - 1);
        assert(s.drop_first().skip(i - 1) =~= s.skip(i));
    } else {
        assert(s.skip(0) =~= s);
    }
}

proof fn lemma_indent_spaces(s: Seq<char>)
    ensures
        indent_len(s) <= s.len(),
        forall|j: int| 0 <= j < indent_len(s) ==> s[j] == ' ',
        indent_len(s) < s.len() ==> s[indent_len(s) as int] != ' ',
    decreases s.len(),
{
    if s.len() > 0 && s[0] == ' ' {
        lemma_indent_spaces(s.drop_first());
        assert forall|j: int| 0 <= j < indent_len(s) implies s[j] == ' ' by {
            if j > 0 {
                assert(s[j] == s.drop_first()[j - 1]);
            }
        }
    }
}

/// The value text of a redacted secret member.
pub open spec fn redacted_value(comma: bool) -> Seq<char> {
    "\"[redacted]\""@ + if comma {
        ","@
    } else {
        Seq::empty()
    }
}

proof fn lemma_redacted_member_reads_back(line: Seq<char>, comma: bool)
    requires
        secret_member(line) is Some,
    ensures
        ({
            let (ind, key, _) = secret_member(line)->0;
            secret_member(redacted_member(line, ind, key, comma)) == Some((ind, key, redacted_value(comma)))
        }),
{
    let (ind, key, _) = secret_member(line)->0;
    reveal_strlit("uuid");
    reveal_strlit("public_key");
    reveal_strlit("private_key");
    reveal_strlit("\": ");
    reveal_strlit("\"[redacted]\"");
    reveal_strlit(",");
    lemma_indent_spaces(line);
    let head = member_head(key);
    let v = redacted_value(comma);
    let r = redacted_member(line, ind, key, comma);
    assert(r =~= line.take(ind as int) + (head + v));
    assert forall|j: int| 0 <= j < ind implies r[j] == ' ' by {
        assert(r[j] == line[j]);
    }
    lemma_indent_len(r, ind as int);
    assert(r.skip(ind as int) =~= head + v);
    assert((head + v)[0] == '"');
    assert(indent_len(r.skip(ind as int)) == 0);
    let after = head + v;
    assert(after.take(head.len() as int) =~= head);
    if key == "uuid"@ {
    } else if key == "public_key"@ {
        assert(after[1] == 'p');
        assert(member_head("uuid"@)[1] == 'u');
    } else {
        assert(after[1] == 'p' && after[2] == 'r');
        assert(member_head("uuid"@)[1] == 'u');
        assert(member_head("public_key"@)[2] == 'u');
    }
    assert(after.skip(head.len() as int) =~= v);
}

/// A line that shows no secret: it opens no secret member, or the member's
/// value is `"[redacted]"`, or it opens a block (what a well-formed document
/// always closes, so that the block is replaced whole).
pub open spec fn shows_no_secret(line: Seq<char>) -> bool {
    match secret_member(line) {
        Some((_, _, v)) => v == redacted_value(false) || v == redacted_value(true) || v == "{"@ || v
            == "["@,
        None => true,
    }
}

/// After redaction no line of pretty-printed JSON shows a `uuid`,
/// `public_key` or `private_key` value; a member that opens a block is only
/// kept when no later line closes that block.
pub proof fn lemma_json_secrets_hidden(ls: Seq<Seq<char>>)
    ensures
        forall|i: int|
            0 <= i < redact_json_lines(ls).len() ==> shows_no_secret(#[trigger] redact_json_lines(ls)[i]),
    decreases ls.len(),
{
    if ls.len() > 0 {
        let out = redact_json_lines(ls);
        match secret_member(ls[0]) {
            None => {
                lemma_json_secrets_hidden(ls.drop_first());
                let rest = redact_json_lines(ls.drop_first());
                assert(out == seq![ls[0]] + rest);
                assert forall|i: int| 0 <= i < out.len() implies shows_no_secret(#[trigger] out[i]) by {
                    if i > 0 {
                        assert(out[i] == rest[i - 1]);
                    }
                }
            },
            Some((ind, key, v)) => {
                if v == "{"@ || v == "["@ {
                    match closing_at(ls.drop_first(), ind) {
                        Some(j) => {
                            if 0 <= j < ls.len() - 1 {
                                let c = ls[j + 1].last() == ',';
                                lemma_redacted_member_reads_back(ls[0], c);
                                lemma_json_secrets_hidden(ls.skip(j + 2));
                                let rest = redact_json_lines(ls.skip(j + 2));
                                assert(out == seq![redacted_member(ls[0], ind, key, c)] + rest);
                                assert forall|i: int| 0 <= i < out.len() implies shows_no_secret(
                                    #[trigger] out[i],
                                ) by {
                                    if i > 0 {
                                        assert(out[i] == rest[i - 1]);
                                    }
                                }
                            } else {
                                lemma_json_secrets_hidden(ls.drop_first());
                                let rest = redact_json_lines(ls.drop_first());
                                assert(out == seq![ls[0]] + rest);
                                assert forall|i: int| 0 <= i < out.len() implies shows_no_secret(
                                    #[trigger] out[i],
                                ) by {
                                    if i > 0 {
                                        assert(out[i] == rest[i - 1]);
                                    }
                                }
                            }
                        },
                        None => {
                            lemma_json_secrets_hidden(ls.drop_first());
                            let rest = redact_json_lines(ls.drop_first());
                            assert(out == seq![ls[0]] + rest);
                            assert forall|i: int| 0 <= i < out.len() implies shows_no_secret(
                                #[trigger] out[i],
                            ) by {
                                if i > 0 {
                                    assert(out[i] == rest[i - 1]);
                                }
                            }
                        },
                    }
                } else {
                    let c = v.len() > 0 && v.last() == ',';
                    lemma_redacted_member_reads_back(ls[0], c);
                    lemma_json_secrets_hidden(ls.drop_first());
                    let rest = redact_json_lines(ls.drop_first());
                    assert(out == seq![redacted_member(ls[0], ind, key, c)] + rest);
                    assert forall|i: int| 0 <= i < out.len() implies shows_no_secret(#[trigger] out[i]) by {
                        if i > 0 {
                            assert(out[i] == rest[i - 1]);
                        }
                    }
                }
            },
        }
    }
}

/// Every member that opens a block with a secret value has a later line
/// that closes the block, as in the pretty-printed form of a JSON document.
pub open spec fn secret_blocks_close(ls: Seq<Seq<char>>) -> bool {
    forall|i: int|
        0 <= i < ls.len() ==> match secret_member(#[trigger] ls[i]) {
            Some((ind, _, v)) => (v == "{"@ || v == "["@) ==> closing_at(ls.skip(i + 1), ind) is Some,
            None => true,
        }
}

/// A line whose secret member, if it has one, reads `"[redacted]"`.
pub open spec fn secret_redacted(line: Seq<char>) -> bool {
    match secret_member(line) {
        Some((_, _, v)) => v == redacted_value(false) || v == redacted_value(true),
        None => true,
    }
}

proof fn lemma_closing_bound(ls: Seq<Seq<char>>, ind: nat)
    ensures
        closing_at(ls, ind) matches Some(j) ==> 0 <= j < ls.len(),
    decreases ls.len(),
{
    if ls.len() > 0 && !closes(ls[0], ind) {
        lemma_closing_bound(ls.drop_first(), ind);
    }
}

proof fn lemma_blocks_close_suffix(ls: Seq<Seq<char>>, k: int)
    requires
        secret_blocks_close(ls),
        0 <= k <= ls.len(),
    ensures
        secret_blocks_close(ls.skip(k)),
{
    let t = ls.skip(k);
    assert forall|i: int| 0 <= i < t.len() implies match secret_member(#[trigger] t[i]) {
        Some((ind, _, v)) => (v == "{"@ || v == "["@) ==> closing_at(t.skip(i + 1), ind) is Some,
        None => true,
    } by {
        assert(t[i] == ls[k + i]);
        assert(t.skip(i + 1) =~= ls.skip(k + i + 1));
    }
}

/// In pretty-printed JSON whose secret blocks all close, as serde's output of
/// a parsed document does, every `uuid`, `public_key` and `private_key`
/// member of the redacted lines reads `"[redacted]"`.
pub proof fn lemma_closed_json_secrets_redacted(ls: Seq<Seq<char>>)
    requires
        secret_blocks_close(ls),
    ensures
        forall|i: int|
            0 <= i < redact_json_lines(ls).len() ==> secret_redacted(#[trigger] redact_json_lines(ls)[i]),
    decreases ls.len(),
{
    if ls.len() > 0 {
        let out = redact_json_lines(ls);
        assert(ls.drop_first() =~= ls.skip(1));
        match secret_member(ls[0]) {
            None => {
                lemma_blocks_close_suffix(ls, 1);
                lemma_closed_json_secrets_redacted(ls.drop_first());
                let rest = redact_json_lines(ls.drop_first());
                assert(out == seq![ls[0]] + rest);
                assert forall|i: int| 0 <= i < out.len() implies secret_redacted(#[trigger] out[i]) by {
                    if i > 0 {
                        assert(out[i] == rest[i - 1]);
                    }
                }
            },
            Some((ind, key, v)) => {
                if v == "{"@ || v == "["@ {
                    assert(closing_at(ls.skip(1), ind) is Some);
                    lemma_closing_bound(ls.drop_first(), ind);
                    let j = closing_at(ls.drop_first(), ind)->0;
                    let c = ls[j + 1].last() == ',';
                    lemma_redacted_member_reads_back(ls[0], c);
                    lemma_blocks_close_suffix(ls, j + 2);
                    lemma_closed_json_secrets_redacted(ls.skip(j + 2));
                    let rest = redact_json_lines(ls.skip(j + 2));
                    assert(out == seq![redacted_member(ls[0], ind, key, c)] + rest);
                    assert forall|i: int| 0 <= i < out.len() implies secret_redacted(#[trigger] out[i]) by {
                        if i > 0 {
                            assert(out[i] == rest[i - 1]);
                        }
                    }
                } else {
                    let c = v.len() > 0 && v.last() == ',';
                    lemma_redacted_member_reads_back(ls[0], c);
                    lemma_blocks_close_suffix(ls, 1);
                    lemma_closed_json_secrets_redacted(ls.drop_first());
                    let rest = redact_json_lines(ls.drop_first());
                    assert(out == seq![redacted_member(ls[0], ind, key, c)] + rest);
                    assert forall|i: int| 0 <= i < out.len() implies secret_redacted(#[trigger] out[i]) by {
                        if i > 0 {
                            assert(out[i] == rest[i - 1]);
                        }
                    }
                }
            },
        }
    }
}

fn indent_of(s: &[char]) -> (r: usize)
    ensures
        r == indent_len(s@),
        r <= s@.len(),
{
    let n = s.len();
    let mut i: usize = 0;
    while i < n && s[i] == ' '
        invariant
            i <= n == s@.len(),
            forall|j: int| 0 <= j < i ==> s@[j] == ' ',
        decreases n - i,
    {
        i = i + 1;
    }
    proof {
        lemma_indent_len(s@, i as int);
    }
    i
}

fn member_head_chars(key: &str) -> (r: Vec<char>)
    ensures
        r@ == member_head(key@),
{
    let mut v: Vec<char> = Vec::new();
    v.push('"');
    push_str(&mut v, key);
    push_str(&mut v, "\": ");
    assert(v@ =~= member_head(key@));
    v
}

fn secret_member_exec(line: &[char]) -> (r: Option<(usize, &'static str, Vec<char>)>)
    ensures
        match r {
            Some((k, key, rest)) => secret_member(line@) == Some((k as nat, key@, rest@)) && k
                <= line@.len(),
            None => secret_member(line@) is None,
        },
{
    let k = indent_of(line);
    let after = slice_of(line, k, line.len());
    assert(after@ =~= line@.skip(k as int));
    let key: &'static str = if crate::text::starts_with_chars(after.as_slice(), member_head_chars("uuid").as_slice()) {
        "uuid"
    } else if crate::text::starts_with_chars(after.as_slice(), member_head_chars("public_key").as_slice()) {
        "public_key"
    } else if crate::text::starts_with_chars(after.as_slice(), member_head_chars("private_key").as_slice()) {
        "private_key"
    } else {
        return None;
    };
    let head = member_head_chars(key);
    let rest = slice_of(after.as_slice(), head.len(), after.len());
    assert(rest@ =~= after@.skip(member_head(key@).len() as int));
    Some((k, key, rest))
}

fn closes_exec(line: &[char], ind: usize) -> (r: bool)
    ensures
        r == closes(line@, ind as nat),
{
    if indent_of(line) != ind || ind > line.len() {
        return false;
    }
    let rest = slice_of(line, ind, line.len());
    assert(rest@ =~= line@.skip(ind as int));
    eq_str(rest.as_slice(), "}") || eq_str(rest.as_slice(), "},") || eq_str(rest.as_slice(), "]")
        || eq_str(rest.as_slice(), "],")
}

proof fn lemma_closing_skip(ls: Seq<Seq<char>>, ind: nat, m: int)
    requires
        0 <= m <= ls.len(),
        forall|t: int| 0 <= t < m ==> !closes(#[trigger] ls[t], ind),
    ensures
        closing_at(ls, ind) == match closing_at(ls.skip(m), ind) {
            Some(j) => Some(j + m),
            None => None::<int>,
        },
    decreases m,
{
    if m > 0 {
        assert(!closes(ls[0], ind));
        assert forall|t: int| 0 <= t < m - 1 implies !closes(#[trigger] ls.drop_first()[t], ind) by {
            assert(ls.drop_first()[t] == ls[t + 1]);
        }
        lemma_closing_skip(ls.drop_first(), ind, m - 1);
        assert(ls.drop_first().skip(m - 1) =~= ls.skip(m));
    } else {
        assert(ls.skip(0) =~= ls);
    }
}

fn redacted_member_exec(line: &[char], ind: usize, key: &str, comma: bool) -> (r: Vec<char>)
    requires
        ind <= line@.len(),
    ensures
        r@ == redacted_member(line@, ind as nat, key@, comma),
{
    let mut v = slice_of(line, 0, ind);
    let head = member_head_chars(key);
    push_all(&mut v, head.as_slice());
    push_str(&mut v, "\"[redacted]\"");
    if comma {
        push_str(&mut v, ",");
    }
    proof {
        reveal_strlit("");
    }
    assert(v@ =~= redacted_member(line@, ind as nat, key@, comma));
    v
}

pub open spec fn lines_view(v: Seq<Vec<char>>) -> Seq<Seq<char>> {
    v.map_values(|c: Vec<char>| c@)
}

fn push_line(out: &mut Vec<Vec<char>>, l: Vec<char>)
    ensures
        lines_view(final(out)@) == lines_view(old(out)@).push(l@),
{
    out.push(l);
    assert(lines_view(out@) =~= lines_view(old(out)@).push(l@));
}

fn redact_json_lines_exec(ls: &Vec<Vec<char>>) -> (r: Vec<Vec<char>>)
    ensures
        lines_view(r@) == redact_json_lines(lines_view(ls@)),
{
    let ghost lv = lines_view(ls@);
    let mut out: Vec<Vec<char>> = Vec::new();
    let n = ls.len();
    let mut i: usize = 0;
    assert(lv.skip(0) =~= lv);
    assert(lines_view(out@) + redact_json_lines(lv.skip(0)) =~= redact_json_lines(lv));
    while i < n
        invariant
            i <= n == ls@.len(),
            lv == lines_view(ls@),
            lines_view(out@) + redact_json_lines(lv.skip(i as int)) == redact_json_lines(lv),
        decreases n - i,
    {
        let ghost rest_lines = lv.skip(i as int);
        assert(rest_lines[0] == ls@[i as int]@);
        assert(rest_lines.drop_first() =~= lv.skip(i + 1));
        let line = &ls[i];
        let ghost before = lines_view(out@);
        match secret_member_exec(line.as_slice()) {
            None => {
                let mut copy: Vec<char> = Vec::new();
                push_all(&mut copy, line.as_slice());
                push_line(&mut out, copy);
                assert(lines_view(out@) + redact_json_lines(lv.skip(i + 1)) =~= redact_json_lines(lv));
                i = i + 1;
            },
            Some((ind, key, rest)) => {
                if eq_str(rest.as_slice(), "{") || eq_str(rest.as_slice(), "[") {
                    let mut k = i + 1;
                    while k < n && !closes_exec(ls[k].as_slice(), ind)
                        invariant
                            i < k <= n == ls@.len(),
                            lv == lines_view(ls@),
                            forall|t: int| i < t < k ==> !closes(#[trigger] lv[t], ind as nat),
                        decreases n - k,
                    {
                        assert(lv[k as int] == ls@[k as int]@);
                        k = k + 1;
                    }
                    let ghost tail = lv.skip(i + 1);
                    proof {
                        assert forall|t: int| 0 <= t < k - (i + 1) implies !closes(#[trigger] tail[t], ind as nat) by {
                            assert(tail[t] == lv[t + i + 1]);
                        }
                        lemma_closing_skip(tail, ind as nat, k - (i + 1));
                        assert(tail =~= rest_lines.drop_first());
                    }
                    if k < n {
                        assert(lv[k as int] == ls@[k as int]@);
                        assert(tail.skip(k - (i + 1))[0] == lv[k as int]);
                        let last_line = &ls[k];
                        let comma = last_line.len() > 0 && last_line[last_line.len() - 1] == ',';
                        assert(closes(lv[k as int], ind as nat));
                        proof {
                            reveal_strlit("}");
                            reveal_strlit("},");
                            reveal_strlit("]");
                            reveal_strlit("],");
                            assert(lv[k as int].skip(ind as int).len() >= 1);
                            assert(lv[k as int].len() > 0);
                        }
                        assert(comma == (lv[k as int].last() == ','));
                        let l = redacted_member_exec(line.as_slice(), ind, key, comma);
                        push_line(&mut out, l);
                        assert(rest_lines.skip(k - i + 1) =~= lv.skip(k + 1));
                        assert(rest_lines[k - i] == lv[k as int]);
                        assert(lines_view(out@) + redact_json_lines(lv.skip(k + 1)) =~= redact_json_lines(lv));
                        i = k + 1;
                    } else {
                        assert(tail.skip(k - (i + 1)) =~= Seq::<Seq<char>>::empty());
                        let mut copy: Vec<char> = Vec::new();
                        push_all(&mut copy, line.as_slice());
                        push_line(&mut out, copy);
                        assert(lines_view(out@) + redact_json_lines(lv.skip(i + 1)) =~= redact_json_lines(lv));
                        i = i + 1;
                    }
                } else {
                    let comma = rest.len() > 0 && rest[rest.len() - 1] == ',';
                    let l = redacted_member_exec(line.as_slice(), ind, key, comma);
                    push_line(&mut out, l);
                    assert(lines_view(out@) + redact_json_lines(lv.skip(i + 1)) =~= redact_json_lines(lv));
                    i = i + 1;
                }
            },
        }
    }
    assert(lv.skip(n as int) =~= Seq::<Seq<char>>::empty());
    assert(lines_view(out@) =~= redact_json_lines(lv));
    out
}

/// Hides the credential members of pretty-printed JSON, line by line.
pub fn redact_pretty_json(pretty: &str) -> (r: String)
    ensures
        r@ == join_with(redact_json_lines(lines(pretty@)), "\n"@),
{
    let ls = lines_of(to_chars(pretty).as_slice());
    assert(lines_view(ls@) =~= lines(pretty@));
    let red = redact_json_lines_exec(&ls);
    from_chars(join_chars(&red, "\n").as_slice())
}

fn redact_file_exec(f: &RenderedFile) -> (r: RenderedFile)
    ensures
        r@ == redact_file(f@),
{
    let c1 = redact_key_lines_exec(f.contents.as_str());
    let path = to_chars(f.relative_path.as_str());
    let contents = if ends_with_str(path.as_slice(), "sing-box.json") {
        let c1s = from_chars(c1.as_slice());
        match json_pretty_of(c1s.as_str()) {
            Some(p) => redact_pretty_json(p.as_str()),
            None => c1s,
        }
    } else {
        from_chars(c1.as_slice())
    };
    RenderedFile { relative_path: f.relative_path.clone(), contents }
}

fn clone_action(a: &PlanAction) -> (r: PlanAction)
    ensures
        r@ == a@,
{
    PlanAction { id: a.id.clone(), kind: a.kind, summary: a.summary.clone() }
}

/// The plan as it may be shown: every file redacted by `redact_file`, the
/// rest unchanged.
pub open spec fn spec_redacted(p: ChangePlanView) -> ChangePlanView {
    ChangePlanView {
        status: p.status,
        explanation: p.explanation,
        issues: p.issues,
        actions: p.actions,
        files: p.files.map_values(|f: RenderedFileView| redact_file(f)),
    }
}

/// Redaction keeps the plan: its status, explanation, issues and actions,
/// and its files in order under their paths. Only the contents change: a
/// file other than the sing-box configuration has its key lines redacted
/// and nothing else.
pub proof fn lemma_redaction_keeps_the_plan(p: ChangePlanView)
    ensures
        spec_redacted(p).status == p.status,
        spec_redacted(p).explanation == p.explanation,
        spec_redacted(p).issues == p.issues,
        spec_redacted(p).actions == p.actions,
        spec_redacted(p).files.len() == p.files.len(),
        forall|i: int|
            0 <= i < p.files.len() ==> (#[trigger] spec_redacted(p).files[i]).relative_path
                == p.files[i].relative_path,
        forall|i: int|
            0 <= i < p.files.len() && !ends_with(p.files[i].relative_path, "sing-box.json"@)
                ==> (#[trigger] spec_redacted(p).files[i]).contents == redact_key_lines(
                p.files[i].contents,
            ),
{
}

impl ChangePlan {
    /// A copy of the plan with its secrets hidden.
    pub fn redacted(&self) -> (r: ChangePlan)
        ensures
            r@ == spec_redacted(self@),
    {
        let mut issues: Vec<ValidationIssue> = Vec::new();
        let ni = self.issues.len();
        for i in 0..ni
            invariant
                ni == self.issues@.len(),
                issues@ == self.issues@.take(i as int),
        {
            issues.push(self.issues[i].clone_issue());
            assert(self.issues@.take((i + 1) as int) =~= self.issues@.take(i as int).push(self.issues@[i as int]));
        }
        assert(self.issues@.take(ni as int) =~= self.issues@);
        let mut actions: Vec<PlanAction> = Vec::new();
        let na = self.actions.len();
        for i in 0..na
            invariant
                na == self.actions@.len(),
                actions@.map_values(|a: PlanAction| a@) == self.actions@.take(i as int).map_values(
                    |a: PlanAction| a@,
                ),
        {
            let ghost before = actions@.map_values(|a: PlanAction| a@);
            let a = clone_action(&self.actions[i]);
            actions.push(a);
            assert(actions@.map_values(|a: PlanAction| a@) =~= before.push(a@));
            assert(self.actions@.take((i + 1) as int).map_values(|a: PlanAction| a@) =~= self.actions@.take(
                i as int,
            ).map_values(|a: PlanAction| a@).push(self.actions@[i as int]@));
        }
        assert(self.actions@.take(na as int) =~= self.actions@);
        let mut files: Vec<RenderedFile> = Vec::new();
        let nf = self.files.len();
        for i in 0..nf
            invariant
                nf == self.files@.len(),
                files@.map_values(|f: RenderedFile| f@) == self.files@.take(i as int).map_values(
                    |f: RenderedFile| redact_file(f@),
                ),
        {
            let ghost before = files@.map_values(|f: RenderedFile| f@);
            let f = redact_file_exec(&self.files[i]);
            files.push(f);
            assert(files@.map_values(|f: RenderedFile| f@) =~= before.push(f@));
            assert(self.files@.take((i + 1) as int).map_values(|f: RenderedFile| redact_file(f@)) =~= self.files@.take(
                i as int,
            ).map_values(|f: RenderedFile| redact_file(f@)).push(redact_file(self.files@[i as int]@)));
        }
        assert(self.files@.take(nf as int) =~= self.files@);
        let r = ChangePlan {
            status: self.status,
            explanation: self.explanation.clone(),
            issues,
            actions,
            files,
        };
        assert(r@.files =~= spec_redacted(self@).files);
        r
    }
}

} // verus!

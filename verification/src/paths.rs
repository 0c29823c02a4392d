//! Where the gateway keeps its configuration, state and generated files.

use vstd::prelude::*;

use crate::text::{
    eq_str, from_chars, last_index_of, push_all, rfind_char, slice_of, split_char, split_chars,
    to_chars,
};

verus! {

/// `Path::join` on path text: an absolute `rel` replaces `dir`; otherwise a
/// `/` is put between them unless `dir` is empty or already ends in one.
pub open spec fn join_path(dir: Seq<char>, rel: Seq<char>) -> Seq<char> {
    if rel.len() > 0 && rel[0] == '/' {
        rel
    } else if dir.len() == 0 || dir.last() == '/' {
        dir + rel
    } else {
        dir + seq!['/'] + rel
    }
}

/// Joins a relative (or absolute) path onto a directory.
pub fn join(dir: &str, rel: &str) -> (r: String)
    ensures
        r@ == join_path(dir@, rel@),
{
    let d = to_chars(dir);
    let r = to_chars(rel);
    if r.len() > 0 && r[0] == '/' {
        return from_chars(r.as_slice());
    }
    let mut out = d;
    if out.len() > 0 && out[out.len() - 1] != '/' {
        out.push('/');
    }
    push_all(&mut out, r.as_slice());
    from_chars(out.as_slice())
}

/// Where the body of a path starts: after a leading `/` (the root), or
/// after a leading `.` that is the whole path or is followed by `/` (the
/// current directory); at 0 otherwise.
pub open spec fn body_start(p: Seq<char>) -> int {
    if p.len() > 0 && p[0] == '/' {
        1
    } else if p.len() > 0 && p[0] == '.' && (p.len() == 1 || p[1] == '/') {
        1
    } else {
        0
    }
}

/// Scanning back from `i` to the body start `b`: the position just after
/// the nearest `/`, or `b` when there is none.
pub open spec fn comp_start(p: Seq<char>, b: int, i: int) -> int
    decreases i - b,
{
    if i <= b {
        b
    } else if p[i - 1] == '/' {
        i
    } else {
        comp_start(p, b, i - 1)
    }
}

/// Where the last component of the body starts.
pub open spec fn last_comp_start(p: Seq<char>, b: int) -> int {
    comp_start(p, b, p.len() as int)
}

pub proof fn lemma_comp_start_bounds(p: Seq<char>, b: int, i: int)
    requires
        b <= i,
    ensures
        b <= comp_start(p, b, i) <= i,
        comp_start(p, b, i) > b ==> p[comp_start(p, b, i) - 1] == '/',
    decreases i - b,
{
    if i > b && p[i - 1] != '/' {
        lemma_comp_start_bounds(p, b, i - 1);
    }
}

/// Where a path is cut to drop its last component: before the `/` that
/// opens it, or at the body start.
pub open spec fn cut_before(k: int, b: int) -> int {
    if k > b {
        k - 1
    } else {
        k
    }
}

/// The path with its trailing empty and `.` components (each with the `/`
/// before it) taken off, the part before the body start `b` kept.
pub open spec fn trim_tail(p: Seq<char>, b: int) -> Seq<char>
    decreases p.len(),
{
    if p.len() <= b || b < 0 {
        p
    } else {
        let k = last_comp_start(p, b);
        let comp = p.skip(k);
        if comp.len() == 0 || comp == seq!['.'] {
            proof {
                lemma_comp_start_bounds(p, b, p.len() as int);
            }
            trim_tail(p.take(cut_before(k, b)), b)
        } else {
            p
        }
    }
}

/// `Path::parent` on path text: empty and `.` components and repeated `/`
/// at the end are passed over; the last component that is left goes, with
/// what is left of the body trimmed the same way. A path that is only the
/// root, or empty, has no parent; one that is only the current directory
/// `.` has the empty path as its parent.
pub open spec fn parent_path(p: Seq<char>) -> Option<Seq<char>> {
    let b = body_start(p);
    let t = trim_tail(p, b);
    if t.len() <= b {
        if b == 1 && p[0] == '.' {
            Some(Seq::empty())
        } else {
            None
        }
    } else {
        Some(trim_tail(t.take(cut_before(last_comp_start(t, b), b)), b))
    }
}

fn comp_start_exec(cs: &[char], n: usize, b: usize) -> (k: usize)
    requires
        b <= n <= cs@.len(),
    ensures
        k as int == last_comp_start(cs@.take(n as int), b as int),
        b <= k <= n,
{
    let ghost t = cs@.take(n as int);
    let mut i = n;
    while i > b && cs[i - 1] != '/'
        invariant
            b <= i <= n <= cs@.len(),
            t == cs@.take(n as int),
            last_comp_start(t, b as int) == comp_start(t, b as int, i as int),
        decreases i,
    {
        assert(t[i - 1] == cs@[i - 1]);
        i = i - 1;
    }
    if i > b {
        assert(t[i - 1] == cs@[i - 1]);
    }
    i
}

fn trim_tail_exec(cs: &[char], n: usize, b: usize) -> (m: usize)
    requires
        b <= n <= cs@.len(),
    ensures
        b <= m <= n,
        cs@.take(m as int) == trim_tail(cs@.take(n as int), b as int),
{
    let mut m = n;
    loop
        invariant
            b <= m <= n <= cs@.len(),
            trim_tail(cs@.take(n as int), b as int) == trim_tail(cs@.take(m as int), b as int),
        ensures
            b <= m <= n,
            cs@.take(m as int) == trim_tail(cs@.take(n as int), b as int),
        decreases m,
    {
        let ghost t = cs@.take(m as int);
        if m <= b {
            break;
        }
        let k = comp_start_exec(cs, m, b);
        let empty = k == m;
        let dot = k < m && m - k == 1 && cs[k] == '.';
        proof {
            assert(t.skip(k as int).len() == m - k);
            if dot {
                assert(t.skip(k as int) =~= seq!['.']);
            }
            if !empty && t.skip(k as int) == seq!['.'] {
                assert(t.skip(k as int)[0] == cs@[k as int]);
            }
        }
        if empty || dot {
            let cut = if k > b {
                k - 1
            } else {
                k
            };
            assert(t.take(cut as int) =~= cs@.take(cut as int));
            m = cut;
        } else {
            break;
        }
    }
    m
}

/// The parent directory of a path (`Path::parent`).
pub fn parent(p: &str) -> (r: Option<String>)
    ensures
        match r {
            Some(d) => parent_path(p@) == Some(d@),
            None => parent_path(p@) is None,
        },
{
    let cs = to_chars(p);
    let len = cs.len();
    assert(cs@.take(len as int) =~= cs@);
    let b: usize = if len > 0 && cs[0] == '/' {
        1
    } else if len > 0 && cs[0] == '.' && (len == 1 || cs[1] == '/') {
        1
    } else {
        0
    };
    if len < b {
        return None;
    }
    let t = trim_tail_exec(cs.as_slice(), len, b);
    if t <= b {
        if b == 1 && cs[0] == '.' {
            return Some(String::new());
        }
        return None;
    }
    let k = comp_start_exec(cs.as_slice(), t, b);
    let cut = if k > b {
        k - 1
    } else {
        k
    };
    let ghost tv = cs@.take(t as int);
    assert(tv.take(cut as int) =~= cs@.take(cut as int));
    let m = trim_tail_exec(cs.as_slice(), cut, b);
    let d = slice_of(cs.as_slice(), 0, m);
    assert(d@ =~= cs@.take(m as int));
    Some(from_chars(d.as_slice()))
}

#[derive(Debug, Clone, PartialEq, Eq)]
pub struct Paths {
    pub root: String,
    pub config: String,
    pub secrets: String,
    pub state_db: String,
    pub runtime_dir: String,
    pub log_dir: String,
    pub backup_dir: String,
    pub generated_dir: String,
}

pub struct PathsView {
    pub root: Seq<char>,
    pub config: Seq<char>,
    pub secrets: Seq<char>,
    pub state_db: Seq<char>,
    pub runtime_dir: Seq<char>,
    pub log_dir: Seq<char>,
    pub backup_dir: Seq<char>,
    pub generated_dir: Seq<char>,
}

impl View for Paths {
    type V = PathsView;

    open spec fn view(&self) -> PathsView {
        PathsView {
            root: self.root@,
            config: self.config@,
            secrets: self.secrets@,
            state_db: self.state_db@,
            runtime_dir: self.runtime_dir@,
            log_dir: self.log_dir@,
            backup_dir: self.backup_dir@,
            generated_dir: self.generated_dir@,
        }
    }
}

/// The layout of an installation under `root`: configuration in
/// `etc/gateway-kit`, state in `var/lib/gateway-kit`.
pub open spec fn layout_under(root: Seq<char>) -> PathsView {
    let etc = join_path(root, "etc/gateway-kit"@);
    let var = join_path(root, "var/lib/gateway-kit"@);
    PathsView {
        root,
        config: join_path(etc, "config.toml"@),
        secrets: join_path(etc, "secrets.toml"@),
        state_db: join_path(var, "state.db"@),
        runtime_dir: join_path(root, "run/gateway-kit"@),
        log_dir: join_path(root, "var/log/gateway-kit"@),
        backup_dir: join_path(root, "var/backups/gateway-kit"@),
        generated_dir: join_path(etc, "generated"@),
    }
}

/// The components of a path after its root: the pieces between `/` that
/// are neither empty nor `.` (how `Path` compares paths).
pub open spec fn path_parts(pieces: Seq<Seq<char>>) -> Seq<Seq<char>>
    decreases pieces.len(),
{
    if pieces.len() == 0 {
        seq![]
    } else {
        let p = pieces.last();
        if p.len() == 0 || p == "."@ {
            path_parts(pieces.drop_last())
        } else {
            path_parts(pieces.drop_last()).push(p)
        }
    }
}

/// The path is the host installation's configuration file,
/// `/etc/gateway-kit/config.toml`: absolute, with the components `etc`,
/// `gateway-kit`, `config.toml`.
pub open spec fn is_host_config(p: Seq<char>) -> bool {
    &&& p.len() > 0
    &&& p[0] == '/'
    &&& path_parts(split_char(p, '/')) == seq!["etc"@, "gateway-kit"@, "config.toml"@]
}

impl Default for Paths {
    fn default() -> (r: Self)
        ensures
            r@ == layout_under("/"@),
    {
        Paths::from_root("/")
    }
}

impl Paths {
    /// The layout of an installation under `root`.
    pub fn from_root(root: &str) -> (r: Self)
        ensures
            r@ == layout_under(root@),
    {
        let etc = join(root, "etc/gateway-kit");
        let var = join(root, "var/lib/gateway-kit");
        Paths {
            config: join(etc.as_str(), "config.toml"),
            secrets: join(etc.as_str(), "secrets.toml"),
            state_db: join(var.as_str(), "state.db"),
            runtime_dir: join(root, "run/gateway-kit"),
            log_dir: join(root, "var/log/gateway-kit"),
            backup_dir: join(root, "var/backups/gateway-kit"),
            generated_dir: join(etc.as_str(), "generated"),
            root: root.to_owned(),
        }
    }

    /// The host layout; a configuration file named from outside (the
    /// `GATEWAY_KIT_CONFIG` setting) moves the configuration, the secrets and
    /// the generated files next to it, when it has a parent directory.
    pub fn production_with(config_override: Option<&str>) -> (r: Self)
        ensures
            match config_override {
                None => r@ == layout_under("/"@),
                Some(c) => match parent_path(c@) {
                    None => r@ == layout_under("/"@),
                    Some(etc) => r@ == (PathsView {
                        secrets: join_path(etc, "secrets.toml"@),
                        generated_dir: join_path(etc, "generated"@),
                        config: c@,
                        ..layout_under("/"@)
                    }),
                },
            },
    {
        let mut paths = Paths::from_root("/");
        match config_override {
            Some(c) => match parent(c) {
                Some(etc) => {
                    paths.secrets = join(etc.as_str(), "secrets.toml");
                    paths.generated_dir = join(etc.as_str(), "generated");
                    paths.config = c.to_owned();
                },
                None => {},
            },
            None => {},
        }
        paths
    }

    /// The layout of a development checkout: everything relative to the
    /// working directory.
    pub fn workspace() -> (r: Self)
        ensures
            r@ == (PathsView {
                root: "."@,
                config: "config.toml"@,
                secrets: "secrets.toml"@,
                state_db: "state.db"@,
                runtime_dir: "run"@,
                log_dir: "logs"@,
                backup_dir: "backups"@,
                generated_dir: "generated"@,
            }),
    {
        Paths {
            root: ".".to_owned(),
            config: "config.toml".to_owned(),
            secrets: "secrets.toml".to_owned(),
            state_db: "state.db".to_owned(),
            runtime_dir: "run".to_owned(),
            log_dir: "logs".to_owned(),
            backup_dir: "backups".to_owned(),
            generated_dir: "generated".to_owned(),
        }
    }

    /// Whether this layout is the host installation, whose systemd units the
    /// gateway enables and disables: its configuration file is
    /// `/etc/gateway-kit/config.toml`, compared as paths are.
    pub fn manages_host_units(&self) -> (r: bool)
        ensures
            r == is_host_config(self.config@),
    {
        let cs = to_chars(self.config.as_str());
        if cs.len() == 0 || cs[0] != '/' {
            return false;
        }
        let pieces = split_chars(cs.as_slice(), '/');
        let ghost pv = pieces@.map_values(|v: Vec<char>| v@);
        let mut parts: Vec<Vec<char>> = Vec::new();
        let n = pieces.len();
        assert(pv.take(0) =~= Seq::<Seq<char>>::empty());
        for i in 0..n
            invariant
                n == pieces@.len(),
                pv == pieces@.map_values(|v: Vec<char>| v@),
                parts@.map_values(|v: Vec<char>| v@) == path_parts(pv.take(i as int)),
        {
            assert(pv.take((i + 1) as int).drop_last() =~= pv.take(i as int));
            assert(pv[i as int] == pieces@[i as int]@);
            let piece = &pieces[i];
            if !(piece.len() == 0 || eq_str(piece.as_slice(), ".")) {
                let mut copy: Vec<char> = Vec::new();
                push_all(&mut copy, piece.as_slice());
                let ghost before = parts@.map_values(|v: Vec<char>| v@);
                parts.push(copy);
                assert(parts@.map_values(|v: Vec<char>| v@) =~= before.push(piece@));
            }
        }
        assert(pv.take(n as int) =~= pv);
        let ghost got = parts@.map_values(|v: Vec<char>| v@);
        let r = parts.len() == 3 && eq_str(parts[0].as_slice(), "etc") && eq_str(parts[1].as_slice(), "gateway-kit")
            && eq_str(parts[2].as_slice(), "config.toml");
        proof {
            if parts.len() == 3 {
                assert(got[0] == parts@[0]@ && got[1] == parts@[1]@ && got[2] == parts@[2]@);
                if r {
                    assert(got =~= seq!["etc"@, "gateway-kit"@, "config.toml"@]);
                }
            }
        }
        r
    }
}

} // verus!

//! Where the service keeps its files and how it finds the bundled tmux.
use vstd::prelude::*;
use crate::models::opt_view;
use crate::text::{chars_of, has_prefix, concat_str, concat3, parse_u16, parse_unsigned};

verus! {

// ─── Paths ──────────────────────────────────────────────────────────────

/// `PathBuf::join` on Unix: an absolute `name` replaces `base`; otherwise `name` is
/// appended, with a `/` between unless `base` is empty or already ends in one.
pub open spec fn path_join(base: Seq<char>, name: Seq<char>) -> Seq<char> {
    if name.len() > 0 && name[0] == '/' {
        name
    } else if base.len() == 0 || base.last() == '/' {
        base + name
    } else {
        base + seq!['/'] + name
    }
}

/// Joining: an absolute name stands alone; a relative one goes under the base, after a
/// single `/`.
pub proof fn lemma_path_join(base: Seq<char>, name: Seq<char>)
    ensures
        name.len() > 0 && name[0] == '/' ==> path_join(base, name) == name,
        !(name.len() > 0 && name[0] == '/') && base.len() > 0 && base.last() != '/' ==> path_join(
            base,
            name,
        ) == base + seq!['/'] + name,
        !(name.len() > 0 && name[0] == '/') && base.len() > 0 && base.last() == '/' ==> path_join(
            base,
            name,
        ) == base + name,
{
}

/// `base.join(name)`.
pub fn join_path(base: &str, name: &str) -> (r: String)
    ensures
        r@ == path_join(base@, name@),
{
    let b = chars_of(base);
    let n = chars_of(name);
    if n.len() > 0 && n[0] == '/' {
        String::from_str(name)
    } else if b.len() == 0 || b[b.len() - 1] == '/' {
        concat_str(base, name)
    } else {
        proof {
            reveal_strlit("/");
        }
        concat3(base, "/", name)
    }
}

/// A path is absolute on Unix when it starts at the root.
pub open spec fn is_absolute(p: Seq<char>) -> bool {
    p.len() > 0 && p[0] == '/'
}

// ─── Configuration ──────────────────────────────────────────────────────

/// The service's settings and the files and directories it works with.
#[derive(Debug)]
pub struct AppConfig {
    pub data_dir: String,
    pub db_path: String,
    pub jwt_secret_file: String,
    pub auth_file: String,
    pub skip_auth_file: String,
    pub session_file: String,
    pub backgrounds_dir: String,
    pub logs_dir: String,
    pub sessions_dir: String,
    pub ui_dir: String,
    pub socket_path: String,
    pub clipboard_dir: String,
    pub log_file: String,
    pub jwt_secret: String,
    pub host: String,
    pub port: u16,
}

/// The port a `PORT` value selects: the value when it parses as a `u16`, else the
/// service's default port 18732.
pub open spec fn port_from(port: Option<Seq<char>>) -> u16 {
    match port {
        Some(p) => match parse_unsigned(p) {
            Some(v) => if v <= u16::MAX {
                v as u16
            } else {
                18732
            },
            None => 18732,
        },
        None => 18732,
    }
}

/// The first of two settings that is set, else the default.
pub open spec fn first_set(a: Option<Seq<char>>, b: Option<Seq<char>>, default: Seq<char>) -> Seq<
    char,
> {
    match a {
        Some(x) => x,
        None => match b {
            Some(y) => y,
            None => default,
        },
    }
}

/// The environment's settings, each `None` when the variable is unset.
#[derive(Debug)]
pub struct ConfigEnv {
    /// `RMUX_DATA_DIR`: the data directory.
    pub rmux_data_dir: Option<String>,
    /// `RMUX_APPDIR`: the application directory.
    pub rmux_appdir: Option<String>,
    /// `RMUX_UI_DIR`: the front end's directory.
    pub rmux_ui_dir: Option<String>,
    /// `TRIM_PKGVAR`: the data directory the package manager gives.
    pub trim_pkgvar: Option<String>,
    /// `TRIM_APPDEST`: the application directory the package manager gives.
    pub trim_appdest: Option<String>,
    /// `JWT_SECRET`: the token signing secret.
    pub jwt_secret: Option<String>,
    /// `HOST`: the address to listen on.
    pub host: Option<String>,
    /// `PORT`: the port to listen on.
    pub port: Option<String>,
}

/// The layout of a configuration: every file under the data directory, the front end
/// under `<app>/www`, sockets and pasted files in fixed directories under `/tmp`.
pub open spec fn config_layout(c: AppConfig) -> bool {
    let d = c.data_dir@;
    &&& c.db_path@ == path_join(d, "rmux.db"@)
    &&& c.jwt_secret_file@ == path_join(d, "rmux_jwt_secret_v2"@)
    &&& c.auth_file@ == path_join(d, "rmux_auth.json"@)
    &&& c.skip_auth_file@ == path_join(d, ".skip_auth"@)
    &&& c.session_file@ == path_join(d, "rmux_sessions.json"@)
    &&& c.backgrounds_dir@ == path_join(d, "backgrounds"@)
    &&& c.logs_dir@ == path_join(d, "logs"@)
    &&& c.sessions_dir@ == path_join(d, "sessions"@)
    &&& c.socket_path@ == "/tmp/rmux_socks"@
    &&& c.clipboard_dir@ == "/tmp/rmux_clipboard"@
    &&& c.log_file@ == path_join(d, "rmux.log"@)
}

fn first_of(a: Option<String>, b: Option<String>, default: &str) -> (r: String)
    ensures
        r@ == first_set(opt_view(a), opt_view(b), default@),
{
    match a {
        Some(x) => x,
        None => or_default(b, default),
    }
}

fn or_default(v: Option<String>, default: &str) -> (r: String)
    ensures
        r@ == (match v {
            Some(s) => s@,
            None => default@,
        }),
{
    match v {
        Some(s) => s,
        None => String::from_str(default),
    }
}

impl AppConfig {
    /// The configuration that the environment's values select. The `RMUX_*` variables come
    /// first: the data directory is `RMUX_DATA_DIR`, else `TRIM_PKGVAR`, else `/tmp/rmux`;
    /// the application directory `RMUX_APPDIR`, else `TRIM_APPDEST`, else `.`; the front
    /// end `RMUX_UI_DIR`, else `www` in the application directory. `HOST` defaults to
    /// `0.0.0.0`, `PORT` to 18732, `JWT_SECRET` to the empty string.
    pub fn from_values(env: ConfigEnv) -> (r: AppConfig)
        ensures
            r.data_dir@ == first_set(opt_view(env.rmux_data_dir), opt_view(env.trim_pkgvar), "/tmp/rmux"@),
            r.ui_dir@ == (match opt_view(env.rmux_ui_dir) {
                Some(u) => u,
                None => path_join(
                    first_set(opt_view(env.rmux_appdir), opt_view(env.trim_appdest), "."@),
                    "www"@,
                ),
            }),
            r.jwt_secret@ == (match opt_view(env.jwt_secret) {
                Some(s) => s,
                None => Seq::<char>::empty(),
            }),
            r.host@ == (match opt_view(env.host) {
                Some(h) => h,
                None => "0.0.0.0"@,
            }),
            r.port == port_from(opt_view(env.port)),
            config_layout(r),
            env.port is None ==> r.port == 18732,
            env.rmux_data_dir matches Some(d) ==> r.data_dir@ == d@,
            env.rmux_data_dir is None ==> (env.trim_pkgvar matches Some(d) ==> r.data_dir@ == d@),
            env.rmux_data_dir is None && env.trim_pkgvar is None ==> r.data_dir@ == "/tmp/rmux"@,
            env.rmux_ui_dir matches Some(u) ==> r.ui_dir@ == u@,
            env.rmux_ui_dir is None ==> (env.rmux_appdir matches Some(a) ==> r.ui_dir@ == path_join(
                a@,
                "www"@,
            )),
            env.rmux_ui_dir is None && env.rmux_appdir is None ==> (env.trim_appdest matches Some(a)
                ==> r.ui_dir@ == path_join(a@, "www"@)),
            r.db_path@ == path_join(r.data_dir@, "rmux.db"@),
            r.auth_file@ == path_join(r.data_dir@, "rmux_auth.json"@),
            r.skip_auth_file@ == path_join(r.data_dir@, ".skip_auth"@),
            r.session_file@ == path_join(r.data_dir@, "rmux_sessions.json"@),
            r.backgrounds_dir@ == path_join(r.data_dir@, "backgrounds"@),
            r.jwt_secret_file@ == path_join(r.data_dir@, "rmux_jwt_secret_v2"@),
    {
        let ConfigEnv { rmux_data_dir, rmux_appdir, rmux_ui_dir, trim_pkgvar, trim_appdest, jwt_secret, host, port } = env;
        let data_dir = first_of(rmux_data_dir, trim_pkgvar, "/tmp/rmux");
        let ui_dir = match rmux_ui_dir {
            Some(u) => u,
            None => {
                let app_dest = first_of(rmux_appdir, trim_appdest, ".");
                join_path(app_dest.as_str(), "www")
            },
        };
        let secret = or_default(jwt_secret, "");
        proof {
            reveal_strlit("");
        }
        let port_value: u16 = match &port {
            Some(p) => match parse_u16(p.as_str()) {
                Some(v) => v,
                None => 18732,
            },
            None => 18732,
        };
        let d = data_dir.as_str();
        AppConfig {
            db_path: join_path(d, "rmux.db"),
            jwt_secret_file: join_path(d, "rmux_jwt_secret_v2"),
            auth_file: join_path(d, "rmux_auth.json"),
            skip_auth_file: join_path(d, ".skip_auth"),
            session_file: join_path(d, "rmux_sessions.json"),
            backgrounds_dir: join_path(d, "backgrounds"),
            logs_dir: join_path(d, "logs"),
            sessions_dir: join_path(d, "sessions"),
            ui_dir,
            socket_path: String::from_str("/tmp/rmux_socks"),
            clipboard_dir: String::from_str("/tmp/rmux_clipboard"),
            log_file: join_path(d, "rmux.log"),
            jwt_secret: secret,
            host: or_default(host, "0.0.0.0"),
            port: port_value,
            data_dir,
        }
    }

    /// The application directory, `RMUX_APPDIR` else `TRIM_APPDEST`, when it is an absolute
    /// path.
    pub fn app_root_dir(rmux_appdir: Option<String>, trim_appdest: Option<String>) -> (r: Option<
        String,
    >)
        ensures
            opt_view(r) == (match (match opt_view(rmux_appdir) {
                Some(a) => Some(a),
                None => opt_view(trim_appdest),
            }) {
                Some(a) => if is_absolute(a) {
                    Some(a)
                } else {
                    None
                },
                None => None,
            }),
    {
        let appdest = match rmux_appdir {
            Some(a) => Some(a),
            None => trim_appdest,
        };
        match appdest {
            Some(a) => {
                let v = chars_of(a.as_str());
                if v.len() > 0 && v[0] == '/' {
                    Some(a)
                } else {
                    None
                }
            },
            None => None,
        }
    }
}

// ─── The bundled tmux ───────────────────────────────────────────────────

/// The places a bundled file may be, in the order they are tried: under the application
/// directory, then under the directory two levels above the executable.
pub open spec fn bundle_candidates(
    app_root: Option<Seq<char>>,
    exe_grandparent: Option<Seq<char>>,
    rel: Seq<char>,
) -> Seq<Seq<char>> {
    let first = match app_root {
        Some(r) => seq![path_join(r, rel)],
        None => seq![],
    };
    let second = match exe_grandparent {
        Some(e) => seq![path_join(e, rel)],
        None => seq![],
    };
    first + second
}

/// The places a bundled file at `rel` may be.
pub fn bundle_candidates_of(
    app_root: &Option<String>,
    exe_grandparent: &Option<String>,
    rel: &str,
) -> (r: Vec<String>)
    ensures
        r.deep_view() == bundle_candidates(opt_view(*app_root), opt_view(*exe_grandparent), rel@),
{
    let mut out: Vec<String> = Vec::new();
    match app_root {
        Some(a) => {
            out.push(join_path(a.as_str(), rel));
        },
        None => {},
    }
    let ghost first = out.deep_view();
    match exe_grandparent {
        Some(e) => {
            out.push(join_path(e.as_str(), rel));
        },
        None => {},
    }
    assert(out.deep_view() =~= bundle_candidates(
        opt_view(*app_root),
        opt_view(*exe_grandparent),
        rel@,
    ));
    out
}

/// The places the tmux binary may be, in the order they are tried: `RMUX_TMUX` when set,
/// then `server/bin/tmux` under the application directory and under the directory two
/// levels above the executable.
pub open spec fn tmux_candidates_spec(
    rmux_tmux: Option<Seq<char>>,
    app_root: Option<Seq<char>>,
    exe_grandparent: Option<Seq<char>>,
) -> Seq<Seq<char>> {
    let first = match rmux_tmux {
        Some(t) => seq![t],
        None => seq![],
    };
    first + bundle_candidates(app_root, exe_grandparent, "server/bin/tmux"@)
}

/// The places the tmux binary may be.
pub fn tmux_candidates(
    rmux_tmux: &Option<String>,
    app_root: &Option<String>,
    exe_grandparent: &Option<String>,
) -> (r: Vec<String>)
    ensures
        r.deep_view() == tmux_candidates_spec(
            opt_view(*rmux_tmux),
            opt_view(*app_root),
            opt_view(*exe_grandparent),
        ),
        *rmux_tmux matches Some(t) ==> r@.len() >= 1 && r@[0]@ == t@,
        r@.len() == (if rmux_tmux is Some { 1int } else { 0int }) + (if app_root is Some {
            1int
        } else {
            0int
        }) + (if exe_grandparent is Some {
            1int
        } else {
            0int
        }),
{
    let mut out: Vec<String> = Vec::new();
    match rmux_tmux {
        Some(t) => {
            out.push(t.clone());
        },
        None => {},
    }
    let ghost first = out.deep_view();
    let rest = bundle_candidates_of(app_root, exe_grandparent, "server/bin/tmux");
    let ghost rv = rest.deep_view();
    let mut i: usize = 0;
    while i < rest.len()
        invariant
            i <= rest@.len(),
            rv == rest.deep_view(),
            out.deep_view() == first + rv.take(i as int),
        decreases rest.len() - i,
    {
        let ghost before = out.deep_view();
        let c = rest[i].clone();
        out.push(c);
        assert(out.deep_view() =~= before.push(rv[i as int]));
        assert(rv.take(i + 1) =~= rv.take(i as int).push(rv[i as int]));
        assert(out.deep_view() =~= first + rv.take(i + 1));
        i = i + 1;
    }
    assert(rv.take(rv.len() as int) =~= rv);
    proof {
        reveal_strlit("server/bin/tmux");
    }
    assert(out.deep_view() =~= tmux_candidates_spec(
        opt_view(*rmux_tmux),
        opt_view(*app_root),
        opt_view(*exe_grandparent),
    ));
    if rmux_tmux.is_some() {
        assert(out.deep_view().len() >= 1);
        assert(out.deep_view()[0] == out@[0]@);
    }
    out
}

/// The index of the first candidate that exists, or the number of candidates.
pub open spec fn first_existing(exists: Seq<bool>) -> int
    decreases exists.len(),
{
    if exists.len() == 0 {
        0
    } else if exists[0] {
        0
    } else {
        1 + first_existing(exists.drop_first())
    }
}

/// The first candidate that exists is found: no earlier one exists.
pub proof fn lemma_first_existing(exists: Seq<bool>)
    ensures
        0 <= first_existing(exists) <= exists.len(),
        first_existing(exists) < exists.len() ==> exists[first_existing(exists)],
        forall|j: int| 0 <= j < first_existing(exists) ==> !#[trigger] exists[j],
    decreases exists.len(),
{
    if exists.len() > 0 && !exists[0] {
        lemma_first_existing(exists.drop_first());
        assert forall|j: int| 0 <= j < first_existing(exists) implies !#[trigger] exists[j] by {
            if j > 0 {
                assert(exists.drop_first()[j - 1] == exists[j]);
            }
        }
    }
}

fn first_existing_index(exists: &Vec<bool>) -> (r: usize)
    ensures
        r == first_existing(exists@),
        r <= exists@.len(),
{
    let mut i: usize = 0;
    assert(exists@.skip(0) =~= exists@);
    while i < exists.len() && !exists[i]
        invariant
            i <= exists@.len(),
            first_existing(exists@) == i + first_existing(exists@.skip(i as int)),
        decreases exists.len() - i,
    {
        assert(exists@.skip(i as int).drop_first() =~= exists@.skip(i + 1));
        i = i + 1;
    }
    proof {
        if i < exists@.len() {
            assert(exists@.skip(i as int)[0]);
        } else {
            assert(exists@.skip(i as int).len() == 0);
        }
    }
    i
}

/// The tmux binary: the first candidate that exists, else `tmux` from the search path.
/// `exists[i]` says whether `candidates[i]` exists.
pub fn tmux_path(candidates: &Vec<String>, exists: &Vec<bool>) -> (r: String)
    requires
        candidates@.len() == exists@.len(),
    ensures
        exists@.len() > 0 && exists@[0] ==> r@ == candidates@[0]@,
        (forall|i: int| 0 <= i < exists@.len() ==> !#[trigger] exists@[i]) ==> r@ == "tmux"@,
        r@ != "tmux"@ ==> exists|i: int|
            0 <= i < exists@.len() && exists@[i] && r@ == candidates@[i]@ && forall|j: int|
                0 <= j < i ==> !#[trigger] exists@[j],
        r@ == (if first_existing(exists@) < candidates@.len() {
            candidates.deep_view()[first_existing(exists@)]
        } else {
            "tmux"@
        }),
{
    proof {
        lemma_first_existing(exists@);
        let k = first_existing(exists@);
        if k < exists@.len() {
            assert(candidates.deep_view()[k] == candidates@[k]@);
        }
        if (forall|i: int| 0 <= i < exists@.len() ==> !#[trigger] exists@[i]) && k < exists@.len() {
            assert(!exists@[k]);
        }
    }
    let i = first_existing_index(exists);
    if i < candidates.len() {
        candidates[i].clone()
    } else {
        String::from_str("tmux")
    }
}

/// The file whose presence marks a usable library directory.
pub fn tmux_lib_marker(dir: &str) -> (r: String)
    ensures
        r@ == path_join(dir@, "libutempter.so.0"@),
{
    join_path(dir, "libutempter.so.0")
}

/// tmux's library directory: `RMUX_TMUX_LIB_DIR` when it is set and a directory
/// (`rmux_lib_is_dir`), else the first bundled candidate that holds the marker library
/// (`has_marker[i]` says whether `candidates[i]` holds it).
pub fn tmux_lib_dir(
    rmux_lib_dir: Option<String>,
    rmux_lib_is_dir: bool,
    candidates: &Vec<String>,
    has_marker: &Vec<bool>,
) -> (r: Option<String>)
    requires
        candidates@.len() == has_marker@.len(),
    ensures
        opt_view(r) == (match opt_view(rmux_lib_dir) {
            Some(d) if rmux_lib_is_dir => Some(d),
            _ => if first_existing(has_marker@) < candidates@.len() {
                Some(candidates.deep_view()[first_existing(has_marker@)])
            } else {
                None
            },
        }),
{
    match rmux_lib_dir {
        Some(d) => {
            if rmux_lib_is_dir {
                return Some(d);
            }
        },
        None => {},
    }
    let i = first_existing_index(has_marker);
    if i < candidates.len() {
        Some(candidates[i].clone())
    } else {
        None
    }
}

} // verus!

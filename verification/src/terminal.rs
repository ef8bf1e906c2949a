//! tmux: the command lines that create, query, attach to, paste into and end sessions.
use vstd::prelude::*;
use crate::models::{AuthUser, TerminalSession, TerminalSessionView, TermSize, opt_view};
use crate::config::{join_path, path_join};
use crate::text::{chars_of, push_char, u64_to_decimal, decimal, concat3, trim, trim_string};
use crate::fresh::{is_rfc3339_utc_text, is_simple_uuid_text, is_uuid_text, now_rfc3339, uuid_simple_text, uuid_text};

verus! {

// ─── Shell quoting ──────────────────────────────────────────────────────

/// How one character stands inside single quotes: itself, except that a quote closes the
/// quoting, is written escaped, and reopens it.
pub open spec fn quote_piece(c: char) -> Seq<char> {
    if c == '\'' {
        seq!['\'', '\\', '\'', '\'']
    } else {
        seq![c]
    }
}

/// The characters of `s` as they stand between single quotes.
pub open spec fn quote_escape(s: Seq<char>) -> Seq<char>
    decreases s.len(),
{
    if s.len() == 0 {
        seq![]
    } else {
        quote_piece(s[0]) + quote_escape(s.drop_first())
    }
}

/// `s` as one single-quoted shell word.
pub open spec fn shell_quoted(s: Seq<char>) -> Seq<char> {
    seq!['\''] + quote_escape(s) + seq!['\'']
}

proof fn lemma_quote_escape_push(s: Seq<char>, c: char)
    ensures
        quote_escape(s.push(c)) == quote_escape(s) + quote_piece(c),
    decreases s.len(),
{
    if s.len() == 0 {
        assert(s.push(c).drop_first() =~= Seq::<char>::empty());
        assert(quote_escape(s.push(c)) =~= quote_piece(c) + quote_escape(Seq::<char>::empty()));
        assert(quote_escape(s) + quote_piece(c) =~= quote_piece(c));
    } else {
        lemma_quote_escape_push(s.drop_first(), c);
        assert(s.push(c).drop_first() =~= s.drop_first().push(c));
        assert(quote_escape(s.push(c)) =~= quote_piece(s[0]) + quote_escape(
            s.drop_first().push(c),
        ));
    }
}

/// `value` as one single-quoted shell word: `'` … `'`, each `'` inside written `'\''`.
pub fn shell_quote(value: &str) -> (r: String)
    ensures
        r@ == shell_quoted(value@),
{
    let v = chars_of(value);
    let mut out = String::new();
    push_char(&mut out, '\'');
    let mut i: usize = 0;
    while i < v.len()
        invariant
            v@ == value@,
            i <= v@.len(),
            out@ == seq!['\''] + quote_escape(v@.take(i as int)),
        decreases v.len() - i,
    {
        let c = v[i];
        if c == '\'' {
            push_char(&mut out, '\'');
            push_char(&mut out, '\\');
            push_char(&mut out, '\'');
            push_char(&mut out, '\'');
        } else {
            push_char(&mut out, c);
        }
        proof {
            lemma_quote_escape_push(v@.take(i as int), c);
            assert(v@.take(i + 1) =~= v@.take(i as int).push(c));
        }
        i = i + 1;
    }
    push_char(&mut out, '\'');
    assert(v@.take(v@.len() as int) =~= v@);
    out
}

/// How a POSIX shell reads a word made of single-quoted parts and backslash escapes,
/// outside quotes: a quote opens quoting, a backslash takes the next character as it is.
/// Anything else is not such a word.
pub open spec fn sh_read_unquoted(w: Seq<char>) -> Option<Seq<char>>
    decreases w.len(),
{
    if w.len() == 0 {
        Some(seq![])
    } else if w[0] == '\'' {
        sh_read_quoted(w.drop_first())
    } else if w[0] == '\\' && w.len() >= 2 {
        match sh_read_unquoted(w.skip(2)) {
            Some(r) => Some(seq![w[1]] + r),
            None => None,
        }
    } else {
        None
    }
}

/// The same reading inside single quotes: every character stands for itself until the
/// closing quote; an unclosed quote is no word.
pub open spec fn sh_read_quoted(w: Seq<char>) -> Option<Seq<char>>
    decreases w.len(),
{
    if w.len() == 0 {
        None
    } else if w[0] == '\'' {
        sh_read_unquoted(w.drop_first())
    } else {
        match sh_read_quoted(w.drop_first()) {
            Some(r) => Some(seq![w[0]] + r),
            None => None,
        }
    }
}

proof fn lemma_read_escaped(s: Seq<char>, t: Seq<char>)
    ensures
        sh_read_quoted(quote_escape(s) + seq!['\''] + t) == (match sh_read_unquoted(t) {
            Some(r) => Some(s + r),
            None => None,
        }),
    decreases s.len(),
{
    if s.len() == 0 {
        assert(quote_escape(s) + seq!['\''] + t =~= seq!['\''] + t);
        assert((seq!['\''] + t).drop_first() =~= t);
        match sh_read_unquoted(t) {
            Some(r) => assert(s + r =~= r),
            None => {},
        }
    } else {
        let rest = s.drop_first();
        lemma_read_escaped(rest, t);
        let tail = quote_escape(rest) + seq!['\''] + t;
        let w = quote_escape(s) + seq!['\''] + t;
        assert(w =~= quote_piece(s[0]) + tail);
        if s[0] == '\'' {
            let w1 = w.drop_first();
            assert(w1 =~= seq!['\\', '\'', '\''] + tail);
            let w2 = w1.skip(2);
            assert(w2 =~= seq!['\''] + tail);
            assert(w2.drop_first() =~= tail);
            assert(sh_read_unquoted(w2) == sh_read_quoted(tail));
            assert(sh_read_quoted(w) == sh_read_unquoted(w1));
            match sh_read_unquoted(t) {
                Some(r) => {
                    assert(sh_read_unquoted(w1) == Some(seq![w1[1]] + (rest + r)));
                    assert(s + r =~= seq!['\''] + (rest + r));
                },
                None => {},
            }
        } else {
            assert(w.drop_first() =~= tail);
            assert(w[0] == s[0]);
            match sh_read_unquoted(t) {
                Some(r) => assert(s + r =~= seq![s[0]] + (rest + r)),
                None => {},
            }
        }
    }
}

/// Quoting round-trips: the shell reads the quoted word back as the string that was quoted.
pub proof fn lemma_shell_quote_round_trip(s: Seq<char>)
    ensures
        sh_read_unquoted(shell_quoted(s)) == Some(s),
{
    lemma_read_escaped(s, seq![]);
    assert(shell_quoted(s).drop_first() =~= quote_escape(s) + seq!['\''] + Seq::<char>::empty());
    assert(s + Seq::<char>::empty() =~= s);
}

// ─── Command lines ──────────────────────────────────────────────────────

/// The parts joined with single spaces (`[..].join(" ")`).
pub open spec fn join_spaced(parts: Seq<Seq<char>>) -> Seq<char>
    decreases parts.len(),
{
    if parts.len() == 0 {
        seq![]
    } else if parts.len() == 1 {
        parts[0]
    } else {
        join_spaced(parts.drop_last()) + seq![' '] + parts.last()
    }
}

/// The environment a command line exports before running tmux: the bundled library
/// directory (if any) ahead of the inherited search path, and a UTF-8 locale.
pub open spec fn env_prefix_spec(lib_dir: Option<Seq<char>>) -> Seq<char> {
    let lib = match lib_dir {
        Some(l) => "export LD_LIBRARY_PATH="@ + shell_quoted(l) + ":${LD_LIBRARY_PATH:-}; "@,
        None => seq![],
    };
    lib + "export LANG=C.UTF-8; export LC_ALL=C.UTF-8; "@
}

/// The exports that precede a tmux command line.
pub fn env_prefix(lib_dir: &Option<String>) -> (r: String)
    ensures
        r@ == env_prefix_spec(opt_view(*lib_dir)),
{
    let mut prefix = String::new();
    match lib_dir {
        Some(lib) => {
            let q = shell_quote(lib.as_str());
            let part = concat3("export LD_LIBRARY_PATH=", q.as_str(), ":${LD_LIBRARY_PATH:-}; ");
            prefix.append(part.as_str());
        },
        None => {
            proof {
                reveal_strlit("");
            }
        },
    }
    let ghost before = prefix@;
    prefix.append("export LANG=C.UTF-8; export LC_ALL=C.UTF-8; ");
    proof {
        if lib_dir.is_none() {
            assert(before =~= Seq::<char>::empty());
        }
    }
    prefix
}

/// The quoted words of the tmux binary and its arguments.
pub open spec fn quoted_words(tmux_bin: Seq<char>, args: Seq<Seq<char>>) -> Seq<Seq<char>> {
    seq![shell_quoted(tmux_bin)] + args.map_values(|a: Seq<char>| shell_quoted(a))
}

/// A one-line shell command that runs tmux with these arguments: the exports, the quoted
/// words, and first a `cd` into the home directory when there is one.
pub open spec fn shell_command_line_spec(
    lib_dir: Option<Seq<char>>,
    tmux_bin: Seq<char>,
    args: Seq<Seq<char>>,
    home: Option<Seq<char>>,
) -> Seq<char> {
    let body = env_prefix_spec(lib_dir) + join_spaced(quoted_words(tmux_bin, args));
    match home {
        Some(dir) => "cd "@ + shell_quoted(dir) + " && "@ + body,
        None => body,
    }
}

/// The command line handed to `runuser -c` or `su -c` to run tmux as another user.
pub fn shell_command_line(
    lib_dir: &Option<String>,
    tmux_bin: &str,
    args: &Vec<String>,
    home: &Option<String>,
) -> (r: String)
    ensures
        r@ == shell_command_line_spec(
            opt_view(*lib_dir),
            tmux_bin@,
            args.deep_view(),
            opt_view(*home),
        ),
{
    let ghost words = quoted_words(tmux_bin@, args.deep_view());
    let mut joined = shell_quote(tmux_bin);
    assert(words.take(1) =~= seq![shell_quoted(tmux_bin@)]);
    assert(joined@ == join_spaced(words.take(1)));
    let mut i: usize = 0;
    while i < args.len()
        invariant
            i <= args@.len(),
            words == quoted_words(tmux_bin@, args.deep_view()),
            words.len() == args@.len() + 1,
            joined@ == join_spaced(words.take(i + 1)),
        decreases args.len() - i,
    {
        let q = shell_quote(args[i].as_str());
        let ghost before = joined@;
        push_char(&mut joined, ' ');
        joined.append(q.as_str());
        proof {
            let t = words.take(i + 2);
            assert(t.drop_last() =~= words.take(i + 1));
            assert(t.last() == words[i + 1]);
            assert(words[i + 1] == shell_quoted(args.deep_view()[i as int]));
            assert(joined@ =~= before + seq![' '] + q@);
        }
        i = i + 1;
    }
    assert(words.take(args@.len() as int + 1) =~= words);
    let prefix = env_prefix(lib_dir);
    let mut body = prefix;
    body.append(joined.as_str());
    match home {
        Some(dir) => {
            let q = shell_quote(dir.as_str());
            let mut line = concat3("cd ", q.as_str(), " && ");
            line.append(body.as_str());
            line
        },
        None => body,
    }
}

// ─── How the tmux process is started ────────────────────────────────────

/// How tmux is started for a user: directly when the service runs as that user,
/// otherwise through `runuser` or `su` at the given path.
#[derive(Debug)]
pub enum Launcher {
    Direct,
    Runuser(String),
    Su(String),
}

/// The launcher: direct for the service's own uid; else the first `runuser` of
/// `/usr/sbin/runuser`, `/usr/bin/runuser` that exists, else the first `su` of `/bin/su`,
/// `/usr/bin/su`, else `su` from the search path.
pub fn resolve_launcher(
    login_uid: i64,
    current_uid: i64,
    runuser_exists: (bool, bool),
    su_exists: (bool, bool),
) -> (r: Launcher)
    ensures
        login_uid == current_uid ==> r is Direct,
        login_uid != current_uid ==> match r {
            Launcher::Direct => false,
            Launcher::Runuser(p) => (runuser_exists.0 && p@ == "/usr/sbin/runuser"@) || (
            !runuser_exists.0 && runuser_exists.1 && p@ == "/usr/bin/runuser"@),
            Launcher::Su(p) => !runuser_exists.0 && !runuser_exists.1 && ((su_exists.0 && p@
                == "/bin/su"@) || (!su_exists.0 && su_exists.1 && p@ == "/usr/bin/su"@) || (
            !su_exists.0 && !su_exists.1 && p@ == "su"@)),
        },
{
    if login_uid == current_uid {
        return Launcher::Direct;
    }
    if runuser_exists.0 {
        return Launcher::Runuser(String::from_str("/usr/sbin/runuser"));
    }
    if runuser_exists.1 {
        return Launcher::Runuser(String::from_str("/usr/bin/runuser"));
    }
    if su_exists.0 {
        return Launcher::Su(String::from_str("/bin/su"));
    }
    if su_exists.1 {
        return Launcher::Su(String::from_str("/usr/bin/su"));
    }
    Launcher::Su(String::from_str("su"))
}

/// The shell a new session runs: `/bin/bash`, else `/usr/bin/bash`, else `/bin/sh`.
pub fn detect_shell(bin_bash_exists: bool, usr_bin_bash_exists: bool) -> (r: String)
    ensures
        r@ == (if bin_bash_exists {
            "/bin/bash"@
        } else if usr_bin_bash_exists {
            "/usr/bin/bash"@
        } else {
            "/bin/sh"@
        }),
{
    if bin_bash_exists {
        String::from_str("/bin/bash")
    } else if usr_bin_bash_exists {
        String::from_str("/usr/bin/bash")
    } else {
        String::from_str("/bin/sh")
    }
}

/// A program, its arguments, the environment variables it gets and the directory it
/// starts in (`None`: the service's own).
#[derive(Debug)]
pub struct CommandPlan {
    pub program: String,
    pub args: Vec<String>,
    pub env: Vec<(String, String)>,
    pub cwd: Option<String>,
}

/// The views of environment variable settings.
pub open spec fn env_view(e: Seq<(String, String)>) -> Seq<(Seq<char>, Seq<char>)> {
    e.map_values(|p: (String, String)| (p.0@, p.1@))
}

/// `LD_LIBRARY_PATH` set to the bundled library directory, when there is one.
pub open spec fn lib_env(lib_dir: Option<Seq<char>>) -> Seq<(Seq<char>, Seq<char>)> {
    match lib_dir {
        Some(l) => seq![("LD_LIBRARY_PATH"@, l)],
        None => seq![],
    }
}

/// The command that starts tmux with `args` for `user`: tmux itself, or the launcher with
/// `-l <user> -c <line>` (runuser) or `- <user> -c <line>` (su).
pub open spec fn launch_spec(
    launcher: Launcher,
    user: Seq<char>,
    lib_dir: Option<Seq<char>>,
    tmux_bin: Seq<char>,
    args: Seq<Seq<char>>,
    home: Option<Seq<char>>,
) -> (Seq<char>, Seq<Seq<char>>) {
    let line = shell_command_line_spec(lib_dir, tmux_bin, args, home);
    match launcher {
        Launcher::Direct => (tmux_bin, args),
        Launcher::Runuser(bin) => (bin@, seq!["-l"@, user, "-c"@, line]),
        Launcher::Su(bin) => (bin@, seq!["-"@, user, "-c"@, line]),
    }
}

/// The command that starts tmux with `args` as `user`.
pub fn launch_plan(
    launcher: Launcher,
    user: &str,
    lib_dir: &Option<String>,
    tmux_bin: &str,
    args: Vec<String>,
    home: &Option<String>,
) -> (r: CommandPlan)
    ensures
        (r.program@, r.args.deep_view()) == launch_spec(
            launcher,
            user@,
            opt_view(*lib_dir),
            tmux_bin@,
            args.deep_view(),
            opt_view(*home),
        ),
        launcher is Direct ==> r.program@ == tmux_bin@ && r.args.deep_view() == args.deep_view(),
        launcher matches Launcher::Runuser(b) ==> r.program@ == b@ && r.args.deep_view() == seq![
            "-l"@,
            user@,
            "-c"@,
            shell_command_line_spec(opt_view(*lib_dir), tmux_bin@, args.deep_view(), opt_view(*home)),
        ],
        launcher matches Launcher::Su(b) ==> r.program@ == b@ && r.args.deep_view() == seq![
            "-"@,
            user@,
            "-c"@,
            shell_command_line_spec(opt_view(*lib_dir), tmux_bin@, args.deep_view(), opt_view(*home)),
        ],
        r.env@.len() == 0,
        r.cwd is None,
{
    match launcher {
        Launcher::Direct => CommandPlan {
            program: String::from_str(tmux_bin),
            args,
            env: Vec::new(),
            cwd: None,
        },
        Launcher::Runuser(bin) => {
            let line = shell_command_line(lib_dir, tmux_bin, &args, home);
            let mut v: Vec<String> = Vec::new();
            v.push(String::from_str("-l"));
            v.push(String::from_str(user));
            v.push(String::from_str("-c"));
            v.push(line);
            assert(v.deep_view() =~= seq!["-l"@, user@, "-c"@, line@]);
            CommandPlan { program: bin, args: v, env: Vec::new(), cwd: None }
        },
        Launcher::Su(bin) => {
            let line = shell_command_line(lib_dir, tmux_bin, &args, home);
            let mut v: Vec<String> = Vec::new();
            v.push(String::from_str("-"));
            v.push(String::from_str(user));
            v.push(String::from_str("-c"));
            v.push(line);
            assert(v.deep_view() =~= seq!["-"@, user@, "-c"@, line@]);
            CommandPlan { program: bin, args: v, env: Vec::new(), cwd: None }
        },
    }
}


fn push_lib_env(env: &mut Vec<(String, String)>, lib_dir: &Option<String>)
    ensures
        env_view(final(env)@) == env_view(old(env)@) + lib_env(opt_view(*lib_dir)),
{
    let ghost before = env_view(env@);
    match lib_dir {
        Some(l) => {
            env.push((String::from_str("LD_LIBRARY_PATH"), l.clone()));
            assert(env_view(env@) =~= before + lib_env(opt_view(*lib_dir)));
        },
        None => {
            assert(env_view(env@) =~= before + lib_env(opt_view(*lib_dir)));
        },
    }
}

/// The command that creates a session: the launch, with `LD_LIBRARY_PATH` for the bundled
/// libraries and `SHELL` set to the session's shell; run directly, it starts in the user's
/// home directory.
pub fn creation_plan(
    launcher: Launcher,
    user: &str,
    lib_dir: &Option<String>,
    tmux_bin: &str,
    args: Vec<String>,
    home: &Option<String>,
    shell: &str,
) -> (r: CommandPlan)
    ensures
        (r.program@, r.args.deep_view()) == launch_spec(
            launcher,
            user@,
            opt_view(*lib_dir),
            tmux_bin@,
            args.deep_view(),
            opt_view(*home),
        ),
        env_view(r.env@) == lib_env(opt_view(*lib_dir)) + seq![("SHELL"@, shell@)],
        opt_view(r.cwd) == (if launcher is Direct {
            opt_view(*home)
        } else {
            None
        }),
{
    let direct = match &launcher {
        Launcher::Direct => true,
        _ => false,
    };
    let mut plan = launch_plan(launcher, user, lib_dir, tmux_bin, args, home);
    let mut env: Vec<(String, String)> = Vec::new();
    push_lib_env(&mut env, lib_dir);
    let ghost before = env_view(env@);
    env.push((String::from_str("SHELL"), String::from_str(shell)));
    assert(env_view(env@) =~= before + seq![("SHELL"@, shell@)]);
    assert(env_view(Seq::<(String, String)>::empty()) =~= Seq::<(Seq<char>, Seq<char>)>::empty());
    assert(before =~= lib_env(opt_view(*lib_dir)));
    plan.env = env;
    plan.cwd = if direct {
        match home {
            Some(h) => Some(h.clone()),
            None => None,
        }
    } else {
        None
    };
    plan
}

/// The command of the client that attaches to a session in a PTY: the launch, with
/// `TERM=xterm-256color` (the terminal the browser emulates), a UTF-8 locale and
/// `LD_LIBRARY_PATH` for the bundled libraries, started in the user's home directory.
pub fn attach_plan(
    launcher: Launcher,
    user: &str,
    lib_dir: &Option<String>,
    tmux_bin: &str,
    args: Vec<String>,
    home: &Option<String>,
) -> (r: CommandPlan)
    ensures
        (r.program@, r.args.deep_view()) == launch_spec(
            launcher,
            user@,
            opt_view(*lib_dir),
            tmux_bin@,
            args.deep_view(),
            opt_view(*home),
        ),
        env_view(r.env@) == seq![
            ("TERM"@, "xterm-256color"@),
            ("LANG"@, "C.UTF-8"@),
            ("LC_ALL"@, "C.UTF-8"@),
        ] + lib_env(opt_view(*lib_dir)),
        opt_view(r.cwd) == opt_view(*home),
{
    let mut plan = launch_plan(launcher, user, lib_dir, tmux_bin, args, home);
    let mut env: Vec<(String, String)> = Vec::new();
    env.push((String::from_str("TERM"), String::from_str("xterm-256color")));
    env.push((String::from_str("LANG"), String::from_str("C.UTF-8")));
    env.push((String::from_str("LC_ALL"), String::from_str("C.UTF-8")));
    let ghost head = env_view(env@);
    assert(head =~= seq![
        ("TERM"@, "xterm-256color"@),
        ("LANG"@, "C.UTF-8"@),
        ("LC_ALL"@, "C.UTF-8"@),
    ]);
    push_lib_env(&mut env, lib_dir);
    plan.env = env;
    plan.cwd = match home {
        Some(h) => Some(h.clone()),
        None => None,
    };
    plan
}

// ─── tmux sessions and their arguments ──────────────────────────────────

/// The socket of the tmux server that backs a session (one server per session).
pub open spec fn socket_file_spec(socket_dir: Seq<char>, session_id: Seq<char>) -> Seq<char> {
    path_join(socket_dir, "tmux_"@ + session_id + ".sock"@)
}

/// The socket of the tmux server that backs a session.
pub fn socket_file(socket_dir: &str, session_id: &str) -> (r: String)
    ensures
        r@ == socket_file_spec(socket_dir@, session_id@),
        r@ == path_join(socket_dir@, "tmux_"@ + session_id@ + ".sock"@),
{
    let name = concat3("tmux_", session_id, ".sock");
    join_path(socket_dir, name.as_str())
}

/// The tmux session name of a session.
pub open spec fn tmux_session_name_spec(session_id: Seq<char>) -> Seq<char> {
    "rmux_"@ + session_id
}

/// The tmux session name of a session.
pub fn tmux_session_name(session_id: &str) -> (r: String)
    ensures
        r@ == tmux_session_name_spec(session_id@),
        r@ == "rmux_"@ + session_id@,
{
    crate::text::concat_str("rmux_", session_id)
}

fn words(items: &[&str]) -> (r: Vec<String>)
    ensures
        r@.len() == items@.len(),
        forall|i: int| 0 <= i < items@.len() ==> #[trigger] r@[i]@ == items@[i]@,
{
    let mut out: Vec<String> = Vec::new();
    let mut i: usize = 0;
    while i < items.len()
        invariant
            i <= items@.len(),
            out@.len() == i,
            forall|j: int| 0 <= j < i ==> #[trigger] out@[j]@ == items@[j]@,
        decreases items.len() - i,
    {
        out.push(String::from_str(items[i]));
        i = i + 1;
    }
    out
}

/// The arguments that create a detached session `tmux_name` of `cols` x `rows` running
/// `shell`, on its own server at `socket`, with the service's configuration file `conf`.
pub open spec fn new_session_args_spec(
    conf: Seq<char>,
    socket: Seq<char>,
    tmux_name: Seq<char>,
    cols: u32,
    rows: u32,
    shell: Seq<char>,
) -> Seq<Seq<char>> {
    seq![
        "-f"@,
        conf,
        "-u"@,
        "-S"@,
        socket,
        "new-session"@,
        "-d"@,
        "-s"@,
        tmux_name,
        "-x"@,
        decimal(cols as nat),
        "-y"@,
        decimal(rows as nat),
        shell,
    ]
}

/// The arguments that create a session.
pub fn new_session_args(
    conf: &str,
    socket: &str,
    tmux_name: &str,
    cols: u32,
    rows: u32,
    shell: &str,
) -> (r: Vec<String>)
    ensures
        r.deep_view() == new_session_args_spec(conf@, socket@, tmux_name@, cols, rows, shell@),
        r.deep_view() == seq![
            "-f"@,
            conf@,
            "-u"@,
            "-S"@,
            socket@,
            "new-session"@,
            "-d"@,
            "-s"@,
            tmux_name@,
            "-x"@,
            decimal(cols as nat),
            "-y"@,
            decimal(rows as nat),
            shell@,
        ],
{
    let mut v: Vec<String> = Vec::new();
    v.push(String::from_str("-f"));
    v.push(String::from_str(conf));
    v.push(String::from_str("-u"));
    v.push(String::from_str("-S"));
    v.push(String::from_str(socket));
    v.push(String::from_str("new-session"));
    v.push(String::from_str("-d"));
    v.push(String::from_str("-s"));
    v.push(String::from_str(tmux_name));
    v.push(String::from_str("-x"));
    v.push(u64_to_decimal(cols as u64));
    v.push(String::from_str("-y"));
    v.push(u64_to_decimal(rows as u64));
    v.push(String::from_str(shell));
    assert(v.deep_view() =~= new_session_args_spec(conf@, socket@, tmux_name@, cols, rows, shell@));
    v
}

/// The arguments of a tmux client that attaches to `session_name` and detaches every other
/// client, after switching mouse capture off so the browser keeps its own selection and menu.
pub open spec fn attach_args_spec(conf: Seq<char>, socket: Seq<char>, session_name: Seq<char>) -> Seq<
    Seq<char>,
> {
    seq![
        "-f"@,
        conf,
        "-u"@,
        "-S"@,
        socket,
        "set-option"@,
        "-g"@,
        "mouse"@,
        "off"@,
        ";"@,
        "attach-session"@,
        "-d"@,
        "-t"@,
        session_name,
    ]
}

/// The arguments of the tmux client that attaches to a session.
pub fn attach_args(conf: &str, socket: &str, session_name: &str) -> (r: Vec<String>)
    ensures
        r.deep_view() == attach_args_spec(conf@, socket@, session_name@),
        r.deep_view() == seq![
            "-f"@,
            conf@,
            "-u"@,
            "-S"@,
            socket@,
            "set-option"@,
            "-g"@,
            "mouse"@,
            "off"@,
            ";"@,
            "attach-session"@,
            "-d"@,
            "-t"@,
            session_name@,
        ],
{
    let mut v: Vec<String> = Vec::new();
    v.push(String::from_str("-f"));
    v.push(String::from_str(conf));
    v.push(String::from_str("-u"));
    v.push(String::from_str("-S"));
    v.push(String::from_str(socket));
    v.push(String::from_str("set-option"));
    v.push(String::from_str("-g"));
    v.push(String::from_str("mouse"));
    v.push(String::from_str("off"));
    v.push(String::from_str(";"));
    v.push(String::from_str("attach-session"));
    v.push(String::from_str("-d"));
    v.push(String::from_str("-t"));
    v.push(String::from_str(session_name));
    assert(v.deep_view() =~= attach_args_spec(conf@, socket@, session_name@));
    v
}

/// The arguments of a tmux command against one session's server: `-u -S <socket> <command>
/// -t <session> <extra...>`.
pub open spec fn session_command_spec(
    socket: Seq<char>,
    command: Seq<char>,
    session_name: Seq<char>,
    extra: Seq<Seq<char>>,
) -> Seq<Seq<char>> {
    seq!["-u"@, "-S"@, socket, command, "-t"@, session_name] + extra
}

/// The arguments of a tmux command against one session's server.
pub fn session_command(socket: &str, command: &str, session_name: &str, extra: &[&str]) -> (r:
    Vec<String>)
    ensures
        r.deep_view() == session_command_spec(
            socket@,
            command@,
            session_name@,
            extra@.map_values(|e: &str| e@),
        ),
{
    let mut v: Vec<String> = Vec::new();
    v.push(String::from_str("-u"));
    v.push(String::from_str("-S"));
    v.push(String::from_str(socket));
    v.push(String::from_str(command));
    v.push(String::from_str("-t"));
    v.push(String::from_str(session_name));
    let rest = words(extra);
    let ghost head = v.deep_view();
    let mut i: usize = 0;
    while i < rest.len()
        invariant
            i <= rest@.len(),
            rest@.len() == extra@.len(),
            forall|j: int| 0 <= j < extra@.len() ==> #[trigger] rest@[j]@ == extra@[j]@,
            head == seq!["-u"@, "-S"@, socket@, command@, "-t"@, session_name@],
            v.deep_view() == head + extra@.map_values(|e: &str| e@).take(i as int),
        decreases rest.len() - i,
    {
        let ghost before = v.deep_view();
        v.push(rest[i].clone());
        assert(extra@.map_values(|e: &str| e@).take(i + 1) =~= extra@.map_values(|e: &str| e@).take(
            i as int,
        ).push(extra@[i as int]@));
        assert(v.deep_view() =~= before.push(rest@[i as int]@));
        i = i + 1;
    }
    assert(extra@.map_values(|e: &str| e@).take(extra@.len() as int) =~= extra@.map_values(
        |e: &str| e@,
    ));
    v
}

/// The arguments that ask whether the session still exists.
pub fn has_session_args(socket: &str, session_name: &str) -> (r: Vec<String>)
    ensures
        r.deep_view() == session_command_spec(socket@, "has-session"@, session_name@, seq![]),
        r.deep_view() == seq!["-u"@, "-S"@, socket@, "has-session"@, "-t"@, session_name@],
{
    let r = session_command(socket, "has-session", session_name, &[]);
    assert(Seq::<&str>::empty().map_values(|e: &str| e@) =~= Seq::<Seq<char>>::empty());
    r
}

/// The arguments that print the working directory of the session's pane.
pub fn cwd_query_args(socket: &str, session_name: &str) -> (r: Vec<String>)
    ensures
        r.deep_view() == seq!["-u"@, "-S"@, socket@, "display-message"@, "-p"@, "-t"@,
            session_name@, "#{pane_current_path}"@],
{
    let mut v: Vec<String> = Vec::new();
    v.push(String::from_str("-u"));
    v.push(String::from_str("-S"));
    v.push(String::from_str(socket));
    v.push(String::from_str("display-message"));
    v.push(String::from_str("-p"));
    v.push(String::from_str("-t"));
    v.push(String::from_str(session_name));
    v.push(String::from_str("#{pane_current_path}"));
    assert(v.deep_view() =~= seq!["-u"@, "-S"@, socket@, "display-message"@, "-p"@, "-t"@,
        session_name@, "#{pane_current_path}"@]);
    v
}

/// The arguments that end the session.
pub fn kill_session_args(socket: &str, session_name: &str) -> (r: Vec<String>)
    ensures
        r.deep_view() == session_command_spec(socket@, "kill-session"@, session_name@, seq![]),
        r.deep_view() == seq!["-u"@, "-S"@, socket@, "kill-session"@, "-t"@, session_name@],
{
    let r = session_command(socket, "kill-session", session_name, &[]);
    assert(Seq::<&str>::empty().map_values(|e: &str| e@) =~= Seq::<Seq<char>>::empty());
    r
}

/// The working directory a pane query reports: the trimmed output of a successful query
/// when it is not empty, otherwise the recorded one.
pub fn cwd_from_query(succeeded: bool, stdout: &str, fallback: &str) -> (r: String)
    ensures
        r@ == (if succeeded && trim(stdout@).len() > 0 {
            trim(stdout@)
        } else {
            fallback@
        }),
{
    if succeeded {
        let cwd = trim_string(stdout);
        if !cwd.as_str().is_empty() {
            return cwd;
        }
    }
    String::from_str(fallback)
}

/// The tmux paste buffer a paste goes through, named after a fresh unique token.
pub fn paste_buffer_name(unique: &str) -> (r: String)
    ensures
        r@ == "rmux_paste_"@ + unique@,
{
    crate::text::concat_str("rmux_paste_", unique)
}

/// A fresh paste buffer name: `rmux_paste_` and a random UUID's 32 hex digits.
pub fn new_paste_buffer_name() -> (r: String)
    ensures
        exists|u: Seq<char>| is_simple_uuid_text(u) && r@ == "rmux_paste_"@ + u,
{
    let u = uuid_simple_text();
    let r = paste_buffer_name(u.as_str());
    assert(is_simple_uuid_text(u@) && r@ == "rmux_paste_"@ + u@);
    r
}

/// The arguments that load a file into a named paste buffer.
pub fn load_buffer_args(socket: &str, buffer: &str, file: &str) -> (r: Vec<String>)
    ensures
        r.deep_view() == seq!["-u"@, "-S"@, socket@, "load-buffer"@, "-b"@, buffer@, file@],
{
    let mut v: Vec<String> = Vec::new();
    v.push(String::from_str("-u"));
    v.push(String::from_str("-S"));
    v.push(String::from_str(socket));
    v.push(String::from_str("load-buffer"));
    v.push(String::from_str("-b"));
    v.push(String::from_str(buffer));
    v.push(String::from_str(file));
    assert(v.deep_view() =~= seq!["-u"@, "-S"@, socket@, "load-buffer"@, "-b"@, buffer@, file@]);
    v
}

/// The arguments that paste a buffer into the session with bracketed-paste markers and
/// delete the buffer afterwards.
pub fn paste_buffer_args(socket: &str, buffer: &str, session_name: &str) -> (r: Vec<String>)
    ensures
        r.deep_view() == seq![
            "-u"@,
            "-S"@,
            socket@,
            "paste-buffer"@,
            "-d"@,
            "-p"@,
            "-b"@,
            buffer@,
            "-t"@,
            session_name@,
        ],
{
    let mut v: Vec<String> = Vec::new();
    v.push(String::from_str("-u"));
    v.push(String::from_str("-S"));
    v.push(String::from_str(socket));
    v.push(String::from_str("paste-buffer"));
    v.push(String::from_str("-d"));
    v.push(String::from_str("-p"));
    v.push(String::from_str("-b"));
    v.push(String::from_str(buffer));
    v.push(String::from_str("-t"));
    v.push(String::from_str(session_name));
    assert(v.deep_view() =~= seq![
        "-u"@,
        "-S"@,
        socket@,
        "paste-buffer"@,
        "-d"@,
        "-p"@,
        "-b"@,
        buffer@,
        "-t"@,
        session_name@,
    ]);
    v
}

// ─── Session records ────────────────────────────────────────────────────

/// The record of a session just created for `login_user` at time `now`: named 本地终端, of
/// type `local`, backed by the tmux session `rmux_<id>`, starting in the user's home
/// directory (or `/`).
pub open spec fn new_session_spec(
    session_id: Seq<char>,
    owner_uid: i64,
    owner_user: Seq<char>,
    cols: u32,
    rows: u32,
    home: Option<Seq<char>>,
    now: Seq<char>,
) -> TerminalSessionView {
    TerminalSessionView {
        session_id,
        name: "本地终端"@,
        owner_uid,
        owner_user,
        session_type: "local"@,
        created_at: now,
        last_activity: now,
        size: TermSize { cols, rows },
        tmux_session_name: tmux_session_name_spec(session_id),
        cwd: match home {
            Some(h) => h,
            None => "/"@,
        },
    }
}

/// A fresh session id: a random UUID's hyphenated text.
pub fn new_session_id() -> (r: String)
    ensures
        is_uuid_text(r@),
{
    uuid_text()
}

/// The record of a session created now: the clock gives its creation time.
pub fn new_terminal_session(
    session_id: &str,
    login_user: &AuthUser,
    cols: u32,
    rows: u32,
    home: Option<String>,
) -> (r: TerminalSession)
    ensures
        r@ == new_session_spec(
            session_id@,
            login_user.uid,
            login_user.user@,
            cols,
            rows,
            opt_view(home),
            r@.created_at,
        ),
        is_rfc3339_utc_text(r@.created_at),
{
    new_terminal_session_at(session_id, login_user, cols, rows, home, now_rfc3339())
}

/// The record of a session created at time `now`.
pub fn new_terminal_session_at(
    session_id: &str,
    login_user: &AuthUser,
    cols: u32,
    rows: u32,
    home: Option<String>,
    now: String,
) -> (r: TerminalSession)
    ensures
        r@ == new_session_spec(
            session_id@,
            login_user.uid,
            login_user.user@,
            cols,
            rows,
            opt_view(home),
            now@,
        ),
        r@.session_id == session_id@ && r@.owner_uid == login_user.uid && r@.owner_user
            == login_user.user@,
        r@.created_at == now@ && r@.last_activity == now@,
        r@.size.cols == cols && r@.size.rows == rows,
        r@.tmux_session_name == "rmux_"@ + session_id@,
        r@.name == "本地终端"@ && r@.session_type == "local"@,
        home matches Some(h) ==> r@.cwd == h@,
        home is None ==> r@.cwd == "/"@,
{
    let cwd = match home {
        Some(h) => h,
        None => String::from_str("/"),
    };
    TerminalSession {
        session_id: String::from_str(session_id),
        name: String::from_str("本地终端"),
        owner_uid: login_user.uid,
        owner_user: login_user.user.clone(),
        session_type: String::from_str("local"),
        created_at: now.clone(),
        last_activity: now,
        size: TermSize { cols, rows },
        tmux_session_name: tmux_session_name(session_id),
        cwd,
    }
}


// ─── The tmux configuration file ────────────────────────────────────────

/// The configuration every session's tmux server starts with. tmux must be transparent to
/// keys: no prefix key (so readline and CLI shortcuts reach the program), no status line,
/// no escape delay, no mouse capture, and the browser's window size.
pub open spec fn tmux_conf_text() -> Seq<char> {
    "# 由 Rmux 自动生成，请勿手工编辑。\nset -g prefix None\nset -g prefix2 None\nset -g status off\nset -sg escape-time 0\nset -g history-limit 10000\nset -g mouse off\nset -g default-terminal \"tmux-256color\"\nset -as terminal-features \",xterm-256color:RGB\"\nset -g window-size latest\nset -g destroy-unattached off\nset -g set-titles off\nsetw -g alternate-screen on\nsetw -g automatic-rename off\n"@
}

/// The configuration file's contents.
pub fn tmux_conf() -> (r: &'static str)
    ensures
        r@ == tmux_conf_text(),
{
    "# 由 Rmux 自动生成，请勿手工编辑。\nset -g prefix None\nset -g prefix2 None\nset -g status off\nset -sg escape-time 0\nset -g history-limit 10000\nset -g mouse off\nset -g default-terminal \"tmux-256color\"\nset -as terminal-features \",xterm-256color:RGB\"\nset -g window-size latest\nset -g destroy-unattached off\nset -g set-titles off\nsetw -g alternate-screen on\nsetw -g automatic-rename off\n"
}

/// Where the configuration file lives: `rmux.tmux.conf` in the data directory.
pub fn tmux_conf_path(data_dir: &str) -> (r: String)
    ensures
        r@ == path_join(data_dir@, "rmux.tmux.conf"@),
{
    join_path(data_dir, "rmux.tmux.conf")
}

/// Whether the configuration file must be (re)written: it could not be read, or it holds
/// anything other than the current configuration.
pub fn tmux_conf_stale(existing: Option<&str>) -> (r: bool)
    ensures
        r == (match existing {
            Some(e) => e@ != tmux_conf_text(),
            None => true,
        }),
{
    match existing {
        Some(e) => !crate::text::str_eq(e, tmux_conf()),
        None => true,
    }
}

// ─── Outcomes ───────────────────────────────────────────────────────────

/// How the command that creates a session ended.
#[derive(Debug)]
pub enum LaunchResult {
    /// It exited successfully.
    Succeeded,
    /// It exited with a failure; `stderr` is its error output.
    Failed { stderr: String },
    /// It could not be run; `error` describes why.
    NotStarted { error: String },
}

/// The result of creating a session: the record when the command succeeded and the
/// session exists afterwards, otherwise the message to report.
pub fn creation_result(launch: LaunchResult, alive: bool, session: TerminalSession) -> (r: Result<
    TerminalSession,
    String,
>)
    ensures
        match launch {
            LaunchResult::Succeeded => if alive {
                r matches Ok(s) && s@ == session@
            } else {
                r matches Err(m) && m@ == "终端创建失败，请检查系统账户权限"@
            },
            LaunchResult::Failed { stderr } => r matches Err(m) && m@ == "创建 tmux 会话失败: "@
                + stderr@,
            LaunchResult::NotStarted { error } => r matches Err(m) && m@
                == "tmux 命令执行失败: "@ + error@,
        },
{
    match launch {
        LaunchResult::Succeeded => {
            if alive {
                Ok(session)
            } else {
                Err(String::from_str("终端创建失败，请检查系统账户权限"))
            }
        },
        LaunchResult::Failed { stderr } => Err(
            crate::text::concat_str("创建 tmux 会话失败: ", stderr.as_str()),
        ),
        LaunchResult::NotStarted { error } => Err(
            crate::text::concat_str("tmux 命令执行失败: ", error.as_str()),
        ),
    }
}

/// Captured pane text with terminal line endings: each line feed preceded by a carriage
/// return, so that the browser's terminal starts every line at the left margin.
pub open spec fn with_crlf(b: Seq<u8>) -> Seq<u8>
    decreases b.len(),
{
    if b.len() == 0 {
        seq![]
    } else {
        with_crlf(b.drop_last()) + (if b.last() == 10u8 {
            seq![13u8, 10u8]
        } else {
            seq![b.last()]
        })
    }
}

/// Line endings are converted byte by byte: the conversion of two pieces put together is
/// the two conversions put together, a line feed becomes carriage return and line feed,
/// and every other byte is kept as it is.
pub proof fn lemma_crlf_meaning(a: Seq<u8>, b: Seq<u8>, c: u8)
    ensures
        with_crlf(a + b) == with_crlf(a) + with_crlf(b),
        with_crlf(seq![10u8]) == seq![13u8, 10u8],
        c != 10u8 ==> with_crlf(seq![c]) == seq![c],
        with_crlf(a).len() >= a.len(),
    decreases b.len(),
{
    assert(seq![10u8].drop_last() =~= Seq::<u8>::empty());
    assert(seq![c].drop_last() =~= Seq::<u8>::empty());
    assert(Seq::<u8>::empty() + seq![13u8, 10u8] =~= seq![13u8, 10u8]);
    assert(Seq::<u8>::empty() + seq![c] =~= seq![c]);
    assert(with_crlf(Seq::<u8>::empty()) =~= Seq::<u8>::empty());
    assert(with_crlf(seq![10u8]) == with_crlf(Seq::<u8>::empty()) + seq![13u8, 10u8]);
    assert(with_crlf(seq![c]) == with_crlf(Seq::<u8>::empty()) + (if c == 10u8 {
        seq![13u8, 10u8]
    } else {
        seq![c]
    }));
    if b.len() == 0 {
        assert(a + b =~= a);
        assert(with_crlf(a) + Seq::<u8>::empty() =~= with_crlf(a));
    } else {
        lemma_crlf_meaning(a, b.drop_last(), c);
        assert((a + b).drop_last() =~= a + b.drop_last());
        assert((a + b).last() == b.last());
        assert(with_crlf(a + b) =~= with_crlf(a) + with_crlf(b));
    }
    lemma_crlf_grows(a);
}

proof fn lemma_crlf_grows(a: Seq<u8>)
    ensures
        with_crlf(a).len() >= a.len(),
    decreases a.len(),
{
    if a.len() > 0 {
        lemma_crlf_grows(a.drop_last());
    }
}

/// The scrollback bytes sent to a new browser, from what `capture-pane -p` printed.
pub fn history_bytes(captured: &[u8]) -> (r: Vec<u8>)
    ensures
        r@ == with_crlf(captured@),
{
    let mut out: Vec<u8> = Vec::new();
    let mut i: usize = 0;
    while i < captured.len()
        invariant
            i <= captured@.len(),
            out@ == with_crlf(captured@.take(i as int)),
        decreases captured.len() - i,
    {
        let b = captured[i];
        if b == 10u8 {
            out.push(13u8);
        }
        out.push(b);
        proof {
            let t = captured@.take(i + 1);
            assert(t.drop_last() =~= captured@.take(i as int));
            assert(t.last() == b);
            if b == 10u8 {
                assert(out@ =~= with_crlf(captured@.take(i as int)) + seq![13u8, 10u8]);
            } else {
                assert(out@ =~= with_crlf(captured@.take(i as int)) + seq![b]);
            }
        }
        i = i + 1;
    }
    assert(captured@.take(captured@.len() as int) =~= captured@);
    out
}

/// Whether a paste has anything to send; an empty paste succeeds without touching tmux.
pub fn paste_required(data: &str) -> (r: bool)
    ensures
        r == (data@.len() > 0),
{
    !data.is_empty()
}

} // verus!

use rmux::models::AuthUser;
use rmux::terminal::{
    attach_args, creation_result, cwd_from_query, history_bytes, cwd_query_args, detect_shell, env_prefix,
    has_session_args, kill_session_args, launch_plan, load_buffer_args, new_session_args,
    new_terminal_session, new_terminal_session_at, new_paste_buffer_name, new_session_id, paste_buffer_args, paste_buffer_name, paste_required, resolve_launcher,
    shell_command_line, shell_quote, socket_file, tmux_conf, tmux_conf_path, tmux_conf_stale,
    tmux_session_name, LaunchResult, Launcher, attach_plan, creation_plan,
};

#[test]
fn quoting() {
    assert_eq!(shell_quote("abc"), "'abc'");
    assert_eq!(shell_quote("it's"), "'it'\\''s'");
    assert_eq!(shell_quote(""), "''");
}

#[test]
fn command_line_for_another_user() {
    let args = vec!["-u".to_string(), "new-session".to_string()];
    let line = shell_command_line(&Some("/app/lib".into()), "/app/tmux", &args, &Some("/home/a b".into()));
    assert_eq!(
        line,
        "cd '/home/a b' && export LD_LIBRARY_PATH='/app/lib':${LD_LIBRARY_PATH:-}; export LANG=C.UTF-8; export LC_ALL=C.UTF-8; '/app/tmux' '-u' 'new-session'"
    );
    assert_eq!(env_prefix(&None), "export LANG=C.UTF-8; export LC_ALL=C.UTF-8; ");
}

#[test]
fn launchers() {
    assert!(matches!(resolve_launcher(1000, 1000, (true, true), (true, true)), Launcher::Direct));
    match resolve_launcher(1000, 0, (false, true), (true, true)) {
        Launcher::Runuser(p) => assert_eq!(p, "/usr/bin/runuser"),
        other => panic!("{:?}", other),
    }
    match resolve_launcher(1000, 0, (false, false), (false, false)) {
        Launcher::Su(p) => assert_eq!(p, "su"),
        other => panic!("{:?}", other),
    }
    assert_eq!(detect_shell(false, true), "/usr/bin/bash");
    assert_eq!(detect_shell(false, false), "/bin/sh");
    let plan = launch_plan(Launcher::Su("/bin/su".into()), "alice", &None, "tmux", vec!["ls".into()], &None);
    assert_eq!(plan.program, "/bin/su");
    assert_eq!(plan.args[..3], ["-".to_string(), "alice".to_string(), "-c".to_string()]);
    let direct = launch_plan(Launcher::Direct, "alice", &None, "tmux", vec!["ls".into()], &None);
    assert_eq!((direct.program.as_str(), direct.args), ("tmux", vec!["ls".to_string()]));
}

#[test]
fn tmux_arguments() {
    assert_eq!(socket_file("/tmp/rmux_socks", "abc"), "/tmp/rmux_socks/tmux_abc.sock");
    assert_eq!(tmux_session_name("abc"), "rmux_abc");
    assert_eq!(
        new_session_args("c", "s", "rmux_abc", 80, 24, "/bin/bash"),
        ["-f", "c", "-u", "-S", "s", "new-session", "-d", "-s", "rmux_abc", "-x", "80", "-y", "24", "/bin/bash"]
    );
    assert_eq!(
        attach_args("c", "s", "n"),
        ["-f", "c", "-u", "-S", "s", "set-option", "-g", "mouse", "off", ";", "attach-session", "-d", "-t", "n"]
    );
    assert_eq!(has_session_args("s", "n"), ["-u", "-S", "s", "has-session", "-t", "n"]);
    assert_eq!(kill_session_args("s", "n"), ["-u", "-S", "s", "kill-session", "-t", "n"]);
    assert_eq!(cwd_query_args("s", "n"), ["-u", "-S", "s", "display-message", "-p", "-t", "n", "#{pane_current_path}"]);
    assert_eq!(paste_buffer_name("0f"), "rmux_paste_0f");
    assert_eq!(load_buffer_args("s", "b", "f"), ["-u", "-S", "s", "load-buffer", "-b", "b", "f"]);
    assert_eq!(paste_buffer_args("s", "b", "n"), ["-u", "-S", "s", "paste-buffer", "-d", "-p", "-b", "b", "-t", "n"]);
    assert!(!paste_required(""));
}

#[test]
fn working_directory_query() {
    assert_eq!(cwd_from_query(true, "/home/a\n", "/"), "/home/a");
    assert_eq!(cwd_from_query(true, "  \n", "/home"), "/home");
    assert_eq!(cwd_from_query(false, "/x", "/home"), "/home");
}

#[test]
fn tmux_configuration_file() {
    assert_eq!(tmux_conf_path("/data"), "/data/rmux.tmux.conf");
    assert!(tmux_conf().contains("set -g prefix None"));
    assert!(!tmux_conf_stale(Some(tmux_conf())));
    assert!(tmux_conf_stale(Some("old")));
    assert!(tmux_conf_stale(None));
}

#[test]
fn session_creation() {
    let user = AuthUser::admin("alice".into(), 1000);
    let s = new_terminal_session_at("id1", &user, 120, 40, None, "2024-01-01T00:00:00Z".into());
    assert_eq!(s.name, "本地终端");
    assert_eq!(s.session_type, "local");
    assert_eq!(s.tmux_session_name, "rmux_id1");
    assert_eq!(s.cwd, "/");
    assert_eq!((s.size.cols, s.size.rows), (120, 40));
    assert_eq!(s.created_at, s.last_activity);
    let ok = creation_result(LaunchResult::Succeeded, true, s.copied()).unwrap();
    assert_eq!(ok.session_id, "id1");
    assert_eq!(creation_result(LaunchResult::Succeeded, false, s.copied()).unwrap_err(), "终端创建失败，请检查系统账户权限");
    assert_eq!(
        creation_result(LaunchResult::Failed { stderr: "boom".into() }, true, s.copied()).unwrap_err(),
        "创建 tmux 会话失败: boom"
    );
    assert_eq!(
        creation_result(LaunchResult::NotStarted { error: "enoent".into() }, true, s).unwrap_err(),
        "tmux 命令执行失败: enoent"
    );
}

#[test]
fn history_lines_end_with_crlf() {
    assert_eq!(history_bytes(b"ab\ncd\n"), b"ab\r\ncd\r\n".to_vec());
    assert_eq!(history_bytes(b""), Vec::<u8>::new());
    assert_eq!(history_bytes(b"\r"), b"\r".to_vec());
}

#[test]
fn fresh_ids_and_records() {
    let id = new_session_id();
    assert_eq!(id.len(), 36);
    assert_eq!((id.as_bytes()[8], id.as_bytes()[14]), (b'-', b'4'));
    assert_ne!(new_session_id(), id);
    let b = new_paste_buffer_name();
    assert!(b.starts_with("rmux_paste_"));
    assert_eq!(b.len(), 11 + 32);
    assert!(b[11..].chars().all(|c| c.is_ascii_digit() || ('a'..='f').contains(&c)));
    let user = AuthUser::admin("alice".into(), 1000);
    let s = new_terminal_session("id2", &user, 80, 24, Some("/home/alice".into()));
    assert_eq!(s.created_at, s.last_activity);
    assert!(s.created_at.ends_with("+00:00"), "{}", s.created_at);
    assert_eq!((s.cwd.as_str(), s.tmux_session_name.as_str()), ("/home/alice", "rmux_id2"));
}

fn pairs(v: &[(String, String)]) -> Vec<(&str, &str)> {
    v.iter().map(|(a, b)| (a.as_str(), b.as_str())).collect()
}

#[test]
fn plans_carry_environment_and_directory() {
    let home = Some("/home/alice".to_string());
    let lib = Some("/app/lib".to_string());
    let direct = creation_plan(Launcher::Direct, "alice", &lib, "tmux", vec!["ls".into()], &home, "/bin/bash");
    assert_eq!(pairs(&direct.env), vec![("LD_LIBRARY_PATH", "/app/lib"), ("SHELL", "/bin/bash")]);
    assert_eq!(direct.cwd.as_deref(), Some("/home/alice"));
    let su = creation_plan(Launcher::Su("su".into()), "alice", &None, "tmux", vec![], &home, "/bin/sh");
    assert_eq!(pairs(&su.env), vec![("SHELL", "/bin/sh")]);
    assert_eq!(su.cwd, None);
    let attach = attach_plan(Launcher::Runuser("/usr/sbin/runuser".into()), "alice", &lib, "tmux", vec![], &home);
    assert_eq!(
        pairs(&attach.env),
        vec![("TERM", "xterm-256color"), ("LANG", "C.UTF-8"), ("LC_ALL", "C.UTF-8"), ("LD_LIBRARY_PATH", "/app/lib")]
    );
    assert_eq!(attach.cwd.as_deref(), Some("/home/alice"));
    assert_eq!(attach.program, "/usr/sbin/runuser");
}

use rmux::config::{bundle_candidates_of, join_path, tmux_candidates, tmux_lib_dir, tmux_lib_marker, tmux_path, AppConfig, ConfigEnv};

fn env() -> ConfigEnv {
    ConfigEnv {
        rmux_data_dir: None,
        rmux_appdir: None,
        rmux_ui_dir: None,
        trim_pkgvar: None,
        trim_appdest: None,
        jwt_secret: None,
        host: None,
        port: None,
    }
}

#[test]
fn joins_like_pathbuf() {
    for (base, name) in [("/a", "b"), ("/a/", "b"), ("", "b"), ("/a", "/b"), ("a", "b/c")] {
        let expected = std::path::PathBuf::from(base).join(name).display().to_string();
        assert_eq!(join_path(base, name), expected, "{:?} {:?}", base, name);
    }
}

#[test]
fn default_configuration() {
    let c = AppConfig::from_values(env());
    assert_eq!(c.data_dir, "/tmp/rmux");
    assert_eq!(c.db_path, "/tmp/rmux/rmux.db");
    assert_eq!(c.auth_file, "/tmp/rmux/rmux_auth.json");
    assert_eq!(c.skip_auth_file, "/tmp/rmux/.skip_auth");
    assert_eq!(c.ui_dir, "./www");
    assert_eq!(c.socket_path, "/tmp/rmux_socks");
    assert_eq!(c.clipboard_dir, "/tmp/rmux_clipboard");
    assert_eq!(c.host, "0.0.0.0");
    assert_eq!(c.port, 18732);
    assert_eq!(c.jwt_secret, "");
}

#[test]
fn configured_values() {
    let c = AppConfig::from_values(ConfigEnv {
        trim_pkgvar: Some("/var/apps/rmux".into()),
        trim_appdest: Some("/vol1/@appcenter/rmux".into()),
        jwt_secret: Some("s".into()),
        host: Some("127.0.0.1".into()),
        port: Some("9000".into()),
        ..env()
    });
    assert_eq!(c.session_file, "/var/apps/rmux/rmux_sessions.json");
    assert_eq!(c.backgrounds_dir, "/var/apps/rmux/backgrounds");
    assert_eq!(c.ui_dir, "/vol1/@appcenter/rmux/www");
    assert_eq!((c.port, c.host.as_str(), c.jwt_secret.as_str()), (9000, "127.0.0.1", "s"));
    let bad = AppConfig::from_values(ConfigEnv { port: Some("70000".into()), ..env() });
    assert_eq!(bad.port, 18732);
}

#[test]
fn app_root_must_be_absolute() {
    assert_eq!(AppConfig::app_root_dir(None, Some("/opt/app".into())), Some("/opt/app".to_string()));
    assert_eq!(AppConfig::app_root_dir(None, Some("relative".into())), None);
    assert_eq!(AppConfig::app_root_dir(None, None), None);
    assert_eq!(AppConfig::app_root_dir(Some("/srv/rmux".into()), Some("/opt/app".into())), Some("/srv/rmux".to_string()));
}

#[test]
fn bundled_tmux_lookup() {
    let c = bundle_candidates_of(&Some("/app".into()), &Some("/exe".into()), "server/bin/tmux");
    assert_eq!(c, vec!["/app/server/bin/tmux".to_string(), "/exe/server/bin/tmux".to_string()]);
    assert_eq!(tmux_path(&c, &vec![false, true]), "/exe/server/bin/tmux");
    assert_eq!(tmux_path(&c, &vec![false, false]), "tmux");
    let libs = bundle_candidates_of(&None, &Some("/exe".into()), "server/lib");
    assert_eq!(tmux_lib_marker(&libs[0]), "/exe/server/lib/libutempter.so.0");
    assert_eq!(tmux_lib_dir(None, false, &libs, &vec![true]), Some("/exe/server/lib".to_string()));
    assert_eq!(tmux_lib_dir(None, false, &libs, &vec![false]), None);
    assert_eq!(tmux_lib_dir(Some("/opt/lib".into()), true, &libs, &vec![true]), Some("/opt/lib".to_string()));
    assert_eq!(tmux_lib_dir(Some("/missing".into()), false, &libs, &vec![true]), Some("/exe/server/lib".to_string()));
}

#[test]
fn rmux_variables_come_first() {
    let c = AppConfig::from_values(ConfigEnv {
        rmux_data_dir: Some("/data/rmux".into()),
        rmux_ui_dir: Some("/srv/ui".into()),
        trim_pkgvar: Some("/var/apps/rmux".into()),
        trim_appdest: Some("/vol1/app".into()),
        ..env()
    });
    assert_eq!(c.data_dir, "/data/rmux");
    assert_eq!(c.db_path, "/data/rmux/rmux.db");
    assert_eq!(c.auth_file, "/data/rmux/rmux_auth.json");
    assert_eq!(c.skip_auth_file, "/data/rmux/.skip_auth");
    assert_eq!(c.session_file, "/data/rmux/rmux_sessions.json");
    assert_eq!(c.backgrounds_dir, "/data/rmux/backgrounds");
    assert_eq!(c.ui_dir, "/srv/ui");
    let c = AppConfig::from_values(ConfigEnv { rmux_appdir: Some("/opt/rmux".into()), trim_appdest: Some("/vol1/app".into()), ..env() });
    assert_eq!(c.ui_dir, "/opt/rmux/www");
}

#[test]
fn rmux_tmux_is_tried_first() {
    let c = tmux_candidates(&Some("/usr/local/bin/tmux".into()), &Some("/app".into()), &None);
    assert_eq!(c, vec!["/usr/local/bin/tmux".to_string(), "/app/server/bin/tmux".to_string()]);
    assert_eq!(tmux_path(&c, &vec![true, true]), "/usr/local/bin/tmux");
    assert_eq!(tmux_path(&c, &vec![false, true]), "/app/server/bin/tmux");
    assert_eq!(tmux_candidates(&None, &None, &None), Vec::<String>::new());
}

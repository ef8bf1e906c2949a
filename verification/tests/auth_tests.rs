use rmux::auth::{
    auth_decision, auth_status, check_login, choose_jwt_secret, detect_real_user, extract_token,
    claims_now, home_for_user, is_login_user, jwt_claims, new_jwt_secret, passwd_users, prepare_password, preferred_login_user,
    setup_allowed, token_outcome, AuthDecision, Claims, LocalUser, LoginEnv, SecretSource,
    authenticate, create_jwt,
};
use rmux::models::AuthUser;

const PASSWD: &str = "root:x:0:0:root:/root:/bin/bash\n\
daemon:x:1:1:daemon:/usr/sbin:/usr/sbin/nologin\n\
nobody:x:65534:65534:nobody:/nonexistent:/usr/sbin/nologin\n\
alice:x:1000:1000:Alice:/home/alice:/bin/bash\n\
broken line\n\
bob:x:1001:1001::/home/bob:/bin/zsh\r\n\
eve:x:notanumber:1:::/bin/sh\n";

fn env(sudo: Option<&str>, logname: Option<&str>, user: Option<&str>) -> LoginEnv {
    LoginEnv {
        sudo_user: sudo.map(String::from),
        logname: logname.map(String::from),
        user: user.map(String::from),
    }
}

#[test]
fn passwd_parsing_skips_malformed_lines() {
    let users = passwd_users(PASSWD);
    let names: Vec<&str> = users.iter().map(|u| u.name.as_str()).collect();
    assert_eq!(names, vec!["root", "daemon", "nobody", "alice", "bob"]);
    assert_eq!(users[3].uid, 1000);
    assert_eq!(users[3].home, "/home/alice");
    assert_eq!(users[4].shell, "/bin/zsh");
}

#[test]
fn login_users() {
    let users = passwd_users(PASSWD);
    assert!(!is_login_user(&users[0], true));
    assert!(!is_login_user(&users[2], true));
    assert!(is_login_user(&users[3], true));
    assert!(!is_login_user(&users[3], false));
    let dirs = vec![true; users.len()];
    let preferred = preferred_login_user(&users, &dirs).unwrap();
    assert_eq!(preferred.name, "alice");
    let no_dirs = vec![false; users.len()];
    assert!(preferred_login_user(&users, &no_dirs).is_none());
}

#[test]
fn home_lookup() {
    let users = passwd_users(PASSWD);
    assert_eq!(home_for_user(&users, "bob"), Some("/home/bob".to_string()));
    assert_eq!(home_for_user(&users, "carol"), None);
    let empty_home = vec![LocalUser { name: "x".into(), uid: 2000, home: "".into(), shell: "/bin/sh".into() }];
    assert_eq!(home_for_user(&empty_home, "x"), None);
}

#[test]
fn header_cannot_claim_root() {
    let users = passwd_users(PASSWD);
    let dirs = vec![true; users.len()];
    // The header names root: ignored, the process identity (alice's uid) stands.
    let r = detect_real_user(Some("root".into()), 1000, &env(None, None, None), &users, &dirs);
    assert_eq!(r, Some(("alice".to_string(), 1000)));
    // The header names a login user: that user, with the passwd uid.
    let r = detect_real_user(Some("bob".into()), 1000, &env(None, None, None), &users, &dirs);
    assert_eq!(r, Some(("bob".to_string(), 1001)));
}

#[test]
fn root_process_picks_a_login_user() {
    let users = passwd_users(PASSWD);
    let dirs = vec![true; users.len()];
    let r = detect_real_user(None, 0, &env(Some("bob"), None, None), &users, &dirs);
    assert_eq!(r, Some(("bob".to_string(), 1001)));
    let r = detect_real_user(None, 0, &env(Some("root"), None, None), &users, &dirs);
    assert_eq!(r, Some(("alice".to_string(), 1000)));
    // The first named account is not a login account: no further names are tried.
    let r = detect_real_user(None, 0, &env(Some("daemon"), Some("bob"), None), &users, &dirs);
    assert_eq!(r, Some(("alice".to_string(), 1000)));
}

#[test]
fn unknown_uid_falls_back_to_names() {
    let users = passwd_users(PASSWD);
    let dirs = vec![true; users.len()];
    let r = detect_real_user(None, 4242, &env(None, None, Some("zed")), &users, &dirs);
    assert_eq!(r, Some(("zed".to_string(), 4242)));
    let r = detect_real_user(None, 4242, &env(None, None, None), &users, &dirs);
    assert_eq!(r, Some(("uid-4242".to_string(), 4242)));
    let r = detect_real_user(None, 4242, &env(None, None, Some("")), &users, &dirs);
    assert_eq!(r, None);
}

#[test]
fn token_extraction() {
    assert_eq!(extract_token(Some("Bearer abc"), None), Some("abc".to_string()));
    assert_eq!(extract_token(Some("Basic abc"), Some("a=1&token=xyz")), Some("xyz".to_string()));
    assert_eq!(extract_token(None, Some("token=token=t&token=u")), Some("t".to_string()));
    assert_eq!(extract_token(None, Some("a=1")), None);
    assert_eq!(extract_token(None, None), None);
}

#[test]
fn authentication_decisions() {
    let id = Some(("alice".to_string(), 1000));
    match auth_decision(true, id.clone(), false, None) {
        AuthDecision::Grant(u) => {
            assert_eq!(u.user, "alice");
            assert!(u.is_admin);
            assert_eq!(u.groups, vec!["Users".to_string()]);
        },
        other => panic!("{:?}", other),
    }
    match auth_decision(true, id.clone(), true, None) {
        AuthDecision::Reject(e) => assert_eq!(e.0, "Authentication required"),
        other => panic!("{:?}", other),
    }
    match auth_decision(true, id, true, Some("t".into())) {
        AuthDecision::VerifyToken(t) => assert_eq!(t, "t"),
        other => panic!("{:?}", other),
    }
    match auth_decision(false, None, false, Some("t".into())) {
        AuthDecision::Reject(e) => assert_eq!(e.0, "Server config not found"),
        other => panic!("{:?}", other),
    }
    assert_eq!(token_outcome(None).unwrap_err().0, "Invalid token");
    let u = token_outcome(Some(Claims { uid: 7, user: "x".into(), exp: 0 })).unwrap();
    assert_eq!((u.uid, u.user.as_str()), (7, "x"));
}

#[test]
fn first_screen() {
    assert_eq!(auth_status(true, true).status, "login");
    assert_eq!(auth_status(false, true).status, "public");
    assert_eq!(auth_status(false, false).status, "setup");
    assert!(setup_allowed(false, false).is_ok());
    assert_eq!(setup_allowed(false, true).unwrap_err().message, "应用已完成初始化");
}

#[test]
fn password_setup_then_login() {
    assert_eq!(prepare_password("12345").unwrap_err().message, "密码至少需要6位");
    let hash = prepare_password("secret1").unwrap();
    assert_eq!(hash.len(), 60);
    assert!(hash.starts_with("$2b$12$"));
    let stored = format!("{}\n", hash);
    assert!(check_login("secret1", &stored).is_ok());
    assert_eq!(check_login("secret2", &stored).unwrap_err().message, "密码错误");
    let err = check_login("secret1", "garbage").unwrap_err();
    assert!(err.message.starts_with("验证失败: "));
}

#[test]
fn token_claims_last_thirty_days() {
    let user = AuthUser::admin("alice".into(), 1000);
    let c = jwt_claims(&user, 1_700_000_000);
    assert_eq!(c.exp, 1_700_000_000 + 30 * 86400);
    assert_eq!(c.user, "alice");
}

#[test]
fn signing_secret_choice() {
    match choose_jwt_secret("env", Some("file")) {
        SecretSource::Use(s) => assert_eq!(s, "env"),
        _ => panic!(),
    }
    match choose_jwt_secret("", Some("  file\n")) {
        SecretSource::Use(s) => assert_eq!(s, "file"),
        _ => panic!(),
    }
    assert!(matches!(choose_jwt_secret("", Some(" \n")), SecretSource::Generate));
    assert!(matches!(choose_jwt_secret("", None), SecretSource::Generate));
}

#[test]
fn claims_issued_now() {
    let user = AuthUser::admin("alice".into(), 1000);
    let c = claims_now(&user).unwrap();
    assert_eq!((c.uid, c.user.as_str()), (1000, "alice"));
    assert!(c.exp > 1_600_000_000 + 30 * 86400);
}

#[test]
fn generated_secret_is_two_uuids() {
    let s = new_jwt_secret();
    assert_eq!(s.len(), 72);
    assert_eq!((s.as_bytes()[8], s.as_bytes()[36 + 23]), (b'-', b'-'));
    assert_ne!(new_jwt_secret(), s);
}

fn config_with_secret(secret: &str) -> rmux::config::AppConfig {
    rmux::config::AppConfig::from_values(rmux::config::ConfigEnv {
        rmux_data_dir: None,
        rmux_appdir: None,
        rmux_ui_dir: None,
        trim_pkgvar: None,
        trim_appdest: None,
        jwt_secret: Some(secret.into()),
        host: None,
        port: None,
    })
}

#[test]
fn issued_token_authenticates_its_user() {
    let cfg = config_with_secret("k1");
    let user = AuthUser::admin("alice".into(), 1000);
    let token = create_jwt(&cfg, &user).unwrap();
    let header = format!("Bearer {}", token);
    let u = authenticate(true, None, true, Some(&header), None, "k1").unwrap();
    assert_eq!((u.uid, u.user.as_str(), u.is_admin, u.groups.clone()), (1000, "alice", true, vec!["Users".to_string()]));
    let query = format!("a=1&token={}", token);
    assert_eq!(authenticate(true, Some(("bob".into(), 1001)), true, None, Some(&query), "k1").unwrap().uid, 1000);
    assert_eq!(authenticate(true, None, true, Some(&header), None, "other").unwrap_err().0, "Invalid token");
    assert_eq!(authenticate(true, None, true, Some("Bearer x.y.z"), None, "k1").unwrap_err().0, "Invalid token");
}

#[test]
fn authentication_without_token() {
    assert_eq!(authenticate(false, Some(("a".into(), 1000)), false, None, None, "k").unwrap_err().0, "Server config not found");
    assert_eq!(authenticate(true, Some(("a".into(), 1000)), false, None, None, "k").unwrap().user, "a");
    assert_eq!(authenticate(true, Some(("a".into(), 1000)), true, None, None, "k").unwrap_err().0, "Authentication required");
    assert_eq!(authenticate(true, None, false, None, None, "k").unwrap_err().0, "Authentication required");
}

#[test]
fn short_password_message_only_for_short_passwords() {
    assert_eq!(prepare_password("ab").unwrap_err().message, "密码至少需要6位");
    assert!(prepare_password("abcdef").is_ok());
}

#[test]
fn generated_secret_reads_back_unchanged() {
    let s = new_jwt_secret();
    let saved = format!("{}\n", s);
    match choose_jwt_secret("", Some(&saved)) {
        SecretSource::Use(t) => assert_eq!(t, s),
        _ => panic!(),
    }
}

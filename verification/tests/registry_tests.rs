use rmux::models::{AuthUser, SessionInfo, TermSize};
use rmux::registry::{session_info, session_listing, sort_by_created, DeleteOutcome, ResumeAccess, SessionLookup, SessionTable};
use rmux::terminal::new_terminal_session_at;

fn table() -> SessionTable {
    let alice = AuthUser::admin("alice".into(), 1000);
    let bob = AuthUser::admin("bob".into(), 1001);
    let mut t = SessionTable::new();
    t.insert(new_terminal_session_at("a1", &alice, 80, 24, None, "2024-01-02".into()));
    t.insert(new_terminal_session_at("a2", &alice, 80, 24, None, "2024-01-01".into()));
    t.insert(new_terminal_session_at("b1", &bob, 80, 24, None, "2024-01-03".into()));
    t
}

#[test]
fn insert_get_remove() {
    let mut t = table();
    assert_eq!(t.len(), 3);
    assert_eq!(t.get("a1").unwrap().owner_user, "alice");
    assert!(t.get("zz").is_none());
    let alice = AuthUser::admin("alice".into(), 1000);
    t.insert(new_terminal_session_at("a1", &alice, 100, 30, None, "2024-02-01".into()));
    assert_eq!(t.len(), 3);
    assert_eq!(t.get("a1").unwrap().size, TermSize { cols: 100, rows: 30 });
    assert_eq!(t.remove("a1").unwrap().session_id, "a1");
    assert!(t.get("a1").is_none());
    assert!(t.remove("a1").is_none());
    assert_eq!(t.len(), 2);
}

#[test]
fn listing_is_per_owner() {
    let t = table();
    let mut ids: Vec<String> = t.owned_by(1000).into_iter().map(|s| s.session_id).collect();
    ids.sort();
    assert_eq!(ids, vec!["a1".to_string(), "a2".to_string()]);
    assert!(t.owned_by(4242).is_empty());
    assert_eq!(t.snapshot().len(), 3);
}

#[test]
fn listing_order_is_creation_time() {
    let t = table();
    let infos: Vec<SessionInfo> = t.snapshot().iter().map(|s| session_info(s, "local", s.cwd.clone())).collect();
    let sorted = sort_by_created(infos);
    let order: Vec<&str> = sorted.iter().map(|s| s.session_id.as_str()).collect();
    assert_eq!(order, vec!["a2", "a1", "b1"]);
    assert_eq!(sorted[0].status, "active");
}

#[test]
fn rename_rules() {
    let mut t = table();
    assert_eq!(t.rename_at("a1", 1000, "   ", "now".into()).unwrap_err().message, "名称不能为空");
    let long: String = std::iter::repeat('名').take(33).collect();
    assert_eq!(t.rename_at("a1", 1000, &long, "now".into()).unwrap_err().message, "名称不能超过32个字符");
    let e = t.rename_at("zz", 1000, "x", "now".into()).unwrap_err();
    assert_eq!((e.status, e.message.as_str()), (404, "会话不存在"));
    let e = t.rename_at("b1", 1000, "x", "now".into()).unwrap_err();
    assert_eq!((e.status, e.message.as_str()), (403, "无权修改"));
    assert_eq!(t.get("b1").unwrap().name, "本地终端");
    let ok: String = std::iter::repeat('名').take(32).collect();
    let info = t.rename_at("a1", 1000, &format!("  {}  ", ok), "now".into()).unwrap();
    assert_eq!(info.name, ok);
    assert_eq!(info.last_activity, "now");
    assert_eq!(t.get("a1").unwrap().name, ok);
}

#[test]
fn delete_rules() {
    let mut t = table();
    assert!(matches!(t.delete_owned("b1", 1000), DeleteOutcome::Forbidden));
    assert!(t.get("b1").is_some());
    assert!(matches!(t.delete_owned("zz", 1000), DeleteOutcome::Missing));
    match t.delete_owned("a1", 1000) {
        DeleteOutcome::Removed(s) => assert_eq!(s.session_id, "a1"),
        other => panic!("{:?}", other),
    }
    assert!(t.get("a1").is_none());
}

#[test]
fn attach_and_lookup_rules() {
    let mut t = table();
    assert!(matches!(t.resume_access("b1", 1000), ResumeAccess::NotFound));
    assert!(matches!(t.resume_access("zz", 1000), ResumeAccess::NotFound));
    match t.resume_access("a1", 1000) {
        ResumeAccess::Granted { tmux_session_name, owner, size } => {
            assert_eq!(tmux_session_name, "rmux_a1");
            assert_eq!(owner.user, "alice");
            assert_eq!(size, TermSize { cols: 80, rows: 24 });
        },
        other => panic!("{:?}", other),
    }
    assert!(matches!(t.lookup("b1", 1000), SessionLookup::Forbidden));
    assert!(matches!(t.lookup("zz", 1000), SessionLookup::Missing));
    t.record_size_at("a1", TermSize { cols: 200, rows: 50 }, "later".into());
    let s = t.get("a1").unwrap();
    assert_eq!((s.size.cols, s.last_activity.as_str()), (200, "later"));
    t.record_size_at("zz", TermSize { cols: 1, rows: 1 }, "x".into());
    assert_eq!(t.len(), 3);
}

#[test]
fn restore_keeps_the_last_duplicate() {
    let alice = AuthUser::admin("alice".into(), 1000);
    let v = vec![
        new_terminal_session_at("x", &alice, 1, 1, None, "t1".into()),
        new_terminal_session_at("x", &alice, 2, 2, None, "t2".into()),
    ];
    let t = SessionTable::from_sessions(v);
    assert_eq!(t.len(), 1);
    assert_eq!(t.get("x").unwrap().created_at, "t2");
}

#[test]
fn rename_and_resize_now() {
    let mut t = table();
    let info = t.rename("a1", 1000, " work ").unwrap();
    assert_eq!(info.name, "work");
    assert_ne!(info.last_activity, "2024-01-02");
    assert_eq!(t.get("a1").unwrap().last_activity, info.last_activity);
    assert_eq!(t.rename("b1", 1000, "x").unwrap_err().status, 403);
    t.record_size("a1", TermSize { cols: 90, rows: 30 });
    let s = t.get("a1").unwrap();
    assert_eq!(s.size, TermSize { cols: 90, rows: 30 });
    assert_eq!(s.name, "work");
    t.record_size("zz", TermSize { cols: 1, rows: 1 });
    assert_eq!(t.len(), 3);
}

#[test]
fn restore_after_save_gives_the_same_table() {
    let t = table();
    let restored = SessionTable::from_sessions(t.snapshot());
    assert_eq!(restored.len(), t.len());
    for id in ["a1", "a2", "b1"] {
        let (a, b) = (t.get(id).unwrap(), restored.get(id).unwrap());
        assert_eq!((a.name, a.owner_uid, a.created_at, a.size), (b.name, b.owner_uid, b.created_at, b.size));
    }
}

#[test]
fn listing_keeps_ties_in_order() {
    let alice = AuthUser::admin("alice".into(), 1000);
    let infos: Vec<SessionInfo> = ["x", "y", "z", "w"]
        .iter()
        .zip(["t2", "t1", "t2", "t1"])
        .map(|(id, at)| session_info(&new_terminal_session_at(id, &alice, 80, 24, None, at.into()), "local", "/".into()))
        .collect();
    let order: Vec<String> = sort_by_created(infos).into_iter().map(|s| s.session_id).collect();
    assert_eq!(order, vec!["y", "w", "x", "z"]);
}

#[test]
fn listing_describes_and_orders() {
    let alice = AuthUser::admin("alice".into(), 1000);
    let entries = vec![
        (new_terminal_session_at("late", &alice, 80, 24, None, "t2".into()), "/srv".to_string()),
        (new_terminal_session_at("early", &alice, 80, 24, None, "t1".into()), "/home".to_string()),
    ];
    let list = session_listing(entries);
    assert_eq!(list.iter().map(|s| s.session_id.as_str()).collect::<Vec<_>>(), vec!["early", "late"]);
    assert_eq!((list[0].cwd.as_str(), list[0].session_type.as_str(), list[0].status.as_str()), ("/home", "local", "active"));
}

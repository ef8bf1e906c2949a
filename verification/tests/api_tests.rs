use rmux::api::{
    append_chunk, background_file_name, check_image_url, check_resolved_addresses, clamp_axis,
    clipboard_extension, clipboard_file_name, clipboard_item, download_failed, is_blocked_ip,
    is_clipboard_file, keep_clipboard_entry, new_background_file_name, new_clipboard_file_name,
    new_clipboard_item, owns_background, resolve_background_path,
    validate_clipboard_record, IpAddress, BACKGROUND_URL_LIMIT,
};
use rmux::models::RecordClipboardRequest;
use rmux::api::{fetch_target, UrlParts};

#[test]
fn axis_clamping() {
    assert_eq!(clamp_axis(0), 1);
    assert_eq!(clamp_axis(80), 80);
    assert_eq!(clamp_axis(5000), 1000);
}

#[test]
fn extensions() {
    assert_eq!(clipboard_extension(Some("IMAGE/JPEG"), None), "jpg");
    assert_eq!(clipboard_extension(Some("image/webp"), Some("x.png")), "webp");
    assert_eq!(clipboard_extension(Some("application/octet-stream"), Some("shot.TIF")), "tiff");
    assert_eq!(clipboard_extension(None, Some("archive.tar.gz")), "bin");
    assert_eq!(clipboard_extension(None, None), "bin");
    assert_eq!(clipboard_extension(None, Some("jpeg")), "jpg");
    assert_eq!(clipboard_file_name("u1", "png"), "paste-u1.png");
}

#[test]
fn background_paths() {
    let dir = "/data/backgrounds";
    assert_eq!(resolve_background_path(dir, "1000_1.png"), Some("/data/backgrounds/1000_1.png".to_string()));
    assert_eq!(resolve_background_path(dir, "a.png/"), Some("/data/backgrounds/a.png".to_string()));
    for bad in ["../etc/passwd", "..", ".", "", "/etc/passwd", "a/b", ".hidden", "./a"] {
        assert_eq!(resolve_background_path(dir, bad), None, "{:?}", bad);
    }
}

#[test]
fn background_ownership() {
    assert!(owns_background(1000, "1000_17.png"));
    assert!(!owns_background(100, "1000_17.png"));
    assert_eq!(background_file_name(1000, 17, false), "1000_17.png");
    assert_eq!(background_file_name(1000, 17, true), "1000_17_url.png");
}

#[test]
fn blocked_addresses() {
    let blocked = [
        IpAddress::V4(127, 0, 0, 1),
        IpAddress::V4(169, 254, 169, 254),
        IpAddress::V4(255, 255, 255, 255),
        IpAddress::V4(0, 0, 0, 0),
        IpAddress::V4(224, 0, 0, 1),
        IpAddress::V6([0, 0, 0, 0, 0, 0, 0, 1]),
        IpAddress::V6([0; 8]),
        IpAddress::V6([0xff02, 0, 0, 0, 0, 0, 0, 1]),
        IpAddress::V6([0xfe80, 0, 0, 0, 0, 0, 0, 1]),
        IpAddress::V6([0, 0, 0, 0, 0, 0xffff, 0x7f00, 1]),
    ];
    for ip in blocked.iter() {
        assert!(is_blocked_ip(ip), "{:?}", ip);
    }
    let allowed = [
        IpAddress::V4(192, 168, 1, 10),
        IpAddress::V4(10, 0, 0, 1),
        IpAddress::V4(8, 8, 8, 8),
        IpAddress::V6([0x2001, 0xdb8, 0, 0, 0, 0, 0, 1]),
        IpAddress::V6([0, 0, 0, 0, 0, 0xffff, 0xc0a8, 0x0101]),
    ];
    for ip in allowed.iter() {
        assert!(!is_blocked_ip(ip), "{:?}", ip);
    }
    assert_eq!(check_resolved_addresses(&vec![]).unwrap_err().message, "无法解析该主机");
    let e = check_resolved_addresses(&vec![IpAddress::V4(8, 8, 8, 8), IpAddress::V4(127, 0, 0, 1)]).unwrap_err();
    assert_eq!((e.status, e.message.as_str()), (403, "不允许访问该地址"));
    assert!(check_resolved_addresses(&vec![IpAddress::V4(8, 8, 8, 8)]).is_ok());
}

#[test]
fn image_urls() {
    let t = check_image_url("https://example.com/a.png").unwrap();
    assert_eq!((t.host.as_str(), t.port), ("example.com", 443));
    let t = check_image_url("http://192.168.1.2:8000/x").unwrap();
    assert_eq!((t.host.as_str(), t.port), ("192.168.1.2", 8000));
    assert_eq!(check_image_url("not a url").unwrap_err().message, "URL 格式无效");
    assert_eq!(check_image_url("ftp://example.com/x").unwrap_err().message, "仅支持 http/https 链接");
    assert_eq!(download_failed("404 Not Found").message, "下载失败: HTTP 404 Not Found");
}

#[test]
fn download_limit() {
    let mut body = vec![0u8; BACKGROUND_URL_LIMIT - 2];
    assert!(append_chunk(&mut body, &[1, 2]).is_ok());
    assert_eq!(body.len(), BACKGROUND_URL_LIMIT);
    assert_eq!(append_chunk(&mut body, &[3]).unwrap_err().message, "图片超过 16MB 限制");
    assert_eq!(body.len(), BACKGROUND_URL_LIMIT);
    let mut small = vec![9u8];
    append_chunk(&mut small, &[1, 2]).unwrap();
    assert_eq!(small, vec![9, 1, 2]);
}

fn req(kind: &str, text: Option<&str>, path: Option<&str>) -> RecordClipboardRequest {
    RecordClipboardRequest {
        kind: kind.into(),
        text: text.map(String::from),
        path: path.map(String::from),
        content_type: None,
        size: None,
    }
}

#[test]
fn clipboard_records() {
    assert_eq!(validate_clipboard_record(&req("file", None, None)).unwrap_err().message, "kind 必须为 text 或 image");
    assert_eq!(validate_clipboard_record(&req("text", Some(""), None)).unwrap_err().message, "文本内容为空");
    assert_eq!(validate_clipboard_record(&req("image", None, None)).unwrap_err().message, "图片路径为空");
    assert!(validate_clipboard_record(&req("text", Some("hi"), None)).is_ok());
    let item = clipboard_item(req("image", None, Some("/tmp/rmux_clipboard/a.png")), "id".into(), 5);
    assert_eq!((item.id.as_str(), item.kind.as_str(), item.created_at), ("id", "image", 5));
    assert!(!keep_clipboard_entry("image", &Some("/gone".into()), false));
    assert!(keep_clipboard_entry("image", &Some("/here".into()), true));
    assert!(keep_clipboard_entry("text", &None, false));
}

#[test]
fn clipboard_files_compared_by_components() {
    let dir = "/tmp/rmux_clipboard";
    for p in ["/tmp/rmux_clipboard/a.png", "/tmp/rmux_clipboard//b.png", "/tmp/rmux_clipboard"] {
        assert_eq!(is_clipboard_file(p, dir), std::path::Path::new(p).starts_with(dir), "{:?}", p);
        assert!(is_clipboard_file(p, dir));
    }
    for p in ["/tmp/rmux_clipboard2/a.png", "/etc/passwd", "tmp/rmux_clipboard/a"] {
        assert!(!is_clipboard_file(p, dir), "{:?}", p);
    }
}

fn is_uuid(s: &str) -> bool {
    s.len() == 36
        && s.char_indices().all(|(i, c)| {
            if [8, 13, 18, 23].contains(&i) { c == '-' } else { c.is_ascii_digit() || ('a'..='f').contains(&c) }
        })
        && s.as_bytes()[14] == b'4'
}

#[test]
fn fresh_upload_names() {
    let name = new_clipboard_file_name(Some("image/PNG"), None);
    assert!(name.starts_with("paste-") && name.ends_with(".png"), "{}", name);
    assert!(is_uuid(&name[6..42]), "{}", name);
    assert_ne!(new_clipboard_file_name(None, Some("a.tif")), new_clipboard_file_name(None, Some("a.tif")));
    assert!(new_clipboard_file_name(None, Some("a.tif")).ends_with(".tiff"));
    let bg = new_background_file_name(1000, true);
    assert!(bg.starts_with("1000_") && bg.ends_with("_url.png"), "{}", bg);
    assert!(owns_background(1000, &bg) && !owns_background(100, &bg));
    let bg = new_background_file_name(-5, false);
    assert!(bg.starts_with("-5_") && bg.ends_with(".png") && !bg.ends_with("_url.png"), "{}", bg);
}

#[test]
fn fresh_clipboard_item() {
    let item = new_clipboard_item(req("text", Some("hi"), None));
    assert!(is_uuid(&item.id), "{}", item.id);
    assert_eq!((item.kind.as_str(), item.text.as_deref(), item.path.as_deref()), ("text", Some("hi"), None));
    assert!(item.created_at > 1_600_000_000_000);
}

fn parts(scheme: &str, host: Option<&str>, port: Option<u16>) -> Option<UrlParts> {
    Some(UrlParts { scheme: scheme.into(), host: host.map(String::from), port })
}

#[test]
fn fetch_targets_from_url_parts() {
    let t = fetch_target(parts("https", Some("example.com"), Some(443))).unwrap();
    assert_eq!((t.host.as_str(), t.port), ("example.com", 443));
    assert_eq!(fetch_target(parts("http", Some("h"), None)).unwrap().port, 80);
    assert_eq!(fetch_target(None).unwrap_err().message, "URL 格式无效");
    assert_eq!(fetch_target(parts("file", None, None)).unwrap_err().message, "仅支持 http/https 链接");
    assert_eq!(fetch_target(parts("http", None, Some(80))).unwrap_err().message, "URL 缺少主机名");
}

#[test]
fn theme_defaults_and_saving() {
    let d = rmux::api::ThemeSettings::default();
    assert_eq!((d.theme.as_str(), d.font_size, d.background_opacity), ("onedark", 14, 0));
    assert_eq!((d.background_image_type.as_str(), d.tab_style.as_str(), d.cursor_style.as_str()), ("none", "modern", "block"));
    let c: serde_json::Value = serde_json::from_str(&d.component_customization).unwrap();
    assert_eq!(c["interface"]["color"], "#282c34");
    assert_eq!(c["button"]["opacity"], 100);
    assert_eq!(c["textSelection"]["opacity"], 40);
    let saved = rmux::api::theme_to_store(rmux::api::ThemeFields {
        theme: Some("dracula".into()),
        font_size: Some(16),
        background_opacity: None,
        background_image: None,
        background_image_type: None,
        saved_url_image: None,
        saved_upload_image: None,
        tab_style: None,
        cursor_style: Some("bar".into()),
        component_customization: None,
    });
    assert_eq!((saved.theme.as_str(), saved.font_size, saved.background_opacity), ("dracula", 16, 0));
    assert_eq!((saved.cursor_style.as_str(), saved.tab_style.as_str(), saved.component_customization.as_str()), ("bar", "modern", ""));
}

fn row(id: &str, at: i64, kind: &str, path: Option<&str>) -> rmux::api::HistoryRow {
    rmux::api::HistoryRow { id: id.into(), created_at: at, kind: kind.into(), path: path.map(String::from) }
}

#[test]
fn history_keeps_the_newest_twenty() {
    let mut rows: Vec<_> = (0..22).map(|i| row(&format!("t{}", i), 100 - i, "text", None)).collect();
    rows.push(row("img-old", 1, "image", Some("/tmp/rmux_clipboard/a.png")));
    rows.push(row("img-elsewhere", 0, "image", Some("/etc/passwd")));
    let r = rmux::api::clipboard_retention(&rows, "/tmp/rmux_clipboard");
    assert_eq!(r.evicted_ids, vec!["t20", "t21", "img-old", "img-elsewhere"]);
    assert_eq!(r.stale_files, vec!["/tmp/rmux_clipboard/a.png"]);
    let few: Vec<_> = (0..3).map(|i| row(&format!("x{}", i), 5, "text", None)).collect();
    assert!(rmux::api::clipboard_retention(&few, "/tmp/rmux_clipboard").evicted_ids.is_empty());
    let ties: Vec<_> = (0..21).map(|i| row(&format!("y{}", i), 7, "text", None)).collect();
    assert_eq!(rmux::api::clipboard_retention(&ties, "/tmp/rmux_clipboard").evicted_ids, vec!["y20"]);
}

#[test]
fn html_is_not_cached() {
    assert_eq!(rmux::api::static_cache_control("text/html; charset=utf-8").as_deref(), Some("no-cache"));
    assert_eq!(rmux::api::static_cache_control("text/css"), None);
}

use rustconn::embedded_web::{download_destination_uri, download_file_name, web_shortcut, WebShortcut};
use rustconn::embedded_web::{
    compute_nav_sensitivity, load_failure, on_load_event, on_load_timeout, session_cache_dir,
    session_data_dir, validate_url, webkit_dir_under, EmbeddedError, LoadEvent, WebState,
};

fn uuid(s: &str) -> u128 {
    uuid::Uuid::parse_str(s).unwrap().as_u128()
}

#[test]
fn test_validate_url_accepts_http() {
    assert!(validate_url("http://example.com").is_ok());
}

#[test]
fn test_validate_url_accepts_https() {
    assert!(validate_url("https://example.com").is_ok());
}

#[test]
fn test_validate_url_accepts_file() {
    assert!(validate_url("file:///path/to/file.html").is_ok());
}

#[test]
fn test_validate_url_rejects_empty() {
    let result = validate_url("");
    assert!(result.is_err());
    match result.unwrap_err() {
        EmbeddedError::ConfigurationError(msg) => assert!(msg.contains("empty")),
        _ => panic!("Expected ConfigurationError"),
    }
}

#[test]
fn test_validate_url_rejects_unsupported_scheme() {
    assert!(validate_url("ftp://example.com").is_err());
    assert!(validate_url("ssh://example.com").is_err());
    assert!(validate_url("example.com").is_err());
    assert!(validate_url("javascript:alert(1)").is_err());
}

#[test]
fn test_validate_url_case_insensitive() {
    assert!(validate_url("HTTP://example.com").is_ok());
    assert!(validate_url("HTTPS://example.com").is_ok());
    assert!(validate_url("FILE:///path").is_ok());
}

#[test]
fn test_session_data_dir_uses_uuid() {
    let path = String::from_utf8_lossy(&session_data_dir(uuid("12345678-1234-1234-1234-123456789abc"))).into_owned();
    assert!(path.contains("12345678-1234-1234-1234-123456789abc"));
    assert!(path.contains("webkit"));
}

#[test]
fn test_session_cache_dir_uses_uuid() {
    let path = String::from_utf8_lossy(&session_cache_dir(uuid("12345678-1234-1234-1234-123456789abc"))).into_owned();
    assert!(path.contains("12345678-1234-1234-1234-123456789abc"));
    assert!(path.contains("webkit"));
}

#[test]
fn test_session_dirs_are_isolated() {
    let uuid1 = uuid("11111111-1111-1111-1111-111111111111");
    let uuid2 = uuid("22222222-2222-2222-2222-222222222222");
    let data1 = session_data_dir(uuid1);
    let data2 = session_data_dir(uuid2);
    assert_ne!(data1, data2);
    let cache1 = session_cache_dir(uuid1);
    let cache2 = session_cache_dir(uuid2);
    assert_ne!(cache1, cache2);
    let (p1, p2) = (String::from_utf8(data1).unwrap(), String::from_utf8(data2).unwrap());
    assert!(!std::path::Path::new(&p1).starts_with(&p2));
    assert!(!std::path::Path::new(&p2).starts_with(&p1));
}

#[test]
fn the_rejection_quotes_at_most_fifty_characters() {
    let long = format!("gopher://{}", "x".repeat(80));
    match validate_url(&long) {
        Err(EmbeddedError::ConfigurationError(m)) => {
            let quoted: String = long.chars().take(50).collect();
            assert_eq!(
                m,
                format!("Unsupported URL scheme: URL must start with http://, https://, or file:// (got: {quoted})")
            );
        },
        other => panic!("unexpected {other:?}"),
    }
}

#[test]
fn webkit_dirs_use_the_fallback_base() {
    let id = uuid("12345678-1234-1234-1234-123456789abc");
    assert_eq!(
        webkit_dir_under(None, b".cache", id),
        b".cache/rustconn/webkit/12345678-1234-1234-1234-123456789abc"
    );
    assert_eq!(
        webkit_dir_under(Some(&b"/home/u/.local/share/"[..]), b".local/share", id),
        b"/home/u/.local/share/rustconn/webkit/12345678-1234-1234-1234-123456789abc"
    );
    let odd: &[u8] = b"/home/\xff/.local/share";
    let mut expected = odd.to_vec();
    expected.extend_from_slice(b"/rustconn/webkit/12345678-1234-1234-1234-123456789abc");
    assert_eq!(webkit_dir_under(Some(odd), b".local/share", id), expected);
}

#[test]
fn load_events_and_timeouts() {
    assert_eq!(on_load_event(LoadEvent::Started), Some(WebState::Connecting));
    assert_eq!(on_load_event(LoadEvent::Committed), None);
    assert_eq!(on_load_event(LoadEvent::Finished), Some(WebState::Connected));
    assert!(on_load_timeout(WebState::Connected).is_none());
    match on_load_timeout(WebState::Connecting) {
        Some((WebState::Error, EmbeddedError::ConnectionFailed(m))) => {
            assert_eq!(m, "Page load timed out after 60 seconds")
        },
        other => panic!("unexpected {other:?}"),
    }
    assert_eq!(compute_nav_sensitivity(true, false), (true, false));
}

#[test]
fn long_load_errors_are_cut_at_197_bytes() {
    let long = "e".repeat(250);
    match load_failure(&long) {
        EmbeddedError::ConnectionFailed(m) => {
            assert_eq!(m.len(), 200);
            assert!(m.ends_with("..."));
        },
        other => panic!("unexpected {other:?}"),
    }
    match load_failure("short") {
        EmbeddedError::ConnectionFailed(m) => assert_eq!(m, "short"),
        other => panic!("unexpected {other:?}"),
    }
}

#[test]
fn download_names() {
    assert_eq!(download_file_name(Some("report.pdf"), Some("https://x/y.zip")), "report.pdf");
    assert_eq!(download_file_name(None, Some("https://x/files/y.zip?token=1")), "y.zip");
    assert_eq!(download_file_name(None, None), "download");
    assert_eq!(download_destination_uri("/home/u/Downloads/y.zip"), "file:///home/u/Downloads/y.zip");
}

#[test]
fn ctrl_shortcuts_map_to_zoom_and_copy() {
    for k in ["plus", "equal", "KP_Add"] {
        assert_eq!(web_shortcut(true, Some(k)), Some(WebShortcut::ZoomIn));
    }
    for k in ["minus", "KP_Subtract"] {
        assert_eq!(web_shortcut(true, Some(k)), Some(WebShortcut::ZoomOut));
    }
    for k in ["0", "KP_0"] {
        assert_eq!(web_shortcut(true, Some(k)), Some(WebShortcut::ZoomReset));
    }
    assert_eq!(web_shortcut(true, Some("l")), Some(WebShortcut::CopyUrl));
}

#[test]
fn keys_without_ctrl_or_unbound_reach_the_page() {
    assert_eq!(web_shortcut(false, Some("plus")), None);
    assert_eq!(web_shortcut(true, Some("L")), None);
    assert_eq!(web_shortcut(true, Some("k")), None);
    assert_eq!(web_shortcut(true, None), None);
}

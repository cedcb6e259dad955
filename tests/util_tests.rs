use addresses::util::{
    duration_ms_i64, find_text, format_host_port, is_valid_for_sync_server, system_time_ms_i64,
    url_host_port, ServerTimestamp,
};

#[test]
fn host_port_of_urls() {
    assert_eq!(url_host_port("https://www.example.com/submit"), Some("www.example.com".to_string()));
    assert_eq!(url_host_port("https://example.com:8443/x?y"), Some("example.com:8443".to_string()));
    // a scheme's default port is not written
    assert_eq!(url_host_port("https://example.com:443/"), Some("example.com".to_string()));
    assert_eq!(url_host_port("not a url"), None);
    assert_eq!(url_host_port("mailto:someone@example.com"), None);
}

#[test]
fn formats_host_and_port() {
    assert_eq!(format_host_port("h", None), "h");
    assert_eq!(format_host_port("h", Some(0)), "h:0");
    assert_eq!(format_host_port("host", Some(65535)), "host:65535");
    assert_eq!(format_host_port("host", Some(80)), "host:80");
}

#[test]
fn sync_guid_validity() {
    assert!(is_valid_for_sync_server("aaaaaaaaaaaa"));
    assert!(is_valid_for_sync_server("{a-b_c~}"));
    assert!(!is_valid_for_sync_server(""));
    assert!(!is_valid_for_sync_server("a,b"));
    assert!(!is_valid_for_sync_server("tab\there"));
    assert!(!is_valid_for_sync_server("ünïcode"));
    assert!(is_valid_for_sync_server(&"x".repeat(64)));
    assert!(!is_valid_for_sync_server(&"x".repeat(65)));
}

#[test]
fn substring_search() {
    assert!(find_text("https://www.example.com/submit", "www.example.com"));
    assert!(find_text("abc", ""));
    assert!(!find_text("abc", "abcd"));
    assert!(!find_text("abc", "bd"));
    assert!(find_text("abc", "c"));
}

#[test]
fn timestamps() {
    assert_eq!(ServerTimestamp(1500).duration_since(ServerTimestamp(500)), Some(1000));
    assert_eq!(ServerTimestamp(500).duration_since(ServerTimestamp(1500)), None);
    assert_eq!(ServerTimestamp(7).duration_since(ServerTimestamp(7)), Some(0));
    assert_eq!(ServerTimestamp(123).as_millis(), 123);
    assert_eq!(duration_ms_i64(2, 345_678_901), 2345);
    assert_eq!(duration_ms_i64(0, 999_999), 0);
    assert_eq!(system_time_ms_i64(Some((1, 1_000_000))), 1001);
    assert_eq!(system_time_ms_i64(None), 0);
}

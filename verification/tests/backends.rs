use os_info::{linux, macos, windows, OsKind};

#[test]
fn linux_test_get_os_info() {
    let os_info = linux::get_os_info(Some("NAME=\"Ubuntu\"\nVERSION_ID=\"22.04\"\n"));
    assert_eq!(os_info.kind, OsKind::Linux);
    assert!(os_info.version.is_some());
    assert!(os_info.name.is_some());
}

#[test]
fn macos_test_get_os_info() {
    let os_info = macos::get_os_info(Some("14.5"));
    assert_eq!(os_info.kind, OsKind::Macos);
    assert!(os_info.version.is_some());
    assert!(os_info.name.is_some());
}

#[test]
fn windows_test_get_os_info() {
    let os_info = windows::get_os_info(10, 22631, Some("Windows 10 Pro".to_string()));
    assert_eq!(os_info.kind, OsKind::Windows);
    assert!(os_info.version.is_some());
    assert!(os_info.name.is_some());
}

#[test]
fn linux_release_both_markers_first_order() {
    let data = "NAME=\"Foo Linux\"\nVERSION_ID=\"9.1\"\n";
    let info = linux::get_os_info(Some(data));
    assert_eq!(info.name.as_deref(), Some("Foo Linux"));
    assert_eq!(info.version.as_deref(), Some("9.1"));
}

#[test]
fn linux_release_both_markers_other_order_interspersed() {
    let data = "PRETTY_NAME=\"Foo Linux 9.1\"\nVERSION_ID=\"9.1\"\nID=foo\nNAME=\"Foo Linux\"\nHOME_URL=\"https://example.invalid/\"\n";
    let info = linux::get_os_info(Some(data));
    assert_eq!(info.name.as_deref(), Some("Foo Linux"));
    assert_eq!(info.version.as_deref(), Some("9.1"));
}

#[test]
fn linux_release_missing_markers() {
    let info = linux::get_os_info(Some("ID=foo\nPRETTY_NAME=\"Foo\"\n"));
    assert_eq!(info.kind, OsKind::Linux);
    assert!(info.name.is_none());
    assert!(info.version.is_none());
}

#[test]
fn linux_missing_file() {
    let info = linux::get_os_info(None);
    assert_eq!(info.kind, OsKind::Linux);
    assert!(info.name.is_none());
    assert!(info.version.is_none());
}

#[test]
fn linux_kind_unaltered_by_malformed_input() {
    let info = linux::get_os_info(Some("\"\"\"=\n\r\n==NAME\nVERSION_ID"));
    assert_eq!(info.kind, OsKind::Linux);
}

#[test]
fn linux_last_marker_wins() {
    let data = "NAME=\"First\"\nNAME=\"Second\"\nVERSION_ID=1\nVERSION_ID=2";
    let info = linux::get_os_info(Some(data));
    assert_eq!(info.name.as_deref(), Some("Second"));
    assert_eq!(info.version.as_deref(), Some("2"));
}

#[test]
fn linux_quotes_stripped_anywhere() {
    let info = linux::get_os_info(Some("NAME=Fo\"o\" \"Linux"));
    assert_eq!(info.name.as_deref(), Some("Foo Linux"));
}

#[test]
fn linux_crlf_line_endings() {
    let data = "NAME=\"Foo Linux\"\r\nVERSION_ID=\"9.1\"\r\n";
    let info = linux::get_os_info(Some(data));
    assert_eq!(info.name.as_deref(), Some("Foo Linux"));
    assert_eq!(info.version.as_deref(), Some("9.1"));
}

#[test]
fn linux_value_without_quotes() {
    let info = linux::get_os_info(Some("VERSION_ID=9.1"));
    assert_eq!(info.version.as_deref(), Some("9.1"));
    assert!(info.name.is_none());
}

#[test]
fn macos_legacy_big_sur() {
    let info = macos::get_os_info(Some("10.16"));
    assert_eq!(info.name.as_deref(), Some("Big Sur"));
    assert_eq!(info.version.as_deref(), Some("10.16"));
}

#[test]
fn macos_modern_big_sur() {
    let info = macos::get_os_info(Some("11.4"));
    assert_eq!(info.name.as_deref(), Some("Big Sur"));
    assert_eq!(info.version.as_deref(), Some("11.4"));
}

#[test]
fn macos_monterey_prefix() {
    let info = macos::get_os_info(Some("12.0.1"));
    assert_eq!(info.name.as_deref(), Some("Monterey"));
    assert_eq!(info.version.as_deref(), Some("12.0.1"));
}

#[test]
fn macos_unsupported_version_has_no_name() {
    let info = macos::get_os_info(Some("7.0"));
    assert!(info.name.is_none());
    assert_eq!(info.version.as_deref(), Some("7.0"));
}

#[test]
fn macos_version_verbatim_regardless_of_match() {
    for raw in ["10.16", "11.4", "12.0.1", "7.0", "garbage"] {
        let info = macos::get_os_info(Some(raw));
        assert_eq!(info.version.as_deref(), Some(raw));
    }
}

#[test]
fn macos_failed_query() {
    let info = macos::get_os_info(None);
    assert_eq!(info.kind, OsKind::Macos);
    assert!(info.name.is_none());
    assert!(info.version.is_none());
}

#[test]
fn macos_table_names() {
    assert_eq!(macos::os_name("15.1").as_deref(), Some("Sequoia"));
    assert_eq!(macos::os_name("14.0").as_deref(), Some("Sonoma"));
    assert_eq!(macos::os_name("13.2.1").as_deref(), Some("Ventura"));
    assert_eq!(macos::os_name("10.15.7").as_deref(), Some("Catalina"));
    assert_eq!(macos::os_name("10.14").as_deref(), Some("Mojave"));
    assert_eq!(macos::os_name("10.13").as_deref(), Some("High Sierra"));
    assert_eq!(macos::os_name("10.12").as_deref(), Some("Sierra"));
    assert_eq!(macos::os_name("10.11"), None);
}

#[test]
fn windows_ten_stays_ten() {
    let info = windows::get_os_info(10, 19045, Some("Windows 10 Home".to_string()));
    assert_eq!(info.version.as_deref(), Some("10"));
    assert_eq!(info.name.as_deref(), Some("Windows 10 Home"));
}

#[test]
fn windows_eleven_by_build_patches_name() {
    let info = windows::get_os_info(10, 22631, Some("Windows 10 Pro".to_string()));
    assert_eq!(info.version.as_deref(), Some("11"));
    assert_eq!(info.name.as_deref(), Some("Windows 11 Pro"));
}

#[test]
fn windows_major_above_ten_is_eleven() {
    let info = windows::get_os_info(11, 1, Some("Windows 10 Pro".to_string()));
    assert_eq!(info.version.as_deref(), Some("11"));
    assert_eq!(info.name.as_deref(), Some("Windows 11 Pro"));
    let info = windows::get_os_info(12, 0, None);
    assert_eq!(info.version.as_deref(), Some("11"));
}

#[test]
fn windows_build_threshold_edges() {
    assert!(!windows::is_windows_11(10, 21999));
    assert!(windows::is_windows_11(10, 22000));
    assert!(windows::is_windows_11(11, 0));
    assert!(!windows::is_windows_11(8, 30000));
}

#[test]
fn windows_unusual_name_untouched_under_eleven() {
    let info = windows::get_os_info(10, 22631, Some("Fenster 10 Pro".to_string()));
    assert_eq!(info.name.as_deref(), Some("Fenster 10 Pro"));
    assert_eq!(info.version.as_deref(), Some("11"));
}

#[test]
fn windows_missing_registry_name() {
    let info = windows::get_os_info(10, 19045, None);
    assert_eq!(info.kind, OsKind::Windows);
    assert!(info.name.is_none());
    assert_eq!(info.version.as_deref(), Some("10"));
}

#[test]
fn windows_decimal_major_version() {
    assert_eq!(windows::u32_to_string(0), "0");
    assert_eq!(windows::u32_to_string(8), "8");
    assert_eq!(windows::u32_to_string(10), "10");
    assert_eq!(windows::u32_to_string(4294967295), "4294967295");
    let info = windows::get_os_info(8, 9200, None);
    assert_eq!(info.version.as_deref(), Some("8"));
}

#[test]
fn repeated_calls_agree_field_for_field() {
    let data = "NAME=\"Foo Linux\"\nVERSION_ID=\"9.1\"\n";
    let a = linux::get_os_info(Some(data));
    let b = linux::get_os_info(Some(data));
    assert_eq!(a.kind, b.kind);
    assert_eq!(a.name, b.name);
    assert_eq!(a.version, b.version);

    let a = macos::get_os_info(Some("12.0.1"));
    let b = macos::get_os_info(Some("12.0.1"));
    assert_eq!(a.kind, b.kind);
    assert_eq!(a.name, b.name);
    assert_eq!(a.version, b.version);

    let a = windows::get_os_info(10, 22631, Some("Windows 10 Pro".to_string()));
    let b = windows::get_os_info(10, 22631, Some("Windows 10 Pro".to_string()));
    assert_eq!(a.kind, b.kind);
    assert_eq!(a.name, b.name);
    assert_eq!(a.version, b.version);
}

use os_info::codec::{decode, encode};
use os_info::{linux, macos, windows, OsInfo, OsKind};

fn assert_round_trip(info: &OsInfo) {
    let text = encode(info);
    let back = decode(text.as_str()).expect("an encoded record must decode");
    assert_eq!(back.kind, info.kind);
    assert_eq!(back.name, info.name);
    assert_eq!(back.version, info.version);
}

#[test]
fn encode_stable_keys() {
    let info = OsInfo {
        kind: OsKind::Linux,
        name: Some("Foo Linux".to_string()),
        version: Some("9.1".to_string()),
    };
    assert_eq!(encode(&info), "{\"kind\":\"linux\",\"name\":\"Foo Linux\",\"version\":\"9.1\"}");
}

#[test]
fn encode_absent_fields_as_null() {
    let info = OsInfo { kind: OsKind::Macos, name: None, version: None };
    assert_eq!(encode(&info), "{\"kind\":\"macos\",\"name\":null,\"version\":null}");
}

#[test]
fn encode_escapes_quotes_and_backslashes() {
    let info = OsInfo {
        kind: OsKind::Windows,
        name: Some("a\"b\\c".to_string()),
        version: None,
    };
    assert_eq!(encode(&info), "{\"kind\":\"windows\",\"name\":\"a\\\"b\\\\c\",\"version\":null}");
}

#[test]
fn round_trip_plain_record() {
    assert_round_trip(&OsInfo {
        kind: OsKind::Linux,
        name: Some("Foo Linux".to_string()),
        version: Some("9.1".to_string()),
    });
}

#[test]
fn round_trip_absent_fields() {
    assert_round_trip(&OsInfo { kind: OsKind::Macos, name: None, version: None });
    assert_round_trip(&OsInfo { kind: OsKind::Windows, name: None, version: Some("11".to_string()) });
}

#[test]
fn round_trip_awkward_characters() {
    assert_round_trip(&OsInfo {
        kind: OsKind::Windows,
        name: Some("a\"b\\c\nd{}:,null".to_string()),
        version: Some("\\\"".to_string()),
    });
}

#[test]
fn round_trip_each_backend_output() {
    assert_round_trip(&linux::get_os_info(Some("NAME=\"Foo Linux\"\nVERSION_ID=\"9.1\"\n")));
    assert_round_trip(&linux::get_os_info(None));
    assert_round_trip(&macos::get_os_info(Some("10.16")));
    assert_round_trip(&macos::get_os_info(None));
    assert_round_trip(&windows::get_os_info(10, 22631, Some("Windows 10 Pro".to_string())));
    assert_round_trip(&windows::get_os_info(10, 19045, None));
}

#[test]
fn decode_handwritten_text() {
    let back = decode("{\"kind\":\"windows\",\"name\":\"Windows 11 Pro\",\"version\":\"11\"}")
        .expect("well-formed text must decode");
    assert_eq!(back.kind, OsKind::Windows);
    assert_eq!(back.name.as_deref(), Some("Windows 11 Pro"));
    assert_eq!(back.version.as_deref(), Some("11"));
}

#[test]
fn decode_rejects_malformed_text() {
    assert!(decode("").is_none());
    assert!(decode("{}").is_none());
    assert!(decode("{\"kind\":\"plan9\",\"name\":null,\"version\":null}").is_none());
    assert!(decode("{\"kind\":\"linux\",\"name\":null,\"version\":null} ").is_none());
    assert!(decode("{\"kind\":\"linux\",\"name\":\"unterminated,\"version\":null}").is_none());
    assert!(decode("{\"kind\":\"linux\",\"name\":\"bad\\escape\",\"version\":null}").is_none());
    assert!(decode("{\"kind\":\"linux\",\"name\":null}").is_none());
}

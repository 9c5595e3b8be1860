use safe_authd::text::{appended, escape_request, protocol_label, same_text, split, to_bytes};

#[test]
fn escapes_every_byte() {
    for b in 0..=255u8 {
        let expected = std::ascii::escape_default(b).map(|c| c as char).collect::<String>();
        assert_eq!(escape_request(&[b]), expected);
    }
}

#[test]
fn escapes_a_request() {
    assert_eq!(escape_request(b"GET /x'y\r\n"), "GET /x\\'y\\r\\n");
    assert_eq!(escape_request(b"\x00\xff~"), "\\x00\\xff~");
    assert_eq!(escape_request(b""), "");
}

#[test]
fn escaped_text_is_printable() {
    let all: Vec<u8> = (0..=255u8).collect();
    assert!(escape_request(&all).chars().all(|c| (' '..='~').contains(&c)));
}

#[test]
fn splits_as_std_does() {
    for s in ["", "/", "a", "/a/b", "a//b/", "\u{e9}/\u{1f600}/x"] {
        let expected: Vec<String> = s.split('/').map(|p| p.to_string()).collect();
        assert_eq!(split(s, '/'), expected);
    }
}

#[test]
fn split_and_join_are_inverse() {
    let s = "/login/secret//password";
    let parts = split(s, '/');
    assert_eq!(parts, ["", "login", "secret", "", "password"]);
    assert_eq!(parts.join("/"), s);
    assert_eq!(split(&["a", "", "b"].join("/"), '/'), ["a", "", "b"]);
}

#[test]
fn compares_texts() {
    assert!(same_text("", ""));
    assert!(same_text("login", "login"));
    assert!(!same_text("login", "logim"));
    assert!(!same_text("login", "logins"));
    assert!(same_text("\u{e9}", "\u{e9}"));
    assert!(!same_text("\u{e9}", "e"));
}

#[test]
fn concatenates_and_encodes() {
    assert_eq!(appended("a", "\u{e9}"), "a\u{e9}");
    assert_eq!(to_bytes("a\u{e9}"), [97, 195, 169]);
}

#[test]
fn labels_protocols() {
    assert_eq!(protocol_label(None), "<none>");
    assert_eq!(protocol_label(Some(b"hq-24")), "hq-24");
    assert_eq!(protocol_label(Some(b"h\xffq")), "h\u{fffd}q");
}

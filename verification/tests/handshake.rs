use rocket_websocket::accept::convert_key;
use rocket_websocket::ascii::{eq_ignore_ascii_case, str_eq};
use rocket_websocket::handshake::{check_handshake, Status};
use rocket_websocket::headers::{Header, HeaderMap};

fn request(pairs: &[(&str, &str)]) -> HeaderMap {
    let mut m = HeaderMap::new();
    for (n, v) in pairs {
        m.add(Header::new(n, v));
    }
    m
}

#[test]
fn accept_value_of_rfc_example_key() {
    assert_eq!(convert_key("dGhlIHNhbXBsZSBub25jZQ=="), "s3pPLMBiTxaQ9kYGzzhZRbK+xOo=");
}

#[test]
fn accept_value_has_28_chars() {
    assert_eq!(convert_key("").len(), 28);
    assert_eq!(convert_key("x3JJHMbDL1EzLkh9GBhXDw==").len(), 28);
    assert_eq!(convert_key("x3JJHMbDL1EzLkh9GBhXDw=="), "HSmrc0sMlYUkAGmm5OPpG2HaGWk=");
}

#[test]
fn accept_value_depends_on_key() {
    assert_ne!(convert_key("a"), convert_key("b"));
    assert_eq!(convert_key("same"), convert_key("same"));
}

#[test]
fn ascii_case_insensitive_match() {
    assert!(eq_ignore_ascii_case("WebSocket", "websocket"));
    assert!(eq_ignore_ascii_case("WEBSOCKET", "websocket"));
    assert!(eq_ignore_ascii_case("", ""));
    assert!(!eq_ignore_ascii_case("websockets", "websocket"));
    assert!(!eq_ignore_ascii_case("websocket", "web socket"));
    assert!(!eq_ignore_ascii_case("[", "{"));
    assert!(eq_ignore_ascii_case("Ünï", "Ünï"));
    assert!(!eq_ignore_ascii_case("ü", "Ü"));
}

#[test]
fn exact_string_equality() {
    assert!(str_eq("13", "13"));
    assert!(!str_eq("13", "12"));
    assert!(!str_eq("13", "013"));
    assert!(!str_eq("a", "A"));
    assert!(str_eq("", ""));
}

#[test]
fn header_lookup_ignores_name_case_and_takes_first() {
    let m = request(&[("Upgrade", "websocket"), ("X-A", "1"), ("x-a", "2")]);
    assert_eq!(m.len(), 3);
    assert_eq!(m.get_one("upgrade"), Some("websocket"));
    assert_eq!(m.get_one("UPGRADE"), Some("websocket"));
    assert_eq!(m.get_one("x-a"), Some("1"));
    assert_eq!(m.get_one("missing"), None);
    assert_eq!(HeaderMap::new().get_one("upgrade"), None);
}

#[test]
fn header_added_later_does_not_override() {
    let mut m = request(&[("Host", "a")]);
    m.add(Header::new("host", "b"));
    assert_eq!(m.get_one("HOST"), Some("a"));
    m.add(Header::new("Origin", "c"));
    assert_eq!(m.get_one("origin"), Some("c"));
}

fn good() -> Vec<(&'static str, &'static str)> {
    vec![
        ("Upgrade", "websocket"),
        ("Sec-WebSocket-Version", "13"),
        ("Sec-WebSocket-Key", "dGhlIHNhbXBsZSBub25jZQ=="),
    ]
}

#[test]
fn accepted_handshake_gives_accept_value() {
    assert_eq!(check_handshake(&request(&good())), Ok("s3pPLMBiTxaQ9kYGzzhZRbK+xOo=".to_string()));
    let mixed = request(&[
        ("UPGRADE", "WebSocket"),
        ("sec-websocket-version", "13"),
        ("SEC-WEBSOCKET-KEY", "dGhlIHNhbXBsZSBub25jZQ=="),
    ]);
    assert_eq!(check_handshake(&mixed), Ok("s3pPLMBiTxaQ9kYGzzhZRbK+xOo=".to_string()));
}

#[test]
fn missing_or_wrong_upgrade_is_upgrade_required() {
    assert_eq!(check_handshake(&HeaderMap::new()), Err(Status::UpgradeRequired));
    let h = request(&[("Upgrade", "h2c"), ("Sec-WebSocket-Version", "13"), ("Sec-WebSocket-Key", "k")]);
    assert_eq!(check_handshake(&h), Err(Status::UpgradeRequired));
    let h = request(&[("Sec-WebSocket-Version", "13"), ("Sec-WebSocket-Key", "k")]);
    assert_eq!(check_handshake(&h), Err(Status::UpgradeRequired));
    // An upgrade header that is wrong wins over a malformed version.
    let h = request(&[("Upgrade", "websockets"), ("Sec-WebSocket-Version", "8")]);
    assert_eq!(check_handshake(&h), Err(Status::UpgradeRequired));
}

#[test]
fn wrong_version_or_missing_key_is_bad_request() {
    let h = request(&[("Upgrade", "websocket"), ("Sec-WebSocket-Version", "12"), ("Sec-WebSocket-Key", "k")]);
    assert_eq!(check_handshake(&h), Err(Status::BadRequest));
    let h = request(&[("Upgrade", "websocket"), ("Sec-WebSocket-Key", "k")]);
    assert_eq!(check_handshake(&h), Err(Status::BadRequest));
    let h = request(&[("Upgrade", "websocket"), ("Sec-WebSocket-Version", "13")]);
    assert_eq!(check_handshake(&h), Err(Status::BadRequest));
    let h = request(&[("Upgrade", "websocket"), ("Sec-WebSocket-Version", "13"), ("Sec-WebSocket-Key", "")]);
    assert_eq!(check_handshake(&h), Err(Status::BadRequest));
    let h = request(&[("Upgrade", "websocket"), ("Sec-WebSocket-Version", " 13"), ("Sec-WebSocket-Key", "k")]);
    assert_eq!(check_handshake(&h), Err(Status::BadRequest));
}

#[test]
fn status_codes() {
    assert_eq!(Status::SwitchingProtocols.code(), 101);
    assert_eq!(Status::BadRequest.code(), 400);
    assert_eq!(Status::UpgradeRequired.code(), 426);
}

fn is_base64_alphabet(c: char) -> bool {
    c.is_ascii_alphanumeric() || c == '+' || c == '/'
}

#[test]
fn accept_value_is_27_alphabet_characters_and_one_pad() {
    for key in ["", "k", "dGhlIHNhbXBsZSBub25jZQ==", "a much longer key with spaces and ünïcode"] {
        let r = convert_key(key);
        assert_eq!(r.len(), 28);
        assert!(r.ends_with('=') && !r.ends_with("=="));
        assert!(r[..27].chars().all(is_base64_alphabet));
    }
}

#[test]
fn handshake_ignores_other_headers() {
    let plain = request(&good());
    let mut noisy = request(&[("Host", "example.com"), ("Connection", "keep-alive, Upgrade")]);
    for (n, v) in good() {
        noisy.add(Header::new(n, v));
    }
    noisy.add(Header::new("Origin", "http://example.com"));
    assert_eq!(check_handshake(&plain), check_handshake(&noisy));
}

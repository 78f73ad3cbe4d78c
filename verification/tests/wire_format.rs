use stress_tester::api;
use stress_tester::wire::{authorized_headers, encode_login_body, get_headers, parse_token_payload};

#[test]
fn api_joins_base_url_and_path() {
    assert_eq!(api("/auth/login"), "http://localhost:8000/auth/login");
    assert_eq!(api("/users"), "http://localhost:8000/users");
}

#[test]
fn login_body_is_compact_json() {
    assert_eq!(
        encode_login_body("index", "index123"),
        "{\"user_id\":\"index\",\"password\":\"index123\"}"
    );
}

#[test]
fn login_body_escapes_quotes_and_backslashes() {
    assert_eq!(
        encode_login_body("a\"b", "c\\d"),
        "{\"user_id\":\"a\\\"b\",\"password\":\"c\\\\d\"}"
    );
}

#[test]
fn token_payload_parses() {
    assert_eq!(parse_token_payload("{\"token\":\"abc\"}"), Some("abc".to_string()));
}

#[test]
fn token_payload_parses_escapes() {
    assert_eq!(parse_token_payload("{\"token\":\"a\\\"b\\\\c\"}"), Some("a\"b\\c".to_string()));
}

#[test]
fn token_payload_accepts_empty_token_string() {
    assert_eq!(parse_token_payload("{\"token\":\"\"}"), Some(String::new()));
}

#[test]
fn token_payload_rejects_malformed_bodies() {
    assert_eq!(parse_token_payload(""), None);
    assert_eq!(parse_token_payload("{\"token\":}"), None);
    assert_eq!(parse_token_payload("{\"token\":\"abc\""), None);
    assert_eq!(parse_token_payload("{\"token\":\"abc\"} "), None);
    assert_eq!(parse_token_payload("{\"Token\":\"abc\"}"), None);
    assert_eq!(parse_token_payload("{\"token\":\"a\"b\"}"), None);
    assert_eq!(parse_token_payload("{\"token\":\"a\\nb\"}"), None);
}

#[test]
fn every_request_carries_json_and_keep_alive_headers() {
    let h = get_headers();
    assert_eq!(h.len(), 2);
    assert_eq!(h[0].name, "Content-Type");
    assert_eq!(h[0].value, "application/json");
    assert_eq!(h[1].name, "Connection");
    assert_eq!(h[1].value, "keep-alive");
}

#[test]
fn authorized_requests_carry_bearer_header() {
    let h = authorized_headers("abc");
    assert_eq!(h.len(), 3);
    assert_eq!(h[2].name, "Authorization");
    assert_eq!(h[2].value, "Bearer abc");
}

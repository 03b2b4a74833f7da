use ipa_server::cors::{Header, CORS};

fn pairs(headers: &[Header]) -> Vec<(String, String)> {
    headers.iter().map(|h| (h.name.clone(), h.value.clone())).collect()
}

fn expected(origin: &str) -> Vec<(String, String)> {
    vec![
        ("Access-Control-Allow-Origin".to_string(), origin.to_string()),
        ("Access-Control-Allow-Methods".to_string(), "GET, POST, OPTIONS".to_string()),
        ("Access-Control-Allow-Headers".to_string(), "Content-Type, Charset, Accept".to_string()),
    ]
}

#[test]
fn extension_origin_is_echoed() {
    let headers = CORS.on_response(Some("chrome-extension://abc"));
    assert_eq!(pairs(&headers), expected("chrome-extension://abc"));
    assert_eq!(CORS.allow_origin(Some("chrome-extension://abc")), "chrome-extension://abc");
}

#[test]
fn other_origin_gets_the_wildcard() {
    let headers = CORS.on_response(Some("https://evil.example"));
    assert_eq!(pairs(&headers), expected("*"));
    assert_eq!(CORS.allow_origin(Some("https://evil.example")), "*");
}

#[test]
fn missing_origin_gets_the_wildcard() {
    assert_eq!(pairs(&CORS.on_response(None)), expected("*"));
    assert_eq!(CORS.allow_origin(None), "*");
}

#[test]
fn origin_must_begin_with_the_whole_scheme() {
    assert_eq!(CORS.allow_origin(Some("chrome-extension://")), "chrome-extension://");
    assert_eq!(CORS.allow_origin(Some("chrome-extension:/")), "*");
    assert_eq!(CORS.allow_origin(Some("chrome-extension:/abc")), "*");
    assert_eq!(CORS.allow_origin(Some("")), "*");
    assert_eq!(CORS.allow_origin(Some("Chrome-extension://abc")), "*");
    assert_eq!(CORS.allow_origin(Some(" chrome-extension://abc")), "*");
    assert_eq!(CORS.allow_origin(Some("https://a/chrome-extension://abc")), "*");
    assert_eq!(CORS.allow_origin(Some("chrome-extension://é")), "chrome-extension://é");
}

#[test]
fn policy_name() {
    assert_eq!(CORS.name(), "Add CORS headers to responses");
}

#[test]
fn header_of_name_and_value() {
    let header = Header::new("Accept", "text/plain");
    assert_eq!(header.name, "Accept");
    assert_eq!(header.value, "text/plain");
}

use std::collections::BTreeMap;

use subforge::redaction::{redact_headers_for_log, redact_url_for_log};
use url::Url;

fn headers(pairs: &[(&str, &str)]) -> Vec<(String, String)> {
    pairs
        .iter()
        .map(|(name, value)| (name.to_string(), value.to_string()))
        .collect()
}

#[test]
fn request_log_redacts_sensitive_headers() {
    let headers = headers(&[
        ("authorization", "Bearer sensitive-token"),
        ("cookie", "sid=secret-cookie"),
        ("accept", "text/plain"),
    ]);

    let redacted = redact_headers_for_log(&headers);
    assert!(redacted.contains("authorization=***"));
    assert!(redacted.contains("cookie=***"));
    assert!(redacted.contains("accept=text/plain"));
    assert!(!redacted.contains("sensitive-token"));
    assert!(!redacted.contains("secret-cookie"));
}

#[test]
fn request_log_redacts_set_cookie_and_api_key_headers() {
    let headers = headers(&[
        ("set-cookie", "sid=server-secret"),
        ("x-api-key", "secret-api-key"),
        ("accept", "application/json"),
    ]);

    let redacted = redact_headers_for_log(&headers);
    assert!(redacted.contains("set-cookie=***"));
    assert!(redacted.contains("x-api-key=***"));
    assert!(redacted.contains("accept=application/json"));
    assert!(!redacted.contains("server-secret"));
    assert!(!redacted.contains("secret-api-key"));
}

#[test]
fn request_log_redacts_sensitive_query_parameters() {
    let source_url =
        Url::parse("https://example.com/subscription?token=abc123&password=pwd&region=sg")
            .expect("test URL must parse");
    let redacted = redact_url_for_log(source_url.as_str());
    let parsed = Url::parse(&redacted).expect("the redacted URL must parse");
    let query = parsed
        .query_pairs()
        .map(|(key, value)| (key.to_string(), value.to_string()))
        .collect::<BTreeMap<_, _>>();

    assert_eq!(query.get("token"), Some(&"***".to_string()));
    assert_eq!(query.get("password"), Some(&"***".to_string()));
    assert_eq!(query.get("region"), Some(&"sg".to_string()));
    assert!(!redacted.contains("abc123"));
    assert!(!redacted.contains("pwd"));
}

#[test]
fn request_log_redacts_extended_sensitive_query_parameters() {
    let source_url = Url::parse(
        "https://example.com/subscription?access_token=aaa&api_key=bbb&apikey=ccc&region=hk",
    )
    .expect("test URL must parse");
    let redacted = redact_url_for_log(source_url.as_str());
    let parsed = Url::parse(&redacted).expect("the redacted URL must parse");
    let query = parsed
        .query_pairs()
        .map(|(key, value)| (key.to_string(), value.to_string()))
        .collect::<BTreeMap<_, _>>();

    assert_eq!(query.get("access_token"), Some(&"***".to_string()));
    assert_eq!(query.get("api_key"), Some(&"***".to_string()));
    assert_eq!(query.get("apikey"), Some(&"***".to_string()));
    assert_eq!(query.get("region"), Some(&"hk".to_string()));
    assert!(!redacted.contains("aaa"));
    assert!(!redacted.contains("bbb"));
    assert!(!redacted.contains("ccc"));
}

#[test]
fn request_log_keeps_fragment_and_plain_urls() {
    assert_eq!(
        redact_url_for_log("https://e.com/p?Token=x&flag#frag"),
        "https://e.com/p?Token=***&flag#frag"
    );
    assert_eq!(redact_url_for_log("https://e.com/p"), "https://e.com/p");
    assert_eq!(
        redact_headers_for_log(&headers(&[("Authorization", "x"), ("a", "b")])),
        "Authorization=***, a=b"
    );
}

use subforge::sanitizer::{
    MAX_LOG_MESSAGE_CHARS, ScriptLogCollector, redact_sensitive_text, sanitize_script_log_message,
    truncate_message,
};

#[test]
fn sanitize_script_log_message_redacts_sensitive_pairs() {
    let input = "token=abc password:xyz cookie=session123 api_key=qwe";
    let output = sanitize_script_log_message(input);
    assert!(output.contains("token=***"));
    assert!(output.contains("password:***"));
    assert!(output.contains("cookie=***"));
    assert!(output.contains("api_key=***"));
    assert!(!output.contains("abc"));
    assert!(!output.contains("xyz"));
    assert!(!output.contains("session123"));
    assert!(!output.contains("qwe"));
}

#[test]
fn sanitize_script_log_message_redacts_query_and_bearer() {
    let input = "url=https://example.com?a=1&token=abc123 Authorization: Bearer sensitive";
    let output = sanitize_script_log_message(input);
    assert!(output.contains("&token=***"));
    assert!(output.contains("Authorization: ***"));
    assert!(!output.contains("abc123"));
    assert!(!output.contains("sensitive"));
}

#[test]
fn sanitize_script_log_message_truncates_over_limit() {
    let input = "a".repeat(MAX_LOG_MESSAGE_CHARS + 10);
    let output = sanitize_script_log_message(&input);
    assert!(output.ends_with("...(truncated)"));
    assert!(output.len() < input.len());
}

#[test]
fn truncation_keeps_short_messages_and_cuts_long_ones_to_the_limit() {
    assert_eq!(truncate_message("short"), "short");
    let exact = "b".repeat(MAX_LOG_MESSAGE_CHARS);
    assert_eq!(truncate_message(&exact), exact);
    let long = "中".repeat(MAX_LOG_MESSAGE_CHARS + 1);
    let cut = truncate_message(&long);
    assert_eq!(cut.chars().count(), MAX_LOG_MESSAGE_CHARS);
    assert_eq!(cut, format!("{}...(truncated)", "中".repeat(MAX_LOG_MESSAGE_CHARS - 14)));
}

#[test]
fn redact_sensitive_text_masks_common_secrets() {
    assert_eq!(
        redact_sensitive_text("fetch https://user:pw@example.com/sub failed"),
        "fetch https://***@example.com/sub failed"
    );
    assert_eq!(redact_sensitive_text("Authorization: Bearer abc.def"), "Authorization: Bearer ***");
    assert_eq!(redact_sensitive_text("got bearer tok123 back"), "got Bearer *** back");
    assert_eq!(redact_sensitive_text("Cookie: a=b; c=d"), "Cookie: ***");
    assert_eq!(redact_sensitive_text("GET /sub?apiKey=k1&x=2"), "GET /sub?apiKey=***&x=2");
    assert_eq!(redact_sensitive_text("password = hunter2, ok"), "password = ***, ok");
    assert_eq!(redact_sensitive_text("nothing to hide"), "nothing to hide");
}

#[test]
fn script_log_collector_hands_out_sanitized_lines_once() {
    let mut collector = ScriptLogCollector::new();
    collector.emit("info", "token=abc", "2026-01-01T00:00:00Z");
    collector.emit("warn", "plain", "2026-01-01T00:00:01Z");
    let taken = collector.take();
    assert_eq!(taken.len(), 2);
    assert_eq!(taken[0].level, "info");
    assert_eq!(taken[0].message, "token=***");
    assert_eq!(taken[1].message, "plain");
    assert_eq!(taken[1].created_at, "2026-01-01T00:00:01Z");
    assert!(collector.take().is_empty());
}

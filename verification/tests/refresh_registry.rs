use subforge::error::CoreError;
use subforge::refresh_registry::RefreshRegistry;

#[test]
fn one_refresh_per_source_at_a_time() {
    let mut registry = RefreshRegistry::new();
    let guard = registry.try_acquire("source-a").expect("first refresh starts");
    assert_eq!(guard.source_id(), "source-a");
    assert!(registry.is_running("source-a"));

    let refused = registry.try_acquire("source-a").expect_err("second refresh is refused");
    assert!(matches!(refused, CoreError::RefreshAlreadyRunning(ref id) if id == "source-a"));

    let other = registry.try_acquire("source-b").expect("other sources are independent");
    registry.release(guard);
    assert!(!registry.is_running("source-a"));
    assert!(registry.is_running("source-b"));
    let again = registry.try_acquire("source-a").expect("released source can refresh again");
    registry.release(again);
    registry.release(other);
    assert!(!registry.is_running("source-b"));
}

#[test]
fn error_codes_and_texts() {
    assert_eq!(CoreError::SubscriptionParse("x".to_string()).code(), "E_PARSE");
    assert_eq!(CoreError::ConfigInvalid("x".to_string()).code(), "E_CONFIG_INVALID");
    assert_eq!(CoreError::SourceNotFound("x".to_string()).code(), "E_NOT_FOUND");
    assert_eq!(CoreError::PluginAlreadyInstalled("x".to_string()).code(), "E_PLUGIN_INVALID");
    assert_eq!(CoreError::Random("x".to_string()).code(), "E_INTERNAL");
    assert_eq!(CoreError::SubscriptionFetch("boom".to_string()).display(), "订阅拉取失败：boom");
}

use subforge::desktop::{desktop_secret_backend_args, is_admin_token_path};

#[test]
fn admin_token_paths_are_blocked() {
    assert!(is_admin_token_path("/api/admin-token"));
    assert!(is_admin_token_path("/api/admin-token/rotate"));
    assert!(is_admin_token_path("api/admin-token/status"));
    assert!(is_admin_token_path("/api/admin-token/rotate?from=desktop"));
    assert!(is_admin_token_path("/API/ADMIN-TOKEN/ROTATE"));
}

#[test]
fn non_admin_token_paths_are_not_blocked() {
    assert!(!is_admin_token_path("/api/tokens/p-1/rotate"));
    assert!(!is_admin_token_path("/api/system/status"));
    assert!(!is_admin_token_path("/api/admin-tokenize"));
    assert!(!is_admin_token_path("/health"));
}

#[test]
fn admin_token_path_ignores_surrounding_whitespace() {
    assert!(is_admin_token_path("  /api/admin-token  "));
    assert!(!is_admin_token_path(""));
}

fn args(backend: Option<&str>, secret_key: Option<&str>) -> Vec<String> {
    desktop_secret_backend_args(backend.map(str::to_string), secret_key.map(str::to_string))
}

#[test]
fn default_launch_does_not_pass_hardcoded_file_secret_key() {
    let args = args(None, None);

    assert!(!args.iter().any(|arg| arg == "subforge-desktop-secret-key"));
    assert!(!args.iter().any(|arg| arg == "--secrets-backend"));
    assert!(!args.iter().any(|arg| arg == "--secret-key"));
}

#[test]
fn explicit_file_backend_without_secret_key_does_not_invent_default_key() {
    let args = args(Some("file"), None);

    assert_eq!(args, vec!["--secrets-backend", "file"]);
    assert!(!args.iter().any(|arg| arg == "subforge-desktop-secret-key"));
}

#[test]
fn explicit_file_backend_with_secret_key_passes_override_key() {
    let args = args(Some("file"), Some("dev-random-key"));

    assert_eq!(
        args,
        vec![
            "--secrets-backend",
            "file",
            "--secret-key",
            "dev-random-key"
        ]
    );
}

#[test]
fn explicit_non_file_backend_ignores_desktop_secret_key_env() {
    let args = args(Some("keyring"), Some("unused-key"));

    assert_eq!(args, vec!["--secrets-backend", "keyring"]);
}

#[test]
fn secret_backend_values_are_trimmed_and_case_insensitive() {
    assert_eq!(
        args(Some("  FILE "), Some(" k1 ")),
        vec!["--secrets-backend", "FILE", "--secret-key", "k1"]
    );
    assert!(args(Some("   "), Some("k1")).is_empty());
    assert_eq!(args(Some("file"), Some("   ")), vec!["--secrets-backend", "file"]);
}

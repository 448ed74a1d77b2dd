use std::collections::BTreeMap;

use subforge::core_api::{
    plan_proxy_api_call, redact_admin_token_fields, sanitize_core_response_text,
    sanitize_response_text,
};
use subforge::desktop::{
    LaunchPlan, TrayAction, admin_token_from_file, choose_launch_plan, core_status_payload,
    is_placeholder_sidecar, may_restore_admin_token, sidecar_file_names, tray_menu_action,
};
use subforge::parser::doc::{DocNumber, DocValue};

const REDACTED_VALUE: &str = "***REDACTED***";

fn from_json(value: &serde_json::Value) -> DocValue {
    match value {
        serde_json::Value::Null => DocValue::Null,
        serde_json::Value::Bool(b) => DocValue::Bool(*b),
        serde_json::Value::Number(n) => DocValue::Number(DocNumber {
            text: n.to_string(),
            unsigned: n.as_u64(),
            signed: n.as_i64(),
        }),
        serde_json::Value::String(s) => DocValue::Text(s.clone()),
        serde_json::Value::Array(items) => DocValue::List(items.iter().map(from_json).collect()),
        serde_json::Value::Object(map) => DocValue::Mapping(
            map.iter()
                .map(|(k, v)| (DocValue::Text(k.clone()), from_json(v)))
                .collect(),
        ),
    }
}

fn to_json(value: &DocValue) -> serde_json::Value {
    match value {
        DocValue::Null => serde_json::Value::Null,
        DocValue::Bool(b) => serde_json::Value::Bool(*b),
        DocValue::Number(n) => serde_json::from_str(&n.text).unwrap_or(serde_json::Value::Null),
        DocValue::Text(s) => serde_json::Value::String(s.clone()),
        DocValue::List(items) => serde_json::Value::Array(items.iter().map(to_json).collect()),
        DocValue::Mapping(entries) => {
            let mut map = serde_json::Map::new();
            for (k, v) in entries {
                if let DocValue::Text(key) = k {
                    map.insert(key.clone(), to_json(v));
                }
            }
            serde_json::Value::Object(map)
        }
        DocValue::Tagged(inner) => to_json(inner),
    }
}

/// The whole sanitation of a core response, as the desktop shell runs it.
fn sanitize_core_response(
    headers: BTreeMap<String, String>,
    body: String,
    admin_token: Option<&str>,
) -> (BTreeMap<String, String>, String) {
    let (headers, body) =
        sanitize_core_response_text(headers.into_iter().collect(), body, admin_token);
    let body = match serde_json::from_str::<serde_json::Value>(&body) {
        Ok(value) => {
            let redacted = redact_admin_token_fields(from_json(&value));
            serde_json::to_string(&to_json(&redacted)).unwrap_or(body)
        }
        Err(_) => body,
    };
    (headers.into_iter().collect(), body)
}

fn object(pairs: Vec<(&str, serde_json::Value)>) -> serde_json::Value {
    let mut map = serde_json::Map::new();
    for (k, v) in pairs {
        map.insert(k.to_string(), v);
    }
    serde_json::Value::Object(map)
}

fn string(s: &str) -> serde_json::Value {
    serde_json::Value::String(s.to_string())
}

#[test]
fn sanitize_response_redacts_admin_token_field_and_literal() {
    let mut headers = BTreeMap::new();
    headers.insert(
        "x-debug".to_string(),
        "token=desktop-admin-token".to_string(),
    );

    let body = object(vec![
        ("admin_token", string("desktop-admin-token")),
        ("adminToken", string("desktop-admin-token")),
        ("admin-token", string("desktop-admin-token")),
        ("nested", object(vec![("Admin_Token", string("desktop-admin-token"))])),
        ("token", string("export-token-should-remain")),
    ])
    .to_string();

    let (sanitized_headers, sanitized_body) =
        sanitize_core_response(headers, body, Some("desktop-admin-token"));

    assert_eq!(
        sanitized_headers.get("x-debug"),
        Some(&"token=***".to_string())
    );

    let payload: serde_json::Value =
        serde_json::from_str(&sanitized_body).expect("响应必须仍为 JSON");
    assert_eq!(payload["admin_token"], REDACTED_VALUE);
    assert_eq!(payload["adminToken"], REDACTED_VALUE);
    assert_eq!(payload["admin-token"], REDACTED_VALUE);
    assert_eq!(payload["nested"]["Admin_Token"], REDACTED_VALUE);
    assert_eq!(payload["token"], "export-token-should-remain");
}

#[test]
fn sanitize_response_redacts_admin_token_field_without_context_token() {
    let headers = BTreeMap::new();
    let body = r#"{"admin_token":"server-side-token","safe":"ok"}"#.to_string();
    let (_headers, sanitized_body) = sanitize_core_response(headers, body, None);
    let payload: serde_json::Value =
        serde_json::from_str(&sanitized_body).expect("响应必须仍为 JSON");

    assert_eq!(payload["admin_token"], REDACTED_VALUE);
    assert_eq!(payload["safe"], "ok");
}

#[test]
fn sanitize_response_replaces_token_literal_in_plain_text_body() {
    let headers = BTreeMap::new();
    let body = "debug token: desktop-admin-token".to_string();
    let (_headers, sanitized_body) =
        sanitize_core_response(headers, body, Some("desktop-admin-token"));

    assert_eq!(sanitized_body, "debug token: ***");
}

#[test]
fn sanitize_response_redacts_generic_sensitive_body_and_headers() {
    let mut headers = BTreeMap::new();
    headers.insert(
        "x-debug".to_string(),
        "Authorization: Bearer response-token".to_string(),
    );
    let body = "error password=response-password api_key=response-key".to_string();

    let (sanitized_headers, sanitized_body) = sanitize_core_response(headers, body, None);

    assert_eq!(
        sanitized_headers.get("x-debug"),
        Some(&"Authorization: Bearer ***".to_string())
    );
    assert!(sanitized_body.contains("password=***"));
    assert!(sanitized_body.contains("api_key=***"));
    assert!(!sanitized_body.contains("response-password"));
    assert!(!sanitized_body.contains("response-key"));
}

#[test]
fn token_literal_is_replaced_everywhere_and_empty_token_is_ignored() {
    assert_eq!(sanitize_response_text("a TKN b TKNTKN", Some("TKN")), "a ***REDACTED*** b ***REDACTED******REDACTED***");
    assert_eq!(sanitize_response_text("a b", Some("")), "a b");
}

#[test]
fn admin_token_fields_in_lists_are_blanked() {
    let value = from_json(&serde_json::from_str(r#"[{"ADMIN_TOKEN":"x","n":1},"s"]"#).unwrap());
    let out = to_json(&redact_admin_token_fields(value));
    assert_eq!(out[0]["ADMIN_TOKEN"], REDACTED_VALUE);
    assert_eq!(out[0]["n"], 1);
    assert_eq!(out[1], "s");
}

#[test]
fn proxy_call_plan_blocks_admin_token_api_and_needs_token_for_management() {
    let blocked = plan_proxy_api_call(" api/admin-token/rotate ", "http://127.0.0.1:18118", Some("t")).unwrap_err();
    assert_eq!(blocked, "安全策略限制：前端 IPC 不允许调用 /api/admin-token/*");

    let missing = plan_proxy_api_call("/api/sources", "http://127.0.0.1:18118", None).unwrap_err();
    assert_eq!(missing, "当前会话没有管理 token，请先通过 GUI 启动 Core 再调用管理 API");

    let managed = plan_proxy_api_call("api/sources", "http://127.0.0.1:18118", Some("t")).unwrap();
    assert_eq!(managed.path, "/api/sources");
    assert_eq!(managed.url, "http://127.0.0.1:18118/api/sources");
    assert!(managed.requires_admin_auth);
    assert_eq!(managed.admin_token.as_deref(), Some("t"));

    let public = plan_proxy_api_call("/health", "http://h", Some("t")).unwrap();
    assert!(!public.requires_admin_auth);
    assert!(public.admin_token.is_none());
}

#[test]
fn desktop_status_and_token_decisions() {
    let running = core_status_payload("http://h".to_string(), Some(7), Some("0.1".to_string()), None, Some("0.2".to_string()));
    assert!(running.running);
    assert_eq!(running.version.as_deref(), Some("0.2"));
    assert_eq!(running.pid, Some(7));
    let stopped = core_status_payload("http://h".to_string(), None, Some("0.1".to_string()), None, None);
    assert!(!stopped.running);
    assert_eq!(stopped.version.as_deref(), Some("0.1"));

    assert!(may_restore_admin_token(false, true, true));
    assert!(!may_restore_admin_token(false, false, true));
    assert!(!may_restore_admin_token(true, true, true));
    assert_eq!(admin_token_from_file("  tok \n").as_deref(), Some("tok"));
    assert!(admin_token_from_file(" \n").is_none());
}

#[test]
fn launch_plan_and_sidecar_names() {
    assert_eq!(choose_launch_plan(true, true, true, true).unwrap(), LaunchPlan::WorkspaceBinary);
    assert_eq!(choose_launch_plan(true, true, false, true).unwrap(), LaunchPlan::CargoRun);
    assert_eq!(choose_launch_plan(false, true, true, true).unwrap(), LaunchPlan::Sidecar);
    assert_eq!(choose_launch_plan(false, true, false, false).unwrap(), LaunchPlan::CargoRun);
    assert_eq!(
        choose_launch_plan(false, false, false, false).unwrap_err(),
        "未找到可用的 subforge-core（既无 sidecar，也无可用 workspace）"
    );
    assert_eq!(
        sidecar_file_names("x86_64-pc-windows-msvc", true),
        vec!["subforge-core.exe".to_string(), "subforge-core-x86_64-pc-windows-msvc.exe".to_string()]
    );
    assert_eq!(
        sidecar_file_names("aarch64-apple-darwin", false),
        vec!["subforge-core".to_string(), "subforge-core-aarch64-apple-darwin".to_string()]
    );
    assert!(is_placeholder_sidecar(b"subforge-core sidecar placeholder", true));
    assert!(!is_placeholder_sidecar(b"subforge-core sidecar placeholder", false));
    assert!(!is_placeholder_sidecar(b"\x7fELF", true));
}

#[test]
fn tray_menu_entries_map_to_actions() {
    assert_eq!(tray_menu_action("open_window"), TrayAction::OpenWindow);
    assert_eq!(tray_menu_action("refresh_all"), TrayAction::RefreshAll);
    assert_eq!(tray_menu_action("quit_gui"), TrayAction::QuitGui);
    assert_eq!(tray_menu_action("quit_gui_and_stop_core"), TrayAction::QuitGuiAndStopCore);
    assert_eq!(tray_menu_action("other"), TrayAction::Nothing);
}

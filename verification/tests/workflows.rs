use subforge::core_api::{
    CallAction, CallEvent, CallStage, check_plugin_upload, plan_proxy_api_call, proxy_call_step,
};
use subforge::error::CoreError;
use subforge::plugin_install::{
    InstallAction, InstallEvent, InstallMode, InstallStage, InstallState, both_moves_failed_message,
    install_step, plugin_record,
};
use subforge::profiles::update::{
    ProfileFields, ProfileUpdateError, ProfileUpdateRequest, plan_profile_update,
};
use subforge::source_service::{
    CreateSourceAction, CreateSourceEvent, CreateSourceStage, create_source_step, source_record,
    UpdateSourceAction, UpdateSourceEvent, UpdateSourceStage, UpdateSourceState, update_source_step,
};

fn strings(items: &[&str]) -> Vec<String> {
    items.iter().map(|s| s.to_string()).collect()
}

fn profile() -> ProfileFields {
    ProfileFields {
        name: "Old".to_string(),
        description: Some("d".to_string()),
        source_ids: strings(&["a", "b"]),
        template_source_id: Some("a".to_string()),
    }
}

fn request() -> ProfileUpdateRequest {
    ProfileUpdateRequest { name: None, description: None, source_ids: None, template_source_id: None }
}

#[test]
fn profile_update_refuses_missing_profile_first() {
    let mut req = request();
    req.name = Some("   ".to_string());
    let err = plan_profile_update(None, req, &strings(&["a"])).unwrap_err();
    assert!(matches!(err, ProfileUpdateError::NotFound));
    assert_eq!(err.message(), Some("Profile 不存在".to_string()));
}

#[test]
fn profile_update_checks_sources_before_name() {
    let mut req = request();
    req.name = Some(" ".to_string());
    req.source_ids = Some(strings(&["a", "x", "y"]));
    match plan_profile_update(Some(profile()), req, &strings(&["a", "b"])) {
        Err(ProfileUpdateError::UnknownSources(ids)) => assert_eq!(ids, strings(&["x", "y"])),
        other => panic!("unexpected {:?}", other),
    }
}

#[test]
fn profile_update_template_must_be_in_scope() {
    let mut req = request();
    req.source_ids = Some(strings(&["b"]));
    let err = plan_profile_update(Some(profile()), req, &strings(&["a", "b"])).unwrap_err();
    assert!(matches!(err, ProfileUpdateError::TemplateOutOfScope));
    let mut req = request();
    req.template_source_id = Some(Some(" c ".to_string()));
    match plan_profile_update(Some(profile()), req, &strings(&["a", "b"])) {
        Err(ProfileUpdateError::UnknownSources(ids)) => assert_eq!(ids, strings(&["c"])),
        other => panic!("unexpected {:?}", other),
    }
}

#[test]
fn profile_update_trims_and_clears() {
    let mut req = request();
    req.name = Some("  New  ".to_string());
    req.description = Some(Some(" text ".to_string()));
    req.source_ids = Some(strings(&["b"]));
    req.template_source_id = Some(None);
    let (fields, replace) = plan_profile_update(Some(profile()), req, &strings(&["a", "b"])).unwrap();
    assert!(replace);
    assert_eq!(fields.name, "New");
    assert_eq!(fields.description, Some("text".to_string()));
    assert_eq!(fields.source_ids, strings(&["b"]));
    assert_eq!(fields.template_source_id, None);
    let mut req = request();
    req.name = Some("\t".to_string());
    let err = plan_profile_update(Some(profile()), req, &strings(&["a", "b"])).unwrap_err();
    assert_eq!(err.message(), Some("profile.name 不能为空".to_string()));
    let (kept, replace) = plan_profile_update(Some(profile()), request(), &strings(&["a", "b"])).unwrap();
    assert!(!replace);
    assert_eq!(kept.name, "Old");
    assert_eq!(kept.template_source_id, Some("a".to_string()));
}

#[test]
fn management_call_checks_auth_then_sends() {
    let plan = plan_proxy_api_call("/api/sources", "http://h", Some("tok")).unwrap();
    let (stage, action) = proxy_call_step(&plan, CallStage::Planned, CallEvent::Begin);
    assert_eq!(stage, CallStage::Checking);
    assert!(matches!(action, CallAction::CheckAuthenticatedStatus));
    let (stage, action) = proxy_call_step(&plan, stage, CallEvent::CoreChecked(true));
    assert_eq!(stage, CallStage::Sending);
    assert!(matches!(action, CallAction::Send));
    let (stage, action) = proxy_call_step(&plan, stage, CallEvent::Responded);
    assert_eq!(stage, CallStage::Finished);
    assert!(matches!(action, CallAction::Deliver));
    let (_, action) = proxy_call_step(&plan, stage, CallEvent::Responded);
    assert!(matches!(action, CallAction::Ignore));
}

#[test]
fn failed_checks_stop_the_call() {
    let plan = plan_proxy_api_call("/api/sources", "http://h", Some("tok")).unwrap();
    match proxy_call_step(&plan, CallStage::Checking, CallEvent::CoreChecked(false)) {
        (CallStage::Finished, CallAction::Fail(m)) => assert_eq!(m, "Core 未运行、不可达或身份校验失败"),
        _ => panic!("the call stops"),
    }
    let public = plan_proxy_api_call("/health", "http://h", None).unwrap();
    let (_, action) = proxy_call_step(&public, CallStage::Planned, CallEvent::Begin);
    assert!(matches!(action, CallAction::CheckHealth));
    match proxy_call_step(&public, CallStage::Checking, CallEvent::CoreChecked(false)) {
        (CallStage::Finished, CallAction::Fail(m)) => assert_eq!(m, "Core 未运行或不可达"),
        _ => panic!("the call stops"),
    }
    match proxy_call_step(&public, CallStage::Sending, CallEvent::SendFailed) {
        (CallStage::Finished, CallAction::Fail(m)) => assert_eq!(m, "调用 Core API 失败: http://h/health"),
        _ => panic!("the call stops"),
    }
    match proxy_call_step(&public, CallStage::Sending, CallEvent::MethodRejected("BAD METHOD".to_string())) {
        (CallStage::Finished, CallAction::Fail(m)) => assert_eq!(m, "不支持的 HTTP 方法: BAD METHOD"),
        _ => panic!("the call stops"),
    }
    let (stage, action) = proxy_call_step(&public, CallStage::Checking, CallEvent::Responded);
    assert_eq!(stage, CallStage::Checking);
    assert!(matches!(action, CallAction::Ignore));
}

fn source_state(name: Option<&str>, has_config: bool) -> UpdateSourceState {
    UpdateSourceState {
        stage: UpdateSourceStage::Start,
        source_id: "source-1".to_string(),
        name: name.map(|n| n.to_string()),
        has_config,
    }
}

#[test]
fn update_source_missing_is_not_found() {
    let (s, a) = update_source_step::<String>(source_state(None, false), UpdateSourceEvent::Begin);
    assert!(matches!(a, UpdateSourceAction::LoadSource));
    let (s, a) = update_source_step::<String>(s, UpdateSourceEvent::SourceFound(false));
    assert_eq!(s.stage, UpdateSourceStage::Finished);
    match a {
        UpdateSourceAction::Refuse(CoreError::SourceNotFound(id)) => assert_eq!(id, "source-1"),
        _ => panic!("a missing source is refused"),
    }
}

#[test]
fn update_source_rolls_back_failed_secrets() {
    let mut s = source_state(Some("  Renamed "), true);
    let mut actions = Vec::new();
    for event in [
        UpdateSourceEvent::Begin,
        UpdateSourceEvent::SourceFound(true),
        UpdateSourceEvent::Prepared,
        UpdateSourceEvent::Written,
        UpdateSourceEvent::Failed("secret store down".to_string()),
    ] {
        let (next, action) = update_source_step(s, event);
        s = next;
        actions.push(action);
    }
    assert!(matches!(actions[1], UpdateSourceAction::Prepare));
    match &actions[2] {
        UpdateSourceAction::Write(Some(n)) => assert_eq!(n, "Renamed"),
        _ => panic!("the trimmed name is written"),
    }
    assert!(matches!(actions[3], UpdateSourceAction::WriteSecrets));
    match &actions[4] {
        UpdateSourceAction::RollBack(e) => assert_eq!(e, "secret store down"),
        _ => panic!("a failed secret write is rolled back"),
    }
    assert_eq!(s.stage, UpdateSourceStage::Finished);
}

#[test]
fn update_source_blank_name_and_plain_finish() {
    let s = UpdateSourceState { stage: UpdateSourceStage::Preparing, ..source_state(Some("  "), false) };
    match update_source_step::<String>(s, UpdateSourceEvent::Prepared).1 {
        UpdateSourceAction::Refuse(CoreError::ConfigInvalid(m)) => assert_eq!(m, "name 不能为空"),
        _ => panic!("a blank name is refused"),
    }
    let s = UpdateSourceState { stage: UpdateSourceStage::Writing, ..source_state(None, false) };
    let (s, a) = update_source_step::<String>(s, UpdateSourceEvent::Written);
    assert!(matches!(a, UpdateSourceAction::Finish));
    assert_eq!(s.stage, UpdateSourceStage::Finished);
}

fn install_state(mode: InstallMode) -> InstallState<String> {
    InstallState { stage: InstallStage::Start, mode, target_name: "vendor.demo".to_string(), pending: None }
}

fn run(mut s: InstallState<String>, events: Vec<InstallEvent<String>>) -> (InstallState<String>, Vec<InstallAction<String>>) {
    let mut actions = Vec::new();
    for event in events {
        let (next, action) = install_step(s, event);
        s = next;
        actions.push(action);
    }
    (s, actions)
}

#[test]
fn fresh_install_refuses_existing_target() {
    let (s, a) = run(
        install_state(InstallMode::Fresh),
        vec![InstallEvent::Begin, InstallEvent::Done, InstallEvent::Done, InstallEvent::Done, InstallEvent::TargetExists(true)],
    );
    assert!(matches!(a[3], InstallAction::CheckTarget));
    match &a[4] {
        InstallAction::RemoveStagingThenRefuse(CoreError::PluginAlreadyInstalled(n)) => assert_eq!(n, "vendor.demo"),
        _ => panic!("an existing target is refused"),
    }
    assert_eq!(s.stage, InstallStage::Finished);
}

#[test]
fn fresh_install_moves_in_and_records() {
    let (_, a) = run(
        install_state(InstallMode::Fresh),
        vec![
            InstallEvent::Begin,
            InstallEvent::Done,
            InstallEvent::Done,
            InstallEvent::Done,
            InstallEvent::TargetExists(false),
            InstallEvent::Done,
            InstallEvent::Failed("db".to_string()),
        ],
    );
    assert!(matches!(a[4], InstallAction::MoveStagingToTarget));
    assert!(matches!(a[5], InstallAction::InsertRecord));
    assert!(matches!(&a[6], InstallAction::RemoveTargetThenFail(e) if e == "db"));
}

#[test]
fn upgrade_restores_backup_when_swap_fails() {
    let (s, a) = run(
        install_state(InstallMode::Upgrade),
        vec![
            InstallEvent::Begin,
            InstallEvent::Done,
            InstallEvent::Done,
            InstallEvent::Done,
            InstallEvent::Done,
            InstallEvent::Failed("rename".to_string()),
            InstallEvent::Failed("restore".to_string()),
        ],
    );
    assert!(matches!(a[3], InstallAction::MoveTargetToBackup));
    assert!(matches!(a[4], InstallAction::MoveStagingToTarget));
    assert!(matches!(a[5], InstallAction::RemoveStagingAndRestoreBackup));
    assert!(matches!(&a[6], InstallAction::FailBoth(x, y) if x == "rename" && y == "restore"));
    assert_eq!(s.stage, InstallStage::Finished);
    assert_eq!(
        both_moves_failed_message("rename", "restore"),
        "插件目录升级失败且旧目录恢复失败；升级错误：rename；恢复错误：restore"
    );
}

#[test]
fn upgrade_rolls_back_when_backup_removal_fails() {
    let (_, a) = run(
        install_state(InstallMode::Upgrade),
        vec![
            InstallEvent::Begin,
            InstallEvent::Done,
            InstallEvent::Done,
            InstallEvent::Done,
            InstallEvent::Done,
            InstallEvent::Done,
            InstallEvent::Done,
            InstallEvent::Failed("rm".to_string()),
            InstallEvent::RolledBack(None, None),
        ],
    );
    assert!(matches!(a[5], InstallAction::ReplaceRecord));
    assert!(matches!(a[6], InstallAction::RemoveBackup));
    assert!(matches!(a[7], InstallAction::RollBackAll));
    assert!(matches!(&a[8], InstallAction::Fail(e) if e == "rm"));
}

#[test]
fn plugin_upload_checks_name_base64_and_size() {
    assert_eq!(check_plugin_upload("pkg.tar", "AAAA", 10).unwrap_err(), "仅支持 .zip 插件包");
    assert_eq!(check_plugin_upload("PKG.ZIP", "@@@", 10).unwrap_err(), "解析插件包内容失败（Base64）");
    assert_eq!(check_plugin_upload("p.zip", "AAAAAA==", 3).unwrap_err(), "插件包超过大小限制：3 bytes");
    assert_eq!(check_plugin_upload("p.Zip", "aGk=", 2).unwrap(), b"hi".to_vec());
}

#[test]
fn plugin_record_fields() {
    let r = plugin_record("subforge.builtin.static", "Static", "1.0.1", "1", "static", 1700000000000000001, "2026-01-01T00:00:00Z");
    assert_eq!(r.id, "subforge.builtin.static-1700000000000000001");
    assert_eq!(r.status, "installed");
    assert_eq!(r.version, "1.0.1");
    assert_eq!(r.installed_at, r.updated_at);
    assert_eq!(r.updated_at, "2026-01-01T00:00:00Z");
}

#[test]
fn source_record_and_creation() {
    let r = source_record("vendor.feed", " Feed ", 7, "now");
    assert_eq!(r.id, "source-vendor-feed-7");
    assert_eq!(r.name, " Feed ");
    assert_eq!(r.status, "healthy");
    assert_eq!(r.state_json, None);
    assert_eq!(r.created_at, "now");
    match create_source_step::<String>(" ", CreateSourceStage::Start, CreateSourceEvent::Begin) {
        (CreateSourceStage::Finished, CreateSourceAction::Refuse(CoreError::ConfigInvalid(m))) => {
            assert_eq!(m, "name 不能为空")
        }
        _ => panic!("a blank name is refused"),
    }
    let (s, a) = create_source_step::<String>("Feed", CreateSourceStage::Start, CreateSourceEvent::Begin);
    assert!(matches!(a, CreateSourceAction::Prepare));
    let (s, a) = create_source_step::<String>("Feed", s, CreateSourceEvent::Prepared);
    assert!(matches!(a, CreateSourceAction::Insert));
    let (s, a) = create_source_step::<String>("Feed", s, CreateSourceEvent::Inserted);
    assert!(matches!(a, CreateSourceAction::Persist));
    let (s, a) = create_source_step("Feed", s, CreateSourceEvent::Failed("secrets".to_string()));
    assert_eq!(s, CreateSourceStage::Finished);
    assert!(matches!(&a, CreateSourceAction::RollBack(e) if e == "secrets"));
}

use subforge::aggregator::SourceNodes;
use subforge::error::CoreError;
use subforge::plugin_install::{InstallMode, plan_plugin_install};
use subforge::api_checks::{validate_logs_query, validate_settings_update};
use subforge::fetcher::routing_template::{
    ClashRoutingTemplate, extract_clash_routing_template, source_routing_template_key,
};
use subforge::model::{ExtraMap, ExtraValue, ProxyNode, ProxyProtocol, ProxyTransport, TlsConfig};
use subforge::parser::doc::{DocNumber, DocValue};
use subforge::profiles::export_token::generate_export_token;
use subforge::profiles::template_export::{build_template_export_nodes, rename_appended_conflicts};
use subforge::profiles::template_settings::{
    ensure_routing_template_source_in_scope, normalize_routing_template_source_id, profile_name,
    profile_routing_template_source_key, requested_template_source,
};

fn node(source_id: &str, name: &str, server: &str, uuid: &str) -> ProxyNode {
    let mut extra = ExtraMap::new();
    extra.insert("uuid".to_string(), ExtraValue::Text(uuid.to_string()));
    ProxyNode {
        id: format!("node-{source_id}-{name}"),
        name: name.to_string(),
        protocol: ProxyProtocol::Vless,
        server: server.to_string(),
        port: 443,
        transport: ProxyTransport::Tcp,
        tls: TlsConfig { enabled: true, server_name: None },
        extra,
        source_id: source_id.to_string(),
        tags: Vec::new(),
        region: None,
        updated_at: "2026-01-01T00:00:00Z".to_string(),
    }
}

fn names(nodes: &[ProxyNode]) -> Vec<String> {
    nodes.iter().map(|n| n.name.clone()).collect()
}

fn from_yaml(value: &serde_yaml::Value) -> DocValue {
    match value {
        serde_yaml::Value::Null => DocValue::Null,
        serde_yaml::Value::Bool(b) => DocValue::Bool(*b),
        serde_yaml::Value::Number(n) => DocValue::Number(DocNumber {
            text: n.to_string(),
            unsigned: n.as_u64(),
            signed: n.as_i64(),
        }),
        serde_yaml::Value::String(s) => DocValue::Text(s.clone()),
        serde_yaml::Value::Sequence(items) => DocValue::List(items.iter().map(from_yaml).collect()),
        serde_yaml::Value::Mapping(map) => DocValue::Mapping(
            map.iter().map(|(k, v)| (from_yaml(k), from_yaml(v))).collect(),
        ),
        serde_yaml::Value::Tagged(tagged) => DocValue::Tagged(Box::new(from_yaml(&tagged.value))),
    }
}

fn template() -> ClashRoutingTemplate {
    let yaml = "proxy-groups:\n  - name: Auto\n    type: url-test\n    proxies: [\" A \", \"\", B]\n    url: http://probe\n    interval: 300\n    tolerance: 50\n  - name: \"  \"\n    type: select\n  - name: Fallback\n    type: fallback\n    interval: -1\n";
    let root = from_yaml(&serde_yaml::from_str(yaml).unwrap());
    extract_clash_routing_template(&root).expect("groups present")
}

#[test]
fn routing_template_keeps_named_groups() {
    let t = template();
    assert_eq!(t.groups.len(), 2);
    assert_eq!(t.groups[0].name, "Auto");
    assert_eq!(t.groups[0].group_type, "url-test");
    assert_eq!(t.groups[0].proxies, vec!["A".to_string(), "B".to_string()]);
    assert_eq!(t.groups[0].url.as_deref(), Some("http://probe"));
    assert_eq!(t.groups[0].interval, Some(300));
    assert_eq!(t.groups[0].tolerance, Some(50));
    assert_eq!(t.groups[1].name, "Fallback");
    assert_eq!(t.groups[1].interval, None);
    assert!(t.groups[1].proxies.is_empty());

    let empty = from_yaml(&serde_yaml::from_str("proxy-groups: []\n").unwrap());
    assert!(extract_clash_routing_template(&empty).is_none());
}

#[test]
fn settings_keys_and_source_ids() {
    assert_eq!(source_routing_template_key("s1"), "source.s1.clash_routing_template");
    assert_eq!(profile_routing_template_source_key("p1"), "profile.p1.clash_template_source_id");
    assert_eq!(normalize_routing_template_source_id(Some("  s1 ")).as_deref(), Some("s1"));
    assert_eq!(normalize_routing_template_source_id(Some("   ")), None);
    assert_eq!(normalize_routing_template_source_id(None), None);
    let ids = vec!["s1".to_string(), "s2".to_string()];
    assert!(ensure_routing_template_source_in_scope(&ids, Some("s2")).is_ok());
    assert!(ensure_routing_template_source_in_scope(&ids, None).is_ok());
    assert_eq!(
        ensure_routing_template_source_in_scope(&ids, Some("s3")).unwrap_err(),
        "routing_template_source_id 必须包含在 profile.source_ids 中"
    );
}

#[test]
fn appended_names_never_repeat_taken_names() {
    let template_nodes = vec![node("t", "HK", "a.example", "u1"), node("t", "HK (Other) ", "b.example", "u2")];
    let mut appended = vec![
        node("o", "HK", "c.example", "u3"),
        node("o", "HK", "d.example", "u4"),
        node("o", "JP", "e.example", "u5"),
    ];
    let sources = vec![SourceNodes::with_alias("o", " Other ", Vec::new())];
    rename_appended_conflicts(&template_nodes, &mut appended, &sources);
    assert_eq!(names(&appended), vec!["HK (Other)", "HK (Other) #2", "JP"]);
}

#[test]
fn template_export_puts_template_nodes_first() {
    let template_source = SourceNodes::new("t", vec![node("t", "HK", "a.example", "u1")]);
    let other = SourceNodes::new(
        "o",
        vec![node("o", "HK", "a.example", "u1"), node("o", "HK", "b.example", "u2"), node("o", "SG", "c.example", "u3")],
    );
    let defaults = vec![node("d", "D", "z.example", "u9")];
    let sources = vec![template_source, other];

    let plain = build_template_export_nodes(&sources, vec![node("d", "D", "z.example", "u9")], Some("t"), None);
    assert_eq!(names(&plain.nodes), vec!["D"]);
    assert!(plain.context.is_none());

    let export = build_template_export_nodes(&sources, defaults, Some("t"), Some(template()));
    assert_eq!(names(&export.nodes), vec!["HK", "HK (o) #2", "SG"]);
    let context = export.context.expect("templated export");
    assert_eq!(names(&context.nodes), vec!["HK (o) #2", "SG"]);
    assert_eq!(context.template.groups.len(), 2);

    let missing = build_template_export_nodes(&sources, vec![node("d", "D", "z.example", "u9")], Some("x"), Some(template()));
    assert_eq!(names(&missing.nodes), vec!["D"]);
    assert_eq!(names(&missing.context.expect("context").nodes), vec!["D"]);
}

#[test]
fn export_tokens_are_url_safe_and_random() {
    let a = generate_export_token().expect("random source available");
    let b = generate_export_token().expect("random source available");
    assert_eq!(a.len(), 43);
    assert!(a.chars().all(|c| c.is_ascii_alphanumeric() || c == '-' || c == '_'));
    assert_ne!(a, b);
}

#[test]
fn management_api_checks() {
    assert_eq!(validate_logs_query(None, None).unwrap(), (20, None));
    assert_eq!(validate_logs_query(Some(5), Some(" failed ")).unwrap(), (5, Some("failed".to_string())));
    assert_eq!(validate_logs_query(Some(0), None).unwrap_err(), "limit 必须在 1..=200 之间");
    assert_eq!(validate_logs_query(Some(201), None).unwrap_err(), "limit 必须在 1..=200 之间");
    assert_eq!(validate_logs_query(Some(5), Some("done")).unwrap_err(), "status 仅支持 running/success/failed");
    assert_eq!(validate_logs_query(Some(5), Some("  ")).unwrap(), (5, None));
    assert!(validate_settings_update(&vec!["log_level".to_string()]).is_ok());
    assert_eq!(validate_settings_update(&Vec::new()).unwrap_err(), "请求体 settings 不能为空");
    assert_eq!(validate_settings_update(&vec!["a".to_string(), " ".to_string()]).unwrap_err(), "设置键不能为空");
}

#[test]
fn profile_names_and_template_source_updates() {
    assert_eq!(profile_name("  Home ").unwrap(), "Home");
    assert_eq!(profile_name("   ").unwrap_err(), "profile.name 不能为空");
    assert_eq!(requested_template_source(Some("s1".to_string()), None).as_deref(), Some("s1"));
    assert_eq!(requested_template_source(Some("s1".to_string()), Some(None)), None);
    assert_eq!(requested_template_source(None, Some(Some(" s2 "))).as_deref(), Some("s2"));
    assert_eq!(requested_template_source(Some("s1".to_string()), Some(Some("  "))), None);
}

#[test]
fn plugin_install_plans() {
    assert_eq!(plan_plugin_install("p", "1.0.0", None, false).unwrap(), InstallMode::Fresh);
    assert_eq!(plan_plugin_install("p", "1.1.0", Some("1.0.0"), true).unwrap(), InstallMode::Upgrade);
    assert!(matches!(
        plan_plugin_install("p", "1.0.0", Some("1.0.0"), true),
        Err(CoreError::PluginAlreadyInstalled(ref id)) if id == "p"
    ));
    assert!(matches!(
        plan_plugin_install("p", "1.0.0", None, true),
        Err(CoreError::PluginAlreadyInstalled(_))
    ));
}

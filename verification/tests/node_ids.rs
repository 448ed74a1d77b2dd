use std::collections::hash_map::DefaultHasher;
use std::hash::{Hash, Hasher};

use subforge::model::ExtraValue;
use subforge::parser::common::node_id_text;
use subforge::parser::ss::{parse_ss_uri, ss_from_credential};
use subforge::parser::ssr::ssr_from_decoded;

fn expected_id(source_id: &str, protocol: isize, server: &str, port: u16, name: &str, credential: Option<&str>) -> String {
    let mut hasher = DefaultHasher::new();
    source_id.hash(&mut hasher);
    protocol.hash(&mut hasher);
    server.hash(&mut hasher);
    port.hash(&mut hasher);
    name.hash(&mut hasher);
    if let Some(c) = credential {
        c.hash(&mut hasher);
    }
    format!("node-{:016x}", hasher.finish())
}

#[test]
fn node_id_text_pads_to_sixteen_lowercase_digits() {
    assert_eq!(node_id_text(0), "node-0000000000000000");
    assert_eq!(node_id_text(0xab), "node-00000000000000ab");
    assert_eq!(node_id_text(u64::MAX), "node-ffffffffffffffff");
    assert_eq!(node_id_text(0x0123456789abcdef), "node-0123456789abcdef");
}

#[test]
fn ss_node_id_hashes_fields_and_password_json() {
    let node = parse_ss_uri("ss://aes-128-gcm:secret@example.com:8388#Demo", "src-1", "t").unwrap();
    assert_eq!(node.id, expected_id("src-1", 0, "example.com", 8388, node.name.as_str(), Some("\"secret\"")));
}

#[test]
fn node_ids_differ_by_credential() {
    let a = parse_ss_uri("ss://aes-128-gcm:one@example.com:8388#Demo", "src-1", "t").unwrap();
    let b = parse_ss_uri("ss://aes-128-gcm:two@example.com:8388#Demo", "src-1", "t").unwrap();
    assert_ne!(a.id, b.id);
}

#[test]
fn ss_from_decoded_credential() {
    let credential: Vec<char> = "chacha20:pw".chars().collect();
    let host: Vec<char> = "10.0.0.1:443".chars().collect();
    let node = ss_from_credential(credential, &host, None, "s", "t").unwrap();
    assert_eq!(node.name, "ss-10.0.0.1:443");
    assert_eq!(node.port, 443);
    match node.extra.get("cipher") {
        Some(ExtraValue::Text(c)) => assert_eq!(c, "chacha20"),
        _ => panic!("cipher is set"),
    }
    let bad: Vec<char> = "no-colon".chars().collect();
    let err = ss_from_credential(bad, &host, None, "s", "t").unwrap_err();
    assert_eq!(err.message(), "ss URI 凭证必须为 method:password");
}

#[test]
fn ssr_from_decoded_body() {
    // cGFzcw is Base64 of "pass"
    let body: Vec<char> = "1.2.3.4:8080:origin:aes-256-cfb:plain:cGFzcw".chars().collect();
    let node = ssr_from_decoded(body, "s", "t").unwrap();
    assert_eq!(node.server, "1.2.3.4");
    assert_eq!(node.port, 8080);
    assert_eq!(node.name, "ssr-1.2.3.4:8080");
    match node.extra.get("password") {
        Some(ExtraValue::Text(p)) => assert_eq!(p, "pass"),
        _ => panic!("password is set"),
    }
    let missing: Vec<char> = "1.2.3.4:8080:origin".chars().collect();
    assert_eq!(ssr_from_decoded(missing, "s", "t").unwrap_err().message(), "ssr URI 缺少 method");
    let empty_server: Vec<char> = ":8080".chars().collect();
    assert_eq!(ssr_from_decoded(empty_server, "s", "t").unwrap_err().message(), "ssr URI 缺少 server");
}

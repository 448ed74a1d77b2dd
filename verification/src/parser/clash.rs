//! Clash/Mihomo style documents: a `proxies` list of node maps, in YAML or JSON.
use vstd::prelude::*;

use crate::error::{CoreError, ErrorKind, parse_error};
use crate::model::{ExtraMap, ExtraView, NodeView, ProxyNode, ProxyProtocol, TlsConfig, TlsView, nodes_view};
use crate::parser::common::{
    build_proxy_node, map_transport, opt_chars, parse_failure, parse_failure_text, proxy_node,
    transport_of,
};
use crate::parser::doc::{
    DocValue, as_list, as_map, entry_value, field_bool, field_flag, field_port, field_string,
    field_text, field_u16, json_field_string, json_field_text, list_of, map_get, map_of,
};
use crate::parser::helpers::{
    insert_opt, insert_optional_string, map_protocol, protocol_of, required_check,
    validate_required,
};
use crate::parser::ini::default_tls;
use crate::text::{ascii_lower, lowercase, string_from};

verus! {

/// A text setting of a node map: YAML maps read text only, JSON objects also print
/// numbers and booleans as text.
pub open spec fn setting(m: Seq<(DocValue, DocValue)>, key: Seq<char>, json: bool) -> Option<Seq<char>> {
    if json {
        json_field_text(m, key)
    } else {
        field_text(m, key)
    }
}

/// The first of two optional values that is present.
pub open spec fn either(a: Option<Seq<char>>, b: Option<Seq<char>>) -> Option<Seq<char>> {
    match a {
        Some(x) => Some(x),
        None => b,
    }
}

/// The credential settings of a node of `protocol`.
pub open spec fn clash_credentials(
    protocol: ProxyProtocol,
    m: Seq<(DocValue, DocValue)>,
    json: bool,
    proxy_type: Seq<char>,
) -> Result<Map<Seq<char>, ExtraView>, (ErrorKind, Seq<char>)> {
    let e = Map::<Seq<char>, ExtraView>::empty();
    match protocol {
        ProxyProtocol::Ss | ProxyProtocol::Ssr => Ok(
            insert_opt(
                insert_opt(
                    e,
                    "cipher"@,
                    either(setting(m, "cipher"@, json), setting(m, "method"@, json)),
                ),
                "password"@,
                setting(m, "password"@, json),
            ),
        ),
        ProxyProtocol::Vmess | ProxyProtocol::Vless => Ok(
            insert_opt(
                insert_opt(e, "uuid"@, either(setting(m, "uuid"@, json), setting(m, "id"@, json))),
                "flow"@,
                setting(m, "flow"@, json),
            ),
        ),
        ProxyProtocol::Trojan => Ok(insert_opt(e, "password"@, setting(m, "password"@, json))),
        _ => Err(parse_error("非 URI 文本暂不支持该协议："@ + proxy_type)),
    }
}

/// The WebSocket settings of a YAML node: `ws-opts.path`, and the `Host` (or `host`)
/// entry of `ws-opts.headers`.
pub open spec fn ws_settings(extra: Map<Seq<char>, ExtraView>, m: Seq<(DocValue, DocValue)>) -> Map<
    Seq<char>,
    ExtraView,
> {
    match entry_value(m, "ws-opts"@) {
        Some(w) => match map_of(w) {
            Some(ws) => {
                let host = match entry_value(ws, "headers"@) {
                    Some(h) => match map_of(h) {
                        Some(hs) => either(field_text(hs, "Host"@), field_text(hs, "host"@)),
                        None => None,
                    },
                    None => None,
                };
                insert_opt(insert_opt(extra, "path"@, field_text(ws, "path"@)), "host"@, host)
            },
            None => extra,
        },
        None => extra,
    }
}

/// What a node map gives: errors for a missing name, type, server or valid port, for
/// an unsupported type and for missing credentials; else the node.
pub open spec fn clash_node(
    source_id: Seq<char>,
    m: Seq<(DocValue, DocValue)>,
    json: bool,
    updated_at: Seq<char>,
) -> Result<NodeView, (ErrorKind, Seq<char>)> {
    match setting(m, "name"@, json) {
        None => Err(parse_error("节点缺少 name"@)),
        Some(name) => match setting(m, "type"@, json) {
            None => Err(parse_error("节点缺少 type"@)),
            Some(t) => {
                let proxy_type = ascii_lower(t);
                match protocol_of(proxy_type) {
                    None => Err(parse_error("不支持的协议："@ + proxy_type)),
                    Some(protocol) => match setting(m, "server"@, json) {
                        None => Err(parse_error("节点缺少 server"@)),
                        Some(server) => match field_port(m, "port"@) {
                            None => Err(parse_error("节点缺少有效 port"@)),
                            Some(port) => match clash_credentials(protocol, m, json, proxy_type) {
                                Err(e) => Err(e),
                                Ok(credentials) => {
                                    let extra = if json {
                                        credentials
                                    } else {
                                        ws_settings(credentials, m)
                                    };
                                    match required_check(protocol, extra, name) {
                                        Err(e) => Err(e),
                                        Ok(_) => Ok(
                                            proxy_node(
                                                source_id,
                                                name,
                                                protocol,
                                                server,
                                                port,
                                                transport_of(setting(m, "network"@, json)),
                                                TlsView {
                                                    enabled: match field_bool(m, "tls"@) {
                                                        Some(b) => b,
                                                        None => default_tls(protocol),
                                                    },
                                                    server_name: either(
                                                        setting(m, "sni"@, json),
                                                        setting(m, "servername"@, json),
                                                    ),
                                                },
                                                extra,
                                                updated_at,
                                            ),
                                        ),
                                    }
                                },
                            },
                        },
                    },
                }
            },
        },
    }
}

/// A node map without a boolean `tls` entry gives a node with TLS on exactly when its
/// protocol is VMess, VLESS or Trojan; with one, TLS is what the entry says.
pub proof fn lemma_clash_tls_default(
    source_id: Seq<char>,
    m: Seq<(DocValue, DocValue)>,
    json: bool,
    updated_at: Seq<char>,
)
    requires
        clash_node(source_id, m, json, updated_at) is Ok,
    ensures
        ({
            let n = clash_node(source_id, m, json, updated_at)->Ok_0;
            &&& field_bool(m, "tls"@) is None ==> (n.tls.enabled <==> (n.protocol == ProxyProtocol::Vmess
                || n.protocol == ProxyProtocol::Vless || n.protocol == ProxyProtocol::Trojan))
            &&& field_bool(m, "tls"@) matches Some(b) ==> n.tls.enabled == b
        }),
{
}

/// The nodes of a `proxies` list: items that are not maps and items that fail to parse
/// are skipped.
pub open spec fn clash_items(
    source_id: Seq<char>,
    items: Seq<DocValue>,
    json: bool,
    updated_at: Seq<char>,
) -> Seq<NodeView>
    decreases items.len(),
{
    if items.len() == 0 {
        Seq::empty()
    } else {
        let prev = clash_items(source_id, items.drop_last(), json, updated_at);
        match map_of(items.last()) {
            Some(m) => match clash_node(source_id, m, json, updated_at) {
                Ok(n) => prev.push(n),
                Err(_) => prev,
            },
            None => prev,
        }
    }
}

/// The `proxies` list of a YAML document, else its `Proxy` list.
pub open spec fn yaml_proxies(root: DocValue) -> Option<Seq<DocValue>> {
    match map_of(root) {
        None => None,
        Some(m) => {
            let first = match entry_value(m, "proxies"@) {
                Some(v) => list_of(v),
                None => None,
            };
            match first {
                Some(items) => Some(items),
                None => match entry_value(m, "Proxy"@) {
                    Some(v) => list_of(v),
                    None => None,
                },
            }
        },
    }
}

/// The `proxies` list of a JSON document.
pub open spec fn json_proxies(root: DocValue) -> Option<Seq<DocValue>> {
    match map_of(root) {
        None => None,
        Some(m) => match entry_value(m, "proxies"@) {
            Some(v) => list_of(v),
            None => None,
        },
    }
}

/// The nodes of a Clash-like YAML document; nothing when it has no proxy list.
pub open spec fn clash_yaml(source_id: Seq<char>, root: DocValue, updated_at: Seq<char>) -> Option<
    Seq<NodeView>,
> {
    match yaml_proxies(root) {
        Some(items) => Some(clash_items(source_id, items, false, updated_at)),
        None => None,
    }
}

/// The nodes of a Clash-like JSON document; nothing when it has no proxy list.
pub open spec fn clash_json(source_id: Seq<char>, root: DocValue, updated_at: Seq<char>) -> Option<
    Seq<NodeView>,
> {
    match json_proxies(root) {
        Some(items) => Some(clash_items(source_id, items, true, updated_at)),
        None => None,
    }
}

/// A text setting of a node map (see [`setting`]).
fn setting_text(m: &Vec<(DocValue, DocValue)>, key: &str, json: bool) -> (r: Option<Vec<char>>)
    ensures
        opt_chars(r) == setting(m@, key@, json),
{
    if json {
        json_field_string(m, key)
    } else {
        field_string(m, key)
    }
}

/// The first of two optional values that is present.
fn first_present(a: Option<Vec<char>>, b: Option<Vec<char>>) -> (r: Option<Vec<char>>)
    ensures
        opt_chars(r) == either(opt_chars(a), opt_chars(b)),
{
    match a {
        Some(x) => Some(x),
        None => b,
    }
}

/// The credential settings of a node (see [`clash_credentials`]).
fn credentials_of(protocol: ProxyProtocol, m: &Vec<(DocValue, DocValue)>, json: bool, proxy_type: &[char]) -> (r:
    Result<ExtraMap, CoreError>)
    ensures
        match r {
            Ok(e) => clash_credentials(protocol, m@, json, proxy_type@) == Ok::<
                Map<Seq<char>, ExtraView>,
                (ErrorKind, Seq<char>),
            >(e@),
            Err(e) => clash_credentials(protocol, m@, json, proxy_type@) == Err::<
                Map<Seq<char>, ExtraView>,
                (ErrorKind, Seq<char>),
            >(e@),
        },
{
    let mut extra = ExtraMap::new();
    match protocol {
        ProxyProtocol::Ss | ProxyProtocol::Ssr => {
            let c = first_present(setting_text(m, "cipher", json), setting_text(m, "method", json));
            insert_optional_string(&mut extra, "cipher", c);
            insert_optional_string(&mut extra, "password", setting_text(m, "password", json));
        },
        ProxyProtocol::Vmess | ProxyProtocol::Vless => {
            let u = first_present(setting_text(m, "uuid", json), setting_text(m, "id", json));
            insert_optional_string(&mut extra, "uuid", u);
            insert_optional_string(&mut extra, "flow", setting_text(m, "flow", json));
        },
        ProxyProtocol::Trojan => {
            insert_optional_string(&mut extra, "password", setting_text(m, "password", json));
        },
        _ => {
            return Err(parse_failure("非 URI 文本暂不支持该协议：", proxy_type));
        },
    }
    Ok(extra)
}

/// Adds the WebSocket settings of a YAML node (see [`ws_settings`]).
fn add_ws_settings(extra: &mut ExtraMap, m: &Vec<(DocValue, DocValue)>)
    ensures
        final(extra)@ == ws_settings(old(extra)@, m@),
{
    match map_get(m, "ws-opts") {
        Some(w) => match as_map(w) {
            Some(ws) => {
                insert_optional_string(extra, "path", field_string(ws, "path"));
                let host = match map_get(ws, "headers") {
                    Some(h) => match as_map(h) {
                        Some(hs) => first_present(field_string(hs, "Host"), field_string(hs, "host")),
                        None => None,
                    },
                    None => None,
                };
                insert_optional_string(extra, "host", host);
            },
            None => {},
        },
        None => {},
    }
}

/// Reads one node map of a Clash-like document (see [`clash_node`]); `json` tells whether
/// the document is JSON.
pub fn parse_clash_proxy(source_id: &str, m: &Vec<(DocValue, DocValue)>, json: bool, updated_at: &str) -> (r:
    Result<ProxyNode, CoreError>)
    ensures
        match r {
            Ok(n) => clash_node(source_id@, m@, json, updated_at@) == Ok::<NodeView, (ErrorKind, Seq<char>)>(
                n@,
            ),
            Err(e) => clash_node(source_id@, m@, json, updated_at@) == Err::<
                NodeView,
                (ErrorKind, Seq<char>),
            >(e@),
        },
{
    let name = match setting_text(m, "name", json) {
        Some(n) => n,
        None => {
            return Err(parse_failure_text("节点缺少 name"));
        },
    };
    let raw_type = match setting_text(m, "type", json) {
        Some(t) => t,
        None => {
            return Err(parse_failure_text("节点缺少 type"));
        },
    };
    let proxy_type = lowercase(raw_type.as_slice());
    let protocol = map_protocol(proxy_type.as_slice())?;
    let server = match setting_text(m, "server", json) {
        Some(s) => s,
        None => {
            return Err(parse_failure_text("节点缺少 server"));
        },
    };
    let port = match field_u16(m, "port") {
        Some(p) => p,
        None => {
            return Err(parse_failure_text("节点缺少有效 port"));
        },
    };
    let transport = map_transport(setting_text(m, "network", json));
    let tls_enabled = match field_flag(m, "tls") {
        Some(b) => b,
        None => protocol == ProxyProtocol::Vmess || protocol == ProxyProtocol::Vless || protocol
            == ProxyProtocol::Trojan,
    };
    let sni = first_present(setting_text(m, "sni", json), setting_text(m, "servername", json));
    let mut extra = credentials_of(protocol, m, json, proxy_type.as_slice())?;
    if !json {
        add_ws_settings(&mut extra, m);
    }
    validate_required(protocol, &extra, name.as_slice())?;
    let tls = TlsConfig {
        enabled: tls_enabled,
        server_name: match sni {
            Some(s) => Some(string_from(s.as_slice())),
            None => None,
        },
    };
    Ok(
        build_proxy_node(
            source_id,
            string_from(name.as_slice()),
            protocol,
            string_from(server.as_slice()),
            port,
            transport,
            tls,
            extra,
            updated_at,
        ),
    )
}

/// The nodes of a `proxies` list (see [`clash_items`]).
pub fn parse_clash_items(source_id: &str, items: &Vec<DocValue>, json: bool, updated_at: &str) -> (r: Vec<
    ProxyNode,
>)
    ensures
        nodes_view(r@) == clash_items(source_id@, items@, json, updated_at@),
{
    let mut nodes: Vec<ProxyNode> = Vec::new();
    let mut i: usize = 0;
    assert(items@.take(0) =~= Seq::<DocValue>::empty());
    assert(nodes_view(nodes@) =~= Seq::<NodeView>::empty());
    while i < items.len()
        invariant
            i <= items@.len(),
            nodes_view(nodes@) == clash_items(source_id@, items@.take(i as int), json, updated_at@),
        decreases items@.len() - i,
    {
        proof {
            assert(items@.take(i + 1).drop_last() =~= items@.take(i as int));
            assert(items@.take(i + 1).last() == items@[i as int]);
        }
        match as_map(&items[i]) {
            Some(m) => match parse_clash_proxy(source_id, m, json, updated_at) {
                Ok(node) => {
                    let ghost prev = nodes@;
                    nodes.push(node);
                    assert(nodes_view(nodes@) =~= nodes_view(prev).push(node@));
                },
                Err(_) => {},
            },
            None => {},
        }
        i += 1;
    }
    assert(items@.take(items@.len() as int) =~= items@);
    nodes
}

/// Reads a Clash-like YAML document (see [`clash_yaml`]).
pub fn try_parse_clash_like_yaml(source_id: &str, root: &DocValue, updated_at: &str) -> (r: Option<
    Vec<ProxyNode>,
>)
    ensures
        match r {
            Some(nodes) => clash_yaml(source_id@, *root, updated_at@) == Some(nodes_view(nodes@)),
            None => clash_yaml(source_id@, *root, updated_at@) is None,
        },
{
    let m = match as_map(root) {
        Some(m) => m,
        None => {
            return None;
        },
    };
    let first = match map_get(m, "proxies") {
        Some(v) => as_list(v),
        None => None,
    };
    let items = match first {
        Some(items) => items,
        None => match map_get(m, "Proxy") {
            Some(v) => match as_list(v) {
                Some(items) => items,
                None => {
                    return None;
                },
            },
            None => {
                return None;
            },
        },
    };
    Some(parse_clash_items(source_id, items, false, updated_at))
}

/// Reads a Clash-like JSON document (see [`clash_json`]).
pub fn try_parse_clash_like_json(source_id: &str, root: &DocValue, updated_at: &str) -> (r: Option<
    Vec<ProxyNode>,
>)
    ensures
        match r {
            Some(nodes) => clash_json(source_id@, *root, updated_at@) == Some(nodes_view(nodes@)),
            None => clash_json(source_id@, *root, updated_at@) is None,
        },
{
    let m = match as_map(root) {
        Some(m) => m,
        None => {
            return None;
        },
    };
    let items = match map_get(m, "proxies") {
        Some(v) => match as_list(v) {
            Some(items) => items,
            None => {
                return None;
            },
        },
        None => {
            return None;
        },
    };
    Some(parse_clash_items(source_id, items, true, updated_at))
}

} // verus!

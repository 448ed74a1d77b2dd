//! `wireguard://` URIs.
use vstd::prelude::*;

use crate::aggregator::dedupe::{json_text, json_text_of};
use crate::error::{CoreError, ErrorKind, parse_error};
use crate::model::{ExtraMap, ExtraValue, ExtraView, NodeView, ProxyNode, ProxyProtocol, ProxyTransport, TlsConfig, TlsView};
use crate::parser::common::{
    build_proxy_node_id, decode_percent_encoded, node_id, opt_chars, parse_failure,
    parse_failure_text, percent_decoded,
};
use crate::parser::helpers::{insert_opt, insert_optional_string};
use crate::parser::uri::{
    UrlParts, UrlView, parse_url, parsed_view, query_multi_values, query_number, query_text,
    query_u16, query_value, query_values, url_parsed, key_in, first_value, lemma_first_value_at,
};
use crate::redaction::literal_texts;
use crate::text::{
    chars_of, concat, decimal, decimal_of, eq_ignore_case, string_from, string_list, texts_view, trim,
};

verus! {

pub open spec fn public_key_keys() -> Seq<&'static str> {
    seq!["publickey", "public_key"]
}

pub open spec fn preshared_key_keys() -> Seq<&'static str> {
    seq!["presharedkey", "preshared_key"]
}

pub open spec fn reserved_keys() -> Seq<&'static str> {
    seq!["reserved"]
}

pub open spec fn mtu_keys() -> Seq<&'static str> {
    seq!["mtu"]
}

pub open spec fn address_keys() -> Seq<&'static str> {
    seq!["address", "local_address"]
}

pub open spec fn peer_keys() -> Seq<&'static str> {
    seq!["peer"]
}

/// The interface address used when the URI names none.
pub open spec fn default_local_address() -> Seq<char> {
    "172.16.0.2/32"@
}

/// The settings of a WireGuard node read from its URL: the private key (the username),
/// the public and preshared keys, `reserved`, `mtu`, the local addresses and the peers
/// (the server itself when none is named).
pub open spec fn wireguard_extra(u: UrlView, server: Seq<char>, port: u16) -> Map<Seq<char>, ExtraView> {
    let q = u.query;
    let e0 = if u.username.len() > 0 {
        Map::<Seq<char>, ExtraView>::empty().insert("private_key"@, ExtraView::Text(u.username))
    } else {
        Map::<Seq<char>, ExtraView>::empty()
    };
    let e1 = insert_opt(e0, "public_key"@, query_text(q, literal_texts(public_key_keys())));
    let e2 = insert_opt(e1, "preshared_key"@, query_text(q, literal_texts(preshared_key_keys())));
    let e3 = insert_opt(e2, "reserved"@, query_text(q, literal_texts(reserved_keys())));
    let e4 = match query_number(q, literal_texts(mtu_keys())) {
        Some(n) => e3.insert("mtu"@, ExtraView::Number(n as u64)),
        None => e3,
    };
    let addresses = query_values(q, literal_texts(address_keys()));
    let peers = query_values(q, literal_texts(peer_keys()));
    e4.insert(
        "local_address"@,
        ExtraView::List(
            if addresses.len() == 0 {
                seq![default_local_address()]
            } else {
                addresses
            },
        ),
    ).insert(
        "peers"@,
        ExtraView::List(
            if peers.len() == 0 {
                seq![server + ":"@ + decimal(port as nat)]
            } else {
                peers
            },
        ),
    )
}

/// The credential text of a WireGuard node's identifier: the JSON text of its private
/// key, else of its public key.
pub open spec fn wireguard_credential(extra: Map<Seq<char>, ExtraView>) -> Option<Seq<char>> {
    if extra.contains_key("private_key"@) {
        Some(json_text(extra["private_key"@]))
    } else if extra.contains_key("public_key"@) {
        Some(json_text(extra["public_key"@]))
    } else {
        None
    }
}

/// The text of a non-empty fragment, else `fallback`.
pub open spec fn fragment_or(fragment: Option<Seq<char>>, fallback: Seq<char>) -> Seq<char> {
    match fragment {
        Some(f) => if f.len() > 0 {
            f
        } else {
            fallback
        },
        None => fallback,
    }
}

/// What a `wireguard://` URI gives, from what URL parsing made of it.
pub open spec fn wireguard_node(
    parsed: Result<UrlView, Seq<char>>,
    source_id: Seq<char>,
    updated_at: Seq<char>,
) -> Result<NodeView, (ErrorKind, Seq<char>)> {
    match parsed {
        Err(e) => Err(parse_error("wireguard URI 非法："@ + e)),
        Ok(u) => match u.host {
            None => Err(parse_error("wireguard URI 缺少 host"@)),
            Some(server) => {
                let port: u16 = match u.port {
                    Some(p) => p,
                    None => 51820,
                };
                let extra = wireguard_extra(u, server, port);
                let name = percent_decoded(fragment_or(u.fragment, "wireguard"@));
                Ok(
                    NodeView {
                        id: node_id(
                            source_id,
                            ProxyProtocol::WireGuard,
                            server,
                            port,
                            name,
                            wireguard_credential(extra),
                        ),
                        name,
                        protocol: ProxyProtocol::WireGuard,
                        server,
                        port,
                        transport: ProxyTransport::Quic,
                        tls: TlsView { enabled: false, server_name: None },
                        extra,
                        source_id,
                        tags: Seq::empty(),
                        region: None,
                        updated_at,
                    },
                )
            },
        },
    }
}

/// A WireGuard URI whose query names a preshared key (`presharedkey` or
/// `preshared_key`, in any ASCII case) gives a node that carries the first such value,
/// trimmed and percent-decoded, as its `preshared_key` setting, when that is not empty.
pub proof fn lemma_wireguard_preshared_key(u: UrlView, source_id: Seq<char>, updated_at: Seq<char>, k: int)
    requires
        u.host is Some,
        0 <= k < u.query.len(),
        eq_ignore_case(u.query[k].0, "presharedkey"@) || eq_ignore_case(u.query[k].0, "preshared_key"@),
        forall|j: int|
            0 <= j < k ==> !eq_ignore_case(#[trigger] u.query[j].0, "presharedkey"@) && !eq_ignore_case(
                u.query[j].0,
                "preshared_key"@,
            ),
        percent_decoded(trim(u.query[k].1)).len() > 0,
    ensures
        wireguard_node(Ok(u), source_id, updated_at) is Ok,
        wireguard_node(Ok(u), source_id, updated_at)->Ok_0.extra.contains_key("preshared_key"@),
        wireguard_node(Ok(u), source_id, updated_at)->Ok_0.extra["preshared_key"@] == ExtraView::Text(
            percent_decoded(trim(u.query[k].1)),
        ),
{
    reveal_strlit("preshared_key");
    reveal_strlit("reserved");
    reveal_strlit("mtu");
    reveal_strlit("local_address");
    reveal_strlit("peers");
    let keys = literal_texts(preshared_key_keys());
    assert(keys =~= seq!["presharedkey"@, "preshared_key"@]);
    assert(key_in(u.query[k].0, keys)) by {
        if eq_ignore_case(u.query[k].0, "presharedkey"@) {
            assert(eq_ignore_case(u.query[k].0, keys[0]));
        } else {
            assert(eq_ignore_case(u.query[k].0, keys[1]));
        }
    }
    assert forall|j: int| 0 <= j < k implies !key_in(#[trigger] u.query[j].0, keys) by {
        if key_in(u.query[j].0, keys) {
            let t = choose|t: int| 0 <= t < keys.len() && eq_ignore_case(u.query[j].0, #[trigger] keys[t]);
            assert(t == 0 || t == 1);
        }
    }
    lemma_first_value_at(u.query, keys, k);
    let v = percent_decoded(trim(u.query[k].1));
    assert(query_text(u.query, keys) == Some(v));
    assert("preshared_key"@[0] != "local_address"@[0]);
    assert("preshared_key"@ != "reserved"@ && "preshared_key"@ != "mtu"@ && "preshared_key"@
        != "local_address"@ && "preshared_key"@ != "peers"@);
    let server = u.host->Some_0;
    let port: u16 = match u.port {
        Some(p) => p,
        None => 51820,
    };
    let q = u.query;
    let e0 = if u.username.len() > 0 {
        Map::<Seq<char>, ExtraView>::empty().insert("private_key"@, ExtraView::Text(u.username))
    } else {
        Map::<Seq<char>, ExtraView>::empty()
    };
    let e1 = insert_opt(e0, "public_key"@, query_text(q, literal_texts(public_key_keys())));
    let e2 = insert_opt(e1, "preshared_key"@, query_text(q, keys));
    assert(e2.contains_key("preshared_key"@) && e2["preshared_key"@] == ExtraView::Text(v));
    let e3 = insert_opt(e2, "reserved"@, query_text(q, literal_texts(reserved_keys())));
    assert(e3.contains_key("preshared_key"@) && e3["preshared_key"@] == ExtraView::Text(v));
    let extra = wireguard_extra(u, server, port);
    assert(extra.contains_key("preshared_key"@) && extra["preshared_key"@] == ExtraView::Text(v));
}

/// The key lists of the WireGuard query settings.
fn wireguard_keys(which: u8) -> (r: Vec<&'static str>)
    requires
        which < 6,
    ensures
        which == 0 ==> r@ == public_key_keys(),
        which == 1 ==> r@ == preshared_key_keys(),
        which == 2 ==> r@ == reserved_keys(),
        which == 3 ==> r@ == mtu_keys(),
        which == 4 ==> r@ == address_keys(),
        which == 5 ==> r@ == peer_keys(),
{
    let v: Vec<&'static str> = if which == 0 {
        vec!["publickey", "public_key"]
    } else if which == 1 {
        vec!["presharedkey", "preshared_key"]
    } else if which == 2 {
        vec!["reserved"]
    } else if which == 3 {
        vec!["mtu"]
    } else if which == 4 {
        vec!["address", "local_address"]
    } else {
        vec!["peer"]
    };
    proof {
        if which == 0 {
            assert(v@ =~= public_key_keys());
        } else if which == 1 {
            assert(v@ =~= preshared_key_keys());
        } else if which == 2 {
            assert(v@ =~= reserved_keys());
        } else if which == 3 {
            assert(v@ =~= mtu_keys());
        } else if which == 4 {
            assert(v@ =~= address_keys());
        } else {
            assert(v@ =~= peer_keys());
        }
    }
    v
}

/// The settings of a WireGuard node (see [`wireguard_extra`]).
fn wireguard_settings(url: &UrlParts, server: &[char], port: u16) -> (r: ExtraMap)
    ensures
        r@ == wireguard_extra(url@, server@, port),
{
    let mut extra = ExtraMap::new();
    if !url.username.as_str().is_empty() {
        extra.insert("private_key".to_owned(), ExtraValue::Text(url.username.clone()));
    }
    let public_key = query_value(&url.query, wireguard_keys(0).as_slice());
    insert_optional_string(&mut extra, "public_key", public_key);
    let preshared = query_value(&url.query, wireguard_keys(1).as_slice());
    insert_optional_string(&mut extra, "preshared_key", preshared);
    let reserved = query_value(&url.query, wireguard_keys(2).as_slice());
    insert_optional_string(&mut extra, "reserved", reserved);
    match query_u16(&url.query, wireguard_keys(3).as_slice()) {
        Some(n) => {
            extra.insert("mtu".to_owned(), ExtraValue::Number(n as u64));
        },
        None => {},
    }
    let mut addresses = query_multi_values(&url.query, wireguard_keys(4).as_slice());
    if addresses.len() == 0 {
        addresses.push(chars_of("172.16.0.2/32"));
        assert(texts_view(addresses@) =~= seq![default_local_address()]);
    }
    extra.insert("local_address".to_owned(), ExtraValue::List(string_list(&addresses)));
    let mut peers = query_multi_values(&url.query, wireguard_keys(5).as_slice());
    if peers.len() == 0 {
        let a = concat(server, chars_of(":").as_slice());
        let peer = concat(a.as_slice(), decimal_of(port as u128).as_slice());
        peers.push(peer);
        assert(texts_view(peers@) =~= seq![server@ + ":"@ + decimal(port as nat)]);
    }
    extra.insert("peers".to_owned(), ExtraValue::List(string_list(&peers)));
    extra
}

/// The text of a non-empty fragment, else `fallback`.
fn fragment_text(fragment: &Option<String>, fallback: &str) -> (r: String)
    ensures
        r@ == fragment_or(fragment.deep_view(), fallback@),
{
    match fragment {
        Some(f) => if !f.as_str().is_empty() {
            f.clone()
        } else {
            fallback.to_owned()
        },
        None => fallback.to_owned(),
    }
}

/// Builds a WireGuard node from what URL parsing made of a `wireguard://` URI.
pub fn wireguard_from_url(parsed: Result<UrlParts, String>, source_id: &str, updated_at: &str) -> (r:
    Result<ProxyNode, CoreError>)
    ensures
        match r {
            Ok(n) => wireguard_node(parsed_view(parsed), source_id@, updated_at@) == Ok::<
                NodeView,
                (ErrorKind, Seq<char>),
            >(n@),
            Err(e) => wireguard_node(parsed_view(parsed), source_id@, updated_at@) == Err::<
                NodeView,
                (ErrorKind, Seq<char>),
            >(e@),
        },
{
    let url = match parsed {
        Ok(u) => u,
        Err(error) => {
            return Err(parse_failure("wireguard URI 非法：", chars_of(error.as_str()).as_slice()));
        },
    };
    let server = match &url.host {
        Some(h) => h.clone(),
        None => {
            return Err(parse_failure_text("wireguard URI 缺少 host"));
        },
    };
    let port: u16 = match url.port {
        Some(p) => p,
        None => 51820,
    };
    let server_chars = chars_of(server.as_str());
    let extra = wireguard_settings(&url, server_chars.as_slice(), port);
    let fallback = fragment_text(&url.fragment, "wireguard");
    let name = decode_percent_encoded(fallback.as_str());
    let credential: Option<String> = match extra.get("private_key") {
        Some(v) => Some(json_text_of(v)),
        None => match extra.get("public_key") {
            Some(v) => Some(json_text_of(v)),
            None => None,
        },
    };
    let id = build_proxy_node_id(
        source_id,
        ProxyProtocol::WireGuard,
        server.as_str(),
        port,
        name.as_str(),
        &credential,
    );
    let tags: Vec<String> = Vec::new();
    let node = ProxyNode {
        id,
        name,
        protocol: ProxyProtocol::WireGuard,
        server,
        port,
        transport: ProxyTransport::Quic,
        tls: TlsConfig { enabled: false, server_name: None },
        extra,
        source_id: source_id.to_owned(),
        tags,
        region: None,
        updated_at: updated_at.to_owned(),
    };
    assert(node.tags.deep_view() =~= Seq::<Seq<char>>::empty());
    Ok(node)
}

/// Reads a `wireguard://` URI: the URL is parsed by the `url` crate and the node is
/// built by [`wireguard_from_url`].
pub fn parse_wireguard_uri(line: &str, source_id: &str, updated_at: &str) -> (r: Result<ProxyNode, CoreError>)
    ensures
        match r {
            Ok(n) => wireguard_node(url_parsed(line@), source_id@, updated_at@) == Ok::<
                NodeView,
                (ErrorKind, Seq<char>),
            >(n@),
            Err(e) => wireguard_node(url_parsed(line@), source_id@, updated_at@) == Err::<
                NodeView,
                (ErrorKind, Seq<char>),
            >(e@),
        },
{
    wireguard_from_url(parse_url(line), source_id, updated_at)
}

} // verus!

//! Surge/Quantumult style text lines: `name = type, server, port, key=value, ...`.
use vstd::prelude::*;

use crate::error::{CoreError, ErrorKind, parse_error};
use crate::model::{ExtraMap, ExtraView, NodeView, ProxyNode, ProxyProtocol, TlsConfig, TlsView, nodes_view};
use crate::parser::common::{
    build_proxy_node, int_error_message, int_error_text, map_transport, opt_chars, parse_failure,
    parse_port, port_of, proxy_node, transport_of,
};
use crate::parser::helpers::{
    KvMap, bool_like, insert_opt, insert_optional_string, lemma_take_first_sub, map_protocol,
    parse_bool_like, protocol_of, required_check, take_any, take_first, validate_required,
};
use crate::redaction::literal_texts;
use crate::text::{
    ascii_lower, chars_of, ends_with, has_prefix, has_suffix, lines, lines_of, lowercase, split,
    split_all, split_once, split_once_at, starts_with, string_from, texts_view, trim, trimmed,
};

verus! {

/// The trimmed pieces of `pieces` that are not empty.
pub open spec fn nonempty_trimmed(pieces: Seq<Seq<char>>) -> Seq<Seq<char>>
    decreases pieces.len(),
{
    if pieces.len() == 0 {
        Seq::empty()
    } else if trim(pieces.last()).len() > 0 {
        nonempty_trimmed(pieces.drop_last()).push(trim(pieces.last()))
    } else {
        nonempty_trimmed(pieces.drop_last())
    }
}

/// The comma-separated fields of a value, trimmed, empty ones left out.
pub open spec fn comma_fields(value: Seq<char>) -> Seq<Seq<char>> {
    nonempty_trimmed(split(value, ','))
}

/// The `key=value` settings among `parts` (keys trimmed and in ASCII lowercase, values
/// trimmed, empty ones skipped; a later setting replaces an earlier one).
pub open spec fn kv_fold(parts: Seq<Seq<char>>) -> Map<Seq<char>, Seq<char>>
    decreases parts.len(),
{
    if parts.len() == 0 {
        Map::empty()
    } else {
        let m = kv_fold(parts.drop_last());
        match split_once(parts.last(), '=') {
            Some(kv) => if ascii_lower(trim(kv.0)).len() > 0 && trim(kv.1).len() > 0 {
                m.insert(ascii_lower(trim(kv.0)), trim(kv.1))
            } else {
                m
            },
            None => m,
        }
    }
}

pub open spec fn cipher_keys() -> Seq<&'static str> {
    seq!["encrypt-method", "method", "cipher"]
}

pub open spec fn password_keys() -> Seq<&'static str> {
    seq!["password", "passwd"]
}

pub open spec fn uuid_keys() -> Seq<&'static str> {
    seq!["uuid", "username"]
}

pub open spec fn flow_keys() -> Seq<&'static str> {
    seq!["flow"]
}

pub open spec fn transport_keys() -> Seq<&'static str> {
    seq!["network", "obfs", "transport", "plugin", "obfs-mode"]
}

pub open spec fn sni_keys() -> Seq<&'static str> {
    seq!["sni", "peer", "servername"]
}

pub open spec fn tls_keys() -> Seq<&'static str> {
    seq!["tls", "over-tls", "obfs", "secure"]
}

pub open spec fn path_keys() -> Seq<&'static str> {
    seq!["ws-path", "path", "obfs-uri"]
}

pub open spec fn host_keys() -> Seq<&'static str> {
    seq!["ws-headers", "host", "obfs-host"]
}

/// The credential settings of a line and the settings that are left.
pub open spec fn ini_credentials(protocol: ProxyProtocol, kv: Map<Seq<char>, Seq<char>>) -> (
    Map<Seq<char>, ExtraView>,
    Map<Seq<char>, Seq<char>>,
) {
    let empty = Map::<Seq<char>, ExtraView>::empty();
    match protocol {
        ProxyProtocol::Ss | ProxyProtocol::Ssr => {
            let c = take_first(kv, literal_texts(cipher_keys()));
            let p = take_first(c.1, literal_texts(password_keys()));
            (insert_opt(insert_opt(empty, "cipher"@, c.0), "password"@, p.0), p.1)
        },
        ProxyProtocol::Vmess | ProxyProtocol::Vless => {
            let u = take_first(kv, literal_texts(uuid_keys()));
            let f = take_first(u.1, literal_texts(flow_keys()));
            (insert_opt(insert_opt(empty, "uuid"@, u.0), "flow"@, f.0), f.1)
        },
        ProxyProtocol::Trojan => {
            let p = take_first(kv, literal_texts(password_keys()));
            (insert_opt(empty, "password"@, p.0), p.1)
        },
        _ => (empty, kv),
    }
}

/// The `Host` value of a header-style setting: what follows the first `':'`, trimmed.
pub open spec fn host_value(raw: Seq<char>) -> Seq<char> {
    match split_once(raw, ':') {
        Some(p) => trim(p.1),
        None => raw,
    }
}

/// TLS is on by default for VMess, VLESS and Trojan.
pub open spec fn default_tls(protocol: ProxyProtocol) -> bool {
    protocol == ProxyProtocol::Vmess || protocol == ProxyProtocol::Vless || protocol
        == ProxyProtocol::Trojan
}

/// What one proxy line gives: no node for lines with fewer than three fields or an
/// unknown type, an error for a bad port or a missing required setting, else the node.
pub open spec fn ini_line(
    source_id: Seq<char>,
    name: Seq<char>,
    value: Seq<char>,
    updated_at: Seq<char>,
) -> Result<Option<NodeView>, (ErrorKind, Seq<char>)> {
    let parts = comma_fields(value);
    if parts.len() < 3 {
        Ok(None)
    } else {
        match protocol_of(ascii_lower(parts[0])) {
            None => Ok(None),
            Some(protocol) => match port_of(parts[2]) {
                Err(e) => Err(parse_error("端口非法："@ + int_error_text(e))),
                Ok(port) => {
                    let cred = ini_credentials(protocol, kv_fold(parts.skip(3)));
                    let net = take_first(cred.1, literal_texts(transport_keys()));
                    let sni = take_first(net.1, literal_texts(sni_keys()));
                    let tls = take_first(sni.1, literal_texts(tls_keys()));
                    let enabled = match tls.0 {
                        Some(v) => bool_like(v),
                        None => default_tls(protocol),
                    };
                    let path = take_first(tls.1, literal_texts(path_keys()));
                    let extra = insert_opt(cred.0, "path"@, path.0);
                    let host = take_first(path.1, literal_texts(host_keys()));
                    let host_text = match host.0 {
                        Some(raw) => Some(host_value(raw)),
                        None => None,
                    };
                    let extra = insert_opt(extra, "host"@, host_text);
                    match required_check(protocol, extra, name) {
                        Err(e) => Err(e),
                        Ok(()) => Ok(
                            Some(
                                proxy_node(
                                    source_id,
                                    name,
                                    protocol,
                                    parts[1],
                                    port,
                                    transport_of(net.0),
                                    TlsView { enabled, server_name: sni.0 },
                                    extra,
                                    updated_at,
                                ),
                            ),
                        ),
                    }
                },
            },
        }
    }
}

/// A line that sets none of `tls`, `over-tls`, `obfs` and `secure` gives a node with TLS
/// on exactly when its protocol is VMess, VLESS or Trojan.
pub proof fn lemma_ini_tls_default(source_id: Seq<char>, name: Seq<char>, value: Seq<char>, updated_at: Seq<char>)
    requires
        ini_line(source_id, name, value, updated_at) is Ok,
        ini_line(source_id, name, value, updated_at)->Ok_0 is Some,
        ({
            let kv = kv_fold(comma_fields(value).skip(3));
            &&& !kv.contains_key("tls"@)
            &&& !kv.contains_key("over-tls"@)
            &&& !kv.contains_key("obfs"@)
            &&& !kv.contains_key("secure"@)
        }),
    ensures
        ({
            let n = ini_line(source_id, name, value, updated_at)->Ok_0->Some_0;
            n.tls.enabled <==> (n.protocol == ProxyProtocol::Vmess || n.protocol == ProxyProtocol::Vless
                || n.protocol == ProxyProtocol::Trojan)
        }),
{
    let parts = comma_fields(value);
    let protocol = protocol_of(ascii_lower(parts[0]))->Some_0;
    let kv = kv_fold(parts.skip(3));
    let cred = ini_credentials(protocol, kv);
    let tk = literal_texts(tls_keys());
    assert(tk =~= seq!["tls"@, "over-tls"@, "obfs"@, "secure"@]);
    assert forall|k: Seq<char>| cred.1.contains_key(k) implies kv.contains_key(k) by {
        match protocol {
            ProxyProtocol::Ss | ProxyProtocol::Ssr => {
                let c = take_first(kv, literal_texts(cipher_keys()));
                lemma_take_first_sub(kv, literal_texts(cipher_keys()));
                lemma_take_first_sub(c.1, literal_texts(password_keys()));
            },
            ProxyProtocol::Vmess | ProxyProtocol::Vless => {
                let u = take_first(kv, literal_texts(uuid_keys()));
                lemma_take_first_sub(kv, literal_texts(uuid_keys()));
                lemma_take_first_sub(u.1, literal_texts(flow_keys()));
            },
            ProxyProtocol::Trojan => {
                lemma_take_first_sub(kv, literal_texts(password_keys()));
            },
            _ => {},
        }
    }
    let net = take_first(cred.1, literal_texts(transport_keys()));
    lemma_take_first_sub(cred.1, literal_texts(transport_keys()));
    let sni = take_first(net.1, literal_texts(sni_keys()));
    lemma_take_first_sub(net.1, literal_texts(sni_keys()));
    lemma_take_first_sub(sni.1, tk);
    assert forall|i: int| 0 <= i < tk.len() implies !sni.1.contains_key(#[trigger] tk[i]) by {}
    assert(take_first(sni.1, tk).0 is None);
}

fn key_list(which: u8) -> (r: Vec<&'static str>)
    requires
        which < 9,
    ensures
        which == 0 ==> r@ == cipher_keys(),
        which == 1 ==> r@ == password_keys(),
        which == 2 ==> r@ == uuid_keys(),
        which == 3 ==> r@ == flow_keys(),
        which == 4 ==> r@ == transport_keys(),
        which == 5 ==> r@ == sni_keys(),
        which == 6 ==> r@ == tls_keys(),
        which == 7 ==> r@ == path_keys(),
        which == 8 ==> r@ == host_keys(),
{
    let v: Vec<&'static str> = if which == 0 {
        vec!["encrypt-method", "method", "cipher"]
    } else if which == 1 {
        vec!["password", "passwd"]
    } else if which == 2 {
        vec!["uuid", "username"]
    } else if which == 3 {
        vec!["flow"]
    } else if which == 4 {
        vec!["network", "obfs", "transport", "plugin", "obfs-mode"]
    } else if which == 5 {
        vec!["sni", "peer", "servername"]
    } else if which == 6 {
        vec!["tls", "over-tls", "obfs", "secure"]
    } else if which == 7 {
        vec!["ws-path", "path", "obfs-uri"]
    } else {
        vec!["ws-headers", "host", "obfs-host"]
    };
    proof {
        if which == 0 {
            assert(v@ =~= cipher_keys());
        } else if which == 1 {
            assert(v@ =~= password_keys());
        } else if which == 2 {
            assert(v@ =~= uuid_keys());
        } else if which == 3 {
            assert(v@ =~= flow_keys());
        } else if which == 4 {
            assert(v@ =~= transport_keys());
        } else if which == 5 {
            assert(v@ =~= sni_keys());
        } else if which == 6 {
            assert(v@ =~= tls_keys());
        } else if which == 7 {
            assert(v@ =~= path_keys());
        } else {
            assert(v@ =~= host_keys());
        }
    }
    v
}

/// The comma-separated fields of a value, trimmed, empty ones left out.
pub fn split_fields(value: &[char]) -> (r: Vec<Vec<char>>)
    ensures
        texts_view(r@) == comma_fields(value@),
{
    let pieces = split_all(value, ',');
    let ghost pv = split(value@, ',');
    let mut out: Vec<Vec<char>> = Vec::new();
    let mut i: usize = 0;
    assert(pv.take(0) =~= Seq::<Seq<char>>::empty());
    assert(texts_view(out@) =~= nonempty_trimmed(pv.take(0)));
    while i < pieces.len()
        invariant
            i <= pieces@.len(),
            pieces@.len() == pv.len(),
            forall|k: int| 0 <= k < pieces@.len() ==> #[trigger] pieces@[k]@ == pv[k],
            texts_view(out@) == nonempty_trimmed(pv.take(i as int)),
        decreases pieces@.len() - i,
    {
        proof {
            assert(pv.take(i + 1).drop_last() =~= pv.take(i as int));
            assert(pv.take(i + 1).last() == pieces@[i as int]@);
        }
        let t = trimmed(pieces[i].as_slice());
        if t.len() > 0 {
            out.push(t);
            assert(texts_view(out@) =~= nonempty_trimmed(pv.take(i + 1)));
        }
        i += 1;
    }
    assert(pv.take(pieces@.len() as int) =~= pv);
    out
}

/// The `key=value` settings among the fields after the third.
fn collect_settings(parts: &Vec<Vec<char>>) -> (r: KvMap)
    requires
        parts@.len() >= 3,
    ensures
        r@ == kv_fold(texts_view(parts@).skip(3)),
{
    let ghost pv = texts_view(parts@).skip(3);
    let mut kv = KvMap::new();
    let mut i: usize = 3;
    assert(pv.take(0) =~= Seq::<Seq<char>>::empty());
    while i < parts.len()
        invariant
            3 <= i <= parts@.len(),
            pv == texts_view(parts@).skip(3),
            kv@ == kv_fold(pv.take(i - 3)),
        decreases parts@.len() - i,
    {
        proof {
            assert(pv.take(i - 3 + 1).drop_last() =~= pv.take(i - 3));
            assert(pv.take(i - 3 + 1).last() == parts@[i as int]@);
        }
        match split_once_at(parts[i].as_slice(), '=') {
            Some(kvp) => {
                let key = lowercase(trimmed(kvp.0.as_slice()).as_slice());
                let value = trimmed(kvp.1.as_slice());
                if key.len() > 0 && value.len() > 0 {
                    kv.insert(key, value);
                }
            },
            None => {},
        }
        i += 1;
    }
    assert(pv.take(parts@.len() - 3) =~= pv);
    kv
}

/// The credential settings of a line.
fn line_credentials(protocol: ProxyProtocol, kv: &mut KvMap) -> (r: ExtraMap)
    ensures
        (r@, final(kv)@) == ini_credentials(protocol, old(kv)@),
{
    let mut extra = ExtraMap::new();
    match protocol {
        ProxyProtocol::Ss | ProxyProtocol::Ssr => {
            let c = take_any(kv, key_list(0).as_slice());
            let p = take_any(kv, key_list(1).as_slice());
            insert_optional_string(&mut extra, "cipher", c);
            insert_optional_string(&mut extra, "password", p);
        },
        ProxyProtocol::Vmess | ProxyProtocol::Vless => {
            let u = take_any(kv, key_list(2).as_slice());
            let f = take_any(kv, key_list(3).as_slice());
            insert_optional_string(&mut extra, "uuid", u);
            insert_optional_string(&mut extra, "flow", f);
        },
        ProxyProtocol::Trojan => {
            let p = take_any(kv, key_list(1).as_slice());
            insert_optional_string(&mut extra, "password", p);
        },
        _ => {},
    }
    extra
}

/// Reads one proxy line (`name` and the text after `'='`).
pub fn parse_ini_proxy_line(source_id: &str, name: &[char], value_raw: &[char], updated_at: &str) -> (r:
    Result<Option<ProxyNode>, CoreError>)
    ensures
        match r {
            Ok(Some(n)) => ini_line(source_id@, name@, value_raw@, updated_at@) == Ok::<
                Option<NodeView>,
                (ErrorKind, Seq<char>),
            >(Some(n@)),
            Ok(None) => ini_line(source_id@, name@, value_raw@, updated_at@) == Ok::<
                Option<NodeView>,
                (ErrorKind, Seq<char>),
            >(None),
            Err(e) => ini_line(source_id@, name@, value_raw@, updated_at@) == Err::<
                Option<NodeView>,
                (ErrorKind, Seq<char>),
            >(e@),
        },
{
    let parts = split_fields(value_raw);
    let ghost pv = texts_view(parts@);
    if parts.len() < 3 {
        return Ok(None);
    }
    assert(pv[0] == parts@[0]@ && pv[1] == parts@[1]@ && pv[2] == parts@[2]@);
    let proxy_type = lowercase(parts[0].as_slice());
    let protocol = match map_protocol(proxy_type.as_slice()) {
        Ok(p) => p,
        Err(_) => {
            return Ok(None);
        },
    };
    let port = match parse_port(parts[2].as_slice()) {
        Ok(p) => p,
        Err(e) => {
            return Err(parse_failure("端口非法：", int_error_message(e).as_slice()));
        },
    };
    let mut kv = collect_settings(&parts);
    let mut extra = line_credentials(protocol, &mut kv);
    let net = take_any(&mut kv, key_list(4).as_slice());
    let transport = map_transport(net);
    let sni = take_any(&mut kv, key_list(5).as_slice());
    let tls_raw = take_any(&mut kv, key_list(6).as_slice());
    let enabled = match tls_raw {
        Some(v) => parse_bool_like(v.as_slice()),
        None => protocol == ProxyProtocol::Vmess || protocol == ProxyProtocol::Vless || protocol
            == ProxyProtocol::Trojan,
    };
    let path = take_any(&mut kv, key_list(7).as_slice());
    insert_optional_string(&mut extra, "path", path);
    let host_raw = take_any(&mut kv, key_list(8).as_slice());
    let host = match host_raw {
        Some(raw) => match split_once_at(raw.as_slice(), ':') {
            Some(hp) => Some(trimmed(hp.1.as_slice())),
            None => Some(raw),
        },
        None => None,
    };
    insert_optional_string(&mut extra, "host", host);
    match validate_required(protocol, &extra, name) {
        Err(e) => {
            return Err(e);
        },
        Ok(()) => {},
    }
    let server = string_from(parts[1].as_slice());
    let tls = TlsConfig {
        enabled,
        server_name: match sni {
            Some(s) => Some(string_from(s.as_slice())),
            None => None,
        },
    };
    let node = build_proxy_node(
        source_id,
        string_from(name),
        protocol,
        server,
        port,
        transport,
        tls,
        extra,
        updated_at,
    );
    Ok(Some(node))
}

/// The node one text line gives, if any: blank lines, comments (`#`, `;`, `//`), section
/// headers (`[...]`), lines without `'='` or with an empty name give none, and neither do
/// lines whose proxy fails to parse (they are skipped).
pub open spec fn line_node(source_id: Seq<char>, raw_line: Seq<char>, updated_at: Seq<char>) -> Option<
    NodeView,
> {
    let line = trim(raw_line);
    if line.len() == 0 || starts_with(line, "#"@) || starts_with(line, ";"@) || starts_with(
        line,
        "//"@,
    ) || (starts_with(line, "["@) && ends_with(line, "]"@)) {
        None
    } else {
        match split_once(line, '=') {
            None => None,
            Some(nv) => if trim(nv.0).len() == 0 {
                None
            } else {
                match ini_line(source_id, trim(nv.0), trim(nv.1), updated_at) {
                    Ok(Some(n)) => Some(n),
                    _ => None,
                }
            },
        }
    }
}

/// The nodes that text lines give, in order.
pub open spec fn lines_nodes(source_id: Seq<char>, ls: Seq<Seq<char>>, updated_at: Seq<char>) -> Seq<
    NodeView,
>
    decreases ls.len(),
{
    if ls.len() == 0 {
        Seq::empty()
    } else {
        match line_node(source_id, ls.last(), updated_at) {
            Some(n) => lines_nodes(source_id, ls.drop_last(), updated_at).push(n),
            None => lines_nodes(source_id, ls.drop_last(), updated_at),
        }
    }
}

/// The nodes of a text payload.
pub open spec fn ini_nodes(source_id: Seq<char>, payload: Seq<char>, updated_at: Seq<char>) -> Seq<
    NodeView,
> {
    lines_nodes(source_id, lines(payload), updated_at)
}

fn is_skipped_line(line: &[char]) -> (r: bool)
    ensures
        r == (line@.len() == 0 || starts_with(line@, "#"@) || starts_with(line@, ";"@)
            || starts_with(line@, "//"@) || (starts_with(line@, "["@) && ends_with(line@, "]"@))),
{
    line.len() == 0 || has_prefix(line, chars_of("#").as_slice()) || has_prefix(
        line,
        chars_of(";").as_slice(),
    ) || has_prefix(line, chars_of("//").as_slice()) || (has_prefix(
        line,
        chars_of("[").as_slice(),
    ) && has_suffix(line, chars_of("]").as_slice()))
}

/// The node one text line gives, if any.
fn parse_ini_line(source_id: &str, raw_line: &[char], updated_at: &str) -> (r: Option<ProxyNode>)
    ensures
        match r {
            Some(n) => line_node(source_id@, raw_line@, updated_at@) == Some(n@),
            None => line_node(source_id@, raw_line@, updated_at@) is None,
        },
{
    let line = trimmed(raw_line);
    if is_skipped_line(line.as_slice()) {
        return None;
    }
    match split_once_at(line.as_slice(), '=') {
        None => None,
        Some(nv) => {
            let name = trimmed(nv.0.as_slice());
            if name.len() == 0 {
                return None;
            }
            let value = trimmed(nv.1.as_slice());
            match parse_ini_proxy_line(source_id, name.as_slice(), value.as_slice(), updated_at) {
                Ok(Some(n)) => Some(n),
                _ => None,
            }
        },
    }
}

/// The proxies of a text payload of `name = type, server, port, ...` lines.
pub fn parse_ini_like_lines(source_id: &str, payload: &str, updated_at: &str) -> (r: Vec<ProxyNode>)
    ensures
        nodes_view(r@) == ini_nodes(source_id@, payload@, updated_at@),
{
    let chars = chars_of(payload);
    let ls = lines_of(chars.as_slice());
    let ghost lv = lines(payload@);
    let mut nodes: Vec<ProxyNode> = Vec::new();
    let mut i: usize = 0;
    assert(nodes_view(nodes@) =~= lines_nodes(source_id@, lv.take(0), updated_at@));
    while i < ls.len()
        invariant
            i <= ls@.len(),
            ls@.len() == lv.len(),
            forall|k: int| 0 <= k < ls@.len() ==> #[trigger] ls@[k]@ == lv[k],
            nodes_view(nodes@) == lines_nodes(source_id@, lv.take(i as int), updated_at@),
        decreases ls@.len() - i,
    {
        proof {
            assert(lv.take(i + 1).drop_last() =~= lv.take(i as int));
            assert(lv.take(i + 1).last() == ls@[i as int]@);
        }
        match parse_ini_line(source_id, ls[i].as_slice(), updated_at) {
            Some(n) => {
                nodes.push(n);
                assert(nodes_view(nodes@) =~= lines_nodes(source_id@, lv.take(i + 1), updated_at@));
            },
            None => {},
        }
        i += 1;
    }
    assert(lv.take(ls@.len() as int) =~= lv);
    nodes
}

} // verus!

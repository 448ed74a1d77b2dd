//! `ss://` URIs (Shadowsocks, SIP002 and the legacy all-Base64 form).
use vstd::prelude::*;

use crate::error::{CoreError, ErrorKind, parse_error};
use crate::model::{ExtraMap, ExtraValue, ExtraView, NodeView, ProxyNode, ProxyProtocol, ProxyTransport, TlsConfig, TlsView};
use crate::parser::base64::{base64_text, decode_base64_chars};
use crate::parser::common::{
    build_proxy_node, fragment_split, host_port_of, opt_chars, parse_failure_text, parse_host_port,
    proxy_node, split_fragment,
};
use crate::text::{
    before_first, chars_of, concat, decimal, decimal_of, first_piece, rsplit_once, rsplit_once_at,
    slice_of, split_once, split_once_at, starts_with, string_from,
};

verus! {

/// The credential part and the `server:port` part of an `ss://` body: split at the last
/// `'@'`, or, without one, the body is Base64 of `method:password@server:port`.
pub open spec fn ss_parts(without_query: Seq<char>) -> Result<(Seq<char>, Seq<char>), (ErrorKind, Seq<char>)> {
    match rsplit_once(without_query, '@') {
        Some(p) => Ok(p),
        None => match base64_text(without_query) {
            None => Err(parse_error("ss URI 缺少 @server:port"@)),
            Some(decoded) => match rsplit_once(decoded, '@') {
                None => Err(parse_error("ss URI 凭证无法解析"@)),
                Some(p) => Ok(p),
            },
        },
    }
}

/// What an `ss://` URI gives.
pub open spec fn ss_uri(line: Seq<char>, source_id: Seq<char>, updated_at: Seq<char>) -> Result<
    NodeView,
    (ErrorKind, Seq<char>),
> {
    let fs = fragment_split(line.skip(5));
    let without_query = before_first(fs.0, '?');
    match ss_parts(without_query) {
        Err(e) => Err(e),
        Ok(parts) => {
            let credential = match base64_text(parts.0) {
                Some(t) => t,
                None => parts.0,
            };
            ss_node(credential, parts.1, fs.1, source_id, updated_at)
        },
    }
}

/// What an `ss://` URI gives once its credential is decoded: `credential` is
/// `method:password`, `host_port` the `server:port` part and `fragment` the name after
/// `'#'`, when there is one.
pub open spec fn ss_node(
    credential: Seq<char>,
    host_port: Seq<char>,
    fragment: Option<Seq<char>>,
    source_id: Seq<char>,
    updated_at: Seq<char>,
) -> Result<NodeView, (ErrorKind, Seq<char>)> {
    match split_once(credential, ':') {
        None => Err(parse_error("ss URI 凭证必须为 method:password"@)),
        Some(mp) => match host_port_of(host_port) {
            Err(e) => Err(e),
            Ok(hp) => {
                let name = match fragment {
                    Some(n) => n,
                    None => "ss-"@ + hp.0 + ":"@ + decimal(hp.1 as nat),
                };
                let extra = Map::<Seq<char>, ExtraView>::empty().insert(
                    "cipher"@,
                    ExtraView::Text(mp.0),
                ).insert("password"@, ExtraView::Text(mp.1));
                Ok(
                    proxy_node(
                        source_id,
                        name,
                        ProxyProtocol::Ss,
                        hp.0,
                        hp.1,
                        ProxyTransport::Tcp,
                        TlsView { enabled: false, server_name: None },
                        extra,
                        updated_at,
                    ),
                )
            },
        },
    }
}

fn ss_body_parts(without_query: &[char]) -> (r: Result<(Vec<char>, Vec<char>), CoreError>)
    ensures
        match r {
            Ok(p) => ss_parts(without_query@) == Ok::<(Seq<char>, Seq<char>), (ErrorKind, Seq<char>)>((p.0@, p.1@)),
            Err(e) => ss_parts(without_query@) == Err::<(Seq<char>, Seq<char>), (ErrorKind, Seq<char>)>(e@),
        },
{
    match rsplit_once_at(without_query, '@') {
        Some(p) => Ok(p),
        None => match decode_base64_chars(without_query) {
            None => Err(parse_failure_text("ss URI 缺少 @server:port")),
            Some(decoded) => match rsplit_once_at(decoded.as_slice(), '@') {
                None => Err(parse_failure_text("ss URI 凭证无法解析")),
                Some(p) => Ok(p),
            },
        },
    }
}

/// Reads an `ss://` URI.
pub fn parse_ss_uri(line: &str, source_id: &str, updated_at: &str) -> (r: Result<ProxyNode, CoreError>)
    requires
        starts_with(line@, "ss://"@),
    ensures
        match r {
            Ok(n) => ss_uri(line@, source_id@, updated_at@) == Ok::<NodeView, (ErrorKind, Seq<char>)>(n@),
            Err(e) => ss_uri(line@, source_id@, updated_at@) == Err::<NodeView, (ErrorKind, Seq<char>)>(e@),
        },
{
    let chars = chars_of(line);
    proof {
        reveal_strlit("ss://");
    }
    let raw = slice_of(chars.as_slice(), 5, chars.len());
    assert(raw@ =~= line@.skip(5));
    let (without_fragment, name) = split_fragment(raw.as_slice());
    let without_query = first_piece(without_fragment.as_slice(), '?');
    let parts = ss_body_parts(without_query.as_slice())?;
    let credential = match decode_base64_chars(parts.0.as_slice()) {
        Some(t) => t,
        None => parts.0,
    };
    ss_from_credential(credential, parts.1.as_slice(), name, source_id, updated_at)
}

/// Builds the node of an `ss://` URI from its decoded credential (see [`ss_node`]).
pub fn ss_from_credential(
    credential: Vec<char>,
    host_port: &[char],
    fragment: Option<Vec<char>>,
    source_id: &str,
    updated_at: &str,
) -> (r: Result<ProxyNode, CoreError>)
    ensures
        match r {
            Ok(n) => ss_node(credential@, host_port@, opt_chars(fragment), source_id@, updated_at@)
                == Ok::<NodeView, (ErrorKind, Seq<char>)>(n@),
            Err(e) => ss_node(credential@, host_port@, opt_chars(fragment), source_id@, updated_at@)
                == Err::<NodeView, (ErrorKind, Seq<char>)>(e@),
        },
{
    let (cipher, password) = match split_once_at(credential.as_slice(), ':') {
        Some(mp) => mp,
        None => {
            return Err(parse_failure_text("ss URI 凭证必须为 method:password"));
        },
    };
    let (server, port) = parse_host_port(host_port)?;
    let node_name = match fragment {
        Some(n) => n,
        None => {
            let a = concat(chars_of("ss-").as_slice(), server.as_slice());
            let b = concat(a.as_slice(), chars_of(":").as_slice());
            concat(b.as_slice(), decimal_of(port as u128).as_slice())
        },
    };
    let mut extra = ExtraMap::new();
    extra.insert("cipher".to_owned(), ExtraValue::Text(string_from(cipher.as_slice())));
    extra.insert("password".to_owned(), ExtraValue::Text(string_from(password.as_slice())));
    Ok(
        build_proxy_node(
            source_id,
            string_from(node_name.as_slice()),
            ProxyProtocol::Ss,
            string_from(server.as_slice()),
            port,
            ProxyTransport::Tcp,
            TlsConfig { enabled: false, server_name: None },
            extra,
            updated_at,
        ),
    )
}

} // verus!

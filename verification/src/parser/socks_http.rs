//! `socks5://`, `socks5+tls://`, `http://` and `https://` proxy URIs.
use vstd::prelude::*;

use crate::error::{CoreError, ErrorKind, parse_error};
use crate::model::{ExtraMap, ExtraValue, ExtraView, NodeView, ProxyNode, ProxyProtocol, ProxyTransport, TlsConfig, TlsView};
use crate::parser::common::{
    build_proxy_node, decode_percent_encoded, parse_failure, parse_failure_text, percent_decoded,
    proxy_node,
};
use crate::parser::uri::{UrlParts, UrlView, parse_url, parsed_view, url_parsed};
use crate::parser::wireguard::fragment_or;
use crate::text::{chars_of, eq_ignore_case, has_prefix, same_ignore_case, starts_with};

verus! {

/// The login of a proxy URL: its username and its password, each when not empty.
pub open spec fn login_extra(u: UrlView) -> Map<Seq<char>, ExtraView> {
    let e0 = if u.username.len() > 0 {
        Map::<Seq<char>, ExtraView>::empty().insert("username"@, ExtraView::Text(u.username))
    } else {
        Map::<Seq<char>, ExtraView>::empty()
    };
    match u.password {
        Some(p) => if p.len() > 0 {
            e0.insert("password"@, ExtraView::Text(p))
        } else {
            e0
        },
        None => e0,
    }
}

/// What a proxy URI with a login gives, from what URL parsing made of it: `label` names
/// the kind of URI in the error messages, `fallback` is the name of a node whose URI has
/// no fragment.
pub open spec fn login_proxy_node(
    parsed: Result<UrlView, Seq<char>>,
    label: Seq<char>,
    fallback: Seq<char>,
    protocol: ProxyProtocol,
    tls_enabled: bool,
    source_id: Seq<char>,
    updated_at: Seq<char>,
) -> Result<NodeView, (ErrorKind, Seq<char>)> {
    match parsed {
        Err(e) => Err(parse_error(label + " URI 非法："@ + e)),
        Ok(u) => match u.host {
            None => Err(parse_error(label + " URI 缺少 host"@)),
            Some(server) => match u.port {
                None => Err(parse_error(label + " URI 缺少端口"@)),
                Some(port) => Ok(
                    proxy_node(
                        source_id,
                        percent_decoded(fragment_or(u.fragment, fallback)),
                        protocol,
                        server,
                        port,
                        ProxyTransport::Tcp,
                        TlsView { enabled: tls_enabled, server_name: None },
                        login_extra(u),
                        updated_at,
                    ),
                ),
            },
        },
    }
}

/// What a `socks5://` or `socks5+tls://` URI gives; TLS is on for the second.
pub open spec fn socks5_node(
    line: Seq<char>,
    parsed: Result<UrlView, Seq<char>>,
    source_id: Seq<char>,
    updated_at: Seq<char>,
) -> Result<NodeView, (ErrorKind, Seq<char>)> {
    login_proxy_node(
        parsed,
        "socks5"@,
        "socks5"@,
        ProxyProtocol::Socks5,
        starts_with(line, "socks5+tls://"@),
        source_id,
        updated_at,
    )
}

/// What an `http://` or `https://` URI gives; TLS is on when the scheme is `https`.
pub open spec fn http_node(
    parsed: Result<UrlView, Seq<char>>,
    source_id: Seq<char>,
    updated_at: Seq<char>,
) -> Result<NodeView, (ErrorKind, Seq<char>)> {
    let tls = match parsed {
        Ok(u) => eq_ignore_case(u.scheme, "https"@),
        Err(_) => false,
    };
    login_proxy_node(parsed, "http(s)"@, "http"@, ProxyProtocol::Http, tls, source_id, updated_at)
}

/// The name of a SOCKS5 or HTTP(S) node is its URI fragment percent-decoded, when the
/// fragment is not empty, else the scheme's fallback (`socks5`, `http`) percent-decoded;
/// its server, port and login are those of the URL.
pub proof fn lemma_login_proxy_names(line: Seq<char>, u: UrlView, source_id: Seq<char>, updated_at: Seq<char>)
    requires
        u.host is Some,
        u.port is Some,
    ensures
        socks5_node(line, Ok(u), source_id, updated_at) is Ok,
        http_node(Ok(u), source_id, updated_at) is Ok,
        ({
            let s = socks5_node(line, Ok(u), source_id, updated_at)->Ok_0;
            let h = http_node(Ok(u), source_id, updated_at)->Ok_0;
            &&& (u.fragment is Some && u.fragment->Some_0.len() > 0) ==> s.name == percent_decoded(
                u.fragment->Some_0,
            ) && h.name == percent_decoded(u.fragment->Some_0)
            &&& (u.fragment is None || u.fragment == Some(Seq::<char>::empty())) ==> s.name
                == percent_decoded("socks5"@) && h.name == percent_decoded("http"@)
            &&& s.server == u.host->Some_0 && h.server == u.host->Some_0
            &&& s.port == u.port->Some_0 && h.port == u.port->Some_0
            &&& s.extra == login_extra(u) && h.extra == login_extra(u)
        }),
{
}

/// The login settings of a proxy URL (see [`login_extra`]).
fn login_settings(url: &UrlParts) -> (r: ExtraMap)
    ensures
        r@ == login_extra(url@),
{
    let mut extra = ExtraMap::new();
    if !url.username.as_str().is_empty() {
        extra.insert("username".to_owned(), ExtraValue::Text(url.username.clone()));
    }
    match &url.password {
        Some(p) => {
            if !p.as_str().is_empty() {
                extra.insert("password".to_owned(), ExtraValue::Text(p.clone()));
            }
        },
        None => {},
    }
    extra
}

/// Builds a node from a parsed proxy URL with a login (see [`login_proxy_node`]).
fn login_proxy_from_url(
    parsed: Result<UrlParts, String>,
    label: &str,
    fallback: &str,
    protocol: ProxyProtocol,
    tls_enabled: bool,
    source_id: &str,
    updated_at: &str,
) -> (r: Result<ProxyNode, CoreError>)
    ensures
        match r {
            Ok(n) => login_proxy_node(
                parsed_view(parsed),
                label@,
                fallback@,
                protocol,
                tls_enabled,
                source_id@,
                updated_at@,
            ) == Ok::<NodeView, (ErrorKind, Seq<char>)>(n@),
            Err(e) => login_proxy_node(
                parsed_view(parsed),
                label@,
                fallback@,
                protocol,
                tls_enabled,
                source_id@,
                updated_at@,
            ) == Err::<NodeView, (ErrorKind, Seq<char>)>(e@),
        },
{
    let url = match parsed {
        Ok(u) => u,
        Err(error) => {
            let prefix = crate::text::concat(chars_of(label).as_slice(), chars_of(" URI 非法：").as_slice());
            return Err(parse_failure(crate::text::string_from(prefix.as_slice()).as_str(), chars_of(error.as_str()).as_slice()));
        },
    };
    let server = match &url.host {
        Some(h) => h.clone(),
        None => {
            return Err(parse_failure(label, chars_of(" URI 缺少 host").as_slice()));
        },
    };
    let port = match url.port {
        Some(p) => p,
        None => {
            return Err(parse_failure(label, chars_of(" URI 缺少端口").as_slice()));
        },
    };
    let raw_name = match &url.fragment {
        Some(f) => if !f.as_str().is_empty() {
            f.clone()
        } else {
            fallback.to_owned()
        },
        None => fallback.to_owned(),
    };
    let name = decode_percent_encoded(raw_name.as_str());
    let extra = login_settings(&url);
    Ok(
        build_proxy_node(
            source_id,
            name,
            protocol,
            server,
            port,
            ProxyTransport::Tcp,
            TlsConfig { enabled: tls_enabled, server_name: None },
            extra,
            updated_at,
        ),
    )
}

/// Builds a SOCKS5 node from a `socks5://` or `socks5+tls://` line and what URL parsing
/// made of it.
pub fn socks5_from_url(line: &str, parsed: Result<UrlParts, String>, source_id: &str, updated_at: &str) -> (r:
    Result<ProxyNode, CoreError>)
    ensures
        match r {
            Ok(n) => socks5_node(line@, parsed_view(parsed), source_id@, updated_at@) == Ok::<
                NodeView,
                (ErrorKind, Seq<char>),
            >(n@),
            Err(e) => socks5_node(line@, parsed_view(parsed), source_id@, updated_at@) == Err::<
                NodeView,
                (ErrorKind, Seq<char>),
            >(e@),
        },
{
    let chars = chars_of(line);
    let tls = has_prefix(chars.as_slice(), chars_of("socks5+tls://").as_slice());
    login_proxy_from_url(parsed, "socks5", "socks5", ProxyProtocol::Socks5, tls, source_id, updated_at)
}

/// Builds an HTTP proxy node from what URL parsing made of an `http://` or `https://`
/// line.
pub fn http_from_url(parsed: Result<UrlParts, String>, source_id: &str, updated_at: &str) -> (r: Result<
    ProxyNode,
    CoreError,
>)
    ensures
        match r {
            Ok(n) => http_node(parsed_view(parsed), source_id@, updated_at@) == Ok::<
                NodeView,
                (ErrorKind, Seq<char>),
            >(n@),
            Err(e) => http_node(parsed_view(parsed), source_id@, updated_at@) == Err::<
                NodeView,
                (ErrorKind, Seq<char>),
            >(e@),
        },
{
    let tls = match &parsed {
        Ok(u) => same_ignore_case(chars_of(u.scheme.as_str()).as_slice(), chars_of("https").as_slice()),
        Err(_) => false,
    };
    login_proxy_from_url(parsed, "http(s)", "http", ProxyProtocol::Http, tls, source_id, updated_at)
}

/// Reads a `socks5://` or `socks5+tls://` URI: the URL is parsed by the `url` crate and
/// the node is built by [`socks5_from_url`].
pub fn parse_socks5_uri(line: &str, source_id: &str, updated_at: &str) -> (r: Result<ProxyNode, CoreError>)
    ensures
        match r {
            Ok(n) => socks5_node(line@, url_parsed(line@), source_id@, updated_at@) == Ok::<
                NodeView,
                (ErrorKind, Seq<char>),
            >(n@),
            Err(e) => socks5_node(line@, url_parsed(line@), source_id@, updated_at@) == Err::<
                NodeView,
                (ErrorKind, Seq<char>),
            >(e@),
        },
{
    socks5_from_url(line, parse_url(line), source_id, updated_at)
}

/// Reads an `http://` or `https://` proxy URI: the URL is parsed by the `url` crate and
/// the node is built by [`http_from_url`].
pub fn parse_http_proxy_uri(line: &str, source_id: &str, updated_at: &str) -> (r: Result<ProxyNode, CoreError>)
    ensures
        match r {
            Ok(n) => http_node(url_parsed(line@), source_id@, updated_at@) == Ok::<
                NodeView,
                (ErrorKind, Seq<char>),
            >(n@),
            Err(e) => http_node(url_parsed(line@), source_id@, updated_at@) == Err::<
                NodeView,
                (ErrorKind, Seq<char>),
            >(e@),
        },
{
    http_from_url(parse_url(line), source_id, updated_at)
}

} // verus!

//! Pieces shared by the subscription parsers.
use std::hash::{Hash, Hasher};

use vstd::prelude::*;

use crate::aggregator::dedupe::{json_text, json_text_of};
use crate::error::{CoreError, ErrorKind, parse_error};
use crate::model::{
    ExtraMap, ExtraView, NodeView, ProxyNode, ProxyProtocol, ProxyTransport, TlsConfig, TlsView,
};
use crate::text::{
    IntErrorKind, char_from_ascii, chars_of, concat, parse_unsigned, parse_unsigned_text, rsplit_once,
    rsplit_once_at, same_str, split_once, split_once_at, starts_with, string_from, to_vec,
};

verus! {

/// The message of `core::num::ParseIntError` for each kind of failure.
pub open spec fn int_error_text(k: IntErrorKind) -> Seq<char> {
    match k {
        IntErrorKind::Empty => "cannot parse integer from empty string"@,
        IntErrorKind::InvalidDigit => "invalid digit found in string"@,
        IntErrorKind::PosOverflow => "number too large to fit in target type"@,
    }
}

/// The message of an integer parse failure.
pub fn int_error_message(k: IntErrorKind) -> (r: Vec<char>)
    ensures
        r@ == int_error_text(k),
{
    match k {
        IntErrorKind::Empty => chars_of("cannot parse integer from empty string"),
        IntErrorKind::InvalidDigit => chars_of("invalid digit found in string"),
        IntErrorKind::PosOverflow => chars_of("number too large to fit in target type"),
    }
}

/// A subscription parse error whose message is `prefix` followed by `tail`.
pub fn parse_failure(prefix: &str, tail: &[char]) -> (e: CoreError)
    ensures
        e@ == parse_error(prefix@ + tail@),
{
    let m = concat(chars_of(prefix).as_slice(), tail);
    CoreError::SubscriptionParse(string_from(m.as_slice()))
}

/// A subscription parse error with a fixed message.
pub fn parse_failure_text(message: &str) -> (e: CoreError)
    ensures
        e@ == parse_error(message@),
{
    CoreError::SubscriptionParse(message.to_owned())
}

/// A port, as `str::parse::<u16>` reads it.
pub open spec fn port_of(s: Seq<char>) -> Result<u16, IntErrorKind> {
    match parse_unsigned(s, 65535) {
        Ok(v) => Ok(v as u16),
        Err(e) => Err(e),
    }
}

/// Reads a port.
pub fn parse_port(s: &[char]) -> (r: Result<u16, IntErrorKind>)
    ensures
        r == port_of(s@),
{
    match parse_unsigned_text(s, 65535) {
        Ok(v) => Ok(v as u16),
        Err(e) => Err(e),
    }
}

/// The part before `'#'` and the fragment after it, if any.
pub open spec fn fragment_split(raw: Seq<char>) -> (Seq<char>, Option<Seq<char>>) {
    match split_once(raw, '#') {
        Some(parts) => (parts.0, Some(parts.1)),
        None => (raw, None),
    }
}

/// The view of an optional character vector.
pub open spec fn opt_chars(o: Option<Vec<char>>) -> Option<Seq<char>> {
    match o {
        Some(v) => Some(v@),
        None => None,
    }
}

/// Splits off the fragment (after the first `'#'`).
pub fn split_fragment(raw: &[char]) -> (r: (Vec<char>, Option<Vec<char>>))
    ensures
        (r.0@, opt_chars(r.1)) == fragment_split(raw@),
{
    match split_once_at(raw, '#') {
        Some(parts) => (parts.0, Some(parts.1)),
        None => (to_vec(raw), None),
    }
}

/// `host:port`, or `[host]:port` for IPv6 literals.
pub open spec fn host_port_of(raw: Seq<char>) -> Result<(Seq<char>, u16), (ErrorKind, Seq<char>)> {
    if raw.len() > 0 && raw[0] == '[' {
        match split_once(raw.drop_first(), ']') {
            None => Err(parse_error("host 非法："@ + raw)),
            Some(parts) => if !(parts.1.len() > 0 && parts.1[0] == ':') {
                Err(parse_error("端口缺失："@ + raw))
            } else {
                match port_of(parts.1.drop_first()) {
                    Ok(p) => Ok((parts.0, p)),
                    Err(e) => Err(parse_error("端口非法："@ + int_error_text(e))),
                }
            },
        }
    } else {
        match rsplit_once(raw, ':') {
            None => Err(parse_error("host:port 解析失败："@ + raw)),
            Some(parts) => match port_of(parts.1) {
                Ok(p) => Ok((parts.0, p)),
                Err(e) => Err(parse_error("端口非法："@ + int_error_text(e))),
            },
        }
    }
}

/// Reads `host:port` or `[host]:port`.
pub fn parse_host_port(raw: &[char]) -> (r: Result<(Vec<char>, u16), CoreError>)
    ensures
        match r {
            Ok(hp) => host_port_of(raw@) == Ok::<(Seq<char>, u16), (ErrorKind, Seq<char>)>(
                (hp.0@, hp.1),
            ),
            Err(e) => host_port_of(raw@) == Err::<(Seq<char>, u16), (ErrorKind, Seq<char>)>(e@),
        },
{
    if raw.len() > 0 && raw[0] == '[' {
        let stripped = crate::text::slice_of(raw, 1, raw.len());
        assert(stripped@ =~= raw@.drop_first());
        match split_once_at(stripped.as_slice(), ']') {
            None => Err(parse_failure("host 非法：", raw)),
            Some(parts) => {
                let rem = &parts.1;
                if !(rem.len() > 0 && rem[0] == ':') {
                    return Err(parse_failure("端口缺失：", raw));
                }
                let digits = crate::text::slice_of(rem.as_slice(), 1, rem.len());
                assert(digits@ =~= rem@.drop_first());
                match parse_port(digits.as_slice()) {
                    Ok(p) => Ok((parts.0, p)),
                    Err(e) => Err(parse_failure("端口非法：", int_error_message(e).as_slice())),
                }
            },
        }
    } else {
        match rsplit_once_at(raw, ':') {
            None => Err(parse_failure("host:port 解析失败：", raw)),
            Some(parts) => match parse_port(parts.1.as_slice()) {
                Ok(p) => Ok((parts.0, p)),
                Err(e) => Err(parse_failure("端口非法：", int_error_message(e).as_slice())),
            },
        }
    }
}

/// The text that percent-decoding gives: `%XX` escapes decoded and the bytes read as
/// UTF-8, invalid sequences replaced.
pub uninterp spec fn percent_decoded(s: Seq<char>) -> Seq<char>;

/// Decodes `%XX` escapes with `percent_encoding::percent_decode_str` and reads the bytes
/// with `decode_utf8_lossy`. The text is named by [`percent_decoded`]; text without a `%`
/// has nothing to decode and comes back as it is (its bytes are borrowed unchanged, and
/// they are valid UTF-8).
#[verifier::external_body]
pub(crate) fn decode_percent_encoded(raw: &str) -> (r: String)
    ensures
        r@ == percent_decoded(raw@),
        !raw@.contains('%') ==> r@ == raw@,
{
    percent_encoding::percent_decode_str(raw).decode_utf8_lossy().into_owned()
}

/// Percent-decodes text given as characters.
pub fn decode_percent_chars(raw: &[char]) -> (r: Vec<char>)
    ensures
        r@ == percent_decoded(raw@),
        !raw@.contains('%') ==> r@ == raw@,
{
    let s = string_from(raw);
    let d = decode_percent_encoded(s.as_str());
    chars_of(d.as_str())
}

/// The transport a `network`-like setting names; anything else is TCP.
pub open spec fn transport_of(raw: Option<Seq<char>>) -> ProxyTransport {
    match raw {
        Some(s) => if s == "ws"@ {
            ProxyTransport::Ws
        } else if s == "grpc"@ {
            ProxyTransport::Grpc
        } else if s == "h2"@ {
            ProxyTransport::H2
        } else if s == "quic"@ {
            ProxyTransport::Quic
        } else {
            ProxyTransport::Tcp
        },
        None => ProxyTransport::Tcp,
    }
}

/// The transport a `network`-like setting names.
pub fn map_transport(raw: Option<Vec<char>>) -> (r: ProxyTransport)
    ensures
        r == transport_of(opt_chars(raw)),
{
    match raw {
        Some(s) => {
            if same_str(s.as_slice(), "ws") {
                ProxyTransport::Ws
            } else if same_str(s.as_slice(), "grpc") {
                ProxyTransport::Grpc
            } else if same_str(s.as_slice(), "h2") {
                ProxyTransport::H2
            } else if same_str(s.as_slice(), "quic") {
                ProxyTransport::Quic
            } else {
                ProxyTransport::Tcp
            }
        },
        None => ProxyTransport::Tcp,
    }
}

/// The position of a protocol in the declaration of [`ProxyProtocol`], which is the
/// discriminant that its derived `Hash` feeds to a hasher.
pub open spec fn protocol_index(p: ProxyProtocol) -> isize {
    match p {
        ProxyProtocol::Ss => 0,
        ProxyProtocol::Ssr => 1,
        ProxyProtocol::Vmess => 2,
        ProxyProtocol::Vless => 3,
        ProxyProtocol::Trojan => 4,
        ProxyProtocol::Socks5 => 5,
        ProxyProtocol::Http => 6,
        ProxyProtocol::WireGuard => 7,
    }
}

/// The position of a protocol (see [`protocol_index`]).
pub fn protocol_discriminant(p: ProxyProtocol) -> (r: isize)
    ensures
        r == protocol_index(p),
{
    match p {
        ProxyProtocol::Ss => 0,
        ProxyProtocol::Ssr => 1,
        ProxyProtocol::Vmess => 2,
        ProxyProtocol::Vless => 3,
        ProxyProtocol::Trojan => 4,
        ProxyProtocol::Socks5 => 5,
        ProxyProtocol::Http => 6,
        ProxyProtocol::WireGuard => 7,
    }
}

/// What std's `DefaultHasher` (made by `DefaultHasher::new`, whose keys are fixed)
/// finishes with after hashing, in order, the source id, the protocol's discriminant,
/// the server, the port, the name and, when there is one, the credential text. The
/// bytes that `Hash` feeds for a `u16` and an `isize` are not promised to be the same
/// across platforms or Rust releases, so neither is this value; within one build it
/// depends on these arguments alone.
pub uninterp spec fn node_hash(
    source_id: Seq<char>,
    protocol: isize,
    server: Seq<char>,
    port: u16,
    name: Seq<char>,
    credential: Option<Seq<char>>,
) -> u64;

/// Hashes a node's identifying fields and its credential with std's `DefaultHasher`;
/// the value is named by [`node_hash`].
#[verifier::external_body]
fn hash_node_with_credential(
    source_id: &str,
    protocol: isize,
    server: &str,
    port: u16,
    name: &str,
    credential: &str,
) -> (r: u64)
    ensures
        r == node_hash(source_id@, protocol, server@, port, name@, Some(credential@)),
{
    let mut hasher = std::collections::hash_map::DefaultHasher::new();
    source_id.hash(&mut hasher);
    protocol.hash(&mut hasher);
    server.hash(&mut hasher);
    port.hash(&mut hasher);
    name.hash(&mut hasher);
    credential.hash(&mut hasher);
    hasher.finish()
}

/// Hashes a node's identifying fields, with no credential, with std's `DefaultHasher`;
/// the value is named by [`node_hash`].
#[verifier::external_body]
fn hash_node_without_credential(
    source_id: &str,
    protocol: isize,
    server: &str,
    port: u16,
    name: &str,
) -> (r: u64)
    ensures
        r == node_hash(source_id@, protocol, server@, port, name@, None),
{
    let mut hasher = std::collections::hash_map::DefaultHasher::new();
    source_id.hash(&mut hasher);
    protocol.hash(&mut hasher);
    server.hash(&mut hasher);
    port.hash(&mut hasher);
    name.hash(&mut hasher);
    hasher.finish()
}

/// The lowercase hex digit of a value below sixteen.
pub open spec fn hex_digit(d: nat) -> char {
    if d < 10 {
        ((48 + d) as u32) as char
    } else {
        ((87 + d) as u32) as char
    }
}

/// The last `count` lowercase hex digits of `n`, zero-padded on the left.
pub open spec fn hex_digits(n: nat, count: nat) -> Seq<char>
    decreases count,
{
    if count == 0 {
        Seq::empty()
    } else {
        hex_digits(n / 16, (count - 1) as nat).push(hex_digit(n % 16))
    }
}

/// A 64-bit value as sixteen lowercase hex digits, as `{:016x}` writes it.
pub open spec fn hex16(h: u64) -> Seq<char> {
    hex_digits(h as nat, 16)
}

fn hex_digits_of(n: u64, count: usize) -> (r: Vec<char>)
    ensures
        r@ == hex_digits(n as nat, count as nat),
    decreases count,
{
    if count == 0 {
        Vec::new()
    } else {
        let mut v = hex_digits_of(n / 16, count - 1);
        let d: u64 = n % 16;
        let c = if d < 10 {
            char_from_ascii(48 + d as u32)
        } else {
            char_from_ascii(87 + d as u32)
        };
        v.push(c);
        v
    }
}

/// The identifier text of a node hash: `node-` and sixteen lowercase hex digits.
pub fn node_id_text(h: u64) -> (r: String)
    ensures
        r@ == "node-"@ + hex16(h),
{
    let digits = hex_digits_of(h, 16);
    let all = concat(chars_of("node-").as_slice(), digits.as_slice());
    string_from(all.as_slice())
}

/// The identifier of a node: `node-` and the sixteen hex digits of its [`node_hash`].
pub open spec fn node_id(
    source_id: Seq<char>,
    protocol: ProxyProtocol,
    server: Seq<char>,
    port: u16,
    name: Seq<char>,
    credential: Option<Seq<char>>,
) -> Seq<char> {
    "node-"@ + hex16(node_hash(source_id, protocol_index(protocol), server, port, name, credential))
}

/// The identifier of a node (see [`node_id`]): the credential, when there is one, is
/// hashed after the other fields.
pub(crate) fn build_proxy_node_id(
    source_id: &str,
    protocol: ProxyProtocol,
    server: &str,
    port: u16,
    name: &str,
    credential: &Option<String>,
) -> (r: String)
    ensures
        r@ == node_id(source_id@, protocol, server@, port, name@, credential.deep_view()),
{
    let index = protocol_discriminant(protocol);
    let h = match credential {
        Some(value) => hash_node_with_credential(source_id, index, server, port, name, value.as_str()),
        None => hash_node_without_credential(source_id, index, server, port, name),
    };
    node_id_text(h)
}

/// The credential text that goes into a node's identifier: the JSON text of its `uuid`,
/// else of its `password`.
pub open spec fn id_credential(extra: Map<Seq<char>, ExtraView>) -> Option<Seq<char>> {
    if extra.contains_key("uuid"@) {
        Some(json_text(extra["uuid"@]))
    } else if extra.contains_key("password"@) {
        Some(json_text(extra["password"@]))
    } else {
        None
    }
}

/// A node as the parsers build it: no tags, no region, identifier from [`node_id`].
pub open spec fn proxy_node(
    source_id: Seq<char>,
    name: Seq<char>,
    protocol: ProxyProtocol,
    server: Seq<char>,
    port: u16,
    transport: ProxyTransport,
    tls: TlsView,
    extra: Map<Seq<char>, ExtraView>,
    updated_at: Seq<char>,
) -> NodeView {
    NodeView {
        id: node_id(source_id, protocol, server, port, name, id_credential(extra)),
        name,
        protocol,
        server,
        port,
        transport,
        tls,
        extra,
        source_id,
        tags: Seq::empty(),
        region: None,
        updated_at,
    }
}

/// Builds a node.
pub fn build_proxy_node(
    source_id: &str,
    name: String,
    protocol: ProxyProtocol,
    server: String,
    port: u16,
    transport: ProxyTransport,
    tls: TlsConfig,
    extra: ExtraMap,
    updated_at: &str,
) -> (r: ProxyNode)
    ensures
        r@ == proxy_node(
            source_id@,
            name@,
            protocol,
            server@,
            port,
            transport,
            tls@,
            extra@,
            updated_at@,
        ),
{
    let credential: Option<String> = match extra.get("uuid") {
        Some(v) => Some(json_text_of(v)),
        None => match extra.get("password") {
            Some(v) => Some(json_text_of(v)),
            None => None,
        },
    };
    let id = build_proxy_node_id(
        source_id,
        protocol,
        server.as_str(),
        port,
        name.as_str(),
        &credential,
    );
    let tags: Vec<String> = Vec::new();
    let r = ProxyNode {
        id,
        name,
        protocol,
        server,
        port,
        transport,
        tls,
        extra,
        source_id: source_id.to_owned(),
        tags,
        region: None,
        updated_at: updated_at.to_owned(),
    };
    assert(r.tags.deep_view() =~= Seq::<Seq<char>>::empty());
    r
}

} // verus!

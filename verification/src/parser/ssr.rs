//! `ssr://` URIs (ShadowsocksR).
use vstd::prelude::*;

use crate::error::{CoreError, ErrorKind, parse_error};
use crate::model::{
    ExtraMap, ExtraValue, ExtraView, NodeView, ProxyNode, ProxyProtocol, ProxyTransport, TlsConfig,
    TlsView,
};
use crate::parser::base64::{base64_text, decode_base64_chars};
use crate::parser::common::{
    build_proxy_node, decode_percent_chars, int_error_message, int_error_text, parse_failure,
    parse_failure_text, parse_port, percent_decoded, port_of, proxy_node,
};
use crate::text::{
    chars_of, concat, decimal, decimal_of, same_str, slice_of, split, split_all, split_once,
    split_once_at, split_once_at_pair, split_once_pair, starts_with, string_from, trim, trimmed,
};

verus! {

/// The part before `"/?"` and the query after it.
pub open spec fn ssr_head_query(decoded: Seq<char>) -> (Seq<char>, Seq<char>) {
    match split_once_pair(decoded, '/', '?') {
        Some(p) => p,
        None => (decoded, Seq::empty()),
    }
}

/// A query value: Base64 text if it decodes, else the raw text (when not empty), then
/// percent-decoded; an empty result counts as absent.
pub open spec fn ssr_value(raw: Seq<char>) -> Option<Seq<char>> {
    let v = match base64_text(raw) {
        Some(t) => Some(percent_decoded(t)),
        None => if raw.len() == 0 {
            None
        } else {
            Some(percent_decoded(raw))
        },
    };
    match v {
        Some(x) => if x.len() > 0 {
            Some(x)
        } else {
            None
        },
        None => None,
    }
}

/// The effect of one query pair: `remarks` names the node, `obfsparam` and `protoparam`
/// become settings; other pairs change nothing.
pub open spec fn ssr_apply(name: Seq<char>, extra: Map<Seq<char>, ExtraView>, pair: Seq<char>) -> (
    Seq<char>,
    Map<Seq<char>, ExtraView>,
) {
    match split_once(pair, '=') {
        None => (name, extra),
        Some(kv) => match ssr_value(kv.1) {
            None => (name, extra),
            Some(v) => if kv.0 == "remarks"@ {
                (v, extra)
            } else if kv.0 == "obfsparam"@ {
                (name, extra.insert("obfs_param"@, ExtraView::Text(v)))
            } else if kv.0 == "protoparam"@ {
                (name, extra.insert("protocol_param"@, ExtraView::Text(v)))
            } else {
                (name, extra)
            },
        },
    }
}

/// The effect of all query pairs, in order.
pub open spec fn ssr_fold(pairs: Seq<Seq<char>>, name: Seq<char>, extra: Map<Seq<char>, ExtraView>) -> (
    Seq<char>,
    Map<Seq<char>, ExtraView>,
)
    decreases pairs.len(),
{
    if pairs.len() == 0 {
        (name, extra)
    } else {
        let st = ssr_fold(pairs.drop_last(), name, extra);
        ssr_apply(st.0, st.1, pairs.last())
    }
}

/// The query pair `pair` sets the protocol parameter: its key is `protoparam` and its
/// value counts (see [`ssr_value`]).
pub open spec fn sets_protoparam(pair: Seq<char>) -> bool {
    &&& split_once(pair, '=') is Some
    &&& split_once(pair, '=')->Some_0.0 == "protoparam"@
    &&& ssr_value(split_once(pair, '=')->Some_0.1) is Some
}

/// When pair `k` sets the protocol parameter and no later pair does, the pairs leave
/// `protocol_param` set to that pair's decoded value.
pub proof fn lemma_ssr_fold_protoparam(
    pairs: Seq<Seq<char>>,
    name: Seq<char>,
    extra: Map<Seq<char>, ExtraView>,
    k: int,
)
    requires
        0 <= k < pairs.len(),
        sets_protoparam(pairs[k]),
        forall|j: int| k < j < pairs.len() ==> !sets_protoparam(#[trigger] pairs[j]),
    ensures
        ssr_fold(pairs, name, extra).1.contains_key("protocol_param"@),
        ssr_fold(pairs, name, extra).1["protocol_param"@] == ExtraView::Text(
            ssr_value(split_once(pairs[k], '=')->Some_0.1)->Some_0,
        ),
    decreases pairs.len(),
{
    reveal_strlit("protocol_param");
    reveal_strlit("obfs_param");
    reveal_strlit("protoparam");
    reveal_strlit("remarks");
    reveal_strlit("obfsparam");
    let last = pairs.len() - 1;
    let rest = pairs.drop_last();
    assert(pairs.last() == pairs[last]);
    if k < last {
        assert forall|j: int| k < j < rest.len() implies !sets_protoparam(#[trigger] rest[j]) by {
            assert(rest[j] == pairs[j]);
        }
        assert(rest[k] == pairs[k]);
        lemma_ssr_fold_protoparam(rest, name, extra, k);
        assert(!sets_protoparam(pairs[last]));
        assert("protocol_param"@[0] != "obfs_param"@[0]);
        assert("protoparam"@[0] != "remarks"@[0]);
    } else {
        assert("protoparam"@[0] != "remarks"@[0]);
        assert("protoparam"@[0] != "obfsparam"@[0]);
    }
}

/// An `ssr://` body whose query has a pair `protoparam=v` that counts, with no later such
/// pair, gives a node whose `protocol_param` setting is `v` decoded.
pub proof fn lemma_ssr_protoparam(decoded: Seq<char>, source_id: Seq<char>, updated_at: Seq<char>, k: int)
    requires
        ssr_body(decoded, source_id, updated_at) is Ok,
        ssr_head_query(decoded).1.len() > 0,
        0 <= k < split(ssr_head_query(decoded).1, '&').len(),
        sets_protoparam(split(ssr_head_query(decoded).1, '&')[k]),
        forall|j: int|
            k < j < split(ssr_head_query(decoded).1, '&').len() ==> !sets_protoparam(
                #[trigger] split(ssr_head_query(decoded).1, '&')[j],
            ),
    ensures
        ssr_body(decoded, source_id, updated_at)->Ok_0.extra.contains_key("protocol_param"@),
        ssr_body(decoded, source_id, updated_at)->Ok_0.extra["protocol_param"@] == ExtraView::Text(
            ssr_value(split_once(split(ssr_head_query(decoded).1, '&')[k], '=')->Some_0.1)->Some_0,
        ),
{
    let hq = ssr_head_query(decoded);
    let seg = split(hq.0, ':');
    let port = port_of(seg[1])->Ok_0;
    let password = base64_text(seg[5])->Some_0;
    let name0 = "ssr-"@ + seg[0] + ":"@ + decimal(port as nat);
    let extra0 = Map::<Seq<char>, ExtraView>::empty().insert("cipher"@, ExtraView::Text(seg[3])).insert(
        "password"@,
        ExtraView::Text(password),
    ).insert("protocol"@, ExtraView::Text(seg[2])).insert("obfs"@, ExtraView::Text(seg[4]));
    lemma_ssr_fold_protoparam(split(hq.1, '&'), name0, extra0, k);
}

/// What an `ssr://` URI gives. Its body is Base64 of
/// `server:port:protocol:method:obfs:base64(password)/?query`.
pub open spec fn ssr_uri(line: Seq<char>, source_id: Seq<char>, updated_at: Seq<char>) -> Result<
    NodeView,
    (ErrorKind, Seq<char>),
> {
    let raw = trim(line.skip(6));
    match base64_text(raw) {
        None => Err(parse_error("ssr URI Base64 解码失败"@)),
        Some(decoded) => ssr_body(decoded, source_id, updated_at),
    }
}

/// What the decoded body `server:port:protocol:method:obfs:base64(password)/?query` of
/// an `ssr://` URI gives.
pub open spec fn ssr_body(decoded: Seq<char>, source_id: Seq<char>, updated_at: Seq<char>) -> Result<
    NodeView,
    (ErrorKind, Seq<char>),
> {
    let hq = ssr_head_query(decoded);
    let seg = split(hq.0, ':');
    if seg[0].len() == 0 {
        Err(parse_error("ssr URI 缺少 server"@))
    } else if seg.len() < 2 {
        Err(parse_error("ssr URI 缺少 port"@))
    } else {
        match port_of(seg[1]) {
            Err(e) => Err(parse_error("ssr URI 端口非法："@ + int_error_text(e))),
            Ok(port) => if seg.len() < 3 || seg[2].len() == 0 {
                Err(parse_error("ssr URI 缺少 protocol"@))
            } else if seg.len() < 4 || seg[3].len() == 0 {
                Err(parse_error("ssr URI 缺少 method"@))
            } else if seg.len() < 5 || seg[4].len() == 0 {
                Err(parse_error("ssr URI 缺少 obfs"@))
            } else if seg.len() < 6 || seg[5].len() == 0 {
                Err(parse_error("ssr URI 缺少 password"@))
            } else {
                match base64_text(seg[5]) {
                    None => Err(parse_error("ssr URI password Base64 解码失败"@)),
                    Some(password) => {
                        let name0 = "ssr-"@ + seg[0] + ":"@ + decimal(port as nat);
                        let extra0 = Map::<Seq<char>, ExtraView>::empty().insert(
                            "cipher"@,
                            ExtraView::Text(seg[3]),
                        ).insert("password"@, ExtraView::Text(password)).insert(
                            "protocol"@,
                            ExtraView::Text(seg[2]),
                        ).insert("obfs"@, ExtraView::Text(seg[4]));
                        let st = if hq.1.len() == 0 {
                            (name0, extra0)
                        } else {
                            ssr_fold(split(hq.1, '&'), name0, extra0)
                        };
                        Ok(
                            proxy_node(
                                source_id,
                                st.0,
                                ProxyProtocol::Ssr,
                                seg[0],
                                port,
                                ProxyTransport::Tcp,
                                TlsView { enabled: false, server_name: None },
                                st.1,
                                updated_at,
                            ),
                        )
                    },
                }
            },
        }
    }
}

/// The value of a query pair, if it counts.
fn ssr_query_value(raw: &[char]) -> (r: Option<Vec<char>>)
    ensures
        match r {
            Some(v) => ssr_value(raw@) == Some(v@),
            None => ssr_value(raw@) is None,
        },
{
    let v = match decode_base64_chars(raw) {
        Some(t) => Some(decode_percent_chars(t.as_slice())),
        None => if raw.len() == 0 {
            None
        } else {
            Some(decode_percent_chars(raw))
        },
    };
    match v {
        Some(x) => if x.len() > 0 {
            Some(x)
        } else {
            None
        },
        None => None,
    }
}

/// Applies the query pairs of an `ssr://` URI.
fn apply_query(query: &[char], name: &mut Vec<char>, extra: &mut ExtraMap)
    ensures
        (final(name)@, final(extra)@) == ssr_fold(split(query@, '&'), old(name)@, old(extra)@),
{
    let pairs = split_all(query, '&');
    let ghost pv = split(query@, '&');
    let ghost name0 = name@;
    let ghost extra0 = extra@;
    let mut i: usize = 0;
    assert(pv.take(0) =~= Seq::<Seq<char>>::empty());
    while i < pairs.len()
        invariant
            i <= pairs@.len(),
            pairs@.len() == pv.len(),
            forall|k: int| 0 <= k < pairs@.len() ==> #[trigger] pairs@[k]@ == pv[k],
            (name@, extra@) == ssr_fold(pv.take(i as int), name0, extra0),
        decreases pairs@.len() - i,
    {
        proof {
            assert(pv.take(i + 1).drop_last() =~= pv.take(i as int));
            assert(pv.take(i + 1).last() == pairs@[i as int]@);
        }
        match split_once_at(pairs[i].as_slice(), '=') {
            None => {},
            Some(kv) => match ssr_query_value(kv.1.as_slice()) {
                None => {},
                Some(v) => {
                    if same_str(kv.0.as_slice(), "remarks") {
                        *name = v;
                    } else if same_str(kv.0.as_slice(), "obfsparam") {
                        extra.insert("obfs_param".to_owned(), ExtraValue::Text(string_from(v.as_slice())));
                    } else if same_str(kv.0.as_slice(), "protoparam") {
                        extra.insert(
                            "protocol_param".to_owned(),
                            ExtraValue::Text(string_from(v.as_slice())),
                        );
                    }
                },
            },
        }
        i += 1;
    }
    assert(pv.take(pairs@.len() as int) =~= pv);
}

/// A required segment of the decoded body, or the error that names it.
fn segment(seg: &Vec<Vec<char>>, i: usize, missing: &str) -> (r: Result<Vec<char>, CoreError>)
    ensures
        match r {
            Ok(v) => i < seg@.len() && seg@[i as int]@.len() > 0 && v@ == seg@[i as int]@,
            Err(e) => !(i < seg@.len() && seg@[i as int]@.len() > 0) && e@ == parse_error(missing@),
        },
{
    if i < seg.len() && seg[i].len() > 0 {
        Ok(crate::text::to_vec(seg[i].as_slice()))
    } else {
        Err(parse_failure_text(missing))
    }
}

/// Reads an `ssr://` URI.
pub fn parse_ssr_uri(line: &str, source_id: &str, updated_at: &str) -> (r: Result<ProxyNode, CoreError>)
    requires
        starts_with(line@, "ssr://"@),
    ensures
        match r {
            Ok(n) => ssr_uri(line@, source_id@, updated_at@) == Ok::<NodeView, (ErrorKind, Seq<char>)>(n@),
            Err(e) => ssr_uri(line@, source_id@, updated_at@) == Err::<NodeView, (ErrorKind, Seq<char>)>(e@),
        },
{
    let chars = chars_of(line);
    proof {
        reveal_strlit("ssr://");
    }
    let body = slice_of(chars.as_slice(), 6, chars.len());
    assert(body@ =~= line@.skip(6));
    let raw = trimmed(body.as_slice());
    match decode_base64_chars(raw.as_slice()) {
        Some(decoded) => ssr_from_decoded(decoded, source_id, updated_at),
        None => Err(parse_failure_text("ssr URI Base64 解码失败")),
    }
}

/// Reads the decoded body of an `ssr://` URI (see [`ssr_body`]).
pub fn ssr_from_decoded(decoded: Vec<char>, source_id: &str, updated_at: &str) -> (r: Result<
    ProxyNode,
    CoreError,
>)
    ensures
        match r {
            Ok(n) => ssr_body(decoded@, source_id@, updated_at@) == Ok::<NodeView, (ErrorKind, Seq<char>)>(n@),
            Err(e) => ssr_body(decoded@, source_id@, updated_at@) == Err::<NodeView, (ErrorKind, Seq<char>)>(e@),
        },
{
    let (head, query) = match split_once_at_pair(decoded.as_slice(), '/', '?') {
        Some(p) => p,
        None => (decoded, Vec::new()),
    };
    assert((head@, query@) == ssr_head_query(decoded@));
    let seg = split_all(head.as_slice(), ':');
    proof {
        crate::text::lemma_split_nonempty(head@, ':');
    }
    if seg[0].len() == 0 {
        return Err(parse_failure_text("ssr URI 缺少 server"));
    }
    let server = crate::text::to_vec(seg[0].as_slice());
    if seg.len() < 2 {
        return Err(parse_failure_text("ssr URI 缺少 port"));
    }
    let port = match parse_port(seg[1].as_slice()) {
        Ok(p) => p,
        Err(e) => {
            return Err(parse_failure("ssr URI 端口非法：", int_error_message(e).as_slice()));
        },
    };
    let protocol = segment(&seg, 2, "ssr URI 缺少 protocol")?;
    let method = segment(&seg, 3, "ssr URI 缺少 method")?;
    let obfs = segment(&seg, 4, "ssr URI 缺少 obfs")?;
    let password_encoded = segment(&seg, 5, "ssr URI 缺少 password")?;
    let password = match decode_base64_chars(password_encoded.as_slice()) {
        Some(p) => p,
        None => {
            return Err(parse_failure_text("ssr URI password Base64 解码失败"));
        },
    };
    let a = concat(chars_of("ssr-").as_slice(), server.as_slice());
    let b = concat(a.as_slice(), chars_of(":").as_slice());
    let mut name = concat(b.as_slice(), decimal_of(port as u128).as_slice());
    let mut extra = ExtraMap::new();
    extra.insert("cipher".to_owned(), ExtraValue::Text(string_from(method.as_slice())));
    extra.insert("password".to_owned(), ExtraValue::Text(string_from(password.as_slice())));
    extra.insert("protocol".to_owned(), ExtraValue::Text(string_from(protocol.as_slice())));
    extra.insert("obfs".to_owned(), ExtraValue::Text(string_from(obfs.as_slice())));
    if query.len() > 0 {
        apply_query(query.as_slice(), &mut name, &mut extra);
    }
    let node = build_proxy_node(
        source_id,
        string_from(name.as_slice()),
        ProxyProtocol::Ssr,
        string_from(server.as_slice()),
        port,
        ProxyTransport::Tcp,
        TlsConfig { enabled: false, server_name: None },
        extra,
        updated_at,
    );
    Ok(node)
}

} // verus!

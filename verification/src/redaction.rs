//! Hiding secrets in text that leaves the process: request logs, script logs and
//! messages.
use vstd::prelude::*;

use crate::text::{
    ascii_lower, chars_of, concat, lowercase, same_text, split, split_all, split_once,
    split_once_at, string_from, texts_view, to_vec,
};

verus! {

/// The replacement for a secret value.
pub open spec fn masked() -> Seq<char> {
    "***"@
}

/// `items` joined with `sep` between neighbours.
pub open spec fn join(items: Seq<Seq<char>>, sep: Seq<char>) -> Seq<char>
    decreases items.len(),
{
    if items.len() == 0 {
        Seq::empty()
    } else if items.len() == 1 {
        items[0]
    } else {
        join(items.drop_last(), sep) + sep + items.last()
    }
}

/// The texts of a list of literals.
pub open spec fn literal_texts(list: Seq<&str>) -> Seq<Seq<char>> {
    list.map_values(|s: &str| s@)
}

/// Whether `x` equals one of the literals in `list`.
pub fn in_list(x: &[char], list: &[&str]) -> (r: bool)
    ensures
        r == literal_texts(list@).contains(x@),
{
    let mut i: usize = 0;
    while i < list.len()
        invariant
            i <= list@.len(),
            forall|t: int| 0 <= t < i ==> list@[t]@ != x@,
        decreases list@.len() - i,
    {
        let item = chars_of(list[i]);
        if same_text(item.as_slice(), x) {
            assert(literal_texts(list@)[i as int] == x@);
            return true;
        }
        i += 1;
    }
    proof {
        if literal_texts(list@).contains(x@) {
            let t = choose|t: int| 0 <= t < list@.len() && literal_texts(list@)[t] == x@;
            assert(list@[t]@ == x@);
        }
    }
    false
}

/// Joins pieces of text with a separator.
pub fn join_texts(items: &Vec<Vec<char>>, sep: &[char]) -> (r: Vec<char>)
    ensures
        r@ == join(texts_view(items@), sep@),
{
    let ghost iv = texts_view(items@);
    let mut out: Vec<char> = Vec::new();
    let mut i: usize = 0;
    while i < items.len()
        invariant
            i <= items@.len(),
            iv == texts_view(items@),
            out@ == join(iv.take(i as int), sep@),
        decreases items@.len() - i,
    {
        proof {
            assert(iv.take(i + 1).drop_last() =~= iv.take(i as int));
            assert(iv.take(i + 1).last() == items@[i as int]@);
        }
        if i > 0 {
            crate::text::append(&mut out, sep);
        } else {
            assert(iv.take(1)[0] == items@[0]@);
        }
        crate::text::append(&mut out, items[i].as_slice());
        i += 1;
    }
    assert(iv.take(items@.len() as int) =~= iv);
    out
}

// ------------------------------------------------------------------
// Request logs
// ------------------------------------------------------------------

/// Header names whose values a request log hides.
pub open spec fn sensitive_header_names() -> Seq<&'static str> {
    seq![
        "authorization",
        "proxy-authorization",
        "cookie",
        "set-cookie",
        "x-api-key",
        "x-auth-token",
        "x-access-token",
    ]
}

/// Query keys whose values a request log hides.
pub open spec fn sensitive_query_keys() -> Seq<&'static str> {
    seq![
        "access_token",
        "accesstoken",
        "admin_token",
        "admintoken",
        "api_key",
        "apikey",
        "secret_key",
        "secretkey",
        "password",
        "passwd",
        "authorization",
        "cookie",
        "secret",
        "token",
        "auth",
    ]
}

fn header_names_list() -> (r: Vec<&'static str>)
    ensures
        r@ == sensitive_header_names(),
{
    let v: Vec<&'static str> = vec![
        "authorization",
        "proxy-authorization",
        "cookie",
        "set-cookie",
        "x-api-key",
        "x-auth-token",
        "x-access-token",
    ];
    assert(v@ =~= sensitive_header_names());
    v
}

fn query_keys_list() -> (r: Vec<&'static str>)
    ensures
        r@ == sensitive_query_keys(),
{
    let v: Vec<&'static str> = vec![
        "access_token",
        "accesstoken",
        "admin_token",
        "admintoken",
        "api_key",
        "apikey",
        "secret_key",
        "secretkey",
        "password",
        "passwd",
        "authorization",
        "cookie",
        "secret",
        "token",
        "auth",
    ];
    assert(v@ =~= sensitive_query_keys());
    v
}

/// One header as a log shows it: `name=value`, or `name=***` for a sensitive name
/// (ASCII case ignored).
pub open spec fn header_entry(name: Seq<char>, value: Seq<char>) -> Seq<char> {
    if literal_texts(sensitive_header_names()).contains(ascii_lower(name)) {
        name + "="@ + masked()
    } else {
        name + "="@ + value
    }
}

/// All headers as a log shows them, separated by `", "`.
pub open spec fn headers_log_text(headers: Seq<(Seq<char>, Seq<char>)>) -> Seq<char> {
    join(headers.map_values(|h: (Seq<char>, Seq<char>)| header_entry(h.0, h.1)), ", "@)
}

/// The views of header pairs.
pub open spec fn header_pairs_view(h: Seq<(String, String)>) -> Seq<(Seq<char>, Seq<char>)> {
    h.map_values(|p: (String, String)| (p.0@, p.1@))
}

/// The headers of a request as a log line shows them, with the values of credential
/// headers hidden.
pub fn redact_headers_for_log(headers: &Vec<(String, String)>) -> (r: String)
    ensures
        r@ == headers_log_text(header_pairs_view(headers@)),
{
    let ghost hv = header_pairs_view(headers@);
    let ghost entries = hv.map_values(|h: (Seq<char>, Seq<char>)| header_entry(h.0, h.1));
    let list = header_names_list();
    let eq = chars_of("=");
    let stars = chars_of("***");
    let mut parts: Vec<Vec<char>> = Vec::new();
    let mut i: usize = 0;
    while i < headers.len()
        invariant
            i <= headers@.len(),
            hv == header_pairs_view(headers@),
            entries == hv.map_values(|h: (Seq<char>, Seq<char>)| header_entry(h.0, h.1)),
            list@ == sensitive_header_names(),
            eq@ == "="@,
            stars@ == masked(),
            parts@.len() == i,
            forall|t: int| 0 <= t < i ==> #[trigger] parts@[t]@ == entries[t],
        decreases headers@.len() - i,
    {
        let name = chars_of(headers[i].0.as_str());
        let lowered = lowercase(name.as_slice());
        let head = concat(name.as_slice(), eq.as_slice());
        let entry = if in_list(lowered.as_slice(), list.as_slice()) {
            concat(head.as_slice(), stars.as_slice())
        } else {
            concat(head.as_slice(), chars_of(headers[i].1.as_str()).as_slice())
        };
        assert(hv[i as int] == (headers@[i as int].0@, headers@[i as int].1@));
        parts.push(entry);
        i += 1;
    }
    assert(texts_view(parts@) =~= entries);
    let sep = chars_of(", ");
    let joined = join_texts(&parts, sep.as_slice());
    string_from(joined.as_slice())
}

/// One query pair as a log shows it: the value of a sensitive key (ASCII case ignored)
/// becomes `***`; a pair without `'='` stays as it is.
pub open spec fn query_pair_entry(pair: Seq<char>) -> Seq<char> {
    match split_once(pair, '=') {
        Some(kv) => if literal_texts(sensitive_query_keys()).contains(ascii_lower(kv.0)) {
            kv.0 + "="@ + masked()
        } else {
            pair
        },
        None => pair,
    }
}

/// A query string with the values of sensitive keys hidden.
pub open spec fn redact_query(query: Seq<char>) -> Seq<char> {
    join(split(query, '&').map_values(|p: Seq<char>| query_pair_entry(p)), "&"@)
}

/// A URL as a log shows it: the query (between `'?'` and `'#'`) with the values of
/// sensitive keys hidden.
pub open spec fn url_log_text(url: Seq<char>) -> Seq<char> {
    match split_once(url, '?') {
        Some(parts) => match split_once(parts.1, '#') {
            Some(qf) => parts.0 + "?"@ + redact_query(qf.0) + "#"@ + qf.1,
            None => parts.0 + "?"@ + redact_query(parts.1),
        },
        None => url,
    }
}

fn redact_query_text(query: &[char]) -> (r: Vec<char>)
    ensures
        r@ == redact_query(query@),
{
    let pieces = split_all(query, '&');
    let ghost pv = split(query@, '&');
    let ghost entries = pv.map_values(|p: Seq<char>| query_pair_entry(p));
    let list = query_keys_list();
    let eq = chars_of("=");
    let stars = chars_of("***");
    let mut out: Vec<Vec<char>> = Vec::new();
    let mut i: usize = 0;
    while i < pieces.len()
        invariant
            i <= pieces@.len(),
            pieces@.len() == pv.len(),
            forall|k: int| 0 <= k < pieces@.len() ==> #[trigger] pieces@[k]@ == pv[k],
            entries == pv.map_values(|p: Seq<char>| query_pair_entry(p)),
            list@ == sensitive_query_keys(),
            eq@ == "="@,
            stars@ == masked(),
            out@.len() == i,
            forall|t: int| 0 <= t < i ==> #[trigger] out@[t]@ == entries[t],
        decreases pieces@.len() - i,
    {
        let piece = &pieces[i];
        assert(piece@ == pv[i as int]);
        let entry = match split_once_at(piece.as_slice(), '=') {
            Some(kv) => {
                let lowered = lowercase(kv.0.as_slice());
                if in_list(lowered.as_slice(), list.as_slice()) {
                    let head = concat(kv.0.as_slice(), eq.as_slice());
                    concat(head.as_slice(), stars.as_slice())
                } else {
                    to_vec(piece.as_slice())
                }
            },
            None => to_vec(piece.as_slice()),
        };
        out.push(entry);
        i += 1;
    }
    assert(texts_view(out@) =~= entries);
    let amp = chars_of("&");
    join_texts(&out, amp.as_slice())
}

/// The URL of a request as a log line shows it, with the values of credential query
/// parameters hidden.
pub fn redact_url_for_log(url: &str) -> (r: String)
    ensures
        r@ == url_log_text(url@),
{
    let chars = chars_of(url);
    match split_once_at(chars.as_slice(), '?') {
        Some(parts) => {
            let q = chars_of("?");
            let base = concat(parts.0.as_slice(), q.as_slice());
            match split_once_at(parts.1.as_slice(), '#') {
                Some(qf) => {
                    let red = redact_query_text(qf.0.as_slice());
                    let a = concat(base.as_slice(), red.as_slice());
                    let b = concat(a.as_slice(), chars_of("#").as_slice());
                    let c = concat(b.as_slice(), qf.1.as_slice());
                    string_from(c.as_slice())
                },
                None => {
                    let red = redact_query_text(parts.1.as_slice());
                    let a = concat(base.as_slice(), red.as_slice());
                    string_from(a.as_slice())
                },
            }
        },
        None => url.to_owned(),
    }
}

} // verus!

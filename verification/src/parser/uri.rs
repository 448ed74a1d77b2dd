//! The parts of a parsed URL that the URI parsers read, and lookups in its query.
use vstd::prelude::*;

use crate::parser::common::{decode_percent_chars, opt_chars, percent_decoded, port_of, parse_port};
use crate::parser::ini::{comma_fields, split_fields};
use crate::redaction::literal_texts;
use crate::text::{chars_of, eq_ignore_case, same_ignore_case, texts_view, trim, trimmed};

verus! {

/// What the URI parsers read of a URL that `url::Url::parse` accepted.
#[derive(Debug)]
pub struct UrlParts {
    pub scheme: String,
    pub host: Option<String>,
    /// The explicit port, else the default port of a scheme the `url` crate knows.
    pub port: Option<u16>,
    pub username: String,
    pub password: Option<String>,
    pub fragment: Option<String>,
    /// The `key=value` pairs of the query, form-decoded.
    pub query: Vec<(String, String)>,
}

/// The abstract value of [`UrlParts`].
pub struct UrlView {
    pub scheme: Seq<char>,
    pub host: Option<Seq<char>>,
    pub port: Option<u16>,
    pub username: Seq<char>,
    pub password: Option<Seq<char>>,
    pub fragment: Option<Seq<char>>,
    pub query: Seq<(Seq<char>, Seq<char>)>,
}

impl View for UrlParts {
    type V = UrlView;

    open spec fn view(&self) -> UrlView {
        UrlView {
            scheme: self.scheme@,
            host: self.host.deep_view(),
            port: self.port,
            username: self.username@,
            password: self.password.deep_view(),
            fragment: self.fragment.deep_view(),
            query: self.query.deep_view(),
        }
    }
}

/// What `url::Url::parse` makes of a text: the parts of the URL, or the text of the
/// parse error.
pub uninterp spec fn url_parsed(input: Seq<char>) -> Result<UrlView, Seq<char>>;

/// The view of a parse outcome.
pub open spec fn parsed_view(r: Result<UrlParts, String>) -> Result<UrlView, Seq<char>> {
    match r {
        Ok(p) => Ok(p@),
        Err(e) => Err(e@),
    }
}

/// Parses a URL with `url::Url::parse` and reads its scheme, `host_str`,
/// `port_or_known_default`, username, password, fragment and `query_pairs`; an error
/// becomes its `Display` text. What comes back is named by [`url_parsed`].
#[verifier::external_body]
pub(crate) fn parse_url(input: &str) -> (r: Result<UrlParts, String>)
    ensures
        parsed_view(r) == url_parsed(input@),
{
    match url::Url::parse(input) {
        Ok(url) => Ok(UrlParts {
            scheme: url.scheme().to_string(),
            host: url.host_str().map(str::to_string),
            port: url.port_or_known_default(),
            username: url.username().to_string(),
            password: url.password().map(str::to_string),
            fragment: url.fragment().map(str::to_string),
            query: url.query_pairs().into_owned().collect(),
        }),
        Err(error) => Err(error.to_string()),
    }
}

/// `key` equals one of `keys`, ignoring ASCII case.
pub open spec fn key_in(key: Seq<char>, keys: Seq<Seq<char>>) -> bool {
    exists|i: int| 0 <= i < keys.len() && eq_ignore_case(key, #[trigger] keys[i])
}

/// Whether `key` equals one of `keys`, ignoring ASCII case.
pub fn key_listed(key: &[char], keys: &[&str]) -> (r: bool)
    ensures
        r == key_in(key@, literal_texts(keys@)),
{
    let ghost kt = literal_texts(keys@);
    let mut i: usize = 0;
    while i < keys.len()
        invariant
            i <= keys@.len(),
            kt == literal_texts(keys@),
            forall|t: int| 0 <= t < i ==> !eq_ignore_case(key@, #[trigger] kt[t]),
        decreases keys@.len() - i,
    {
        let item = chars_of(keys[i]);
        if same_ignore_case(key, item.as_slice()) {
            assert(kt[i as int] == keys@[i as int]@);
            return true;
        }
        assert(kt[i as int] == keys@[i as int]@);
        i += 1;
    }
    false
}

/// The raw value of the first pair whose key is one of `keys`.
pub open spec fn first_value(pairs: Seq<(Seq<char>, Seq<char>)>, keys: Seq<Seq<char>>) -> Option<
    Seq<char>,
>
    decreases pairs.len(),
{
    if pairs.len() == 0 {
        None
    } else if key_in(pairs[0].0, keys) {
        Some(pairs[0].1)
    } else {
        first_value(pairs.drop_first(), keys)
    }
}

/// The value found is that of the first pair whose key is listed.
pub proof fn lemma_first_value_at(pairs: Seq<(Seq<char>, Seq<char>)>, keys: Seq<Seq<char>>, k: int)
    requires
        0 <= k < pairs.len(),
        key_in(pairs[k].0, keys),
        forall|j: int| 0 <= j < k ==> !key_in(#[trigger] pairs[j].0, keys),
    ensures
        first_value(pairs, keys) == Some(pairs[k].1),
    decreases k,
{
    if k > 0 {
        let rest = pairs.drop_first();
        assert(!key_in(pairs[0].0, keys));
        assert forall|j: int| 0 <= j < k - 1 implies !key_in(#[trigger] rest[j].0, keys) by {
            assert(rest[j] == pairs[j + 1]);
        }
        assert(rest[k - 1] == pairs[k]);
        lemma_first_value_at(rest, keys, k - 1);
    }
}

/// The value of the first pair whose key is one of `keys`, trimmed and percent-decoded;
/// nothing when that comes out empty.
pub open spec fn query_text(pairs: Seq<(Seq<char>, Seq<char>)>, keys: Seq<Seq<char>>) -> Option<
    Seq<char>,
> {
    match first_value(pairs, keys) {
        Some(v) => if percent_decoded(trim(v)).len() > 0 {
            Some(percent_decoded(trim(v)))
        } else {
            None
        },
        None => None,
    }
}

/// The comma-separated values of all pairs whose key is one of `keys`, each pair's value
/// trimmed and percent-decoded first, in the order of the pairs.
pub open spec fn query_values(pairs: Seq<(Seq<char>, Seq<char>)>, keys: Seq<Seq<char>>) -> Seq<
    Seq<char>,
>
    decreases pairs.len(),
{
    if pairs.len() == 0 {
        Seq::empty()
    } else if key_in(pairs.last().0, keys) {
        query_values(pairs.drop_last(), keys) + comma_fields(percent_decoded(trim(pairs.last().1)))
    } else {
        query_values(pairs.drop_last(), keys)
    }
}

/// The number `query_text` gives, when it reads as a `u16`.
pub open spec fn query_number(pairs: Seq<(Seq<char>, Seq<char>)>, keys: Seq<Seq<char>>) -> Option<
    u16,
> {
    match query_text(pairs, keys) {
        Some(v) => match port_of(v) {
            Ok(n) => Some(n),
            Err(_) => None,
        },
        None => None,
    }
}

/// The value of the first pair whose key is one of `keys` (see [`query_text`]).
pub fn query_value(pairs: &Vec<(String, String)>, keys: &[&str]) -> (r: Option<Vec<char>>)
    ensures
        opt_chars(r) == query_text(pairs.deep_view(), literal_texts(keys@)),
{
    let ghost pv = pairs.deep_view();
    let ghost kt = literal_texts(keys@);
    let mut i: usize = 0;
    assert(pv.skip(0) =~= pv);
    while i < pairs.len()
        invariant
            i <= pairs@.len(),
            pv == pairs.deep_view(),
            kt == literal_texts(keys@),
            first_value(pv, kt) == first_value(pv.skip(i as int), kt),
        decreases pairs@.len() - i,
    {
        let key = chars_of(pairs[i].0.as_str());
        assert(pv.skip(i as int)[0] == pv[i as int]);
        assert(pv.skip(i as int).drop_first() =~= pv.skip(i + 1));
        if key_listed(key.as_slice(), keys) {
            let raw = chars_of(pairs[i].1.as_str());
            let t = trimmed(raw.as_slice());
            let decoded = decode_percent_chars(t.as_slice());
            if decoded.len() > 0 {
                return Some(decoded);
            } else {
                return None;
            }
        }
        i += 1;
    }
    None
}

/// The values of all pairs whose key is one of `keys` (see [`query_values`]).
pub fn query_multi_values(pairs: &Vec<(String, String)>, keys: &[&str]) -> (r: Vec<Vec<char>>)
    ensures
        texts_view(r@) == query_values(pairs.deep_view(), literal_texts(keys@)),
{
    let ghost pv = pairs.deep_view();
    let ghost kt = literal_texts(keys@);
    let mut values: Vec<Vec<char>> = Vec::new();
    let mut i: usize = 0;
    assert(pv.take(0) =~= Seq::<(Seq<char>, Seq<char>)>::empty());
    assert(texts_view(values@) =~= Seq::<Seq<char>>::empty());
    while i < pairs.len()
        invariant
            i <= pairs@.len(),
            pv == pairs.deep_view(),
            kt == literal_texts(keys@),
            texts_view(values@) == query_values(pv.take(i as int), kt),
        decreases pairs@.len() - i,
    {
        proof {
            assert(pv.take(i + 1).drop_last() =~= pv.take(i as int));
            assert(pv.take(i + 1).last() == pv[i as int]);
        }
        let key = chars_of(pairs[i].0.as_str());
        if key_listed(key.as_slice(), keys) {
            let raw = chars_of(pairs[i].1.as_str());
            let t = trimmed(raw.as_slice());
            let decoded = decode_percent_chars(t.as_slice());
            let parts = split_fields(decoded.as_slice());
            let ghost before = texts_view(values@);
            let mut j: usize = 0;
            while j < parts.len()
                invariant
                    j <= parts@.len(),
                    texts_view(values@) == before + texts_view(parts@).take(j as int),
                decreases parts@.len() - j,
            {
                let piece = crate::text::to_vec(parts[j].as_slice());
                let ghost prev = values@;
                values.push(piece);
                proof {
                    assert(texts_view(values@) =~= texts_view(prev).push(parts@[j as int]@));
                    assert(texts_view(parts@).take(j + 1) =~= texts_view(parts@).take(
                        j as int,
                    ).push(parts@[j as int]@));
                }
                j += 1;
                assert(texts_view(values@) =~= before + texts_view(parts@).take(j as int));
            }
            assert(texts_view(parts@).take(parts@.len() as int) =~= texts_view(parts@));
        }
        i += 1;
    }
    assert(pv.take(pairs@.len() as int) =~= pv);
    values
}

/// The value of the first pair whose key is one of `keys`, read as a `u16` (see
/// [`query_number`]).
pub fn query_u16(pairs: &Vec<(String, String)>, keys: &[&str]) -> (r: Option<u16>)
    ensures
        r == query_number(pairs.deep_view(), literal_texts(keys@)),
{
    match query_value(pairs, keys) {
        Some(v) => match parse_port(v.as_slice()) {
            Ok(n) => Some(n),
            Err(_) => None,
        },
        None => None,
    }
}

} // verus!

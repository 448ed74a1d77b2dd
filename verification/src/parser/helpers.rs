//! Helpers of the non-URI parsers: protocol names, required settings and key lookup.
use vstd::prelude::*;

use crate::error::{CoreError, ErrorKind, parse_error};
use crate::model::{ExtraMap, ExtraValue, ExtraView, ProxyProtocol};
use crate::parser::common::{opt_chars, parse_failure};
use crate::redaction::literal_texts;
use crate::text::{
    ascii_lower, chars_of, concat, lowercase, same_str, same_text, string_from, trim, trimmed,
};

verus! {

/// The protocol a proxy type names.
pub open spec fn protocol_of(raw: Seq<char>) -> Option<ProxyProtocol> {
    if raw == "ss"@ || raw == "shadowsocks"@ {
        Some(ProxyProtocol::Ss)
    } else if raw == "ssr"@ || raw == "shadowsocksr"@ {
        Some(ProxyProtocol::Ssr)
    } else if raw == "vmess"@ {
        Some(ProxyProtocol::Vmess)
    } else if raw == "vless"@ {
        Some(ProxyProtocol::Vless)
    } else if raw == "trojan"@ {
        Some(ProxyProtocol::Trojan)
    } else {
        None
    }
}

/// The protocol a proxy type names, or an error naming the unsupported type.
pub fn map_protocol(raw: &[char]) -> (r: Result<ProxyProtocol, CoreError>)
    ensures
        match r {
            Ok(p) => protocol_of(raw@) == Some(p),
            Err(e) => protocol_of(raw@) is None && e@ == parse_error("不支持的协议："@ + raw@),
        },
{
    if same_str(raw, "ss") || same_str(raw, "shadowsocks") {
        Ok(ProxyProtocol::Ss)
    } else if same_str(raw, "ssr") || same_str(raw, "shadowsocksr") {
        Ok(ProxyProtocol::Ssr)
    } else if same_str(raw, "vmess") {
        Ok(ProxyProtocol::Vmess)
    } else if same_str(raw, "vless") {
        Ok(ProxyProtocol::Vless)
    } else if same_str(raw, "trojan") {
        Ok(ProxyProtocol::Trojan)
    } else {
        Err(parse_failure("不支持的协议：", raw))
    }
}

/// The settings a node of `protocol` must carry.
pub open spec fn required_keys(protocol: ProxyProtocol) -> Seq<&'static str> {
    match protocol {
        ProxyProtocol::Ss | ProxyProtocol::Ssr => seq!["cipher", "password"],
        ProxyProtocol::Vmess | ProxyProtocol::Vless => seq!["uuid"],
        ProxyProtocol::Trojan => seq!["password"],
        _ => seq![],
    }
}

/// The first of `keys` that `m` lacks.
pub open spec fn first_missing(keys: Seq<Seq<char>>, m: Map<Seq<char>, ExtraView>) -> Option<
    Seq<char>,
>
    decreases keys.len(),
{
    if keys.len() == 0 {
        None
    } else if !m.contains_key(keys[0]) {
        Some(keys[0])
    } else {
        first_missing(keys.drop_first(), m)
    }
}

/// The error of a node that lacks a required setting.
pub open spec fn missing_field_error(key: Seq<char>, node_name: Seq<char>) -> (ErrorKind, Seq<char>) {
    parse_error("节点缺少必要字段："@ + key + " ("@ + node_name + ")"@)
}

/// Whether a node carries the settings its protocol requires.
pub open spec fn required_check(protocol: ProxyProtocol, m: Map<Seq<char>, ExtraView>, node_name: Seq<char>) -> Result<(), (ErrorKind, Seq<char>)> {
    match first_missing(literal_texts(required_keys(protocol)), m) {
        Some(k) => Err(missing_field_error(k, node_name)),
        None => Ok(()),
    }
}

fn required_list(protocol: ProxyProtocol) -> (r: Vec<&'static str>)
    ensures
        r@ == required_keys(protocol),
{
    let v: Vec<&'static str> = match protocol {
        ProxyProtocol::Ss | ProxyProtocol::Ssr => vec!["cipher", "password"],
        ProxyProtocol::Vmess | ProxyProtocol::Vless => vec!["uuid"],
        ProxyProtocol::Trojan => vec!["password"],
        _ => Vec::new(),
    };
    assert(v@ =~= required_keys(protocol));
    v
}

/// Checks that a node carries the settings its protocol requires.
pub fn validate_required(protocol: ProxyProtocol, extra: &ExtraMap, node_name: &[char]) -> (r:
    Result<(), CoreError>)
    ensures
        match r {
            Ok(()) => required_check(protocol, extra@, node_name@) == Ok::<(), (ErrorKind, Seq<char>)>(()),
            Err(e) => required_check(protocol, extra@, node_name@) == Err::<(), (ErrorKind, Seq<char>)>(e@),
        },
{
    let keys = required_list(protocol);
    let ghost kt = literal_texts(keys@);
    let mut i: usize = 0;
    assert(kt.skip(0) =~= kt);
    while i < keys.len()
        invariant
            i <= keys@.len(),
            kt == literal_texts(keys@),
            keys@ == required_keys(protocol),
            first_missing(kt, extra@) == first_missing(kt.skip(i as int), extra@),
        decreases keys@.len() - i,
    {
        proof {
            assert(kt.skip(i as int)[0] == keys@[i as int]@);
            assert(kt.skip(i as int).drop_first() =~= kt.skip(i + 1));
        }
        if !extra.contains_key(keys[i]) {
            let key = chars_of(keys[i]);
            let a = concat(key.as_slice(), chars_of(" (").as_slice());
            let b = concat(a.as_slice(), node_name);
            let c = concat(b.as_slice(), chars_of(")").as_slice());
            proof {
                assert(c@ =~= key@ + " ("@ + node_name@ + ")"@);
                assert("节点缺少必要字段："@ + c@ =~= "节点缺少必要字段："@ + key@ + " ("@ + node_name@
                    + ")"@);
                assert(first_missing(kt.skip(i as int), extra@) == Some(key@));
            }
            return Err(parse_failure("节点缺少必要字段：", c.as_slice()));
        }
        i += 1;
    }
    Ok(())
}

/// A boolean spelled as `1`, `true`, `yes` or `tls` (trimmed, ASCII case ignored);
/// anything else is false.
pub open spec fn bool_like(raw: Seq<char>) -> bool {
    let v = ascii_lower(trim(raw));
    v == "1"@ || v == "true"@ || v == "yes"@ || v == "tls"@
}

/// Reads a boolean-like setting.
pub fn parse_bool_like(raw: &[char]) -> (r: bool)
    ensures
        r == bool_like(raw@),
{
    let t = trimmed(raw);
    let v = lowercase(t.as_slice());
    same_str(v.as_slice(), "1") || same_str(v.as_slice(), "true") || same_str(v.as_slice(), "yes")
        || same_str(v.as_slice(), "tls")
}

/// `m` with `key` set to the text `value` when there is one.
pub open spec fn insert_opt(m: Map<Seq<char>, ExtraView>, key: Seq<char>, value: Option<Seq<char>>) -> Map<Seq<char>, ExtraView> {
    match value {
        Some(v) => m.insert(key, ExtraView::Text(v)),
        None => m,
    }
}

/// Sets `key` to the text `value` when there is one.
pub fn insert_optional_string(extra: &mut ExtraMap, key: &str, value: Option<Vec<char>>)
    ensures
        final(extra)@ == insert_opt(old(extra)@, key@, opt_chars(value)),
{
    match value {
        Some(v) => {
            extra.insert(key.to_owned(), ExtraValue::Text(string_from(v.as_slice())));
        },
        None => {},
    }
}

// ------------------------------------------------------------------
// Key-value settings of a text line
// ------------------------------------------------------------------

/// The map that text entries denote: a later entry for a key replaces an earlier one.
pub open spec fn kv_map(s: Seq<(Vec<char>, Vec<char>)>) -> Map<Seq<char>, Seq<char>>
    decreases s.len(),
{
    if s.len() == 0 {
        Map::empty()
    } else {
        kv_map(s.drop_last()).insert(s.last().0@, s.last().1@)
    }
}

/// Textual settings keyed by name.
pub struct KvMap {
    pub entries: Vec<(Vec<char>, Vec<char>)>,
}

impl View for KvMap {
    type V = Map<Seq<char>, Seq<char>>;

    open spec fn view(&self) -> Map<Seq<char>, Seq<char>> {
        kv_map(self.entries@)
    }
}

pub proof fn lemma_kv_map_has(s: Seq<(Vec<char>, Vec<char>)>, k: Seq<char>, j: int)
    requires
        0 <= j < s.len(),
        s[j].0@ == k,
        forall|t: int| j < t < s.len() ==> s[t].0@ != k,
    ensures
        kv_map(s).contains_key(k),
        kv_map(s)[k] == s[j].1@,
    decreases s.len(),
{
    if j < s.len() - 1 {
        lemma_kv_map_has(s.drop_last(), k, j);
    }
}

pub proof fn lemma_kv_map_lacks(s: Seq<(Vec<char>, Vec<char>)>, k: Seq<char>)
    requires
        forall|t: int| 0 <= t < s.len() ==> s[t].0@ != k,
    ensures
        !kv_map(s).contains_key(k),
    decreases s.len(),
{
    if s.len() > 0 {
        lemma_kv_map_lacks(s.drop_last(), k);
    }
}

impl KvMap {
    /// An empty map.
    pub fn new() -> (r: KvMap)
        ensures
            r@ == Map::<Seq<char>, Seq<char>>::empty(),
    {
        KvMap { entries: Vec::new() }
    }

    /// Sets `key` to `value`.
    pub fn insert(&mut self, key: Vec<char>, value: Vec<char>)
        ensures
            final(self)@ == old(self)@.insert(key@, value@),
    {
        let ghost s0 = self.entries@;
        self.entries.push((key, value));
        assert(self.entries@.drop_last() =~= s0);
    }

    /// The value of `key`, if any.
    pub fn get(&self, key: &[char]) -> (r: Option<Vec<char>>)
        ensures
            match r {
                Some(v) => self@.contains_key(key@) && self@[key@] == v@,
                None => !self@.contains_key(key@),
            },
    {
        let mut i: usize = self.entries.len();
        while i > 0
            invariant
                i <= self.entries@.len(),
                forall|t: int| i <= t < self.entries@.len() ==> self.entries@[t].0@ != key@,
            decreases i,
        {
            if same_text(self.entries[i - 1].0.as_slice(), key) {
                proof {
                    lemma_kv_map_has(self.entries@, key@, i - 1);
                }
                return Some(crate::text::to_vec(self.entries[i - 1].1.as_slice()));
            }
            i -= 1;
        }
        proof {
            lemma_kv_map_lacks(self.entries@, key@);
        }
        None
    }

    /// Removes `key`.
    pub fn remove(&mut self, key: &[char])
        ensures
            final(self)@ == old(self)@.remove(key@),
    {
        let ghost s = self.entries@;
        let mut kept: Vec<(Vec<char>, Vec<char>)> = Vec::new();
        let mut i: usize = 0;
        while i < self.entries.len()
            invariant
                i <= self.entries@.len(),
                self.entries@ == s,
                kv_map(kept@) == kv_map(s.take(i as int)).remove(key@),
            decreases self.entries@.len() - i,
        {
            proof {
                assert(s.take(i + 1).drop_last() =~= s.take(i as int));
                assert(s.take(i + 1).last() == s[i as int]);
            }
            if !same_text(self.entries[i].0.as_slice(), key) {
                let e = (
                    crate::text::to_vec(self.entries[i].0.as_slice()),
                    crate::text::to_vec(self.entries[i].1.as_slice()),
                );
                let ghost kold = kept@;
                kept.push(e);
                proof {
                    assert(kept@.drop_last() =~= kold);
                    assert(kv_map(kept@) =~= kv_map(s.take(i + 1)).remove(key@));
                }
            } else {
                assert(kv_map(kept@) =~= kv_map(s.take(i + 1)).remove(key@));
            }
            i += 1;
        }
        assert(s.take(s.len() as int) =~= s);
        self.entries = kept;
    }
}

/// Taking a setting only removes settings: what is left was there before, and when none
/// of the keys is present nothing is taken.
pub proof fn lemma_take_first_sub(m: Map<Seq<char>, Seq<char>>, keys: Seq<Seq<char>>)
    ensures
        forall|k: Seq<char>| #[trigger] take_first(m, keys).1.contains_key(k) ==> m.contains_key(k),
        (forall|i: int| 0 <= i < keys.len() ==> !m.contains_key(#[trigger] keys[i])) ==> take_first(
            m,
            keys,
        ).0 is None,
    decreases keys.len(),
{
    if keys.len() > 0 && !m.contains_key(keys[0]) {
        lemma_take_first_sub(m, keys.drop_first());
        if forall|i: int| 0 <= i < keys.len() ==> !m.contains_key(#[trigger] keys[i]) {
            assert forall|i: int| 0 <= i < keys.drop_first().len() implies !m.contains_key(
                #[trigger] keys.drop_first()[i],
            ) by {
                assert(keys.drop_first()[i] == keys[i + 1]);
            }
        }
    }
}

/// Takes the value of the first of `keys` that is present, removing that key.
pub open spec fn take_first(m: Map<Seq<char>, Seq<char>>, keys: Seq<Seq<char>>) -> (
    Option<Seq<char>>,
    Map<Seq<char>, Seq<char>>,
)
    decreases keys.len(),
{
    if keys.len() == 0 {
        (None, m)
    } else if m.contains_key(keys[0]) {
        (Some(m[keys[0]]), m.remove(keys[0]))
    } else {
        take_first(m, keys.drop_first())
    }
}

/// Takes the value of the first of `keys` that is present, removing that key.
pub fn take_any(kv: &mut KvMap, keys: &[&str]) -> (r: Option<Vec<char>>)
    ensures
        (opt_chars(r), final(kv)@) == take_first(old(kv)@, literal_texts(keys@)),
{
    let ghost kt = literal_texts(keys@);
    let mut i: usize = 0;
    assert(kt.skip(0) =~= kt);
    while i < keys.len()
        invariant
            i <= keys@.len(),
            kt == literal_texts(keys@),
            kv@ == old(kv)@,
            take_first(kv@, kt) == take_first(kv@, kt.skip(i as int)),
        decreases keys@.len() - i,
    {
        proof {
            assert(kt.skip(i as int)[0] == keys@[i as int]@);
            assert(kt.skip(i as int).drop_first() =~= kt.skip(i + 1));
        }
        let key = chars_of(keys[i]);
        match kv.get(key.as_slice()) {
            Some(v) => {
                kv.remove(key.as_slice());
                return Some(v);
            },
            None => {},
        }
        i += 1;
    }
    None
}

} // verus!

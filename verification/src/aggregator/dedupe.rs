//! Identity of nodes across sources and de-duplication.
use vstd::prelude::*;

use crate::aggregator::types::{SourceNodes, SourceView, sources_view};
use crate::model::{
    ExtraMap, ExtraValue, ExtraView, NodeView, ProxyNode, ProxyProtocol, ProxyTransport, TlsConfig,
    TlsView, nodes_view,
};
use crate::parser::common::hex_digit;
use crate::text::{
    ascii_lower, chars_of, decimal, lemma_text_le_refl, lemma_text_le_total, lemma_text_le_trans, lowercase,
    same_text, text_le, text_le_exec, trim,
};

verus! {

/// How serde_json writes one character inside a JSON string: `"` and `\` escaped with a
/// backslash, the controls that have a short escape as `\b`, `\f`, `\n`, `\r`,
/// `\t`, the other characters below U+0020 as `\u00` and two lowercase hex digits,
/// everything else as it is.
pub open spec fn json_escape(c: char) -> Seq<char> {
    if c == '"' {
        seq!['\\', '"']
    } else if c == '\\' {
        seq!['\\', '\\']
    } else if c == '\u{8}' {
        seq!['\\', 'b']
    } else if c == '\u{c}' {
        seq!['\\', 'f']
    } else if c == '\n' {
        seq!['\\', 'n']
    } else if c == '\r' {
        seq!['\\', 'r']
    } else if c == '\t' {
        seq!['\\', 't']
    } else if (c as u32) < 0x20 {
        seq!['\\', 'u', '0', '0', hex_digit((c as u32 / 16) as nat), hex_digit((c as u32 % 16) as nat)]
    } else {
        seq![c]
    }
}

/// The characters of a text, each as [`json_escape`] writes it.
pub open spec fn json_escaped(s: Seq<char>) -> Seq<char>
    decreases s.len(),
{
    if s.len() == 0 {
        Seq::empty()
    } else {
        json_escaped(s.drop_last()) + json_escape(s.last())
    }
}

/// A text as a JSON string.
pub open spec fn json_string(s: Seq<char>) -> Seq<char> {
    seq!['"'] + json_escaped(s) + seq!['"']
}

/// Texts as JSON strings, separated by commas.
pub open spec fn json_items(items: Seq<Seq<char>>) -> Seq<char>
    decreases items.len(),
{
    if items.len() == 0 {
        Seq::empty()
    } else if items.len() == 1 {
        json_string(items[0])
    } else {
        json_items(items.drop_last()) + seq![','] + json_string(items.last())
    }
}

/// The compact JSON text of a setting value, as serde_json's `Display for Value` writes it:
/// a text as a JSON string, a number in decimal, a flag as `true` or `false`, a list as
/// its texts in brackets, separated by commas.
pub open spec fn json_text(v: ExtraView) -> Seq<char> {
    match v {
        ExtraView::Text(s) => json_string(s),
        ExtraView::Number(n) => decimal(n as nat),
        ExtraView::Flag(b) => if b {
            "true"@
        } else {
            "false"@
        },
        ExtraView::List(items) => seq!['['] + json_items(items) + seq![']'],
    }
}

/// Converts the value to a `serde_json::Value` and formats it with `Display`
/// (`Value::to_string`), which writes the compact JSON text of [`json_text`]: strings
/// escaped by serde_json's escape table (`ser.rs`, `ESCAPE` and `write_char_escape`),
/// numbers by `itoa`, arrays with `,` between the items and no spaces.
#[verifier::external_body]
pub(crate) fn json_text_of(v: &ExtraValue) -> (r: String)
    ensures
        r@ == json_text(v@),
{
    let value = match v {
        ExtraValue::Text(s) => serde_json::Value::String(s.clone()),
        ExtraValue::Number(n) => serde_json::Value::from(*n),
        ExtraValue::Flag(b) => serde_json::Value::Bool(*b),
        ExtraValue::List(items) => serde_json::Value::from(items.clone()),
    };
    value.to_string()
}

/// The text that identifies a credential value: a string as it is, anything else as JSON.
pub open spec fn identity(v: ExtraView) -> Seq<char> {
    match v {
        ExtraView::Text(s) => s,
        _ => json_text(v),
    }
}

/// The credential of a node: its `uuid`, else its `password`, else empty.
pub open spec fn credential(extra: Map<Seq<char>, ExtraView>) -> Seq<char> {
    if extra.contains_key("uuid"@) {
        identity(extra["uuid"@])
    } else if extra.contains_key("password"@) {
        identity(extra["password"@])
    } else {
        Seq::empty()
    }
}

/// What makes two nodes the same endpoint.
pub struct KeyView {
    pub protocol: ProxyProtocol,
    pub server: Seq<char>,
    pub port: u16,
    pub credential: Seq<char>,
    pub transport: ProxyTransport,
    pub tls: TlsView,
    pub rest: Map<Seq<char>, ExtraView>,
}

/// The identity of a node: protocol, server (ASCII case ignored), port, credential,
/// transport, TLS settings and the settings other than the credential.
///
/// The identity is compared field by field. Written as one text,
/// `"{protocol}|{server}|{port}|{credential}|{hash}"` with the transport, TLS and other
/// settings hashed to 64 bits, two different identities could meet: where a `|` inside
/// the server or the credential shifts the boundary between fields (server `x|1`, port 2,
/// credential `c` against server `x`, port 1, credential `2|c`), or where two settings
/// hash alike. Field by field such nodes stay apart.
pub open spec fn key_of(n: NodeView) -> KeyView {
    KeyView {
        protocol: n.protocol,
        server: ascii_lower(n.server),
        port: n.port,
        credential: credential(n.extra),
        transport: n.transport,
        tls: n.tls,
        rest: n.extra.remove("uuid"@).remove("password"@),
    }
}

/// The identity of a node, computed.
pub struct DedupeKey {
    pub protocol: ProxyProtocol,
    pub server: Vec<char>,
    pub port: u16,
    pub credential: String,
    pub transport: ProxyTransport,
    pub tls: TlsConfig,
    pub rest: ExtraMap,
}

impl View for DedupeKey {
    type V = KeyView;

    open spec fn view(&self) -> KeyView {
        KeyView {
            protocol: self.protocol,
            server: self.server@,
            port: self.port,
            credential: self.credential@,
            transport: self.transport,
            tls: self.tls@,
            rest: self.rest@,
        }
    }
}

impl DedupeKey {
    /// Whether two identities are the same.
    pub fn same_as(&self, other: &DedupeKey) -> (r: bool)
        ensures
            r == (self@ == other@),
    {
        self.protocol == other.protocol && self.port == other.port && self.transport
            == other.transport && same_text(self.server.as_slice(), other.server.as_slice())
            && self.credential == other.credential && self.tls.same_as(&other.tls)
            && self.rest.same_as(&other.rest)
    }
}

/// The identifying text of a setting value.
pub fn value_to_identity(v: &ExtraValue) -> (r: String)
    ensures
        r@ == identity(v@),
{
    match v {
        ExtraValue::Text(s) => s.clone(),
        _ => json_text_of(v),
    }
}

/// The credential of a node.
pub fn extract_credential(node: &ProxyNode) -> (r: String)
    ensures
        r@ == credential(node.extra@),
{
    match node.extra.get("uuid") {
        Some(v) => value_to_identity(v),
        None => match node.extra.get("password") {
            Some(v) => value_to_identity(v),
            None => String::new(),
        },
    }
}

/// The identity of a node.
pub fn build_dedupe_key(node: &ProxyNode) -> (k: DedupeKey)
    ensures
        k@ == key_of(node@),
{
    let server_chars = chars_of(node.server.as_str());
    let server = lowercase(server_chars.as_slice());
    let mut rest = node.extra.duplicate();
    rest.remove("uuid");
    rest.remove("password");
    DedupeKey {
        protocol: node.protocol,
        server,
        port: node.port,
        credential: extract_credential(node),
        transport: node.transport,
        tls: node.tls.duplicate(),
        rest,
    }
}

/// A node replaces a kept node with the same identity when it is not older
/// (timestamps are RFC 3339 UTC text, which orders like time).
pub open spec fn replaces(candidate: NodeView, current: NodeView) -> bool {
    text_le(current.updated_at, candidate.updated_at)
}

/// Whether `candidate` replaces `current`.
pub fn should_replace(candidate: &ProxyNode, current: &ProxyNode) -> (r: bool)
    ensures
        r == replaces(candidate@, current@),
{
    let a = chars_of(current.updated_at.as_str());
    let b = chars_of(candidate.updated_at.as_str());
    text_le_exec(a.as_slice(), b.as_slice())
}

/// All nodes of all sources, in order.
pub open spec fn flatten(sources: Seq<SourceView>) -> Seq<NodeView>
    decreases sources.len(),
{
    if sources.len() == 0 {
        Seq::empty()
    } else {
        flatten(sources.drop_last()) + sources.last().nodes
    }
}

/// `d` holds a node with the identity of `n`.
pub open spec fn has_key(d: Seq<NodeView>, n: NodeView) -> bool {
    exists|i: int| 0 <= i < d.len() && key_of(d[i]) == key_of(n)
}

/// The position in `d` of the node with the identity of `n`.
pub open spec fn key_index(d: Seq<NodeView>, n: NodeView) -> int {
    choose|i: int| 0 <= i < d.len() && key_of(d[i]) == key_of(n)
}

/// De-duplication: nodes are taken in order; a node whose identity is already kept
/// replaces the kept node when it is not older, and is dropped otherwise.
pub open spec fn dedupe(nodes: Seq<NodeView>) -> Seq<NodeView>
    decreases nodes.len(),
{
    if nodes.len() == 0 {
        Seq::empty()
    } else {
        let d = dedupe(nodes.drop_last());
        let n = nodes.last();
        if has_key(d, n) {
            let i = key_index(d, n);
            if replaces(n, d[i]) {
                d.update(i, n)
            } else {
                d
            }
        } else {
            d.push(n)
        }
    }
}

/// No two nodes of `d` share an identity.
pub open spec fn distinct_keys(d: Seq<NodeView>) -> bool {
    forall|i: int, j: int| 0 <= i < d.len() && 0 <= j < d.len() && i != j ==> key_of(d[i]) != key_of(d[j])
}

pub proof fn lemma_dedupe_distinct(nodes: Seq<NodeView>)
    ensures
        distinct_keys(dedupe(nodes)),
    decreases nodes.len(),
{
    if nodes.len() > 0 {
        lemma_dedupe_distinct(nodes.drop_last());
        let d = dedupe(nodes.drop_last());
        let n = nodes.last();
        if has_key(d, n) {
            let i = key_index(d, n);
            let r = dedupe(nodes);
            assert forall|a: int, b: int|
                0 <= a < r.len() && 0 <= b < r.len() && a != b implies key_of(r[a]) != key_of(
                r[b],
            ) by {
                assert(key_of(r[a]) == key_of(d[a]));
                assert(key_of(r[b]) == key_of(d[b]));
            }
        } else {
            let r = dedupe(nodes);
            assert forall|a: int, b: int|
                0 <= a < r.len() && 0 <= b < r.len() && a != b implies key_of(r[a]) != key_of(
                r[b],
            ) by {
                if a < d.len() && b < d.len() {
                } else if a == d.len() {
                    assert(key_of(d[b]) != key_of(n));
                } else {
                    assert(key_of(d[a]) != key_of(n));
                }
            }
        }
    }
}

/// In a list of distinct identities, the identity of `n` sits at position `i` only.
pub proof fn lemma_key_index_unique(d: Seq<NodeView>, n: NodeView, i: int)
    requires
        distinct_keys(d),
        0 <= i < d.len(),
        key_of(d[i]) == key_of(n),
    ensures
        has_key(d, n),
        key_index(d, n) == i,
{
    let j = key_index(d, n);
    assert(0 <= j < d.len() && key_of(d[j]) == key_of(n));
}

/// De-duplication keeps, for every identity among the nodes, exactly one node, and that
/// node is one of the nodes given and not older than any node given with its identity.
pub proof fn lemma_dedupe_keeps_latest(nodes: Seq<NodeView>)
    ensures
        ({
            let d = dedupe(nodes);
            &&& distinct_keys(d)
            &&& forall|i: int|
                #![trigger d[i]]
                0 <= i < d.len() ==> exists|j: int| #![trigger nodes[j]] 0 <= j < nodes.len() && d[i] == nodes[j]
            &&& forall|j: int| 0 <= j < nodes.len() ==> #[trigger] has_key(d, nodes[j])
            &&& forall|i: int, j: int|
                0 <= i < d.len() && 0 <= j < nodes.len() && key_of(#[trigger] d[i]) == key_of(
                    #[trigger] nodes[j],
                ) ==> text_le(nodes[j].updated_at, d[i].updated_at)
        }),
    decreases nodes.len(),
{
    lemma_dedupe_distinct(nodes);
    if nodes.len() > 0 {
        let rest = nodes.drop_last();
        lemma_dedupe_keeps_latest(rest);
        lemma_dedupe_distinct(rest);
        let d = dedupe(rest);
        let n = nodes.last();
        let r = dedupe(nodes);
        let last = nodes.len() - 1;
        assert(nodes[last] == n);
        assert forall|j: int| 0 <= j < last implies nodes[j] == rest[j] by {}
        if has_key(d, n) {
            let k = key_index(d, n);
            assert(0 <= k < d.len() && key_of(d[k]) == key_of(n));
            if replaces(n, d[k]) {
                assert(r == d.update(k, n));
                assert forall|i: int| #![trigger r[i]] 0 <= i < r.len() implies exists|j: int|
                    #![trigger nodes[j]]
                    0 <= j < nodes.len() && r[i] == nodes[j] by {
                    if i == k {
                        assert(r[i] == nodes[last]);
                    } else {
                        let j = choose|j: int| #![trigger rest[j]] 0 <= j < rest.len() && d[i] == rest[j];
                        assert(r[i] == nodes[j]);
                    }
                }
                assert forall|j: int| 0 <= j < nodes.len() implies #[trigger] has_key(r, nodes[j]) by {
                    if j == last {
                        assert(key_of(r[k]) == key_of(nodes[j]));
                    } else {
                        assert(has_key(d, rest[j]));
                        let a = choose|a: int| 0 <= a < d.len() && key_of(d[a]) == key_of(rest[j]);
                        if a == k {
                            assert(key_of(r[k]) == key_of(nodes[j]));
                        } else {
                            assert(key_of(r[a]) == key_of(nodes[j]));
                        }
                    }
                }
                assert forall|i: int, j: int|
                    0 <= i < r.len() && 0 <= j < nodes.len() && key_of(#[trigger] r[i]) == key_of(
                        #[trigger] nodes[j],
                    ) implies text_le(nodes[j].updated_at, r[i].updated_at) by {
                    if i == k {
                        if j == last {
                            lemma_text_le_refl(n.updated_at);
                        } else {
                            assert(key_of(d[k]) == key_of(rest[j]));
                            assert(text_le(rest[j].updated_at, d[k].updated_at));
                            lemma_text_le_trans(rest[j].updated_at, d[k].updated_at, n.updated_at);
                        }
                    } else {
                        assert(r[i] == d[i]);
                        if j == last {
                            assert(key_of(d[i]) == key_of(d[k]));
                        } else {
                            assert(key_of(d[i]) == key_of(rest[j]));
                        }
                    }
                }
            } else {
                assert(r == d);
                assert forall|i: int| #![trigger r[i]] 0 <= i < r.len() implies exists|j: int|
                    #![trigger nodes[j]]
                    0 <= j < nodes.len() && r[i] == nodes[j] by {
                    let j = choose|j: int| #![trigger rest[j]] 0 <= j < rest.len() && d[i] == rest[j];
                    assert(r[i] == nodes[j]);
                }
                assert forall|j: int| 0 <= j < nodes.len() implies #[trigger] has_key(r, nodes[j]) by {
                    if j == last {
                        assert(key_of(r[k]) == key_of(nodes[j]));
                    } else {
                        assert(has_key(d, rest[j]));
                        let a = choose|a: int| 0 <= a < d.len() && key_of(d[a]) == key_of(rest[j]);
                        assert(key_of(r[a]) == key_of(nodes[j]));
                    }
                }
                assert forall|i: int, j: int|
                    0 <= i < r.len() && 0 <= j < nodes.len() && key_of(#[trigger] r[i]) == key_of(
                        #[trigger] nodes[j],
                    ) implies text_le(nodes[j].updated_at, r[i].updated_at) by {
                    if j == last {
                        assert(key_of(d[i]) == key_of(d[k]));
                        lemma_text_le_total(d[k].updated_at, n.updated_at);
                    } else {
                        assert(key_of(d[i]) == key_of(rest[j]));
                    }
                }
            }
        } else {
            assert(r == d.push(n));
            assert forall|i: int| #![trigger r[i]] 0 <= i < r.len() implies exists|j: int|
                #![trigger nodes[j]]
                0 <= j < nodes.len() && r[i] == nodes[j] by {
                if i == d.len() {
                    assert(r[i] == nodes[last]);
                } else {
                    let j = choose|j: int| #![trigger rest[j]] 0 <= j < rest.len() && d[i] == rest[j];
                    assert(r[i] == nodes[j]);
                }
            }
            assert forall|j: int| 0 <= j < nodes.len() implies #[trigger] has_key(r, nodes[j]) by {
                if j == last {
                    assert(key_of(r[d.len() as int]) == key_of(nodes[j]));
                } else {
                    assert(has_key(d, rest[j]));
                    let a = choose|a: int| 0 <= a < d.len() && key_of(d[a]) == key_of(rest[j]);
                    assert(key_of(r[a]) == key_of(nodes[j]));
                }
            }
            assert forall|i: int, j: int|
                0 <= i < r.len() && 0 <= j < nodes.len() && key_of(#[trigger] r[i]) == key_of(
                    #[trigger] nodes[j],
                ) implies text_le(nodes[j].updated_at, r[i].updated_at) by {
                if i == d.len() {
                    if j == last {
                        lemma_text_le_refl(n.updated_at);
                    } else {
                        assert(has_key(d, rest[j]));
                        let a = choose|a: int| 0 <= a < d.len() && key_of(d[a]) == key_of(rest[j]);
                        assert(key_of(d[a]) == key_of(n));
                    }
                } else {
                    assert(r[i] == d[i]);
                    if j == last {
                        assert(key_of(d[i]) == key_of(n));
                    } else {
                        assert(key_of(d[i]) == key_of(rest[j]));
                    }
                }
            }
        }
    }
}

/// Adds one node to the kept nodes, as [`dedupe`] does.
fn absorb(deduped: &mut Vec<ProxyNode>, keys: &mut Vec<DedupeKey>, node: &ProxyNode)
    requires
        old(keys)@.len() == old(deduped)@.len(),
        forall|i: int| 0 <= i < old(keys)@.len() ==> #[trigger] old(keys)@[i]@ == key_of(old(deduped)@[i]@),
        distinct_keys(nodes_view(old(deduped)@)),
    ensures
        final(keys)@.len() == final(deduped)@.len(),
        forall|i: int| 0 <= i < final(keys)@.len() ==> #[trigger] final(keys)@[i]@ == key_of(final(deduped)@[i]@),
        nodes_view(final(deduped)@) == ({
            let d = nodes_view(old(deduped)@);
            let n = node@;
            if has_key(d, n) {
                let i = key_index(d, n);
                if replaces(n, d[i]) {
                    d.update(i, n)
                } else {
                    d
                }
            } else {
                d.push(n)
            }
        }),
{
    let ghost d = nodes_view(deduped@);
    let key = build_dedupe_key(node);
    let mut i: usize = 0;
    while i < keys.len()
        invariant
            i <= keys@.len(),
            keys@.len() == deduped@.len(),
            d == nodes_view(deduped@),
            d == nodes_view(old(deduped)@),
            distinct_keys(d),
            forall|t: int| 0 <= t < keys@.len() ==> #[trigger] keys@[t]@ == key_of(deduped@[t]@),
            forall|t: int| 0 <= t < i ==> key_of(#[trigger] d[t]) != key_of(node@),
            key@ == key_of(node@),
        decreases keys@.len() - i,
    {
        if keys[i].same_as(&key) {
            proof {
                assert(d[i as int] == deduped@[i as int]@);
                lemma_key_index_unique(d, node@, i as int);
            }
            if should_replace(node, &deduped[i]) {
                let copy = node.duplicate();
                deduped.set(i, copy);
                let k2 = build_dedupe_key(node);
                keys.set(i, k2);
                assert(nodes_view(deduped@) =~= d.update(i as int, node@));
            }
            return;
        }
        i += 1;
    }
    proof {
        assert forall|t: int| 0 <= t < d.len() implies key_of(d[t]) != key_of(node@) by {
            assert(key_of(#[trigger] d[t]) != key_of(node@));
        }
        assert(!has_key(d, node@));
    }
    deduped.push(node.duplicate());
    keys.push(key);
    assert(nodes_view(deduped@) =~= d.push(node@));
}

/// The kept nodes of all sources.
///
/// The keys seen so far are kept in a vector beside the kept nodes, in the same order,
/// and looked up by a scan: a key is text, and for a `HashMap` keyed by text vstd gives
/// no specification that a lookup could be proved against. The order of the vector is
/// what makes "the first kept node of a key is replaced in place" a statement at all.
pub fn dedupe_nodes(sources: &[SourceNodes]) -> (r: Vec<ProxyNode>)
    ensures
        nodes_view(r@) == dedupe(flatten(sources_view(sources@))),
{
    let ghost sv = sources_view(sources@);
    let mut deduped: Vec<ProxyNode> = Vec::new();
    let mut keys: Vec<DedupeKey> = Vec::new();
    let mut s: usize = 0;
    assert(nodes_view(deduped@) =~= Seq::<NodeView>::empty());
    assert(sv.take(0) =~= Seq::<SourceView>::empty());
    while s < sources.len()
        invariant
            s <= sources@.len(),
            sv == sources_view(sources@),
            keys@.len() == deduped@.len(),
            forall|t: int| 0 <= t < keys@.len() ==> #[trigger] keys@[t]@ == key_of(deduped@[t]@),
            nodes_view(deduped@) == dedupe(flatten(sv.take(s as int))),
        decreases sources@.len() - s,
    {
        let src = &sources[s];
        let ghost base = flatten(sv.take(s as int));
        let ghost snodes = sv[s as int].nodes;
        assert(snodes == src.nodes@.map_values(|n: ProxyNode| n@));
        let mut k: usize = 0;
        assert(base + snodes.take(0) =~= base);
        while k < src.nodes.len()
            invariant
                k <= src.nodes@.len(),
                snodes == src.nodes@.map_values(|n: ProxyNode| n@),
                keys@.len() == deduped@.len(),
                forall|t: int| 0 <= t < keys@.len() ==> #[trigger] keys@[t]@ == key_of(deduped@[t]@),
                nodes_view(deduped@) == dedupe(base + snodes.take(k as int)),
            decreases src.nodes@.len() - k,
        {
            proof {
                lemma_dedupe_distinct(base + snodes.take(k as int));
            }
            absorb(&mut deduped, &mut keys, &src.nodes[k]);
            proof {
                let p = base + snodes.take(k + 1);
                assert(p.drop_last() =~= base + snodes.take(k as int));
                assert(p.last() == src.nodes@[k as int]@);
            }
            k += 1;
        }
        proof {
            assert(snodes.take(src.nodes@.len() as int) =~= snodes);
            assert(sv.take(s + 1).drop_last() =~= sv.take(s as int));
            assert(sv.take(s + 1).last() == sv[s as int]);
        }
        s += 1;
    }
    assert(sv.take(sources@.len() as int) =~= sv);
    deduped
}

} // verus!

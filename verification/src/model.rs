//! The proxy node model that parsers produce and the aggregator merges.
use vstd::prelude::*;

verus! {

/// The protocol a proxy node speaks.
#[derive(Debug, Clone, Copy, PartialEq, Eq, Hash, Structural)]
pub enum ProxyProtocol {
    Ss,
    Ssr,
    Vmess,
    Vless,
    Trojan,
    Socks5,
    Http,
    WireGuard,
}

/// The transport a proxy node runs over.
#[derive(Debug, Clone, Copy, PartialEq, Eq, Hash, Structural)]
pub enum ProxyTransport {
    Tcp,
    Ws,
    Grpc,
    H2,
    Quic,
}

/// TLS settings of a node.
#[derive(Debug)]
pub struct TlsConfig {
    pub enabled: bool,
    pub server_name: Option<String>,
}

/// The abstract value of [`TlsConfig`].
pub struct TlsView {
    pub enabled: bool,
    pub server_name: Option<Seq<char>>,
}

impl View for TlsConfig {
    type V = TlsView;

    open spec fn view(&self) -> TlsView {
        TlsView { enabled: self.enabled, server_name: self.server_name.deep_view() }
    }
}

/// A protocol-specific setting of a node.
#[derive(Debug)]
pub enum ExtraValue {
    Text(String),
    Number(u64),
    Flag(bool),
    List(Vec<String>),
}

/// The abstract value of [`ExtraValue`].
pub enum ExtraView {
    Text(Seq<char>),
    Number(u64),
    Flag(bool),
    List(Seq<Seq<char>>),
}

impl View for ExtraValue {
    type V = ExtraView;

    open spec fn view(&self) -> ExtraView {
        match self {
            ExtraValue::Text(s) => ExtraView::Text(s@),
            ExtraValue::Number(n) => ExtraView::Number(*n),
            ExtraValue::Flag(b) => ExtraView::Flag(*b),
            ExtraValue::List(items) => ExtraView::List(items.deep_view()),
        }
    }
}

/// The map that entries denote: a later entry for a key replaces an earlier one.
pub open spec fn entries_map(s: Seq<(String, ExtraValue)>) -> Map<Seq<char>, ExtraView>
    decreases s.len(),
{
    if s.len() == 0 {
        Map::empty()
    } else {
        entries_map(s.drop_last()).insert(s.last().0@, s.last().1@)
    }
}

/// Protocol-specific settings of a node, keyed by name.
#[derive(Debug)]
pub struct ExtraMap {
    pub entries: Vec<(String, ExtraValue)>,
}

impl View for ExtraMap {
    type V = Map<Seq<char>, ExtraView>;

    open spec fn view(&self) -> Map<Seq<char>, ExtraView> {
        entries_map(self.entries@)
    }
}

/// A proxy node.
#[derive(Debug)]
pub struct ProxyNode {
    pub id: String,
    pub name: String,
    pub protocol: ProxyProtocol,
    pub server: String,
    pub port: u16,
    pub transport: ProxyTransport,
    pub tls: TlsConfig,
    pub extra: ExtraMap,
    pub source_id: String,
    pub tags: Vec<String>,
    pub region: Option<String>,
    pub updated_at: String,
}

/// The abstract value of [`ProxyNode`].
pub struct NodeView {
    pub id: Seq<char>,
    pub name: Seq<char>,
    pub protocol: ProxyProtocol,
    pub server: Seq<char>,
    pub port: u16,
    pub transport: ProxyTransport,
    pub tls: TlsView,
    pub extra: Map<Seq<char>, ExtraView>,
    pub source_id: Seq<char>,
    pub tags: Seq<Seq<char>>,
    pub region: Option<Seq<char>>,
    pub updated_at: Seq<char>,
}

impl View for ProxyNode {
    type V = NodeView;

    open spec fn view(&self) -> NodeView {
        NodeView {
            id: self.id@,
            name: self.name@,
            protocol: self.protocol,
            server: self.server@,
            port: self.port,
            transport: self.transport,
            tls: self.tls@,
            extra: self.extra@,
            source_id: self.source_id@,
            tags: self.tags.deep_view(),
            region: self.region.deep_view(),
            updated_at: self.updated_at@,
        }
    }
}

/// The views of a sequence of nodes.
pub open spec fn nodes_view(nodes: Seq<ProxyNode>) -> Seq<NodeView> {
    nodes.map_values(|n: ProxyNode| n@)
}

// ------------------------------------------------------------------
// Lemmas on the entry map
// ------------------------------------------------------------------

pub proof fn lemma_entries_map_has(s: Seq<(String, ExtraValue)>, k: Seq<char>, j: int)
    requires
        0 <= j < s.len(),
        s[j].0@ == k,
        forall|t: int| j < t < s.len() ==> s[t].0@ != k,
    ensures
        entries_map(s).contains_key(k),
        entries_map(s)[k] == s[j].1@,
    decreases s.len(),
{
    if j < s.len() - 1 {
        lemma_entries_map_has(s.drop_last(), k, j);
    }
}

pub proof fn lemma_entries_map_lacks(s: Seq<(String, ExtraValue)>, k: Seq<char>)
    requires
        forall|t: int| 0 <= t < s.len() ==> s[t].0@ != k,
    ensures
        !entries_map(s).contains_key(k),
    decreases s.len(),
{
    if s.len() > 0 {
        lemma_entries_map_lacks(s.drop_last(), k);
    }
}

pub proof fn lemma_entries_map_dom(s: Seq<(String, ExtraValue)>, k: Seq<char>)
    ensures
        entries_map(s).contains_key(k) <==> exists|t: int| 0 <= t < s.len() && s[t].0@ == k,
    decreases s.len(),
{
    if s.len() > 0 {
        lemma_entries_map_dom(s.drop_last(), k);
        if entries_map(s.drop_last()).contains_key(k) {
            let t = choose|t: int| 0 <= t < s.len() - 1 && s.drop_last()[t].0@ == k;
            assert(s[t].0@ == k);
        }
        if exists|t: int| 0 <= t < s.len() && s[t].0@ == k {
            let t = choose|t: int| 0 <= t < s.len() && s[t].0@ == k;
            if t < s.len() - 1 {
                assert(s.drop_last()[t].0@ == k);
            }
        }
    }
}

// ------------------------------------------------------------------
// Executable operations
// ------------------------------------------------------------------

/// A copy of a vector of strings.
pub fn copy_strings(v: &Vec<String>) -> (r: Vec<String>)
    ensures
        r.deep_view() == v.deep_view(),
{
    let mut out: Vec<String> = Vec::new();
    let mut i: usize = 0;
    while i < v.len()
        invariant
            i <= v.len(),
            out@.len() == i,
            forall|j: int| 0 <= j < i ==> #[trigger] out@[j]@ == v@[j]@,
        decreases v.len() - i,
    {
        out.push(v[i].clone());
        i += 1;
    }
    assert(out.deep_view() =~= v.deep_view());
    out
}

/// A copy of an optional string.
pub fn copy_opt_string(s: &Option<String>) -> (r: Option<String>)
    ensures
        r.deep_view() == s.deep_view(),
{
    match s {
        Some(v) => Some(v.clone()),
        None => None,
    }
}

/// Equality of two vectors of strings.
pub fn strings_equal(a: &Vec<String>, b: &Vec<String>) -> (r: bool)
    ensures
        r == (a.deep_view() == b.deep_view()),
{
    if a.len() != b.len() {
        assert(a.deep_view().len() != b.deep_view().len());
        return false;
    }
    let mut i: usize = 0;
    while i < a.len()
        invariant
            i <= a.len() == b.len(),
            forall|j: int| 0 <= j < i ==> #[trigger] a@[j]@ == b@[j]@,
        decreases a.len() - i,
    {
        if a[i] != b[i] {
            assert(a.deep_view()[i as int] != b.deep_view()[i as int]);
            return false;
        }
        i += 1;
    }
    assert(a.deep_view() =~= b.deep_view());
    true
}

/// Equality of two optional strings.
pub fn opt_strings_equal(a: &Option<String>, b: &Option<String>) -> (r: bool)
    ensures
        r == (a.deep_view() == b.deep_view()),
{
    match (a, b) {
        (Some(x), Some(y)) => *x == *y,
        (None, None) => true,
        _ => false,
    }
}

impl TlsConfig {
    /// A copy of these settings.
    pub fn duplicate(&self) -> (r: TlsConfig)
        ensures
            r@ == self@,
    {
        TlsConfig { enabled: self.enabled, server_name: copy_opt_string(&self.server_name) }
    }

    /// Whether two TLS settings are the same.
    pub fn same_as(&self, other: &TlsConfig) -> (r: bool)
        ensures
            r == (self@ == other@),
    {
        self.enabled == other.enabled && opt_strings_equal(&self.server_name, &other.server_name)
    }
}

impl ExtraValue {
    /// A copy of this value.
    pub fn duplicate(&self) -> (r: ExtraValue)
        ensures
            r@ == self@,
    {
        match self {
            ExtraValue::Text(s) => ExtraValue::Text(s.clone()),
            ExtraValue::Number(n) => ExtraValue::Number(*n),
            ExtraValue::Flag(b) => ExtraValue::Flag(*b),
            ExtraValue::List(items) => ExtraValue::List(copy_strings(items)),
        }
    }

    /// Whether two values are the same.
    pub fn same_as(&self, other: &ExtraValue) -> (r: bool)
        ensures
            r == (self@ == other@),
    {
        match (self, other) {
            (ExtraValue::Text(a), ExtraValue::Text(b)) => *a == *b,
            (ExtraValue::Number(a), ExtraValue::Number(b)) => *a == *b,
            (ExtraValue::Flag(a), ExtraValue::Flag(b)) => *a == *b,
            (ExtraValue::List(a), ExtraValue::List(b)) => strings_equal(a, b),
            _ => false,
        }
    }
}

impl ExtraMap {
    /// An empty map.
    pub fn new() -> (r: ExtraMap)
        ensures
            r@ == Map::<Seq<char>, ExtraView>::empty(),
    {
        ExtraMap { entries: Vec::new() }
    }

    /// Sets `key` to `value`.
    pub fn insert(&mut self, key: String, value: ExtraValue)
        ensures
            final(self)@ == old(self)@.insert(key@, value@),
    {
        let ghost s0 = self.entries@;
        self.entries.push((key, value));
        assert(self.entries@.drop_last() =~= s0);
    }

    /// The position of the entry that holds `key`, if any.
    pub fn position(&self, key: &String) -> (r: Option<usize>)
        ensures
            match r {
                Some(j) => j < self.entries@.len() && self@.contains_key(key@) && self@[key@]
                    == self.entries@[j as int].1@ && self.entries@[j as int].0@ == key@,
                None => !self@.contains_key(key@),
            },
    {
        let mut i: usize = self.entries.len();
        while i > 0
            invariant
                i <= self.entries@.len(),
                forall|t: int| i <= t < self.entries@.len() ==> self.entries@[t].0@ != key@,
            decreases i,
        {
            if self.entries[i - 1].0 == *key {
                proof {
                    lemma_entries_map_has(self.entries@, key@, i - 1);
                }
                return Some(i - 1);
            }
            i -= 1;
        }
        proof {
            lemma_entries_map_lacks(self.entries@, key@);
        }
        None
    }

    /// The value stored under `key`.
    pub fn get(&self, key: &str) -> (r: Option<&ExtraValue>)
        ensures
            match r {
                Some(v) => self@.contains_key(key@) && self@[key@] == v@,
                None => !self@.contains_key(key@),
            },
    {
        let k = key.to_owned();
        match self.position(&k) {
            Some(j) => Some(&self.entries[j].1),
            None => None,
        }
    }

    /// Whether `key` has a value.
    pub fn contains_key(&self, key: &str) -> (r: bool)
        ensures
            r == self@.contains_key(key@),
    {
        let k = key.to_owned();
        self.position(&k).is_some()
    }

    /// Removes `key`.
    pub fn remove(&mut self, key: &str)
        ensures
            final(self)@ == old(self)@.remove(key@),
    {
        let k = key.to_owned();
        let ghost s = self.entries@;
        let mut kept: Vec<(String, ExtraValue)> = Vec::new();
        let mut i: usize = 0;
        while i < self.entries.len()
            invariant
                i <= self.entries@.len(),
                self.entries@ == s,
                k@ == key@,
                entries_map(kept@) == entries_map(s.take(i as int)).remove(key@),
            decreases self.entries@.len() - i,
        {
            let ghost before = entries_map(kept@);
            proof {
                assert(s.take(i + 1).drop_last() =~= s.take(i as int));
            }
            if self.entries[i].0 != k {
                let e = (self.entries[i].0.clone(), self.entries[i].1.duplicate());
                let ghost kold = kept@;
                kept.push(e);
                proof {
                    assert(kept@.drop_last() =~= kold);
                    assert(s.take(i + 1).last() == s[i as int]);
                    assert(entries_map(kept@) =~= entries_map(s.take(i + 1)).remove(key@));
                }
            } else {
                assert(s.take(i + 1).last() == s[i as int]);
                assert(entries_map(kept@) =~= entries_map(s.take(i + 1)).remove(key@));
            }
            i += 1;
        }
        assert(s.take(s.len() as int) =~= s);
        self.entries = kept;
    }

    /// A copy of this map.
    pub fn duplicate(&self) -> (r: ExtraMap)
        ensures
            r@ == self@,
    {
        let mut out: Vec<(String, ExtraValue)> = Vec::new();
        let mut i: usize = 0;
        while i < self.entries.len()
            invariant
                i <= self.entries@.len(),
                out@.len() == i,
                forall|j: int|
                    0 <= j < i ==> #[trigger] out@[j].0@ == self.entries@[j].0@ && out@[j].1@
                        == self.entries@[j].1@,
            decreases self.entries@.len() - i,
        {
            out.push((self.entries[i].0.clone(), self.entries[i].1.duplicate()));
            i += 1;
        }
        proof {
            lemma_entries_map_same(out@, self.entries@);
        }
        ExtraMap { entries: out }
    }

    /// Whether two maps hold the same values under the same keys.
    pub fn same_as(&self, other: &ExtraMap) -> (r: bool)
        ensures
            r == (self@ == other@),
    {
        let mut i: usize = 0;
        while i < self.entries.len()
            invariant
                i <= self.entries@.len(),
                forall|t: int| 0 <= t < i ==> agrees_on(self@, other@, #[trigger] self.entries@[t].0@),
            decreases self.entries@.len() - i,
        {
            let key = &self.entries[i].0;
            let mine = self.position(key);
            let theirs = other.position(key);
            match (mine, theirs) {
                (Some(a), Some(b)) => {
                    if !self.entries[a].1.same_as(&other.entries[b].1) {
                        return false;
                    }
                    assert(agrees_on(self@, other@, self.entries@[i as int].0@));
                },
                _ => {
                    proof {
                        lemma_entries_map_dom(self.entries@, key@);
                        assert(self.entries@[i as int].0@ == key@);
                        assert(self@.contains_key(key@));
                    }
                    return false;
                },
            }
            i += 1;
        }
        let mut i: usize = 0;
        while i < other.entries.len()
            invariant
                i <= other.entries@.len(),
                forall|t: int| 0 <= t < i ==> #[trigger] self@.contains_key(other.entries@[t].0@),
                forall|t: int|
                    0 <= t < self.entries@.len() ==> agrees_on(
                        self@,
                        other@,
                        #[trigger] self.entries@[t].0@,
                    ),
            decreases other.entries@.len() - i,
        {
            let key = &other.entries[i].0;
            if self.position(key).is_none() {
                proof {
                    lemma_entries_map_dom(other.entries@, key@);
                }
                return false;
            }
            i += 1;
        }
        proof {
            assert forall|k: Seq<char>|
                #![trigger self@.contains_key(k)]
                #![trigger other@.contains_key(k)]
                (self@.contains_key(k) == other@.contains_key(k)) && (self@.contains_key(k)
                    ==> other@[k] == self@[k]) by {
                lemma_entries_map_dom(self.entries@, k);
                lemma_entries_map_dom(other.entries@, k);
                if self@.contains_key(k) {
                    let t = choose|t: int| 0 <= t < self.entries@.len() && self.entries@[t].0@ == k;
                    assert(agrees_on(self@, other@, self.entries@[t].0@));
                }
                if other@.contains_key(k) {
                    let t = choose|t: int| 0 <= t < other.entries@.len() && other.entries@[t].0@ == k;
                    assert(self@.contains_key(other.entries@[t].0@));
                }
            }
            assert(self@.dom() =~= other@.dom());
            assert(self@ =~= other@);
        }
        true
    }
}

/// `a` and `b` both hold `k`, with the same value.
pub open spec fn agrees_on(a: Map<Seq<char>, ExtraView>, b: Map<Seq<char>, ExtraView>, k: Seq<char>) -> bool {
    a.contains_key(k) && b.contains_key(k) && a[k] == b[k]
}

pub proof fn lemma_entries_map_same(a: Seq<(String, ExtraValue)>, b: Seq<(String, ExtraValue)>)
    requires
        a.len() == b.len(),
        forall|j: int| 0 <= j < a.len() ==> #[trigger] a[j].0@ == b[j].0@ && a[j].1@ == b[j].1@,
    ensures
        entries_map(a) == entries_map(b),
    decreases a.len(),
{
    if a.len() > 0 {
        lemma_entries_map_same(a.drop_last(), b.drop_last());
        assert(a.last().0@ == b.last().0@);
    }
}

impl ProxyNode {
    /// A copy of this node.
    pub fn duplicate(&self) -> (r: ProxyNode)
        ensures
            r@ == self@,
    {
        ProxyNode {
            id: self.id.clone(),
            name: self.name.clone(),
            protocol: self.protocol,
            server: self.server.clone(),
            port: self.port,
            transport: self.transport,
            tls: self.tls.duplicate(),
            extra: self.extra.duplicate(),
            source_id: self.source_id.clone(),
            tags: copy_strings(&self.tags),
            region: copy_opt_string(&self.region),
            updated_at: self.updated_at.clone(),
        }
    }
}

/// Copies of nodes, in order.
pub fn duplicate_nodes(nodes: &Vec<ProxyNode>) -> (r: Vec<ProxyNode>)
    ensures
        nodes_view(r@) == nodes_view(nodes@),
{
    let mut out: Vec<ProxyNode> = Vec::new();
    let mut i: usize = 0;
    while i < nodes.len()
        invariant
            i <= nodes@.len(),
            nodes_view(out@) == nodes_view(nodes@).take(i as int),
        decreases nodes@.len() - i,
    {
        let ghost prev = out@;
        let n = nodes[i].duplicate();
        out.push(n);
        proof {
            assert(nodes_view(out@) =~= nodes_view(prev).push(n@));
            assert(nodes_view(nodes@).take(i + 1) =~= nodes_view(nodes@).take(i as int).push(
                nodes@[i as int]@,
            ));
        }
        i += 1;
    }
    assert(nodes_view(nodes@).take(nodes@.len() as int) =~= nodes_view(nodes@));
    out
}

} // verus!

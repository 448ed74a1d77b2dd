//! Node names: conflict resolution across sources and grouping by region.
use vstd::prelude::*;

use crate::aggregator::types::{RegionGroups, SourceNodes, SourceView, sources_view};
use crate::model::{NodeView, ProxyNode, copy_opt_string, nodes_view};
use crate::aggregator::free_name::{
    candidate_name, first_free_index, free_name, lemma_free_name, pick_free_name,
};
use crate::text::{
    ascii_lower, chars_of, concat, lowercase, same_text, sort_texts, string_from, text_lt, text_order,
    texts_view, trim, trimmed,
};

verus! {

broadcast use vstd::seq_lib::group_to_multiset_ensures;

// ------------------------------------------------------------------
// Source labels
// ------------------------------------------------------------------

/// The label of a source: its trimmed alias when that is not empty, else its id.
pub open spec fn alias_of(s: SourceView) -> Seq<char> {
    match s.source_alias {
        Some(a) => if trim(a).len() > 0 {
            trim(a)
        } else {
            s.source_id
        },
        None => s.source_id,
    }
}

/// The label pairs `(source id, label)`, one per source, in order.
pub open spec fn aliases_spec(sources: Seq<SourceView>) -> Seq<(Seq<char>, Seq<char>)> {
    sources.map_values(|s: SourceView| (s.source_id, alias_of(s)))
}

/// The label of `id`: that of the last pair for `id`, or `id` itself when there is none.
pub open spec fn label_in(aliases: Seq<(Seq<char>, Seq<char>)>, id: Seq<char>) -> Seq<char>
    decreases aliases.len(),
{
    if aliases.len() == 0 {
        id
    } else if aliases.last().0 == id {
        aliases.last().1
    } else {
        label_in(aliases.drop_last(), id)
    }
}

/// The view of computed label pairs.
pub open spec fn pairs_view(v: Seq<(String, String)>) -> Seq<(Seq<char>, Seq<char>)> {
    v.map_values(|p: (String, String)| (p.0@, p.1@))
}

/// The label of each source.
pub fn build_source_aliases(sources: &[SourceNodes]) -> (r: Vec<(String, String)>)
    ensures
        pairs_view(r@) == aliases_spec(sources_view(sources@)),
{
    let mut out: Vec<(String, String)> = Vec::new();
    let mut i: usize = 0;
    while i < sources.len()
        invariant
            i <= sources@.len(),
            pairs_view(out@) == aliases_spec(sources_view(sources@)).take(i as int),
        decreases sources@.len() - i,
    {
        let src = &sources[i];
        let label: String = match &src.source_alias {
            Some(a) => {
                let t = trimmed(chars_of(a.as_str()).as_slice());
                assert(src@.source_alias == Some(a@));
                if t.len() > 0 {
                    string_from(t.as_slice())
                } else {
                    src.source_id.clone()
                }
            },
            None => src.source_id.clone(),
        };
        assert(label@ == alias_of(src@));
        let id = src.source_id.clone();
        let ghost old_out = out@;
        proof {
            assert(sources_view(sources@)[i as int] == src@);
        }
        out.push((id, label));
        proof {
            assert(pairs_view(out@) =~= pairs_view(old_out).push((src@.source_id, alias_of(src@))));
            assert(aliases_spec(sources_view(sources@)).take(i + 1) =~= aliases_spec(
                sources_view(sources@),
            ).take(i as int).push((src@.source_id, alias_of(src@))));
        }
        i += 1;
    }
    proof {
        assert(aliases_spec(sources_view(sources@)).take(sources@.len() as int) =~= aliases_spec(
            sources_view(sources@),
        ));
    }
    out
}

/// The label of a source id.
pub fn source_label(aliases: &Vec<(String, String)>, source_id: &String) -> (r: String)
    ensures
        r@ == label_in(pairs_view(aliases@), source_id@),
{
    let ghost pv = pairs_view(aliases@);
    let mut i: usize = aliases.len();
    assert(pv.take(pv.len() as int) =~= pv);
    while i > 0
        invariant
            i <= aliases@.len(),
            pv == pairs_view(aliases@),
            label_in(pv, source_id@) == label_in(pv.take(i as int), source_id@),
        decreases i,
    {
        let ghost t = pv.take(i as int);
        assert(t.drop_last() =~= pv.take(i - 1));
        assert(t.last() == pv[i - 1]);
        if aliases[i - 1].0 == *source_id {
            return aliases[i - 1].1.clone();
        }
        i -= 1;
    }
    source_id.clone()
}

// ------------------------------------------------------------------
// Name conflicts
// ------------------------------------------------------------------

/// Some other node carries the same name as node `i`.
pub open spec fn has_twin(names: Seq<Seq<char>>, i: int) -> bool {
    exists|j: int| 0 <= j < names.len() && j != i && names[j] == names[i]
}

/// The names of nodes.
pub open spec fn names_of(nodes: Seq<NodeView>) -> Seq<Seq<char>> {
    nodes.map_values(|n: NodeView| n.name)
}

/// `"{name} ({label})"`.
pub open spec fn with_label(name: Seq<char>, label: Seq<char>) -> Seq<char> {
    name + " ("@ + label + ")"@
}

/// First pass: a name that several nodes share gets the label of each node's source.
pub open spec fn labelled_names(nodes: Seq<NodeView>, aliases: Seq<(Seq<char>, Seq<char>)>) -> Seq<
    Seq<char>,
> {
    Seq::new(
        nodes.len(),
        |i: int|
            if has_twin(names_of(nodes), i) {
                with_label(nodes[i].name, label_in(aliases, nodes[i].source_id))
            } else {
                nodes[i].name
            },
    )
}

/// Second pass, over the labelled names in order: the first node with a name keeps it;
/// each later node with the same name gets the first of `" #2"`, `" #3"`, … appended
/// that neither a labelled name nor a name handed out before holds. The set is the names
/// held once those nodes are done: the labelled names and the names handed out.
pub open spec fn number_state(p: Seq<Seq<char>>, all: Set<Seq<char>>) -> (Seq<Seq<char>>, Set<Seq<char>>)
    decreases p.len(),
{
    if p.len() == 0 {
        (Seq::empty(), all)
    } else {
        let prev = number_state(p.drop_last(), all);
        let x = p.last();
        if p.drop_last().contains(x) {
            let c = free_name(x, prev.1);
            (prev.0.push(c), prev.1.insert(c))
        } else {
            (prev.0.push(x), prev.1)
        }
    }
}

/// The numbered names (see [`number_state`]).
pub open spec fn numbered_names(p: Seq<Seq<char>>) -> Seq<Seq<char>> {
    number_state(p, p.to_set()).0
}

/// The names after conflict resolution.
pub open spec fn resolved_names(nodes: Seq<NodeView>, aliases: Seq<(Seq<char>, Seq<char>)>) -> Seq<
    Seq<char>,
> {
    numbered_names(labelled_names(nodes, aliases))
}

/// `n` with its name replaced.
pub open spec fn renamed(n: NodeView, name: Seq<char>) -> NodeView {
    NodeView {
        id: n.id,
        name: name,
        protocol: n.protocol,
        server: n.server,
        port: n.port,
        transport: n.transport,
        tls: n.tls,
        extra: n.extra,
        source_id: n.source_id,
        tags: n.tags,
        region: n.region,
        updated_at: n.updated_at,
    }
}

/// Every node renamed as [`resolved_names`] says.
pub open spec fn resolve_spec(nodes: Seq<NodeView>, aliases: Seq<(Seq<char>, Seq<char>)>) -> Seq<
    NodeView,
> {
    Seq::new(nodes.len(), |i: int| renamed(nodes[i], resolved_names(nodes, aliases)[i]))
}

/// A tried name starts with the name it is tried for.
proof fn lemma_candidate_prefix(base: Seq<char>, k: nat)
    ensures
        base.is_prefix_of(candidate_name(base, k)),
{
    if k >= 2 {
        assert(candidate_name(base, k).subrange(0, base.len() as int) =~= base);
    }
}

/// Numbering keeps the first node of each name as it is, hands later ones names that no
/// labelled name holds, never hands out a name twice, and every name it gives starts
/// with the name it numbers.
pub proof fn lemma_number_state(p: Seq<Seq<char>>, all: Set<Seq<char>>)
    requires
        all.finite(),
        forall|i: int| 0 <= i < p.len() ==> all.contains(#[trigger] p[i]),
    ensures
        ({
            let (out, now) = number_state(p, all);
            &&& out.len() == p.len()
            &&& now.finite()
            &&& forall|s: Seq<char>|
                now.contains(s) <==> (all.contains(s) || exists|i: int|
                    0 <= i < out.len() && #[trigger] out[i] == s)
            &&& forall|i: int| 0 <= i < p.len() && !p.take(i).contains(p[i]) ==> #[trigger] out[i] == p[i]
            &&& forall|i: int| 0 <= i < p.len() && p.take(i).contains(p[i]) ==> !all.contains(#[trigger] out[i])
            &&& forall|i: int, j: int| 0 <= i < j < p.len() ==> #[trigger] out[i] != #[trigger] out[j]
            &&& forall|i: int| 0 <= i < p.len() ==> p[i].is_prefix_of(#[trigger] out[i])
        }),
    decreases p.len(),
{
    if p.len() > 0 {
        let rest = p.drop_last();
        assert forall|i: int| 0 <= i < rest.len() implies all.contains(#[trigger] rest[i]) by {
            assert(rest[i] == p[i]);
        }
        lemma_number_state(rest, all);
        let prev = number_state(rest, all);
        let x = p.last();
        let (out, now) = number_state(p, all);
        let last = p.len() - 1;
        assert(x == p[last]);
        assert(p.take(last) =~= rest);
        assert forall|i: int| 0 <= i < last implies #[trigger] out[i] == prev.0[i] && p.take(i) =~= rest.take(i) by {}
        if rest.contains(x) {
            let k = first_free_index(x, prev.1);
            lemma_free_name(x, prev.1, k);
            lemma_candidate_prefix(x, k);
            assert(!prev.1.contains(out[last]));
        } else {
            assert(out[last] == x);
            assert(p[last].is_prefix_of(out[last])) by {
                assert(x.subrange(0, x.len() as int) =~= x);
            }
        }
        assert forall|s: Seq<char>| now.contains(s) <==> (all.contains(s) || exists|i: int|
            0 <= i < out.len() && #[trigger] out[i] == s) by {
            if now.contains(s) && !all.contains(s) {
                if s == out[last] {
                } else {
                    assert(prev.1.contains(s));
                    let i = choose|i: int| 0 <= i < prev.0.len() && #[trigger] prev.0[i] == s;
                    assert(out[i] == prev.0[i]);
                }
            }
            if exists|i: int| 0 <= i < out.len() && #[trigger] out[i] == s {
                let i = choose|i: int| 0 <= i < out.len() && #[trigger] out[i] == s;
                if i < last {
                    assert(out[i] == prev.0[i]);
                    assert(prev.1.contains(s));
                } else if rest.contains(x) {
                } else {
                    assert(all.contains(p[last]));
                }
            }
        }
        assert forall|i: int| 0 <= i < p.len() && !p.take(i).contains(p[i]) implies #[trigger] out[i] == p[i] by {
            if i < last {
                assert(out[i] == prev.0[i]);
                assert(p.take(i) =~= rest.take(i));
                assert(rest[i] == p[i]);
            }
        }
        assert forall|i: int| 0 <= i < p.len() && p.take(i).contains(p[i]) implies !all.contains(#[trigger] out[i]) by {
            if i < last {
                assert(out[i] == prev.0[i]);
                assert(p.take(i) =~= rest.take(i));
                assert(rest[i] == p[i]);
            }
        }
        assert forall|i: int| 0 <= i < p.len() implies p[i].is_prefix_of(#[trigger] out[i]) by {
            if i < last {
                assert(out[i] == prev.0[i]);
                assert(rest[i] == p[i]);
            }
        }
        assert forall|i: int, j: int| 0 <= i < j < p.len() implies #[trigger] out[i] != #[trigger] out[j] by {
            assert(out[i] == prev.0[i]);
            if j < last {
                assert(out[j] == prev.0[j]);
            } else {
                assert(prev.1.contains(prev.0[i]));
                if !rest.contains(x) {
                    assert(out[j] == x);
                    if !rest.take(i).contains(rest[i]) {
                        assert(prev.0[i] == rest[i]);
                        assert(rest.contains(rest[i]));
                    } else {
                        assert(!all.contains(prev.0[i]));
                        assert(all.contains(p[last]));
                    }
                }
            }
        }
    }
}

/// After conflict resolution no two nodes share a name, and each name starts with the
/// node's labelled name, which itself starts with the node's name.
pub proof fn lemma_resolved_names_distinct(nodes: Seq<NodeView>, aliases: Seq<(Seq<char>, Seq<char>)>)
    ensures
        forall|i: int, j: int|
            0 <= i < j < nodes.len() ==> #[trigger] resolve_spec(nodes, aliases)[i].name
                != #[trigger] resolve_spec(nodes, aliases)[j].name,
        forall|i: int|
            0 <= i < nodes.len() ==> labelled_names(nodes, aliases)[i].is_prefix_of(
                #[trigger] resolve_spec(nodes, aliases)[i].name,
            ) && nodes[i].name.is_prefix_of(resolve_spec(nodes, aliases)[i].name),
{
    let p = labelled_names(nodes, aliases);
    let all = p.to_set();
    p.lemma_cardinality_of_set();
    vstd::seq_lib::seq_to_set_is_finite(p);
    assert forall|i: int| 0 <= i < p.len() implies all.contains(#[trigger] p[i]) by {
        assert(p.contains(p[i]));
    }
    lemma_number_state(p, all);
    let q = numbered_names(p);
    assert forall|i: int, j: int| 0 <= i < j < nodes.len() implies #[trigger] resolve_spec(
        nodes,
        aliases,
    )[i].name != #[trigger] resolve_spec(nodes, aliases)[j].name by {
        assert(resolve_spec(nodes, aliases)[i].name == q[i]);
        assert(resolve_spec(nodes, aliases)[j].name == q[j]);
    }
    assert forall|i: int| 0 <= i < nodes.len() implies p[i].is_prefix_of(
        #[trigger] resolve_spec(nodes, aliases)[i].name,
    ) && nodes[i].name.is_prefix_of(resolve_spec(nodes, aliases)[i].name) by {
        let r = resolve_spec(nodes, aliases)[i].name;
        assert(r == q[i]);
        assert(p[i].is_prefix_of(r));
        let n = nodes[i].name;
        assert(n.is_prefix_of(p[i])) by {
            if has_twin(names_of(nodes), i) {
                assert(p[i] == with_label(n, label_in(aliases, nodes[i].source_id)));
                assert(p[i].subrange(0, n.len() as int) =~= n);
            } else {
                assert(n.subrange(0, n.len() as int) =~= n);
            }
        }
        assert(r.subrange(0, n.len() as int) =~= p[i].subrange(0, n.len() as int));
    }
}

/// Whether some node other than `i` carries the name of node `i`.
fn name_has_twin(nodes: &Vec<ProxyNode>, i: usize) -> (r: bool)
    requires
        i < nodes@.len(),
    ensures
        r == has_twin(names_of(nodes_view(nodes@)), i as int),
{
    let ghost names = names_of(nodes_view(nodes@));
    let mut j: usize = 0;
    while j < nodes.len()
        invariant
            i < nodes@.len(),
            j <= nodes@.len(),
            names == names_of(nodes_view(nodes@)),
            forall|t: int| 0 <= t < j && t != i ==> #[trigger] names[t] != names[i as int],
        decreases nodes@.len() - j,
    {
        if j != i && nodes[j].name == nodes[i].name {
            assert(names[j as int] == names[i as int]);
            return true;
        }
        j += 1;
    }
    false
}

/// Whether `names[i]` occurs before position `i`.
fn seen_before(names: &Vec<String>, i: usize) -> (r: bool)
    requires
        i < names@.len(),
    ensures
        r == names.deep_view().take(i as int).contains(names@[i as int]@),
{
    let ghost nv = names.deep_view();
    let mut j: usize = 0;
    while j < i
        invariant
            i < names@.len(),
            j <= i,
            nv == names.deep_view(),
            forall|t: int| 0 <= t < j ==> #[trigger] nv[t] != nv[i as int],
        decreases i - j,
    {
        if names[j] == names[i] {
            assert(nv.take(i as int)[j as int] == nv[i as int]);
            return true;
        }
        j += 1;
    }
    assert forall|t: int| 0 <= t < i implies #[trigger] nv.take(i as int)[t] != nv[i as int] by {
        assert(nv.take(i as int)[t] == nv[t]);
    }
    false
}

/// Gives nodes that share a name distinct names: first the label of the source is
/// appended to every shared name, then each later node with a name already given gets
/// the first of `" #2"`, `" #3"`, … appended that no other name holds (see
/// [`number_state`]). No two nodes end with the same name, and each name starts with
/// the node's name.
pub fn resolve_name_conflicts(nodes: &mut Vec<ProxyNode>, aliases: &Vec<(String, String)>)
    ensures
        nodes_view(final(nodes)@) == resolve_spec(nodes_view(old(nodes)@), pairs_view(aliases@)),
        forall|i: int, j: int|
            0 <= i < j < final(nodes)@.len() ==> #[trigger] nodes_view(final(nodes)@)[i].name
                != #[trigger] nodes_view(final(nodes)@)[j].name,
        forall|i: int|
            0 <= i < final(nodes)@.len() ==> nodes_view(old(nodes)@)[i].name.is_prefix_of(
                #[trigger] nodes_view(final(nodes)@)[i].name,
            ),
{
    let ghost nv = nodes_view(nodes@);
    let ghost av = pairs_view(aliases@);
    let ghost p = labelled_names(nv, av);
    let n = nodes.len();
    let mut first: Vec<String> = Vec::new();
    let mut i: usize = 0;
    while i < n
        invariant
            n == nodes@.len(),
            i <= n,
            nv == nodes_view(nodes@),
            av == pairs_view(aliases@),
            p == labelled_names(nv, av),
            first@.len() == i,
            forall|t: int| 0 <= t < i ==> #[trigger] first@[t]@ == p[t],
        decreases n - i,
    {
        let twin = name_has_twin(nodes, i);
        let name = if twin {
            let label = source_label(aliases, &nodes[i].source_id);
            let a = concat(chars_of(nodes[i].name.as_str()).as_slice(), chars_of(" (").as_slice());
            let b = concat(a.as_slice(), chars_of(label.as_str()).as_slice());
            let c = concat(b.as_slice(), chars_of(")").as_slice());
            string_from(c.as_slice())
        } else {
            nodes[i].name.clone()
        };
        proof {
            assert(nv[i as int] == nodes@[i as int]@);
        }
        first.push(name);
        i += 1;
    }
    proof {
        assert(first.deep_view() =~= p);
    }
    let ghost all = p.to_set();
    proof {
        p.lemma_cardinality_of_set();
        vstd::seq_lib::seq_to_set_is_finite(p);
        assert forall|t: int| 0 <= t < p.len() implies all.contains(#[trigger] p[t]) by {
            assert(p.contains(p[t]));
        }
    }
    let mut used: Vec<Vec<char>> = Vec::new();
    let mut k: usize = 0;
    while k < n
        invariant
            k <= n,
            first@.len() == n,
            first.deep_view() == p,
            texts_view(used@) == p.take(k as int),
        decreases n - k,
    {
        let ghost prev = used@;
        let piece = chars_of(first[k].as_str());
        used.push(piece);
        proof {
            assert(texts_view(used@) =~= texts_view(prev).push(piece@));
            assert(p.take(k + 1) =~= p.take(k as int).push(p[k as int]));
        }
        k += 1;
    }
    proof {
        assert(p.take(n as int) =~= p);
    }
    let ghost mut out: Seq<Seq<char>> = Seq::empty();
    let mut i: usize = 0;
    proof {
        assert(p.take(0) =~= Seq::<Seq<char>>::empty());
    }
    while i < n
        invariant
            n == nodes@.len() == nv.len() == p.len(),
            i <= n,
            first@.len() == n,
            first.deep_view() == p,
            nv == nodes_view(old(nodes)@),
            all == p.to_set(),
            all.finite(),
            forall|t: int| 0 <= t < p.len() ==> all.contains(#[trigger] p[t]),
            (out, texts_view(used@).to_set()) == number_state(p.take(i as int), all),
            out.len() == i,
            forall|t: int| 0 <= t < i ==> #[trigger] nodes@[t]@ == renamed(nv[t], out[t]),
            forall|t: int| i <= t < n ==> #[trigger] nodes@[t]@ == nv[t],
        decreases n - i,
    {
        proof {
            assert(p.take(i + 1).drop_last() =~= p.take(i as int));
            assert(p.take(i + 1).last() == p[i as int]);
            assert(first.deep_view().take(i as int) =~= p.take(i as int));
        }
        let repeated = seen_before(&first, i);
        let name = if repeated {
            let base = chars_of(first[i].as_str());
            let c = pick_free_name(&used, base.as_slice());
            let ghost before = used@;
            used.push(c.clone());
            proof {
                assert(texts_view(used@) =~= texts_view(before).push(c@));
                texts_view(before).lemma_push_to_set_commute(c@);
            }
            string_from(c.as_slice())
        } else {
            first[i].clone()
        };
        proof {
            out = out.push(name@);
            assert(first@[i as int]@ == p[i as int]);
        }
        let mut node = nodes[i].duplicate();
        node.name = name;
        nodes.set(i, node);
        i += 1;
    }
    proof {
        assert(p.take(n as int) =~= p);
        assert(out == resolved_names(nv, av));
        assert(nodes_view(nodes@) =~= resolve_spec(nv, av));
        lemma_resolved_names_distinct(nv, av);
    }
}

// ------------------------------------------------------------------
// Regions
// ------------------------------------------------------------------

/// A region trimmed and in ASCII lowercase; an empty region is no region.
pub open spec fn norm_region(region: Option<Seq<char>>) -> Option<Seq<char>> {
    match region {
        Some(r) => if trim(r).len() == 0 {
            None
        } else {
            Some(ascii_lower(trim(r)))
        },
        None => None,
    }
}

/// The names of the nodes in region `k`, in node order.
pub open spec fn names_in_region(nodes: Seq<NodeView>, k: Seq<char>) -> Seq<Seq<char>>
    decreases nodes.len(),
{
    if nodes.len() == 0 {
        Seq::empty()
    } else if norm_region(nodes.last().region) == Some(k) {
        names_in_region(nodes.drop_last(), k).push(nodes.last().name)
    } else {
        names_in_region(nodes.drop_last(), k)
    }
}

/// Some node lies in region `k`.
pub open spec fn region_used(nodes: Seq<NodeView>, k: Seq<char>) -> bool {
    exists|t: int| 0 <= t < nodes.len() && norm_region(nodes[t].region) == Some(k)
}

/// The groups list the used regions in ascending order, each once, and the names
/// of each region sorted.
pub open spec fn region_groups_ok(nodes: Seq<NodeView>, g: Seq<(Seq<char>, Seq<Seq<char>>)>) -> bool {
    &&& forall|i: int, j: int| 0 <= i < j < g.len() ==> text_lt(g[i].0, g[j].0)
    &&& forall|k: Seq<char>|
        (exists|i: int| 0 <= i < g.len() && g[i].0 == k) <==> region_used(nodes, k)
    &&& forall|i: int|
        0 <= i < g.len() ==> vstd::relations::sorted_by(#[trigger] g[i].1, text_order())
            && g[i].1.to_multiset() == names_in_region(nodes, g[i].0).to_multiset()
}

/// A region trimmed and in ASCII lowercase, or `None` when it is empty.
pub fn normalize_region(region: &Option<String>) -> (r: Option<String>)
    ensures
        r.deep_view() == norm_region(region.deep_view()),
{
    match normalize_region_chars(region) {
        Some(v) => Some(string_from(v.as_slice())),
        None => None,
    }
}

/// A region trimmed and in ASCII lowercase, as characters.
fn normalize_region_chars(region: &Option<String>) -> (r: Option<Vec<char>>)
    ensures
        match r {
            Some(v) => norm_region(region.deep_view()) == Some(v@),
            None => norm_region(region.deep_view()) is None,
        },
{
    match region {
        Some(s) => {
            let t = trimmed(chars_of(s.as_str()).as_slice());
            if t.len() == 0 {
                None
            } else {
                Some(lowercase(t.as_slice()))
            }
        },
        None => None,
    }
}

/// The view of an optional character vector.
pub open spec fn opt_view(o: Option<Vec<char>>) -> Option<Seq<char>> {
    match o {
        Some(v) => Some(v@),
        None => None,
    }
}

/// The names of the nodes in region `key`, in node order.
fn collect_region_names(nodes: &Vec<ProxyNode>, norms: &Vec<Option<Vec<char>>>, key: &Vec<char>) -> (r:
    Vec<Vec<char>>)
    requires
        norms@.len() == nodes@.len(),
        forall|t: int| 0 <= t < norms@.len() ==> opt_view(#[trigger] norms@[t]) == norm_region(nodes@[t]@.region),
    ensures
        texts_view(r@) == names_in_region(nodes_view(nodes@), key@),
{
    let ghost nv = nodes_view(nodes@);
    let mut out: Vec<Vec<char>> = Vec::new();
    let mut t: usize = 0;
    assert(texts_view(out@) =~= names_in_region(nv.take(0), key@));
    while t < nodes.len()
        invariant
            t <= nodes@.len(),
            nv == nodes_view(nodes@),
            norms@.len() == nodes@.len(),
            forall|u: int| 0 <= u < norms@.len() ==> opt_view(#[trigger] norms@[u]) == norm_region(nodes@[u]@.region),
            texts_view(out@) == names_in_region(nv.take(t as int), key@),
        decreases nodes@.len() - t,
    {
        proof {
            let pre = nv.take(t + 1);
            assert(pre.drop_last() =~= nv.take(t as int));
            assert(pre.last() == nodes@[t as int]@);
            assert(opt_view(norms@[t as int]) == norm_region(nodes@[t as int]@.region));
        }
        let hit = match &norms[t] {
            Some(k) => same_text(k.as_slice(), key.as_slice()),
            None => false,
        };
        if hit {
            let name = chars_of(nodes[t].name.as_str());
            out.push(name);
            assert(texts_view(out@) =~= names_in_region(nv.take(t + 1), key@));
        } else {
            assert(texts_view(out@) =~= names_in_region(nv.take(t + 1), key@));
        }
        t += 1;
    }
    assert(nv.take(nodes@.len() as int) =~= nv);
    out
}

/// Whether `k` is among `keys`.
fn contains_text(keys: &Vec<Vec<char>>, k: &[char]) -> (r: bool)
    ensures
        r == texts_view(keys@).contains(k@),
{
    let mut j: usize = 0;
    while j < keys.len()
        invariant
            j <= keys@.len(),
            forall|u: int| 0 <= u < j ==> keys@[u]@ != k@,
        decreases keys@.len() - j,
    {
        if same_text(keys[j].as_slice(), k) {
            assert(texts_view(keys@)[j as int] == k@);
            return true;
        }
        j += 1;
    }
    false
}

/// Strings from character vectors.
fn strings_from(v: &Vec<Vec<char>>) -> (r: Vec<String>)
    ensures
        r.deep_view() == texts_view(v@),
{
    let mut out: Vec<String> = Vec::new();
    let mut i: usize = 0;
    while i < v.len()
        invariant
            i <= v@.len(),
            out@.len() == i,
            forall|t: int| 0 <= t < i ==> #[trigger] out@[t]@ == v@[t]@,
        decreases v@.len() - i,
    {
        out.push(string_from(v[i].as_slice()));
        i += 1;
    }
    assert(out.deep_view() =~= texts_view(v@));
    out
}

/// Groups node names by region: regions in ascending order, names sorted within a region,
/// nodes without a region left out.
pub fn build_region_groups(nodes: &Vec<ProxyNode>) -> (r: RegionGroups)
    ensures
        region_groups_ok(nodes_view(nodes@), r@),
{
    let ghost nv = nodes_view(nodes@);
    let n = nodes.len();
    let mut norms: Vec<Option<Vec<char>>> = Vec::new();
    let mut keys: Vec<Vec<char>> = Vec::new();
    let mut t: usize = 0;
    while t < n
        invariant
            n == nodes@.len() == nv.len(),
            nv == nodes_view(nodes@),
            t <= n,
            norms@.len() == t,
            forall|u: int| 0 <= u < t ==> opt_view(#[trigger] norms@[u]) == norm_region(nodes@[u]@.region),
            texts_view(keys@).no_duplicates(),
            forall|k: Seq<char>|
                texts_view(keys@).contains(k) <==> region_used(nv.take(t as int), k),
        decreases n - t,
    {
        let r = normalize_region_chars(&nodes[t].region);
        let ghost pre = nv.take(t as int);
        let ghost post = nv.take(t + 1);
        proof {
            assert(post[t as int] == nodes@[t as int]@);
            assert forall|k: Seq<char>| region_used(pre, k) implies region_used(post, k) by {
                let u = choose|u: int| 0 <= u < pre.len() && norm_region(pre[u].region) == Some(k);
                assert(post[u] == pre[u]);
            }
        }
        match &r {
            Some(k) => {
                let ghost kb = texts_view(keys@);
                let found = contains_text(&keys, k.as_slice());
                if !found {
                    keys.push(crate::text::to_vec(k.as_slice()));
                }
                proof {
                    assert(norm_region(post[t as int].region) == Some(k@));
                    if !found {
                        assert(texts_view(keys@) =~= kb.push(k@));
                        assert forall|a: int, b: int|
                            0 <= a < b < texts_view(keys@).len() implies texts_view(keys@)[a]
                            != texts_view(keys@)[b] by {
                            if b == kb.len() {
                                assert(kb[a] != k@);
                            } else {
                                assert(kb.no_duplicates());
                            }
                        }
                    }
                    assert forall|kk: Seq<char>|
                        texts_view(keys@).contains(kk) <==> (kb.contains(kk) || kk == k@) by {
                        if !found {
                            if texts_view(keys@).contains(kk) {
                                let j = choose|j: int|
                                    0 <= j < texts_view(keys@).len() && texts_view(keys@)[j] == kk;
                                if j < kb.len() {
                                    assert(kb[j] == kk);
                                }
                            }
                            if kb.contains(kk) {
                                let j = choose|j: int| 0 <= j < kb.len() && kb[j] == kk;
                                assert(texts_view(keys@)[j] == kk);
                            }
                            if kk == k@ {
                                assert(texts_view(keys@)[kb.len() as int] == kk);
                            }
                        }
                    }
                    assert forall|kk: Seq<char>|
                        region_used(post, kk) <==> (region_used(pre, kk) || kk == k@) by {
                        if region_used(post, kk) {
                            let u = choose|u: int|
                                0 <= u < post.len() && norm_region(post[u].region) == Some(kk);
                            if u < t {
                                assert(pre[u] == post[u]);
                                assert(region_used(pre, kk));
                            }
                        }
                        if region_used(pre, kk) {
                            let u = choose|u: int|
                                0 <= u < pre.len() && norm_region(pre[u].region) == Some(kk);
                            assert(post[u] == pre[u]);
                        }
                        if kk == k@ {
                            assert(norm_region(post[t as int].region) == Some(kk));
                        }
                    }
                    assert forall|kk: Seq<char>|
                        texts_view(keys@).contains(kk) <==> region_used(post, kk) by {
                        assert(kb.contains(kk) <==> region_used(pre, kk));
                        assert(texts_view(keys@).contains(kk) <==> (kb.contains(kk) || kk == k@));
                        assert(region_used(post, kk) <==> (region_used(pre, kk) || kk == k@));
                    }
                }
            },
            None => {
                proof {
                    assert forall|kk: Seq<char>| region_used(post, kk) implies region_used(pre, kk) by {
                        let u = choose|u: int|
                            0 <= u < post.len() && norm_region(post[u].region) == Some(kk);
                        if u < t {
                            assert(pre[u] == post[u]);
                        }
                    }
                    assert forall|kk: Seq<char>|
                        texts_view(keys@).contains(kk) <==> region_used(post, kk) by {
                        assert(texts_view(keys@).contains(kk) <==> region_used(pre, kk));
                    }
                }
            },
        }
        norms.push(r);
        t += 1;
    }
    proof {
        assert(nv.take(n as int) =~= nv);
        texts_view(keys@).lemma_multiset_has_no_duplicates();
    }
    let sorted = sort_texts(keys);
    proof {
        let sv = texts_view(sorted@);
        assert forall|x: Seq<char>| sv.to_multiset().contains(x) implies sv.to_multiset().count(x)
            == 1 by {
        }
        sv.lemma_multiset_has_no_duplicates_conv();
    }
    let mut groups: Vec<(String, Vec<String>)> = Vec::new();
    let mut i: usize = 0;
    while i < sorted.len()
        invariant
            i <= sorted@.len(),
            nv == nodes_view(nodes@),
            norms@.len() == nodes@.len(),
            forall|u: int| 0 <= u < norms@.len() ==> opt_view(#[trigger] norms@[u]) == norm_region(nodes@[u]@.region),
            groups@.len() == i,
            forall|u: int|
                0 <= u < i ==> (#[trigger] groups@[u]).0@ == sorted@[u]@
                    && vstd::relations::sorted_by(groups@[u].1.deep_view(), text_order())
                    && groups@[u].1.deep_view().to_multiset() == names_in_region(
                    nv,
                    sorted@[u]@,
                ).to_multiset(),
        decreases sorted@.len() - i,
    {
        let names = collect_region_names(nodes, &norms, &sorted[i]);
        let names = sort_texts(names);
        let strings = strings_from(&names);
        groups.push((string_from(sorted[i].as_slice()), strings));
        i += 1;
    }
    let r = RegionGroups { groups };
    proof {
        let g = r@;
        let sv = texts_view(sorted@);
        assert(g.len() == sv.len());
        assert forall|u: int| 0 <= u < g.len() implies g[u].0 == sv[u] by {
            assert(groups@[u].0@ == sorted@[u]@);
        }
        assert forall|a: int, b: int| 0 <= a < b < g.len() implies text_lt(g[a].0, g[b].0) by {
            assert(text_order()(sv[a], sv[b]));
            assert(sv[a] != sv[b]);
        }
        assert forall|k: Seq<char>|
            (exists|u: int| 0 <= u < g.len() && g[u].0 == k) <==> region_used(nv, k) by {
            if region_used(nv, k) {
                assert(texts_view(keys@).contains(k));
                assert(texts_view(keys@).to_multiset().count(k) > 0);
                assert(sv.contains(k));
                let u = choose|u: int| 0 <= u < sv.len() && sv[u] == k;
                assert(g[u].0 == k);
            }
            if exists|u: int| 0 <= u < g.len() && g[u].0 == k {
                let u = choose|u: int| 0 <= u < g.len() && g[u].0 == k;
                assert(sv[u] == k);
                assert(sv.contains(k));
                assert(texts_view(keys@).contains(k));
            }
        }
        assert forall|u: int| 0 <= u < g.len() implies vstd::relations::sorted_by(
            #[trigger] g[u].1,
            text_order(),
        ) && g[u].1.to_multiset() == names_in_region(nv, g[u].0).to_multiset() by {
            assert(g[u].1 == groups@[u].1.deep_view());
        }
    }
    r
}

} // verus!

use vstd::prelude::*;

use crate::aggregator::dedupe::{
    dedupe, dedupe_nodes, distinct_keys, flatten, has_key, key_of, lemma_dedupe_keeps_latest,
};
use crate::aggregator::region::{
    alias_of, aliases_spec, build_region_groups, build_source_aliases, label_in, labelled_names,
    region_groups_ok, renamed, resolve_name_conflicts, resolve_spec,
};
use crate::aggregator::types::{AggregationResult, SourceNodes, SourceView, sources_view};
use crate::model::{NodeView, nodes_view};
use crate::text::{ascii_lower, text_le};

verus! {

/// Merges the nodes of several sources.
#[derive(Debug, Default, Clone, Copy)]
pub struct Aggregator;

/// The merged nodes: the nodes of all sources de-duplicated, then renamed so that
/// shared names carry their source label and remaining repeats a number.
pub open spec fn aggregate_nodes(sources: Seq<SourceView>) -> Seq<NodeView> {
    resolve_spec(dedupe(flatten(sources)), aliases_spec(sources))
}

impl Aggregator {
    /// Merges the nodes of `sources` and groups the merged node names by region.
    pub fn aggregate(&self, sources: &[SourceNodes]) -> (r: AggregationResult)
        ensures
            nodes_view(r.nodes@) == aggregate_nodes(sources_view(sources@)),
            region_groups_ok(nodes_view(r.nodes@), r.region_groups@),
            forall|i: int, j: int|
                0 <= i < j < r.nodes@.len() ==> #[trigger] nodes_view(r.nodes@)[i].name
                    != #[trigger] nodes_view(r.nodes@)[j].name,
    {
        let source_aliases = build_source_aliases(sources);
        let mut deduped = dedupe_nodes(sources);
        resolve_name_conflicts(&mut deduped, &source_aliases);
        let region_groups = build_region_groups(&deduped);
        AggregationResult { nodes: deduped, region_groups }
    }
}

/// `a` is `b` but for its name.
pub open spec fn same_but_name(a: NodeView, b: NodeView) -> bool {
    a == renamed(b, a.name)
}

/// Renaming changes the names only.
proof fn lemma_resolve_renames(nodes: Seq<NodeView>, aliases: Seq<(Seq<char>, Seq<char>)>)
    ensures
        resolve_spec(nodes, aliases).len() == nodes.len(),
        forall|i: int|
            0 <= i < nodes.len() ==> same_but_name(#[trigger] resolve_spec(nodes, aliases)[i], nodes[i]),
{
}

/// A node that is another but for its name has its identity and its timestamp.
proof fn lemma_same_but_name(a: NodeView, b: NodeView)
    requires
        same_but_name(a, b),
    ensures
        key_of(a) == key_of(b),
        a.updated_at == b.updated_at,
{
}

/// The facts of [`lemma_aggregate_keeps_latest`] for nodes that are renamed copies of the
/// de-duplicated ones.
proof fn lemma_renamed_keep_latest(all: Seq<NodeView>, d: Seq<NodeView>, out: Seq<NodeView>)
    requires
        distinct_keys(d),
        forall|i: int|
            #![trigger d[i]]
            0 <= i < d.len() ==> exists|j: int| #![trigger all[j]] 0 <= j < all.len() && d[i] == all[j],
        forall|j: int| 0 <= j < all.len() ==> #[trigger] has_key(d, all[j]),
        forall|i: int, j: int|
            0 <= i < d.len() && 0 <= j < all.len() && key_of(#[trigger] d[i]) == key_of(#[trigger] all[j])
                ==> text_le(all[j].updated_at, d[i].updated_at),
        out.len() == d.len(),
        forall|i: int| 0 <= i < d.len() ==> same_but_name(#[trigger] out[i], d[i]),
    ensures
        distinct_keys(out),
        forall|j: int| 0 <= j < all.len() ==> #[trigger] has_key(out, all[j]),
        forall|i: int, j: int|
            0 <= i < out.len() && 0 <= j < all.len() && key_of(#[trigger] out[i]) == key_of(
                #[trigger] all[j],
            ) ==> text_le(all[j].updated_at, out[i].updated_at),
{
    assert forall|i: int| 0 <= i < out.len() implies key_of(#[trigger] out[i]) == key_of(d[i])
        && out[i].updated_at == d[i].updated_at by {
        lemma_same_but_name(out[i], d[i]);
    }
    assert forall|j: int| 0 <= j < all.len() implies #[trigger] has_key(out, all[j]) by {
        assert(has_key(d, all[j]));
        let i = choose|i: int| 0 <= i < d.len() && key_of(d[i]) == key_of(all[j]);
        assert(key_of(out[i]) == key_of(d[i]));
    }
    assert forall|a: int, b: int|
        0 <= a < out.len() && 0 <= b < out.len() && a != b implies key_of(out[a]) != key_of(out[b]) by {
        assert(key_of(out[a]) == key_of(d[a]));
        assert(key_of(out[b]) == key_of(d[b]));
    }
}

/// The merged nodes hold one node per identity found among the sources' nodes: no two
/// share an identity, every identity is there, the node kept is not older than any node
/// of the sources with its identity, and it is the de-duplicated node, itself a node of
/// the sources, up to its name.
pub proof fn lemma_aggregate_keeps_latest(sources: Seq<SourceView>)
    ensures
        distinct_keys(aggregate_nodes(sources)),
        forall|j: int|
            0 <= j < flatten(sources).len() ==> #[trigger] has_key(
                aggregate_nodes(sources),
                flatten(sources)[j],
            ),
        forall|i: int, j: int|
            0 <= i < aggregate_nodes(sources).len() && 0 <= j < flatten(sources).len() && key_of(
                #[trigger] aggregate_nodes(sources)[i],
            ) == key_of(#[trigger] flatten(sources)[j]) ==> text_le(
                flatten(sources)[j].updated_at,
                aggregate_nodes(sources)[i].updated_at,
            ),
        aggregate_nodes(sources).len() == dedupe(flatten(sources)).len(),
        forall|i: int|
            0 <= i < aggregate_nodes(sources).len() ==> same_but_name(
                #[trigger] aggregate_nodes(sources)[i],
                dedupe(flatten(sources))[i],
            ),
        forall|i: int|
            #![trigger dedupe(flatten(sources))[i]]
            0 <= i < dedupe(flatten(sources)).len() ==> exists|j: int|
                #![trigger flatten(sources)[j]]
                0 <= j < flatten(sources).len() && dedupe(flatten(sources))[i] == flatten(sources)[j],
{
    let all = flatten(sources);
    let d = dedupe(all);
    lemma_dedupe_keeps_latest(all);
    lemma_resolve_renames(d, aliases_spec(sources));
    lemma_renamed_keep_latest(all, d, resolve_spec(d, aliases_spec(sources)));
}

/// Two nodes of the same identity are the same endpoint: same protocol, same server
/// (ASCII case ignored), same port, same credential, same transport and TLS settings.
pub proof fn lemma_identity_is_endpoint(a: NodeView, b: NodeView)
    requires
        key_of(a) == key_of(b),
    ensures
        a.protocol == b.protocol,
        ascii_lower(a.server) == ascii_lower(b.server),
        a.port == b.port,
        a.transport == b.transport,
        a.tls == b.tls,
{
}

/// Every endpoint of the sources survives the merge: for each node of the sources some
/// merged node has its protocol, its server (ASCII case ignored), its port, its
/// transport and its TLS settings; and two nodes of the sources on different ports end
/// as two different merged nodes.
pub proof fn lemma_aggregate_keeps_endpoints(sources: Seq<SourceView>)
    ensures
        forall|j: int|
            #![trigger flatten(sources)[j]]
            0 <= j < flatten(sources).len() ==> exists|i: int|
                0 <= i < aggregate_nodes(sources).len() && (#[trigger] aggregate_nodes(sources)[i]).port
                    == flatten(sources)[j].port && aggregate_nodes(sources)[i].protocol
                    == flatten(sources)[j].protocol && ascii_lower(aggregate_nodes(sources)[i].server)
                    == ascii_lower(flatten(sources)[j].server) && aggregate_nodes(sources)[i].transport
                    == flatten(sources)[j].transport && aggregate_nodes(sources)[i].tls
                    == flatten(sources)[j].tls,
        forall|a: int, b: int|
            0 <= a < flatten(sources).len() && 0 <= b < flatten(sources).len() && (#[trigger] flatten(
                sources,
            )[a]).port != (#[trigger] flatten(sources)[b]).port ==> exists|i: int, k: int|
                0 <= i < aggregate_nodes(sources).len() && 0 <= k < aggregate_nodes(sources).len() && i
                    != k && (#[trigger] aggregate_nodes(sources)[i]).port == flatten(sources)[a].port
                    && (#[trigger] aggregate_nodes(sources)[k]).port == flatten(sources)[b].port,
{
    lemma_aggregate_keeps_latest(sources);
    let all = flatten(sources);
    let out = aggregate_nodes(sources);
    assert forall|j: int| #![trigger all[j]] 0 <= j < all.len() implies exists|i: int|
        0 <= i < out.len() && (#[trigger] out[i]).port == all[j].port && out[i].protocol == all[j].protocol
            && ascii_lower(out[i].server) == ascii_lower(all[j].server) && out[i].transport
            == all[j].transport && out[i].tls == all[j].tls by {
        assert(has_key(out, all[j]));
        let i = choose|i: int| 0 <= i < out.len() && key_of(out[i]) == key_of(all[j]);
        lemma_identity_is_endpoint(out[i], all[j]);
    }
    assert forall|a: int, b: int|
        0 <= a < all.len() && 0 <= b < all.len() && (#[trigger] all[a]).port != (#[trigger] all[b]).port
            implies exists|i: int, k: int|
        0 <= i < out.len() && 0 <= k < out.len() && i != k && (#[trigger] out[i]).port == all[a].port
            && (#[trigger] out[k]).port == all[b].port by {
        assert(has_key(out, all[a]));
        assert(has_key(out, all[b]));
        let i = choose|i: int| 0 <= i < out.len() && key_of(out[i]) == key_of(all[a]);
        let k = choose|k: int| 0 <= k < out.len() && key_of(out[k]) == key_of(all[b]);
        lemma_identity_is_endpoint(out[i], all[a]);
        lemma_identity_is_endpoint(out[k], all[b]);
    }
}

/// Placing a source without nodes among the sources leaves the nodes of all sources as
/// they are.
proof fn lemma_flatten_insert_empty(sources: Seq<SourceView>, k: int, e: SourceView)
    requires
        0 <= k <= sources.len(),
        e.nodes.len() == 0,
    ensures
        flatten(sources.insert(k, e)) == flatten(sources),
    decreases sources.len(),
{
    let s2 = sources.insert(k, e);
    if k == sources.len() {
        assert(s2.drop_last() =~= sources);
        assert(s2.last() == e);
        assert(flatten(s2) =~= flatten(sources) + e.nodes);
        assert(flatten(sources) + e.nodes =~= flatten(sources));
    } else {
        let rest = sources.drop_last();
        lemma_flatten_insert_empty(rest, k, e);
        assert(s2.drop_last() =~= rest.insert(k, e));
        assert(s2.last() == sources.last());
    }
}

/// The label of a source id does not change when a source with another id is placed
/// among the sources.
proof fn lemma_label_insert_other(sources: Seq<SourceView>, k: int, e: SourceView, id: Seq<char>)
    requires
        0 <= k <= sources.len(),
        e.source_id != id,
    ensures
        label_in(aliases_spec(sources.insert(k, e)), id) == label_in(aliases_spec(sources), id),
    decreases sources.len(),
{
    let s2 = sources.insert(k, e);
    let a2 = aliases_spec(s2);
    let a1 = aliases_spec(sources);
    if k == sources.len() {
        assert(a2.drop_last() =~= a1);
        assert(a2.last() == (e.source_id, alias_of(e)));
    } else {
        let rest = sources.drop_last();
        lemma_label_insert_other(rest, k, e, id);
        assert(a2.drop_last() =~= aliases_spec(rest.insert(k, e)));
        assert(a1.drop_last() =~= aliases_spec(rest));
        assert(a2.last() == a1.last());
    }
}

/// An id whose every label pair gives the id itself is its own label.
proof fn lemma_label_self(aliases: Seq<(Seq<char>, Seq<char>)>, id: Seq<char>)
    requires
        forall|i: int| 0 <= i < aliases.len() && (#[trigger] aliases[i]).0 == id ==> aliases[i].1 == id,
    ensures
        label_in(aliases, id) == id,
    decreases aliases.len(),
{
    if aliases.len() > 0 {
        assert(aliases.last() == aliases[aliases.len() - 1]);
        let rest = aliases.drop_last();
        assert forall|i: int| 0 <= i < rest.len() && (#[trigger] rest[i]).0 == id implies rest[i].1
            == id by {
            assert(rest[i] == aliases[i]);
        }
        lemma_label_self(rest, id);
    }
}

/// Placing among the sources a source without nodes and without an alias, whose id no
/// source has, changes nothing of the merge: neither the nodes, their order and names,
/// nor (the nodes being the same) the region groups that go with them.
pub proof fn lemma_empty_source_changes_nothing(sources: Seq<SourceView>, k: int, e: SourceView)
    requires
        0 <= k <= sources.len(),
        e.nodes.len() == 0,
        alias_of(e) == e.source_id,
        forall|j: int| 0 <= j < sources.len() ==> (#[trigger] sources[j]).source_id != e.source_id,
    ensures
        aggregate_nodes(sources.insert(k, e)) == aggregate_nodes(sources),
        forall|g: Seq<(Seq<char>, Seq<Seq<char>>)>|
            region_groups_ok(aggregate_nodes(sources.insert(k, e)), g) <==> region_groups_ok(
                aggregate_nodes(sources),
                g,
            ),
{
    let s2 = sources.insert(k, e);
    lemma_flatten_insert_empty(sources, k, e);
    let d = dedupe(flatten(sources));
    assert forall|i: int| 0 <= i < d.len() implies #[trigger] label_in(aliases_spec(s2), d[i].source_id)
        == label_in(aliases_spec(sources), d[i].source_id) by {
        let id = d[i].source_id;
        if id == e.source_id {
            let a1 = aliases_spec(sources);
            let a2 = aliases_spec(s2);
            assert forall|j: int| 0 <= j < a1.len() && (#[trigger] a1[j]).0 == id implies a1[j].1
                == id by {
                assert(a1[j].0 == sources[j].source_id);
            }
            assert forall|j: int| 0 <= j < a2.len() && (#[trigger] a2[j]).0 == id implies a2[j].1
                == id by {
                assert(a2[j] == (s2[j].source_id, alias_of(s2[j])));
                if j < k {
                    assert(s2[j] == sources[j]);
                } else if j > k {
                    assert(s2[j] == sources[j - 1]);
                } else {
                    assert(s2[j] == e);
                }
            }
            lemma_label_self(a1, id);
            lemma_label_self(a2, id);
        } else {
            lemma_label_insert_other(sources, k, e, id);
        }
    }
    assert(labelled_names(d, aliases_spec(s2)) =~= labelled_names(d, aliases_spec(sources)));
    assert(resolve_spec(d, aliases_spec(s2)) =~= resolve_spec(d, aliases_spec(sources)));
}

} // verus!

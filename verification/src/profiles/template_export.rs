//! The node list of a profile exported through the routing template of one source: the
//! template source's nodes first, then the other sources' merged nodes that the template
//! does not already have, renamed where their names are taken.
use vstd::prelude::*;

use crate::aggregator::dedupe::{DedupeKey, KeyView, build_dedupe_key, key_of};
use crate::aggregator::merge::{Aggregator, aggregate_nodes};
use crate::aggregator::region::{
    aliases_spec, build_source_aliases, label_in, names_of, pairs_view, renamed, source_label,
    with_label,
};
use crate::aggregator::types::{SourceNodes, SourceView, sources_view};
use crate::fetcher::routing_template::{ClashRoutingTemplate, GroupView};
use crate::model::{NodeView, ProxyNode, nodes_view};
use crate::aggregator::free_name::{first_free_index, free_name, lemma_free_name, pick_free_name, text_in};
use crate::text::{chars_of, concat, same_text, string_from, texts_view, to_vec};

verus! {

// ------------------------------------------------------------------
// Renaming the appended nodes
// ------------------------------------------------------------------

/// The label a renamed node gets: `"{name} ({source label})"`.
pub open spec fn conflict_base(n: NodeView, aliases: Seq<(Seq<char>, Seq<char>)>) -> Seq<char> {
    with_label(n.name, label_in(aliases, n.source_id))
}

/// The appended nodes, renamed in order, and the names taken after them: a node whose
/// name is free keeps it; any other gets the first free name tried for its labelled
/// name.
pub open spec fn rename_state(
    appended: Seq<NodeView>,
    taken: Set<Seq<char>>,
    aliases: Seq<(Seq<char>, Seq<char>)>,
) -> (Seq<NodeView>, Set<Seq<char>>)
    decreases appended.len(),
{
    if appended.len() == 0 {
        (Seq::empty(), taken)
    } else {
        let prev = rename_state(appended.drop_last(), taken, aliases);
        let n = appended.last();
        if !prev.1.contains(n.name) {
            (prev.0.push(n), prev.1.insert(n.name))
        } else {
            let c = free_name(conflict_base(n, aliases), prev.1);
            (prev.0.push(renamed(n, c)), prev.1.insert(c))
        }
    }
}

/// The appended nodes renamed so that no name repeats one of the template's or an
/// earlier appended node's.
pub open spec fn renamed_appended(
    template: Seq<NodeView>,
    appended: Seq<NodeView>,
    aliases: Seq<(Seq<char>, Seq<char>)>,
) -> Seq<NodeView> {
    rename_state(appended, names_of(template).to_set(), aliases).0
}

/// Renaming keeps each node but its name, and the names it hands out are new: none is
/// among the names taken before, none repeats another, and the taken names grow by
/// exactly the names handed out.
pub proof fn lemma_rename_state(
    appended: Seq<NodeView>,
    taken: Set<Seq<char>>,
    aliases: Seq<(Seq<char>, Seq<char>)>,
)
    requires
        taken.finite(),
    ensures
        ({
            let (out, now) = rename_state(appended, taken, aliases);
            &&& out.len() == appended.len()
            &&& now.finite()
            &&& forall|i: int|
                0 <= i < out.len() ==> #[trigger] out[i] == renamed(appended[i], out[i].name)
            &&& forall|i: int| 0 <= i < out.len() ==> !taken.contains(#[trigger] out[i].name)
            &&& forall|i: int, j: int| 0 <= i < j < out.len() ==> out[i].name != out[j].name
            &&& forall|s: Seq<char>|
                now.contains(s) <==> (taken.contains(s) || exists|i: int|
                    0 <= i < out.len() && #[trigger] out[i].name == s)
        }),
    decreases appended.len(),
{
    if appended.len() > 0 {
        let rest = appended.drop_last();
        lemma_rename_state(rest, taken, aliases);
        let prev = rename_state(rest, taken, aliases);
        let n = appended.last();
        let (out, now) = rename_state(appended, taken, aliases);
        let name = out.last().name;
        if prev.1.contains(n.name) {
            let base = conflict_base(n, aliases);
            let u = prev.1;
            // Some try is free: the taken names are finitely many.
            let k = first_free_index(base, u);
            lemma_free_name(base, u, k);
        }
        assert(!prev.1.contains(name));
        assert forall|i: int| 0 <= i < out.len() implies #[trigger] out[i] == renamed(
            appended[i],
            out[i].name,
        ) by {
            if i < out.len() - 1 {
                assert(out[i] == prev.0[i]);
                assert(appended[i] == rest[i]);
            } else {
                assert(renamed(n, n.name) == n);
            }
        }
        assert forall|i: int| 0 <= i < out.len() implies !taken.contains(#[trigger] out[i].name) by {
            if i < out.len() - 1 {
                assert(out[i] == prev.0[i]);
            }
        }
        assert forall|i: int, j: int| 0 <= i < j < out.len() implies out[i].name != out[j].name by {
            if j < out.len() - 1 {
                assert(out[i] == prev.0[i]);
                assert(out[j] == prev.0[j]);
            } else {
                assert(out[i] == prev.0[i]);
                assert(prev.1.contains(prev.0[i].name));
            }
        }
        assert forall|s: Seq<char>| now.contains(s) <==> (taken.contains(s) || exists|i: int|
            0 <= i < out.len() && #[trigger] out[i].name == s) by {
            if now.contains(s) && !taken.contains(s) {
                if s == name {
                    assert(out[out.len() - 1].name == s);
                } else {
                    assert(prev.1.contains(s));
                    let i = choose|i: int| 0 <= i < prev.0.len() && #[trigger] prev.0[i].name == s;
                    assert(out[i] == prev.0[i]);
                }
            }
            if exists|i: int| 0 <= i < out.len() && #[trigger] out[i].name == s {
                let i = choose|i: int| 0 <= i < out.len() && #[trigger] out[i].name == s;
                if i < out.len() - 1 {
                    assert(out[i] == prev.0[i]);
                    assert(prev.1.contains(s));
                }
            }
        }
    }
}

/// Whether the text `c` is among the names of `nodes`.
fn name_taken(names: &Vec<Vec<char>>, c: &[char]) -> (r: bool)
    ensures
        r == texts_view(names@).to_set().contains(c@),
{
    text_in(names, c)
}

/// Renames the appended nodes whose names are taken by a template node or by an earlier
/// appended node: such a node becomes `"{name} ({source label})"`, numbered `" #2"`,
/// `" #3"`, … until the name is free (see [`renamed_appended`]).
pub fn rename_appended_conflicts(
    template_nodes: &Vec<ProxyNode>,
    appended_nodes: &mut Vec<ProxyNode>,
    source_nodes: &[SourceNodes],
)
    ensures
        nodes_view(final(appended_nodes)@) == renamed_appended(
            nodes_view(template_nodes@),
            nodes_view(old(appended_nodes)@),
            aliases_spec(sources_view(source_nodes@)),
        ),
{
    let aliases = build_source_aliases(source_nodes);
    let ghost al = aliases_spec(sources_view(source_nodes@));
    let ghost av = nodes_view(appended_nodes@);
    let mut used: Vec<Vec<char>> = Vec::new();
    let mut t: usize = 0;
    while t < template_nodes.len()
        invariant
            t <= template_nodes@.len(),
            texts_view(used@) == names_of(nodes_view(template_nodes@)).take(t as int),
        decreases template_nodes@.len() - t,
    {
        let ghost prev = used@;
        let piece = chars_of(template_nodes[t].name.as_str());
        used.push(piece);
        proof {
            assert(texts_view(used@) =~= texts_view(prev).push(piece@));
            assert(names_of(nodes_view(template_nodes@))[t as int] == template_nodes@[t as int].name@);
            assert(names_of(nodes_view(template_nodes@)).take(t + 1) =~= names_of(
                nodes_view(template_nodes@),
            ).take(t as int).push(piece@));
        }
        t += 1;
    }
    assert(names_of(nodes_view(template_nodes@)).take(template_nodes@.len() as int) =~= names_of(
        nodes_view(template_nodes@),
    ));
    let ghost taken = names_of(nodes_view(template_nodes@)).to_set();
    let mut out: Vec<ProxyNode> = Vec::new();
    let mut i: usize = 0;
    assert(av.take(0) =~= Seq::<NodeView>::empty());
    assert(nodes_view(out@) =~= Seq::<NodeView>::empty());
    while i < appended_nodes.len()
        invariant
            i <= appended_nodes@.len(),
            av == nodes_view(appended_nodes@),
            al == pairs_view(aliases@),
            taken == names_of(nodes_view(template_nodes@)).to_set(),
            (nodes_view(out@), texts_view(used@).to_set()) == rename_state(av.take(i as int), taken, al),
        decreases appended_nodes@.len() - i,
    {
        proof {
            assert(av.take(i + 1).drop_last() =~= av.take(i as int));
            assert(av.take(i + 1).last() == av[i as int]);
        }
        let node = appended_nodes[i].duplicate();
        let name = chars_of(node.name.as_str());
        let ghost prev_names = texts_view(used@);
        let ghost prev_out = nodes_view(out@);
        if !name_taken(&used, name.as_slice()) {
            used.push(name);
            out.push(node);
            proof {
                assert(texts_view(used@) =~= prev_names.push(av[i as int].name));
                prev_names.lemma_push_to_set_commute(av[i as int].name);
                assert(nodes_view(out@) =~= prev_out.push(av[i as int]));
            }
        } else {
            let label = source_label(&aliases, &node.source_id);
            let a = concat(name.as_slice(), chars_of(" (").as_slice());
            let b = concat(a.as_slice(), chars_of(label.as_str()).as_slice());
            let base = concat(b.as_slice(), chars_of(")").as_slice());
            let c = pick_free_name(&used, base.as_slice());
            let mut renamed_node = node;
            renamed_node.name = string_from(c.as_slice());
            used.push(c);
            out.push(renamed_node);
            proof {
                assert(texts_view(used@) =~= prev_names.push(c@));
                prev_names.lemma_push_to_set_commute(c@);
                assert(nodes_view(out@) =~= prev_out.push(renamed(av[i as int], c@)));
            }
        }
        i += 1;
    }
    assert(av.take(appended_nodes@.len() as int) =~= av);
    *appended_nodes = out;
}

/// Renamed appended nodes carry names that no template node and no other appended node
/// carries, and differ from the nodes they came from in nothing but the name.
pub proof fn lemma_renamed_names_unique(
    template: Seq<NodeView>,
    appended: Seq<NodeView>,
    aliases: Seq<(Seq<char>, Seq<char>)>,
)
    ensures
        ({
            let out = renamed_appended(template, appended, aliases);
            &&& out.len() == appended.len()
            &&& forall|i: int| 0 <= i < out.len() ==> #[trigger] out[i] == renamed(appended[i], out[i].name)
            &&& forall|i: int, t: int|
                0 <= i < out.len() && 0 <= t < template.len() ==> #[trigger] out[i].name != #[trigger] template[t].name
            &&& forall|i: int, j: int| 0 <= i < j < out.len() ==> out[i].name != out[j].name
        }),
{
    let taken = names_of(template).to_set();
    vstd::seq_lib::seq_to_set_is_finite(names_of(template));
    lemma_rename_state(appended, taken, aliases);
    let out = renamed_appended(template, appended, aliases);
    assert forall|i: int, t: int| 0 <= i < out.len() && 0 <= t < template.len() implies #[trigger] out[i].name
        != #[trigger] template[t].name by {
        assert(names_of(template)[t] == template[t].name);
        assert(taken.contains(template[t].name));
    }
}

// ------------------------------------------------------------------
// The exported node list
// ------------------------------------------------------------------

/// The nodes of the first source with id `id`; none when there is no such source.
pub open spec fn template_source_nodes(sources: Seq<SourceView>, id: Seq<char>) -> Seq<NodeView>
    decreases sources.len(),
{
    if sources.len() == 0 {
        Seq::empty()
    } else if sources[0].source_id == id {
        sources[0].nodes
    } else {
        template_source_nodes(sources.drop_first(), id)
    }
}

/// The sources other than those with id `id`, in order.
pub open spec fn other_sources(sources: Seq<SourceView>, id: Seq<char>) -> Seq<SourceView>
    decreases sources.len(),
{
    if sources.len() == 0 {
        Seq::empty()
    } else if sources.last().source_id != id {
        other_sources(sources.drop_last(), id).push(sources.last())
    } else {
        other_sources(sources.drop_last(), id)
    }
}

/// Some node of `nodes` has identity `k`.
pub open spec fn key_among(nodes: Seq<NodeView>, k: KeyView) -> bool {
    exists|i: int| 0 <= i < nodes.len() && key_of(#[trigger] nodes[i]) == k
}

/// The nodes whose identity no node of `template` has, in order.
pub open spec fn without_template_keys(nodes: Seq<NodeView>, template: Seq<NodeView>) -> Seq<NodeView>
    decreases nodes.len(),
{
    if nodes.len() == 0 {
        Seq::empty()
    } else if key_among(template, key_of(nodes.last())) {
        without_template_keys(nodes.drop_last(), template)
    } else {
        without_template_keys(nodes.drop_last(), template).push(nodes.last())
    }
}

/// The nodes appended after the template source's: the merged nodes of the other
/// sources that the template source does not have, renamed where their names are taken.
pub open spec fn appended_for(sources: Seq<SourceView>, id: Seq<char>) -> Seq<NodeView> {
    let t = template_source_nodes(sources, id);
    renamed_appended(
        t,
        without_template_keys(aggregate_nodes(other_sources(sources, id)), t),
        aliases_spec(sources),
    )
}

/// The exported nodes: the default nodes without a template or a template source, or
/// when the template source has no nodes; else the template source's nodes followed by
/// the appended ones.
pub open spec fn export_nodes(
    sources: Seq<SourceView>,
    default_nodes: Seq<NodeView>,
    template_source_id: Option<Seq<char>>,
    has_template: bool,
) -> Seq<NodeView> {
    match template_source_id {
        Some(id) => if has_template && template_source_nodes(sources, id).len() > 0 {
            template_source_nodes(sources, id) + appended_for(sources, id)
        } else {
            default_nodes
        },
        None => default_nodes,
    }
}

/// The nodes the routing template is rendered with, when there is a template and a
/// template source: the default nodes when the template source has none, else the
/// appended nodes.
pub open spec fn context_nodes(
    sources: Seq<SourceView>,
    default_nodes: Seq<NodeView>,
    template_source_id: Option<Seq<char>>,
    has_template: bool,
) -> Option<Seq<NodeView>> {
    match template_source_id {
        Some(id) => if !has_template {
            None
        } else if template_source_nodes(sources, id).len() > 0 {
            Some(appended_for(sources, id))
        } else {
            Some(default_nodes)
        },
        None => None,
    }
}

/// A routing template and the nodes it is rendered with.
#[derive(Debug)]
pub struct RoutingTemplateExportContext {
    pub template: ClashRoutingTemplate,
    pub nodes: Vec<ProxyNode>,
}

/// The exported nodes and, for a templated export, what the template is rendered with.
#[derive(Debug)]
pub struct TemplateExport {
    pub nodes: Vec<ProxyNode>,
    pub context: Option<RoutingTemplateExportContext>,
}

/// Copies of the nodes of the first source with id `id` (see [`template_source_nodes`]).
fn find_template_nodes(sources: &[SourceNodes], id: &str) -> (r: Vec<ProxyNode>)
    ensures
        nodes_view(r@) == template_source_nodes(sources_view(sources@), id@),
{
    let ghost sv = sources_view(sources@);
    let mut i: usize = 0;
    assert(sv.skip(0) =~= sv);
    while i < sources.len()
        invariant
            i <= sources@.len(),
            sv == sources_view(sources@),
            template_source_nodes(sv, id@) == template_source_nodes(sv.skip(i as int), id@),
        decreases sources@.len() - i,
    {
        assert(sv.skip(i as int)[0] == sources@[i as int]@);
        assert(sv.skip(i as int).drop_first() =~= sv.skip(i + 1));
        if same_text(chars_of(sources[i].source_id.as_str()).as_slice(), chars_of(id).as_slice()) {
            let nodes = crate::model::duplicate_nodes(&sources[i].nodes);
            assert(nodes_view(sources@[i as int].nodes@) =~= sources@[i as int]@.nodes);
            return nodes;
        }
        i += 1;
    }
    let none: Vec<ProxyNode> = Vec::new();
    assert(nodes_view(none@) =~= Seq::<NodeView>::empty());
    none
}

/// Copies of the sources other than those with id `id` (see [`other_sources`]).
fn other_source_list(sources: &[SourceNodes], id: &str) -> (r: Vec<SourceNodes>)
    ensures
        sources_view(r@) == other_sources(sources_view(sources@), id@),
{
    let ghost sv = sources_view(sources@);
    let mut out: Vec<SourceNodes> = Vec::new();
    let mut i: usize = 0;
    assert(sv.take(0) =~= Seq::<SourceView>::empty());
    assert(sources_view(out@) =~= Seq::<SourceView>::empty());
    while i < sources.len()
        invariant
            i <= sources@.len(),
            sv == sources_view(sources@),
            sources_view(out@) == other_sources(sv.take(i as int), id@),
        decreases sources@.len() - i,
    {
        proof {
            assert(sv.take(i + 1).drop_last() =~= sv.take(i as int));
            assert(sv.take(i + 1).last() == sources@[i as int]@);
        }
        if !same_text(chars_of(sources[i].source_id.as_str()).as_slice(), chars_of(id).as_slice()) {
            let ghost prev = out@;
            let copy = sources[i].duplicate();
            out.push(copy);
            assert(sources_view(out@) =~= sources_view(prev).push(copy@));
        }
        i += 1;
    }
    assert(sv.take(sources@.len() as int) =~= sv);
    out
}

/// Whether one of `keys` is `k`.
fn key_listed_in(keys: &Vec<DedupeKey>, k: &DedupeKey) -> (r: bool)
    ensures
        r == exists|i: int| 0 <= i < keys@.len() && #[trigger] keys@[i]@ == k@,
{
    let mut i: usize = 0;
    while i < keys.len()
        invariant
            i <= keys@.len(),
            forall|t: int| 0 <= t < i ==> keys@[t]@ != k@,
        decreases keys@.len() - i,
    {
        if keys[i].same_as(k) {
            return true;
        }
        i += 1;
    }
    false
}

/// The nodes whose identity no template node has (see [`without_template_keys`]).
fn drop_template_keys(nodes: Vec<ProxyNode>, template: &Vec<ProxyNode>) -> (r: Vec<ProxyNode>)
    ensures
        nodes_view(r@) == without_template_keys(nodes_view(nodes@), nodes_view(template@)),
{
    let ghost tv = nodes_view(template@);
    let mut keys: Vec<DedupeKey> = Vec::new();
    let mut t: usize = 0;
    while t < template.len()
        invariant
            t <= template@.len(),
            tv == nodes_view(template@),
            keys@.len() == t,
            forall|q: int| 0 <= q < t ==> #[trigger] keys@[q]@ == key_of(tv[q]),
        decreases template@.len() - t,
    {
        keys.push(build_dedupe_key(&template[t]));
        t += 1;
    }
    let ghost nv = nodes_view(nodes@);
    let mut out: Vec<ProxyNode> = Vec::new();
    let mut i: usize = 0;
    assert(nv.take(0) =~= Seq::<NodeView>::empty());
    assert(nodes_view(out@) =~= Seq::<NodeView>::empty());
    while i < nodes.len()
        invariant
            i <= nodes@.len(),
            nv == nodes_view(nodes@),
            tv == nodes_view(template@),
            keys@.len() == tv.len(),
            forall|q: int| 0 <= q < tv.len() ==> #[trigger] keys@[q]@ == key_of(tv[q]),
            nodes_view(out@) == without_template_keys(nv.take(i as int), tv),
        decreases nodes@.len() - i,
    {
        proof {
            assert(nv.take(i + 1).drop_last() =~= nv.take(i as int));
            assert(nv.take(i + 1).last() == nodes@[i as int]@);
        }
        let k = build_dedupe_key(&nodes[i]);
        let listed = key_listed_in(&keys, &k);
        proof {
            if listed {
                let q = choose|q: int| 0 <= q < keys@.len() && #[trigger] keys@[q]@ == k@;
                assert(key_of(tv[q]) == key_of(nv[i as int]));
            }
            if key_among(tv, key_of(nv[i as int])) {
                let q = choose|q: int| 0 <= q < tv.len() && key_of(#[trigger] tv[q]) == key_of(nv[i as int]);
                assert(keys@[q]@ == k@);
            }
        }
        if !listed {
            let ghost prev = out@;
            let copy = nodes[i].duplicate();
            out.push(copy);
            assert(nodes_view(out@) =~= nodes_view(prev).push(copy@));
        }
        i += 1;
    }
    assert(nv.take(nodes@.len() as int) =~= nv);
    out
}

/// The nodes of a profile exported through a routing template (see [`export_nodes`] and
/// [`context_nodes`]).
pub fn build_template_export_nodes(
    source_nodes: &[SourceNodes],
    default_nodes: Vec<ProxyNode>,
    template_source_id: Option<&str>,
    routing_template: Option<ClashRoutingTemplate>,
) -> (r: TemplateExport)
    ensures
        ({
            let id = match template_source_id {
                Some(s) => Some(s@),
                None => None,
            };
            let sv = sources_view(source_nodes@);
            &&& nodes_view(r.nodes@) == export_nodes(
                sv,
                nodes_view(default_nodes@),
                id,
                routing_template is Some,
            )
            &&& match context_nodes(sv, nodes_view(default_nodes@), id, routing_template is Some) {
                None => r.context is None,
                Some(cn) => r.context matches Some(c) && nodes_view(c.nodes@) == cn && c.template@
                    == routing_template->Some_0@,
            }
        }),
{
    let template = match routing_template {
        None => {
            return TemplateExport { nodes: default_nodes, context: None };
        },
        Some(t) => t,
    };
    let id = match template_source_id {
        None => {
            return TemplateExport { nodes: default_nodes, context: None };
        },
        Some(i) => i,
    };
    let template_nodes = find_template_nodes(source_nodes, id);
    if template_nodes.len() == 0 {
        let copy = crate::model::duplicate_nodes(&default_nodes);
        return TemplateExport {
            nodes: default_nodes,
            context: Some(RoutingTemplateExportContext { template, nodes: copy }),
        };
    }
    let others = other_source_list(source_nodes, id);
    let aggregator = Aggregator;
    let merged = aggregator.aggregate(others.as_slice()).nodes;
    let mut appended = drop_template_keys(merged, &template_nodes);
    rename_appended_conflicts(&template_nodes, &mut appended, source_nodes);
    let mut final_nodes = template_nodes;
    let ghost head = nodes_view(final_nodes@);
    let mut i: usize = 0;
    while i < appended.len()
        invariant
            i <= appended@.len(),
            nodes_view(final_nodes@) == head + nodes_view(appended@).take(i as int),
        decreases appended@.len() - i,
    {
        let ghost prev = final_nodes@;
        let copy = appended[i].duplicate();
        final_nodes.push(copy);
        proof {
            assert(nodes_view(final_nodes@) =~= nodes_view(prev).push(copy@));
            assert(nodes_view(appended@).take(i + 1) =~= nodes_view(appended@).take(i as int).push(
                appended@[i as int]@,
            ));
        }
        i += 1;
    }
    assert(nodes_view(appended@).take(appended@.len() as int) =~= nodes_view(appended@));
    TemplateExport {
        nodes: final_nodes,
        context: Some(RoutingTemplateExportContext { template, nodes: appended }),
    }
}

} // verus!

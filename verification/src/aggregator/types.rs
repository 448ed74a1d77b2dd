use vstd::prelude::*;

use crate::model::{NodeView, ProxyNode};

verus! {

/// The nodes one source contributed.
#[derive(Debug)]
pub struct SourceNodes {
    pub source_id: String,
    pub source_alias: Option<String>,
    pub nodes: Vec<ProxyNode>,
}

/// The abstract value of [`SourceNodes`].
pub struct SourceView {
    pub source_id: Seq<char>,
    pub source_alias: Option<Seq<char>>,
    pub nodes: Seq<NodeView>,
}

impl View for SourceNodes {
    type V = SourceView;

    open spec fn view(&self) -> SourceView {
        SourceView {
            source_id: self.source_id@,
            source_alias: self.source_alias.deep_view(),
            nodes: self.nodes@.map_values(|n: ProxyNode| n@),
        }
    }
}

/// The views of a sequence of sources.
pub open spec fn sources_view(sources: Seq<SourceNodes>) -> Seq<SourceView> {
    sources.map_values(|s: SourceNodes| s@)
}

impl SourceNodes {
    /// A copy of these nodes and their source.
    pub fn duplicate(&self) -> (r: SourceNodes)
        ensures
            r@ == self@,
    {
        let nodes = crate::model::duplicate_nodes(&self.nodes);
        let r = SourceNodes {
            source_id: self.source_id.clone(),
            source_alias: crate::model::copy_opt_string(&self.source_alias),
            nodes,
        };
        assert(r@.nodes =~= self@.nodes) by {
            assert(r@.nodes =~= crate::model::nodes_view(nodes@));
            assert(self@.nodes =~= crate::model::nodes_view(self.nodes@));
        }
        r
    }

    /// Nodes of a source without an alias.
    pub fn new(source_id: &str, nodes: Vec<ProxyNode>) -> (r: SourceNodes)
        ensures
            r.source_id@ == source_id@,
            r.source_alias is None,
            r.nodes == nodes,
    {
        SourceNodes { source_id: source_id.to_owned(), source_alias: None, nodes }
    }

    /// Nodes of a source that carries an alias.
    pub fn with_alias(source_id: &str, source_alias: &str, nodes: Vec<ProxyNode>) -> (r:
        SourceNodes)
        ensures
            r.source_id@ == source_id@,
            r.source_alias.deep_view() == Some(source_alias@),
            r.nodes == nodes,
    {
        SourceNodes {
            source_id: source_id.to_owned(),
            source_alias: Some(source_alias.to_owned()),
            nodes,
        }
    }
}

/// Node names grouped by region, regions in ascending order.
///
/// The groups are a vector sorted by region, not a `BTreeMap`: regions are text, and a
/// `BTreeMap` keyed by text has no specification in vstd that its order or lookups could
/// be proved against; the sorted vector states both (see `region_groups_ok`).
#[derive(Debug)]
pub struct RegionGroups {
    pub groups: Vec<(String, Vec<String>)>,
}

impl View for RegionGroups {
    type V = Seq<(Seq<char>, Seq<Seq<char>>)>;

    open spec fn view(&self) -> Seq<(Seq<char>, Seq<Seq<char>>)> {
        self.groups@.map_values(|g: (String, Vec<String>)| (g.0@, g.1.deep_view()))
    }
}

impl RegionGroups {
    /// The names of region `region`.
    pub fn get(&self, region: &str) -> (r: Option<&Vec<String>>)
        ensures
            match r {
                Some(names) => exists|i: int|
                    0 <= i < self@.len() && self@[i].0 == region@ && self@[i].1
                        == names.deep_view(),
                None => forall|i: int| 0 <= i < self@.len() ==> self@[i].0 != region@,
            },
    {
        let key = region.to_owned();
        let mut i: usize = 0;
        while i < self.groups.len()
            invariant
                i <= self.groups@.len(),
                key@ == region@,
                forall|t: int| 0 <= t < i ==> self@[t].0 != region@,
            decreases self.groups@.len() - i,
        {
            if self.groups[i].0 == key {
                assert(self@[i as int].0 == region@);
                return Some(&self.groups[i].1);
            }
            i += 1;
        }
        None
    }

    /// Whether region `region` has a group.
    pub fn contains_key(&self, region: &str) -> (r: bool)
        ensures
            r == exists|i: int| 0 <= i < self@.len() && self@[i].0 == region@,
    {
        self.get(region).is_some()
    }

    /// The number of regions.
    pub fn len(&self) -> (r: usize)
        ensures
            r == self@.len(),
    {
        self.groups.len()
    }
}

/// The de-duplicated nodes and the node names of each region.
#[derive(Debug)]
pub struct AggregationResult {
    pub nodes: Vec<ProxyNode>,
    pub region_groups: RegionGroups,
}

} // verus!

//! The proxy groups of a Clash configuration, kept as a routing template of a source.
use vstd::prelude::*;

use crate::parser::doc::{
    DocValue, as_list, as_map, as_text, entry_value, field_string, field_text, list_of, map_get,
    map_of, signed_of, text_of, untagged,
};
use crate::parser::common::opt_chars;
use crate::text::{chars_of, concat, string_from, texts_view, trim, trimmed};

verus! {

/// A proxy group of a Clash configuration.
#[derive(Debug)]
pub struct ClashRoutingTemplateGroup {
    pub name: String,
    pub group_type: String,
    pub proxies: Vec<String>,
    pub url: Option<String>,
    pub interval: Option<u32>,
    pub tolerance: Option<u16>,
}

/// The proxy groups of a Clash configuration.
#[derive(Debug)]
pub struct ClashRoutingTemplate {
    pub groups: Vec<ClashRoutingTemplateGroup>,
}

/// The abstract value of [`ClashRoutingTemplateGroup`].
pub struct GroupView {
    pub name: Seq<char>,
    pub group_type: Seq<char>,
    pub proxies: Seq<Seq<char>>,
    pub url: Option<Seq<char>>,
    pub interval: Option<u32>,
    pub tolerance: Option<u16>,
}

impl View for ClashRoutingTemplateGroup {
    type V = GroupView;

    open spec fn view(&self) -> GroupView {
        GroupView {
            name: self.name@,
            group_type: self.group_type@,
            proxies: self.proxies.deep_view(),
            url: self.url.deep_view(),
            interval: self.interval,
            tolerance: self.tolerance,
        }
    }
}

/// The views of a sequence of groups.
pub open spec fn groups_view(groups: Seq<ClashRoutingTemplateGroup>) -> Seq<GroupView> {
    groups.map_values(|g: ClashRoutingTemplateGroup| g@)
}

impl View for ClashRoutingTemplate {
    type V = Seq<GroupView>;

    open spec fn view(&self) -> Seq<GroupView> {
        groups_view(self.groups@)
    }
}

/// The settings key under which a source's routing template is stored.
pub open spec fn template_key(source_instance_id: Seq<char>) -> Seq<char> {
    "source."@ + source_instance_id + ".clash_routing_template"@
}

/// The settings key under which a source's routing template is stored.
pub fn source_routing_template_key(source_instance_id: &str) -> (r: String)
    ensures
        r@ == template_key(source_instance_id@),
{
    let a = concat(chars_of("source.").as_slice(), chars_of(source_instance_id).as_slice());
    let b = concat(a.as_slice(), chars_of(".clash_routing_template").as_slice());
    string_from(b.as_slice())
}

/// The text items of a list, trimmed, blank ones and non-text items left out.
pub open spec fn text_items(items: Seq<DocValue>) -> Seq<Seq<char>>
    decreases items.len(),
{
    if items.len() == 0 {
        Seq::empty()
    } else {
        let prev = text_items(items.drop_last());
        match text_of(items.last()) {
            Some(s) => if trim(s).len() > 0 {
                prev.push(trim(s))
            } else {
                prev
            },
            None => prev,
        }
    }
}

/// A whole number setting that fits in a `u32`.
pub open spec fn field_u32(m: Seq<(DocValue, DocValue)>, key: Seq<char>) -> Option<u32> {
    match entry_value(m, key) {
        Some(v) => match signed_of(v) {
            Some(n) => if 0 <= n <= u32::MAX {
                Some(n as u32)
            } else {
                None
            },
            None => None,
        },
        None => None,
    }
}

/// A whole number setting that fits in a `u16`.
pub open spec fn field_small(m: Seq<(DocValue, DocValue)>, key: Seq<char>) -> Option<u16> {
    match entry_value(m, key) {
        Some(v) => match signed_of(v) {
            Some(n) => if 0 <= n <= u16::MAX {
                Some(n as u16)
            } else {
                None
            },
            None => None,
        },
        None => None,
    }
}

/// The group a `proxy-groups` item describes: it must be a map with a non-blank `name`
/// and `type`.
pub open spec fn template_group(item: DocValue) -> Option<GroupView> {
    match map_of(item) {
        None => None,
        Some(m) => match field_text(m, "name"@) {
            None => None,
            Some(name) => match field_text(m, "type"@) {
                None => None,
                Some(group_type) => Some(
                    GroupView {
                        name,
                        group_type,
                        proxies: match entry_value(m, "proxies"@) {
                            Some(v) => match list_of(v) {
                                Some(items) => text_items(items),
                                None => Seq::empty(),
                            },
                            None => Seq::empty(),
                        },
                        url: field_text(m, "url"@),
                        interval: field_u32(m, "interval"@),
                        tolerance: field_small(m, "tolerance"@),
                    },
                ),
            },
        },
    }
}

/// The groups that the items of `proxy-groups` describe, in order.
pub open spec fn template_groups(items: Seq<DocValue>) -> Seq<GroupView>
    decreases items.len(),
{
    if items.len() == 0 {
        Seq::empty()
    } else {
        match template_group(items.last()) {
            Some(g) => template_groups(items.drop_last()).push(g),
            None => template_groups(items.drop_last()),
        }
    }
}

/// The routing template of a Clash configuration: the groups of its `proxy-groups` list;
/// nothing when the document has no such list or no group in it is usable.
pub open spec fn routing_template(root: DocValue) -> Option<Seq<GroupView>> {
    match map_of(root) {
        None => None,
        Some(m) => match entry_value(m, "proxy-groups"@) {
            None => None,
            Some(v) => match list_of(v) {
                None => None,
                Some(items) => if template_groups(items).len() == 0 {
                    None
                } else {
                    Some(template_groups(items))
                },
            },
        },
    }
}

/// The text items of a list (see [`text_items`]).
fn list_texts(items: &Vec<DocValue>) -> (r: Vec<String>)
    ensures
        r.deep_view() == text_items(items@),
{
    let mut out: Vec<String> = Vec::new();
    let mut i: usize = 0;
    assert(items@.take(0) =~= Seq::<DocValue>::empty());
    while i < items.len()
        invariant
            i <= items@.len(),
            out.deep_view() == text_items(items@.take(i as int)),
        decreases items@.len() - i,
    {
        proof {
            assert(items@.take(i + 1).drop_last() =~= items@.take(i as int));
            assert(items@.take(i + 1).last() == items@[i as int]);
        }
        match as_text(&items[i]) {
            Some(s) => {
                let t = trimmed(chars_of(s.as_str()).as_slice());
                if t.len() > 0 {
                    let ghost prev = out.deep_view();
                    out.push(string_from(t.as_slice()));
                    assert(out.deep_view() =~= prev.push(t@));
                }
            },
            None => {},
        }
        i += 1;
    }
    assert(items@.take(items@.len() as int) =~= items@);
    out
}

/// A whole number setting that fits in a `u32` (see [`field_u32`]).
fn number_u32(m: &Vec<(DocValue, DocValue)>, key: &str) -> (r: Option<u32>)
    ensures
        r == field_u32(m@, key@),
{
    match map_get(m, key) {
        Some(v) => match untagged(v) {
            DocValue::Number(n) => match n.signed {
                Some(x) => if 0 <= x && x <= 4294967295 {
                    Some(x as u32)
                } else {
                    None
                },
                None => None,
            },
            _ => None,
        },
        None => None,
    }
}

/// A whole number setting that fits in a `u16` (see [`field_small`]).
fn number_u16(m: &Vec<(DocValue, DocValue)>, key: &str) -> (r: Option<u16>)
    ensures
        r == field_small(m@, key@),
{
    match map_get(m, key) {
        Some(v) => match untagged(v) {
            DocValue::Number(n) => match n.signed {
                Some(x) => if 0 <= x && x <= 65535 {
                    Some(x as u16)
                } else {
                    None
                },
                None => None,
            },
            _ => None,
        },
        None => None,
    }
}

fn opt_string(v: Option<Vec<char>>) -> (r: Option<String>)
    ensures
        r.deep_view() == opt_chars(v),
{
    match v {
        Some(s) => Some(string_from(s.as_slice())),
        None => None,
    }
}

/// The group a `proxy-groups` item describes (see [`template_group`]).
fn group_of(item: &DocValue) -> (r: Option<ClashRoutingTemplateGroup>)
    ensures
        match r {
            Some(g) => template_group(*item) == Some(g@),
            None => template_group(*item) is None,
        },
{
    let m = match as_map(item) {
        Some(m) => m,
        None => {
            return None;
        },
    };
    let name = match field_string(m, "name") {
        Some(n) => n,
        None => {
            return None;
        },
    };
    let group_type = match field_string(m, "type") {
        Some(t) => t,
        None => {
            return None;
        },
    };
    let proxies = match map_get(m, "proxies") {
        Some(v) => match as_list(v) {
            Some(items) => list_texts(items),
            None => Vec::new(),
        },
        None => Vec::new(),
    };
    let g = ClashRoutingTemplateGroup {
        name: string_from(name.as_slice()),
        group_type: string_from(group_type.as_slice()),
        proxies,
        url: opt_string(field_string(m, "url")),
        interval: number_u32(m, "interval"),
        tolerance: number_u16(m, "tolerance"),
    };
    proof {
        if g.proxies.deep_view().len() == 0 {
            assert(g.proxies.deep_view() =~= Seq::<Seq<char>>::empty());
        }
    }
    Some(g)
}

/// The routing template of a Clash configuration (see [`routing_template`]); `root` is
/// the parsed YAML document.
pub fn extract_clash_routing_template(root: &DocValue) -> (r: Option<ClashRoutingTemplate>)
    ensures
        match r {
            Some(t) => routing_template(*root) == Some(t@),
            None => routing_template(*root) is None,
        },
{
    let m = match as_map(root) {
        Some(m) => m,
        None => {
            return None;
        },
    };
    let items = match map_get(m, "proxy-groups") {
        Some(v) => match as_list(v) {
            Some(items) => items,
            None => {
                return None;
            },
        },
        None => {
            return None;
        },
    };
    let mut groups: Vec<ClashRoutingTemplateGroup> = Vec::new();
    let mut i: usize = 0;
    assert(items@.take(0) =~= Seq::<DocValue>::empty());
    assert(groups_view(groups@) =~= Seq::<GroupView>::empty());
    while i < items.len()
        invariant
            i <= items@.len(),
            groups_view(groups@) == template_groups(items@.take(i as int)),
        decreases items@.len() - i,
    {
        proof {
            assert(items@.take(i + 1).drop_last() =~= items@.take(i as int));
            assert(items@.take(i + 1).last() == items@[i as int]);
        }
        match group_of(&items[i]) {
            Some(g) => {
                let ghost prev = groups@;
                groups.push(g);
                assert(groups_view(groups@) =~= groups_view(prev).push(g@));
            },
            None => {},
        }
        i += 1;
    }
    assert(items@.take(items@.len() as int) =~= items@);
    if groups.len() == 0 {
        None
    } else {
        Some(ClashRoutingTemplate { groups })
    }
}

} // verus!

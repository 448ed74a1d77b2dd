//! Payloads that are not URI lists: Clash-like YAML, Clash-like JSON, then text lines.
use vstd::prelude::*;

use crate::model::{NodeView, ProxyNode, nodes_view};
use crate::parser::clash::{clash_json, clash_yaml, try_parse_clash_like_json, try_parse_clash_like_yaml};
use crate::parser::doc::DocValue;
use crate::parser::ini::{ini_nodes, parse_ini_like_lines};
use crate::text::{chars_of, trim, trimmed};

verus! {

/// The nodes of a payload that is not a URI list. `yaml` and `json` are what the YAML and
/// JSON parsers made of the payload (nothing where it did not parse). A blank payload
/// gives no nodes; a YAML document with a proxy list gives its nodes, else a JSON
/// document with one, else the payload is read as text lines.
pub open spec fn non_uri_nodes(
    source_id: Seq<char>,
    payload: Seq<char>,
    yaml: Option<DocValue>,
    json: Option<DocValue>,
    updated_at: Seq<char>,
) -> Seq<NodeView> {
    if trim(payload).len() == 0 {
        Seq::empty()
    } else {
        let from_yaml = match yaml {
            Some(root) => clash_yaml(source_id, root, updated_at),
            None => None,
        };
        match from_yaml {
            Some(nodes) => nodes,
            None => {
                let from_json = match json {
                    Some(root) => clash_json(source_id, root, updated_at),
                    None => None,
                };
                match from_json {
                    Some(nodes) => nodes,
                    None => ini_nodes(source_id, payload, updated_at),
                }
            },
        }
    }
}

/// Reads a payload that is not a URI list (see [`non_uri_nodes`]).
pub fn parse_non_uri_payload(
    source_id: &str,
    payload: &str,
    yaml: &Option<DocValue>,
    json: &Option<DocValue>,
    updated_at: &str,
) -> (r: Vec<ProxyNode>)
    ensures
        nodes_view(r@) == non_uri_nodes(source_id@, payload@, *yaml, *json, updated_at@),
{
    let t = trimmed(chars_of(payload).as_slice());
    if t.len() == 0 {
        let none: Vec<ProxyNode> = Vec::new();
        assert(nodes_view(none@) =~= Seq::<NodeView>::empty());
        return none;
    }
    match yaml {
        Some(root) => match try_parse_clash_like_yaml(source_id, root, updated_at) {
            Some(nodes) => {
                return nodes;
            },
            None => {},
        },
        None => {},
    }
    match json {
        Some(root) => match try_parse_clash_like_json(source_id, root, updated_at) {
            Some(nodes) => {
                return nodes;
            },
            None => {},
        },
        None => {},
    }
    parse_ini_like_lines(source_id, payload, updated_at)
}

} // verus!

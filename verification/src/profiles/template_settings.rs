//! Settings keys and checks of a profile's routing template source.
use vstd::prelude::*;

use crate::text::{chars_of, concat, same_str, string_from, trim, trimmed};

verus! {

/// The settings key that names the routing template source of a profile.
pub open spec fn profile_template_key(profile_id: Seq<char>) -> Seq<char> {
    "profile."@ + profile_id + ".clash_template_source_id"@
}

/// The settings key that names the routing template source of a profile.
pub fn profile_routing_template_source_key(profile_id: &str) -> (r: String)
    ensures
        r@ == profile_template_key(profile_id@),
{
    let a = concat(chars_of("profile.").as_slice(), chars_of(profile_id).as_slice());
    let b = concat(a.as_slice(), chars_of(".clash_template_source_id").as_slice());
    string_from(b.as_slice())
}

/// A routing template source id as given: trimmed, and nothing when blank.
pub open spec fn normalized_source_id(value: Option<Seq<char>>) -> Option<Seq<char>> {
    match value {
        None => None,
        Some(v) => if trim(v).len() == 0 {
            None
        } else {
            Some(trim(v))
        },
    }
}

/// Normalizes a routing template source id (see [`normalized_source_id`]).
pub fn normalize_routing_template_source_id(value: Option<&str>) -> (r: Option<String>)
    ensures
        r.deep_view() == normalized_source_id(
            match value {
                Some(v) => Some(v@),
                None => None,
            },
        ),
{
    match value {
        None => None,
        Some(v) => {
            let t = trimmed(chars_of(v).as_slice());
            if t.len() == 0 {
                None
            } else {
                Some(string_from(t.as_slice()))
            }
        },
    }
}

/// The message of a routing template source that is not among the profile's sources.
pub open spec fn out_of_scope_message() -> Seq<char> {
    "routing_template_source_id 必须包含在 profile.source_ids 中"@
}

/// Whether `list` holds the text `t`.
pub fn list_contains(list: &Vec<String>, t: &str) -> (r: bool)
    ensures
        r == list.deep_view().contains(t@),
{
    let mut i: usize = 0;
    while i < list.len()
        invariant
            i <= list@.len(),
            forall|k: int| 0 <= k < i ==> list.deep_view()[k] != t@,
        decreases list@.len() - i,
    {
        if same_str(chars_of(list[i].as_str()).as_slice(), t) {
            assert(list.deep_view()[i as int] == t@);
            return true;
        }
        i += 1;
    }
    false
}

/// Checks that the routing template source, if any, is one of the profile's sources;
/// the error is [`out_of_scope_message`]. (That the source exists at all is checked
/// against the database before.)
pub fn ensure_routing_template_source_in_scope(source_ids: &Vec<String>, template_source_id: Option<&str>) -> (r:
    Result<(), String>)
    ensures
        match template_source_id {
            None => r is Ok,
            Some(t) => match r {
                Ok(_) => source_ids.deep_view().contains(t@),
                Err(m) => !source_ids.deep_view().contains(t@) && m@ == out_of_scope_message(),
            },
        },
{
    let t = match template_source_id {
        None => {
            return Ok(());
        },
        Some(t) => t,
    };
    if list_contains(source_ids, t) {
        return Ok(());
    }
    Err("routing_template_source_id 必须包含在 profile.source_ids 中".to_owned())
}

/// A profile name as given: trimmed, and refused when blank.
pub open spec fn profile_name_of(raw: Seq<char>) -> Result<Seq<char>, Seq<char>> {
    if trim(raw).len() == 0 {
        Err("profile.name 不能为空"@)
    } else {
        Ok(trim(raw))
    }
}

/// Checks a profile name (see [`profile_name_of`]).
pub fn profile_name(raw: &str) -> (r: Result<String, String>)
    ensures
        match r {
            Ok(n) => profile_name_of(raw@) == Ok::<Seq<char>, Seq<char>>(n@),
            Err(m) => profile_name_of(raw@) == Err::<Seq<char>, Seq<char>>(m@),
        },
{
    let t = trimmed(chars_of(raw).as_slice());
    if t.len() == 0 {
        Err("profile.name 不能为空".to_owned())
    } else {
        Ok(string_from(t.as_slice()))
    }
}

/// The routing template source of a profile after an update: the current one when the
/// update does not mention it, else the requested one normalized (a requested `None` or
/// blank id clears it).
pub fn requested_template_source(current: Option<String>, requested: Option<Option<&str>>) -> (r: Option<String>)
    ensures
        r.deep_view() == match requested {
            None => current.deep_view(),
            Some(v) => normalized_source_id(
                match v {
                    Some(s) => Some(s@),
                    None => None,
                },
            ),
        },
{
    match requested {
        None => current,
        Some(v) => normalize_routing_template_source_id(v),
    }
}

} // verus!

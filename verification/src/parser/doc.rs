//! A parsed YAML or JSON document, as the non-URI parsers read it.
//!
//! The tree holds what the parsers look at: text, numbers (with the text a number prints
//! as and its value where it is a whole number), booleans, lists, maps and YAML tags.
//! Maps keep their entries in document order; a parsed document never has two entries
//! with the same key.
use vstd::prelude::*;

use crate::parser::common::{opt_chars, port_of, parse_port};
use crate::parser::helpers::{bool_like, parse_bool_like};
use crate::text::{chars_of, same_str, trim, trimmed};

verus! {

/// A number of a document.
#[derive(Debug)]
pub struct DocNumber {
    /// The text the number prints as.
    pub text: String,
    /// The number, where it is a whole number that fits in a `u64`.
    pub unsigned: Option<u64>,
    /// The number, where it is a whole number that fits in an `i64`.
    pub signed: Option<i64>,
}

/// A value of a parsed document.
#[derive(Debug)]
pub enum DocValue {
    Null,
    Bool(bool),
    Number(DocNumber),
    Text(String),
    List(Vec<DocValue>),
    Mapping(Vec<(DocValue, DocValue)>),
    /// A YAML value with a tag (`!tag value`).
    Tagged(Box<DocValue>),
}

/// A value with its tags taken off.
pub open spec fn untag(v: DocValue) -> DocValue
    decreases v,
{
    match v {
        DocValue::Tagged(inner) => untag(*inner),
        _ => v,
    }
}

/// A value with its tags taken off.
pub fn untagged(v: &DocValue) -> (r: &DocValue)
    ensures
        *r == untag(*v),
    decreases v,
{
    match v {
        DocValue::Tagged(inner) => untagged(&**inner),
        _ => v,
    }
}

/// The value of the entry whose key is the text `key`.
pub open spec fn entry_value(entries: Seq<(DocValue, DocValue)>, key: Seq<char>) -> Option<DocValue>
    decreases entries.len(),
{
    if entries.len() == 0 {
        None
    } else if entries[0].0 matches DocValue::Text(k) && k@ == key {
        Some(entries[0].1)
    } else {
        entry_value(entries.drop_first(), key)
    }
}

/// The value of the entry whose key is the text `key`.
pub fn map_get<'a>(entries: &'a Vec<(DocValue, DocValue)>, key: &str) -> (r: Option<&'a DocValue>)
    ensures
        match r {
            Some(v) => entry_value(entries@, key@) == Some(*v),
            None => entry_value(entries@, key@) is None,
        },
{
    let mut i: usize = 0;
    assert(entries@.skip(0) =~= entries@);
    while i < entries.len()
        invariant
            i <= entries@.len(),
            entry_value(entries@, key@) == entry_value(entries@.skip(i as int), key@),
        decreases entries@.len() - i,
    {
        assert(entries@.skip(i as int)[0] == entries@[i as int]);
        assert(entries@.skip(i as int).drop_first() =~= entries@.skip(i + 1));
        match &entries[i].0 {
            DocValue::Text(k) => {
                if same_str(chars_of(k.as_str()).as_slice(), key) {
                    return Some(&entries[i].1);
                }
            },
            _ => {},
        }
        i += 1;
    }
    None
}

/// The entries of a map value.
pub open spec fn map_of(v: DocValue) -> Option<Seq<(DocValue, DocValue)>> {
    match untag(v) {
        DocValue::Mapping(entries) => Some(entries@),
        _ => None,
    }
}

/// The items of a list value.
pub open spec fn list_of(v: DocValue) -> Option<Seq<DocValue>> {
    match untag(v) {
        DocValue::List(items) => Some(items@),
        _ => None,
    }
}

/// The text of a text value.
pub open spec fn text_of(v: DocValue) -> Option<Seq<char>> {
    match untag(v) {
        DocValue::Text(s) => Some(s@),
        _ => None,
    }
}

/// A boolean value.
pub open spec fn bool_of(v: DocValue) -> Option<bool> {
    match untag(v) {
        DocValue::Bool(b) => Some(b),
        _ => None,
    }
}

/// A whole number that fits in a `u64`.
pub open spec fn unsigned_of(v: DocValue) -> Option<u64> {
    match untag(v) {
        DocValue::Number(n) => n.unsigned,
        _ => None,
    }
}

/// A whole number that fits in an `i64`.
pub open spec fn signed_of(v: DocValue) -> Option<i64> {
    match untag(v) {
        DocValue::Number(n) => n.signed,
        _ => None,
    }
}

/// The entries of a map value.
pub fn as_map(v: &DocValue) -> (r: Option<&Vec<(DocValue, DocValue)>>)
    ensures
        match r {
            Some(e) => map_of(*v) == Some(e@),
            None => map_of(*v) is None,
        },
{
    match untagged(v) {
        DocValue::Mapping(entries) => Some(entries),
        _ => None,
    }
}

/// The items of a list value.
pub fn as_list(v: &DocValue) -> (r: Option<&Vec<DocValue>>)
    ensures
        match r {
            Some(items) => list_of(*v) == Some(items@),
            None => list_of(*v) is None,
        },
{
    match untagged(v) {
        DocValue::List(items) => Some(items),
        _ => None,
    }
}

/// The text of a text value.
pub fn as_text(v: &DocValue) -> (r: Option<&String>)
    ensures
        match r {
            Some(s) => text_of(*v) == Some(s@),
            None => text_of(*v) is None,
        },
{
    match untagged(v) {
        DocValue::Text(s) => Some(s),
        _ => None,
    }
}

/// A text setting of a map: present, text, and not blank once trimmed.
pub open spec fn field_text(entries: Seq<(DocValue, DocValue)>, key: Seq<char>) -> Option<Seq<char>> {
    match entry_value(entries, key) {
        Some(v) => match text_of(v) {
            Some(s) => if trim(s).len() > 0 {
                Some(trim(s))
            } else {
                None
            },
            None => None,
        },
        None => None,
    }
}

/// A setting of a JSON object read as text: text trimmed (nothing when blank), a number
/// as the text it prints as, a boolean as `true` or `false`.
pub open spec fn json_field_text(entries: Seq<(DocValue, DocValue)>, key: Seq<char>) -> Option<Seq<char>> {
    match entry_value(entries, key) {
        Some(v) => match v {
            DocValue::Text(s) => if trim(s@).len() > 0 {
                Some(trim(s@))
            } else {
                None
            },
            DocValue::Number(n) => Some(n.text@),
            DocValue::Bool(b) => Some(
                if b {
                    "true"@
                } else {
                    "false"@
                },
            ),
            _ => None,
        },
        None => None,
    }
}

/// A port setting: a whole number up to 65535, or text that reads as a `u16` once
/// trimmed.
pub open spec fn field_port(entries: Seq<(DocValue, DocValue)>, key: Seq<char>) -> Option<u16> {
    match entry_value(entries, key) {
        None => None,
        Some(v) => {
            let whole = match unsigned_of(v) {
                Some(n) => if n <= 65535 {
                    Some(n as u16)
                } else {
                    None
                },
                None => None,
            };
            match whole {
                Some(p) => Some(p),
                None => match text_of(v) {
                    Some(s) => match port_of(trim(s)) {
                        Ok(p) => Some(p),
                        Err(_) => None,
                    },
                    None => None,
                },
            }
        },
    }
}

/// A switch setting: a boolean, or text read as [`bool_like`].
pub open spec fn field_bool(entries: Seq<(DocValue, DocValue)>, key: Seq<char>) -> Option<bool> {
    match entry_value(entries, key) {
        None => None,
        Some(v) => match bool_of(v) {
            Some(b) => Some(b),
            None => match text_of(v) {
                Some(s) => Some(bool_like(s)),
                None => None,
            },
        },
    }
}

/// A text setting of a map (see [`field_text`]).
pub fn field_string(entries: &Vec<(DocValue, DocValue)>, key: &str) -> (r: Option<Vec<char>>)
    ensures
        opt_chars(r) == field_text(entries@, key@),
{
    match map_get(entries, key) {
        Some(v) => match as_text(v) {
            Some(s) => {
                let t = trimmed(chars_of(s.as_str()).as_slice());
                if t.len() > 0 {
                    Some(t)
                } else {
                    None
                }
            },
            None => None,
        },
        None => None,
    }
}

/// A setting of a JSON object read as text (see [`json_field_text`]).
pub fn json_field_string(entries: &Vec<(DocValue, DocValue)>, key: &str) -> (r: Option<Vec<char>>)
    ensures
        opt_chars(r) == json_field_text(entries@, key@),
{
    match map_get(entries, key) {
        Some(v) => match v {
            DocValue::Text(s) => {
                let t = trimmed(chars_of(s.as_str()).as_slice());
                if t.len() > 0 {
                    Some(t)
                } else {
                    None
                }
            },
            DocValue::Number(n) => Some(chars_of(n.text.as_str())),
            DocValue::Bool(b) => Some(
                chars_of(
                    if *b {
                        "true"
                    } else {
                        "false"
                    },
                ),
            ),
            _ => None,
        },
        None => None,
    }
}

/// A port setting (see [`field_port`]).
pub fn field_u16(entries: &Vec<(DocValue, DocValue)>, key: &str) -> (r: Option<u16>)
    ensures
        r == field_port(entries@, key@),
{
    match map_get(entries, key) {
        None => None,
        Some(v) => {
            let whole: Option<u16> = match untagged(v) {
                DocValue::Number(n) => match n.unsigned {
                    Some(raw) => if raw <= 65535 {
                        Some(raw as u16)
                    } else {
                        None
                    },
                    None => None,
                },
                _ => None,
            };
            match whole {
                Some(p) => Some(p),
                None => match as_text(v) {
                    Some(s) => {
                        let t = trimmed(chars_of(s.as_str()).as_slice());
                        match parse_port(t.as_slice()) {
                            Ok(p) => Some(p),
                            Err(_) => None,
                        }
                    },
                    None => None,
                },
            }
        },
    }
}

/// A switch setting (see [`field_bool`]).
pub fn field_flag(entries: &Vec<(DocValue, DocValue)>, key: &str) -> (r: Option<bool>)
    ensures
        r == field_bool(entries@, key@),
{
    match map_get(entries, key) {
        None => None,
        Some(v) => match untagged(v) {
            DocValue::Bool(b) => Some(*b),
            _ => match as_text(v) {
                Some(s) => Some(parse_bool_like(chars_of(s.as_str()).as_slice())),
                None => None,
            },
        },
    }
}

} // verus!

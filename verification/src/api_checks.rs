//! Checks that the management API makes on requests before it touches the database.
use vstd::prelude::*;

use crate::text::{chars_of, same_str, string_from, trim, trimmed};

verus! {

/// How many refresh logs are listed when the request names no limit.
pub const DEFAULT_LOG_LIMIT: usize = 20;

/// The largest number of refresh logs one request may list.
pub const MAX_LOG_LIMIT: usize = 200;

/// What a request for refresh logs asks for: how many, and of which status.
pub open spec fn logs_query(limit: Option<usize>, status: Option<Seq<char>>) -> Result<(usize, Option<Seq<char>>), Seq<char>> {
    let n = match limit {
        Some(l) => l,
        None => DEFAULT_LOG_LIMIT,
    };
    let filter = match status {
        Some(s) => if trim(s).len() > 0 {
            Some(trim(s))
        } else {
            None
        },
        None => None,
    };
    if n == 0 || n > MAX_LOG_LIMIT {
        Err("limit 必须在 1..=200 之间"@)
    } else if filter matches Some(f) && !(f == "running"@ || f == "success"@ || f == "failed"@) {
        Err("status 仅支持 running/success/failed"@)
    } else {
        Ok((n, filter))
    }
}

/// Checks a request for refresh logs (see [`logs_query`]): the limit (20 when absent)
/// must lie in 1..=200, and a status filter, trimmed and not blank, must be `running`,
/// `success` or `failed`.
pub fn validate_logs_query(limit: Option<usize>, status: Option<&str>) -> (r: Result<(usize, Option<String>), String>)
    ensures
        match r {
            Ok(q) => logs_query(
                limit,
                match status {
                    Some(s) => Some(s@),
                    None => None,
                },
            ) == Ok::<(usize, Option<Seq<char>>), Seq<char>>((q.0, q.1.deep_view())),
            Err(m) => logs_query(
                limit,
                match status {
                    Some(s) => Some(s@),
                    None => None,
                },
            ) == Err::<(usize, Option<Seq<char>>), Seq<char>>(m@),
        },
{
    let n = match limit {
        Some(l) => l,
        None => DEFAULT_LOG_LIMIT,
    };
    let filter: Option<Vec<char>> = match status {
        Some(s) => {
            let t = trimmed(chars_of(s).as_slice());
            if t.len() > 0 {
                Some(t)
            } else {
                None
            }
        },
        None => None,
    };
    if n == 0 || n > MAX_LOG_LIMIT {
        return Err("limit 必须在 1..=200 之间".to_owned());
    }
    match filter {
        Some(f) => {
            if !(same_str(f.as_slice(), "running") || same_str(f.as_slice(), "success") || same_str(
                f.as_slice(),
                "failed",
            )) {
                return Err("status 仅支持 running/success/failed".to_owned());
            }
            Ok((n, Some(string_from(f.as_slice()))))
        },
        None => Ok((n, None)),
    }
}

/// Checks the keys of a settings update: there must be at least one setting, and the
/// first key that is blank (trimmed) is refused.
pub open spec fn settings_update_check(keys: Seq<Seq<char>>) -> Result<(), Seq<char>> {
    if keys.len() == 0 {
        Err("请求体 settings 不能为空"@)
    } else if exists|i: int| 0 <= i < keys.len() && trim(#[trigger] keys[i]).len() == 0 {
        Err("设置键不能为空"@)
    } else {
        Ok(())
    }
}

/// Checks the keys of a settings update (see [`settings_update_check`]).
pub fn validate_settings_update(keys: &Vec<String>) -> (r: Result<(), String>)
    ensures
        match r {
            Ok(_) => settings_update_check(keys.deep_view()) is Ok,
            Err(m) => settings_update_check(keys.deep_view()) == Err::<(), Seq<char>>(m@),
        },
{
    if keys.len() == 0 {
        return Err("请求体 settings 不能为空".to_owned());
    }
    let mut i: usize = 0;
    while i < keys.len()
        invariant
            i <= keys@.len(),
            forall|k: int| 0 <= k < i ==> trim(#[trigger] keys.deep_view()[k]).len() > 0,
        decreases keys@.len() - i,
    {
        let t = trimmed(chars_of(keys[i].as_str()).as_slice());
        if t.len() == 0 {
            assert(trim(keys.deep_view()[i as int]).len() == 0);
            return Err("设置键不能为空".to_owned());
        }
        i += 1;
    }
    Ok(())
}

} // verus!

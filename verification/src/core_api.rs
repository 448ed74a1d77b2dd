//! What the desktop shell does with requests to the core API and with its responses
//! before they reach the front end.
use vstd::prelude::*;

use crate::desktop::{admin_token_route, is_admin_token_path, normalize_path, normalized_path};
use crate::parser::doc::DocValue;
use crate::sanitizer::{redact_sensitive_text, redacted_text};
use crate::parser::base64::{Base64Alphabet, base64_decoded, decode_standard};
use crate::text::{
    ascii_lower, chars_of, concat, decimal, decimal_of, ends_with, has_prefix, has_suffix,
    lowercase, replace_text, replaced, same_str, starts_with, string_from,
};

verus! {

/// What an admin token in a response is replaced with.
pub open spec fn redacted_value() -> Seq<char> {
    "***REDACTED***"@
}

/// Text of a response with the admin token (when one is given and not empty) replaced,
/// then generic secrets masked.
pub open spec fn sanitized_response_text(text: Seq<char>, admin_token: Option<Seq<char>>) -> Seq<char> {
    let t = match admin_token {
        Some(token) => if token.len() > 0 {
            replaced(text, token, redacted_value())
        } else {
            text
        },
        None => text,
    };
    redacted_text(t)
}

/// The headers of a response with each value sanitized; names and order are kept.
pub open spec fn sanitized_headers(
    headers: Seq<(Seq<char>, Seq<char>)>,
    admin_token: Option<Seq<char>>,
) -> Seq<(Seq<char>, Seq<char>)> {
    headers.map_values(
        |h: (Seq<char>, Seq<char>)| (h.0, sanitized_response_text(h.1, admin_token)),
    )
}

/// The view of header pairs.
pub open spec fn header_view(h: Seq<(String, String)>) -> Seq<(Seq<char>, Seq<char>)> {
    h.map_values(|p: (String, String)| (p.0@, p.1@))
}

/// The view of an optional token.
pub open spec fn token_view(t: Option<&str>) -> Option<Seq<char>> {
    match t {
        Some(s) => Some(s@),
        None => None,
    }
}

/// Sanitizes one piece of response text (see [`sanitized_response_text`]).
pub fn sanitize_response_text(text: &str, admin_token: Option<&str>) -> (r: String)
    ensures
        r@ == sanitized_response_text(text@, token_view(admin_token)),
{
    let replaced_text = match admin_token {
        Some(token) => {
            let tc = chars_of(token);
            if tc.len() > 0 {
                let t = replace_text(chars_of(text).as_slice(), tc.as_slice(), chars_of("***REDACTED***").as_slice());
                string_from(t.as_slice())
            } else {
                text.to_owned()
            }
        },
        None => text.to_owned(),
    };
    redact_sensitive_text(replaced_text.as_str())
}

/// Sanitizes the headers and the body text of a core API response: the admin token
/// (when given and not empty) is replaced by `***REDACTED***`, then generic secrets are
/// masked. The text is all this function works on: blanking the admin-token fields of
/// a JSON body is a separate step on the parsed document (see
/// [`redact_admin_token_fields`]).
pub fn sanitize_core_response_text(headers: Vec<(String, String)>, body: String, admin_token: Option<&str>) -> (r: (
    Vec<(String, String)>,
    String,
))
    ensures
        header_view(r.0@) == sanitized_headers(header_view(headers@), token_view(admin_token)),
        r.1@ == sanitized_response_text(body@, token_view(admin_token)),
{
    let mut out: Vec<(String, String)> = Vec::new();
    let mut i: usize = 0;
    while i < headers.len()
        invariant
            i <= headers@.len(),
            header_view(out@) == sanitized_headers(header_view(headers@), token_view(admin_token)).take(
                i as int,
            ),
        decreases headers@.len() - i,
    {
        let name = headers[i].0.clone();
        let value = sanitize_response_text(headers[i].1.as_str(), admin_token);
        let ghost prev = out@;
        out.push((name, value));
        proof {
            assert(header_view(out@) =~= header_view(prev).push((headers@[i as int].0@, value@)));
            assert(sanitized_headers(header_view(headers@), token_view(admin_token)).take(i + 1)
                =~= sanitized_headers(header_view(headers@), token_view(admin_token)).take(
                i as int,
            ).push((headers@[i as int].0@, value@)));
        }
        i += 1;
    }
    assert(sanitized_headers(header_view(headers@), token_view(admin_token)).take(headers@.len() as int)
        =~= sanitized_headers(header_view(headers@), token_view(admin_token)));
    let body_text = sanitize_response_text(body.as_str(), admin_token);
    (out, body_text)
}

/// The text with `'_'` and `'-'` removed.
pub open spec fn without_separators(key: Seq<char>) -> Seq<char>
    decreases key.len(),
{
    if key.len() == 0 {
        key
    } else if key.last() == '_' || key.last() == '-' {
        without_separators(key.drop_last())
    } else {
        without_separators(key.drop_last()).push(key.last())
    }
}

/// A key that names the admin token: `admintoken` once `'_'` and `'-'` are removed,
/// ASCII case ignored.
pub open spec fn is_admin_token_key(key: Seq<char>) -> bool {
    ascii_lower(without_separators(key)) == "admintoken"@
}

/// Whether a key names the admin token (see [`is_admin_token_key`]).
pub fn admin_token_key(key: &str) -> (r: bool)
    ensures
        r == is_admin_token_key(key@),
{
    let chars = chars_of(key);
    let mut kept: Vec<char> = Vec::new();
    let mut i: usize = 0;
    assert(chars@.take(0) =~= Seq::<char>::empty());
    while i < chars.len()
        invariant
            i <= chars@.len(),
            kept@ == without_separators(chars@.take(i as int)),
        decreases chars@.len() - i,
    {
        proof {
            assert(chars@.take(i + 1).drop_last() =~= chars@.take(i as int));
            assert(chars@.take(i + 1).last() == chars@[i as int]);
        }
        let c = chars[i];
        if c != '_' && c != '-' {
            kept.push(c);
        }
        i += 1;
    }
    assert(chars@.take(chars@.len() as int) =~= chars@);
    let lowered = lowercase(kept.as_slice());
    same_str(lowered.as_slice(), "admintoken")
}

/// `r` is `v` with the value of every admin-token key of a map, at any depth, replaced
/// by the text `***REDACTED***`; lists are searched too, other values stay as they are.
pub open spec fn admin_fields_redacted(v: DocValue, r: DocValue) -> bool
    decreases v,
{
    match v {
        DocValue::Mapping(entries) => match r {
            DocValue::Mapping(out) => {
                &&& out@.len() == entries@.len()
                &&& forall|i: int|
                    0 <= i < entries@.len() ==> {
                        &&& (#[trigger] out@[i]).0 == entries@[i].0
                        &&& if entries@[i].0 matches DocValue::Text(k) && is_admin_token_key(k@) {
                            out@[i].1 matches DocValue::Text(t) && t@ == redacted_value()
                        } else {
                            admin_fields_redacted(entries@[i].1, out@[i].1)
                        }
                    }
            },
            _ => false,
        },
        DocValue::List(items) => match r {
            DocValue::List(out) => {
                &&& out@.len() == items@.len()
                &&& forall|i: int|
                    0 <= i < items@.len() ==> admin_fields_redacted(items@[i], #[trigger] out@[i])
            },
            _ => false,
        },
        _ => r == v,
    }
}

/// Blanks the admin-token fields of a JSON value (see [`admin_fields_redacted`]).
pub fn redact_admin_token_fields(value: DocValue) -> (r: DocValue)
    ensures
        admin_fields_redacted(value, r),
    decreases value,
{
    let ghost whole = value;
    match value {
        DocValue::Mapping(entries) => {
            let ghost orig = entries@;
            let ghost field = entries;
            let mut rest = entries;
            let mut out: Vec<(DocValue, DocValue)> = Vec::new();
            while rest.len() > 0
                invariant
                    whole == value,
                    whole == DocValue::Mapping(field),
                    field@ == orig,
                    rest@ == orig.take(rest@.len() as int),
                    rest@.len() + out@.len() == orig.len(),
                    forall|j: int|
                        0 <= j < out@.len() ==> {
                            let i = rest@.len() + j;
                            &&& (#[trigger] out@[j]).0 == orig[i].0
                            &&& if orig[i].0 matches DocValue::Text(k) && is_admin_token_key(k@) {
                                out@[j].1 matches DocValue::Text(t) && t@ == redacted_value()
                            } else {
                                admin_fields_redacted(orig[i].1, out@[j].1)
                            }
                        },
                decreases rest@.len(),
            {
                let ghost before = rest@;
                let (key, nested) = rest.pop().unwrap();
                let ghost idx = rest@.len() as int;
                proof {
                    assert(rest@ =~= orig.take(idx));
                    assert(key == orig[idx].0 && nested == orig[idx].1);
                }
                let is_admin = match &key {
                    DocValue::Text(k) => admin_token_key(k.as_str()),
                    _ => false,
                };
                let new_value = if is_admin {
                    DocValue::Text("***REDACTED***".to_owned())
                } else {
                    proof {
                        assert(decreases_to!(whole => whole->Mapping_0));
                        assert(whole->Mapping_0 == field);
                        assert(decreases_to!(field => field@));
                        assert(decreases_to!(field@ => field@[idx]));
                        assert(decreases_to!(field@[idx] => field@[idx].1));
                    }
                    redact_admin_token_fields(nested)
                };
                let ghost prev = out@;
                out.insert(0, (key, new_value));
                proof {
                    assert forall|j: int| 0 <= j < out@.len() implies {
                        let i = rest@.len() + j;
                        &&& (#[trigger] out@[j]).0 == orig[i].0
                        &&& if orig[i].0 matches DocValue::Text(k) && is_admin_token_key(k@) {
                            out@[j].1 matches DocValue::Text(t) && t@ == redacted_value()
                        } else {
                            admin_fields_redacted(orig[i].1, out@[j].1)
                        }
                    } by {
                        if j > 0 {
                            assert(out@[j] == prev[j - 1]);
                        }
                    }
                }
            }
            DocValue::Mapping(out)
        },
        DocValue::List(items) => {
            let ghost orig = items@;
            let ghost field = items;
            let mut rest = items;
            let mut out: Vec<DocValue> = Vec::new();
            while rest.len() > 0
                invariant
                    whole == value,
                    whole == DocValue::List(field),
                    field@ == orig,
                    rest@ == orig.take(rest@.len() as int),
                    rest@.len() + out@.len() == orig.len(),
                    forall|j: int|
                        0 <= j < out@.len() ==> admin_fields_redacted(
                            orig[rest@.len() + j],
                            #[trigger] out@[j],
                        ),
                decreases rest@.len(),
            {
                let item = rest.pop().unwrap();
                let ghost idx = rest@.len() as int;
                proof {
                    assert(rest@ =~= orig.take(idx));
                    assert(item == orig[idx]);
                }
                proof {
                    assert(decreases_to!(whole => whole->List_0));
                    assert(whole->List_0 == field);
                    assert(decreases_to!(field => field@));
                    assert(decreases_to!(field@ => field@[idx]));
                }
                let new_item = redact_admin_token_fields(item);
                let ghost prev = out@;
                out.insert(0, new_item);
                proof {
                    assert forall|j: int| 0 <= j < out@.len() implies admin_fields_redacted(
                        orig[rest@.len() + j],
                        #[trigger] out@[j],
                    ) by {
                        if j > 0 {
                            assert(out@[j] == prev[j - 1]);
                        }
                    }
                }
            }
            DocValue::List(out)
        },
        other => other,
    }
}

/// The refusal of a front-end call to the admin-token API.
pub open spec fn admin_path_refusal() -> Seq<char> {
    "安全策略限制：前端 IPC 不允许调用 /api/admin-token/*"@
}

/// The refusal of a management call without an admin token.
pub open spec fn missing_token_refusal() -> Seq<char> {
    "当前会话没有管理 token，请先通过 GUI 启动 Core 再调用管理 API"@
}

/// How a front-end call to the core API is made.
#[derive(Debug)]
pub struct ProxyCallPlan {
    /// The normalized path.
    pub path: String,
    /// The base URL followed by the path.
    pub url: String,
    /// Management calls (under `/api/`) need the admin token and an authenticated core.
    pub requires_admin_auth: bool,
    /// The token sent as bearer credential and redacted from the response.
    pub admin_token: Option<String>,
}

/// The abstract value of [`ProxyCallPlan`].
pub struct PlanView {
    pub path: Seq<char>,
    pub url: Seq<char>,
    pub requires_admin_auth: bool,
    pub admin_token: Option<Seq<char>>,
}

impl View for ProxyCallPlan {
    type V = PlanView;

    open spec fn view(&self) -> PlanView {
        PlanView {
            path: self.path@,
            url: self.url@,
            requires_admin_auth: self.requires_admin_auth,
            admin_token: self.admin_token.deep_view(),
        }
    }
}

/// The plan of a front-end call: calls to the admin-token API are refused; management
/// calls need the session's admin token, which is sent and later redacted; other calls
/// go without it.
pub open spec fn proxy_call_plan(path: Seq<char>, base_url: Seq<char>, admin_token: Option<Seq<char>>) -> Result<
    PlanView,
    Seq<char>,
> {
    let p = normalized_path(path);
    let needs_auth = starts_with(p, "/api/"@);
    if admin_token_route(p) {
        Err(admin_path_refusal())
    } else if needs_auth && admin_token is None {
        Err(missing_token_refusal())
    } else {
        Ok(
            PlanView {
                path: p,
                url: base_url + p,
                requires_admin_auth: needs_auth,
                admin_token: if needs_auth {
                    admin_token
                } else {
                    None
                },
            },
        )
    }
}

/// Plans a front-end call to the core API (see [`proxy_call_plan`]).
pub fn plan_proxy_api_call(path: &str, base_url: &str, admin_token: Option<&str>) -> (r: Result<
    ProxyCallPlan,
    String,
>)
    ensures
        match r {
            Ok(p) => proxy_call_plan(path@, base_url@, token_view(admin_token)) == Ok::<
                PlanView,
                Seq<char>,
            >(p@),
            Err(e) => proxy_call_plan(path@, base_url@, token_view(admin_token)) == Err::<
                PlanView,
                Seq<char>,
            >(e@),
        },
{
    let p = normalize_path(path);
    let p_text = string_from(p.as_slice());
    if is_admin_token_path(p_text.as_str()) {
        return Err("安全策略限制：前端 IPC 不允许调用 /api/admin-token/*".to_owned());
    }
    let needs_auth = has_prefix(p.as_slice(), chars_of("/api/").as_slice());
    if needs_auth && admin_token.is_none() {
        return Err("当前会话没有管理 token，请先通过 GUI 启动 Core 再调用管理 API".to_owned());
    }
    let url = concat(chars_of(base_url).as_slice(), p.as_slice());
    let token = if needs_auth {
        match admin_token {
            Some(t) => Some(t.to_owned()),
            None => None,
        }
    } else {
        None
    };
    Ok(
        ProxyCallPlan {
            path: p_text,
            url: string_from(url.as_slice()),
            requires_admin_auth: needs_auth,
            admin_token: token,
        },
    )
}


/// Where a front-end call to the core stands: planned, waiting for the check that comes
/// before it, waiting for the response, or over.
#[derive(Debug, Clone, Copy, PartialEq, Eq, Structural)]
pub enum CallStage {
    Planned,
    Checking,
    Sending,
    Finished,
}

/// What the outside world reports to a front-end call.
#[derive(Debug)]
pub enum CallEvent {
    /// The call is to start.
    Begin,
    /// The check before the call came back: `true` when the core answered as needed.
    CoreChecked(bool),
    /// The client does not accept this HTTP method.
    MethodRejected(String),
    /// The request could not be sent.
    SendFailed,
    /// A response came, but its body could not be read.
    BodyUnreadable,
    /// A response came and its body was read.
    Responded,
}

/// The abstract value of [`CallEvent`].
pub enum EventView {
    Begin,
    CoreChecked(bool),
    MethodRejected(Seq<char>),
    SendFailed,
    BodyUnreadable,
    Responded,
}

impl View for CallEvent {
    type V = EventView;

    open spec fn view(&self) -> EventView {
        match self {
            CallEvent::Begin => EventView::Begin,
            CallEvent::CoreChecked(ok) => EventView::CoreChecked(*ok),
            CallEvent::MethodRejected(m) => EventView::MethodRejected(m@),
            CallEvent::SendFailed => EventView::SendFailed,
            CallEvent::BodyUnreadable => EventView::BodyUnreadable,
            CallEvent::Responded => EventView::Responded,
        }
    }
}

/// What a front-end call asks the outside world to do next.
#[derive(Debug)]
pub enum CallAction {
    /// Ask the core for its status, authenticated with the plan's admin token.
    CheckAuthenticatedStatus,
    /// Ask the core's health endpoint.
    CheckHealth,
    /// Send the request to the plan's URL, with the plan's admin token, if any, as bearer
    /// credential.
    Send,
    /// Sanitize the response with the plan's admin token (see
    /// [`sanitize_core_response_text`]) and hand it to the front end.
    Deliver,
    /// Stop with this error.
    Fail(String),
    /// The event does not fit the stage: nothing to do.
    Ignore,
}

/// The abstract value of [`CallAction`].
pub enum ActionView {
    CheckAuthenticatedStatus,
    CheckHealth,
    Send,
    Deliver,
    Fail(Seq<char>),
    Ignore,
}

impl View for CallAction {
    type V = ActionView;

    open spec fn view(&self) -> ActionView {
        match self {
            CallAction::CheckAuthenticatedStatus => ActionView::CheckAuthenticatedStatus,
            CallAction::CheckHealth => ActionView::CheckHealth,
            CallAction::Send => ActionView::Send,
            CallAction::Deliver => ActionView::Deliver,
            CallAction::Fail(m) => ActionView::Fail(m@),
            CallAction::Ignore => ActionView::Ignore,
        }
    }
}

/// The next stage and action of a planned call: a management call first checks that the
/// core answers with the admin token, any other call that the core is healthy; only a
/// passed check lets the request go; a failed check, a refused method, a failed send or
/// an unreadable body end the call with an error; a read response is delivered.
pub open spec fn proxy_call_next(plan: PlanView, stage: CallStage, event: EventView) -> (CallStage, ActionView) {
    match (stage, event) {
        (CallStage::Planned, EventView::Begin) => (
            CallStage::Checking,
            if plan.requires_admin_auth {
                ActionView::CheckAuthenticatedStatus
            } else {
                ActionView::CheckHealth
            },
        ),
        (CallStage::Checking, EventView::CoreChecked(ok)) => if ok {
            (CallStage::Sending, ActionView::Send)
        } else if plan.requires_admin_auth {
            (CallStage::Finished, ActionView::Fail("Core 未运行、不可达或身份校验失败"@))
        } else {
            (CallStage::Finished, ActionView::Fail("Core 未运行或不可达"@))
        },
        (CallStage::Sending, EventView::MethodRejected(m)) => (
            CallStage::Finished,
            ActionView::Fail("不支持的 HTTP 方法: "@ + m),
        ),
        (CallStage::Sending, EventView::SendFailed) => (
            CallStage::Finished,
            ActionView::Fail("调用 Core API 失败: "@ + plan.url),
        ),
        (CallStage::Sending, EventView::BodyUnreadable) => (
            CallStage::Finished,
            ActionView::Fail("读取 Core API 响应失败"@),
        ),
        (CallStage::Sending, EventView::Responded) => (CallStage::Finished, ActionView::Deliver),
        _ => (stage, ActionView::Ignore),
    }
}

/// Takes a planned call one step further (see [`proxy_call_next`]).
pub fn proxy_call_step(plan: &ProxyCallPlan, stage: CallStage, event: CallEvent) -> (r: (CallStage, CallAction))
    ensures
        (r.0, r.1@) == proxy_call_next(plan@, stage, event@),
{
    match (stage, event) {
        (CallStage::Planned, CallEvent::Begin) => (
            CallStage::Checking,
            if plan.requires_admin_auth {
                CallAction::CheckAuthenticatedStatus
            } else {
                CallAction::CheckHealth
            },
        ),
        (CallStage::Checking, CallEvent::CoreChecked(ok)) => if ok {
            (CallStage::Sending, CallAction::Send)
        } else if plan.requires_admin_auth {
            (CallStage::Finished, CallAction::Fail("Core 未运行、不可达或身份校验失败".to_owned()))
        } else {
            (CallStage::Finished, CallAction::Fail("Core 未运行或不可达".to_owned()))
        },
        (CallStage::Sending, CallEvent::MethodRejected(m)) => {
            let text = concat(chars_of("不支持的 HTTP 方法: ").as_slice(), chars_of(m.as_str()).as_slice());
            (CallStage::Finished, CallAction::Fail(string_from(text.as_slice())))
        },
        (CallStage::Sending, CallEvent::SendFailed) => {
            let text = concat(chars_of("调用 Core API 失败: ").as_slice(), chars_of(plan.url.as_str()).as_slice());
            (CallStage::Finished, CallAction::Fail(string_from(text.as_slice())))
        },
        (CallStage::Sending, CallEvent::BodyUnreadable) => (
            CallStage::Finished,
            CallAction::Fail("读取 Core API 响应失败".to_owned()),
        ),
        (CallStage::Sending, CallEvent::Responded) => (CallStage::Finished, CallAction::Deliver),
        (stage, _) => (stage, CallAction::Ignore),
    }
}

/// A request reaches the core only right after the check before it passed: the
/// authenticated status check for a management call, the health check otherwise, as
/// the call began with; and an ended call does nothing more.
pub proof fn lemma_sent_only_after_check(plan: PlanView, stage: CallStage, event: EventView)
    ensures
        proxy_call_next(plan, stage, event).1 == ActionView::Send ==> stage == CallStage::Checking
            && event == EventView::CoreChecked(true),
        proxy_call_next(plan, CallStage::Planned, EventView::Begin).1 == (if plan.requires_admin_auth {
            ActionView::CheckAuthenticatedStatus
        } else {
            ActionView::CheckHealth
        }),
        proxy_call_next(plan, CallStage::Finished, event) == (CallStage::Finished, ActionView::Ignore),
{
}


/// What an uploaded plugin package gives: a file name that does not end in `.zip`
/// (in any ASCII case) is refused, then a payload that standard Base64 does not decode,
/// then a package larger than `max_bytes`; otherwise the decoded bytes.
pub open spec fn plugin_upload(file_name: Seq<char>, payload_base64: Seq<char>, max_bytes: nat) -> Result<
    Seq<u8>,
    Seq<char>,
> {
    if !ends_with(ascii_lower(file_name), ".zip"@) {
        Err("仅支持 .zip 插件包"@)
    } else {
        match base64_decoded(Base64Alphabet::Standard, payload_base64) {
            None => Err("解析插件包内容失败（Base64）"@),
            Some(bytes) => if bytes.len() > max_bytes {
                Err("插件包超过大小限制："@ + decimal(max_bytes) + " bytes"@)
            } else {
                Ok(bytes)
            },
        }
    }
}

/// Checks a plugin package uploaded from the front end (see [`plugin_upload`]) before it
/// is forwarded to the core.
pub fn check_plugin_upload(file_name: &str, payload_base64: &str, max_bytes: usize) -> (r: Result<
    Vec<u8>,
    String,
>)
    ensures
        match r {
            Ok(b) => plugin_upload(file_name@, payload_base64@, max_bytes as nat) == Ok::<
                Seq<u8>,
                Seq<char>,
            >(b@),
            Err(m) => plugin_upload(file_name@, payload_base64@, max_bytes as nat) == Err::<
                Seq<u8>,
                Seq<char>,
            >(m@),
        },
{
    proof {
        reveal_strlit(".zip");
    }
    let lower = lowercase(chars_of(file_name).as_slice());
    if !has_suffix(lower.as_slice(), chars_of(".zip").as_slice()) {
        return Err("仅支持 .zip 插件包".to_owned());
    }
    let bytes = match decode_standard(payload_base64) {
        Some(b) => b,
        None => {
            return Err("解析插件包内容失败（Base64）".to_owned());
        },
    };
    if bytes.len() > max_bytes {
        let a = concat(chars_of("插件包超过大小限制：").as_slice(), decimal_of(max_bytes as u128).as_slice());
        let b = concat(a.as_slice(), chars_of(" bytes").as_slice());
        return Err(string_from(b.as_slice()));
    }
    Ok(bytes)
}

} // verus!

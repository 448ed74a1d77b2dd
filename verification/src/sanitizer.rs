//! Redaction of secrets in free text by regular expressions, and the script log lines
//! that pass through it.
use vstd::prelude::*;

use crate::text::{chars_of, concat, slice_of, string_from};

verus! {

/// What `regex::Regex::new(pattern)` and `replace_all(text, replacement)` make of `text`
/// (the text itself when the pattern does not compile).
pub uninterp spec fn regex_replaced(pattern: Seq<char>, text: Seq<char>, replacement: Seq<char>) -> Seq<char>;

/// Compiles `pattern` with `regex::Regex::new` and replaces every match in `text` with
/// `replacement` (`$1`-style group references expanded) by `Regex::replace_all`; a
/// pattern that does not compile leaves the text as it is. The result is named by
/// [`regex_replaced`]. The patterns of this crate are literals that compile.
#[verifier::external_body]
pub(crate) fn replace_all_matches(pattern: &str, text: &str, replacement: &str) -> (r: String)
    ensures
        r@ == regex_replaced(pattern@, text@, replacement@),
{
    match regex::Regex::new(pattern) {
        Ok(re) => re.replace_all(text, replacement).into_owned(),
        Err(_) => text.to_string(),
    }
}

/// The userinfo of a URL (`scheme://user:pass@`).
pub open spec fn url_userinfo_pattern() -> Seq<char> {
    "(?i)\\b([a-z][a-z0-9+.-]*://)([^/?#@\\s]+)@"@
}

/// An `Authorization` header or setting and its credential.
pub open spec fn authorization_pattern() -> Seq<char> {
    "(?i)\\b(authorization)\\b(\\s*[:=]\\s*)([A-Za-z]+\\s+)?([A-Za-z0-9\\-._~+/=]+)"@
}

/// A bearer token.
pub open spec fn bearer_pattern() -> Seq<char> {
    "(?i)\\bbearer\\s+[A-Za-z0-9\\-._~+/=]+"@
}

/// A `Cookie` or `Set-Cookie` header line.
pub open spec fn cookie_header_pattern() -> Seq<char> {
    "(?i)\\b(cookie|set-cookie)\\b(\\s*:\\s*)[^\\r\\n]+"@
}

/// A query parameter with a sensitive name.
pub open spec fn sensitive_query_pattern() -> Seq<char> {
    "(?i)([?&](?:access_token|accessToken|admin_token|adminToken|api_key|apiKey|apikey|secret_key|secretKey|password|passwd|authorization|cookie|secret|token|auth)=)[^&\\s]+"@
}

/// A `key: value` or `key=value` pair with a sensitive key.
pub open spec fn sensitive_pair_pattern() -> Seq<char> {
    "(?i)\\b(access_token|accessToken|admin_token|adminToken|api_key|apiKey|apikey|secret_key|secretKey|set-cookie|x-api-key|x-auth-token|x-access-token|password|passwd|cookie|secret|token|auth)\\b(\\s*[:=]\\s*)(bearer\\s+)?([^&?\\s,;]+)"@
}

/// Text with its secrets masked: URL userinfo, `Authorization` credentials, bearer
/// tokens, cookie headers, sensitive query parameters and sensitive key-value pairs, in
/// that order, each replaced by `***`.
pub open spec fn redacted_text(message: Seq<char>) -> Seq<char> {
    let a = regex_replaced(url_userinfo_pattern(), message, "$1***@"@);
    let b = regex_replaced(authorization_pattern(), a, "$1$2${3}***"@);
    let c = regex_replaced(bearer_pattern(), b, "Bearer ***"@);
    let d = regex_replaced(cookie_header_pattern(), c, "$1$2***"@);
    let e = regex_replaced(sensitive_query_pattern(), d, "$1***"@);
    regex_replaced(sensitive_pair_pattern(), e, "$1$2${3}***"@)
}

/// Masks secrets in text that may reach logs, the API or the event stream (see
/// [`redacted_text`]). It covers the usual textual patterns only; it does not replace
/// access checks or the isolation of the secret store.
pub fn redact_sensitive_text(message: &str) -> (r: String)
    ensures
        r@ == redacted_text(message@),
{
    let a = replace_all_matches(
        "(?i)\\b([a-z][a-z0-9+.-]*://)([^/?#@\\s]+)@",
        message,
        "$1***@",
    );
    let b = replace_all_matches(
        "(?i)\\b(authorization)\\b(\\s*[:=]\\s*)([A-Za-z]+\\s+)?([A-Za-z0-9\\-._~+/=]+)",
        a.as_str(),
        "$1$2${3}***",
    );
    let c = replace_all_matches("(?i)\\bbearer\\s+[A-Za-z0-9\\-._~+/=]+", b.as_str(), "Bearer ***");
    let d = replace_all_matches(
        "(?i)\\b(cookie|set-cookie)\\b(\\s*:\\s*)[^\\r\\n]+",
        c.as_str(),
        "$1$2***",
    );
    let e = replace_all_matches(
        "(?i)([?&](?:access_token|accessToken|admin_token|adminToken|api_key|apiKey|apikey|secret_key|secretKey|password|passwd|authorization|cookie|secret|token|auth)=)[^&\\s]+",
        d.as_str(),
        "$1***",
    );
    replace_all_matches(
        "(?i)\\b(access_token|accessToken|admin_token|adminToken|api_key|apiKey|apikey|secret_key|secretKey|set-cookie|x-api-key|x-auth-token|x-access-token|password|passwd|cookie|secret|token|auth)\\b(\\s*[:=]\\s*)(bearer\\s+)?([^&?\\s,;]+)",
        e.as_str(),
        "$1$2${3}***",
    )
}

// ------------------------------------------------------------------
// Script log lines
// ------------------------------------------------------------------

/// The most characters a script log message keeps.
pub const MAX_LOG_MESSAGE_CHARS: usize = 2048;

/// What marks a cut message.
pub open spec fn truncation_suffix() -> Seq<char> {
    "...(truncated)"@
}

/// A message of at most [`MAX_LOG_MESSAGE_CHARS`] characters: a longer one keeps its
/// first characters and ends in `...(truncated)`, the whole being exactly that long.
pub open spec fn truncated(message: Seq<char>) -> Seq<char> {
    if message.len() <= MAX_LOG_MESSAGE_CHARS {
        message
    } else {
        message.take(MAX_LOG_MESSAGE_CHARS - truncation_suffix().len()) + truncation_suffix()
    }
}

/// A kept script log message never has more than [`MAX_LOG_MESSAGE_CHARS`] characters,
/// and a message within the limit is kept as it is.
pub proof fn lemma_truncated_fits(message: Seq<char>)
    ensures
        truncated(message).len() <= MAX_LOG_MESSAGE_CHARS,
        message.len() <= MAX_LOG_MESSAGE_CHARS ==> truncated(message) == message,
        message.len() > MAX_LOG_MESSAGE_CHARS ==> truncated(message).len() == MAX_LOG_MESSAGE_CHARS,
{
    reveal_strlit("...(truncated)");
}

/// Cuts a message to [`MAX_LOG_MESSAGE_CHARS`] characters (see [`truncated`]).
pub fn truncate_message(message: &str) -> (r: String)
    ensures
        r@ == truncated(message@),
{
    proof {
        reveal_strlit("...(truncated)");
    }
    let chars = chars_of(message);
    if chars.len() <= MAX_LOG_MESSAGE_CHARS {
        return message.to_owned();
    }
    let suffix = chars_of("...(truncated)");
    let keep = MAX_LOG_MESSAGE_CHARS - suffix.len();
    let head = slice_of(chars.as_slice(), 0, keep);
    assert(head@ == message@.take(keep as int));
    let out = concat(head.as_slice(), suffix.as_slice());
    string_from(out.as_slice())
}

/// A bearer token in a script log line.
pub open spec fn script_bearer_pattern() -> Seq<char> {
    "(?i)\\bbearer\\s+[A-Za-z0-9\\-._~+/=]+"@
}

/// A sensitive `key: value` pair in a script log line.
pub open spec fn script_pair_pattern() -> Seq<char> {
    "(?i)\\b(token|access_token|admin_token|password|passwd|cookie|set-cookie|authorization|api_key|apikey|secret)\\b(\\s*[:=]\\s*)([^\\s,;]+)"@
}

/// A sensitive query parameter in a script log line.
pub open spec fn script_query_pattern() -> Seq<char> {
    "(?i)([?&](?:token|access_token|admin_token|password|passwd|api_key|apikey|secret|cookie)=)[^&\\s]+"@
}

/// A script log message as it is kept: cut to length, then bearer tokens, sensitive
/// pairs and sensitive query parameters masked.
pub open spec fn sanitized_log_message(message: Seq<char>) -> Seq<char> {
    let a = regex_replaced(script_bearer_pattern(), truncated(message), "Bearer ***"@);
    let b = regex_replaced(script_pair_pattern(), a, "$1$2***"@);
    regex_replaced(script_query_pattern(), b, "$1***"@)
}

/// Cuts and masks a script log message (see [`sanitized_log_message`]).
pub fn sanitize_script_log_message(message: &str) -> (r: String)
    ensures
        r@ == sanitized_log_message(message@),
{
    let cut = truncate_message(message);
    let a = replace_all_matches("(?i)\\bbearer\\s+[A-Za-z0-9\\-._~+/=]+", cut.as_str(), "Bearer ***");
    let b = replace_all_matches(
        "(?i)\\b(token|access_token|admin_token|password|passwd|cookie|set-cookie|authorization|api_key|apikey|secret)\\b(\\s*[:=]\\s*)([^\\s,;]+)",
        a.as_str(),
        "$1$2***",
    );
    replace_all_matches(
        "(?i)([?&](?:token|access_token|admin_token|password|passwd|api_key|apikey|secret|cookie)=)[^&\\s]+",
        b.as_str(),
        "$1***",
    )
}

/// A log line a script emitted, as it is kept.
#[derive(Debug)]
pub struct CapturedScriptLog {
    pub level: String,
    pub message: String,
    pub created_at: String,
}

/// The abstract value of [`CapturedScriptLog`].
pub struct CapturedView {
    pub level: Seq<char>,
    pub message: Seq<char>,
    pub created_at: Seq<char>,
}

impl View for CapturedScriptLog {
    type V = CapturedView;

    open spec fn view(&self) -> CapturedView {
        CapturedView { level: self.level@, message: self.message@, created_at: self.created_at@ }
    }
}

/// The views of captured lines.
pub open spec fn captured_view(logs: Seq<CapturedScriptLog>) -> Seq<CapturedView> {
    logs.map_values(|l: CapturedScriptLog| l@)
}

/// The log lines a script run emitted, in order.
#[derive(Debug)]
pub struct ScriptLogCollector {
    pub entries: Vec<CapturedScriptLog>,
}

impl View for ScriptLogCollector {
    type V = Seq<CapturedView>;

    open spec fn view(&self) -> Seq<CapturedView> {
        captured_view(self.entries@)
    }
}

impl ScriptLogCollector {
    /// A collector with no lines.
    pub fn new() -> (r: ScriptLogCollector)
        ensures
            r@ == Seq::<CapturedView>::empty(),
    {
        let r = ScriptLogCollector { entries: Vec::new() };
        assert(r@ =~= Seq::<CapturedView>::empty());
        r
    }

    /// Records a line: its message is cut and masked (see [`sanitized_log_message`]).
    pub fn emit(&mut self, level: &str, message: &str, created_at: &str)
        ensures
            final(self)@ == old(self)@.push(
                CapturedView {
                    level: level@,
                    message: sanitized_log_message(message@),
                    created_at: created_at@,
                },
            ),
    {
        let captured = CapturedScriptLog {
            level: level.to_owned(),
            message: sanitize_script_log_message(message),
            created_at: created_at.to_owned(),
        };
        let ghost prev = self.entries@;
        self.entries.push(captured);
        assert(captured_view(self.entries@) =~= captured_view(prev).push(captured@));
    }

    /// Hands out the lines recorded so far and forgets them.
    pub fn take(&mut self) -> (r: Vec<CapturedScriptLog>)
        ensures
            captured_view(r@) == old(self)@,
            final(self)@ == Seq::<CapturedView>::empty(),
    {
        let mut taken: Vec<CapturedScriptLog> = Vec::new();
        std::mem::swap(&mut taken, &mut self.entries);
        assert(captured_view(self.entries@) =~= Seq::<CapturedView>::empty());
        taken
    }
}

} // verus!

//! Errors of the core library.
use vstd::prelude::*;

verus! {

/// What went wrong, with a message for people.
#[derive(Debug)]
pub enum CoreError {
    Random(String),
    PluginAlreadyInstalled(String),
    ConfigInvalid(String),
    PluginNotFound(String),
    SourceNotFound(String),
    SubscriptionFetch(String),
    SubscriptionParse(String),
    /// A refresh of the named source is already under way.
    RefreshAlreadyRunning(String),
}

/// The kind of a [`CoreError`].
#[derive(Debug, Clone, Copy, PartialEq, Eq, Structural)]
pub enum ErrorKind {
    Random,
    PluginAlreadyInstalled,
    ConfigInvalid,
    PluginNotFound,
    SourceNotFound,
    SubscriptionFetch,
    SubscriptionParse,
    RefreshAlreadyRunning,
}

impl View for CoreError {
    type V = (ErrorKind, Seq<char>);

    open spec fn view(&self) -> (ErrorKind, Seq<char>) {
        match self {
            CoreError::Random(m) => (ErrorKind::Random, m@),
            CoreError::PluginAlreadyInstalled(m) => (ErrorKind::PluginAlreadyInstalled, m@),
            CoreError::ConfigInvalid(m) => (ErrorKind::ConfigInvalid, m@),
            CoreError::PluginNotFound(m) => (ErrorKind::PluginNotFound, m@),
            CoreError::SourceNotFound(m) => (ErrorKind::SourceNotFound, m@),
            CoreError::SubscriptionFetch(m) => (ErrorKind::SubscriptionFetch, m@),
            CoreError::SubscriptionParse(m) => (ErrorKind::SubscriptionParse, m@),
            CoreError::RefreshAlreadyRunning(m) => (ErrorKind::RefreshAlreadyRunning, m@),
        }
    }
}

/// The error code the API reports for each kind of error.
pub open spec fn code_of(kind: ErrorKind) -> Seq<char> {
    match kind {
        ErrorKind::ConfigInvalid => "E_CONFIG_INVALID"@,
        ErrorKind::PluginNotFound => "E_NOT_FOUND"@,
        ErrorKind::SourceNotFound => "E_NOT_FOUND"@,
        ErrorKind::PluginAlreadyInstalled => "E_PLUGIN_INVALID"@,
        ErrorKind::SubscriptionParse => "E_PARSE"@,
        ErrorKind::Random => "E_INTERNAL"@,
        ErrorKind::SubscriptionFetch => "E_INTERNAL"@,
        ErrorKind::RefreshAlreadyRunning => "E_CONFLICT"@,
    }
}

/// A subscription parse error with message `m`.
pub open spec fn parse_error(m: Seq<char>) -> (ErrorKind, Seq<char>) {
    (ErrorKind::SubscriptionParse, m)
}

/// The words a message of each kind of error starts with.
pub open spec fn kind_prefix(kind: ErrorKind) -> Seq<char> {
    match kind {
        ErrorKind::Random => "随机数生成失败："@,
        ErrorKind::PluginAlreadyInstalled => "插件已安装："@,
        ErrorKind::ConfigInvalid => "配置校验失败："@,
        ErrorKind::PluginNotFound => "插件不存在："@,
        ErrorKind::SourceNotFound => "来源不存在："@,
        ErrorKind::SubscriptionFetch => "订阅拉取失败："@,
        ErrorKind::SubscriptionParse => "订阅解析失败："@,
        ErrorKind::RefreshAlreadyRunning => "来源正在刷新："@,
    }
}

/// The text an error is shown as: the words of its kind, then its message.
pub open spec fn display_text(e: (ErrorKind, Seq<char>)) -> Seq<char> {
    kind_prefix(e.0) + e.1
}

impl CoreError {
    /// The error code of this error.
    pub fn code(&self) -> (r: &'static str)
        ensures
            r@ == code_of(self@.0),
    {
        match self {
            CoreError::ConfigInvalid(_) => "E_CONFIG_INVALID",
            CoreError::PluginNotFound(_) | CoreError::SourceNotFound(_) => "E_NOT_FOUND",
            CoreError::PluginAlreadyInstalled(_) => "E_PLUGIN_INVALID",
            CoreError::SubscriptionParse(_) => "E_PARSE",
            CoreError::Random(_) | CoreError::SubscriptionFetch(_) => "E_INTERNAL",
            CoreError::RefreshAlreadyRunning(_) => "E_CONFLICT",
        }
    }

    /// The text this error is shown as (see [`display_text`]).
    pub fn display(&self) -> (r: String)
        ensures
            r@ == display_text(self@),
    {
        let prefix = match self {
            CoreError::Random(_) => "随机数生成失败：",
            CoreError::PluginAlreadyInstalled(_) => "插件已安装：",
            CoreError::ConfigInvalid(_) => "配置校验失败：",
            CoreError::PluginNotFound(_) => "插件不存在：",
            CoreError::SourceNotFound(_) => "来源不存在：",
            CoreError::SubscriptionFetch(_) => "订阅拉取失败：",
            CoreError::SubscriptionParse(_) => "订阅解析失败：",
            CoreError::RefreshAlreadyRunning(_) => "来源正在刷新：",
        };
        let m = crate::text::concat(
            crate::text::chars_of(prefix).as_slice(),
            crate::text::chars_of(self.message().as_str()).as_slice(),
        );
        crate::text::string_from(m.as_slice())
    }

    /// The message of this error.
    pub fn message(&self) -> (r: &String)
        ensures
            r@ == self@.1,
    {
        match self {
            CoreError::Random(m) => m,
            CoreError::PluginAlreadyInstalled(m) => m,
            CoreError::ConfigInvalid(m) => m,
            CoreError::PluginNotFound(m) => m,
            CoreError::SourceNotFound(m) => m,
            CoreError::SubscriptionFetch(m) => m,
            CoreError::SubscriptionParse(m) => m,
            CoreError::RefreshAlreadyRunning(m) => m,
        }
    }
}

} // verus!

//! Titles and levels of the structured log records the service emits.

use vstd::prelude::*;

verus! {

/// The title of a log record; the record is printed with the variant's name.
#[derive(Debug, Clone, Copy, PartialEq, Eq, Structural)]
pub enum LoggerTitle {
    YellowstoneUnknownUpdate,
    YellowstoneConnectionRejected,
    YellowstoneStreamReconnected,
    YellowstoneEndpointSilence,
    YellowstoneStreamClosed,
    YellowstoneStreamError,
    YellowstoneResubscribed,
    YellowstoneResubscribeError,
    DiscoveryQueueFull,
    DiscoveryQueueClosed,
    DiscoveryHandleError,
    AppStarting,
}

/// The text a title is printed as: the name of its variant.
pub open spec fn title_text(title: LoggerTitle) -> Seq<char> {
    match title {
        LoggerTitle::YellowstoneUnknownUpdate => "YellowstoneUnknownUpdate"@,
        LoggerTitle::YellowstoneConnectionRejected => "YellowstoneConnectionRejected"@,
        LoggerTitle::YellowstoneStreamReconnected => "YellowstoneStreamReconnected"@,
        LoggerTitle::YellowstoneEndpointSilence => "YellowstoneEndpointSilence"@,
        LoggerTitle::YellowstoneStreamClosed => "YellowstoneStreamClosed"@,
        LoggerTitle::YellowstoneStreamError => "YellowstoneStreamError"@,
        LoggerTitle::YellowstoneResubscribed => "YellowstoneResubscribed"@,
        LoggerTitle::YellowstoneResubscribeError => "YellowstoneResubscribeError"@,
        LoggerTitle::DiscoveryQueueFull => "DiscoveryQueueFull"@,
        LoggerTitle::DiscoveryQueueClosed => "DiscoveryQueueClosed"@,
        LoggerTitle::DiscoveryHandleError => "DiscoveryHandleError"@,
        LoggerTitle::AppStarting => "AppStarting"@,
    }
}

impl LoggerTitle {
    /// The text the title is printed as.
    pub fn as_str(&self) -> (text: &'static str)
        ensures
            text@ == title_text(*self),
    {
        match self {
            LoggerTitle::YellowstoneUnknownUpdate => "YellowstoneUnknownUpdate",
            LoggerTitle::YellowstoneConnectionRejected => "YellowstoneConnectionRejected",
            LoggerTitle::YellowstoneStreamReconnected => "YellowstoneStreamReconnected",
            LoggerTitle::YellowstoneEndpointSilence => "YellowstoneEndpointSilence",
            LoggerTitle::YellowstoneStreamClosed => "YellowstoneStreamClosed",
            LoggerTitle::YellowstoneStreamError => "YellowstoneStreamError",
            LoggerTitle::YellowstoneResubscribed => "YellowstoneResubscribed",
            LoggerTitle::YellowstoneResubscribeError => "YellowstoneResubscribeError",
            LoggerTitle::DiscoveryQueueFull => "DiscoveryQueueFull",
            LoggerTitle::DiscoveryQueueClosed => "DiscoveryQueueClosed",
            LoggerTitle::DiscoveryHandleError => "DiscoveryHandleError",
            LoggerTitle::AppStarting => "AppStarting",
        }
    }

    /// The text the title is printed as, as an owned string.
    pub fn to_string(&self) -> (text: String)
        ensures
            text@ == title_text(*self),
    {
        String::from_str(self.as_str())
    }
}

/// The level a record is emitted at.
#[derive(Debug, Clone, Copy, PartialEq, Eq, Structural)]
pub enum LogLevel {
    Info,
    Warn,
    Error,
}

/// A record to emit: a level, a title and an optional message.
#[derive(Debug, PartialEq, Eq)]
pub struct LogRecord {
    pub level: LogLevel,
    pub title: LoggerTitle,
    pub message: Option<String>,
}

} // verus!

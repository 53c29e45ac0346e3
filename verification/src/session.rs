//! The streaming session: what is done with each update the stream yields,
//! and how a stream that ended is reopened. The session reads the stream
//! until it ends, then reopens it with the last request sent (so every pool
//! discovered so far stays subscribed) until an attempt succeeds, waiting
//! `BACKOFF_SECS` after each refusal.

use crate::logger::{LogLevel, LogRecord, LoggerTitle};
use vstd::prelude::*;

verus! {

/// Wait after a refused reconnection before the next attempt, in seconds.
pub const BACKOFF_SECS: u64 = 5;

/// A stream with no update for this long, in seconds, counts as ended.
pub const STREAM_IDLE_TIMEOUT_SECS: u64 = 300;

/// How often the connection pings the endpoint, in seconds.
pub const HTTP2_KEEP_ALIVE_INTERVAL_SECS: u64 = 10;

/// How long a ping may go unanswered before the connection is dead, in seconds.
pub const HTTP2_KEEP_ALIVE_TIMEOUT_SECS: u64 = 5;

/// Why the stream stopped yielding updates.
pub enum StreamEnded {
    /// No update arrived for `STREAM_IDLE_TIMEOUT_SECS`.
    Idle,
    /// The server closed the stream.
    Closed,
    /// The stream yielded a transport error, described by the message.
    Failed(String),
}

/// The kind of an update the stream yields.
#[derive(Debug, Clone, Copy, PartialEq, Eq, Structural)]
pub enum UpdateKind {
    Ping,
    Pong,
    Transaction,
    Account,
    BlockMeta,
    /// Any other kind, or an update without content.
    Other,
}

/// What is done with an update.
#[derive(Debug, Clone, Copy, PartialEq, Eq, Structural)]
pub enum UpdateRoute {
    /// Nothing: keep-alive pings and pongs, and block metadata, which the
    /// client's reconnection logic reads for the latest slot before it
    /// reaches the session.
    Ignore,
    /// Hand it to pool discovery.
    Discover,
    /// Warn about an update of a kind the session did not ask for.
    Unknown,
}

/// Where the session stands.
#[derive(Debug, Clone, Copy, PartialEq, Eq, Structural)]
pub enum SessionState {
    /// Reading updates from an open stream.
    Streaming,
    /// Reopening a stream that ended.
    Reconnecting,
}

/// What happened since the last step.
pub enum SessionEvent {
    /// The stream yielded an update of this kind.
    Update(UpdateKind),
    /// The stream ended.
    Ended(StreamEnded),
    /// A stream was opened again with the last request sent.
    Reopened,
    /// Opening a stream again failed, for the reason in the message.
    ReopenFailed(String),
}

/// What the session does next.
#[derive(Debug, Clone, Copy, PartialEq, Eq, Structural)]
pub enum SessionCommand {
    /// Wait for the next update.
    ReadNext,
    /// Hand the update to discovery, then wait for the next one.
    ForwardThenReadNext,
    /// Open a stream again with the last request sent.
    Reopen,
    /// Wait this many seconds, then open a stream again.
    SleepThenReopen(u64),
}

/// One step of the session: the state it moves to, what it does next, and
/// what it logs.
pub struct SessionStep {
    pub state: SessionState,
    pub command: SessionCommand,
    pub log: Option<LogRecord>,
}

/// The record logged when the stream ends for `reason`, without its message.
pub open spec fn ended_title(reason: StreamEnded) -> LoggerTitle {
    match reason {
        StreamEnded::Idle => LoggerTitle::YellowstoneEndpointSilence,
        StreamEnded::Closed => LoggerTitle::YellowstoneStreamClosed,
        StreamEnded::Failed(_) => LoggerTitle::YellowstoneStreamError,
    }
}

/// The message logged when the stream ends for `reason`.
pub open spec fn ended_message(reason: StreamEnded) -> Option<String> {
    match reason {
        StreamEnded::Failed(message) => Some(message),
        _ => None,
    }
}

/// What is done with an update of each kind.
pub open spec fn route_of(kind: UpdateKind) -> UpdateRoute {
    match kind {
        UpdateKind::Ping | UpdateKind::Pong | UpdateKind::BlockMeta => UpdateRoute::Ignore,
        UpdateKind::Transaction | UpdateKind::Account => UpdateRoute::Discover,
        UpdateKind::Other => UpdateRoute::Unknown,
    }
}

impl StreamEnded {
    /// The error logged when the stream ends this way.
    pub fn log_record(self) -> (record: LogRecord)
        ensures
            record == (LogRecord {
                level: LogLevel::Error,
                title: ended_title(self),
                message: ended_message(self),
            }),
    {
        match self {
            StreamEnded::Idle => LogRecord {
                level: LogLevel::Error,
                title: LoggerTitle::YellowstoneEndpointSilence,
                message: None,
            },
            StreamEnded::Closed => LogRecord {
                level: LogLevel::Error,
                title: LoggerTitle::YellowstoneStreamClosed,
                message: None,
            },
            StreamEnded::Failed(message) => LogRecord {
                level: LogLevel::Error,
                title: LoggerTitle::YellowstoneStreamError,
                message: Some(message),
            },
        }
    }
}

/// What is done with an update of kind `kind`.
pub fn route_update(kind: UpdateKind) -> (route: UpdateRoute)
    ensures
        route == route_of(kind),
{
    match kind {
        UpdateKind::Ping | UpdateKind::Pong | UpdateKind::BlockMeta => UpdateRoute::Ignore,
        UpdateKind::Transaction | UpdateKind::Account => UpdateRoute::Discover,
        UpdateKind::Other => UpdateRoute::Unknown,
    }
}

/// The command a state waits with when an event does not concern it.
pub open spec fn awaiting(state: SessionState) -> SessionCommand {
    match state {
        SessionState::Streaming => SessionCommand::ReadNext,
        SessionState::Reconnecting => SessionCommand::Reopen,
    }
}

/// One step of the session.
///
/// While streaming, an update is ignored, forwarded to discovery, or warned
/// about (by `route_of`), and the session reads on; an ended stream is
/// logged as an error and the session starts reconnecting. While
/// reconnecting, a reopened stream is logged and the session reads from it;
/// a refused attempt is logged as an error and retried after
/// `BACKOFF_SECS`. An event that does not belong to the state (which the
/// loop never delivers) leaves the session as it is.
pub fn step(state: SessionState, event: SessionEvent) -> (next: SessionStep)
    ensures
        match (state, event) {
            (SessionState::Streaming, SessionEvent::Update(kind)) => {
                &&& next.state == SessionState::Streaming
                &&& match route_of(kind) {
                    UpdateRoute::Ignore => next.command == SessionCommand::ReadNext && next.log
                        is None,
                    UpdateRoute::Discover => next.command == SessionCommand::ForwardThenReadNext
                        && next.log is None,
                    UpdateRoute::Unknown => next.command == SessionCommand::ReadNext && next.log
                        == Some(
                        LogRecord {
                            level: LogLevel::Warn,
                            title: LoggerTitle::YellowstoneUnknownUpdate,
                            message: None,
                        },
                    ),
                }
            },
            (SessionState::Streaming, SessionEvent::Ended(reason)) => {
                &&& next.state == SessionState::Reconnecting
                &&& next.command == SessionCommand::Reopen
                &&& next.log == Some(
                    LogRecord {
                        level: LogLevel::Error,
                        title: ended_title(reason),
                        message: ended_message(reason),
                    },
                )
            },
            (SessionState::Reconnecting, SessionEvent::Reopened) => {
                &&& next.state == SessionState::Streaming
                &&& next.command == SessionCommand::ReadNext
                &&& next.log == Some(
                    LogRecord {
                        level: LogLevel::Info,
                        title: LoggerTitle::YellowstoneStreamReconnected,
                        message: None,
                    },
                )
            },
            (SessionState::Reconnecting, SessionEvent::ReopenFailed(message)) => {
                &&& next.state == SessionState::Reconnecting
                &&& next.command == SessionCommand::SleepThenReopen(BACKOFF_SECS)
                &&& next.log == Some(
                    LogRecord {
                        level: LogLevel::Error,
                        title: LoggerTitle::YellowstoneConnectionRejected,
                        message: Some(message),
                    },
                )
            },
            _ => {
                &&& next.state == state
                &&& next.command == awaiting(state)
                &&& next.log is None
            },
        },
{
    match (state, event) {
        (SessionState::Streaming, SessionEvent::Update(kind)) => {
            let (command, log) = match route_update(kind) {
                UpdateRoute::Ignore => (SessionCommand::ReadNext, None),
                UpdateRoute::Discover => (SessionCommand::ForwardThenReadNext, None),
                UpdateRoute::Unknown => (
                    SessionCommand::ReadNext,
                    Some(
                        LogRecord {
                            level: LogLevel::Warn,
                            title: LoggerTitle::YellowstoneUnknownUpdate,
                            message: None,
                        },
                    ),
                ),
            };
            SessionStep { state: SessionState::Streaming, command, log }
        },
        (SessionState::Streaming, SessionEvent::Ended(reason)) => SessionStep {
            state: SessionState::Reconnecting,
            command: SessionCommand::Reopen,
            log: Some(reason.log_record()),
        },
        (SessionState::Reconnecting, SessionEvent::Reopened) => SessionStep {
            state: SessionState::Streaming,
            command: SessionCommand::ReadNext,
            log: Some(
                LogRecord {
                    level: LogLevel::Info,
                    title: LoggerTitle::YellowstoneStreamReconnected,
                    message: None,
                },
            ),
        },
        (SessionState::Reconnecting, SessionEvent::ReopenFailed(message)) => SessionStep {
            state: SessionState::Reconnecting,
            command: SessionCommand::SleepThenReopen(BACKOFF_SECS),
            log: Some(
                LogRecord {
                    level: LogLevel::Error,
                    title: LoggerTitle::YellowstoneConnectionRejected,
                    message: Some(message),
                },
            ),
        },
        (SessionState::Streaming, _) => SessionStep {
            state: SessionState::Streaming,
            command: SessionCommand::ReadNext,
            log: None,
        },
        (SessionState::Reconnecting, _) => SessionStep {
            state: SessionState::Reconnecting,
            command: SessionCommand::Reopen,
            log: None,
        },
    }
}

} // verus!

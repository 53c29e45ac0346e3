use geyser_discovery::logger::{LogLevel, LogRecord, LoggerTitle};
use geyser_discovery::session::{
    route_update, step, SessionCommand, SessionEvent, SessionState, StreamEnded, UpdateKind,
    UpdateRoute, BACKOFF_SECS,
};

#[test]
fn updates_are_routed_by_kind() {
    assert_eq!(route_update(UpdateKind::Ping), UpdateRoute::Ignore);
    assert_eq!(route_update(UpdateKind::Pong), UpdateRoute::Ignore);
    assert_eq!(route_update(UpdateKind::BlockMeta), UpdateRoute::Ignore);
    assert_eq!(route_update(UpdateKind::Transaction), UpdateRoute::Discover);
    assert_eq!(route_update(UpdateKind::Account), UpdateRoute::Discover);
    assert_eq!(route_update(UpdateKind::Other), UpdateRoute::Unknown);
}

#[test]
fn streaming_updates_keep_reading() {
    let s = step(SessionState::Streaming, SessionEvent::Update(UpdateKind::Transaction));
    assert_eq!(s.state, SessionState::Streaming);
    assert_eq!(s.command, SessionCommand::ForwardThenReadNext);
    assert_eq!(s.log, None);
    let s = step(SessionState::Streaming, SessionEvent::Update(UpdateKind::Ping));
    assert_eq!(s.command, SessionCommand::ReadNext);
    assert_eq!(s.log, None);
    let s = step(SessionState::Streaming, SessionEvent::Update(UpdateKind::Other));
    assert_eq!(s.command, SessionCommand::ReadNext);
    assert_eq!(
        s.log,
        Some(LogRecord { level: LogLevel::Warn, title: LoggerTitle::YellowstoneUnknownUpdate, message: None })
    );
}

#[test]
fn ended_streams_are_logged_and_reopened() {
    let cases = [
        (StreamEnded::Idle, LoggerTitle::YellowstoneEndpointSilence, None),
        (StreamEnded::Closed, LoggerTitle::YellowstoneStreamClosed, None),
        (
            StreamEnded::Failed("transport error".to_string()),
            LoggerTitle::YellowstoneStreamError,
            Some("transport error".to_string()),
        ),
    ];
    for (reason, title, message) in cases {
        let s = step(SessionState::Streaming, SessionEvent::Ended(reason));
        assert_eq!(s.state, SessionState::Reconnecting);
        assert_eq!(s.command, SessionCommand::Reopen);
        assert_eq!(s.log, Some(LogRecord { level: LogLevel::Error, title, message }));
    }
}

#[test]
fn refused_reconnections_back_off_and_retry() {
    let s = step(SessionState::Reconnecting, SessionEvent::ReopenFailed("refused".to_string()));
    assert_eq!(s.state, SessionState::Reconnecting);
    assert_eq!(s.command, SessionCommand::SleepThenReopen(BACKOFF_SECS));
    assert_eq!(BACKOFF_SECS, 5);
    assert_eq!(
        s.log,
        Some(LogRecord {
            level: LogLevel::Error,
            title: LoggerTitle::YellowstoneConnectionRejected,
            message: Some("refused".to_string()),
        })
    );
    let s = step(SessionState::Reconnecting, SessionEvent::Reopened);
    assert_eq!(s.state, SessionState::Streaming);
    assert_eq!(s.command, SessionCommand::ReadNext);
    assert_eq!(
        s.log,
        Some(LogRecord { level: LogLevel::Info, title: LoggerTitle::YellowstoneStreamReconnected, message: None })
    );
}

#[test]
fn events_of_the_other_state_change_nothing() {
    let s = step(SessionState::Reconnecting, SessionEvent::Update(UpdateKind::Account));
    assert_eq!(s.state, SessionState::Reconnecting);
    assert_eq!(s.command, SessionCommand::Reopen);
    assert_eq!(s.log, None);
    let s = step(SessionState::Streaming, SessionEvent::Reopened);
    assert_eq!(s.state, SessionState::Streaming);
    assert_eq!(s.command, SessionCommand::ReadNext);
    assert_eq!(s.log, None);
}

#[test]
fn titles_print_as_their_names() {
    assert_eq!(LoggerTitle::AppStarting.as_str(), "AppStarting");
    assert_eq!(LoggerTitle::YellowstoneStreamError.to_string(), "YellowstoneStreamError");
    assert_eq!(LoggerTitle::DiscoveryQueueFull.as_str(), format!("{:?}", LoggerTitle::DiscoveryQueueFull));
}

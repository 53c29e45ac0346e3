use geyser_discovery::config::Commitment;
use geyser_discovery::human_size::to_human_size;
use geyser_discovery::subscription::{check_subscribe_request, Subscription, SubscriptionRequest};
use yellowstone_grpc_proto::prost::Message;
use geyser_discovery::discovery::{
    queue_log, resubscribed_log, DiscoveryBatch, QueueOutcome, ResubscribedLog,
    RESUBSCRIBE_INTERVAL_NANOS,
};
use geyser_discovery::logger::{LogLevel, LogRecord, LoggerTitle};

fn strings(items: &[&str]) -> Vec<String> {
    items.iter().map(|s| s.to_string()).collect()
}

#[test]
fn found_pools_are_kept_once() {
    let mut batch = DiscoveryBatch::new(0);
    assert_eq!(batch.record(Ok(strings(&["a", "b", "a"]))), None);
    assert_eq!(batch.record(Ok(strings(&["b", "c"]))), None);
    assert_eq!(batch.pending(), &strings(&["a", "b", "c"]));
}

#[test]
fn handler_errors_are_logged_and_change_nothing() {
    let mut batch = DiscoveryBatch::new(0);
    batch.record(Ok(strings(&["a"])));
    let log = batch.record(Err("bad transaction".to_string()));
    assert_eq!(
        log,
        Some(LogRecord {
            level: LogLevel::Error,
            title: LoggerTitle::DiscoveryHandleError,
            message: Some("bad transaction".to_string()),
        })
    );
    assert_eq!(batch.pending(), &strings(&["a"]));
}

#[test]
fn resubscription_waits_for_the_interval_and_for_pools() {
    let start = 1_000;
    let mut batch = DiscoveryBatch::new(start);
    assert!(!batch.is_due(start + RESUBSCRIBE_INTERVAL_NANOS));
    batch.record(Ok(strings(&["a"])));
    assert!(!batch.is_due(start + RESUBSCRIBE_INTERVAL_NANOS - 1));
    assert!(batch.is_due(start + RESUBSCRIBE_INTERVAL_NANOS));
    assert!(!batch.is_due(start - 1));
}

#[test]
fn successful_resubscription_empties_the_batch_and_restarts_the_interval() {
    let mut batch = DiscoveryBatch::new(0);
    batch.record(Ok(strings(&["a", "b"])));
    let t = RESUBSCRIBE_INTERVAL_NANOS + 5;
    assert!(batch.is_due(t));
    let report = ResubscribedLog { pools: 2, request_size: "1.0 KB".to_string() };
    let (log, carried) = batch.finish_resubscribe(Ok(report), t);
    assert_eq!(
        log,
        LogRecord { level: LogLevel::Info, title: LoggerTitle::YellowstoneResubscribed, message: None }
    );
    assert_eq!(carried, Some(ResubscribedLog { pools: 2, request_size: "1.0 KB".to_string() }));
    assert!(batch.pending().is_empty());
    batch.record(Ok(strings(&["c"])));
    assert!(!batch.is_due(t + RESUBSCRIBE_INTERVAL_NANOS - 1));
    assert!(batch.is_due(t + RESUBSCRIBE_INTERVAL_NANOS));
}

#[test]
fn failed_resubscription_keeps_every_pool() {
    let mut batch = DiscoveryBatch::new(0);
    batch.record(Ok(strings(&["a", "b"])));
    let t = RESUBSCRIBE_INTERVAL_NANOS;
    let (log, carried) = batch.finish_resubscribe(Err("too large".to_string()), t);
    assert_eq!(carried, None);
    assert_eq!(
        log,
        LogRecord {
            level: LogLevel::Error,
            title: LoggerTitle::YellowstoneResubscribeError,
            message: Some("too large".to_string()),
        }
    );
    assert_eq!(batch.pending(), &strings(&["a", "b"]));
    // the failed attempt restarts the interval
    assert!(!batch.is_due(t + 1));
    assert!(!batch.is_due(t + RESUBSCRIBE_INTERVAL_NANOS - 1));
    assert!(batch.is_due(t + RESUBSCRIBE_INTERVAL_NANOS));
}

#[test]
fn queue_outcomes_are_logged() {
    assert_eq!(queue_log(QueueOutcome::Sent), None);
    assert_eq!(
        queue_log(QueueOutcome::Full),
        Some(LogRecord { level: LogLevel::Warn, title: LoggerTitle::DiscoveryQueueFull, message: None })
    );
    assert_eq!(
        queue_log(QueueOutcome::Closed),
        Some(LogRecord { level: LogLevel::Error, title: LoggerTitle::DiscoveryQueueClosed, message: None })
    );
}

#[test]
fn resubscribed_log_reports_pools_and_size() {
    let request = SubscriptionRequest::new(strings(&["prog"]), Commitment::Processed);
    let sent = check_subscribe_request(request).ok().unwrap();
    let log = resubscribed_log(12, &sent);
    assert_eq!(log.pools, 12);
    assert_eq!(log.request_size, to_human_size(sent.message().0.encode_to_vec().len()));
}

#[test]
fn no_found_pool_is_lost_across_resubscriptions() {
    let mut subscription = Subscription::new(
        check_subscribe_request(SubscriptionRequest::new(strings(&["prog"]), Commitment::Processed))
            .ok()
            .unwrap(),
    );
    let mut batch = DiscoveryBatch::new(0);
    batch.record(Ok(strings(&["a", "b"])));
    let t1 = RESUBSCRIBE_INTERVAL_NANOS;
    assert!(batch.is_due(t1));
    let (request, pools) = subscription.prepare_resubscribe(batch.pending()).ok().unwrap();
    let report = resubscribed_log(pools, &request);
    subscription.set_subscription_request(request);
    batch.finish_resubscribe(Ok(report), t1);
    assert_eq!(pools, 2);

    batch.record(Ok(strings(&["b", "c"])));
    // the next attempt fails: "c" stays pending
    batch.finish_resubscribe(Err("sink closed".to_string()), t1 + RESUBSCRIBE_INTERVAL_NANOS);
    assert_eq!(batch.pending(), &strings(&["b", "c"]));
    let t2 = t1 + 2 * RESUBSCRIBE_INTERVAL_NANOS;
    assert!(!batch.is_due(t2 - 1));
    assert!(batch.is_due(t2));
    let (request, pools) = subscription.prepare_resubscribe(batch.pending()).ok().unwrap();
    let report = resubscribed_log(pools, &request);
    subscription.set_subscription_request(request);
    batch.finish_resubscribe(Ok(report), t2);
    assert_eq!(pools, 3);
    assert_eq!(subscription.get_subscription_request().accounts, Some(strings(&["a", "b", "c"])));
    assert!(batch.pending().is_empty());
}

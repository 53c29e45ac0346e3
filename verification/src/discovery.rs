//! The discovery batcher: pools found in the stream's updates wait in a
//! pending set, and are added to the subscription at most once per
//! `RESUBSCRIBE_INTERVAL_NANOS`, since at startup new pools arrive with almost
//! every transaction and a resubscription per pool would flood the sink with
//! requests of several megabytes.

use crate::human_size::{human_size, to_human_size};
use crate::logger::{LogLevel, LogRecord, LoggerTitle};
use crate::wire::{encoded_size, wire_view};
use crate::subscription::{
    contains_text, CheckedRequest, lemma_merge_follows_pending, lemma_merge_keeps_followed, merged, texts,
};
use vstd::prelude::*;

verus! {

/// Capacity of the queue between the stream and the discovery task.
pub const QUEUE_CAPACITY: usize = 100_000;

/// Minimum gap between two resubscription attempts: ten seconds, in nanoseconds.
pub const RESUBSCRIBE_INTERVAL_NANOS: u64 = 10_000_000_000;

/// `set` with each pool of `pools` that it lacks appended, in the order
/// found; a pool found twice is appended once.
pub open spec fn extended(set: Seq<Seq<char>>, pools: Seq<Seq<char>>) -> Seq<Seq<char>>
    decreases pools.len(),
{
    if pools.len() == 0 {
        set
    } else {
        let before = extended(set, pools.drop_last());
        if before.contains(pools.last()) {
            before
        } else {
            before.push(pools.last())
        }
    }
}

/// Time elapsed from `since` to `now`; zero if `now` is earlier.
pub open spec fn elapsed(since: nat, now: nat) -> nat {
    if now >= since {
        (now - since) as nat
    } else {
        0
    }
}

/// Whether a batcher holding `pending`, whose last attempt was at `since`, is to
/// resubscribe at `now`.
pub open spec fn due(pending: Seq<Seq<char>>, since: nat, now: nat) -> bool {
    pending.len() > 0 && elapsed(since, now) >= RESUBSCRIBE_INTERVAL_NANOS
}

/// Pools found since the last resubscription, and when the last attempt to
/// resubscribe was made (or the batcher started).
pub struct DiscoveryBatch {
    pending: Vec<String>,
    attempted_at: u64,
}

/// What the subscription reports after a resubscription: the accounts it
/// follows and the size of the request sent.
#[derive(Debug, PartialEq, Eq)]
pub struct ResubscribedLog {
    pub pools: u64,
    pub request_size: String,
}

/// What became of an update offered to the discovery queue.
#[derive(Debug, Clone, Copy, PartialEq, Eq, Structural)]
pub enum QueueOutcome {
    Sent,
    Full,
    Closed,
}

/// The report of a resubscription that went through with `sent`: the
/// accounts it follows, and the size of its encoding as text.
pub fn resubscribed_log(pools: u64, sent: &CheckedRequest) -> (log: ResubscribedLog)
    ensures
        log.pools == pools,
        log.request_size@ == human_size(encoded_size(wire_view(sent.request()))),
{
    ResubscribedLog { pools, request_size: to_human_size(sent.size()) }
}

/// What is logged when an update is offered to the discovery queue: nothing
/// when it was taken; a warning when the queue is full (missing a rarely seen
/// pool is acceptable); an error when the queue is closed.
pub fn queue_log(outcome: QueueOutcome) -> (record: Option<LogRecord>)
    ensures
        outcome == QueueOutcome::Sent ==> record is None,
        outcome == QueueOutcome::Full ==> record == Some(
            LogRecord { level: LogLevel::Warn, title: LoggerTitle::DiscoveryQueueFull, message: None },
        ),
        outcome == QueueOutcome::Closed ==> record == Some(
            LogRecord {
                level: LogLevel::Error,
                title: LoggerTitle::DiscoveryQueueClosed,
                message: None,
            },
        ),
{
    match outcome {
        QueueOutcome::Sent => None,
        QueueOutcome::Full => Some(
            LogRecord { level: LogLevel::Warn, title: LoggerTitle::DiscoveryQueueFull, message: None },
        ),
        QueueOutcome::Closed => Some(
            LogRecord {
                level: LogLevel::Error,
                title: LoggerTitle::DiscoveryQueueClosed,
                message: None,
            },
        ),
    }
}

impl DiscoveryBatch {
    /// The pools waiting to be added to the subscription.
    pub closed spec fn pending_pools(self) -> Seq<Seq<char>> {
        texts(self.pending)
    }

    /// When the last resubscription attempt was made, whatever its outcome
    /// (or when the batcher started).
    pub closed spec fn attempted_at(self) -> nat {
        self.attempted_at as nat
    }

    /// The pending pools form a set: none is held twice.
    pub open spec fn wf(self) -> bool {
        self.pending_pools().no_duplicates()
    }

    /// An empty batcher started at `now`.
    pub fn new(now: u64) -> (batch: DiscoveryBatch)
        ensures
            batch.wf(),
            batch.pending_pools() == Seq::<Seq<char>>::empty(),
            batch.attempted_at() == now,
    {
        let batch = DiscoveryBatch { pending: Vec::new(), attempted_at: now };
        assert(batch.pending_pools() =~= Seq::<Seq<char>>::empty());
        batch
    }

    /// The pools waiting to be added to the subscription.
    pub fn pending(&self) -> (pending: &Vec<String>)
        ensures
            texts(*pending) == self.pending_pools(),
    {
        &self.pending
    }

    /// Takes in what one discovery handler made of an update: the pools it
    /// found join the pending set; a failure is logged as an error and
    /// changes nothing.
    pub fn record(&mut self, outcome: Result<Vec<String>, String>) -> (log: Option<LogRecord>)
        requires
            old(self).wf(),
        ensures
            final(self).wf(),
            final(self).attempted_at() == old(self).attempted_at(),
            match outcome {
                Ok(pools) => {
                    &&& final(self).pending_pools() == extended(
                        old(self).pending_pools(),
                        texts(pools),
                    )
                    &&& log is None
                },
                Err(message) => {
                    &&& final(self).pending_pools() == old(self).pending_pools()
                    &&& log == Some(
                        LogRecord {
                            level: LogLevel::Error,
                            title: LoggerTitle::DiscoveryHandleError,
                            message: Some(message),
                        },
                    )
                },
            },
    {
        match outcome {
            Ok(pools) => {
                let ghost start = self.pending_pools();
                let mut i: usize = 0;
                proof {
                    assert(texts(pools).take(0) =~= Seq::<Seq<char>>::empty());
                }
                while i < pools.len()
                    invariant
                        i <= pools.len(),
                        self.pending_pools() == extended(start, texts(pools).take(i as int)),
                        self.pending_pools().no_duplicates(),
                        self.attempted_at() == old(self).attempted_at(),
                    decreases pools.len() - i,
                {
                    let ghost before = self.pending_pools();
                    let ghost pool = texts(pools)[i as int];
                    proof {
                        assert(texts(pools).take(i + 1).drop_last() =~= texts(pools).take(
                            i as int,
                        ));
                    }
                    if !contains_text(&self.pending, &pools[i]) {
                        let pool_text = pools[i].clone();
                        assert(pool_text@ == pool);
                        let ghost prev = self.pending@;
                        self.pending.push(pool_text);
                        proof {
                            assert forall|j: int| 0 <= j < prev.len() implies #[trigger] texts(
                                self.pending,
                            )[j] == before[j] by {
                                assert(self.pending@[j] == prev[j]);
                            }
                            assert(self.pending_pools() =~= before.push(pool));
                        }
                    }
                    i = i + 1;
                }
                proof {
                    assert(texts(pools).take(pools.len() as int) =~= texts(pools));
                }
                None
            },
            Err(message) => Some(
                LogRecord {
                    level: LogLevel::Error,
                    title: LoggerTitle::DiscoveryHandleError,
                    message: Some(message),
                },
            ),
        }
    }

    /// Whether to resubscribe at `now`: some pool is pending and the last
    /// attempt is at least `RESUBSCRIBE_INTERVAL_NANOS` old.
    pub fn is_due(&self, now: u64) -> (due_now: bool)
        ensures
            due_now == due(self.pending_pools(), self.attempted_at(), now as nat),
    {
        let since: u64 = if now >= self.attempted_at {
            now - self.attempted_at
        } else {
            0
        };
        self.pending.len() > 0 && since >= RESUBSCRIBE_INTERVAL_NANOS
    }

    /// Takes in how a resubscription attempt ended at `now`. Either way the
    /// interval starts again, so at most one request goes out per
    /// `RESUBSCRIBE_INTERVAL_NANOS`. Once it went through, the pending set is
    /// emptied and the success is logged with the subscription's report
    /// (accounts followed, request size); when it failed, every pending pool
    /// is kept for the next attempt, and the failure is logged as an error.
    pub fn finish_resubscribe(&mut self, outcome: Result<ResubscribedLog, String>, now: u64) -> (log: (
        LogRecord,
        Option<ResubscribedLog>,
    ))
        requires
            old(self).wf(),
        ensures
            final(self).wf(),
            match outcome {
                Ok(report) => {
                    &&& final(self).pending_pools() == Seq::<Seq<char>>::empty()
                    &&& final(self).attempted_at() == now
                    &&& log.0 == (LogRecord {
                        level: LogLevel::Info,
                        title: LoggerTitle::YellowstoneResubscribed,
                        message: None,
                    })
                    &&& log.1 == Some(report)
                },
                Err(message) => {
                    &&& final(self).pending_pools() == old(self).pending_pools()
                    &&& final(self).attempted_at() == now
                    &&& log.0 == (LogRecord {
                        level: LogLevel::Error,
                        title: LoggerTitle::YellowstoneResubscribeError,
                        message: Some(message),
                    })
                    &&& log.1 is None
                },
            },
    {
        match outcome {
            Ok(report) => {
                self.pending = Vec::new();
                self.attempted_at = now;
                assert(self.pending_pools() =~= Seq::<Seq<char>>::empty());
                (
                    LogRecord {
                        level: LogLevel::Info,
                        title: LoggerTitle::YellowstoneResubscribed,
                        message: None,
                    },
                    Some(report),
                )
            },
            Err(message) => {
                self.attempted_at = now;
                (
                    LogRecord {
                        level: LogLevel::Error,
                        title: LoggerTitle::YellowstoneResubscribeError,
                        message: Some(message),
                    },
                    None,
                )
            },
        }
    }
}

/// The pending set after taking in found pools is the union of the two, as
/// sets, and still holds no pool twice.
pub proof fn lemma_extended_is_union(set: Seq<Seq<char>>, pools: Seq<Seq<char>>)
    requires
        set.no_duplicates(),
    ensures
        extended(set, pools).no_duplicates(),
        forall|pool: Seq<char>| #[trigger]
            extended(set, pools).contains(pool) <==> (set.contains(pool) || pools.contains(pool)),
    decreases pools.len(),
{
    if pools.len() > 0 {
        let rest = pools.drop_last();
        lemma_extended_is_union(set, rest);
        let before = extended(set, rest);
        let last = pools.last();
        assert forall|pool: Seq<char>| #[trigger]
            extended(set, pools).contains(pool) <==> (set.contains(pool) || pools.contains(
                pool,
            )) by {
            if pools.contains(pool) && !rest.contains(pool) {
                let k: int = choose|k: int| 0 <= k < pools.len() && pools[k] == pool;
                if k < rest.len() {
                    assert(rest[k] == pool);
                }
                assert(pool == last);
            }
            if rest.contains(pool) {
                let k: int = choose|k: int| 0 <= k < rest.len() && rest[k] == pool;
                assert(pools[k] == pool);
            }
            if !before.contains(last) {
                if before.push(last).contains(pool) {
                    let k: int = choose|k: int|
                        0 <= k < before.push(last).len() && before.push(last)[k] == pool;
                    if k < before.len() {
                        assert(before[k] == pool);
                    }
                }
                if before.contains(pool) {
                    let k: int = choose|k: int| 0 <= k < before.len() && before[k] == pool;
                    assert(before.push(last)[k] == pool);
                }
                if pool == last {
                    assert(before.push(last)[before.len() as int] == pool);
                }
            }
        }
    }
}

/// A pool is kept while the subscription follows it or the batcher
/// holds it as pending.
pub open spec fn kept(followed: Seq<Seq<char>>, pending: Seq<Seq<char>>, pool: Seq<char>) -> bool {
    followed.contains(pool) || pending.contains(pool)
}

/// No found pool is lost when the batcher takes in pools: each one already
/// kept, and each one just found, is kept afterwards.
pub proof fn lemma_no_pool_lost_on_record(
    followed: Seq<Seq<char>>,
    pending: Seq<Seq<char>>,
    pools: Seq<Seq<char>>,
    pool: Seq<char>,
)
    requires
        pending.no_duplicates(),
        kept(followed, pending, pool) || pools.contains(pool),
    ensures
        kept(followed, extended(pending, pools), pool),
{
    lemma_extended_is_union(pending, pools);
}

/// No pool is lost by a resubscription that goes through: the pending pools
/// are merged into the followed accounts and the batcher is emptied, and
/// every pool kept before is followed afterwards.
pub proof fn lemma_no_pool_lost_on_resubscribe(
    followed: Seq<Seq<char>>,
    pending: Seq<Seq<char>>,
    pool: Seq<char>,
)
    requires
        kept(followed, pending, pool),
    ensures
        kept(merged(followed, pending), Seq::<Seq<char>>::empty(), pool),
{
    lemma_merge_keeps_followed(followed, pending);
    lemma_merge_follows_pending(followed, pending);
}

/// Once an attempt was made at `since` (`finish_resubscribe` records it,
/// whatever its outcome), the batcher is not due before `since` plus the
/// interval, whatever pools were found in between (taking in pools keeps
/// `attempted_at`).
pub proof fn lemma_resubscribe_rate_limited(batch: DiscoveryBatch, since: nat, now: nat)
    requires
        batch.attempted_at() == since,
        now < since + RESUBSCRIBE_INTERVAL_NANOS,
    ensures
        !due(batch.pending_pools(), batch.attempted_at(), now),
{
}

/// The batcher is due exactly when some pool is pending and ten seconds have
/// passed since the last attempt: it is never late, however long the gap.
pub proof fn lemma_due_exactly_after_interval(pending: Seq<Seq<char>>, since: nat, now: nat)
    ensures
        due(pending, since, now) <==> (pending.len() > 0 && now >= since + 10_000_000_000),
{
}

/// Resubscription attempts are at least `RESUBSCRIBE_INTERVAL_NANOS` apart:
/// an attempt is made at `next` only when the batcher is due then, and the
/// batcher holds the time `last` of the previous attempt.
pub proof fn lemma_attempts_interval_apart(batch: DiscoveryBatch, last: nat, next: nat)
    requires
        batch.attempted_at() == last,
        due(batch.pending_pools(), batch.attempted_at(), next),
    ensures
        next >= last + RESUBSCRIBE_INTERVAL_NANOS,
{
}

/// Nothing is resubscribed while no pool is pending.
pub proof fn lemma_not_due_when_empty(batch: DiscoveryBatch, now: nat)
    requires
        batch.pending_pools().len() == 0,
    ensures
        !due(batch.pending_pools(), batch.attempted_at(), now),
{
}

} // verus!

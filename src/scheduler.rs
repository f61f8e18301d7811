use vstd::prelude::*;
use crate::reconcile::PublishOutcome;

verus! {

/// Pause between two consecutive full batches of one tick, in milliseconds.
pub const BATCH_PAUSE_MILLIS: u64 = 100;

/// What the scheduler loop does once a batch has been reconciled.
#[derive(Clone, Copy, Debug, PartialEq, Eq, Structural)]
pub enum NextStep {
    /// Sleep for the batch pause, then claim again within the same tick.
    ClaimAfterPause,
    /// End the tick and wait for the next one.
    EndTick,
}

/// Whether the tick goes on after a batch of `batch_len` requests: only a
/// full, non-empty batch with no shutdown requested is followed by another
/// claim.
pub fn after_batch(batch_len: usize, batch_size: usize, shutdown_requested: bool) -> (r: NextStep)
    ensures
        r == (if !shutdown_requested && batch_len > 0 && batch_len == batch_size {
            NextStep::ClaimAfterPause
        } else {
            NextStep::EndTick
        }),
{
    if !shutdown_requested && batch_len > 0 && batch_len == batch_size {
        NextStep::ClaimAfterPause
    } else {
        NextStep::EndTick
    }
}

/// Whether a claim may start: never once shutdown has been requested.
pub fn may_claim(shutdown_requested: bool) -> (r: bool)
    ensures
        r == !shutdown_requested,
{
    !shutdown_requested
}

/// The number of acknowledged publishes among `outcomes`.
pub open spec fn published_count(outcomes: Seq<(u128, PublishOutcome)>) -> nat
    decreases outcomes.len(),
{
    if outcomes.len() == 0 {
        0
    } else {
        published_count(outcomes.drop_last()) + if outcomes.last().1 is Published { 1nat } else { 0nat }
    }
}

/// How a batch went: acknowledged and failed publishes.
#[derive(Clone, Copy, Debug, PartialEq, Eq, Structural)]
pub struct BatchReport {
    pub published: usize,
    pub failed: usize,
}

/// Counts the acknowledged and the failed publishes of a batch.
pub fn summarize(outcomes: &Vec<(u128, PublishOutcome)>) -> (r: BatchReport)
    ensures
        r.published == published_count(outcomes@),
        r.published + r.failed == outcomes@.len(),
{
    let mut published: usize = 0;
    let mut failed: usize = 0;
    let mut i: usize = 0;
    while i < outcomes.len()
        invariant
            i <= outcomes@.len(),
            published == published_count(outcomes@.take(i as int)),
            published + failed == i,
        decreases outcomes@.len() - i,
    {
        proof {
            assert(outcomes@.take(i + 1).drop_last() =~= outcomes@.take(i as int));
        }
        match &outcomes[i].1 {
            PublishOutcome::Published(_) => {
                published = published + 1;
            },
            PublishOutcome::PublishFailed(_) => {
                failed = failed + 1;
            },
        }
        i = i + 1;
    }
    proof {
        assert(outcomes@.take(i as int) =~= outcomes@);
    }
    BatchReport { published, failed }
}

/// The count that the last row of `rows` with status code `code` carries (an
/// absent count reads as 0), or 0 when no row has that code.
pub open spec fn last_count(rows: Seq<(i16, Option<i64>)>, code: i16) -> i64
    decreases rows.len(),
{
    if rows.len() == 0 {
        0
    } else if rows.last().0 == code {
        match rows.last().1 {
            Some(c) => c,
            None => 0,
        }
    } else {
        last_count(rows.drop_last(), code)
    }
}

/// A stored count as a `usize`: negative counts read as 0, and counts beyond
/// `usize` saturate.
pub open spec fn count_as_usize(c: i64) -> usize {
    if c <= 0 {
        0
    } else if c as int > usize::MAX as int {
        usize::MAX
    } else {
        c as usize
    }
}

/// A stored count as a `usize`; see `count_as_usize`.
pub fn to_usize_count(c: i64) -> (r: usize)
    ensures
        r == count_as_usize(c),
{
    if c <= 0 {
        0
    } else if c as u64 > usize::MAX as u64 {
        usize::MAX
    } else {
        c as usize
    }
}

/// Requests per status over a recent window.
#[derive(Clone, Copy, Debug, Default, PartialEq, Eq, Structural)]
pub struct SchedulerStats {
    pub created: usize,
    pub processing: usize,
    pub sent: usize,
    pub failed: usize,
    pub stopped: usize,
}

impl SchedulerStats {
    pub open spec fn spec_total(self) -> int {
        self.created + self.processing + self.sent + self.failed + self.stopped
    }

    /// The number of requests over all statuses.
    pub fn total(&self) -> (r: usize)
        requires
            self.spec_total() <= usize::MAX,
        ensures
            r == self.spec_total(),
    {
        self.created + self.processing + self.sent + self.failed + self.stopped
    }

    /// Stats from (status code, count) rows grouped by status; rows with an
    /// unknown code are ignored.
    pub fn from_counts(rows: &Vec<(i16, Option<i64>)>) -> (r: SchedulerStats)
        ensures
            r.created == count_as_usize(last_count(rows@, 0)),
            r.processing == count_as_usize(last_count(rows@, 1)),
            r.sent == count_as_usize(last_count(rows@, 2)),
            r.failed == count_as_usize(last_count(rows@, 3)),
            r.stopped == count_as_usize(last_count(rows@, 4)),
    {
        let mut stats = SchedulerStats { created: 0, processing: 0, sent: 0, failed: 0, stopped: 0 };
        let mut i: usize = 0;
        while i < rows.len()
            invariant
                i <= rows@.len(),
                stats.created == count_as_usize(last_count(rows@.take(i as int), 0)),
                stats.processing == count_as_usize(last_count(rows@.take(i as int), 1)),
                stats.sent == count_as_usize(last_count(rows@.take(i as int), 2)),
                stats.failed == count_as_usize(last_count(rows@.take(i as int), 3)),
                stats.stopped == count_as_usize(last_count(rows@.take(i as int), 4)),
            decreases rows@.len() - i,
        {
            proof {
                assert(rows@.take(i + 1).drop_last() =~= rows@.take(i as int));
            }
            let (code, count) = rows[i];
            let c = match count {
                Some(c) => c,
                None => 0,
            };
            let n = to_usize_count(c);
            match code {
                0 => { stats.created = n; },
                1 => { stats.processing = n; },
                2 => { stats.sent = n; },
                3 => { stats.failed = n; },
                4 => { stats.stopped = n; },
                _ => {},
            }
            i = i + 1;
        }
        proof {
            assert(rows@.take(i as int) =~= rows@);
        }
        stats
    }
}

} // verus!

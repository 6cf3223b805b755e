//! System-level properties of the broker, proved over the transitions its
//! operations are specified by.
//!
//! Each lemma here restates, as one fact, something the individual
//! contracts promise together: submissions collapse per correlation id,
//! terminal jobs never move again, attempt counts only grow, notifications
//! exist only for confirmed jobs, and the retry budget is a hard cap.

use vstd::prelude::*;

use crate::forwarder::{HttpOutcome, confirmed_notification_change, forward_outcome,
    spec_sending_update};
use crate::storage::{BrokerStorage, find_job, spec_apply_job_update};
use crate::types::{BookingJob, JobState};

verus! {

/// What a submission does to the job keyspace, as the submit handler's
/// contract states it: an unknown correlation id appends its fresh job, a
/// known one changes nothing.
pub open spec fn spec_submit_jobs(jobs: Seq<BookingJob>, j: BookingJob) -> Seq<BookingJob> {
    if find_job(jobs, j.correlation_id@) is Some {
        jobs
    } else {
        jobs.push(j)
    }
}

proof fn lemma_find_job_push_self(s: Seq<BookingJob>, j: BookingJob)
    requires
        find_job(s, j.correlation_id@) is None,
    ensures
        find_job(s.push(j), j.correlation_id@) == Some(j),
    decreases s.len(),
{
    if s.len() == 0 {
        assert(s.push(j)[0] == j);
    } else {
        assert(s.push(j)[0] == s[0]);
        assert(s[0].correlation_id@ != j.correlation_id@);
        assert(s.push(j).drop_first() =~= s.drop_first().push(j));
        lemma_find_job_push_self(s.drop_first(), j);
    }
}

/// Idempotency of submission: after any submission for a correlation id the
/// store holds a job under it, and every further submission for the same id
/// — whatever payload it carries — leaves the job keyspace exactly as it
/// was. Any number of submissions therefore yields one job per id, and each
/// acknowledgement reports that job's current state
/// (`BrokerHandler::handle_submit_booking` promises the status word).
pub proof fn lemma_submit_idempotent(jobs: Seq<BookingJob>, j1: BookingJob, j2: BookingJob)
    requires
        j1.correlation_id@ == j2.correlation_id@,
    ensures
        find_job(spec_submit_jobs(jobs, j1), j1.correlation_id@) is Some,
        spec_submit_jobs(spec_submit_jobs(jobs, j1), j2) == spec_submit_jobs(jobs, j1),
{
    if find_job(jobs, j1.correlation_id@) is None {
        lemma_find_job_push_self(jobs, j1);
    }
}

/// Any one step the broker's operations perform on a stored job: leaving it
/// alone, leasing a queued job to `Sending` (`begin_attempt`), or finishing
/// an attempt on a sending job (`complete_attempt`).
pub open spec fn broker_job_step(
    j: BookingJob,
    j2: BookingJob,
    outcome: HttpOutcome,
    lease_time: i64,
    done_time: i64,
    max_retry_attempts: u32,
    initial_backoff_ms: u64,
) -> bool {
    ||| j2 == j
    ||| (j.state == JobState::Queued && j2 == spec_apply_job_update(
        j,
        spec_sending_update(),
        lease_time,
    ))
    ||| (j.state == JobState::Sending && j.attempts < u32::MAX && forward_outcome(
        j,
        j2,
        outcome,
        done_time,
        max_retry_attempts,
        initial_backoff_ms,
    ))
}

/// Monotonic state: a job seen in `Confirmed` or `Failed` is left exactly
/// as it is by every step the broker performs. The submit handler never
/// touches an existing job, leasing asks for `Queued`, and completion asks
/// for `Sending`; a terminal job fits none of these.
pub proof fn lemma_monotonic_terminal(
    j: BookingJob,
    j2: BookingJob,
    outcome: HttpOutcome,
    lease_time: i64,
    done_time: i64,
    max_retry_attempts: u32,
    initial_backoff_ms: u64,
)
    requires
        broker_job_step(j, j2, outcome, lease_time, done_time, max_retry_attempts,
            initial_backoff_ms),
        j.state.is_terminal(),
    ensures
        j2 == j,
{
}

/// Attempt counts never decrease: every step the broker performs keeps a
/// job's `attempts` or raises it by one.
pub proof fn lemma_attempts_never_decrease(
    j: BookingJob,
    j2: BookingJob,
    outcome: HttpOutcome,
    lease_time: i64,
    done_time: i64,
    max_retry_attempts: u32,
    initial_backoff_ms: u64,
)
    requires
        broker_job_step(j, j2, outcome, lease_time, done_time, max_retry_attempts,
            initial_backoff_ms),
    ensures
        j.attempts <= j2.attempts <= j.attempts + 1,
{
}

/// Notification precondition: when completing an attempt creates a
/// notification record — the outbox gains an entry under the job's
/// correlation id — the job has just moved to `Confirmed`. On every other
/// path the completion contract leaves the outbox untouched.
pub proof fn lemma_notification_implies_confirmed(
    j: BookingJob,
    j2: BookingJob,
    outcome: HttpOutcome,
    now: i64,
    max_retry_attempts: u32,
    initial_backoff_ms: u64,
    before: BrokerStorage,
    after: BrokerStorage,
    cid: Seq<char>,
)
    requires
        j.state == JobState::Sending,
        forward_outcome(j, j2, outcome, now, max_retry_attempts, initial_backoff_ms),
        match outcome {
            HttpOutcome::Status(code, _) => if 200 <= code < 300 {
                confirmed_notification_change(before, after, cid, j.notify_json@, now)
            } else {
                after.notification_seq() == before.notification_seq()
            },
            HttpOutcome::NetworkError(_) => after.notification_seq()
                == before.notification_seq(),
        },
        before.spec_notification(cid) is None,
        after.spec_notification(cid) is Some,
    ensures
        j2.state == JobState::Confirmed,
{
    match outcome {
        HttpOutcome::Status(code, _) => {
            if 200 <= code < 300 {
            } else {
                assert(after.spec_notification(cid) == before.spec_notification(cid));
            }
        },
        HttpOutcome::NetworkError(_) => {
            assert(after.spec_notification(cid) == before.spec_notification(cid));
        },
    }
}

/// One failed delivery cycle: a queued job is leased to `Sending` and the
/// attempt ends in a network error, at whatever times and with whatever
/// diagnostic.
pub open spec fn network_failure_cycle(
    j: BookingJob,
    j2: BookingJob,
    max_retry_attempts: u32,
    initial_backoff_ms: u64,
) -> bool {
    &&& j.state == JobState::Queued
    &&& j.attempts < u32::MAX
    &&& exists|e: String, lease_time: i64, done_time: i64|
        #[trigger] forward_outcome(
            spec_apply_job_update(j, spec_sending_update(), lease_time),
            j2,
            HttpOutcome::NetworkError(e),
            done_time,
            max_retry_attempts,
            initial_backoff_ms,
        )
}

proof fn lemma_retry_cap_aux(
    chain: Seq<BookingJob>,
    max_retry_attempts: u32,
    initial_backoff_ms: u64,
    i: int,
)
    requires
        chain.len() >= 1,
        chain[0].attempts == 0,
        chain[0].state == JobState::Queued,
        forall|k: int|
            0 <= k < chain.len() - 1 ==> network_failure_cycle(
                #[trigger] chain[k],
                chain[k + 1],
                max_retry_attempts,
                initial_backoff_ms,
            ),
        0 <= i < chain.len(),
    ensures
        chain[i].attempts == i,
        i <= max_retry_attempts ==> chain[i].state == JobState::Queued,
        i > max_retry_attempts ==> chain[i].state == JobState::Failed,
    decreases i,
{
    if i > 0 {
        lemma_retry_cap_aux(chain, max_retry_attempts, initial_backoff_ms, i - 1);
        assert(network_failure_cycle(chain[i - 1], chain[i], max_retry_attempts,
            initial_backoff_ms));
        let (e, lease_time, done_time) = choose|e: String, lease_time: i64, done_time: i64|
            #[trigger] forward_outcome(
                spec_apply_job_update(chain[i - 1], spec_sending_update(), lease_time),
                chain[i],
                HttpOutcome::NetworkError(e),
                done_time,
                max_retry_attempts,
                initial_backoff_ms,
            );
        let leased = spec_apply_job_update(chain[i - 1], spec_sending_update(), lease_time);
        assert(leased.attempts == chain[i - 1].attempts);
        assert(chain[i].attempts == leased.attempts + 1);
    }
}

/// Retry cap: a fresh job driven through consecutive network failures
/// accumulates one attempt per cycle, stays queued for at most
/// `max_retry_attempts` retries, and is `Failed` — for good, by
/// `lemma_monotonic_terminal` — after `max_retry_attempts + 1` failed
/// attempts; no longer chain of failure cycles exists. A failed job is
/// never due again: `BrokerStorage::get_due_jobs` yields only `Queued`
/// jobs, so no further HTTP attempt is made for it.
pub proof fn lemma_retry_cap(
    chain: Seq<BookingJob>,
    max_retry_attempts: u32,
    initial_backoff_ms: u64,
)
    requires
        chain.len() >= 1,
        chain[0].attempts == 0,
        chain[0].state == JobState::Queued,
        forall|k: int|
            0 <= k < chain.len() - 1 ==> network_failure_cycle(
                #[trigger] chain[k],
                chain[k + 1],
                max_retry_attempts,
                initial_backoff_ms,
            ),
    ensures
        forall|i: int| 0 <= i < chain.len() ==> (#[trigger] chain[i]).attempts == i,
        forall|i: int|
            0 <= i < chain.len() && i <= max_retry_attempts ==> (#[trigger] chain[i]).state
                == JobState::Queued,
        forall|i: int|
            0 <= i < chain.len() && i > max_retry_attempts ==> (#[trigger] chain[i]).state
                == JobState::Failed,
        chain.len() <= max_retry_attempts + 2,
{
    assert forall|i: int| 0 <= i < chain.len() implies (#[trigger] chain[i]).attempts == i && (i
        <= max_retry_attempts ==> chain[i].state == JobState::Queued) && (i > max_retry_attempts
        ==> chain[i].state == JobState::Failed) by {
        lemma_retry_cap_aux(chain, max_retry_attempts, initial_backoff_ms, i);
    }
    if chain.len() > max_retry_attempts + 2 {
        let i = max_retry_attempts + 1;
        assert(chain[i as int].state == JobState::Failed);
        assert(network_failure_cycle(chain[i as int], chain[i as int + 1], max_retry_attempts,
            initial_backoff_ms));
        assert(false);
    }
}

} // verus!

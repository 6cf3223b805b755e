//! The broker's store of booking jobs and notification records, both keyed by
//! `correlation_id`. Records live in two association lists with unique keys;
//! every operation is specified against `spec_job` / `spec_notification`,
//! the per-key views of those lists.
//!
//! The store owns its records: reads hand out by-value copies, and writers go
//! through read-modify-write operations that keep the key sets unique.

use vstd::prelude::*;

use crate::types::{BookingJob, JobState, NotificationRecord, NotificationState};
use crate::strutil::{clone_opt_string, lex_le, str_lex_le, lemma_lex_le_total, lemma_lex_le_trans};

verus! {

/// Failure of a storage operation.
#[derive(Debug, Clone, Copy, PartialEq, Eq, Structural)]
pub enum StorageError {
    /// A read-modify-write was asked for a key that holds no record.
    NotFound,
}

/// Parameters for updating job state: the fields a writer wants to overwrite.
/// `state` is always written; every `Some` field is written, every `None`
/// field is left as it stands.
pub struct JobStateUpdate {
    pub state: JobState,
    pub attempts: Option<u32>,
    pub next_attempt_at: Option<i64>,
    pub last_error: Option<String>,
    pub http_status: Option<u16>,
    pub central_response_json: Option<String>,
}

/// The job record `u` patched over `j`, with `updated_at` bumped to `now`.
pub open spec fn spec_apply_job_update(j: BookingJob, u: JobStateUpdate, now: i64) -> BookingJob {
    BookingJob {
        correlation_id: j.correlation_id,
        booking_json: j.booking_json,
        notify_json: j.notify_json,
        state: u.state,
        attempts: if u.attempts is Some {
            u.attempts->0
        } else {
            j.attempts
        },
        next_attempt_at: if u.next_attempt_at is Some {
            u.next_attempt_at->0
        } else {
            j.next_attempt_at
        },
        last_error: if u.last_error is Some {
            u.last_error
        } else {
            j.last_error
        },
        http_status: if u.http_status is Some {
            u.http_status
        } else {
            j.http_status
        },
        central_response_json: if u.central_response_json is Some {
            u.central_response_json
        } else {
            j.central_response_json
        },
        created_at: j.created_at,
        updated_at: now,
    }
}

/// The first job in `s` keyed by `cid`, if any.
pub open spec fn find_job(s: Seq<BookingJob>, cid: Seq<char>) -> Option<BookingJob>
    decreases s.len(),
{
    if s.len() == 0 {
        None
    } else if s[0].correlation_id@ == cid {
        Some(s[0])
    } else {
        find_job(s.drop_first(), cid)
    }
}

/// The first notification in `s` keyed by `cid`, if any.
pub open spec fn find_notification(s: Seq<NotificationRecord>, cid: Seq<char>) -> Option<
    NotificationRecord,
>
    decreases s.len(),
{
    if s.len() == 0 {
        None
    } else if s[0].correlation_id@ == cid {
        Some(s[0])
    } else {
        find_notification(s.drop_first(), cid)
    }
}

/// Keys are pairwise distinct.
pub open spec fn jobs_unique(s: Seq<BookingJob>) -> bool {
    forall|i: int, j: int|
        0 <= i < j < s.len() ==> s[i].correlation_id@ != s[j].correlation_id@
}

pub open spec fn notifications_unique(s: Seq<NotificationRecord>) -> bool {
    forall|i: int, j: int|
        0 <= i < j < s.len() ==> s[i].correlation_id@ != s[j].correlation_id@
}

proof fn lemma_find_job_by_index(s: Seq<BookingJob>, cid: Seq<char>, i: int)
    requires
        jobs_unique(s),
        0 <= i < s.len(),
        s[i].correlation_id@ == cid,
    ensures
        find_job(s, cid) == Some(s[i]),
    decreases s.len(),
{
    if i > 0 {
        assert(s[0].correlation_id@ != cid);
        assert(s.drop_first()[i - 1] == s[i]);
        assert(jobs_unique(s.drop_first())) by {
            assert(forall|a: int, b: int|
                0 <= a < b < s.drop_first().len() ==> s.drop_first()[a] == s[a + 1]
                    && s.drop_first()[b] == s[b + 1]);
        }
        lemma_find_job_by_index(s.drop_first(), cid, i - 1);
    }
}

proof fn lemma_find_job_none(s: Seq<BookingJob>, cid: Seq<char>)
    requires
        forall|i: int| 0 <= i < s.len() ==> s[i].correlation_id@ != cid,
    ensures
        find_job(s, cid) is None,
    decreases s.len(),
{
    if s.len() > 0 {
        assert(forall|i: int|
            0 <= i < s.drop_first().len() ==> s.drop_first()[i] == s[i + 1]);
        lemma_find_job_none(s.drop_first(), cid);
    }
}

proof fn lemma_find_notification_by_index(s: Seq<NotificationRecord>, cid: Seq<char>, i: int)
    requires
        notifications_unique(s),
        0 <= i < s.len(),
        s[i].correlation_id@ == cid,
    ensures
        find_notification(s, cid) == Some(s[i]),
    decreases s.len(),
{
    if i > 0 {
        assert(s[0].correlation_id@ != cid);
        assert(s.drop_first()[i - 1] == s[i]);
        assert(notifications_unique(s.drop_first())) by {
            assert(forall|a: int, b: int|
                0 <= a < b < s.drop_first().len() ==> s.drop_first()[a] == s[a + 1]
                    && s.drop_first()[b] == s[b + 1]);
        }
        lemma_find_notification_by_index(s.drop_first(), cid, i - 1);
    }
}

proof fn lemma_find_notification_none(s: Seq<NotificationRecord>, cid: Seq<char>)
    requires
        forall|i: int| 0 <= i < s.len() ==> s[i].correlation_id@ != cid,
    ensures
        find_notification(s, cid) is None,
    decreases s.len(),
{
    if s.len() > 0 {
        assert(forall|i: int|
            0 <= i < s.drop_first().len() ==> s.drop_first()[i] == s[i + 1]);
        lemma_find_notification_none(s.drop_first(), cid);
    }
}

/// A field-for-field copy with a known specification; the derived `Clone` is
/// opaque to the verifier.
pub fn copy_job(j: &BookingJob) -> (r: BookingJob)
    ensures
        r == *j,
{
    BookingJob {
        correlation_id: j.correlation_id.clone(),
        booking_json: j.booking_json.clone(),
        notify_json: j.notify_json.clone(),
        state: j.state,
        attempts: j.attempts,
        next_attempt_at: j.next_attempt_at,
        last_error: clone_opt_string(&j.last_error),
        http_status: j.http_status,
        central_response_json: clone_opt_string(&j.central_response_json),
        created_at: j.created_at,
        updated_at: j.updated_at,
    }
}

/// A field-for-field copy with a known specification.
pub fn copy_notification(n: &NotificationRecord) -> (r: NotificationRecord)
    ensures
        r == *n,
{
    NotificationRecord {
        correlation_id: n.correlation_id.clone(),
        email_to: n.email_to.clone(),
        state: n.state,
        attempts: n.attempts,
        next_attempt_at: n.next_attempt_at,
        last_error: clone_opt_string(&n.last_error),
        subject: n.subject.clone(),
        body: n.body.clone(),
        simulated_sent_at: n.simulated_sent_at,
        created_at: n.created_at,
        updated_at: n.updated_at,
    }
}

/// The broker's store: two keyspaces, `booking_jobs` and
/// `notification_outbox`, both keyed by `correlation_id`.
pub struct BrokerStorage {
    jobs: Vec<BookingJob>,
    notifications: Vec<NotificationRecord>,
}

impl BrokerStorage {
    /// All job records, in insertion order.
    pub closed spec fn job_seq(self) -> Seq<BookingJob> {
        self.jobs@
    }

    /// All notification records, in insertion order.
    pub closed spec fn notification_seq(self) -> Seq<NotificationRecord> {
        self.notifications@
    }

    /// The job stored under `cid`, if any.
    pub open spec fn spec_job(self, cid: Seq<char>) -> Option<BookingJob> {
        find_job(self.job_seq(), cid)
    }

    /// The notification stored under `cid`, if any.
    pub open spec fn spec_notification(self, cid: Seq<char>) -> Option<NotificationRecord> {
        find_notification(self.notification_seq(), cid)
    }

    /// Well-formedness: each keyspace holds at most one record per key.
    pub open spec fn wf(self) -> bool {
        jobs_unique(self.job_seq()) && notifications_unique(self.notification_seq())
    }

    /// An empty store.
    pub fn new() -> (r: BrokerStorage)
        ensures
            r.wf(),
            r.job_seq() == Seq::<BookingJob>::empty(),
            r.notification_seq() == Seq::<NotificationRecord>::empty(),
    {
        BrokerStorage { jobs: Vec::new(), notifications: Vec::new() }
    }

    fn find_job_index(&self, correlation_id: &str) -> (r: Option<usize>)
        requires
            self.wf(),
        ensures
            match r {
                Option::Some(i) => i < self.job_seq().len() && self.job_seq()[i as int].correlation_id@
                    == correlation_id@ && self.spec_job(correlation_id@) == Some(
                    self.job_seq()[i as int],
                ),
                Option::None => self.spec_job(correlation_id@) is None,
            },
    {
        let n = self.jobs.len();
        let mut i: usize = 0;
        while i < n
            invariant
                0 <= i <= n,
                n == self.job_seq().len(),
                self.wf(),
                forall|j: int| 0 <= j < i ==> self.job_seq()[j].correlation_id@ != correlation_id@,
            decreases n - i,
        {
            if crate::strutil::str_eq(self.jobs[i].correlation_id.as_str(), correlation_id) {
                proof {
                    lemma_find_job_by_index(self.job_seq(), correlation_id@, i as int);
                }
                return Option::Some(i);
            }
            i = i + 1;
        }
        proof {
            lemma_find_job_none(self.job_seq(), correlation_id@);
        }
        Option::None
    }

    fn find_notification_index(&self, correlation_id: &str) -> (r: Option<usize>)
        requires
            self.wf(),
        ensures
            match r {
                Option::Some(i) => i < self.notification_seq().len()
                    && self.notification_seq()[i as int].correlation_id@ == correlation_id@
                    && self.spec_notification(correlation_id@) == Some(
                    self.notification_seq()[i as int],
                ),
                Option::None => self.spec_notification(correlation_id@) is None,
            },
    {
        let n = self.notifications.len();
        let mut i: usize = 0;
        while i < n
            invariant
                0 <= i <= n,
                n == self.notification_seq().len(),
                self.wf(),
                forall|j: int|
                    0 <= j < i ==> self.notification_seq()[j].correlation_id@ != correlation_id@,
            decreases n - i,
        {
            if crate::strutil::str_eq(self.notifications[i].correlation_id.as_str(), correlation_id) {
                proof {
                    lemma_find_notification_by_index(
                        self.notification_seq(),
                        correlation_id@,
                        i as int,
                    );
                }
                return Option::Some(i);
            }
            i = i + 1;
        }
        proof {
            lemma_find_notification_none(self.notification_seq(), correlation_id@);
        }
        Option::None
    }

    /// A by-value copy of the job stored under `correlation_id`.
    pub fn get_booking_job(&self, correlation_id: &str) -> (r: Option<BookingJob>)
        requires
            self.wf(),
        ensures
            r == self.spec_job(correlation_id@),
    {
        match self.find_job_index(correlation_id) {
            Option::Some(i) => Option::Some(copy_job(&self.jobs[i])),
            Option::None => Option::None,
        }
    }

    /// A by-value copy of the notification stored under `correlation_id`.
    pub fn get_notification(&self, correlation_id: &str) -> (r: Option<NotificationRecord>)
        requires
            self.wf(),
        ensures
            r == self.spec_notification(correlation_id@),
    {
        match self.find_notification_index(correlation_id) {
            Option::Some(i) => Option::Some(copy_notification(&self.notifications[i])),
            Option::None => Option::None,
        }
    }

    /// Check-and-insert keyed on `correlation_id`: if a job record already
    /// exists it is left untouched and `false` comes back; otherwise the job
    /// is inserted and `true` comes back.
    pub fn persist_booking_job(&mut self, job: &BookingJob) -> (inserted: bool)
        requires
            old(self).wf(),
        ensures
            final(self).wf(),
            inserted == (old(self).spec_job(job.correlation_id@) is None),
            inserted ==> final(self).job_seq() == old(self).job_seq().push(*job),
            !inserted ==> final(self).job_seq() == old(self).job_seq(),
            final(self).notification_seq() == old(self).notification_seq(),
            final(self).spec_job(job.correlation_id@) == if inserted {
                Some(*job)
            } else {
                old(self).spec_job(job.correlation_id@)
            },
            forall|cid: Seq<char>|
                cid != job.correlation_id@ ==> final(self).spec_job(cid) == old(self).spec_job(
                    cid,
                ),
    {
        match self.find_job_index(job.correlation_id.as_str()) {
            Option::Some(_) => false,
            Option::None => {
                let ghost old_jobs = self.jobs@;
                self.jobs.push(copy_job(job));
                proof {
                    assert(self.job_seq() =~= old_jobs.push(*job));
                    assert forall|i: int| 0 <= i < old_jobs.len() implies old_jobs[i].correlation_id@
                        != job.correlation_id@ by {
                        if old_jobs[i].correlation_id@ == job.correlation_id@ {
                            lemma_find_job_by_index(old_jobs, job.correlation_id@, i);
                        }
                    }
                    assert(jobs_unique(self.job_seq())) by {
                        assert(forall|i: int|
                            0 <= i < old_jobs.len() ==> self.job_seq()[i] == old_jobs[i]);
                    }
                    lemma_find_job_by_index(
                        self.job_seq(),
                        job.correlation_id@,
                        old_jobs.len() as int,
                    );
                    assert forall|cid: Seq<char>| cid != job.correlation_id@ implies find_job(
                        self.job_seq(),
                        cid,
                    ) == find_job(old_jobs, cid) by {
                        lemma_find_job_push_frame(old_jobs, *job, cid);
                    }
                }
                true
            },
        }
    }

    /// Check-and-insert for the notification outbox, keyed on
    /// `correlation_id`.
    pub fn persist_notification(&mut self, notif: &NotificationRecord) -> (inserted: bool)
        requires
            old(self).wf(),
        ensures
            final(self).wf(),
            inserted == (old(self).spec_notification(notif.correlation_id@) is None),
            inserted ==> final(self).notification_seq() == old(self).notification_seq().push(
                *notif,
            ),
            !inserted ==> final(self).notification_seq() == old(self).notification_seq(),
            final(self).job_seq() == old(self).job_seq(),
            final(self).spec_notification(notif.correlation_id@) == if inserted {
                Some(*notif)
            } else {
                old(self).spec_notification(notif.correlation_id@)
            },
            forall|cid: Seq<char>|
                cid != notif.correlation_id@ ==> final(self).spec_notification(cid) == old(
                    self,
                ).spec_notification(cid),
    {
        match self.find_notification_index(notif.correlation_id.as_str()) {
            Option::Some(_) => false,
            Option::None => {
                let ghost old_notifs = self.notifications@;
                self.notifications.push(copy_notification(notif));
                proof {
                    assert(self.notification_seq() =~= old_notifs.push(*notif));
                    assert forall|i: int|
                        0 <= i < old_notifs.len() implies old_notifs[i].correlation_id@
                        != notif.correlation_id@ by {
                        if old_notifs[i].correlation_id@ == notif.correlation_id@ {
                            lemma_find_notification_by_index(old_notifs, notif.correlation_id@, i);
                        }
                    }
                    assert(notifications_unique(self.notification_seq())) by {
                        assert(forall|i: int|
                            0 <= i < old_notifs.len() ==> self.notification_seq()[i]
                                == old_notifs[i]);
                    }
                    lemma_find_notification_by_index(
                        self.notification_seq(),
                        notif.correlation_id@,
                        old_notifs.len() as int,
                    );
                    assert forall|cid: Seq<char>| cid != notif.correlation_id@ implies
                        find_notification(self.notification_seq(), cid) == find_notification(
                        old_notifs,
                        cid,
                    ) by {
                        lemma_find_notification_push_frame(old_notifs, *notif, cid);
                    }
                }
                true
            },
        }
    }

    /// Read-modify-write of the job keyed by `correlation_id`: overwrites the
    /// fields named in `update`, bumps `updated_at` to `now`, and fails with
    /// `NotFound` exactly when the key holds no record.
    pub fn update_job_state(
        &mut self,
        correlation_id: &str,
        update: JobStateUpdate,
        now: i64,
    ) -> (r: Result<(), StorageError>)
        requires
            old(self).wf(),
        ensures
            final(self).wf(),
            final(self).notification_seq() == old(self).notification_seq(),
            match old(self).spec_job(correlation_id@) {
                Option::Some(j) => r is Ok && final(self).spec_job(correlation_id@) == Some(
                    spec_apply_job_update(j, update, now),
                ),
                Option::None => r == Result::<(), StorageError>::Err(StorageError::NotFound)
                    && final(self).job_seq() == old(self).job_seq(),
            },
            forall|cid: Seq<char>|
                cid != correlation_id@ ==> final(self).spec_job(cid) == old(self).spec_job(cid),
    {
        match self.find_job_index(correlation_id) {
            Option::None => Result::Err(StorageError::NotFound),
            Option::Some(i) => {
                let ghost old_jobs = self.jobs@;
                let ghost old_job = self.jobs@[i as int];
                let current = copy_job(&self.jobs[i]);
                let patched = BookingJob {
                    correlation_id: current.correlation_id,
                    booking_json: current.booking_json,
                    notify_json: current.notify_json,
                    state: update.state,
                    attempts: match update.attempts {
                        Option::Some(a) => a,
                        Option::None => current.attempts,
                    },
                    next_attempt_at: match update.next_attempt_at {
                        Option::Some(t) => t,
                        Option::None => current.next_attempt_at,
                    },
                    last_error: match update.last_error {
                        Option::Some(e) => Option::Some(e),
                        Option::None => current.last_error,
                    },
                    http_status: match update.http_status {
                        Option::Some(s) => Option::Some(s),
                        Option::None => current.http_status,
                    },
                    central_response_json: match update.central_response_json {
                        Option::Some(b) => Option::Some(b),
                        Option::None => current.central_response_json,
                    },
                    created_at: current.created_at,
                    updated_at: now,
                };
                self.jobs[i] = patched;
                proof {
                    let s = self.jobs@;
                    assert(s == old_jobs.update(i as int, s[i as int]));
                    assert(s[i as int].correlation_id@ == correlation_id@);
                    assert(jobs_unique(s)) by {
                        assert(forall|a: int|
                            0 <= a < s.len() ==> s[a].correlation_id@ == old_jobs[a].correlation_id@);
                    }
                    lemma_find_job_by_index(s, correlation_id@, i as int);
                    assert forall|cid: Seq<char>| cid != correlation_id@ implies find_job(s, cid)
                        == find_job(old_jobs, cid) by {
                        lemma_find_job_update_frame(old_jobs, i as int, s[i as int], cid);
                    }
                }
                Result::Ok(())
            },
        }
    }

    /// Read-modify-write of the notification keyed by `correlation_id`:
    /// overwrites the state and every given field, bumps `updated_at` to
    /// `now`, and fails with `NotFound` exactly when the key holds no record.
    pub fn update_notification_state(
        &mut self,
        correlation_id: &str,
        state: NotificationState,
        simulated_sent_at: Option<i64>,
        subject: Option<String>,
        body: Option<String>,
        now: i64,
    ) -> (r: Result<(), StorageError>)
        requires
            old(self).wf(),
        ensures
            final(self).wf(),
            final(self).job_seq() == old(self).job_seq(),
            match old(self).spec_notification(correlation_id@) {
                Option::Some(n) => r is Ok && final(self).spec_notification(correlation_id@)
                    == Some(spec_apply_notification_update(
                    n,
                    state,
                    simulated_sent_at,
                    subject,
                    body,
                    now,
                )),
                Option::None => r == Result::<(), StorageError>::Err(StorageError::NotFound)
                    && final(self).notification_seq() == old(self).notification_seq(),
            },
            forall|cid: Seq<char>|
                cid != correlation_id@ ==> final(self).spec_notification(cid) == old(
                    self,
                ).spec_notification(cid),
    {
        match self.find_notification_index(correlation_id) {
            Option::None => Result::Err(StorageError::NotFound),
            Option::Some(i) => {
                let ghost old_notifs = self.notifications@;
                let current = copy_notification(&self.notifications[i]);
                let patched = NotificationRecord {
                    correlation_id: current.correlation_id,
                    email_to: current.email_to,
                    state,
                    attempts: current.attempts,
                    next_attempt_at: current.next_attempt_at,
                    last_error: current.last_error,
                    subject: match subject {
                        Option::Some(s) => s,
                        Option::None => current.subject,
                    },
                    body: match body {
                        Option::Some(b) => b,
                        Option::None => current.body,
                    },
                    simulated_sent_at: match simulated_sent_at {
                        Option::Some(t) => Option::Some(t),
                        Option::None => current.simulated_sent_at,
                    },
                    created_at: current.created_at,
                    updated_at: now,
                };
                self.notifications[i] = patched;
                proof {
                    let s = self.notifications@;
                    assert(s == old_notifs.update(i as int, s[i as int]));
                    assert(s[i as int].correlation_id@ == correlation_id@);
                    assert(notifications_unique(s)) by {
                        assert(forall|a: int|
                            0 <= a < s.len() ==> s[a].correlation_id@
                                == old_notifs[a].correlation_id@);
                    }
                    lemma_find_notification_by_index(s, correlation_id@, i as int);
                    assert forall|cid: Seq<char>| cid != correlation_id@ implies find_notification(
                        s,
                        cid,
                    ) == find_notification(old_notifs, cid) by {
                        lemma_find_notification_update_frame(old_notifs, i as int, s[i as int], cid);
                    }
                }
                Result::Ok(())
            },
        }
    }
}

/// The notification record patched as `update_notification_state` does.
pub open spec fn spec_apply_notification_update(
    n: NotificationRecord,
    state: NotificationState,
    simulated_sent_at: Option<i64>,
    subject: Option<String>,
    body: Option<String>,
    now: i64,
) -> NotificationRecord {
    NotificationRecord {
        correlation_id: n.correlation_id,
        email_to: n.email_to,
        state,
        attempts: n.attempts,
        next_attempt_at: n.next_attempt_at,
        last_error: n.last_error,
        subject: if subject is Some {
            subject->0
        } else {
            n.subject
        },
        body: if body is Some {
            body->0
        } else {
            n.body
        },
        simulated_sent_at: if simulated_sent_at is Some {
            simulated_sent_at
        } else {
            n.simulated_sent_at
        },
        created_at: n.created_at,
        updated_at: now,
    }
}

/// A job the forwarder should pick up at `now`.
pub open spec fn job_due(j: BookingJob, now: i64) -> bool {
    j.state == JobState::Queued && j.next_attempt_at <= now
}

/// A notification the notifier should pick up at `now`.
pub open spec fn notification_due(n: NotificationRecord, now: i64) -> bool {
    n.state == NotificationState::Pending && n.next_attempt_at <= now
}

/// Scan order for jobs: ascending `next_attempt_at`, ties broken by
/// `correlation_id` in lexicographic order.
pub open spec fn job_due_le(a: BookingJob, b: BookingJob) -> bool {
    a.next_attempt_at < b.next_attempt_at || (a.next_attempt_at == b.next_attempt_at && lex_le(
        a.correlation_id@,
        b.correlation_id@,
    ))
}

/// Scan order for notifications.
pub open spec fn notification_due_le(a: NotificationRecord, b: NotificationRecord) -> bool {
    a.next_attempt_at < b.next_attempt_at || (a.next_attempt_at == b.next_attempt_at && lex_le(
        a.correlation_id@,
        b.correlation_id@,
    ))
}

pub open spec fn jobs_sorted(s: Seq<BookingJob>) -> bool {
    forall|i: int, j: int| 0 <= i < j < s.len() ==> job_due_le(s[i], s[j])
}

pub open spec fn notifications_sorted(s: Seq<NotificationRecord>) -> bool {
    forall|i: int, j: int| 0 <= i < j < s.len() ==> notification_due_le(s[i], s[j])
}

proof fn lemma_job_due_le_total(a: BookingJob, b: BookingJob)
    ensures
        job_due_le(a, b) || job_due_le(b, a),
{
    lemma_lex_le_total(a.correlation_id@, b.correlation_id@);
}

proof fn lemma_job_due_le_trans(a: BookingJob, b: BookingJob, c: BookingJob)
    requires
        job_due_le(a, b),
        job_due_le(b, c),
    ensures
        job_due_le(a, c),
{
    if a.next_attempt_at == b.next_attempt_at && b.next_attempt_at == c.next_attempt_at {
        lemma_lex_le_trans(a.correlation_id@, b.correlation_id@, c.correlation_id@);
    }
}

proof fn lemma_notification_due_le_total(a: NotificationRecord, b: NotificationRecord)
    ensures
        notification_due_le(a, b) || notification_due_le(b, a),
{
    lemma_lex_le_total(a.correlation_id@, b.correlation_id@);
}

proof fn lemma_notification_due_le_trans(
    a: NotificationRecord,
    b: NotificationRecord,
    c: NotificationRecord,
)
    requires
        notification_due_le(a, b),
        notification_due_le(b, c),
    ensures
        notification_due_le(a, c),
{
    if a.next_attempt_at == b.next_attempt_at && b.next_attempt_at == c.next_attempt_at {
        lemma_lex_le_trans(a.correlation_id@, b.correlation_id@, c.correlation_id@);
    }
}

fn job_due_le_exec(a: &BookingJob, b: &BookingJob) -> (r: bool)
    ensures
        r == job_due_le(*a, *b),
{
    if a.next_attempt_at < b.next_attempt_at {
        true
    } else if a.next_attempt_at == b.next_attempt_at {
        str_lex_le(a.correlation_id.as_str(), b.correlation_id.as_str())
    } else {
        false
    }
}

fn notification_due_le_exec(a: &NotificationRecord, b: &NotificationRecord) -> (r: bool)
    ensures
        r == notification_due_le(*a, *b),
{
    if a.next_attempt_at < b.next_attempt_at {
        true
    } else if a.next_attempt_at == b.next_attempt_at {
        str_lex_le(a.correlation_id.as_str(), b.correlation_id.as_str())
    } else {
        false
    }
}

/// Inserting into a sorted vector at the position the order picks.
fn insert_job_sorted(v: &mut Vec<BookingJob>, x: BookingJob)
    requires
        jobs_sorted(old(v)@),
    ensures
        jobs_sorted(final(v)@),
        exists|k: int| 0 <= k <= old(v)@.len() && final(v)@ == old(v)@.insert(k, x),
{
    let ghost orig = v@;
    let mut k: usize = 0;
    while k < v.len() && job_due_le_exec(&v[k], &x)
        invariant
            0 <= k <= v@.len(),
            v@ == orig,
            jobs_sorted(orig),
            forall|j: int| 0 <= j < k ==> job_due_le(orig[j], x),
        decreases v@.len() - k,
    {
        k = k + 1;
    }
    proof {
        if (k as int) < orig.len() {
            lemma_job_due_le_total(orig[k as int], x);
            assert(job_due_le(x, orig[k as int]));
        }
    }
    v.insert(k, x);
    proof {
        orig.insert_ensures(k as int, x);
        let t = v@;
        assert(t == orig.insert(k as int, x));
        assert forall|i: int, j: int| 0 <= i < j < t.len() implies job_due_le(t[i], t[j]) by {
            let ki = k as int;
            if j < ki {
                assert(t[i] == orig[i] && t[j] == orig[j]);
            } else if i < ki && j == ki {
                assert(t[i] == orig[i] && t[j] == x);
            } else if i < ki && j > ki {
                assert(t[i] == orig[i] && t[j] == orig[j - 1]);
            } else if i == ki && j > ki {
                assert(t[i] == x && t[j] == orig[j - 1]);
                if j - 1 > ki {
                    lemma_job_due_le_trans(x, orig[ki], orig[j - 1]);
                }
            } else {
                assert(t[i] == orig[i - 1] && t[j] == orig[j - 1]);
            }
        }
    }
}

fn insert_notification_sorted(v: &mut Vec<NotificationRecord>, x: NotificationRecord)
    requires
        notifications_sorted(old(v)@),
    ensures
        notifications_sorted(final(v)@),
        exists|k: int| 0 <= k <= old(v)@.len() && final(v)@ == old(v)@.insert(k, x),
{
    let ghost orig = v@;
    let mut k: usize = 0;
    while k < v.len() && notification_due_le_exec(&v[k], &x)
        invariant
            0 <= k <= v@.len(),
            v@ == orig,
            notifications_sorted(orig),
            forall|j: int| 0 <= j < k ==> notification_due_le(orig[j], x),
        decreases v@.len() - k,
    {
        k = k + 1;
    }
    proof {
        if (k as int) < orig.len() {
            lemma_notification_due_le_total(orig[k as int], x);
            assert(notification_due_le(x, orig[k as int]));
        }
    }
    v.insert(k, x);
    proof {
        orig.insert_ensures(k as int, x);
        let t = v@;
        assert(t == orig.insert(k as int, x));
        assert forall|i: int, j: int| 0 <= i < j < t.len() implies notification_due_le(
            t[i],
            t[j],
        ) by {
            let ki = k as int;
            if j < ki {
                assert(t[i] == orig[i] && t[j] == orig[j]);
            } else if i < ki && j == ki {
                assert(t[i] == orig[i] && t[j] == x);
            } else if i < ki && j > ki {
                assert(t[i] == orig[i] && t[j] == orig[j - 1]);
            } else if i == ki && j > ki {
                assert(t[i] == x && t[j] == orig[j - 1]);
                if j - 1 > ki {
                    lemma_notification_due_le_trans(x, orig[ki], orig[j - 1]);
                }
            } else {
                assert(t[i] == orig[i - 1] && t[j] == orig[j - 1]);
            }
        }
    }
}

impl BrokerStorage {
    /// Up to `limit` due jobs — `state` is `Queued` and `next_attempt_at` is
    /// at most `now` — in ascending `(next_attempt_at, correlation_id)`
    /// order. When fewer than `limit` come back, they are all of the due
    /// jobs; otherwise every due job left behind orders at or after the last
    /// one returned.
    pub fn get_due_jobs(&self, limit: usize, now: i64) -> (r: Vec<BookingJob>)
        requires
            self.wf(),
        ensures
            r@.len() <= limit,
            jobs_sorted(r@),
            forall|i: int|
                0 <= i < r@.len() ==> job_due(#[trigger] r@[i], now) && self.spec_job(
                    r@[i].correlation_id@,
                ) == Some(r@[i]),
            forall|i: int, j: int|
                0 <= i < j < r@.len() ==> r@[i].correlation_id@ != r@[j].correlation_id@,
            forall|j: BookingJob|
                #[trigger] self.job_seq().contains(j) && job_due(j, now) ==> r@.contains(j) || (
                r@.len() == limit && (r@.len() == 0 || job_due_le(r@[r@.len() - 1], j))),
    {
        let n = self.jobs.len();
        let mut due: Vec<BookingJob> = Vec::new();
        let mut i: usize = 0;
        while i < n
            invariant
                0 <= i <= n,
                n == self.job_seq().len(),
                self.wf(),
                forall|a: int| 0 <= a < due@.len() ==> job_due(#[trigger] due@[a], now),
                forall|a: int|
                    0 <= a < due@.len() ==> exists|k: int|
                        0 <= k < i && self.job_seq()[k] == #[trigger] due@[a],
                forall|k: int|
                    0 <= k < i && job_due(#[trigger] self.job_seq()[k], now) ==> due@.contains(
                        self.job_seq()[k],
                    ),
                forall|a: int, b: int|
                    0 <= a < b < due@.len() ==> due@[a].correlation_id@ != due@[b].correlation_id@,
            decreases n - i,
        {
            let jb = &self.jobs[i];
            let is_due = match jb.state {
                JobState::Queued => jb.next_attempt_at <= now,
                _ => false,
            };
            let ghost prev = due@;
            if is_due {
                proof {
                    assert forall|a: int|
                        0 <= a < prev.len() implies prev[a].correlation_id@
                        != self.job_seq()[i as int].correlation_id@ by {
                        let k = choose|k: int| 0 <= k < i && self.job_seq()[k] == prev[a];
                    }
                }
                due.push(copy_job(jb));
                proof {
                    assert(due@ == prev.push(self.job_seq()[i as int]));
                    assert(due@[prev.len() as int] == self.job_seq()[i as int]);
                    assert(forall|a: int| 0 <= a < prev.len() ==> due@[a] == prev[a]);
                    assert forall|k: int|
                        0 <= k < i + 1 && job_due(#[trigger] self.job_seq()[k], now) implies
                        due@.contains(self.job_seq()[k]) by {
                        if k < i {
                            let a = choose|a: int|
                                0 <= a < prev.len() && prev[a] == self.job_seq()[k];
                            assert(due@[a] == self.job_seq()[k]);
                        } else {
                            assert(due@[prev.len() as int] == self.job_seq()[k]);
                        }
                    }
                }
            }
            i = i + 1;
        }
        // Sort the due jobs into scan order.
        let m = due.len();
        let mut ordered: Vec<BookingJob> = Vec::new();
        let mut p: usize = 0;
        while p < m
            invariant
                0 <= p <= m,
                m == due@.len(),
                jobs_sorted(ordered@),
                ordered@.len() == p,
                forall|a: int| 0 <= a < due@.len() ==> job_due(#[trigger] due@[a], now),
                forall|a: int, b: int|
                    0 <= a < b < due@.len() ==> due@[a].correlation_id@ != due@[b].correlation_id@,
                forall|y: BookingJob| #[trigger]
                    ordered@.contains(y) ==> exists|b: int| 0 <= b < p && due@[b] == y,
                forall|b: int| 0 <= b < p ==> ordered@.contains(#[trigger] due@[b]),
                forall|a: int, b: int|
                    0 <= a < b < ordered@.len() ==> ordered@[a].correlation_id@
                        != ordered@[b].correlation_id@,
            decreases m - p,
        {
            let ghost before = ordered@;
            insert_job_sorted(&mut ordered, copy_job(&due[p]));
            proof {
                let x = due@[p as int];
                let k = choose|k: int| 0 <= k <= before.len() && ordered@ == before.insert(k, x);
                before.insert_ensures(k, x);
                assert forall|y: BookingJob| #[trigger] ordered@.contains(y) implies exists|b: int|
                    0 <= b < p + 1 && due@[b] == y by {
                    let q = choose|q: int| 0 <= q < ordered@.len() && ordered@[q] == y;
                    if q < k {
                        assert(before[q] == y);
                        assert(before.contains(y));
                    } else if q == k {
                        assert(due@[p as int] == y);
                    } else {
                        assert(before[q - 1] == y);
                        assert(before.contains(y));
                    }
                }
                assert forall|b: int| 0 <= b < p + 1 implies ordered@.contains(
                    #[trigger] due@[b],
                ) by {
                    if b < p {
                        let q = choose|q: int| 0 <= q < before.len() && before[q] == due@[b];
                        if q < k {
                            assert(ordered@[q] == due@[b]);
                        } else {
                            assert(ordered@[q + 1] == due@[b]);
                        }
                    } else {
                        assert(ordered@[k] == due@[b]);
                    }
                }
                assert forall|a: int, b: int| 0 <= a < b < ordered@.len() implies
                    ordered@[a].correlation_id@ != ordered@[b].correlation_id@ by {
                    if a != k && b != k {
                        let a0 = if a < k {
                            a
                        } else {
                            a - 1
                        };
                        let b0 = if b < k {
                            b
                        } else {
                            b - 1
                        };
                        assert(ordered@[a] == before[a0] && ordered@[b] == before[b0]);
                    } else {
                        let other = if a == k {
                            b
                        } else {
                            a
                        };
                        let o0 = if other < k {
                            other
                        } else {
                            other - 1
                        };
                        assert(before[o0] == ordered@[other]);
                        assert(before.contains(before[o0]));
                        let q = choose|q: int| 0 <= q < p && due@[q] == before[o0];
                        assert(due@[q].correlation_id@ != x.correlation_id@);
                    }
                }
            }
            p = p + 1;
        }
        let ghost full = ordered@;
        let mut r = ordered;
        r.truncate(limit);
        proof {
            if limit <= full.len() {
                assert(r@ == full.subrange(0, limit as int));
            } else {
                assert(r@ == full);
            }
            assert(forall|a: int| 0 <= a < r@.len() ==> r@[a] == full[a]);
            assert forall|i0: int|
                0 <= i0 < r@.len() implies job_due(#[trigger] r@[i0], now) && self.spec_job(
                r@[i0].correlation_id@,
            ) == Some(r@[i0]) by {
                assert(full.contains(full[i0]));
                let b = choose|b: int| 0 <= b < m && due@[b] == full[i0];
                assert(0 <= b < due@.len());
                assert(job_due(due@[b], now));
                let k = choose|k: int| 0 <= k < n && self.job_seq()[k] == due@[b];
                lemma_find_job_by_index(self.job_seq(), r@[i0].correlation_id@, k);
            }
            assert forall|j: BookingJob|
                #[trigger] self.job_seq().contains(j) && job_due(j, now) implies r@.contains(j) || (
            r@.len() == limit && (r@.len() == 0 || job_due_le(r@[r@.len() - 1], j))) by {
                let k = choose|k: int| 0 <= k < self.job_seq().len() && self.job_seq()[k] == j;
                assert(due@.contains(j));
                let b = choose|b: int| 0 <= b < due@.len() && due@[b] == j;
                assert(full.contains(due@[b]));
                let q = choose|q: int| 0 <= q < full.len() && full[q] == j;
                if q < r@.len() {
                    assert(r@[q] == j);
                    assert(r@.contains(j));
                } else {
                    assert(r@.len() == limit);
                    if r@.len() > 0 {
                        assert(job_due_le(full[r@.len() - 1], full[q]));
                    }
                }
            }
        }
        r
    }

    /// Up to `limit` due notifications — `state` is `Pending` and
    /// `next_attempt_at` is at most `now` — in ascending
    /// `(next_attempt_at, correlation_id)` order, with the same completeness
    /// guarantee as `get_due_jobs`.
    pub fn get_due_notifications(&self, limit: usize, now: i64) -> (r: Vec<NotificationRecord>)
        requires
            self.wf(),
        ensures
            r@.len() <= limit,
            notifications_sorted(r@),
            forall|i: int|
                0 <= i < r@.len() ==> notification_due(#[trigger] r@[i], now)
                    && self.spec_notification(r@[i].correlation_id@) == Some(r@[i]),
            forall|i: int, j: int|
                0 <= i < j < r@.len() ==> r@[i].correlation_id@ != r@[j].correlation_id@,
            forall|nr: NotificationRecord|
                #[trigger] self.notification_seq().contains(nr) && notification_due(nr, now)
                    ==> r@.contains(nr) || (r@.len() == limit && (r@.len() == 0
                    || notification_due_le(r@[r@.len() - 1], nr))),
    {
        let n = self.notifications.len();
        let mut due: Vec<NotificationRecord> = Vec::new();
        let mut i: usize = 0;
        while i < n
            invariant
                0 <= i <= n,
                n == self.notification_seq().len(),
                self.wf(),
                forall|a: int| 0 <= a < due@.len() ==> notification_due(#[trigger] due@[a], now),
                forall|a: int|
                    0 <= a < due@.len() ==> exists|k: int|
                        0 <= k < i && self.notification_seq()[k] == #[trigger] due@[a],
                forall|k: int|
                    0 <= k < i && notification_due(#[trigger] self.notification_seq()[k], now)
                        ==> due@.contains(self.notification_seq()[k]),
                forall|a: int, b: int|
                    0 <= a < b < due@.len() ==> due@[a].correlation_id@ != due@[b].correlation_id@,
            decreases n - i,
        {
            let nr = &self.notifications[i];
            let is_due = match nr.state {
                NotificationState::Pending => nr.next_attempt_at <= now,
                _ => false,
            };
            let ghost prev = due@;
            if is_due {
                proof {
                    assert forall|a: int|
                        0 <= a < prev.len() implies prev[a].correlation_id@
                        != self.notification_seq()[i as int].correlation_id@ by {
                        let k = choose|k: int| 0 <= k < i && self.notification_seq()[k] == prev[a];
                    }
                }
                due.push(copy_notification(nr));
                proof {
                    assert(due@ == prev.push(self.notification_seq()[i as int]));
                    assert(due@[prev.len() as int] == self.notification_seq()[i as int]);
                    assert(forall|a: int| 0 <= a < prev.len() ==> due@[a] == prev[a]);
                    assert forall|k: int|
                        0 <= k < i + 1 && notification_due(
                            #[trigger] self.notification_seq()[k],
                            now,
                        ) implies due@.contains(self.notification_seq()[k]) by {
                        if k < i {
                            let a = choose|a: int|
                                0 <= a < prev.len() && prev[a] == self.notification_seq()[k];
                            assert(due@[a] == self.notification_seq()[k]);
                        } else {
                            assert(due@[prev.len() as int] == self.notification_seq()[k]);
                        }
                    }
                }
            }
            i = i + 1;
        }
        let m = due.len();
        let mut ordered: Vec<NotificationRecord> = Vec::new();
        let mut p: usize = 0;
        while p < m
            invariant
                0 <= p <= m,
                m == due@.len(),
                notifications_sorted(ordered@),
                ordered@.len() == p,
                forall|a: int| 0 <= a < due@.len() ==> notification_due(#[trigger] due@[a], now),
                forall|a: int, b: int|
                    0 <= a < b < due@.len() ==> due@[a].correlation_id@ != due@[b].correlation_id@,
                forall|y: NotificationRecord| #[trigger]
                    ordered@.contains(y) ==> exists|b: int| 0 <= b < p && due@[b] == y,
                forall|b: int| 0 <= b < p ==> ordered@.contains(#[trigger] due@[b]),
                forall|a: int, b: int|
                    0 <= a < b < ordered@.len() ==> ordered@[a].correlation_id@
                        != ordered@[b].correlation_id@,
            decreases m - p,
        {
            let ghost before = ordered@;
            insert_notification_sorted(&mut ordered, copy_notification(&due[p]));
            proof {
                let x = due@[p as int];
                let k = choose|k: int| 0 <= k <= before.len() && ordered@ == before.insert(k, x);
                before.insert_ensures(k, x);
                assert forall|y: NotificationRecord| #[trigger] ordered@.contains(y) implies exists|
                    b: int,
                |
                    0 <= b < p + 1 && due@[b] == y by {
                    let q = choose|q: int| 0 <= q < ordered@.len() && ordered@[q] == y;
                    if q < k {
                        assert(before[q] == y);
                        assert(before.contains(y));
                    } else if q == k {
                        assert(due@[p as int] == y);
                    } else {
                        assert(before[q - 1] == y);
                        assert(before.contains(y));
                    }
                }
                assert forall|b: int| 0 <= b < p + 1 implies ordered@.contains(
                    #[trigger] due@[b],
                ) by {
                    if b < p {
                        let q = choose|q: int| 0 <= q < before.len() && before[q] == due@[b];
                        if q < k {
                            assert(ordered@[q] == due@[b]);
                        } else {
                            assert(ordered@[q + 1] == due@[b]);
                        }
                    } else {
                        assert(ordered@[k] == due@[b]);
                    }
                }
                assert forall|a: int, b: int| 0 <= a < b < ordered@.len() implies
                    ordered@[a].correlation_id@ != ordered@[b].correlation_id@ by {
                    if a != k && b != k {
                        let a0 = if a < k {
                            a
                        } else {
                            a - 1
                        };
                        let b0 = if b < k {
                            b
                        } else {
                            b - 1
                        };
                        assert(ordered@[a] == before[a0] && ordered@[b] == before[b0]);
                    } else {
                        let other = if a == k {
                            b
                        } else {
                            a
                        };
                        let o0 = if other < k {
                            other
                        } else {
                            other - 1
                        };
                        assert(before[o0] == ordered@[other]);
                        assert(before.contains(before[o0]));
                        let q = choose|q: int| 0 <= q < p && due@[q] == before[o0];
                        assert(due@[q].correlation_id@ != x.correlation_id@);
                    }
                }
            }
            p = p + 1;
        }
        let ghost full = ordered@;
        let mut r = ordered;
        r.truncate(limit);
        proof {
            if limit <= full.len() {
                assert(r@ == full.subrange(0, limit as int));
            } else {
                assert(r@ == full);
            }
            assert(forall|a: int| 0 <= a < r@.len() ==> r@[a] == full[a]);
            assert forall|i0: int|
                0 <= i0 < r@.len() implies notification_due(#[trigger] r@[i0], now)
                && self.spec_notification(r@[i0].correlation_id@) == Some(r@[i0]) by {
                assert(full.contains(full[i0]));
                let b = choose|b: int| 0 <= b < m && due@[b] == full[i0];
                assert(0 <= b < due@.len());
                assert(notification_due(due@[b], now));
                let k = choose|k: int|
                    0 <= k < n && self.notification_seq()[k] == due@[b];
                lemma_find_notification_by_index(
                    self.notification_seq(),
                    r@[i0].correlation_id@,
                    k,
                );
            }
            assert forall|nr: NotificationRecord|
                #[trigger] self.notification_seq().contains(nr) && notification_due(
                nr,
                now,
            ) implies r@.contains(nr) || (r@.len() == limit && (r@.len() == 0
                || notification_due_le(r@[r@.len() - 1], nr))) by {
                let k = choose|k: int|
                    0 <= k < self.notification_seq().len() && self.notification_seq()[k] == nr;
                assert(due@.contains(nr));
                let b = choose|b: int| 0 <= b < due@.len() && due@[b] == nr;
                assert(full.contains(due@[b]));
                let q = choose|q: int| 0 <= q < full.len() && full[q] == nr;
                if q < r@.len() {
                    assert(r@[q] == nr);
                    assert(r@.contains(nr));
                } else {
                    assert(r@.len() == limit);
                    if r@.len() > 0 {
                        assert(notification_due_le(full[r@.len() - 1], full[q]));
                    }
                }
            }
        }
        r
    }

    /// By-value copies of every job record, in stored order. Together with
    /// `from_records` this is how the store's contents move to and from a
    /// durable backing.
    pub fn export_jobs(&self) -> (r: Vec<BookingJob>)
        ensures
            r@ == self.job_seq(),
    {
        let n = self.jobs.len();
        let mut r: Vec<BookingJob> = Vec::new();
        let mut i: usize = 0;
        while i < n
            invariant
                0 <= i <= n,
                n == self.job_seq().len(),
                r@ == self.job_seq().subrange(0, i as int),
            decreases n - i,
        {
            let ghost prev = r@;
            r.push(copy_job(&self.jobs[i]));
            proof {
                assert(r@ =~= self.job_seq().subrange(0, i + 1));
            }
            i = i + 1;
        }
        proof {
            assert(r@ =~= self.job_seq());
        }
        r
    }

    /// By-value copies of every notification record, in stored order.
    pub fn export_notifications(&self) -> (r: Vec<NotificationRecord>)
        ensures
            r@ == self.notification_seq(),
    {
        let n = self.notifications.len();
        let mut r: Vec<NotificationRecord> = Vec::new();
        let mut i: usize = 0;
        while i < n
            invariant
                0 <= i <= n,
                n == self.notification_seq().len(),
                r@ == self.notification_seq().subrange(0, i as int),
            decreases n - i,
        {
            let ghost prev = r@;
            r.push(copy_notification(&self.notifications[i]));
            proof {
                assert(r@ =~= self.notification_seq().subrange(0, i + 1));
            }
            i = i + 1;
        }
        proof {
            assert(r@ =~= self.notification_seq());
        }
        r
    }

    /// Rebuild a store from exported records, for instance after a restart.
    /// Succeeds exactly when each keyspace holds at most one record per key;
    /// duplicate keys mean the records are corrupt.
    pub fn from_records(jobs: Vec<BookingJob>, notifications: Vec<NotificationRecord>) -> (r:
        Option<BrokerStorage>)
        ensures
            match r {
                Option::Some(st) => st.wf() && st.job_seq() == jobs@ && st.notification_seq()
                    == notifications@,
                Option::None => !(jobs_unique(jobs@) && notifications_unique(notifications@)),
            },
    {
        let nj = jobs.len();
        let mut i: usize = 0;
        while i < nj
            invariant
                0 <= i <= nj,
                nj == jobs@.len(),
                forall|a: int, b: int|
                    0 <= a < b < i ==> jobs@[a].correlation_id@ != jobs@[b].correlation_id@,
            decreases nj - i,
        {
            let mut j: usize = 0;
            while j < i
                invariant
                    0 <= j <= i < nj,
                    nj == jobs@.len(),
                    forall|b: int|
                        0 <= b < j ==> jobs@[b].correlation_id@ != jobs@[i as int].correlation_id@,
                decreases i - j,
            {
                if crate::strutil::str_eq(
                    jobs[j].correlation_id.as_str(),
                    jobs[i].correlation_id.as_str(),
                ) {
                    return Option::None;
                }
                j = j + 1;
            }
            i = i + 1;
        }
        let nn = notifications.len();
        let mut i2: usize = 0;
        while i2 < nn
            invariant
                0 <= i2 <= nn,
                nn == notifications@.len(),
                forall|a: int, b: int|
                    0 <= a < b < i2 ==> notifications@[a].correlation_id@
                        != notifications@[b].correlation_id@,
            decreases nn - i2,
        {
            let mut j2: usize = 0;
            while j2 < i2
                invariant
                    0 <= j2 <= i2 < nn,
                    nn == notifications@.len(),
                    forall|b: int|
                        0 <= b < j2 ==> notifications@[b].correlation_id@
                            != notifications@[i2 as int].correlation_id@,
                decreases i2 - j2,
            {
                if crate::strutil::str_eq(
                    notifications[j2].correlation_id.as_str(),
                    notifications[i2].correlation_id.as_str(),
                ) {
                    return Option::None;
                }
                j2 = j2 + 1;
            }
            i2 = i2 + 1;
        }
        Option::Some(BrokerStorage { jobs, notifications })
    }
}

/// Appending a record with a fresh key leaves every other key's view as it
/// was.
proof fn lemma_find_job_push_frame(s: Seq<BookingJob>, j: BookingJob, cid: Seq<char>)
    requires
        cid != j.correlation_id@,
    ensures
        find_job(s.push(j), cid) == find_job(s, cid),
    decreases s.len(),
{
    if s.len() == 0 {
        assert(s.push(j)[0] == j);
        assert(s.push(j).drop_first() =~= Seq::<BookingJob>::empty());
        assert(find_job(s.push(j), cid) == find_job(s.push(j).drop_first(), cid));
        assert(find_job(s.push(j).drop_first(), cid) is None);
    } else {
        assert(s.push(j)[0] == s[0]);
        assert(s.push(j).drop_first() =~= s.drop_first().push(j));
        lemma_find_job_push_frame(s.drop_first(), j, cid);
        if s[0].correlation_id@ != cid {
            assert(find_job(s.push(j), cid) == find_job(s.push(j).drop_first(), cid));
            assert(find_job(s, cid) == find_job(s.drop_first(), cid));
        }
    }
}

proof fn lemma_find_notification_push_frame(
    s: Seq<NotificationRecord>,
    n: NotificationRecord,
    cid: Seq<char>,
)
    requires
        cid != n.correlation_id@,
    ensures
        find_notification(s.push(n), cid) == find_notification(s, cid),
    decreases s.len(),
{
    if s.len() == 0 {
        assert(s.push(n)[0] == n);
        assert(s.push(n).drop_first() =~= Seq::<NotificationRecord>::empty());
        assert(find_notification(s.push(n), cid) == find_notification(
            s.push(n).drop_first(),
            cid,
        ));
        assert(find_notification(s.push(n).drop_first(), cid) is None);
    } else {
        assert(s.push(n)[0] == s[0]);
        assert(s.push(n).drop_first() =~= s.drop_first().push(n));
        lemma_find_notification_push_frame(s.drop_first(), n, cid);
        if s[0].correlation_id@ != cid {
            assert(find_notification(s.push(n), cid) == find_notification(
                s.push(n).drop_first(),
                cid,
            ));
            assert(find_notification(s, cid) == find_notification(s.drop_first(), cid));
        }
    }
}

/// Overwriting position `i` in place, key unchanged, leaves every other key's
/// view as it was.
proof fn lemma_find_job_update_frame(s: Seq<BookingJob>, i: int, j: BookingJob, cid: Seq<char>)
    requires
        0 <= i < s.len(),
        j.correlation_id@ == s[i].correlation_id@,
        cid != j.correlation_id@,
    ensures
        find_job(s.update(i, j), cid) == find_job(s, cid),
    decreases s.len(),
{
    let t = s.update(i, j);
    if i == 0 {
        assert(t[0] == j);
        assert(s[0].correlation_id@ != cid);
        assert(t.drop_first() =~= s.drop_first());
    } else {
        assert(t[0] == s[0]);
        assert(t.drop_first() =~= s.drop_first().update(i - 1, j));
        assert(s.drop_first()[i - 1] == s[i]);
        lemma_find_job_update_frame(s.drop_first(), i - 1, j, cid);
    }
}

proof fn lemma_find_notification_update_frame(
    s: Seq<NotificationRecord>,
    i: int,
    n: NotificationRecord,
    cid: Seq<char>,
)
    requires
        0 <= i < s.len(),
        n.correlation_id@ == s[i].correlation_id@,
        cid != n.correlation_id@,
    ensures
        find_notification(s.update(i, n), cid) == find_notification(s, cid),
    decreases s.len(),
{
    let t = s.update(i, n);
    if i == 0 {
        assert(t[0] == n);
        assert(s[0].correlation_id@ != cid);
        assert(t.drop_first() =~= s.drop_first());
    } else {
        assert(t[0] == s[0]);
        assert(t.drop_first() =~= s.drop_first().update(i - 1, n));
        assert(s.drop_first()[i - 1] == s[i]);
        lemma_find_notification_update_frame(s.drop_first(), i - 1, n, cid);
    }
}

} // verus!

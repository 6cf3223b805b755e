//! The forwarder: drives queued booking jobs through one HTTP attempt each.
//!
//! The worker's decisions live here, verified: `begin_attempt` takes the soft
//! lease (`Queued` to `Sending`) and builds the outbound request;
//! `complete_attempt` classifies what came back and moves the job to
//! `Confirmed`, `Failed`, or back to `Queued` with exponential backoff. The
//! HTTP call itself is the surrounding program's business; it hands the
//! outcome in as a plain value.

use vstd::prelude::*;
use vstd::arithmetic::power2::{pow2, lemma_pow2_strictly_increases, lemma2_to64};

use crate::config::Config;
use crate::json::{sp_object, spec_get_field, parse_json_object, get_field, json_object,
    pairs_view, render_json_object};
use crate::storage::{BrokerStorage, JobStateUpdate, StorageError, spec_apply_job_update};
use crate::strutil::{spec_u64_dec, push_u64_dec};
use crate::types::{BookingJob, JobState, NotificationRecord, NotificationState};

use rand::RngExt;

verus! {

/// Ceiling on the exponential backoff, before jitter.
pub const MAX_BACKOFF_MS: u64 = 300000;

/// Upper bound of the uniform jitter added to each backoff.
pub const JITTER_MS: u64 = 1000;

/// Why the forwarder refused an attempt.
#[derive(Debug, Clone, Copy, PartialEq, Eq, Structural)]
pub enum ForwardError {
    /// No job is stored under the correlation id.
    JobNotFound,
    /// The job is not in `Queued`, so no attempt may start on it.
    JobNotQueued,
    /// The job is not in `Sending`, so no attempt can be completing.
    JobNotSending,
    /// The stored booking payload cannot be read back.
    PayloadCorrupt,
}

/// Why the forwarder could not be built.
#[derive(Debug, Clone, Copy, PartialEq, Eq, Structural)]
pub enum ForwarderConfigError {
    /// `central_api_url` is required and was not configured.
    MissingCentralApiUrl,
}

/// What one HTTP attempt came back with.
#[derive(Debug, Clone)]
pub enum HttpOutcome {
    /// The Central API answered with this status code and body.
    Status(u16, String),
    /// The request failed on the network, timed out, or the body could not
    /// be read.
    NetworkError(String),
}

/// The outbound HTTP request for one attempt.
#[derive(Debug, Clone)]
pub struct OutboundRequest {
    /// `{central_api_url}/appointments/book-range`.
    pub url: String,
    /// The JSON body echoing the four stored booking fields.
    pub body: String,
}

#[derive(Debug)]
pub struct ForwarderWorker {
    pub central_api_url: String,
    pub max_retry_attempts: u32,
    pub initial_backoff_ms: u64,
}

/// The backoff before jitter for the given attempt count: the initial
/// backoff doubled per attempt, the exponent clamped at 20, the product
/// capped at `MAX_BACKOFF_MS`.
pub open spec fn spec_backoff_base(initial: u64, attempts: u32) -> int {
    let e: nat = if attempts <= 20 {
        attempts as nat
    } else {
        20
    };
    let raw = (initial as int) * (pow2(e) as int);
    if raw < MAX_BACKOFF_MS as int {
        raw
    } else {
        MAX_BACKOFF_MS as int
    }
}

/// The email address in a stored notify payload, if the payload parses and
/// carries one.
pub open spec fn spec_notify_email(payload: Seq<char>) -> Option<Seq<char>> {
    match sp_object(payload) {
        Option::None => Option::None,
        Option::Some(fields) => spec_get_field(fields, "email"@),
    }
}

/// The four well-known booking fields of a stored booking payload, if the
/// payload parses and carries all of them.
pub open spec fn spec_booking_field_values(payload: Seq<char>) -> Option<
    (Seq<char>, Seq<char>, Seq<char>, Seq<char>),
> {
    match sp_object(payload) {
        Option::None => Option::None,
        Option::Some(fields) => {
            let d = spec_get_field(fields, "date"@);
            let s = spec_get_field(fields, "start_time"@);
            let e = spec_get_field(fields, "end_time"@);
            let n = spec_get_field(fields, "name"@);
            if d is Some && s is Some && e is Some && n is Some {
                Option::Some((d->0, s->0, e->0, n->0))
            } else {
                Option::None
            }
        },
    }
}

/// The outbound request body for the given booking field values.
pub open spec fn spec_request_body(f: (Seq<char>, Seq<char>, Seq<char>, Seq<char>)) -> Seq<
    char,
> {
    json_object(
        seq![("date"@, f.0), ("start_time"@, f.1), ("end_time"@, f.2), ("name"@, f.3)],
    )
}

/// The diagnostic recorded for a non-retryable HTTP rejection.
pub open spec fn spec_http_error_text(code: u16, body: Seq<char>) -> Seq<char> {
    "HTTP "@ + spec_u64_dec(code as nat) + ": "@ + body
}

/// The diagnostic recorded when the retry budget runs out.
pub open spec fn spec_max_retries_text(err: Seq<char>) -> Seq<char> {
    "Max retries exceeded: "@ + err
}

/// Relies on rand's `rng` and `RngExt::random_range` over `0..=JITTER_MS`:
/// a draw from that range never exceeds its upper bound. Which value comes
/// back is chance; callers assume nothing more.
#[verifier::external_body]
fn jitter_ms() -> (r: u64)
    ensures
        r <= JITTER_MS,
{
    rand::rng().random_range(0..=JITTER_MS)
}

impl ForwarderWorker {
    /// Builds the forwarder from the node's configuration; fails exactly
    /// when `central_api_url` is absent.
    pub fn new(config: Config) -> (r: Result<ForwarderWorker, ForwarderConfigError>)
        ensures
            config.central_api_url is None ==> r == Result::<
                ForwarderWorker,
                ForwarderConfigError,
            >::Err(ForwarderConfigError::MissingCentralApiUrl),
            config.central_api_url is Some ==> r is Ok,
            r matches Result::Ok(w) ==> {
                &&& config.central_api_url is Some
                &&& w.central_api_url == config.central_api_url->0
                &&& w.max_retry_attempts == config.max_retry_attempts
                &&& w.initial_backoff_ms == config.initial_backoff_ms
            },
    {
        match config.central_api_url {
            Option::None => Result::Err(ForwarderConfigError::MissingCentralApiUrl),
            Option::Some(url) => Result::Ok(
                ForwarderWorker {
                    central_api_url: url,
                    max_retry_attempts: config.max_retry_attempts,
                    initial_backoff_ms: config.initial_backoff_ms,
                },
            ),
        }
    }

    /// The retry delay for the given attempt count: the capped exponential
    /// base plus a jitter of at most `JITTER_MS`.
    pub fn calculate_backoff(&self, attempts: u32) -> (r: u64)
        ensures
            spec_backoff_base(self.initial_backoff_ms, attempts) <= r <= spec_backoff_base(
                self.initial_backoff_ms,
                attempts,
            ) + JITTER_MS,
    {
        let e: u32 = if attempts <= 20 {
            attempts
        } else {
            20
        };
        let mut factor: u64 = 1;
        let mut i: u32 = 0;
        proof {
            lemma2_to64();
        }
        while i < e
            invariant
                0 <= i <= e <= 20,
                factor == pow2(i as nat),
                pow2(20) == 0x100000,
            decreases e - i,
        {
            proof {
                if (i as nat) < 20 {
                    lemma_pow2_strictly_increases(i as nat, 20);
                }
                vstd::arithmetic::power2::lemma_pow2_unfold(i as nat + 1);
            }
            factor = factor * 2;
            i = i + 1;
        }
        proof {
            if (e as nat) < 20 {
                lemma_pow2_strictly_increases(e as nat, 20);
            }
        }
        let base: u64 = if self.initial_backoff_ms >= MAX_BACKOFF_MS {
            MAX_BACKOFF_MS
        } else {
            assert(self.initial_backoff_ms * factor <= 300000 * 0x100000) by (nonlinear_arith)
                requires
                    self.initial_backoff_ms < 300000,
                    factor <= 0x100000,
            ;
            let raw = self.initial_backoff_ms * factor;
            if raw >= MAX_BACKOFF_MS {
                MAX_BACKOFF_MS
            } else {
                raw
            }
        };
        proof {
            if self.initial_backoff_ms >= MAX_BACKOFF_MS {
                assert((self.initial_backoff_ms as int) * (pow2(e as nat) as int) >= (
                self.initial_backoff_ms as int) * 1) by (nonlinear_arith)
                    requires
                        pow2(e as nat) >= 1,
                ;
            }
            assert(base == spec_backoff_base(self.initial_backoff_ms, attempts));
        }
        let jitter = jitter_ms();
        base + jitter
    }

    /// Starts one forwarding attempt: takes the soft lease by moving the job
    /// from `Queued` to `Sending`, and builds the outbound request from the
    /// stored booking payload. A job that is missing or not `Queued` is left
    /// untouched. A stored payload that cannot be read back leaves the job
    /// in `Sending` with nothing to send — the per-job error path, as when a
    /// response later fails to arrive.
    pub fn begin_attempt(
        &self,
        storage: &mut BrokerStorage,
        correlation_id: &str,
        now: i64,
    ) -> (r: Result<OutboundRequest, ForwardError>)
        requires
            old(storage).wf(),
        ensures
            final(storage).wf(),
            final(storage).notification_seq() == old(storage).notification_seq(),
            forall|cid: Seq<char>|
                cid != correlation_id@ ==> final(storage).spec_job(cid) == old(storage).spec_job(
                    cid,
                ),
            match old(storage).spec_job(correlation_id@) {
                Option::None => r == Result::<OutboundRequest, ForwardError>::Err(
                    ForwardError::JobNotFound,
                ) && final(storage).job_seq() == old(storage).job_seq(),
                Option::Some(j) => if j.state != JobState::Queued {
                    r == Result::<OutboundRequest, ForwardError>::Err(ForwardError::JobNotQueued)
                        && final(storage).job_seq() == old(storage).job_seq()
                } else {
                    &&& final(storage).spec_job(correlation_id@) == Some(
                        spec_apply_job_update(j, spec_sending_update(), now),
                    )
                    &&& match spec_booking_field_values(j.booking_json@) {
                        Option::Some(f) => r matches Result::Ok(req) && req.url@
                            == self.central_api_url@ + "/appointments/book-range"@ && req.body@
                            == spec_request_body(f),
                        Option::None => r == Result::<OutboundRequest, ForwardError>::Err(
                            ForwardError::PayloadCorrupt,
                        ),
                    }
                },
            },
    {
        match storage.get_booking_job(correlation_id) {
            Option::None => Result::Err(ForwardError::JobNotFound),
            Option::Some(job) => {
                match job.state {
                    JobState::Queued => (),
                    _ => {
                        return Result::Err(ForwardError::JobNotQueued);
                    },
                }
                let upd = JobStateUpdate {
                    state: JobState::Sending,
                    attempts: Option::None,
                    next_attempt_at: Option::None,
                    last_error: Option::None,
                    http_status: Option::None,
                    central_response_json: Option::None,
                };
                match storage.update_job_state(correlation_id, upd, now) {
                    Result::Ok(()) => (),
                    Result::Err(_) => {
                        proof {
                            assert(false);
                        }
                        return Result::Err(ForwardError::JobNotFound);
                    },
                }
                match parse_json_object(job.booking_json.as_str()) {
                    Option::None => Result::Err(ForwardError::PayloadCorrupt),
                    Option::Some(fields) => {
                        let d = get_field(&fields, "date");
                        let st = get_field(&fields, "start_time");
                        let en = get_field(&fields, "end_time");
                        let nm = get_field(&fields, "name");
                        match (d, st, en, nm) {
                            (
                                Option::Some(dv),
                                Option::Some(sv),
                                Option::Some(ev),
                                Option::Some(nv),
                            ) => {
                                let mut body_fields: Vec<(String, String)> = Vec::new();
                                body_fields.push((String::from_str("date"), dv));
                                body_fields.push((String::from_str("start_time"), sv));
                                body_fields.push((String::from_str("end_time"), ev));
                                body_fields.push((String::from_str("name"), nv));
                                let body = render_json_object(&body_fields);
                                proof {
                                    let f = spec_booking_field_values(job.booking_json@)->0;
                                    assert(pairs_view(body_fields@) =~= seq![
                                        ("date"@, f.0),
                                        ("start_time"@, f.1),
                                        ("end_time"@, f.2),
                                        ("name"@, f.3),
                                    ]);
                                }
                                let url = self.central_api_url.clone().concat(
                                    "/appointments/book-range",
                                );
                                Result::Ok(OutboundRequest { url, body })
                            },
                            _ => Result::Err(ForwardError::PayloadCorrupt),
                        }
                    },
                }
            },
        }
    }

    /// Finishes one forwarding attempt on a job in `Sending`, applying the
    /// state machine to what the HTTP call came back with: a 2xx status
    /// confirms the job and creates its notification; any other status fails
    /// it for good; a network error re-queues it with backoff until the
    /// retry budget runs out, then fails it.
    pub fn complete_attempt(
        &self,
        storage: &mut BrokerStorage,
        correlation_id: &str,
        outcome: HttpOutcome,
        now: i64,
    ) -> (r: Result<(), ForwardError>)
        requires
            old(storage).wf(),
            0 <= now <= i64::MAX - 302000,
            (old(storage).spec_job(correlation_id@) matches Some(j) ==> j.attempts < u32::MAX),
        ensures
            final(storage).wf(),
            forall|cid: Seq<char>|
                cid != correlation_id@ ==> final(storage).spec_job(cid) == old(storage).spec_job(
                    cid,
                ),
            forall|cid: Seq<char>|
                cid != correlation_id@ ==> final(storage).spec_notification(cid) == old(storage).spec_notification(cid),
            match old(storage).spec_job(correlation_id@) {
                Option::None => r == Result::<(), ForwardError>::Err(ForwardError::JobNotFound)
                    && final(storage).job_seq() == old(storage).job_seq() && final(storage).notification_seq() == old(storage).notification_seq(),
                Option::Some(j) => if j.state != JobState::Sending {
                    r == Result::<(), ForwardError>::Err(ForwardError::JobNotSending) && final(storage).job_seq() == old(storage).job_seq() && final(storage).notification_seq()
                        == old(storage).notification_seq()
                } else {
                    &&& r == Result::<(), ForwardError>::Ok(())
                    &&& final(storage).spec_job(correlation_id@) matches Some(j2)
                        && forward_outcome(j, j2, outcome, now, self.max_retry_attempts,
                        self.initial_backoff_ms)
                    &&& match outcome {
                        HttpOutcome::Status(code, _) => if 200 <= code < 300 {
                            confirmed_notification_change(
                                *old(storage),
                                *final(storage),
                                correlation_id@,
                                j.notify_json@,
                                now,
                            )
                        } else {
                            final(storage).notification_seq() == old(storage).notification_seq()
                        },
                        HttpOutcome::NetworkError(_) => final(storage).notification_seq() == old(storage).notification_seq(),
                    }
                },
            },
    {
        match storage.get_booking_job(correlation_id) {
            Option::None => Result::Err(ForwardError::JobNotFound),
            Option::Some(job) => {
                match job.state {
                    JobState::Sending => (),
                    _ => {
                        return Result::Err(ForwardError::JobNotSending);
                    },
                }
                match outcome {
                    HttpOutcome::Status(code, body) => {
                        if 200 <= code && code < 300 {
                            let upd = JobStateUpdate {
                                state: JobState::Confirmed,
                                attempts: Option::None,
                                next_attempt_at: Option::None,
                                last_error: Option::None,
                                http_status: Option::Some(code),
                                central_response_json: Option::Some(body),
                            };
                            match storage.update_job_state(correlation_id, upd, now) {
                                Result::Ok(()) => (),
                                Result::Err(_) => {
                                    proof {
                                        assert(false);
                                    }
                                    return Result::Err(ForwardError::JobNotFound);
                                },
                            }
                            create_notification(storage, correlation_id, job.notify_json.as_str(), now);
                            Result::Ok(())
                        } else {
                            let mut err = String::from_str("HTTP ");
                            push_u64_dec(&mut err, code as u64);
                            err.append(": ");
                            err.append(body.as_str());
                            proof {
                                assert(err@ =~= spec_http_error_text(code, body@));
                            }
                            let upd = JobStateUpdate {
                                state: JobState::Failed,
                                attempts: Option::None,
                                next_attempt_at: Option::None,
                                last_error: Option::Some(err),
                                http_status: Option::Some(code),
                                central_response_json: Option::Some(body),
                            };
                            match storage.update_job_state(correlation_id, upd, now) {
                                Result::Ok(()) => (),
                                Result::Err(_) => {
                                    proof {
                                        assert(false);
                                    }
                                    return Result::Err(ForwardError::JobNotFound);
                                },
                            }
                            Result::Ok(())
                        }
                    },
                    HttpOutcome::NetworkError(e) => {
                        let new_attempts = job.attempts + 1;
                        if new_attempts > self.max_retry_attempts {
                            let mut err = String::from_str("Max retries exceeded: ");
                            err.append(e.as_str());
                            proof {
                                assert(err@ =~= spec_max_retries_text(e@));
                            }
                            let upd = JobStateUpdate {
                                state: JobState::Failed,
                                attempts: Option::Some(new_attempts),
                                next_attempt_at: Option::None,
                                last_error: Option::Some(err),
                                http_status: Option::None,
                                central_response_json: Option::None,
                            };
                            match storage.update_job_state(correlation_id, upd, now) {
                                Result::Ok(()) => (),
                                Result::Err(_) => {
                                    proof {
                                        assert(false);
                                    }
                                    return Result::Err(ForwardError::JobNotFound);
                                },
                            }
                            Result::Ok(())
                        } else {
                            let backoff = self.calculate_backoff(new_attempts);
                            let next: i64 = now + backoff as i64;
                            let upd = JobStateUpdate {
                                state: JobState::Queued,
                                attempts: Option::Some(new_attempts),
                                next_attempt_at: Option::Some(next),
                                last_error: Option::Some(e),
                                http_status: Option::None,
                                central_response_json: Option::None,
                            };
                            match storage.update_job_state(correlation_id, upd, now) {
                                Result::Ok(()) => (),
                                Result::Err(_) => {
                                    proof {
                                        assert(false);
                                    }
                                    return Result::Err(ForwardError::JobNotFound);
                                },
                            }
                            Result::Ok(())
                        }
                    },
                }
            },
        }
    }
}

/// The patch `begin_attempt` applies: only the state changes, to `Sending`.
pub open spec fn spec_sending_update() -> JobStateUpdate {
    JobStateUpdate {
        state: JobState::Sending,
        attempts: Option::None,
        next_attempt_at: Option::None,
        last_error: Option::None,
        http_status: Option::None,
        central_response_json: Option::None,
    }
}

/// How one finished attempt moves a job in `Sending` to its next state.
pub open spec fn forward_outcome(
    j: BookingJob,
    j2: BookingJob,
    outcome: HttpOutcome,
    now: i64,
    max_retry_attempts: u32,
    initial_backoff_ms: u64,
) -> bool {
    match outcome {
        HttpOutcome::Status(code, body) => if 200 <= code < 300 {
            j2 == spec_apply_job_update(
                j,
                JobStateUpdate {
                    state: JobState::Confirmed,
                    attempts: Option::None,
                    next_attempt_at: Option::None,
                    last_error: Option::None,
                    http_status: Option::Some(code),
                    central_response_json: Option::Some(body),
                },
                now,
            )
        } else {
            &&& j2.state == JobState::Failed
            &&& j2.http_status == Some(code)
            &&& j2.central_response_json == Some(body)
            &&& j2.last_error matches Some(le) && le@ == spec_http_error_text(code, body@)
            &&& j2.attempts == j.attempts
            &&& j2.next_attempt_at == j.next_attempt_at
            &&& j2.correlation_id == j.correlation_id
            &&& j2.booking_json == j.booking_json
            &&& j2.notify_json == j.notify_json
            &&& j2.created_at == j.created_at
            &&& j2.updated_at == now
        },
        HttpOutcome::NetworkError(e) => {
            &&& j2.attempts == j.attempts + 1
            &&& j2.correlation_id == j.correlation_id
            &&& j2.booking_json == j.booking_json
            &&& j2.notify_json == j.notify_json
            &&& j2.created_at == j.created_at
            &&& j2.updated_at == now
            &&& j2.http_status == j.http_status
            &&& j2.central_response_json == j.central_response_json
            &&& if j.attempts + 1 > max_retry_attempts {
                &&& j2.state == JobState::Failed
                &&& j2.last_error matches Some(le) && le@ == spec_max_retries_text(e@)
                &&& j2.next_attempt_at == j.next_attempt_at
            } else {
                &&& j2.state == JobState::Queued
                &&& j2.last_error == Some(e)
                &&& now + spec_backoff_base(initial_backoff_ms, (j.attempts + 1) as u32)
                    <= j2.next_attempt_at <= now + spec_backoff_base(
                    initial_backoff_ms,
                    (j.attempts + 1) as u32,
                ) + JITTER_MS
            }
        },
    }
}

/// A notification record as the forwarder first writes it: pending,
/// unattempted, due at once, with subject and body still blank.
pub open spec fn fresh_notification(
    nr: NotificationRecord,
    cid: Seq<char>,
    email: Seq<char>,
    now: i64,
) -> bool {
    &&& nr.correlation_id@ == cid
    &&& nr.email_to@ == email
    &&& nr.state == NotificationState::Pending
    &&& nr.attempts == 0
    &&& nr.next_attempt_at == now
    &&& nr.last_error is None
    &&& nr.subject@ == Seq::<char>::empty()
    &&& nr.body@ == Seq::<char>::empty()
    &&& nr.simulated_sent_at is None
    &&& nr.created_at == now
    &&& nr.updated_at == now
}

/// What confirmation does to the notification outbox: if the notify payload
/// yields an email and no record exists yet, exactly one fresh record is
/// appended; otherwise the outbox is untouched.
pub open spec fn confirmed_notification_change(
    before: BrokerStorage,
    after: BrokerStorage,
    cid: Seq<char>,
    notify_payload: Seq<char>,
    now: i64,
) -> bool {
    match spec_notify_email(notify_payload) {
        Option::None => after.notification_seq() == before.notification_seq(),
        Option::Some(email) => match before.spec_notification(cid) {
            Option::Some(_) => after.notification_seq() == before.notification_seq(),
            Option::None => {
                &&& after.spec_notification(cid) matches Some(nr) && fresh_notification(
                    nr,
                    cid,
                    email,
                    now,
                )
                &&& after.notification_seq() == before.notification_seq().push(
                    after.spec_notification(cid)->0,
                )
            },
        },
    }
}

/// Writes the pending notification record for a freshly confirmed job, if
/// the stored notify payload carries an email address and no record exists
/// yet. A payload without one aborts creation and changes nothing; the job
/// stays confirmed either way.
fn create_notification(storage: &mut BrokerStorage, correlation_id: &str, notify_json: &str, now: i64)
    requires
        old(storage).wf(),
    ensures
        final(storage).wf(),
        final(storage).job_seq() == old(storage).job_seq(),
        forall|cid: Seq<char>|
            cid != correlation_id@ ==> final(storage).spec_notification(cid) == old(storage).spec_notification(cid),
        confirmed_notification_change(
            *old(storage),
            *final(storage),
            correlation_id@,
            notify_json@,
            now,
        ),
{
    match parse_json_object(notify_json) {
        Option::None => (),
        Option::Some(fields) => {
            match get_field(&fields, "email") {
                Option::None => (),
                Option::Some(email) => {
                    let nr = NotificationRecord {
                        correlation_id: String::from_str(correlation_id),
                        email_to: email,
                        state: NotificationState::Pending,
                        attempts: 0,
                        next_attempt_at: now,
                        last_error: Option::None,
                        subject: String::new(),
                        body: String::new(),
                        simulated_sent_at: Option::None,
                        created_at: now,
                        updated_at: now,
                    };
                    let _inserted = storage.persist_notification(&nr);
                },
            }
        },
    }
}

} // verus!

//! The submit handler: idempotent ingestion of booking submissions.
//!
//! A new correlation id gets a freshly queued job and a `"queued"`
//! acknowledgement; a known one changes nothing and is answered with the
//! status its job has reached. The acknowledgement is only built after the
//! store holds the job, so an observed `"queued"` implies the job is
//! persisted.

use vstd::prelude::*;

use crate::msg::{BookingData, Msg, NotifyData, booking_json_of, notify_json_of,
    spec_booking_json, spec_notify_json};
use crate::storage::BrokerStorage;
use crate::types::{BookingJob, JobState};

verus! {

/// The acknowledgement status word for a job in the given state.
pub open spec fn spec_ack_status(state: JobState) -> Seq<char> {
    match state {
        JobState::Confirmed => "confirmed"@,
        JobState::Failed => "failed"@,
        _ => "queued"@,
    }
}

/// The job record the handler writes for a new submission at `now`.
pub open spec fn spec_new_job(
    correlation_id: String,
    booking: BookingData,
    notify: NotifyData,
    now: i64,
    j: BookingJob,
) -> bool {
    &&& j.correlation_id == correlation_id
    &&& j.booking_json@ == spec_booking_json(booking)
    &&& j.notify_json@ == spec_notify_json(notify)
    &&& j.state == JobState::Queued
    &&& j.attempts == 0
    &&& j.next_attempt_at == now
    &&& j.last_error is None
    &&& j.http_status is None
    &&& j.central_response_json is None
    &&& j.created_at == now
    &&& j.updated_at == now
}

/// The broker-side handler for `SubmitBooking` messages.
pub struct BrokerHandler {}

impl BrokerHandler {
    pub fn new() -> BrokerHandler {
        BrokerHandler {  }
    }

    /// Handles one booking submission against the store: writes the job if
    /// the correlation id is new, leaves everything untouched otherwise, and
    /// answers with a `BookingAck` whose status reflects the job's state.
    pub fn handle_submit_booking(
        &self,
        storage: &mut BrokerStorage,
        correlation_id: String,
        booking: &BookingData,
        notify: &NotifyData,
        now: i64,
    ) -> (r: Msg)
        requires
            old(storage).wf(),
        ensures
            final(storage).wf(),
            final(storage).notification_seq() == old(storage).notification_seq(),
            forall|cid: Seq<char>|
                cid != correlation_id@ ==> final(storage).spec_job(cid) == old(storage).spec_job(
                    cid,
                ),
            final(storage).spec_job(correlation_id@) is Some,
            match old(storage).spec_job(correlation_id@) {
                Option::Some(j) => {
                    &&& final(storage).job_seq() == old(storage).job_seq()
                    &&& r matches Msg::BookingAck { correlation_id: rc, status } && rc
                        == correlation_id && status@ == spec_ack_status(j.state)
                },
                Option::None => {
                    &&& final(storage).spec_job(correlation_id@) matches Some(j) && spec_new_job(
                        correlation_id,
                        *booking,
                        *notify,
                        now,
                        j,
                    )
                    &&& final(storage).job_seq() == old(storage).job_seq().push(
                        final(storage).spec_job(correlation_id@)->0,
                    )
                    &&& r matches Msg::BookingAck { correlation_id: rc, status } && rc
                        == correlation_id && status@ == "queued"@
                },
            },
    {
        match storage.get_booking_job(correlation_id.as_str()) {
            Option::Some(existing) => {
                let status = match existing.state {
                    JobState::Confirmed => String::from_str("confirmed"),
                    JobState::Failed => String::from_str("failed"),
                    _ => String::from_str("queued"),
                };
                Msg::BookingAck { correlation_id, status }
            },
            Option::None => {
                let booking_json = booking_json_of(booking);
                let notify_json = notify_json_of(notify);
                let job = BookingJob {
                    correlation_id: correlation_id.clone(),
                    booking_json,
                    notify_json,
                    state: JobState::Queued,
                    attempts: 0,
                    next_attempt_at: now,
                    last_error: Option::None,
                    http_status: Option::None,
                    central_response_json: Option::None,
                    created_at: now,
                    updated_at: now,
                };
                let inserted = storage.persist_booking_job(&job);
                proof {
                    assert(inserted);
                }
                Msg::BookingAck { correlation_id, status: String::from_str("queued") }
            },
        }
    }
}

} // verus!

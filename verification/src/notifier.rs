//! The notifier: renders and emits one simulated email per confirmed job.
//!
//! For each due notification, the worker loads the companion job, renders
//! the subject and body from the stored booking payload, emits the message
//! as a structured sink record, and marks the notification `SimulatedSent`.
//! A notification whose job is missing or not yet confirmed is skipped
//! without a state change.

use vstd::prelude::*;

use crate::json::{sp_object, spec_get_field, parse_json_object, get_field, pairs_view};
use crate::storage::BrokerStorage;
use crate::types::{BookingJob, JobState, NotificationRecord, NotificationState};

verus! {

/// Why a notification could not be processed.
#[derive(Debug, Clone, Copy, PartialEq, Eq, Structural)]
pub enum NotifyError {
    /// No notification record is stored under the correlation id.
    NotificationNotFound,
    /// The companion booking job is missing: a logical inconsistency; the
    /// record is left as it stands.
    JobNotFound,
}

/// The structured sink record for one simulated email. No real mail is
/// sent; the surrounding program logs this record.
#[derive(Debug, Clone)]
pub struct SimulatedEmail {
    pub correlation_id: String,
    pub to: String,
    pub subject: String,
    /// At most 100 characters of the body, with an ellipsis when truncated.
    pub body_preview: String,
}

/// A booking field rendered into the email, or the literal `Unknown` when
/// the stored payload does not yield it.
pub open spec fn spec_field_or_unknown(payload: Seq<char>, key: Seq<char>) -> Seq<char> {
    match sp_object(payload) {
        Option::None => "Unknown"@,
        Option::Some(fields) => match spec_get_field(fields, key) {
            Option::Some(v) => v,
            Option::None => "Unknown"@,
        },
    }
}

/// The rendered subject line.
pub open spec fn spec_email_subject(j: BookingJob) -> Seq<char> {
    "Booking Confirmed - "@ + spec_field_or_unknown(j.booking_json@, "name"@)
}

/// The line carrying the Central API's response, or the plain confirmation.
pub open spec fn spec_response_info(j: BookingJob) -> Seq<char> {
    match j.central_response_json {
        Option::Some(resp) => "Response: "@ + resp@,
        Option::None => "Booking confirmed"@,
    }
}

/// The rendered plain-text body.
pub open spec fn spec_email_body(j: BookingJob) -> Seq<char> {
    let date = spec_field_or_unknown(j.booking_json@, "date"@);
    let start_time = spec_field_or_unknown(j.booking_json@, "start_time"@);
    let end_time = spec_field_or_unknown(j.booking_json@, "end_time"@);
    let name = spec_field_or_unknown(j.booking_json@, "name"@);
    "Hello "@ + name + ",\n\nYour booking has been confirmed:\n\nDate: "@ + date + "\nTime: "@
        + start_time + " - "@ + end_time + "\nName: "@ + name + "\n\n"@ + spec_response_info(j)
        + "\n\nThank you!"@
}

/// The body preview emitted to the sink: at most 100 characters, with an
/// ellipsis when the body is longer.
pub open spec fn spec_preview(body: Seq<char>) -> Seq<char> {
    if body.len() > 100 {
        body.subrange(0, 100) + "..."@
    } else {
        body
    }
}

/// How sending marks a notification record: `SimulatedSent`, stamped with
/// the send time and the rendered subject and body.
pub open spec fn sent_notification(
    nrec: NotificationRecord,
    n2: NotificationRecord,
    j: BookingJob,
    now: i64,
) -> bool {
    &&& n2.correlation_id == nrec.correlation_id
    &&& n2.email_to == nrec.email_to
    &&& n2.state == NotificationState::SimulatedSent
    &&& n2.attempts == nrec.attempts
    &&& n2.next_attempt_at == nrec.next_attempt_at
    &&& n2.last_error == nrec.last_error
    &&& n2.subject@ == spec_email_subject(j)
    &&& n2.body@ == spec_email_body(j)
    &&& n2.simulated_sent_at == Some(now)
    &&& n2.created_at == nrec.created_at
    &&& n2.updated_at == now
}

fn field_or_unknown(fields: &Vec<(String, String)>, key: &str) -> (r: String)
    ensures
        r@ == match spec_get_field(pairs_view(fields@), key@) {
            Option::Some(v) => v,
            Option::None => "Unknown"@,
        },
{
    match get_field(fields, key) {
        Option::Some(v) => v,
        Option::None => String::from_str("Unknown"),
    }
}

/// The notifier worker's decision logic.
pub struct NotifierWorker {}

impl NotifierWorker {
    pub fn new() -> NotifierWorker {
        NotifierWorker {  }
    }

    /// Renders the email subject and body for a confirmed job, with the
    /// literal `Unknown` standing in for any booking field the stored
    /// payload does not yield.
    pub fn build_email(&self, job: &BookingJob) -> (r: (String, String))
        ensures
            r.0@ == spec_email_subject(*job),
            r.1@ == spec_email_body(*job),
    {
        let (date, start_time, end_time, name) = match parse_json_object(
            job.booking_json.as_str(),
        ) {
            Option::None => (
                String::from_str("Unknown"),
                String::from_str("Unknown"),
                String::from_str("Unknown"),
                String::from_str("Unknown"),
            ),
            Option::Some(fields) => (
                field_or_unknown(&fields, "date"),
                field_or_unknown(&fields, "start_time"),
                field_or_unknown(&fields, "end_time"),
                field_or_unknown(&fields, "name"),
            ),
        };
        let response_info = match &job.central_response_json {
            Option::Some(resp) => {
                let mut info = String::from_str("Response: ");
                info.append(resp.as_str());
                info
            },
            Option::None => String::from_str("Booking confirmed"),
        };
        let mut subject = String::from_str("Booking Confirmed - ");
        subject.append(name.as_str());
        let mut body = String::from_str("Hello ");
        body.append(name.as_str());
        body.append(",\n\nYour booking has been confirmed:\n\nDate: ");
        body.append(date.as_str());
        body.append("\nTime: ");
        body.append(start_time.as_str());
        body.append(" - ");
        body.append(end_time.as_str());
        body.append("\nName: ");
        body.append(name.as_str());
        body.append("\n\n");
        body.append(response_info.as_str());
        body.append("\n\nThank you!");
        proof {
            assert(body@ =~= spec_email_body(*job));
        }
        (subject, body)
    }

    /// Processes one due notification: loads the companion job, and when the
    /// job is confirmed, renders the email, marks the record
    /// `SimulatedSent`, and yields the sink record to emit. A missing job or
    /// an unconfirmed one changes nothing; the unconfirmed case yields no
    /// sink record and the next scan retries.
    pub fn process_notification(
        &self,
        storage: &mut BrokerStorage,
        correlation_id: &str,
        now: i64,
    ) -> (r: Result<Option<SimulatedEmail>, NotifyError>)
        requires
            old(storage).wf(),
        ensures
            final(storage).wf(),
            final(storage).job_seq() == old(storage).job_seq(),
            forall|cid: Seq<char>|
                cid != correlation_id@ ==> final(storage).spec_notification(cid) == old(
                    storage,
                ).spec_notification(cid),
            match old(storage).spec_notification(correlation_id@) {
                Option::None => r == Result::<Option<SimulatedEmail>, NotifyError>::Err(
                    NotifyError::NotificationNotFound,
                ) && final(storage).notification_seq() == old(storage).notification_seq(),
                Option::Some(nrec) => match old(storage).spec_job(correlation_id@) {
                    Option::None => r == Result::<Option<SimulatedEmail>, NotifyError>::Err(
                        NotifyError::JobNotFound,
                    ) && final(storage).notification_seq() == old(storage).notification_seq(),
                    Option::Some(j) => if j.state != JobState::Confirmed {
                        r == Result::<Option<SimulatedEmail>, NotifyError>::Ok(Option::None)
                            && final(storage).notification_seq() == old(
                            storage,
                        ).notification_seq()
                    } else {
                        &&& final(storage).spec_notification(correlation_id@) matches Some(n2)
                            && sent_notification(nrec, n2, j, now)
                        &&& r matches Result::Ok(em0) && em0 matches Some(em) && {
                            &&& em.correlation_id@ == correlation_id@
                            &&& em.to == nrec.email_to
                            &&& em.subject@ == spec_email_subject(j)
                            &&& em.body_preview@ == spec_preview(spec_email_body(j))
                        }
                    },
                },
            },
    {
        let nrec = match storage.get_notification(correlation_id) {
            Option::None => {
                return Result::Err(NotifyError::NotificationNotFound);
            },
            Option::Some(n) => n,
        };
        let job = match storage.get_booking_job(correlation_id) {
            Option::None => {
                return Result::Err(NotifyError::JobNotFound);
            },
            Option::Some(j) => j,
        };
        match job.state {
            JobState::Confirmed => (),
            _ => {
                return Result::Ok(Option::None);
            },
        }
        let (subject, body) = self.build_email(&job);
        let body_len = body.as_str().unicode_len();
        let body_preview = if body_len > 100 {
            let head = body.as_str().substring_char(0, 100);
            let mut p = String::from_str(head);
            p.append("...");
            p
        } else {
            body.clone()
        };
        match storage.update_notification_state(
            correlation_id,
            NotificationState::SimulatedSent,
            Option::Some(now),
            Option::Some(subject.clone()),
            Option::Some(body.clone()),
            now,
        ) {
            Result::Ok(()) => (),
            Result::Err(_) => {
                proof {
                    assert(false);
                }
                return Result::Err(NotifyError::NotificationNotFound);
            },
        }
        Result::Ok(
            Option::Some(
                SimulatedEmail {
                    correlation_id: String::from_str(correlation_id),
                    to: nrec.email_to,
                    subject,
                    body_preview,
                },
            ),
        )
    }
}

} // verus!

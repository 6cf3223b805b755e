//! Records persisted by the broker: booking jobs and notification outbox
//! entries, together with their state machines.

use vstd::prelude::*;

verus! {

/// State of a booking job in the forwarding pipeline.
///
/// `Confirmed` and `Failed` are terminal for forwarding; a job never leaves
/// them once the broker has put it there.
#[derive(Debug, Clone, Copy, PartialEq, Eq, Structural)]
pub enum JobState {
    Queued,
    Sending,
    Confirmed,
    Failed,
}

impl JobState {
    /// The status word used in acknowledgements and logs.
    pub fn as_str(&self) -> (r: &'static str)
        ensures
            r@ == self.spec_str(),
    {
        proof {
            reveal_strlit("queued");
            reveal_strlit("sending");
            reveal_strlit("confirmed");
            reveal_strlit("failed");
        }
        match self {
            JobState::Queued => "queued",
            JobState::Sending => "sending",
            JobState::Confirmed => "confirmed",
            JobState::Failed => "failed",
        }
    }

    pub open spec fn spec_str(self) -> Seq<char> {
        match self {
            JobState::Queued => "queued"@,
            JobState::Sending => "sending"@,
            JobState::Confirmed => "confirmed"@,
            JobState::Failed => "failed"@,
        }
    }

    /// Whether the forwarding pipeline is finished with a job in this state.
    pub open spec fn is_terminal(self) -> bool {
        self == JobState::Confirmed || self == JobState::Failed
    }
}

/// One record per client submission, keyed by `correlation_id`.
#[derive(Debug, Clone)]
pub struct BookingJob {
    pub correlation_id: String,
    /// Booking payload as received from the client, preserved verbatim.
    pub booking_json: String,
    /// Notification hints as received from the client, preserved verbatim.
    pub notify_json: String,
    pub state: JobState,
    /// Number of forwarding attempts made so far.
    pub attempts: u32,
    /// Epoch milliseconds; the job is due when this is `<= now` and the state
    /// is `Queued`.
    pub next_attempt_at: i64,
    pub last_error: Option<String>,
    pub http_status: Option<u16>,
    pub central_response_json: Option<String>,
    pub created_at: i64,
    pub updated_at: i64,
}

/// State of a notification outbox entry.
#[derive(Debug, Clone, Copy, PartialEq, Eq, Structural)]
pub enum NotificationState {
    Pending,
    SimulatedSent,
    Failed,
}

impl NotificationState {
    pub fn as_str(&self) -> (r: &'static str)
        ensures
            r@ == self.spec_str(),
    {
        proof {
            reveal_strlit("pending");
            reveal_strlit("simulated_sent");
            reveal_strlit("failed");
        }
        match self {
            NotificationState::Pending => "pending",
            NotificationState::SimulatedSent => "simulated_sent",
            NotificationState::Failed => "failed",
        }
    }

    pub open spec fn spec_str(self) -> Seq<char> {
        match self {
            NotificationState::Pending => "pending"@,
            NotificationState::SimulatedSent => "simulated_sent"@,
            NotificationState::Failed => "failed"@,
        }
    }
}

/// At most one per booking job, keyed by the same `correlation_id`.
#[derive(Debug, Clone)]
pub struct NotificationRecord {
    pub correlation_id: String,
    pub email_to: String,
    pub state: NotificationState,
    pub attempts: u32,
    pub next_attempt_at: i64,
    pub last_error: Option<String>,
    pub subject: String,
    pub body: String,
    pub simulated_sent_at: Option<i64>,
    pub created_at: i64,
    pub updated_at: i64,
}

} // verus!

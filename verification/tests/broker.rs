use booking_broker::config::{Config, Role};
use booking_broker::forwarder::{ForwardError, ForwarderConfigError, ForwarderWorker, HttpOutcome};
use booking_broker::handler::BrokerHandler;
use booking_broker::msg::{BookingData, Msg, NotifyData};
use booking_broker::notifier::{NotifierWorker, NotifyError};
use booking_broker::storage::{BrokerStorage, JobStateUpdate, StorageError};
use booking_broker::time::now_ms;
use booking_broker::types::{BookingJob, JobState, NotificationRecord, NotificationState};

fn test_config() -> Config {
    Config {
        role: Role::Gateway,
        listen: "/ip4/0.0.0.0/tcp/0".to_string(),
        dial: None,
        peers: vec![],
        bootstrap_peers: vec![],
        enable_mdns: true,
        enable_kad: true,
        enable_relay: false,
        discovery_timeout_secs: 60,
        central_api_url: Some("https://example.com".to_string()),
        db_path: "./data/broker.db".to_string(),
        max_retry_attempts: 10,
        initial_backoff_ms: 1000,
    }
}

fn create_test_booking() -> (BookingData, NotifyData) {
    let booking = BookingData {
        date: "2026-01-15".to_string(),
        start_time: "10:00".to_string(),
        end_time: "11:00".to_string(),
        name: "Test User".to_string(),
    };
    let notify = NotifyData {
        email: "test@example.com".to_string(),
        locale: Some("en".to_string()),
        timezone: Some("UTC".to_string()),
    };
    (booking, notify)
}

fn manual_job(correlation_id: &str, state: JobState, now: i64) -> BookingJob {
    BookingJob {
        correlation_id: correlation_id.to_string(),
        booking_json: r#"{"date":"2026-01-15","start_time":"10:00","end_time":"11:00","name":"Test"}"#
            .to_string(),
        notify_json: r#"{"email":"test@example.com"}"#.to_string(),
        state,
        attempts: 0,
        next_attempt_at: now,
        last_error: None,
        http_status: None,
        central_response_json: None,
        created_at: now,
        updated_at: now,
    }
}

#[test]
fn test_idempotency() {
    let mut storage = BrokerStorage::new();
    let handler = BrokerHandler::new();

    let correlation_id = uuid::Uuid::new_v4().to_string();
    let (booking, notify) = create_test_booking();
    let now = now_ms();

    let ack1 = handler.handle_submit_booking(
        &mut storage,
        correlation_id.clone(),
        &booking,
        &notify,
        now,
    );
    assert!(matches!(ack1, Msg::BookingAck { status, .. } if status == "queued"));

    let ack2 = handler.handle_submit_booking(
        &mut storage,
        correlation_id.clone(),
        &booking,
        &notify,
        now,
    );
    assert!(matches!(ack2, Msg::BookingAck { status, .. } if status == "queued"));

    let job = storage.get_booking_job(&correlation_id).unwrap();
    assert_eq!(job.correlation_id, correlation_id);
}

#[test]
fn test_ack_after_persist() {
    let mut storage = BrokerStorage::new();
    let handler = BrokerHandler::new();

    let correlation_id = uuid::Uuid::new_v4().to_string();
    let (booking, notify) = create_test_booking();
    let now = now_ms();

    let ack = handler.handle_submit_booking(
        &mut storage,
        correlation_id.clone(),
        &booking,
        &notify,
        now,
    );
    assert!(matches!(ack, Msg::BookingAck { status, .. } if status == "queued"));

    let job = storage.get_booking_job(&correlation_id);
    assert!(job.is_some());
    let job = job.unwrap();
    assert_eq!(job.correlation_id, correlation_id);
    assert_eq!(job.state, JobState::Queued);
    assert_eq!(job.attempts, 0);
}

#[test]
fn test_offline_retry_keeps_job_queued() {
    let mut storage = BrokerStorage::new();

    let correlation_id = uuid::Uuid::new_v4().to_string();
    let now = now_ms();
    let job = manual_job(&correlation_id, JobState::Queued, now);
    assert!(storage.persist_booking_job(&job));

    let retrieved = storage.get_booking_job(&correlation_id).unwrap();
    assert_eq!(retrieved.state, JobState::Queued);
}

#[test]
fn test_notification_only_after_confirmation() {
    let mut storage = BrokerStorage::new();

    let correlation_id = uuid::Uuid::new_v4().to_string();
    let now = now_ms();

    let mut job = manual_job(&correlation_id, JobState::Confirmed, now);
    job.http_status = Some(200);
    job.central_response_json = Some(r#"{"id":"123"}"#.to_string());
    assert!(storage.persist_booking_job(&job));

    let notif = NotificationRecord {
        correlation_id: correlation_id.clone(),
        email_to: "test@example.com".to_string(),
        state: NotificationState::Pending,
        attempts: 0,
        next_attempt_at: now,
        last_error: None,
        subject: String::new(),
        body: String::new(),
        simulated_sent_at: None,
        created_at: now,
        updated_at: now,
    };
    assert!(storage.persist_notification(&notif));

    let retrieved = storage.get_notification(&correlation_id).unwrap();
    assert_eq!(retrieved.state, NotificationState::Pending);
}

#[test]
fn test_exponential_backoff_calculation() {
    let forwarder = ForwarderWorker::new(test_config()).unwrap();

    // initial_backoff_ms * 2^k, plus up to 1000 ms of jitter
    let backoff1 = forwarder.calculate_backoff(1);
    assert!(backoff1 >= 2000 && backoff1 <= 2000 + 1000);

    let backoff2 = forwarder.calculate_backoff(2);
    assert!(backoff2 >= 4000 && backoff2 <= 4000 + 1000);

    let backoff3 = forwarder.calculate_backoff(3);
    assert!(backoff3 >= 8000 && backoff3 <= 8000 + 1000);
}

#[test]
fn backoff_is_capped_at_five_minutes() {
    let forwarder = ForwarderWorker::new(test_config()).unwrap();
    // 1000 * 2^20 far exceeds the cap; the delay stays within cap + jitter.
    let backoff = forwarder.calculate_backoff(30);
    assert!(backoff >= 300000 && backoff <= 300000 + 1000);
}

#[test]
fn forwarder_requires_central_api_url() {
    let mut config = test_config();
    config.central_api_url = None;
    assert_eq!(
        ForwarderWorker::new(config).unwrap_err(),
        ForwarderConfigError::MissingCentralApiUrl
    );
}

#[test]
fn happy_path_confirms_and_notifies() {
    let mut storage = BrokerStorage::new();
    let handler = BrokerHandler::new();
    let forwarder = ForwarderWorker::new(test_config()).unwrap();
    let notifier = NotifierWorker::new();

    let booking = BookingData {
        date: "2026-01-15".to_string(),
        start_time: "10:00".to_string(),
        end_time: "11:00".to_string(),
        name: "Alice".to_string(),
    };
    let notify = NotifyData { email: "a@x.io".to_string(), locale: None, timezone: None };

    let ack = handler.handle_submit_booking(&mut storage, "c1".to_string(), &booking, &notify, 50);
    assert!(matches!(ack, Msg::BookingAck { correlation_id, status } if correlation_id == "c1" && status == "queued"));

    let due = storage.get_due_jobs(10, 100);
    assert_eq!(due.len(), 1);
    assert_eq!(due[0].correlation_id, "c1");

    let request = forwarder.begin_attempt(&mut storage, "c1", 110).unwrap();
    assert_eq!(request.url, "https://example.com/appointments/book-range");
    assert_eq!(
        request.body,
        r#"{"date":"2026-01-15","start_time":"10:00","end_time":"11:00","name":"Alice"}"#
    );
    assert_eq!(storage.get_booking_job("c1").unwrap().state, JobState::Sending);

    forwarder
        .complete_attempt(
            &mut storage,
            "c1",
            HttpOutcome::Status(200, r#"{"id":"b-42"}"#.to_string()),
            120,
        )
        .unwrap();

    let job = storage.get_booking_job("c1").unwrap();
    assert_eq!(job.state, JobState::Confirmed);
    assert_eq!(job.http_status, Some(200));
    assert_eq!(job.central_response_json.as_deref(), Some(r#"{"id":"b-42"}"#));

    let notif = storage.get_notification("c1").unwrap();
    assert_eq!(notif.state, NotificationState::Pending);
    assert_eq!(notif.email_to, "a@x.io");

    let sent = notifier.process_notification(&mut storage, "c1", 130).unwrap().unwrap();
    assert_eq!(sent.correlation_id, "c1");
    assert_eq!(sent.to, "a@x.io");
    assert_eq!(sent.subject, "Booking Confirmed - Alice");

    let notif = storage.get_notification("c1").unwrap();
    assert_eq!(notif.state, NotificationState::SimulatedSent);
    assert_eq!(notif.simulated_sent_at, Some(130));
    assert!(notif.body.contains("2026-01-15"));
    assert!(notif.body.contains("10:00"));
    assert!(notif.body.contains("11:00"));
    assert!(notif.body.contains("Alice"));
    assert!(notif.body.contains(r#"Response: {"id":"b-42"}"#));
}

#[test]
fn duplicate_submission_reports_confirmed_state() {
    let mut storage = BrokerStorage::new();
    let handler = BrokerHandler::new();
    let forwarder = ForwarderWorker::new(test_config()).unwrap();

    let (booking, notify) = create_test_booking();
    handler.handle_submit_booking(&mut storage, "c1".to_string(), &booking, &notify, 50);
    forwarder.begin_attempt(&mut storage, "c1", 60).unwrap();
    forwarder
        .complete_attempt(&mut storage, "c1", HttpOutcome::Status(200, "ok".to_string()), 70)
        .unwrap();
    let confirmed = storage.get_booking_job("c1").unwrap();

    // Re-submission with the same and with a differing payload: no new job,
    // the acknowledgement reports the confirmed state, the record stands.
    let ack = handler.handle_submit_booking(&mut storage, "c1".to_string(), &booking, &notify, 80);
    assert!(matches!(ack, Msg::BookingAck { status, .. } if status == "confirmed"));

    let mut other = booking.clone();
    other.name = "Someone Else".to_string();
    let ack = handler.handle_submit_booking(&mut storage, "c1".to_string(), &other, &notify, 90);
    assert!(matches!(ack, Msg::BookingAck { status, .. } if status == "confirmed"));

    let job = storage.get_booking_job("c1").unwrap();
    assert_eq!(job.booking_json, confirmed.booking_json);
    assert_eq!(job.updated_at, confirmed.updated_at);
}

#[test]
fn queued_ack_survives_restart() {
    let mut storage = BrokerStorage::new();
    let handler = BrokerHandler::new();
    let (booking, notify) = create_test_booking();

    let ack = handler.handle_submit_booking(&mut storage, "c5".to_string(), &booking, &notify, 40);
    assert!(matches!(ack, Msg::BookingAck { status, .. } if status == "queued"));

    // Rebuild the store from its exported records, as a restart from the
    // durable backing does.
    let jobs = storage.export_jobs();
    let notifications = storage.export_notifications();
    let restarted = BrokerStorage::from_records(jobs, notifications).unwrap();

    let job = restarted.get_booking_job("c5").unwrap();
    assert_eq!(job.state, JobState::Queued);
    assert_eq!(job.attempts, 0);
}

#[test]
fn hard_rejection_fails_job_without_notification() {
    let mut storage = BrokerStorage::new();
    let handler = BrokerHandler::new();
    let forwarder = ForwarderWorker::new(test_config()).unwrap();
    let (booking, notify) = create_test_booking();

    handler.handle_submit_booking(&mut storage, "c3".to_string(), &booking, &notify, 10);
    forwarder.begin_attempt(&mut storage, "c3", 20).unwrap();
    forwarder
        .complete_attempt(
            &mut storage,
            "c3",
            HttpOutcome::Status(422, r#"{"error":"bad date"}"#.to_string()),
            30,
        )
        .unwrap();

    let job = storage.get_booking_job("c3").unwrap();
    assert_eq!(job.state, JobState::Failed);
    assert_eq!(job.http_status, Some(422));
    assert!(job.last_error.unwrap().contains(r#"HTTP 422: {"error":"bad date"}"#));
    assert!(storage.get_notification("c3").is_none());
}

#[test]
fn retry_cap_exhaustion_fails_job() {
    let mut storage = BrokerStorage::new();
    let handler = BrokerHandler::new();
    let mut config = test_config();
    config.max_retry_attempts = 2;
    let forwarder = ForwarderWorker::new(config).unwrap();
    let (booking, notify) = create_test_booking();

    handler.handle_submit_booking(&mut storage, "c4".to_string(), &booking, &notify, 0);

    // Initial attempt plus two retries, each ending in a network error.
    let mut now = 10;
    for _ in 0..2 {
        forwarder.begin_attempt(&mut storage, "c4", now).unwrap();
        forwarder
            .complete_attempt(
                &mut storage,
                "c4",
                HttpOutcome::NetworkError("connection refused".to_string()),
                now + 1,
            )
            .unwrap();
        let job = storage.get_booking_job("c4").unwrap();
        assert_eq!(job.state, JobState::Queued);
        now = job.next_attempt_at + 1;
    }
    forwarder.begin_attempt(&mut storage, "c4", now).unwrap();
    forwarder
        .complete_attempt(
            &mut storage,
            "c4",
            HttpOutcome::NetworkError("connection refused".to_string()),
            now + 1,
        )
        .unwrap();

    let job = storage.get_booking_job("c4").unwrap();
    assert_eq!(job.state, JobState::Failed);
    assert_eq!(job.attempts, 3);
    assert!(job.last_error.unwrap().contains("Max retries exceeded"));
    assert!(storage.get_notification("c4").is_none());

    // Terminal: the job is never due again and no attempt may start on it.
    assert!(storage.get_due_jobs(10, i64::MAX - 400000).is_empty());
    assert_eq!(
        forwarder.begin_attempt(&mut storage, "c4", now + 2).unwrap_err(),
        ForwardError::JobNotQueued
    );
}

#[test]
fn network_error_schedules_backoff_within_bounds() {
    let mut storage = BrokerStorage::new();
    let handler = BrokerHandler::new();
    let forwarder = ForwarderWorker::new(test_config()).unwrap();
    let (booking, notify) = create_test_booking();

    handler.handle_submit_booking(&mut storage, "c2".to_string(), &booking, &notify, 0);
    forwarder.begin_attempt(&mut storage, "c2", 5).unwrap();
    forwarder
        .complete_attempt(&mut storage, "c2", HttpOutcome::NetworkError("timeout".to_string()), 100)
        .unwrap();

    let job = storage.get_booking_job("c2").unwrap();
    assert_eq!(job.state, JobState::Queued);
    assert_eq!(job.attempts, 1);
    assert_eq!(job.last_error.as_deref(), Some("timeout"));
    // First retry: 1000 * 2^1 = 2000 ms plus at most 1000 ms of jitter.
    assert!(job.next_attempt_at >= 100 + 2000);
    assert!(job.next_attempt_at <= 100 + 2000 + 1000);
}

#[test]
fn monotonic_state_terminal_jobs_stay_put() {
    let mut storage = BrokerStorage::new();
    let now = now_ms();
    let confirmed = manual_job("done", JobState::Confirmed, now);
    let failed = manual_job("lost", JobState::Failed, now);
    storage.persist_booking_job(&confirmed);
    storage.persist_booking_job(&failed);
    let forwarder = ForwarderWorker::new(test_config()).unwrap();

    assert_eq!(
        forwarder.begin_attempt(&mut storage, "done", now).unwrap_err(),
        ForwardError::JobNotQueued
    );
    assert_eq!(
        forwarder.begin_attempt(&mut storage, "lost", now).unwrap_err(),
        ForwardError::JobNotQueued
    );
    assert_eq!(
        forwarder
            .complete_attempt(&mut storage, "done", HttpOutcome::NetworkError("x".to_string()), now)
            .unwrap_err(),
        ForwardError::JobNotSending
    );
    assert_eq!(storage.get_booking_job("done").unwrap().state, JobState::Confirmed);
    assert_eq!(storage.get_booking_job("lost").unwrap().state, JobState::Failed);
    assert!(storage.get_due_jobs(10, i64::MAX - 400000).is_empty());
}

#[test]
fn due_jobs_come_sorted_and_limited() {
    let mut storage = BrokerStorage::new();
    let mut early_b = manual_job("b", JobState::Queued, 0);
    early_b.next_attempt_at = 100;
    let mut early_a = manual_job("a", JobState::Queued, 0);
    early_a.next_attempt_at = 100;
    let mut late = manual_job("z", JobState::Queued, 0);
    late.next_attempt_at = 50;
    let mut not_due = manual_job("n", JobState::Queued, 0);
    not_due.next_attempt_at = 5000;
    let sending = manual_job("s", JobState::Sending, 0);

    storage.persist_booking_job(&early_b);
    storage.persist_booking_job(&early_a);
    storage.persist_booking_job(&late);
    storage.persist_booking_job(&not_due);
    storage.persist_booking_job(&sending);

    let due = storage.get_due_jobs(10, 200);
    let ids: Vec<&str> = due.iter().map(|j| j.correlation_id.as_str()).collect();
    // Ascending by next_attempt_at, ties broken by correlation id.
    assert_eq!(ids, vec!["z", "a", "b"]);

    let due = storage.get_due_jobs(2, 200);
    let ids: Vec<&str> = due.iter().map(|j| j.correlation_id.as_str()).collect();
    assert_eq!(ids, vec!["z", "a"]);

    assert!(storage.get_due_jobs(10, 10).is_empty());
}

#[test]
fn update_missing_job_reports_not_found() {
    let mut storage = BrokerStorage::new();
    let update = JobStateUpdate {
        state: JobState::Failed,
        attempts: None,
        next_attempt_at: None,
        last_error: None,
        http_status: None,
        central_response_json: None,
    };
    assert_eq!(storage.update_job_state("missing", update, 5), Err(StorageError::NotFound));
    assert_eq!(
        storage.update_notification_state(
            "missing",
            NotificationState::Failed,
            None,
            None,
            None,
            5
        ),
        Err(StorageError::NotFound)
    );
}

#[test]
fn corrupt_booking_payload_is_reported() {
    let mut storage = BrokerStorage::new();
    let mut job = manual_job("bad", JobState::Queued, 0);
    job.booking_json = "not json".to_string();
    storage.persist_booking_job(&job);
    let forwarder = ForwarderWorker::new(test_config()).unwrap();

    assert_eq!(
        forwarder.begin_attempt(&mut storage, "bad", 10).unwrap_err(),
        ForwardError::PayloadCorrupt
    );
    // The soft lease was taken before the payload was read.
    assert_eq!(storage.get_booking_job("bad").unwrap().state, JobState::Sending);
    assert_eq!(
        forwarder.begin_attempt(&mut storage, "missing", 10).unwrap_err(),
        ForwardError::JobNotFound
    );
    assert_eq!(
        forwarder
            .complete_attempt(&mut storage, "missing", HttpOutcome::NetworkError("x".into()), 10)
            .unwrap_err(),
        ForwardError::JobNotFound
    );
}

#[test]
fn notification_without_email_is_not_created() {
    let mut storage = BrokerStorage::new();
    let mut job = manual_job("noemail", JobState::Queued, 0);
    job.notify_json = r#"{"locale":"en"}"#.to_string();
    storage.persist_booking_job(&job);
    let forwarder = ForwarderWorker::new(test_config()).unwrap();

    forwarder.begin_attempt(&mut storage, "noemail", 10).unwrap();
    forwarder
        .complete_attempt(&mut storage, "noemail", HttpOutcome::Status(204, String::new()), 20)
        .unwrap();
    assert_eq!(storage.get_booking_job("noemail").unwrap().state, JobState::Confirmed);
    assert!(storage.get_notification("noemail").is_none());
}

#[test]
fn notifier_skips_unready_notifications() {
    let mut storage = BrokerStorage::new();
    let notifier = NotifierWorker::new();

    assert_eq!(
        notifier.process_notification(&mut storage, "nobody", 10).unwrap_err(),
        NotifyError::NotificationNotFound
    );

    let orphan = NotificationRecord {
        correlation_id: "orphan".to_string(),
        email_to: "o@x.io".to_string(),
        state: NotificationState::Pending,
        attempts: 0,
        next_attempt_at: 0,
        last_error: None,
        subject: String::new(),
        body: String::new(),
        simulated_sent_at: None,
        created_at: 0,
        updated_at: 0,
    };
    storage.persist_notification(&orphan);
    assert_eq!(
        notifier.process_notification(&mut storage, "orphan", 10).unwrap_err(),
        NotifyError::JobNotFound
    );

    let mut premature = orphan.clone();
    premature.correlation_id = "early".to_string();
    storage.persist_notification(&premature);
    storage.persist_booking_job(&manual_job("early", JobState::Queued, 0));
    assert!(notifier.process_notification(&mut storage, "early", 10).unwrap().is_none());
    assert_eq!(storage.get_notification("early").unwrap().state, NotificationState::Pending);
}

#[test]
fn notifier_renders_unknown_fields_and_truncates_preview() {
    let mut storage = BrokerStorage::new();
    let notifier = NotifierWorker::new();

    let mut job = manual_job("longname", JobState::Confirmed, 0);
    job.booking_json = format!(r#"{{"date":"2026-01-15","name":"{}"}}"#, "N".repeat(120));
    storage.persist_booking_job(&job);
    let notif = NotificationRecord {
        correlation_id: "longname".to_string(),
        email_to: "n@x.io".to_string(),
        state: NotificationState::Pending,
        attempts: 0,
        next_attempt_at: 0,
        last_error: None,
        subject: String::new(),
        body: String::new(),
        simulated_sent_at: None,
        created_at: 0,
        updated_at: 0,
    };
    storage.persist_notification(&notif);

    let sent = notifier.process_notification(&mut storage, "longname", 5).unwrap().unwrap();
    // Missing start and end times render as the literal Unknown.
    let stored = storage.get_notification("longname").unwrap();
    assert!(stored.body.contains("Time: Unknown - Unknown"));
    assert!(stored.body.contains("Booking confirmed"));
    // The preview carries at most 100 characters plus the ellipsis.
    assert_eq!(sent.body_preview.chars().count(), 103);
    assert!(sent.body_preview.ends_with("..."));
}

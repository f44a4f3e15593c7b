use beacon_alerts::model::{AlertRecord, AlertStatus, Event, EventState, Fact, Severity};
use beacon_alerts::notification::{
    classify_telegram_status, copy_clock, failure_is_retryable, render_event, retry_delay_seconds,
    retry_time, telegram_endpoint, telegram_token, try_retry_time, DeliveryStep, DispatcherError,
    FailureClass, NotificationChannel, NotificationDispatcher, NotificationFailure, SendFailure, TelegramConfig,
    TelegramError,
};
use beacon_alerts::policy::{PolicyCatalog, PolicyRule};
use beacon_alerts::store::{AcceptError, NotificationJob, ServerEventStore, StoredEvent};
use beacon_alerts::time::{Clock, Timestamp};

const JAN_1_2026: i64 = 1_767_225_600;

fn clock_at(seconds: i64) -> Clock {
    Clock::at(Timestamp { seconds, nanos: 0 }).unwrap()
}

fn event_with(id: &str) -> Event {
    Event {
        schema_version: 1,
        event_id: id.into(),
        event_type: "backup.restic.stale".into(),
        source: "test".into(),
        host_id: "backup".into(),
        state: EventState::Firing,
        severity: Severity::Critical,
        fingerprint: "backup/restic/age".into(),
        occurred_at: "2026-01-01T00:00:00Z".into(),
        facts: vec![],
    }
}

fn event() -> Event {
    event_with("936da01f-9abd-4d9d-80c7-02af85c822a8")
}

fn payload(event: &Event) -> String {
    format!("{event:?}")
}

fn policy() -> PolicyCatalog {
    PolicyCatalog {
        rules: vec![PolicyRule {
            name: "backup".into(),
            enabled: true,
            event_type: Some("backup.restic.stale".into()),
            source: None,
            host_id: None,
            state: None,
            severity: None,
            channels: vec!["fake".into()],
        }],
    }
}

fn deliver_due(
    dispatcher: &NotificationDispatcher,
    store: &mut ServerEventStore,
    limit: usize,
    clock: &Clock,
    send: &mut dyn FnMut(&NotificationJob) -> Result<(), SendFailure>,
) -> u32 {
    let mut run = dispatcher.start(limit, copy_clock(clock));
    let mut step = run.next();
    loop {
        step = match step {
            DeliveryStep::Claim => {
                let job = store.claim_notification(clock, dispatcher.max_attempts());
                run.claimed(dispatcher, job)
            }
            DeliveryStep::Send { channel_index: _, job } => {
                let outcome = send(&job);
                run.sent(dispatcher, &job, outcome)
            }
            DeliveryStep::Complete { id } => {
                store.complete_notification(id, clock);
                run.next()
            }
            DeliveryStep::Fail { id, update } => {
                assert!(store.try_fail_notification(id, &update));
                run.next()
            }
            DeliveryStep::Finished { delivered } => return delivered,
        };
    }
}

#[test]
fn dispatcher_retries_and_marks_job_sent() {
    let clock = clock_at(JAN_1_2026);
    let mut store = ServerEventStore::new();
    let e = event();
    store.accept(&policy(), &e, payload(&e), &clock).unwrap();
    let dispatcher = NotificationDispatcher::new(vec!["fake".into()], 3, 0).unwrap();
    let mut calls = 0u32;
    let failures = 1u32;
    let mut fake = |_job: &NotificationJob| {
        let call = calls;
        calls += 1;
        if call < failures {
            Err(SendFailure { message: "temporary channel failure".into(), class: None })
        } else {
            Ok(())
        }
    };
    assert_eq!(deliver_due(&dispatcher, &mut store, 1, &clock, &mut fake), 0);
    assert_eq!(deliver_due(&dispatcher, &mut store, 1, &clock, &mut fake), 1);
    assert_eq!(calls, 2);
    let jobs = store.list_notifications();
    assert_eq!(jobs.len(), 1);
    assert_eq!(jobs[0].status, "sent");
    assert_eq!(jobs[0].attempts, 2);
}

#[test]
fn permanent_failure_stops_retries_and_unknown_channel_fails() {
    let clock = clock_at(JAN_1_2026);
    let mut store = ServerEventStore::new();
    let e = event();
    store.accept(&policy(), &e, payload(&e), &clock).unwrap();
    let dispatcher = NotificationDispatcher::new(vec!["fake".into()], 3, 30).unwrap();
    let mut permanent = |_job: &NotificationJob| {
        Err(SendFailure { message: "bad request".into(), class: Some(NotificationFailure::Permanent("400".into())) })
    };
    assert_eq!(deliver_due(&dispatcher, &mut store, 5, &clock, &mut permanent), 0);
    let jobs = store.list_notifications();
    assert_eq!(jobs[0].status, "failed");
    assert!(!jobs[0].retryable);
    assert_eq!(jobs[0].attempts, 1);
    assert_eq!(jobs[0].last_error.as_deref(), Some("bad request"));

    let mut other = ServerEventStore::new();
    other.accept(&policy(), &e, payload(&e), &clock).unwrap();
    let elsewhere = NotificationDispatcher::new(vec!["telegram".into()], 3, 30).unwrap();
    let mut never = |_job: &NotificationJob| -> Result<(), SendFailure> { panic!("no channel") };
    assert_eq!(deliver_due(&elsewhere, &mut other, 5, &clock, &mut never), 0);
    let jobs = other.list_notifications();
    assert_eq!(jobs[0].status, "failed");
    assert_eq!(jobs[0].last_error.as_deref(), Some("notification channel is not configured"));
    assert!(!jobs[0].retryable);
}

#[test]
fn dispatcher_requires_channels_and_attempts() {
    assert!(matches!(NotificationDispatcher::new(vec![], 3, 0), Err(DispatcherError::NoChannels)));
    assert!(matches!(NotificationDispatcher::new(vec!["a".into()], 0, 0), Err(DispatcherError::ZeroMaxAttempts)));
}

#[test]
fn duplicate_event_does_not_duplicate_notification() {
    let clock = clock_at(JAN_1_2026);
    let mut store = ServerEventStore::new();
    let e = event();
    store.accept(&policy(), &e, payload(&e), &clock).unwrap();
    let again = store.accept(&policy(), &e, payload(&e), &clock).unwrap();
    assert!(again.duplicate);
    assert_eq!(store.list_notifications().len(), 1);
}

#[test]
fn retry_time_uses_exponential_backoff() {
    let now = Timestamp { seconds: JAN_1_2026, nanos: 0 };
    let first = retry_time(&now, 1, 2);
    let second = retry_time(&now, 2, 2);
    assert!(second > first);
    assert_eq!(first, "2026-01-01T00:00:02+00:00");
    assert_eq!(second, "2026-01-01T00:00:04+00:00");
}

#[test]
fn backoff_doubles_up_to_its_cap_and_saturates() {
    assert_eq!(retry_delay_seconds(0, 30), 30);
    assert_eq!(retry_delay_seconds(1, 30), 30);
    assert_eq!(retry_delay_seconds(2, 30), 60);
    assert_eq!(retry_delay_seconds(11, 1), 1024);
    assert_eq!(retry_delay_seconds(50, 1), 1024);
    assert_eq!(retry_delay_seconds(11, u64::MAX / 2), u64::MAX);
    let now = Timestamp { seconds: JAN_1_2026, nanos: 0 };
    assert_eq!(try_retry_time(&now, 11, u64::MAX / 2), Some("2025-12-31T23:59:59+00:00".to_string()));
    assert_eq!(try_retry_time(&now, 1, 10_000_000_000_000_000), None);
}

fn alert_for(event: &Event, status: AlertStatus, severity: Severity, count: i64) -> AlertRecord {
    AlertRecord {
        fingerprint: "media/storage/mount".into(),
        status,
        severity,
        event_type: event.event_type.clone(),
        source: event.source.clone(),
        host_id: event.host_id.clone(),
        opened_at: event.occurred_at.clone(),
        last_seen: event.occurred_at.clone(),
        resolved_at: None,
        event_count: count,
        last_event_id: event.event_id.clone(),
    }
}

#[test]
fn renders_storage_alert_without_internal_event_data() {
    let mut event = event();
    event.event_type = "storage.mount.missing".into();
    event.host_id = "media".into();
    event.facts = vec![
        Fact { key: "mountpoint".into(), value_json: "\"/private/secret\"".into() },
        Fact { key: "token".into(), value_json: "\"must-not-appear\"".into() },
    ];
    let alert = alert_for(&event, AlertStatus::Firing, Severity::Critical, 1);
    let message = render_event(&event, &alert);
    assert_eq!(
        message,
        "🚨 ALERTA ATIVO\nMedia | Infraestrutura\n\nO armazenamento de mídia não está montado.\n\nAção: Verificar o storage da Media.\nSeveridade: CRÍTICA"
    );
    assert!(!message.contains("/private/secret"));
    assert!(!message.contains("must-not-appear"));
    assert!(!message.contains("media/storage/mount"));
}

#[test]
fn renders_storage_recovery_as_normalized() {
    let mut event = event();
    event.event_type = "storage.mount.missing".into();
    event.host_id = "media".into();
    let mut alert = alert_for(&event, AlertStatus::Resolved, Severity::Info, 2);
    alert.resolved_at = Some(event.occurred_at.clone());
    let message = render_event(&event, &alert);
    assert!(message.contains("ALERTA RESOLVIDO"));
    assert!(message.contains("voltou a ficar disponível"));
}

#[test]
fn renders_generic_and_informational_messages() {
    let mut event = event();
    event.event_type = "disk.full".into();
    event.host_id = "unknown-host".into();
    let message = render_event(&event, &alert_for(&event, AlertStatus::Firing, Severity::Warning, 1));
    assert_eq!(
        message,
        "⚠️ ALERTA ATIVO\nInfraestrutura | Infraestrutura\n\nUma condição monitorada requer atenção.\n\nAção: Verificar o monitor correspondente.\nSeveridade: ATENÇÃO"
    );
    event.host_id = "pve".into();
    let message = render_event(&event, &alert_for(&event, AlertStatus::Info, Severity::Info, 1));
    assert!(message.starts_with("ℹ️ INFORMAÇÃO\nPVE | Infraestrutura"));
}

#[test]
fn telegram_config_rejects_invalid_timeout() {
    let config = TelegramConfig { token_file: "token".into(), chat_id: "chat".into(), timeout_seconds: 0 };
    assert!(config.validate().is_err());
    let config = TelegramConfig { token_file: "token".into(), chat_id: "chat".into(), timeout_seconds: 121 };
    assert_eq!(config.validate(), Err(TelegramError::InvalidTimeout));
    let config = TelegramConfig { token_file: "token".into(), chat_id: " ".into(), timeout_seconds: 10 };
    assert_eq!(config.validate(), Err(TelegramError::InvalidChatId));
    let config = TelegramConfig { token_file: "token".into(), chat_id: "chat".into(), timeout_seconds: 120 };
    assert_eq!(config.validate(), Ok(()));
}

#[test]
fn permanent_failures_are_not_retryable() {
    let error = Some(NotificationFailure::Permanent("bad request".into()));
    assert!(!failure_is_retryable(&error));
    let error = Some(NotificationFailure::Temporary("network".into()));
    assert!(failure_is_retryable(&error));
    assert!(failure_is_retryable(&None));
}

#[test]
fn telegram_token_and_endpoint_and_status() {
    assert_eq!(telegram_token("  abc:DEF\n"), Ok("abc:DEF".to_string()));
    assert_eq!(telegram_token(" \n"), Err(TelegramError::InvalidToken));
    assert_eq!(telegram_token("ab c"), Err(TelegramError::InvalidToken));
    assert_eq!(telegram_token(&"x".repeat(513)), Err(TelegramError::InvalidToken));
    assert_eq!(
        telegram_endpoint("https://api.telegram.org", "test-token"),
        "https://api.telegram.org/bottest-token/sendMessage"
    );
    assert_eq!(classify_telegram_status(200), None);
    assert_eq!(classify_telegram_status(429), Some(FailureClass::Temporary));
    assert_eq!(classify_telegram_status(503), Some(FailureClass::Temporary));
    assert_eq!(classify_telegram_status(400), Some(FailureClass::Permanent));
}

#[test]
fn conflicting_payload_is_refused_without_change() {
    let clock = clock_at(JAN_1_2026);
    let mut store = ServerEventStore::new();
    let e = event();
    store.accept(&policy(), &e, payload(&e), &clock).unwrap();
    let mut changed = e.clone();
    changed.facts = vec![Fact { key: "age_hours".into(), value_json: "42".into() }];
    assert_eq!(store.accept(&policy(), &changed, payload(&changed), &clock), Err(AcceptError::Conflict));
    assert_eq!(store.alerts()[0].event_count, 1);
    assert_eq!(store.events().len(), 1);
}

#[test]
fn sent_notification_is_never_claimed_again() {
    let clock = clock_at(JAN_1_2026);
    let mut store = ServerEventStore::new();
    let e = event();
    store.accept(&policy(), &e, payload(&e), &clock).unwrap();
    let job = store.claim_notification(&clock, 3).unwrap();
    let rendered = job.payload.clone();
    store.complete_notification(job.id, &clock);
    let later = clock_at(JAN_1_2026 + 3600);
    assert!(store.claim_notification(&later, 3).is_none());
    let jobs = store.list_notifications();
    assert_eq!(jobs[0].status, "sent");
    assert_eq!(jobs[0].payload, rendered);
    assert_eq!(jobs[0].attempts, 1);
}

#[test]
fn stale_in_flight_claim_is_reclaimed_with_the_same_payload() {
    let clock = clock_at(JAN_1_2026);
    let mut store = ServerEventStore::new();
    let e = event();
    store.accept(&policy(), &e, payload(&e), &clock).unwrap();
    let first = store.claim_notification(&clock, 3).unwrap();
    assert_eq!(first.status, "in_flight");
    let soon = clock_at(JAN_1_2026 + 60);
    assert!(store.claim_notification(&soon, 3).is_none());
    let after_cutoff = clock_at(JAN_1_2026 + 300);
    let again = store.claim_notification(&after_cutoff, 3).unwrap();
    assert_eq!(again.id, first.id);
    assert_eq!(again.attempts, 2);
    assert_eq!(again.payload, first.payload);
    assert_eq!(again.channel, first.channel);
}

#[test]
fn failed_job_is_retried_after_backoff_and_not_beyond_max_attempts() {
    let clock = clock_at(JAN_1_2026);
    let mut store = ServerEventStore::new();
    let e = event();
    store.accept(&policy(), &e, payload(&e), &clock).unwrap();
    let dispatcher = NotificationDispatcher::new(vec!["fake".into()], 2, 30).unwrap();
    let mut temporary = |_job: &NotificationJob| {
        Err(SendFailure { message: "busy".into(), class: Some(NotificationFailure::Temporary("429".into())) })
    };
    assert_eq!(deliver_due(&dispatcher, &mut store, 5, &clock, &mut temporary), 0);
    let jobs = store.list_notifications();
    assert_eq!(jobs[0].attempts, 1);
    assert_eq!(jobs[0].next_attempt_at, "2026-01-01T00:00:30+00:00");
    let early = clock_at(JAN_1_2026 + 29);
    assert_eq!(deliver_due(&dispatcher, &mut store, 5, &early, &mut temporary), 0);
    assert_eq!(store.list_notifications()[0].attempts, 1);
    let due = clock_at(JAN_1_2026 + 30);
    assert_eq!(deliver_due(&dispatcher, &mut store, 5, &due, &mut temporary), 0);
    let jobs = store.list_notifications();
    assert_eq!(jobs[0].attempts, 2);
    let much_later = clock_at(JAN_1_2026 + 86_400);
    assert!(store.claim_notification(&much_later, 2).is_none());
}

#[test]
fn resolution_keeps_event_history_and_other_alerts() {
    let clock = clock_at(JAN_1_2026);
    let mut store = ServerEventStore::new();
    let firing = event();
    store.accept(&policy(), &firing, payload(&firing), &clock).unwrap();
    let mut other = event_with("5b0d3c02-6d3e-4a53-9d1a-2f1d8c2b7a10");
    other.fingerprint = "media/storage".into();
    store.accept(&policy(), &other, payload(&other), &clock).unwrap();
    let before_events = store.events().clone();
    let before_jobs = store.list_notifications();
    let before_other = store.alerts()[1].clone();
    let mut resolved = event_with("0c2f2f7e-3a39-4bde-9c1b-58a8a7e3b0d4");
    resolved.state = EventState::Resolved;
    let result = store.accept(&policy(), &resolved, payload(&resolved), &clock).unwrap();
    assert_eq!(result.alert.status, AlertStatus::Resolved);
    assert_eq!(store.events().len(), 3);
    assert_eq!(&store.events()[..2], &before_events[..]);
    assert_eq!(store.alerts().len(), 2);
    assert_eq!(store.alerts()[1], before_other);
    let jobs = store.list_notifications();
    assert_eq!(&jobs[..2], &before_jobs[..]);
    assert_eq!(jobs.len(), 3);
    assert_eq!(jobs[2].event_id, resolved.event_id);
}

#[test]
fn full_counter_allows_reopening_and_repeats() {
    let clock = clock_at(JAN_1_2026);
    let e = event();
    let mut resolved = alert_for(&e, AlertStatus::Resolved, Severity::Critical, i64::MAX);
    resolved.fingerprint = e.fingerprint.clone();
    let mut store = ServerEventStore::restore(vec![], vec![resolved], vec![], 1, vec![]).unwrap();
    assert!(store.has_count_room(&e));
    let reopened = store.accept(&policy(), &e, payload(&e), &clock).unwrap();
    assert_eq!(reopened.alert.status, AlertStatus::Firing);
    assert_eq!(reopened.alert.event_count, 1);

    let mut firing = alert_for(&e, AlertStatus::Firing, Severity::Critical, i64::MAX);
    firing.fingerprint = e.fingerprint.clone();
    let stored = StoredEvent {
        event_id: e.event_id.clone(),
        payload: payload(&e),
        fingerprint: e.fingerprint.clone(),
        received_at: "2026-01-01T00:00:00+00:00".into(),
    };
    let mut full = ServerEventStore::restore(vec![stored], vec![firing.clone()], vec![], 1, vec![]).unwrap();
    assert!(full.has_count_room(&e));
    let repeat = full.accept(&policy(), &e, payload(&e), &clock).unwrap();
    assert!(repeat.duplicate);
    assert_eq!(repeat.alert, firing);
    let another = event_with("5b0d3c02-6d3e-4a53-9d1a-2f1d8c2b7a10");
    assert!(!full.has_count_room(&another));
}

struct FakeChannel {
    calls: std::cell::Cell<u32>,
    failures: u32,
}

impl NotificationChannel for FakeChannel {
    fn name(&self) -> &str {
        "fake"
    }

    fn send(&self, _job: &NotificationJob) -> Result<(), SendFailure> {
        let call = self.calls.get();
        self.calls.set(call + 1);
        if call < self.failures {
            Err(SendFailure { message: "temporary channel failure".into(), class: None })
        } else {
            Ok(())
        }
    }
}

#[test]
fn dispatcher_names_its_channels_and_sends_through_them() {
    let clock = clock_at(JAN_1_2026);
    let mut store = ServerEventStore::new();
    let e = event();
    store.accept(&policy(), &e, payload(&e), &clock).unwrap();
    let channels = vec![FakeChannel { calls: std::cell::Cell::new(0), failures: 1 }];
    let dispatcher = NotificationDispatcher::with_channels(&channels, 3, 0).unwrap();
    let mut send = |job: &NotificationJob| channels[0].send(job);
    assert_eq!(deliver_due(&dispatcher, &mut store, 1, &clock, &mut send), 0);
    assert_eq!(deliver_due(&dispatcher, &mut store, 1, &clock, &mut send), 1);
    assert_eq!(channels[0].calls.get(), 2);
    assert_eq!(store.list_notifications()[0].status, "sent");
    let none: Vec<FakeChannel> = vec![];
    assert!(matches!(NotificationDispatcher::with_channels(&none, 3, 0), Err(DispatcherError::NoChannels)));
}

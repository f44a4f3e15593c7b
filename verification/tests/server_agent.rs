use beacon_alerts::agent::{
    check_drain_config, check_server_url, enrollment_code, events_to_deliver, read_token,
    server_endpoint, token_file_contents, AgentConfig, AgentError, DrainRun, DrainStep,
};
use beacon_alerts::model::{AlertStatus, Event, EventState, Fact, Severity};
use beacon_alerts::policy::PolicyCatalog;
use beacon_alerts::secrets::{bearer_token, hash_secret, validate_agent_name, AgentNameError};
use beacon_alerts::server::{
    alert_query_status, check_worker_settings, credential_file_name, enrollment_response_status,
    event_response_status, listen_mode, CredentialStore, ListenMode, ServerError,
};
use beacon_alerts::spool::{enqueue_target, is_spool_entry, replay_order_of, spool_file_name, spool_temp_name, SpoolError};
use beacon_alerts::store::{EnrollmentError, ServerEventStore};
use beacon_alerts::time::{Clock, Timestamp};
use std::path::PathBuf;

const JAN_1_2026: i64 = 1_767_225_600;

fn clock_at(seconds: i64) -> Clock {
    Clock::at(Timestamp { seconds, nanos: 0 }).unwrap()
}

fn test_event(state: EventState, event_id: &str) -> Event {
    Event {
        schema_version: 1,
        event_id: event_id.into(),
        event_type: "backup.restic.stale".into(),
        source: "test".into(),
        host_id: "backup".into(),
        state,
        severity: Severity::Critical,
        fingerprint: "backup/restic/age".into(),
        occurred_at: "2026-01-01T00:00:00Z".into(),
        facts: vec![Fact { key: "age_hours".into(), value_json: "41".into() }],
    }
}

const ID_1: &str = "11111111-1111-4111-8111-111111111111";
const ID_2: &str = "22222222-2222-4222-8222-222222222222";
const ID_3: &str = "33333333-3333-4333-8333-333333333333";

fn payload(event: &Event) -> String {
    format!("{event:?}")
}

fn credential_files() -> Vec<String> {
    vec!["test-token\n".into()]
}

fn submit(store: &mut ServerEventStore, files: &[String], header: &str, event: &Event) -> u16 {
    let presented = bearer_token(header);
    let is_authorized = match presented {
        Some(token) => beacon_alerts::secrets::authorized(&files.to_vec(), &token),
        None => false,
    };
    if !is_authorized {
        return event_response_status(false, &Ok(dummy_result()));
    }
    let clock = clock_at(JAN_1_2026);
    let result = store.accept(&PolicyCatalog::default(), event, payload(event), &clock);
    event_response_status(true, &result)
}

fn dummy_result() -> beacon_alerts::store::EventResult {
    let e = test_event(EventState::Info, ID_1);
    beacon_alerts::store::EventResult { duplicate: false, alert: beacon_alerts::lifecycle::transition_alert(None, &e) }
}

#[test]
fn agent_rejects_http_without_explicit_development_flag() {
    let error = check_server_url("http://127.0.0.1:8787", false).unwrap_err();
    assert!(error.message().contains("requires an HTTPS"));
    assert_eq!(check_server_url("http://127.0.0.1:8787", true), Ok(()));
    assert_eq!(check_server_url("https://beacon.example:8787", false), Ok(()));
    assert_eq!(check_server_url("not a url", true), Err(AgentError::InvalidServerUrl));
}

#[test]
fn agent_inputs_are_checked() {
    let config = AgentConfig {
        server: "https://beacon.example".into(),
        spool: PathBuf::from("/tmp/spool"),
        token: " ".into(),
        ca_file: None,
        allow_http: false,
        limit: 10,
        max_attempts: 3,
        retry_delay_seconds: 2,
    };
    assert_eq!(check_drain_config(&config), Err(AgentError::EmptyToken));
    let config = AgentConfig { token: "t".into(), max_attempts: 0, ..config };
    assert_eq!(check_drain_config(&config), Err(AgentError::ZeroMaxAttempts));
    assert_eq!(server_endpoint("https://b.example//", "/v1/events"), "https://b.example/v1/events");
    assert_eq!(enrollment_code(" code \n"), Ok("code".to_string()));
    assert_eq!(enrollment_code(" \n"), Err(AgentError::EmptyCode));
    assert_eq!(read_token("tok\n"), Ok("tok".to_string()));
    assert_eq!(read_token("\n"), Err(AgentError::EmptyTokenFile));
    assert_eq!(token_file_contents("  tok "), "tok\n");
    assert_eq!(events_to_deliver(5, 3), 3);
    assert_eq!(events_to_deliver(2, 3), 2);
}

fn drain_config(limit: usize, max_attempts: usize, retry_delay_seconds: u64) -> AgentConfig {
    AgentConfig {
        server: "https://beacon.example".into(),
        spool: PathBuf::from("/tmp/spool"),
        token: "t".into(),
        ca_file: None,
        allow_http: false,
        limit,
        max_attempts,
        retry_delay_seconds,
    }
}

#[test]
fn delivery_is_attempted_at_most_max_attempts_times() {
    let mut run = DrainRun::start(&drain_config(10, 3, 2), 2).unwrap();
    assert_eq!(run.pending(), DrainStep::Submit { index: 0 });
    assert_eq!(run.submitted(false), DrainStep::Wait { seconds: 2 });
    assert_eq!(run.waited(), DrainStep::Submit { index: 0 });
    assert_eq!(run.submitted(false), DrainStep::Wait { seconds: 2 });
    assert_eq!(run.waited(), DrainStep::Submit { index: 0 });
    assert_eq!(run.submitted(false), DrainStep::GiveUp { index: 0 });
    assert_eq!(run.removed(), DrainStep::GiveUp { index: 0 });
    assert_eq!(run.submitted(true), DrainStep::GiveUp { index: 0 });
    let mut once = DrainRun::start(&drain_config(10, 1, 5), 1).unwrap();
    assert_eq!(once.submitted(false), DrainStep::GiveUp { index: 0 });
}

#[test]
fn drained_event_is_removed_only_after_acceptance() {
    let mut run = DrainRun::start(&drain_config(2, 3, 0), 5).unwrap();
    assert_eq!(run.removed(), DrainStep::Submit { index: 0 });
    assert_eq!(run.submitted(false), DrainStep::Wait { seconds: 0 });
    assert_eq!(run.removed(), DrainStep::Wait { seconds: 0 });
    assert_eq!(run.waited(), DrainStep::Submit { index: 0 });
    assert_eq!(run.submitted(true), DrainStep::Remove { index: 0 });
    assert_eq!(run.removed(), DrainStep::Submit { index: 1 });
    assert_eq!(run.submitted(true), DrainStep::Remove { index: 1 });
    assert_eq!(run.removed(), DrainStep::Finished { delivered: 2 });
    let empty = DrainRun::start(&drain_config(10, 3, 0), 0).unwrap();
    assert_eq!(empty.pending(), DrainStep::Finished { delivered: 0 });
    let refused = DrainRun::start(&drain_config(10, 0, 0), 3);
    assert!(matches!(refused, Err(AgentError::ZeroMaxAttempts)));
}

#[test]
fn firing_is_deduplicated_and_resolved() {
    let mut store = ServerEventStore::new();
    let files = credential_files();
    let firing_one = test_event(EventState::Firing, ID_1);
    let firing_two = test_event(EventState::Firing, ID_2);
    let mut resolved = test_event(EventState::Resolved, ID_3);
    resolved.occurred_at = "2026-01-01T01:00:00Z".into();
    for event in [&firing_one, &firing_two, &resolved] {
        assert_eq!(submit(&mut store, &files, "Bearer test-token", event), 202);
    }
    let alerts = store.list_alerts(Some(AlertStatus::Resolved), 10);
    assert_eq!(alerts.len(), 1);
    assert_eq!(alerts[0].fingerprint, "backup/restic/age");
    assert_eq!(alerts[0].status, AlertStatus::Resolved);
    assert_eq!(alerts[0].event_count, 3);
    assert_eq!(alerts[0].resolved_at.as_deref(), Some("2026-01-01T01:00:00Z"));
}

#[test]
fn duplicate_event_is_idempotent_and_conflicting_payload_is_rejected() {
    let mut store = ServerEventStore::new();
    let files = credential_files();
    let event = test_event(EventState::Firing, ID_1);
    let mut changed = event.clone();
    changed.facts = vec![Fact { key: "age_hours".into(), value_json: "42".into() }];
    assert_eq!(submit(&mut store, &files, "Bearer test-token", &event), 202);
    assert_eq!(submit(&mut store, &files, "Bearer test-token", &event), 202);
    assert_eq!(submit(&mut store, &files, "Bearer test-token", &changed), 409);
    let alerts = store.list_alerts(None, 10);
    assert_eq!(alerts[0].event_count, 1);
}

#[test]
fn alerts_endpoint_requires_auth_and_filters_status() {
    let mut store = ServerEventStore::new();
    let files = credential_files();
    let event = test_event(EventState::Firing, ID_1);
    assert_eq!(submit(&mut store, &files, "Bearer test-token", &event), 202);
    assert_eq!(bearer_token(""), None);
    assert_eq!(bearer_token("Basic abc"), None);
    let status = alert_query_status(&Some("firing".to_string())).unwrap();
    assert_eq!(status, Some(AlertStatus::Firing));
    assert_eq!(store.list_alerts(status, 10).len(), 1);
    assert_eq!(store.list_alerts(Some(AlertStatus::Resolved), 10).len(), 0);
    assert!(alert_query_status(&Some("open".to_string())).is_err());
}

#[test]
fn alert_listing_is_latest_first_and_limited() {
    let mut store = ServerEventStore::new();
    let clock = clock_at(JAN_1_2026);
    let ids = [ID_1, ID_2, ID_3];
    for (i, id) in ids.iter().enumerate() {
        let mut e = test_event(EventState::Firing, id);
        e.fingerprint = format!("fp/{i}");
        e.occurred_at = format!("2026-01-0{}T00:00:00Z", i + 1);
        store.accept(&PolicyCatalog::default(), &e, payload(&e), &clock).unwrap();
    }
    let all = store.list_alerts(None, 0);
    assert_eq!(all.len(), 1);
    assert_eq!(all[0].fingerprint, "fp/2");
    let all = store.list_alerts(None, 10);
    let order: Vec<&str> = all.iter().map(|a| a.fingerprint.as_str()).collect();
    assert_eq!(order, ["fp/2", "fp/1", "fp/0"]);
}

#[test]
fn credentials_can_be_rotated_and_revoked_without_restart() {
    let mut store = ServerEventStore::new();
    let event = test_event(EventState::Firing, ID_1);
    let files = credential_files();
    assert_eq!(submit(&mut store, &files, "Bearer test-token", &event), 202);
    let files: Vec<String> = vec!["rotated-token\n".into()];
    assert_eq!(submit(&mut store, &files, "Bearer test-token", &event), 401);
    assert_eq!(submit(&mut store, &files, "Bearer rotated-token", &test_event(EventState::Info, ID_2)), 202);
    let files: Vec<String> = vec!["\n".into()];
    assert_eq!(submit(&mut store, &files, "Bearer ", &test_event(EventState::Info, ID_3)), 401);
}

#[test]
fn state_survives_store_reopen() {
    let event = test_event(EventState::Firing, ID_1);
    let clock = clock_at(JAN_1_2026);
    let mut store = ServerEventStore::new();
    store.accept(&PolicyCatalog::default(), &event, payload(&event), &clock).unwrap();
    let reopened = ServerEventStore::restore(
        store.events().clone(),
        store.alerts().clone(),
        store.queued_notifications().clone(),
        store.next_notification_id(),
        store.enrollments().clone(),
    )
    .unwrap();
    let alerts = reopened.list_alerts(None, 10);
    assert_eq!(alerts.len(), 1);
    assert_eq!(alerts[0].last_event_id, event.event_id);
    let mut twice = store.events().clone();
    twice.push(store.events()[0].clone());
    assert!(ServerEventStore::restore(twice, vec![], vec![], 1, vec![]).is_none());
}

#[test]
fn enrollment_code_is_single_use_and_creates_credential() {
    let mut store = ServerEventStore::new();
    let now = Timestamp { seconds: JAN_1_2026, nanos: 0 };
    let code = "one-time-code";
    store.add_enrollment("media", code, 900, &now).unwrap();
    let clock = clock_at(JAN_1_2026 + 1);
    let mut credentials: Vec<String> = Vec::new();
    let exists = credentials.contains(&credential_file_name("media"));
    store.consume_enrollment("media", code, exists, &clock).unwrap();
    credentials.push(credential_file_name("media"));
    assert!(credentials.contains(&"media.token".to_string()));
    let exists = credentials.contains(&credential_file_name("media"));
    assert!(store.consume_enrollment("media", code, exists, &clock).is_err());
    assert_eq!(store.consume_enrollment("media", code, false, &clock), Err(EnrollmentError::AlreadyUsed));
    assert_eq!(enrollment_response_status(&Ok(())), 201);
    assert_eq!(enrollment_response_status(&Err(EnrollmentError::AlreadyUsed)), 401);
}

#[test]
fn enrollment_rejects_expired_code_and_invalid_name() {
    let mut store = ServerEventStore::new();
    let now = Timestamp { seconds: JAN_1_2026, nanos: 0 };
    assert_eq!(store.add_enrollment("media", "expired-code", 0, &now), Err(EnrollmentError::InvalidTtl));
    store.add_enrollment("media", "valid-code", 1, &now).unwrap();
    let clock = clock_at(JAN_1_2026);
    assert!(store.consume_enrollment("bad/name", "valid-code", false, &clock).is_err());
    let later = clock_at(JAN_1_2026 + 2);
    assert_eq!(store.consume_enrollment("media", "valid-code", false, &later), Err(EnrollmentError::Expired));
    assert_eq!(store.consume_enrollment("ops", "valid-code", false, &later), Err(EnrollmentError::NameMismatch));
    assert_eq!(store.consume_enrollment("media", "other", false, &later), Err(EnrollmentError::InvalidCode));
    assert_eq!(store.add_enrollment("media", "valid-code", 5, &now), Err(EnrollmentError::DuplicateCode));
}

#[test]
fn agent_names_and_secret_hashes() {
    assert_eq!(validate_agent_name("media-01.a_b"), Ok(()));
    assert_eq!(validate_agent_name(".."), Err(AgentNameError::BadLength));
    assert_eq!(validate_agent_name(""), Err(AgentNameError::BadLength));
    assert_eq!(validate_agent_name(&"a".repeat(65)), Err(AgentNameError::BadLength));
    assert_eq!(validate_agent_name("bad/name"), Err(AgentNameError::BadCharacter));
    assert_eq!(validate_agent_name("mídia"), Err(AgentNameError::BadCharacter));
    assert_eq!(hash_secret(" abc \n"), "ba7816bf8f01cfea414140de5dae2223b00361a396177a9cb410ff61f20015ad");
    assert_eq!(hash_secret("abc"), hash_secret("\tabc"));
}

#[test]
fn server_settings_are_checked() {
    assert!(matches!(listen_mode(None, None, true), Ok(ListenMode::PlainHttp)));
    assert!(matches!(listen_mode(None, None, false), Err(ServerError::TlsRequired)));
    assert!(matches!(listen_mode(Some("c".into()), None, true), Err(ServerError::TlsIncomplete)));
    assert!(matches!(listen_mode(Some("c".into()), Some("k".into()), false), Ok(ListenMode::Tls { .. })));
    assert_eq!(check_worker_settings(0, 1), Err(ServerError::ZeroNotifyInterval));
    assert_eq!(check_worker_settings(1, 0), Err(ServerError::ZeroNotifyLimit));
    assert!(CredentialStore::new(PathBuf::from("/missing"), false).is_err());
    let store = CredentialStore::new(PathBuf::from("/etc/beacon/agents.d"), true).unwrap();
    assert!(store.authorized(&vec![" secret \n".into()], "secret"));
    assert!(!store.authorized(&vec!["secret".into()], "secret2"));
}

#[test]
fn enqueue_and_list_round_trip() {
    let event = test_event(EventState::Firing, ID_1);
    let mut directory: Vec<String> = Vec::new();
    let name = enqueue_target(&event, directory.contains(&spool_file_name(&event.event_id))).unwrap();
    assert_eq!(name, format!("{}.json", event.event_id));
    directory.push(spool_temp_name(&event.event_id));
    directory.push(name.clone());
    let order = replay_order_of(&directory);
    assert_eq!(order.len(), 1);
    assert_eq!(directory[order[0]], name);
    directory.retain(|n| n != &name);
    assert!(replay_order_of(&directory).is_empty());
}

#[test]
fn duplicate_event_id_is_rejected() {
    let event = test_event(EventState::Firing, ID_1);
    let directory = vec![spool_file_name(&event.event_id)];
    let queued = directory.contains(&spool_file_name(&event.event_id));
    assert_eq!(enqueue_target(&event, queued), Err(SpoolError::AlreadyQueued));
}

#[test]
fn spool_writes_and_lists_events() {
    let directory: Vec<String> = vec![
        format!("{ID_2}.json"),
        ".lock".into(),
        format!(".{ID_3}.tmp"),
        format!("{ID_1}.json"),
        ".json".into(),
    ];
    let order = replay_order_of(&directory);
    let names: Vec<&str> = order.iter().map(|&i| directory[i].as_str()).collect();
    assert_eq!(names, [format!("{ID_1}.json"), format!("{ID_2}.json")]);
    assert!(!is_spool_entry(".json"));
    assert!(is_spool_entry("a.json"));
    let mut bad = test_event(EventState::Firing, "not-a-uuid");
    bad.schema_version = 1;
    assert!(matches!(enqueue_target(&bad, false), Err(SpoolError::Invalid(_))));
}

#[test]
fn drain_delivers_event_and_removes_it_after_ack() {
    let event = test_event(EventState::Firing, ID_1);
    let mut pending = vec![spool_file_name(&event.event_id)];
    let queued = replay_order_of(&pending);
    assert_eq!(queued, vec![0]);
    let mut server = ServerEventStore::new();
    let files = vec!["test-token\n".to_string()];
    let config = AgentConfig {
        server: "http://127.0.0.1:8787".into(),
        spool: PathBuf::from("/tmp/spool"),
        token: "test-token".into(),
        ca_file: None,
        allow_http: true,
        limit: 10,
        max_attempts: 1,
        retry_delay_seconds: 0,
    };
    assert_eq!(check_server_url(&config.server, config.allow_http), Ok(()));
    let mut run = DrainRun::start(&config, queued.len()).unwrap();
    let mut step = run.pending();
    let delivered = loop {
        step = match step {
            DrainStep::Submit { index } => {
                assert_eq!(index, 0);
                let status = submit(&mut server, &files, "Bearer test-token", &event);
                run.submitted((200..300).contains(&status))
            }
            DrainStep::Remove { index } => {
                pending.remove(queued[index]);
                run.removed()
            }
            DrainStep::Finished { delivered } => break delivered,
            other => panic!("unexpected step {other:?}"),
        };
    };
    assert_eq!(delivered, 1);
    assert!(pending.is_empty());
    assert_eq!(server.events().len(), 1);
    assert_eq!(server.events()[0].event_id, ID_1);
}

#[test]
fn enrollment_endpoint_consumes_code_and_returns_token() {
    let mut store = ServerEventStore::new();
    let now = Timestamp { seconds: JAN_1_2026, nanos: 0 };
    store.add_enrollment("media", "http-code", 900, &now).unwrap();
    let clock = clock_at(JAN_1_2026 + 1);
    let credentials: Vec<String> = Vec::new();
    let credential = credential_file_name("media");
    let exists = credentials.contains(&credential);
    let result = store.consume_enrollment("media", "http-code", exists, &clock);
    assert_eq!(enrollment_response_status(&result), 201);
    assert_eq!(credential, "media.token");
    assert!(store.enrollments()[0].consumed_at.is_some());
}

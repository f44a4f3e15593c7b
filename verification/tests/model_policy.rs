use beacon_alerts::model::{Event, EventField, EventState, Fact, Severity, ValidationError, AlertStatus};
use beacon_alerts::policy::{PolicyCatalog, PolicyError, PolicyRule, enabled_by_default};

fn test_event() -> Event {
    Event {
        schema_version: 1,
        event_id: "936da01f-9abd-4d9d-80c7-02af85c822a8".into(),
        event_type: "backup.restic.stale".into(),
        source: "test".into(),
        host_id: "backup".into(),
        state: EventState::Firing,
        severity: Severity::Critical,
        fingerprint: "backup/restic/age".into(),
        occurred_at: "2026-01-01T00:00:00Z".into(),
        facts: vec![Fact { key: "age_hours".into(), value_json: "41".into() }],
    }
}

#[test]
fn model_event_round_trips_and_validates() {
    let event = test_event();
    let decoded = event.clone();
    assert_eq!(decoded, event);
    decoded.validate().unwrap();
}

#[test]
fn main_event_round_trips_and_validates() {
    let event = test_event();
    let decoded = event.clone();
    decoded.validate().unwrap();
}

#[test]
fn invalid_schema_identity_and_timestamp_are_rejected() {
    let mut event = test_event();
    event.schema_version = 2;
    assert!(event.validate().is_err());

    let mut event = test_event();
    event.event_id = "../../outside-spool".into();
    assert!(event.validate().is_err());

    let mut event = test_event();
    event.occurred_at = "not-a-timestamp".into();
    assert!(event.validate().is_err());
}

#[test]
fn invalid_schema_is_rejected() {
    let mut event = test_event();
    event.schema_version = 2;
    assert!(event.validate().is_err());
}

#[test]
fn invalid_identity_and_timestamp_are_rejected() {
    let mut event = test_event();
    event.event_id = "../../outside-spool".into();
    assert!(event.validate().is_err());

    let mut event = test_event();
    event.occurred_at = "not-a-timestamp".into();
    assert!(event.validate().is_err());
}

#[test]
fn validation_reports_each_rule() {
    let mut event = test_event();
    event.schema_version = 7;
    assert_eq!(event.validate(), Err(ValidationError::UnsupportedSchemaVersion(7)));

    let mut event = test_event();
    event.event_id = " \t".into();
    assert_eq!(event.validate(), Err(ValidationError::EmptyField(EventField::EventId)));

    let mut event = test_event();
    event.event_id = "../../outside-spool".into();
    assert_eq!(event.validate(), Err(ValidationError::InvalidEventId));

    let mut event = test_event();
    event.source = "x".repeat(129);
    assert_eq!(event.validate(), Err(ValidationError::FieldTooLong(EventField::Source, 128)));

    let mut event = test_event();
    event.fingerprint = "\u{3000}".into();
    assert_eq!(event.validate(), Err(ValidationError::EmptyField(EventField::Fingerprint)));

    let mut event = test_event();
    event.occurred_at = "2026-13-01T00:00:00Z".into();
    assert_eq!(event.validate(), Err(ValidationError::InvalidTimestamp));

    let mut event = test_event();
    event.facts = (0..33).map(|i| Fact { key: format!("k{i:02}"), value_json: "1".into() }).collect();
    assert_eq!(event.validate(), Err(ValidationError::TooManyFacts));

    let mut event = test_event();
    event.facts = vec![Fact { key: "big".into(), value_json: format!("\"{}\"", "a".repeat(4095)) }];
    assert_eq!(event.validate(), Err(ValidationError::FactTooLarge("big".into())));

    let mut event = test_event();
    event.facts = vec![Fact { key: "".into(), value_json: "1".into() }];
    assert_eq!(event.validate(), Err(ValidationError::EmptyField(EventField::FactKey)));
}

#[test]
fn uuid_forms_accepted_by_the_parser_validate() {
    for id in [
        "936da01f9abd4d9d80c702af85c822a8",
        "936DA01F-9ABD-4D9D-80C7-02AF85C822A8",
        "{936da01f-9abd-4d9d-80c7-02af85c822a8}",
        "URN:uuid:936da01f-9abd-4d9d-80c7-02af85c822a8",
    ] {
        let mut event = test_event();
        event.event_id = id.into();
        assert_eq!(event.validate(), Ok(()), "{id}");
    }
    let mut event = test_event();
    event.event_id = "936da01f-9abd-4d9d-80c7-02af85c822ag".into();
    assert_eq!(event.validate(), Err(ValidationError::InvalidEventId));
}

#[test]
fn names_parse_back_and_unknown_names_are_refused() {
    for s in [EventState::Firing, EventState::Resolved, EventState::Info] {
        assert_eq!(EventState::parse(s.as_str()), Ok(s));
    }
    for s in [Severity::Critical, Severity::Warning, Severity::Info] {
        assert_eq!(Severity::parse(s.as_str()), Ok(s));
    }
    for s in [AlertStatus::Firing, AlertStatus::Resolved, AlertStatus::Info] {
        assert_eq!(s.as_str().parse::<AlertStatus>(), Ok(s));
    }
    assert_eq!(EventState::parse("FIRING"), Err("invalid event state: FIRING".to_string()));
    assert_eq!(Severity::parse("fatal"), Err("invalid severity: fatal".to_string()));
}

fn event() -> Event {
    Event {
        schema_version: 1,
        event_id: "936da01f-9abd-4d9d-80c7-02af85c822a8".into(),
        event_type: "backup.restic.stale".into(),
        source: "restic-age-check".into(),
        host_id: "backup".into(),
        state: EventState::Firing,
        severity: Severity::Critical,
        fingerprint: "backup/restic/age".into(),
        occurred_at: "2026-01-01T00:00:00Z".into(),
        facts: vec![],
    }
}

fn rule(name: &str, host: Option<&str>, channels: &[&str]) -> PolicyRule {
    PolicyRule {
        name: name.into(),
        enabled: true,
        event_type: None,
        source: None,
        host_id: host.map(|h| h.into()),
        state: None,
        severity: None,
        channels: channels.iter().map(|c| c.to_string()).collect(),
    }
}

#[test]
fn matching_rules_are_combined_without_duplicate_channels() {
    let catalog = PolicyCatalog {
        rules: vec![
            PolicyRule {
                name: "critical-backup".into(),
                enabled: true,
                event_type: Some("backup.restic.stale".into()),
                source: None,
                host_id: Some("backup".into()),
                state: Some(EventState::Firing),
                severity: Some(Severity::Critical),
                channels: vec!["telegram".into(), "audit".into()],
            },
            PolicyRule {
                name: "all-backup".into(),
                enabled: true,
                event_type: None,
                source: None,
                host_id: Some("backup".into()),
                state: None,
                severity: None,
                channels: vec!["telegram".into()],
            },
        ],
    };
    assert_eq!(catalog.channels_for(&event()), ["telegram", "audit"]);
}

#[test]
fn disabled_and_unmatched_rules_route_nothing() {
    let mut disabled = rule("off", None, &["pager"]);
    disabled.enabled = false;
    let catalog = PolicyCatalog { rules: vec![disabled, rule("media", Some("media"), &["telegram"])] };
    assert!(catalog.channels_for(&event()).is_empty());
    assert!(PolicyCatalog::default().channels_for(&event()).is_empty());
    assert!(enabled_by_default());
}

#[test]
fn policy_limits_are_enforced() {
    assert_eq!(PolicyCatalog::default().validate(), Ok(()));
    let catalog = PolicyCatalog { rules: vec![rule(" ", None, &["a"])] };
    assert_eq!(catalog.validate(), Err(PolicyError::InvalidName));
    let catalog = PolicyCatalog { rules: vec![rule("r", None, &[])] };
    assert_eq!(catalog.validate(), Err(PolicyError::InvalidChannelCount("r".into())));
    let many: Vec<&str> = vec!["c"; 17];
    let catalog = PolicyCatalog { rules: vec![rule("r", None, &many)] };
    assert_eq!(catalog.validate(), Err(PolicyError::InvalidChannelCount("r".into())));
    let long = "x".repeat(65);
    let catalog = PolicyCatalog { rules: vec![rule("r", None, &[long.as_str()])] };
    assert_eq!(catalog.validate(), Err(PolicyError::InvalidChannel));
    let catalog = PolicyCatalog { rules: (0..257).map(|_| rule("r", None, &["a"])).collect() };
    assert_eq!(catalog.validate(), Err(PolicyError::TooManyRules));
}

//! The event protocol: event states, severities, alert states, the normalized
//! event and its validation rules.
use vstd::prelude::*;
use vstd::string::*;
use crate::text::{byte_len, is_blank, join2, text_byte_len, text_eq, text_is_blank};
use crate::time::rfc3339_instant;
use crate::time::parse_rfc3339;

verus! {

/// What an event reports about its condition.
#[derive(Clone, Copy, Debug, PartialEq, Eq, Structural)]
pub enum EventState {
    Firing,
    Resolved,
    Info,
}

/// How urgent an event is.
#[derive(Clone, Copy, Debug, PartialEq, Eq, Structural)]
pub enum Severity {
    Critical,
    Warning,
    Info,
}

/// The lifecycle state of an alert.
#[derive(Clone, Copy, Debug, PartialEq, Eq, Structural)]
pub enum AlertStatus {
    Firing,
    Resolved,
    Info,
}

impl EventState {
    /// The wire name of the state.
    pub open spec fn name(self) -> Seq<char> {
        match self {
            EventState::Firing => "firing"@,
            EventState::Resolved => "resolved"@,
            EventState::Info => "info"@,
        }
    }

    pub fn as_str(&self) -> (r: &'static str)
        ensures
            r@ == self.name(),
    {
        match self {
            EventState::Firing => "firing",
            EventState::Resolved => "resolved",
            EventState::Info => "info",
        }
    }

    /// Reads a state from its wire name.
    pub fn parse(value: &str) -> (r: Result<EventState, String>)
        ensures
            match r {
                Ok(s) => s.name() == value@,
                Err(message) => (forall|s: EventState| #[trigger] s.name() != value@)
                    && message@ == "invalid event state: "@ + value@,
            },
    {
        if text_eq(value, "firing") {
            Ok(EventState::Firing)
        } else if text_eq(value, "resolved") {
            Ok(EventState::Resolved)
        } else if text_eq(value, "info") {
            Ok(EventState::Info)
        } else {
            proof {
                assert forall|s: EventState| #[trigger] s.name() != value@ by {
                    match s {
                        EventState::Firing => {},
                        EventState::Resolved => {},
                        EventState::Info => {},
                    }
                }
            }
            Err(join2("invalid event state: ", value))
        }
    }
}

impl std::str::FromStr for EventState {
    type Err = String;

    fn from_str(value: &str) -> (r: Result<Self, Self::Err>)
        ensures
            match r {
                Ok(s) => s.name() == value@,
                Err(message) => (forall|s: EventState| #[trigger] s.name() != value@)
                    && message@ == "invalid event state: "@ + value@,
            },
    {
        EventState::parse(value)
    }
}

impl Severity {
    /// The wire name of the severity.
    pub open spec fn name(self) -> Seq<char> {
        match self {
            Severity::Critical => "critical"@,
            Severity::Warning => "warning"@,
            Severity::Info => "info"@,
        }
    }

    pub fn as_str(&self) -> (r: &'static str)
        ensures
            r@ == self.name(),
    {
        match self {
            Severity::Critical => "critical",
            Severity::Warning => "warning",
            Severity::Info => "info",
        }
    }

    /// Reads a severity from its wire name.
    pub fn parse(value: &str) -> (r: Result<Severity, String>)
        ensures
            match r {
                Ok(s) => s.name() == value@,
                Err(message) => (forall|s: Severity| #[trigger] s.name() != value@)
                    && message@ == "invalid severity: "@ + value@,
            },
    {
        if text_eq(value, "critical") {
            Ok(Severity::Critical)
        } else if text_eq(value, "warning") {
            Ok(Severity::Warning)
        } else if text_eq(value, "info") {
            Ok(Severity::Info)
        } else {
            proof {
                assert forall|s: Severity| #[trigger] s.name() != value@ by {
                    match s {
                        Severity::Critical => {},
                        Severity::Warning => {},
                        Severity::Info => {},
                    }
                }
            }
            Err(join2("invalid severity: ", value))
        }
    }
}

impl std::str::FromStr for Severity {
    type Err = String;

    fn from_str(value: &str) -> (r: Result<Self, Self::Err>)
        ensures
            match r {
                Ok(s) => s.name() == value@,
                Err(message) => (forall|s: Severity| #[trigger] s.name() != value@)
                    && message@ == "invalid severity: "@ + value@,
            },
    {
        Severity::parse(value)
    }
}

impl AlertStatus {
    /// The stored name of the alert status.
    pub open spec fn name(self) -> Seq<char> {
        match self {
            AlertStatus::Firing => "firing"@,
            AlertStatus::Resolved => "resolved"@,
            AlertStatus::Info => "info"@,
        }
    }

    pub fn as_str(&self) -> (r: &'static str)
        ensures
            r@ == self.name(),
    {
        match self {
            AlertStatus::Firing => "firing",
            AlertStatus::Resolved => "resolved",
            AlertStatus::Info => "info",
        }
    }

    /// Reads an alert status from its stored name.
    pub fn parse(value: &str) -> (r: Result<AlertStatus, String>)
        ensures
            match r {
                Ok(s) => s.name() == value@,
                Err(message) => (forall|s: AlertStatus| #[trigger] s.name() != value@)
                    && message@ == "invalid alert status: "@ + value@,
            },
    {
        if text_eq(value, "firing") {
            Ok(AlertStatus::Firing)
        } else if text_eq(value, "resolved") {
            Ok(AlertStatus::Resolved)
        } else if text_eq(value, "info") {
            Ok(AlertStatus::Info)
        } else {
            proof {
                assert forall|s: AlertStatus| #[trigger] s.name() != value@ by {
                    match s {
                        AlertStatus::Firing => {},
                        AlertStatus::Resolved => {},
                        AlertStatus::Info => {},
                    }
                }
            }
            Err(join2("invalid alert status: ", value))
        }
    }
}

impl std::str::FromStr for AlertStatus {
    type Err = String;

    fn from_str(value: &str) -> (r: Result<Self, Self::Err>)
        ensures
            match r {
                Ok(s) => s.name() == value@,
                Err(message) => (forall|s: AlertStatus| #[trigger] s.name() != value@)
                    && message@ == "invalid alert status: "@ + value@,
            },
    {
        AlertStatus::parse(value)
    }
}

/// One fact of an event: its key and the compact JSON encoding of its value.
#[derive(Clone, Debug, PartialEq, Eq)]
pub struct Fact {
    pub key: String,
    pub value_json: String,
}

/// A normalized event as detectors emit it. Its facts come from the event's
/// JSON object of facts, one per key; validation limits their number, key
/// length and value size.
#[derive(Clone, Debug, PartialEq)]
pub struct Event {
    pub schema_version: u16,
    pub event_id: String,
    pub event_type: String,
    pub source: String,
    pub host_id: String,
    pub state: EventState,
    pub severity: Severity,
    pub fingerprint: String,
    pub occurred_at: String,
    pub facts: Vec<Fact>,
}

/// The persisted lifecycle of one alert, keyed by its fingerprint.
#[derive(Clone, Debug, PartialEq)]
pub struct AlertRecord {
    pub fingerprint: String,
    pub status: AlertStatus,
    pub severity: Severity,
    pub event_type: String,
    pub source: String,
    pub host_id: String,
    pub opened_at: String,
    pub last_seen: String,
    pub resolved_at: Option<String>,
    pub event_count: i64,
    pub last_event_id: String,
}

/// A copy of an optional text.
pub fn copy_opt_text(o: &Option<String>) -> (r: Option<String>)
    ensures
        r == *o,
{
    match o {
        Some(s) => Some(s.clone()),
        None => None,
    }
}

impl AlertRecord {
    /// A field-for-field copy of the record.
    pub fn duplicate(&self) -> (r: AlertRecord)
        ensures
            r == *self,
    {
        AlertRecord {
            fingerprint: self.fingerprint.clone(),
            status: self.status,
            severity: self.severity,
            event_type: self.event_type.clone(),
            source: self.source.clone(),
            host_id: self.host_id.clone(),
            opened_at: self.opened_at.clone(),
            last_seen: self.last_seen.clone(),
            resolved_at: copy_opt_text(&self.resolved_at),
            event_count: self.event_count,
            last_event_id: self.last_event_id.clone(),
        }
    }
}

/// The event field that a validation error is about.
#[derive(Clone, Copy, Debug, PartialEq, Eq, Structural)]
pub enum EventField {
    EventId,
    EventType,
    Source,
    HostId,
    Fingerprint,
    OccurredAt,
    FactKey,
}

/// Why an event is refused.
#[derive(Clone, Debug, PartialEq, Eq)]
pub enum ValidationError {
    UnsupportedSchemaVersion(u16),
    EmptyField(EventField),
    FieldTooLong(EventField, usize),
    InvalidEventId,
    InvalidTimestamp,
    TooManyFacts,
    FactTooLarge(String),
}

/// The supported event schema version.
pub const SCHEMA_VERSION: u16 = 1;

/// Most facts an event may carry.
pub const MAX_FACTS: usize = 32;

/// Largest encoded fact value, in bytes.
pub const MAX_FACT_VALUE_BYTES: usize = 4096;

/// A hexadecimal digit byte.
pub open spec fn is_hex_byte(b: u8) -> bool {
    ||| 0x30 <= b <= 0x39
    ||| 0x41 <= b <= 0x46
    ||| 0x61 <= b <= 0x66
}

/// Bytes of a hyphenated UUID: 36 bytes, hyphens at 8, 13, 18 and 23, hex digits elsewhere.
pub open spec fn is_hyphenated_uuid(s: Seq<u8>) -> bool {
    &&& s.len() == 36
    &&& forall|i: int|
        0 <= i < 36 ==> if i == 8 || i == 13 || i == 18 || i == 23 {
            s[i] == 0x2d
        } else {
            is_hex_byte(#[trigger] s[i])
        }
}

/// ASCII lower-casing of one byte.
pub open spec fn ascii_lower(b: u8) -> u8 {
    if 0x41 <= b <= 0x5a {
        (b + 0x20) as u8
    } else {
        b
    }
}

/// The bytes of `urn:uuid:`.
pub open spec fn urn_prefix() -> Seq<u8> {
    seq![0x75u8, 0x72, 0x6e, 0x3a, 0x75, 0x75, 0x69, 0x64, 0x3a]
}

/// The texts that `uuid::Uuid::parse_str` accepts, over their UTF-8 bytes: 32 hex
/// digits, a hyphenated UUID, a hyphenated UUID in braces, or a hyphenated UUID
/// after a case-insensitive `urn:uuid:`.
pub open spec fn uuid_text_ok(s: Seq<u8>) -> bool {
    ||| s.len() == 32 && forall|i: int| 0 <= i < 32 ==> is_hex_byte(#[trigger] s[i])
    ||| is_hyphenated_uuid(s)
    ||| s.len() == 38 && s[0] == 0x7b && s[37] == 0x7d && is_hyphenated_uuid(s.subrange(1, 37))
    ||| s.len() == 45 && (forall|i: int|
        0 <= i < 9 ==> ascii_lower(#[trigger] s[i]) == urn_prefix()[i]) && is_hyphenated_uuid(
        s.subrange(9, 45),
    )
}

/// Calls `uuid::Uuid::parse_str`. The contract claims that it succeeds exactly on
/// the texts that `uuid_text_ok` describes, as the parser of uuid 1.29 shows
/// (`try_parse`, `parse_simple`, `parse_hyphenated`, `decode_hex32`).
#[verifier::external_body]
fn uuid_parses(text: &str) -> (r: bool)
    ensures
        r == uuid_text_ok(text.spec_bytes()),
{
    uuid::Uuid::parse_str(text).is_ok()
}

/// The problem, if any, with one required text field of at most `max` bytes.
pub open spec fn field_issue(field: EventField, value: Seq<char>, max: nat) -> Option<
    ValidationError,
> {
    if is_blank(value) {
        Some(ValidationError::EmptyField(field))
    } else if byte_len(value) > max {
        Some(ValidationError::FieldTooLong(field, max as usize))
    } else {
        None
    }
}

/// The problem, if any, with one fact.
pub open spec fn fact_issue(fact: Fact) -> Option<ValidationError> {
    match field_issue(EventField::FactKey, fact.key@, 64) {
        Some(e) => Some(e),
        None => if byte_len(fact.value_json@) > MAX_FACT_VALUE_BYTES {
            Some(ValidationError::FactTooLarge(fact.key))
        } else {
            None
        },
    }
}

/// The problem of the first fact, in order, that has one.
pub open spec fn facts_issue(facts: Seq<Fact>) -> Option<ValidationError>
    decreases facts.len(),
{
    if facts.len() == 0 {
        None
    } else {
        match fact_issue(facts[0]) {
            Some(e) => Some(e),
            None => facts_issue(facts.drop_first()),
        }
    }
}

/// The first problem, in the order the rules are checked, that an event has.
pub open spec fn event_issue(e: Event) -> Option<ValidationError> {
    if e.schema_version != SCHEMA_VERSION {
        Some(ValidationError::UnsupportedSchemaVersion(e.schema_version))
    } else if field_issue(EventField::EventId, e.event_id@, 128) is Some {
        field_issue(EventField::EventId, e.event_id@, 128)
    } else if !uuid_text_ok(vstd::utf8::encode_utf8(e.event_id@)) {
        Some(ValidationError::InvalidEventId)
    } else if field_issue(EventField::EventType, e.event_type@, 128) is Some {
        field_issue(EventField::EventType, e.event_type@, 128)
    } else if field_issue(EventField::Source, e.source@, 128) is Some {
        field_issue(EventField::Source, e.source@, 128)
    } else if field_issue(EventField::HostId, e.host_id@, 128) is Some {
        field_issue(EventField::HostId, e.host_id@, 128)
    } else if field_issue(EventField::Fingerprint, e.fingerprint@, 256) is Some {
        field_issue(EventField::Fingerprint, e.fingerprint@, 256)
    } else if field_issue(EventField::OccurredAt, e.occurred_at@, 64) is Some {
        field_issue(EventField::OccurredAt, e.occurred_at@, 64)
    } else if rfc3339_instant(e.occurred_at@) is None {
        Some(ValidationError::InvalidTimestamp)
    } else if e.facts@.len() > MAX_FACTS {
        Some(ValidationError::TooManyFacts)
    } else {
        facts_issue(e.facts@)
    }
}

proof fn lemma_facts_issue_skip(facts: Seq<Fact>, i: int)
    requires
        0 <= i <= facts.len(),
        forall|k: int| 0 <= k < i ==> #[trigger] fact_issue(facts[k]) is None,
    ensures
        facts_issue(facts) == facts_issue(facts.skip(i)),
    decreases i,
{
    if i > 0 {
        let t = facts.drop_first();
        assert forall|k: int| 0 <= k < i - 1 implies #[trigger] fact_issue(t[k]) is None by {
            assert(t[k] == facts[k + 1]);
        }
        lemma_facts_issue_skip(t, i - 1);
        assert(t.skip(i - 1) =~= facts.skip(i));
    } else {
        assert(facts.skip(0) =~= facts);
    }
}

/// Checks one required text field of at most `max` bytes.
fn check_field(field: EventField, value: &str, max: usize) -> (r: Result<(), ValidationError>)
    ensures
        r == match field_issue(field, value@, max as nat) {
            Some(e) => Err(e),
            None => Ok(()),
        },
{
    if text_is_blank(value) {
        Err(ValidationError::EmptyField(field))
    } else if text_byte_len(value) > max {
        Err(ValidationError::FieldTooLong(field, max))
    } else {
        Ok(())
    }
}

impl Event {
    /// Checks the event against the protocol rules and reports the first rule
    /// it breaks.
    pub fn validate(&self) -> (r: Result<(), ValidationError>)
        ensures
            r == match event_issue(*self) {
                Some(e) => Err(e),
                None => Ok(()),
            },
    {
        if self.schema_version != SCHEMA_VERSION {
            return Err(ValidationError::UnsupportedSchemaVersion(self.schema_version));
        }
        check_field(EventField::EventId, self.event_id.as_str(), 128)?;
        if !uuid_parses(self.event_id.as_str()) {
            return Err(ValidationError::InvalidEventId);
        }
        check_field(EventField::EventType, self.event_type.as_str(), 128)?;
        check_field(EventField::Source, self.source.as_str(), 128)?;
        check_field(EventField::HostId, self.host_id.as_str(), 128)?;
        check_field(EventField::Fingerprint, self.fingerprint.as_str(), 256)?;
        check_field(EventField::OccurredAt, self.occurred_at.as_str(), 64)?;
        if parse_rfc3339(self.occurred_at.as_str()).is_none() {
            return Err(ValidationError::InvalidTimestamp);
        }
        if self.facts.len() > MAX_FACTS {
            return Err(ValidationError::TooManyFacts);
        }
        let n = self.facts.len();
        assert(event_issue(*self) == facts_issue(self.facts@));
        for i in 0..n
            invariant
                n == self.facts@.len(),
                event_issue(*self) == facts_issue(self.facts@),
                forall|k: int| 0 <= k < i ==> #[trigger] fact_issue(self.facts@[k]) is None,
        {
            let fact = &self.facts[i];
            proof {
                lemma_facts_issue_skip(self.facts@, i as int);
                assert(self.facts@.skip(i as int)[0] == self.facts@[i as int]);
            }
            check_field(EventField::FactKey, fact.key.as_str(), 64)?;
            if text_byte_len(fact.value_json.as_str()) > MAX_FACT_VALUE_BYTES {
                return Err(ValidationError::FactTooLarge(fact.key.clone()));
            }
        }
        proof {
            lemma_facts_issue_skip(self.facts@, n as int);
        }
        Ok(())
    }
}

} // verus!

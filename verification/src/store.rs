//! The server's event store: accepted events, alert state, the notification
//! queue and enrollment codes, with the rules of each transaction.
use vstd::prelude::*;
use crate::lifecycle::{
    count_can_grow, law_event_count, next_alert, notifies, should_notify, transition_alert,
};
use crate::model::{copy_opt_text, event_issue, AlertRecord, AlertStatus, Event, EventState, ValidationError};
use crate::notification::{
    render_event, rendered_message, retry_time, retry_time_defined, retry_time_text, try_retry_time,
};
use crate::policy::{routed_channels, texts, PolicyCatalog};
use crate::text::{lemma_text_le_total, lemma_text_le_transitive, text_at_or_before, text_eq, text_le};
use crate::secrets::{agent_name_issue, hash_secret, secret_hash, validate_agent_name, AgentNameError};
use crate::text::{is_blank, text_is_blank};
use crate::time::{format_rfc3339, four_digit_year, parse_rfc3339, rfc3339_instant, utc_rfc3339_text, Clock, Timestamp};

verus! {

/// An accepted event as stored: its id, its canonical JSON payload, its
/// fingerprint and the time it was received.
#[derive(Clone, Debug, PartialEq, Eq)]
pub struct StoredEvent {
    pub event_id: String,
    pub payload: String,
    pub fingerprint: String,
    pub received_at: String,
}

/// One queued notification: a message for one channel about one event.
#[derive(Clone, Debug, PartialEq, Eq)]
pub struct NotificationJob {
    pub id: i64,
    pub event_id: String,
    pub fingerprint: String,
    pub channel: String,
    pub payload: String,
    pub status: String,
    pub attempts: u32,
    pub next_attempt_at: String,
    pub last_error: Option<String>,
    pub retryable: bool,
    pub sent_at: Option<String>,
}

/// A queued notification together with the time it was last claimed.
#[derive(Clone, Debug, PartialEq, Eq)]
pub struct QueuedNotification {
    pub job: NotificationJob,
    pub claimed_at: Option<String>,
}

/// A one-time enrollment code, kept as the hash of the code.
#[derive(Clone, Debug, PartialEq, Eq)]
pub struct Enrollment {
    pub code_hash: String,
    pub name: String,
    pub expires_at: String,
    pub consumed_at: Option<String>,
}

/// The text of an optional string.
pub open spec fn opt_text(o: Option<String>) -> Option<Seq<char>> {
    match o {
        Some(s) => Some(s@),
        None => None,
    }
}

/// The content of a queued notification.
pub struct JobRow {
    pub id: int,
    pub event_id: Seq<char>,
    pub fingerprint: Seq<char>,
    pub channel: Seq<char>,
    pub payload: Seq<char>,
    pub status: Seq<char>,
    pub attempts: int,
    pub next_attempt_at: Seq<char>,
    pub last_error: Option<Seq<char>>,
    pub retryable: bool,
    pub sent_at: Option<Seq<char>>,
    pub claimed_at: Option<Seq<char>>,
}

/// The content of an enrollment.
pub struct EnrollmentRow {
    pub code_hash: Seq<char>,
    pub name: Seq<char>,
    pub expires_at: Seq<char>,
    pub consumed_at: Option<Seq<char>>,
}

impl NotificationJob {
    /// The row of this job with the given claim time.
    pub open spec fn row(self, claimed_at: Option<Seq<char>>) -> JobRow {
        JobRow {
            id: self.id as int,
            event_id: self.event_id@,
            fingerprint: self.fingerprint@,
            channel: self.channel@,
            payload: self.payload@,
            status: self.status@,
            attempts: self.attempts as int,
            next_attempt_at: self.next_attempt_at@,
            last_error: opt_text(self.last_error),
            retryable: self.retryable,
            sent_at: opt_text(self.sent_at),
            claimed_at,
        }
    }
}

impl QueuedNotification {
    pub open spec fn row(self) -> JobRow {
        self.job.row(opt_text(self.claimed_at))
    }
}

impl Enrollment {
    pub open spec fn row(self) -> EnrollmentRow {
        EnrollmentRow {
            code_hash: self.code_hash@,
            name: self.name@,
            expires_at: self.expires_at@,
            consumed_at: opt_text(self.consumed_at),
        }
    }
}

/// The whole content of the store.
pub struct StoreState {
    pub events: Seq<StoredEvent>,
    pub alerts: Seq<AlertRecord>,
    pub jobs: Seq<JobRow>,
    pub next_id: int,
    pub enrollments: Seq<EnrollmentRow>,
}

/// Some stored event has this id.
pub open spec fn has_event(events: Seq<StoredEvent>, id: Seq<char>) -> bool {
    exists|i: int| 0 <= i < events.len() && #[trigger] events[i].event_id@ == id
}

/// The position of the stored event with this id.
pub open spec fn event_pos(events: Seq<StoredEvent>, id: Seq<char>) -> int {
    choose|i: int| 0 <= i < events.len() && #[trigger] events[i].event_id@ == id
}

/// Some alert has this fingerprint.
pub open spec fn has_alert(alerts: Seq<AlertRecord>, fingerprint: Seq<char>) -> bool {
    exists|i: int| 0 <= i < alerts.len() && #[trigger] alerts[i].fingerprint@ == fingerprint
}

/// The position of the alert with this fingerprint.
pub open spec fn alert_pos(alerts: Seq<AlertRecord>, fingerprint: Seq<char>) -> int {
    choose|i: int| 0 <= i < alerts.len() && #[trigger] alerts[i].fingerprint@ == fingerprint
}

/// The alert of a fingerprint, if there is one.
pub open spec fn find_alert(alerts: Seq<AlertRecord>, fingerprint: Seq<char>) -> Option<
    AlertRecord,
> {
    if has_alert(alerts, fingerprint) {
        Some(alerts[alert_pos(alerts, fingerprint)])
    } else {
        None
    }
}

/// Replaces the alert of the same fingerprint, or adds the alert.
pub open spec fn upsert_alert(alerts: Seq<AlertRecord>, alert: AlertRecord) -> Seq<AlertRecord> {
    if has_alert(alerts, alert.fingerprint@) {
        alerts.update(alert_pos(alerts, alert.fingerprint@), alert)
    } else {
        alerts.push(alert)
    }
}

/// Some queued notification is about this event and channel.
pub open spec fn has_job(jobs: Seq<JobRow>, event_id: Seq<char>, channel: Seq<char>) -> bool {
    exists|i: int|
        0 <= i < jobs.len() && #[trigger] jobs[i].event_id == event_id && jobs[i].channel
            == channel
}

/// A new pending notification.
pub open spec fn pending_job(
    id: int,
    event_id: Seq<char>,
    fingerprint: Seq<char>,
    channel: Seq<char>,
    payload: Seq<char>,
    now: Seq<char>,
) -> JobRow {
    JobRow {
        id,
        event_id,
        fingerprint,
        channel,
        payload,
        status: "pending"@,
        attempts: 0,
        next_attempt_at: now,
        last_error: None,
        retryable: true,
        sent_at: None,
        claimed_at: None,
    }
}

/// Queues a notification for each channel in order, skipping an event and
/// channel pair that is already queued; ids are handed out in order.
pub open spec fn enqueue_jobs(
    jobs: Seq<JobRow>,
    next_id: int,
    event_id: Seq<char>,
    fingerprint: Seq<char>,
    channels: Seq<Seq<char>>,
    payload: Seq<char>,
    now: Seq<char>,
) -> (Seq<JobRow>, int)
    decreases channels.len(),
{
    if channels.len() == 0 {
        (jobs, next_id)
    } else {
        let prev = enqueue_jobs(
            jobs,
            next_id,
            event_id,
            fingerprint,
            channels.drop_last(),
            payload,
            now,
        );
        if has_job(prev.0, event_id, channels.last()) {
            prev
        } else {
            (
                prev.0.push(
                    pending_job(prev.1, event_id, fingerprint, channels.last(), payload, now),
                ),
                prev.1 + 1,
            )
        }
    }
}

/// The outcome of accepting an event.
#[derive(Clone, Debug, PartialEq)]
pub struct EventResult {
    pub duplicate: bool,
    pub alert: AlertRecord,
}

/// Why an event is not accepted.
#[derive(Clone, Debug, PartialEq, Eq)]
pub enum AcceptError {
    Invalid(ValidationError),
    Conflict,
    MissingAlertState,
    QueueFull,
}

impl StoreState {
    /// The store's invariant: ids and keys are unique, notification ids rise
    /// in queue order below the next id, every notification is about a stored
    /// event, and every alert has counted at least one event.
    pub open spec fn inv(self) -> bool {
        &&& forall|i: int, j: int|
            0 <= i < j < self.events.len() ==> #[trigger] self.events[i].event_id@
                != #[trigger] self.events[j].event_id@
        &&& forall|i: int, j: int|
            0 <= i < j < self.alerts.len() ==> #[trigger] self.alerts[i].fingerprint@
                != #[trigger] self.alerts[j].fingerprint@
        &&& forall|i: int| 0 <= i < self.alerts.len() ==> #[trigger] self.alerts[i].event_count >= 1
        &&& forall|i: int, j: int|
            0 <= i < j < self.jobs.len() ==> #[trigger] self.jobs[i].id < #[trigger] self.jobs[j].id
        &&& forall|i: int|
            0 <= i < self.jobs.len() ==> 1 <= #[trigger] self.jobs[i].id < self.next_id
        &&& 1 <= self.next_id <= i64::MAX + 1
        &&& forall|i: int, j: int|
            0 <= i < j < self.jobs.len() ==> !(#[trigger] self.jobs[i].event_id
                == #[trigger] self.jobs[j].event_id && self.jobs[i].channel
                == self.jobs[j].channel)
        &&& forall|i: int|
            0 <= i < self.jobs.len() ==> has_event(self.events, #[trigger] self.jobs[i].event_id)
        &&& forall|i: int, j: int|
            0 <= i < j < self.enrollments.len() ==> #[trigger] self.enrollments[i].code_hash
                != #[trigger] self.enrollments[j].code_hash
    }

    /// Accepting the event cannot overflow an alert's event count: only a new
    /// valid event moves an alert, and its count must be able to take it.
    pub open spec fn has_count_room(self, event: Event) -> bool {
        event_issue(event) is None && !has_event(self.events, event.event_id@) ==> count_can_grow(
            find_alert(self.alerts, event.fingerprint@),
            event,
        )
    }

    /// Accepting an event: invalid events and conflicting payloads are refused;
    /// a repeated event with the same payload changes nothing and reports the
    /// alert of its fingerprint; a new event is stored, moves its alert, and,
    /// when it is worth a notification, queues one per routed channel.
    pub open spec fn accept(
        self,
        policy: PolicyCatalog,
        event: Event,
        payload: String,
        now: String,
    ) -> (StoreState, Result<EventResult, AcceptError>) {
        if event_issue(event) is Some {
            (self, Err(AcceptError::Invalid(event_issue(event)->0)))
        } else if has_event(self.events, event.event_id@) {
            if self.events[event_pos(self.events, event.event_id@)].payload@ != payload@ {
                (self, Err(AcceptError::Conflict))
            } else {
                match find_alert(self.alerts, event.fingerprint@) {
                    None => (self, Err(AcceptError::MissingAlertState)),
                    Some(a) => (self, Ok(EventResult { duplicate: true, alert: a })),
                }
            }
        } else {
            let alert = next_alert(find_alert(self.alerts, event.fingerprint@), event);
            let channels = routed_channels(policy.rules@, event);
            if notifies(event, alert) && self.next_id + channels.len() > i64::MAX + 1 {
                (self, Err(AcceptError::QueueFull))
            } else {
                let stored = StoredEvent {
                    event_id: event.event_id,
                    payload,
                    fingerprint: event.fingerprint,
                    received_at: now,
                };
                let queued = if notifies(event, alert) {
                    enqueue_jobs(
                        self.jobs,
                        self.next_id,
                        event.event_id@,
                        event.fingerprint@,
                        channels,
                        rendered_message(event, alert),
                        now@,
                    )
                } else {
                    (self.jobs, self.next_id)
                };
                (
                    StoreState {
                        events: self.events.push(stored),
                        alerts: upsert_alert(self.alerts, alert),
                        jobs: queued.0,
                        next_id: queued.1,
                        enrollments: self.enrollments,
                    },
                    Ok(EventResult { duplicate: false, alert }),
                )
            }
        }
    }
}


impl NotificationJob {
    /// A field-for-field copy of the job.
    pub fn duplicate(&self) -> (r: NotificationJob)
        ensures
            r == *self,
    {
        NotificationJob {
            id: self.id,
            event_id: self.event_id.clone(),
            fingerprint: self.fingerprint.clone(),
            channel: self.channel.clone(),
            payload: self.payload.clone(),
            status: self.status.clone(),
            attempts: self.attempts,
            next_attempt_at: self.next_attempt_at.clone(),
            last_error: copy_opt_text(&self.last_error),
            retryable: self.retryable,
            sent_at: copy_opt_text(&self.sent_at),
        }
    }
}

/// The rows of a queue.
pub open spec fn rows(q: Seq<QueuedNotification>) -> Seq<JobRow> {
    q.map_values(|x: QueuedNotification| x.row())
}

/// The queue facts the store keeps: ids rise in order and stay below the
/// next id, and no event and channel pair repeats.
pub open spec fn queue_ok(jobs: Seq<JobRow>, next_id: int) -> bool {
    &&& forall|i: int, j: int| 0 <= i < j < jobs.len() ==> #[trigger] jobs[i].id < #[trigger] jobs[j].id
    &&& forall|i: int| 0 <= i < jobs.len() ==> 1 <= #[trigger] jobs[i].id < next_id
    &&& forall|i: int, j: int|
        0 <= i < j < jobs.len() ==> !(#[trigger] jobs[i].event_id == #[trigger] jobs[j].event_id
            && jobs[i].channel == jobs[j].channel)
}

proof fn lemma_enqueue_jobs(
    jobs: Seq<JobRow>,
    next_id: int,
    event_id: Seq<char>,
    fingerprint: Seq<char>,
    channels: Seq<Seq<char>>,
    payload: Seq<char>,
    now: Seq<char>,
)
    requires
        queue_ok(jobs, next_id),
        next_id >= 1,
    ensures
        ({
            let r = enqueue_jobs(jobs, next_id, event_id, fingerprint, channels, payload, now);
            &&& queue_ok(r.0, r.1)
            &&& next_id <= r.1 <= next_id + channels.len()
            &&& jobs.len() <= r.0.len()
            &&& forall|i: int| 0 <= i < jobs.len() ==> r.0[i] == jobs[i]
            &&& forall|i: int| jobs.len() <= i < r.0.len() ==> (#[trigger] r.0[i]).event_id == event_id
        }),
    decreases channels.len(),
{
    if channels.len() > 0 {
        lemma_enqueue_jobs(jobs, next_id, event_id, fingerprint, channels.drop_last(), payload, now);
        let prev = enqueue_jobs(jobs, next_id, event_id, fingerprint, channels.drop_last(), payload, now);
        if !has_job(prev.0, event_id, channels.last()) {
            let nj = pending_job(prev.1, event_id, fingerprint, channels.last(), payload, now);
            let q = prev.0.push(nj);
            assert forall|i: int, j: int| 0 <= i < j < q.len() implies !(#[trigger] q[i].event_id
                == #[trigger] q[j].event_id && q[i].channel == q[j].channel) by {
                if j == q.len() - 1 {
                    if q[i].event_id == q[j].event_id && q[i].channel == q[j].channel {
                        assert(prev.0[i].event_id == event_id && prev.0[i].channel == channels.last());
                    }
                }
            }
            assert forall|i: int, j: int| 0 <= i < j < q.len() implies #[trigger] q[i].id < #[trigger] q[j].id by {
                if j == q.len() - 1 {
                    assert(prev.0[i].id < prev.1);
                }
            }
        }
    }
}

proof fn lemma_upsert_alert(alerts: Seq<AlertRecord>, alert: AlertRecord)
    requires
        forall|i: int, j: int|
            0 <= i < j < alerts.len() ==> #[trigger] alerts[i].fingerprint@
                != #[trigger] alerts[j].fingerprint@,
        forall|i: int| 0 <= i < alerts.len() ==> #[trigger] alerts[i].event_count >= 1,
        alert.event_count >= 1,
    ensures
        forall|i: int, j: int|
            0 <= i < j < upsert_alert(alerts, alert).len() ==> #[trigger] upsert_alert(
                alerts,
                alert,
            )[i].fingerprint@ != #[trigger] upsert_alert(alerts, alert)[j].fingerprint@,
        forall|i: int|
            0 <= i < upsert_alert(alerts, alert).len() ==> #[trigger] upsert_alert(
                alerts,
                alert,
            )[i].event_count >= 1,
{
    let u = upsert_alert(alerts, alert);
    if has_alert(alerts, alert.fingerprint@) {
        let p = alert_pos(alerts, alert.fingerprint@);
        assert forall|i: int, j: int| 0 <= i < j < u.len() implies #[trigger] u[i].fingerprint@
            != #[trigger] u[j].fingerprint@ by {
            if i == p {
                assert(alerts[p].fingerprint@ == alert.fingerprint@);
                assert(alerts[i].fingerprint@ != alerts[j].fingerprint@);
            } else if j == p {
                assert(alerts[p].fingerprint@ == alert.fingerprint@);
                assert(alerts[i].fingerprint@ != alerts[j].fingerprint@);
            }
        }
    } else {
        assert forall|i: int, j: int| 0 <= i < j < u.len() implies #[trigger] u[i].fingerprint@
            != #[trigger] u[j].fingerprint@ by {
            if j == alerts.len() {
                assert(alerts[i].fingerprint@ != alert.fingerprint@);
            }
        }
    }
}

/// Law: accepting an event keeps the store's invariant.
pub proof fn law_accept_keeps_invariant(
    s: StoreState,
    policy: PolicyCatalog,
    event: Event,
    payload: String,
    now: String,
)
    requires
        s.inv(),
        s.has_count_room(event),
    ensures
        s.accept(policy, event, payload, now).0.inv(),
{
    if event_issue(event) is None && !has_event(s.events, event.event_id@) {
        let existing = find_alert(s.alerts, event.fingerprint@);
        if existing is Some {
            let p = alert_pos(s.alerts, event.fingerprint@);
            assert(s.alerts[p].event_count >= 1);
        }
        law_event_count(existing, event);
        let alert = next_alert(existing, event);
        let channels = routed_channels(policy.rules@, event);
        if !(notifies(event, alert) && s.next_id + channels.len() > i64::MAX + 1) {
            let stored = StoredEvent {
                event_id: event.event_id,
                payload,
                fingerprint: event.fingerprint,
                received_at: now,
            };
            let events = s.events.push(stored);
            lemma_upsert_alert(s.alerts, alert);
            assert forall|i: int, j: int| 0 <= i < j < events.len() implies #[trigger] events[i].event_id@
                != #[trigger] events[j].event_id@ by {
                if j == s.events.len() {
                    assert(s.events[i].event_id@ != event.event_id@);
                }
            }
            assert forall|i: int| 0 <= i < s.events.len() implies has_event(events, #[trigger] s.events[i].event_id@) by {
                assert(events[i] == s.events[i]);
            }
            assert(events[s.events.len() as int].event_id@ == event.event_id@);
            if notifies(event, alert) {
                lemma_enqueue_jobs(
                    s.jobs,
                    s.next_id,
                    event.event_id@,
                    event.fingerprint@,
                    channels,
                    rendered_message(event, alert),
                    now@,
                );
                let q = enqueue_jobs(
                    s.jobs,
                    s.next_id,
                    event.event_id@,
                    event.fingerprint@,
                    channels,
                    rendered_message(event, alert),
                    now@,
                );
                assert forall|i: int| 0 <= i < q.0.len() implies has_event(events, #[trigger] q.0[i].event_id) by {
                    if i < s.jobs.len() {
                        assert(q.0[i] == s.jobs[i]);
                        let k = choose|k: int| 0 <= k < s.events.len() && #[trigger] s.events[k].event_id@ == s.jobs[i].event_id;
                        assert(events[k] == s.events[k]);
                    }
                }
            } else {
                assert forall|i: int| 0 <= i < s.jobs.len() implies has_event(events, #[trigger] s.jobs[i].event_id) by {
                    let k = choose|k: int| 0 <= k < s.events.len() && #[trigger] s.events[k].event_id@ == s.jobs[i].event_id;
                    assert(events[k] == s.events[k]);
                }
            }
        }
    }
}


/// A job can be claimed when it has attempts left and is pending, or failed
/// retryably and due, or claimed so long ago that the claim is abandoned.
pub open spec fn claimable(
    j: JobRow,
    max_attempts: u32,
    now: Seq<char>,
    stale_before: Seq<char>,
) -> bool {
    &&& j.attempts < max_attempts
    &&& {
        ||| j.status == "pending"@
        ||| j.status == "failed"@ && j.retryable && text_le(j.next_attempt_at, now)
        ||| j.status == "in_flight"@ && j.claimed_at is Some && text_le(
            j.claimed_at->0,
            stale_before,
        )
    }
}

/// Position `i` holds the first claimable job of the queue.
pub open spec fn first_claimable(
    jobs: Seq<JobRow>,
    i: int,
    max_attempts: u32,
    now: Seq<char>,
    stale_before: Seq<char>,
) -> bool {
    &&& 0 <= i < jobs.len()
    &&& claimable(jobs[i], max_attempts, now, stale_before)
    &&& forall|k: int| 0 <= k < i ==> !claimable(#[trigger] jobs[k], max_attempts, now, stale_before)
}

/// Some job has this id and is in flight.
pub open spec fn in_flight_at(jobs: Seq<JobRow>, id: int) -> bool {
    exists|i: int| 0 <= i < jobs.len() && #[trigger] jobs[i].id == id && jobs[i].status == "in_flight"@
}

/// The position of the job with this id.
pub open spec fn job_pos(jobs: Seq<JobRow>, id: int) -> int {
    choose|i: int| 0 <= i < jobs.len() && #[trigger] jobs[i].id == id && jobs[i].status == "in_flight"@
}

/// What a failed delivery reports to the store.
pub struct NotificationFailureUpdate {
    pub attempts: u32,
    pub error: String,
    pub max_attempts: u32,
    pub retry_delay_seconds: u64,
    pub retryable: bool,
    pub now: Clock,
}

impl NotificationFailureUpdate {
    /// A failure is due again now when it is not retried or has no attempts
    /// left; otherwise after the backoff delay.
    pub open spec fn retried_later(self) -> bool {
        self.retryable && self.attempts < self.max_attempts
    }

    /// The next attempt time can be written.
    pub open spec fn schedulable(self) -> bool {
        self.retried_later() ==> retry_time_defined(
            self.now.now,
            self.attempts,
            self.retry_delay_seconds,
        )
    }

    /// The next attempt time of the failed job.
    pub open spec fn next_attempt_text(self) -> Seq<char> {
        if self.retried_later() {
            retry_time_text(self.now.now, self.attempts, self.retry_delay_seconds)
        } else {
            self.now.now_text@
        }
    }

    /// The next attempt time, or `None` exactly when it cannot be written.
    pub fn next_attempt_at(&self) -> (r: Option<String>)
        ensures
            match r {
                Some(t) => self.schedulable() && t@ == self.next_attempt_text(),
                None => !self.schedulable(),
            },
    {
        if !self.retryable || self.attempts >= self.max_attempts {
            Some(self.now.now_text.clone())
        } else {
            try_retry_time(&self.now.now, self.attempts, self.retry_delay_seconds)
        }
    }
}

impl StoreState {
    /// Claiming the first claimable job: it goes in flight with one more
    /// attempt, claimed now.
    pub open spec fn claim(self, max_attempts: u32, now: Seq<char>, stale_before: Seq<char>) -> (
        StoreState,
        Option<JobRow>,
    ) {
        if exists|i: int| first_claimable(self.jobs, i, max_attempts, now, stale_before) {
            let i = choose|i: int| first_claimable(self.jobs, i, max_attempts, now, stale_before);
            let j = self.jobs[i];
            let claimed = JobRow {
                status: "in_flight"@,
                attempts: j.attempts + 1,
                claimed_at: Some(now),
                ..j
            };
            (StoreState { jobs: self.jobs.update(i, claimed), ..self }, Some(claimed))
        } else {
            (self, None)
        }
    }

    /// Completing a job that is in flight marks it sent now.
    pub open spec fn complete(self, id: int, now: Seq<char>) -> StoreState {
        if in_flight_at(self.jobs, id) {
            let i = job_pos(self.jobs, id);
            let j = self.jobs[i];
            StoreState {
                jobs: self.jobs.update(
                    i,
                    JobRow {
                        status: "sent"@,
                        sent_at: Some(now),
                        claimed_at: None,
                        last_error: None,
                        ..j
                    },
                ),
                ..self
            }
        } else {
            self
        }
    }

    /// Failing a job that is in flight records the error and the next attempt.
    pub open spec fn fail(self, id: int, update: NotificationFailureUpdate) -> StoreState {
        if in_flight_at(self.jobs, id) {
            let i = job_pos(self.jobs, id);
            let j = self.jobs[i];
            StoreState {
                jobs: self.jobs.update(
                    i,
                    JobRow {
                        status: "failed"@,
                        next_attempt_at: update.next_attempt_text(),
                        last_error: Some(update.error@),
                        retryable: update.retryable,
                        claimed_at: None,
                        ..j
                    },
                ),
                ..self
            }
        } else {
            self
        }
    }
}

proof fn lemma_first_claimable_unique(
    jobs: Seq<JobRow>,
    i: int,
    max_attempts: u32,
    now: Seq<char>,
    stale_before: Seq<char>,
)
    requires
        first_claimable(jobs, i, max_attempts, now, stale_before),
    ensures
        (choose|k: int| first_claimable(jobs, k, max_attempts, now, stale_before)) == i,
{
    let c = choose|k: int| first_claimable(jobs, k, max_attempts, now, stale_before);
    assert(first_claimable(jobs, c, max_attempts, now, stale_before));
    if c < i {
        assert(!claimable(jobs[c], max_attempts, now, stale_before));
    } else if c > i {
        assert(!claimable(jobs[i], max_attempts, now, stale_before));
    }
}

proof fn lemma_job_pos(jobs: Seq<JobRow>, i: int)
    requires
        0 <= i < jobs.len(),
        jobs[i].status == "in_flight"@,
        forall|a: int, b: int| 0 <= a < b < jobs.len() ==> #[trigger] jobs[a].id < #[trigger] jobs[b].id,
    ensures
        in_flight_at(jobs, jobs[i].id),
        job_pos(jobs, jobs[i].id) == i,
{
    assert(jobs[i].id == jobs[i].id);
    let p = job_pos(jobs, jobs[i].id);
    if p < i {
        assert(jobs[p].id < jobs[i].id);
    } else if p > i {
        assert(jobs[i].id < jobs[p].id);
    }
}

proof fn lemma_job_update_keeps_inv(s: StoreState, i: int, row: JobRow)
    requires
        s.inv(),
        0 <= i < s.jobs.len(),
        row.id == s.jobs[i].id,
        row.event_id == s.jobs[i].event_id,
        row.channel == s.jobs[i].channel,
    ensures
        (StoreState { jobs: s.jobs.update(i, row), ..s }).inv(),
{
    let t = StoreState { jobs: s.jobs.update(i, row), ..s };
    assert forall|a: int, b: int| 0 <= a < b < t.jobs.len() implies #[trigger] t.jobs[a].id < #[trigger] t.jobs[b].id by {
        assert(s.jobs[a].id < s.jobs[b].id);
    }
    assert forall|a: int, b: int| 0 <= a < b < t.jobs.len() implies !(#[trigger] t.jobs[a].event_id
        == #[trigger] t.jobs[b].event_id && t.jobs[a].channel == t.jobs[b].channel) by {
        assert(!(s.jobs[a].event_id == s.jobs[b].event_id && s.jobs[a].channel == s.jobs[b].channel));
    }
    assert forall|a: int| 0 <= a < t.jobs.len() implies 1 <= #[trigger] t.jobs[a].id < t.next_id by {
        assert(1 <= s.jobs[a].id < s.next_id);
    }
    assert forall|a: int| 0 <= a < t.jobs.len() implies has_event(t.events, #[trigger] t.jobs[a].event_id) by {
        assert(has_event(s.events, s.jobs[a].event_id));
    }
}

/// Law: every store transaction on the notification queue keeps the store's
/// invariant.
pub proof fn law_queue_operations_keep_invariant(
    s: StoreState,
    max_attempts: u32,
    now: Seq<char>,
    stale_before: Seq<char>,
    id: int,
    update: NotificationFailureUpdate,
)
    requires
        s.inv(),
    ensures
        s.claim(max_attempts, now, stale_before).0.inv(),
        s.complete(id, now).inv(),
        s.fail(id, update).inv(),
{
    if exists|i: int| first_claimable(s.jobs, i, max_attempts, now, stale_before) {
        let i = choose|i: int| first_claimable(s.jobs, i, max_attempts, now, stale_before);
        let j = s.jobs[i];
        lemma_job_update_keeps_inv(s, i, JobRow { status: "in_flight"@, attempts: j.attempts + 1, claimed_at: Some(now), ..j });
    }
    if in_flight_at(s.jobs, id) {
        let i = job_pos(s.jobs, id);
        let j = s.jobs[i];
        lemma_job_update_keeps_inv(s, i, JobRow { status: "sent"@, sent_at: Some(now), claimed_at: None, last_error: None, ..j });
        lemma_job_update_keeps_inv(s, i, JobRow {
            status: "failed"@,
            next_attempt_at: update.next_attempt_text(),
            last_error: Some(update.error@),
            retryable: update.retryable,
            claimed_at: None,
            ..j
        });
    }
}

/// The two queues hold the same messages: the same jobs in the same order,
/// each with its id, event, fingerprint, channel and payload.
pub open spec fn same_messages(a: Seq<JobRow>, b: Seq<JobRow>) -> bool {
    &&& a.len() == b.len()
    &&& forall|k: int|
        0 <= k < a.len() ==> {
            &&& (#[trigger] b[k]).id == a[k].id
            &&& b[k].event_id == a[k].event_id
            &&& b[k].fingerprint == a[k].fingerprint
            &&& b[k].channel == a[k].channel
            &&& b[k].payload == a[k].payload
        }
}

/// The delivery operation leaves everything but the delivery state of the
/// queued jobs as it was.
pub open spec fn delivery_only(s: StoreState, t: StoreState) -> bool {
    &&& t.events == s.events
    &&& t.alerts == s.alerts
    &&& t.enrollments == s.enrollments
    &&& t.next_id == s.next_id
    &&& same_messages(s.jobs, t.jobs)
}

/// Law: delivering notifications (claiming, completing, failing) creates no
/// event, alert or job and rewrites no message: a retry resends the payload
/// that was rendered when the event was accepted.
pub proof fn law_delivery_keeps_messages(
    s: StoreState,
    max_attempts: u32,
    now: Seq<char>,
    stale_before: Seq<char>,
    id: int,
    update: NotificationFailureUpdate,
)
    ensures
        delivery_only(s, s.claim(max_attempts, now, stale_before).0),
        delivery_only(s, s.complete(id, now)),
        delivery_only(s, s.fail(id, update)),
{
}

/// Law: a sent notification is final. No claim, completion or failure
/// changes it, so it is never delivered twice; and a claim never takes a job
/// beyond its last attempt.
pub proof fn law_sent_is_final(
    s: StoreState,
    k: int,
    max_attempts: u32,
    now: Seq<char>,
    stale_before: Seq<char>,
    id: int,
    update: NotificationFailureUpdate,
)
    requires
        0 <= k < s.jobs.len(),
        s.jobs[k].status == "sent"@,
    ensures
        s.claim(max_attempts, now, stale_before).0.jobs[k] == s.jobs[k],
        s.complete(id, now).jobs[k] == s.jobs[k],
        s.fail(id, update).jobs[k] == s.jobs[k],
        s.claim(max_attempts, now, stale_before).1 matches Some(row) ==> row.attempts
            <= max_attempts,
{
    reveal_strlit("sent");
    reveal_strlit("in_flight");
    reveal_strlit("pending");
    reveal_strlit("failed");
    assert("sent"@[0] != "in_flight"@[0]);
    assert("sent"@[0] != "pending"@[0]);
    assert("sent"@[0] != "failed"@[0]);
    if in_flight_at(s.jobs, id) {
        let i = job_pos(s.jobs, id);
        assert(s.jobs[i].status == "in_flight"@);
    }
}

proof fn lemma_first_claimable_exists(
    jobs: Seq<JobRow>,
    k: int,
    max_attempts: u32,
    now: Seq<char>,
    stale_before: Seq<char>,
)
    requires
        0 <= k < jobs.len(),
        claimable(jobs[k], max_attempts, now, stale_before),
    ensures
        exists|i: int| first_claimable(jobs, i, max_attempts, now, stale_before),
    decreases k,
{
    if exists|m: int| 0 <= m < k && claimable(#[trigger] jobs[m], max_attempts, now, stale_before) {
        let m = choose|m: int| 0 <= m < k && claimable(#[trigger] jobs[m], max_attempts, now, stale_before);
        lemma_first_claimable_exists(jobs, m, max_attempts, now, stale_before);
    } else {
        assert(first_claimable(jobs, k, max_attempts, now, stale_before));
    }
}

/// Law: a claim takes a job whenever one is due: pending, failed and due for
/// a retry, or left in flight since before the stale-claim cutoff (as after a
/// crash of the worker that claimed it), with attempts left. The job taken is
/// the first due one in queue order, at or before the given one.
pub proof fn law_due_job_is_claimed(
    s: StoreState,
    k: int,
    max_attempts: u32,
    now: Seq<char>,
    stale_before: Seq<char>,
)
    requires
        0 <= k < s.jobs.len(),
        claimable(s.jobs[k], max_attempts, now, stale_before),
    ensures
        s.claim(max_attempts, now, stale_before).1 is Some,
        exists|i: int|
            0 <= i <= k && first_claimable(s.jobs, i, max_attempts, now, stale_before)
                && s.claim(max_attempts, now, stale_before).0.jobs[i] == s.claim(
                max_attempts,
                now,
                stale_before,
            ).1->0,
{
    lemma_first_claimable_exists(s.jobs, k, max_attempts, now, stale_before);
    let i = choose|i: int| first_claimable(s.jobs, i, max_attempts, now, stale_before);
    assert(i <= k) by {
        if i > k {
            assert(!claimable(s.jobs[k], max_attempts, now, stale_before));
        }
    }
}

/// Law: a failure recorded as not retryable (a permanent failure, or a job
/// whose channel is not configured) takes the job out of delivery for good:
/// it is not due again at any time, whatever the attempt limit.
pub proof fn law_permanent_failure_is_not_retried(
    s: StoreState,
    id: int,
    update: NotificationFailureUpdate,
    max_attempts: u32,
    now: Seq<char>,
    stale_before: Seq<char>,
)
    requires
        in_flight_at(s.jobs, id),
        !update.retryable,
    ensures
        !claimable(s.fail(id, update).jobs[job_pos(s.jobs, id)], max_attempts, now, stale_before),
        s.fail(id, update).jobs[job_pos(s.jobs, id)].status == "failed"@,
        s.fail(id, update).jobs[job_pos(s.jobs, id)].last_error == Some(update.error@),
{
    reveal_strlit("failed");
    reveal_strlit("in_flight");
    reveal_strlit("pending");
    assert("failed"@[0] != "in_flight"@[0]);
    assert("failed"@[0] != "pending"@[0]);
}


/// Why an enrollment code is not created or not accepted.
#[derive(Clone, Debug, PartialEq, Eq)]
pub enum EnrollmentError {
    InvalidName(AgentNameError),
    EmptyCode,
    InvalidTtl,
    CredentialExists,
    InvalidCode,
    NameMismatch,
    AlreadyUsed,
    InvalidExpiry,
    Expired,
    DuplicateCode,
}

/// The first problem of a request to create an enrollment code.
pub open spec fn enrollment_request_issue(name: Seq<char>, code: Seq<char>, ttl_seconds: u64) -> Option<EnrollmentError> {
    if agent_name_issue(name) is Some {
        Some(EnrollmentError::InvalidName(agent_name_issue(name)->0))
    } else if is_blank(code) {
        Some(EnrollmentError::EmptyCode)
    } else if ttl_seconds == 0 {
        Some(EnrollmentError::InvalidTtl)
    } else {
        None
    }
}

/// The lifetime as chrono's `TimeDelta::seconds` receives it (`ttl as i64`).
/// This is the intended reading of the lifetime: one above `i64::MAX` wraps to
/// a negative offset, so the code expires before it is created and is never
/// accepted.
pub open spec fn ttl_offset(ttl_seconds: u64) -> int {
    if ttl_seconds <= i64::MAX {
        ttl_seconds as int
    } else {
        ttl_seconds - 0x1_0000_0000_0000_0000
    }
}

/// The expiry instant `now + ttl` can be written.
pub open spec fn expiry_defined(now: Timestamp, ttl_seconds: u64) -> bool {
    let off = ttl_offset(ttl_seconds);
    &&& -(i64::MAX / 1000) <= off <= i64::MAX / 1000
    &&& i64::MIN <= now.seconds + off <= i64::MAX
    &&& utc_rfc3339_text((now.seconds + off) as i64, now.nanos) is Some
}

/// The text of the expiry instant `now + ttl`.
pub open spec fn expiry_text(now: Timestamp, ttl_seconds: u64) -> Seq<char> {
    utc_rfc3339_text((now.seconds + ttl_offset(ttl_seconds)) as i64, now.nanos)->0
}

/// The expiry text reads back as the instant `now + ttl` whenever that
/// instant lies in a four-digit year outside a leap second.
pub open spec fn expiry_reads_back(now: Timestamp, ttl_seconds: u64) -> bool {
    let at = now.seconds + ttl_offset(ttl_seconds);
    i64::MIN <= at <= i64::MAX && four_digit_year(at as i64) && now.nanos < 1_000_000_000
        ==> rfc3339_instant(expiry_text(now, ttl_seconds)) == Some((at as i64, now.nanos))
}

/// Some enrollment has this code hash.
pub open spec fn has_code(rows: Seq<EnrollmentRow>, hash: Seq<char>) -> bool {
    exists|i: int| 0 <= i < rows.len() && #[trigger] rows[i].code_hash == hash
}

/// The position of the enrollment with this code hash.
pub open spec fn code_pos(rows: Seq<EnrollmentRow>, hash: Seq<char>) -> int {
    choose|i: int| 0 <= i < rows.len() && #[trigger] rows[i].code_hash == hash
}

impl StoreState {
    /// Creating an enrollment code for an agent name, valid for `ttl` seconds
    /// from `now`; only the hash of the code is kept.
    pub open spec fn enroll(self, name: Seq<char>, code: Seq<char>, ttl_seconds: u64, now: Timestamp) -> (StoreState, Result<(), EnrollmentError>) {
        if enrollment_request_issue(name, code, ttl_seconds) is Some {
            (self, Err(enrollment_request_issue(name, code, ttl_seconds)->0))
        } else if has_code(self.enrollments, secret_hash(code)) {
            (self, Err(EnrollmentError::DuplicateCode))
        } else {
            (
                StoreState {
                    enrollments: self.enrollments.push(
                        EnrollmentRow {
                            code_hash: secret_hash(code),
                            name,
                            expires_at: expiry_text(now, ttl_seconds),
                            consumed_at: None,
                        },
                    ),
                    ..self
                },
                Ok(()),
            )
        }
    }

    /// Consuming an enrollment code: the agent name must be valid and have no
    /// credential yet, the code must be known, issued for that name, unused
    /// and not expired at `now`; it is then marked used at `now`.
    pub open spec fn consume(self, name: Seq<char>, code: Seq<char>, credential_exists: bool, now: Timestamp, now_text: Seq<char>) -> (StoreState, Result<(), EnrollmentError>) {
        if agent_name_issue(name) is Some {
            (self, Err(EnrollmentError::InvalidName(agent_name_issue(name)->0)))
        } else if is_blank(code) {
            (self, Err(EnrollmentError::EmptyCode))
        } else if credential_exists {
            (self, Err(EnrollmentError::CredentialExists))
        } else if !has_code(self.enrollments, secret_hash(code)) {
            (self, Err(EnrollmentError::InvalidCode))
        } else {
            let i = code_pos(self.enrollments, secret_hash(code));
            let row = self.enrollments[i];
            if row.name != name {
                (self, Err(EnrollmentError::NameMismatch))
            } else if row.consumed_at is Some {
                (self, Err(EnrollmentError::AlreadyUsed))
            } else {
                match rfc3339_instant(row.expires_at) {
                    None => (self, Err(EnrollmentError::InvalidExpiry)),
                    Some(e) => if now.at_or_after(Timestamp { seconds: e.0, nanos: e.1 }) {
                        (self, Err(EnrollmentError::Expired))
                    } else {
                        (
                            StoreState {
                                enrollments: self.enrollments.update(
                                    i,
                                    EnrollmentRow { consumed_at: Some(now_text), ..row },
                                ),
                                ..self
                            },
                            Ok(()),
                        )
                    },
                }
            }
        }
    }
}

proof fn lemma_code_pos(rows: Seq<EnrollmentRow>, i: int)
    requires
        0 <= i < rows.len(),
        forall|a: int, b: int| 0 <= a < b < rows.len() ==> #[trigger] rows[a].code_hash != #[trigger] rows[b].code_hash,
    ensures
        has_code(rows, rows[i].code_hash),
        code_pos(rows, rows[i].code_hash) == i,
{
    let h = rows[i].code_hash;
    assert(rows[i].code_hash == h);
    let p = code_pos(rows, h);
    if p < i {
        assert(rows[p].code_hash != rows[i].code_hash);
    } else if p > i {
        assert(rows[i].code_hash != rows[p].code_hash);
    }
}

/// Law: enrollment transactions keep the store's invariant.
pub proof fn law_enrollment_keeps_invariant(
    s: StoreState,
    name: Seq<char>,
    code: Seq<char>,
    ttl_seconds: u64,
    credential_exists: bool,
    now: Timestamp,
    now_text: Seq<char>,
)
    requires
        s.inv(),
    ensures
        s.enroll(name, code, ttl_seconds, now).0.inv(),
        s.consume(name, code, credential_exists, now, now_text).0.inv(),
{
    let h = secret_hash(code);
    if enrollment_request_issue(name, code, ttl_seconds) is None && !has_code(s.enrollments, h) {
        let t = s.enroll(name, code, ttl_seconds, now).0;
        assert forall|a: int, b: int| 0 <= a < b < t.enrollments.len() implies #[trigger] t.enrollments[a].code_hash != #[trigger] t.enrollments[b].code_hash by {
            if b == s.enrollments.len() {
                assert(s.enrollments[a].code_hash != h);
            }
        }
    }
    if has_code(s.enrollments, h) {
        let t = s.consume(name, code, credential_exists, now, now_text).0;
        assert forall|a: int, b: int| 0 <= a < b < t.enrollments.len() implies #[trigger] t.enrollments[a].code_hash != #[trigger] t.enrollments[b].code_hash by {
            assert(s.enrollments[a].code_hash != s.enrollments[b].code_hash);
        }
    }
}

/// Law: an enrollment code admits its agent once; after a successful use,
/// the same name and code are refused.
pub proof fn law_enrollment_single_use(
    s: StoreState,
    name: Seq<char>,
    code: Seq<char>,
    credential_exists: bool,
    now: Timestamp,
    now_text: Seq<char>,
    again_credential_exists: bool,
    later: Timestamp,
    later_text: Seq<char>,
)
    requires
        s.inv(),
        s.consume(name, code, credential_exists, now, now_text).1 is Ok,
    ensures
        s.consume(name, code, credential_exists, now, now_text).0.consume(name, code, again_credential_exists, later, later_text).1 is Err,
{
    let h = secret_hash(code);
    let i = code_pos(s.enrollments, h);
    let t = s.consume(name, code, credential_exists, now, now_text).0;
    law_enrollment_keeps_invariant(s, name, code, 1, credential_exists, now, now_text);
    assert(t.enrollments[i].code_hash == h);
    lemma_code_pos(t.enrollments, i);
}

/// Law: a code created for a name at `created` with a time to live is
/// accepted for that name, once, at any time before `created + ttl`, when that
/// instant lies in a four-digit year and the stored expiry text reads back as
/// it (as `add_enrollment` ensures there).
pub proof fn law_enrollment_admits_before_expiry(
    s: StoreState,
    name: Seq<char>,
    code: Seq<char>,
    ttl_seconds: u64,
    created: Timestamp,
    now: Timestamp,
    now_text: Seq<char>,
)
    requires
        s.inv(),
        s.enroll(name, code, ttl_seconds, created).1 is Ok,
        expiry_defined(created, ttl_seconds),
        expiry_reads_back(created, ttl_seconds),
        four_digit_year((created.seconds + ttl_offset(ttl_seconds)) as i64),
        created.nanos < 1_000_000_000,
        !now.at_or_after(
            Timestamp {
                seconds: (created.seconds + ttl_offset(ttl_seconds)) as i64,
                nanos: created.nanos,
            },
        ),
    ensures
        s.enroll(name, code, ttl_seconds, created).0.consume(name, code, false, now, now_text).1 is Ok,
{
    let t = s.enroll(name, code, ttl_seconds, created).0;
    law_enrollment_keeps_invariant(s, name, code, ttl_seconds, false, created, now_text);
    lemma_code_pos(t.enrollments, s.enrollments.len() as int);
}

/// Checks a request to create an enrollment code.
pub fn check_enrollment_request(name: &str, code: &str, ttl_seconds: u64) -> (r: Result<(), EnrollmentError>)
    ensures
        r == match enrollment_request_issue(name@, code@, ttl_seconds) {
            Some(e) => Err(e),
            None => Ok(()),
        },
{
    if let Err(e) = validate_agent_name(name) {
        return Err(EnrollmentError::InvalidName(e));
    }
    if text_is_blank(code) {
        return Err(EnrollmentError::EmptyCode);
    }
    if ttl_seconds == 0 {
        return Err(EnrollmentError::InvalidTtl);
    }
    Ok(())
}

fn offset_of_ttl(ttl_seconds: u64) -> (r: i64)
    ensures
        r == ttl_offset(ttl_seconds),
{
    if ttl_seconds <= i64::MAX as u64 {
        ttl_seconds as i64
    } else {
        let below = u64::MAX - ttl_seconds;
        -(below as i64) - 1
    }
}

/// The expiry text of a code created at `now` for `ttl` seconds, or `None`
/// exactly when it cannot be written.
pub fn enrollment_expiry(now: &Timestamp, ttl_seconds: u64) -> (r: Option<String>)
    ensures
        match r {
            Some(t) => expiry_defined(*now, ttl_seconds) && t@ == expiry_text(*now, ttl_seconds),
            None => !expiry_defined(*now, ttl_seconds),
        },
        r is Some ==> expiry_reads_back(*now, ttl_seconds),
{
    let off = offset_of_ttl(ttl_seconds);
    if off < -(i64::MAX / 1000) || off > i64::MAX / 1000 {
        return None;
    }
    match now.seconds.checked_add(off) {
        None => None,
        Some(at) => format_rfc3339(at, now.nanos),
    }
}


/// Law: accepting the same event again, with the same payload, changes
/// nothing and answers with the alert as the first acceptance left it.
pub proof fn law_accept_is_idempotent(
    s: StoreState,
    policy: PolicyCatalog,
    event: Event,
    payload: String,
    now: String,
    again_policy: PolicyCatalog,
    again_now: String,
)
    requires
        s.inv(),
        s.has_count_room(event),
        s.accept(policy, event, payload, now).1 is Ok,
    ensures
        ({
            let (s1, r1) = s.accept(policy, event, payload, now);
            &&& s1.has_count_room(event)
            &&& s1.accept(again_policy, event, payload, again_now) == (
                s1,
                Ok::<EventResult, AcceptError>(EventResult { duplicate: true, alert: r1->Ok_0.alert }),
            )
        }),
{
    let (s1, r1) = s.accept(policy, event, payload, now);
    law_accept_keeps_invariant(s, policy, event, payload, now);
    if !has_event(s.events, event.event_id@) {
        let n = s.events.len() as int;
        assert(s1.events[n].event_id@ == event.event_id@);
        lemma_event_pos(s1.events, n);
        let alert = r1->Ok_0.alert;
        assert(alert.fingerprint@ == event.fingerprint@);
        let u = s1.alerts;
        if has_alert(s.alerts, event.fingerprint@) {
            let p = alert_pos(s.alerts, event.fingerprint@);
            assert(u[p] == alert);
            lemma_alert_pos(u, p);
        } else {
            assert(u[s.alerts.len() as int] == alert);
            lemma_alert_pos(u, s.alerts.len() as int);
        }
    }
}

/// Law: accepting an event deletes nothing. The stored events and the queued
/// notifications stay as they were, followed by at most the new event and
/// notifications about it; enrollments are untouched; and no alert of another
/// fingerprint changes. A resolution, too, keeps the event history.
pub proof fn law_accept_keeps_history(
    s: StoreState,
    policy: PolicyCatalog,
    event: Event,
    payload: String,
    now: String,
)
    requires
        s.inv(),
    ensures
        ({
            let t = s.accept(policy, event, payload, now).0;
            &&& s.events.len() <= t.events.len() <= s.events.len() + 1
            &&& forall|i: int| 0 <= i < s.events.len() ==> #[trigger] t.events[i] == s.events[i]
            &&& s.jobs.len() <= t.jobs.len()
            &&& forall|i: int| 0 <= i < s.jobs.len() ==> #[trigger] t.jobs[i] == s.jobs[i]
            &&& forall|i: int| s.jobs.len() <= i < t.jobs.len() ==> (#[trigger] t.jobs[i]).event_id == event.event_id@
            &&& t.enrollments == s.enrollments
            &&& s.alerts.len() <= t.alerts.len() <= s.alerts.len() + 1
            &&& forall|i: int| 0 <= i < s.alerts.len() && (#[trigger] s.alerts[i]).fingerprint@ != event.fingerprint@
                ==> t.alerts[i] == s.alerts[i]
        }),
{
    if event_issue(event) is None && !has_event(s.events, event.event_id@) {
        let alert = next_alert(find_alert(s.alerts, event.fingerprint@), event);
        let channels = routed_channels(policy.rules@, event);
        if notifies(event, alert) {
            lemma_enqueue_jobs(
                s.jobs,
                s.next_id,
                event.event_id@,
                event.fingerprint@,
                channels,
                rendered_message(event, alert),
                now@,
            );
        }
        if has_alert(s.alerts, event.fingerprint@) {
            let p = alert_pos(s.alerts, event.fingerprint@);
            assert(s.alerts[p].fingerprint@ == alert.fingerprint@);
        }
    }
}

proof fn lemma_upsert_find(alerts: Seq<AlertRecord>, alert: AlertRecord, fp: Seq<char>)
    requires
        forall|i: int, j: int|
            0 <= i < j < alerts.len() ==> #[trigger] alerts[i].fingerprint@
                != #[trigger] alerts[j].fingerprint@,
        forall|i: int| 0 <= i < alerts.len() ==> #[trigger] alerts[i].event_count >= 1,
        alert.event_count >= 1,
    ensures
        find_alert(upsert_alert(alerts, alert), fp) == (if fp == alert.fingerprint@ {
            Some(alert)
        } else {
            find_alert(alerts, fp)
        }),
{
    lemma_upsert_alert(alerts, alert);
    let u = upsert_alert(alerts, alert);
    let q = if has_alert(alerts, alert.fingerprint@) {
        alert_pos(alerts, alert.fingerprint@)
    } else {
        alerts.len() as int
    };
    assert(u[q] == alert);
    if fp == alert.fingerprint@ {
        lemma_alert_pos(u, q);
    } else if has_alert(alerts, fp) {
        let k = alert_pos(alerts, fp);
        assert(alerts[k].fingerprint@ == fp);
        assert(k != q);
        assert(u[k] == alerts[k]);
        lemma_alert_pos(u, k);
        lemma_alert_pos(alerts, k);
    } else {
        if has_alert(u, fp) {
            let i = choose|i: int| 0 <= i < u.len() && #[trigger] u[i].fingerprint@ == fp;
            if i != q {
                assert(u[i] == alerts[i]);
            }
        }
    }
}

/// Law: moving an alert writes one row of the alerts table. When a new event
/// is accepted, the alert it reports is the lifecycle's next alert for the
/// event's fingerprint, and afterwards the table holds that alert under the
/// fingerprint, every other fingerprint's row as before, and still one row
/// per fingerprint. An event that is refused or repeated changes nothing.
pub proof fn law_transition_sets_one_alert(
    s: StoreState,
    policy: PolicyCatalog,
    event: Event,
    payload: String,
    now: String,
)
    requires
        s.inv(),
        s.has_count_room(event),
    ensures
        ({
            let (t, r) = s.accept(policy, event, payload, now);
            &&& (r is Ok && !r->Ok_0.duplicate) ==> {
                let res = r->Ok_0;
                &&& res.alert == next_alert(find_alert(s.alerts, event.fingerprint@), event)
                &&& res.alert.fingerprint@ == event.fingerprint@
                &&& forall|fp: Seq<char>|
                    #[trigger] find_alert(t.alerts, fp) == (if fp == event.fingerprint@ {
                        Some(res.alert)
                    } else {
                        find_alert(s.alerts, fp)
                    })
                &&& forall|i: int, j: int|
                    0 <= i < j < t.alerts.len() ==> #[trigger] t.alerts[i].fingerprint@
                        != #[trigger] t.alerts[j].fingerprint@
            }
            &&& !(r is Ok && !r->Ok_0.duplicate) ==> t == s
        }),
{
    let (t, r) = s.accept(policy, event, payload, now);
    law_accept_keeps_invariant(s, policy, event, payload, now);
    if event_issue(event) is None && !has_event(s.events, event.event_id@) {
        let existing = find_alert(s.alerts, event.fingerprint@);
        if existing is Some {
            let p = alert_pos(s.alerts, event.fingerprint@);
            assert(s.alerts[p].event_count >= 1);
            assert(s.alerts[p].fingerprint@ == event.fingerprint@);
        }
        law_event_count(existing, event);
        let alert = next_alert(existing, event);
        assert(alert.fingerprint@ == event.fingerprint@);
        assert forall|fp: Seq<char>|
            #[trigger] find_alert(upsert_alert(s.alerts, alert), fp) == (if fp == event.fingerprint@ {
                Some(alert)
            } else {
                find_alert(s.alerts, fp)
            }) by {
            lemma_upsert_find(s.alerts, alert, fp);
        }
    }
}

/// Law: an event already stored with the same payload is answered as a
/// repeat, with the stored alert of its fingerprint, and nothing changes; the
/// repeat never needs counter room. No store invariant is needed for this.
pub proof fn law_repeat_is_answered_unchanged(
    s: StoreState,
    policy: PolicyCatalog,
    event: Event,
    payload: String,
    now: String,
)
    requires
        event_issue(event) is None,
        has_event(s.events, event.event_id@),
        s.events[event_pos(s.events, event.event_id@)].payload@ == payload@,
        has_alert(s.alerts, event.fingerprint@),
    ensures
        s.has_count_room(event),
        s.accept(policy, event, payload, now) == (
            s,
            Ok::<EventResult, AcceptError>(
                EventResult { duplicate: true, alert: find_alert(s.alerts, event.fingerprint@)->0 },
            ),
        ),
{
}

/// Law: a known event id with a different payload is refused as a conflict
/// and changes nothing.
pub proof fn law_conflicting_payload_is_refused(
    s: StoreState,
    policy: PolicyCatalog,
    event: Event,
    payload: String,
    now: String,
)
    requires
        event_issue(event) is None,
        has_event(s.events, event.event_id@),
        s.events[event_pos(s.events, event.event_id@)].payload@ != payload@,
    ensures
        s.accept(policy, event, payload, now) == (s, Err::<EventResult, AcceptError>(AcceptError::Conflict)),
{
}

/// Law: a new event is notified on each routed channel exactly once, unless
/// it repeats a firing alert.
pub proof fn law_new_event_notifies_each_channel_once(
    s: StoreState,
    policy: PolicyCatalog,
    event: Event,
    payload: String,
    now: String,
    channel: Seq<char>,
)
    requires
        s.inv(),
        s.has_count_room(event),
        event_issue(event) is None,
        !has_event(s.events, event.event_id@),
        s.accept(policy, event, payload, now).1 is Ok,
    ensures
        ({
            let (s1, r1) = s.accept(policy, event, payload, now);
            &&& has_job(s1.jobs, event.event_id@, channel) <==> (notifies(event, r1->Ok_0.alert)
                && routed_channels(policy.rules@, event).contains(channel))
            &&& forall|i: int, j: int| 0 <= i < j < s1.jobs.len() ==> !(#[trigger] s1.jobs[i].event_id == #[trigger] s1.jobs[j].event_id && s1.jobs[i].channel == s1.jobs[j].channel)
        }),
{
    let (s1, r1) = s.accept(policy, event, payload, now);
    law_accept_keeps_invariant(s, policy, event, payload, now);
    let alert = r1->Ok_0.alert;
    let chs = routed_channels(policy.rules@, event);
    assert forall|i: int| 0 <= i < s.jobs.len() implies #[trigger] s.jobs[i].event_id != event.event_id@ by {
        let k = choose|k: int| 0 <= k < s.events.len() && #[trigger] s.events[k].event_id@ == s.jobs[i].event_id;
    }
    if notifies(event, alert) {
        lemma_enqueue_contains(s.jobs, s.next_id, event.event_id@, event.fingerprint@, chs, rendered_message(event, alert), now@, channel);
    } else {
        if has_job(s.jobs, event.event_id@, channel) {
            let i = choose|i: int| 0 <= i < s.jobs.len() && #[trigger] s.jobs[i].event_id == event.event_id@ && s.jobs[i].channel == channel;
        }
    }
}

proof fn lemma_enqueue_contains(
    jobs: Seq<JobRow>,
    next_id: int,
    event_id: Seq<char>,
    fingerprint: Seq<char>,
    channels: Seq<Seq<char>>,
    payload: Seq<char>,
    now: Seq<char>,
    channel: Seq<char>,
)
    requires
        forall|i: int| 0 <= i < jobs.len() ==> #[trigger] jobs[i].event_id != event_id,
    ensures
        has_job(enqueue_jobs(jobs, next_id, event_id, fingerprint, channels, payload, now).0, event_id, channel)
            <==> channels.contains(channel),
    decreases channels.len(),
{
    if channels.len() > 0 {
        let init = channels.drop_last();
        lemma_enqueue_contains(jobs, next_id, event_id, fingerprint, init, payload, now, channel);
        let prev = enqueue_jobs(jobs, next_id, event_id, fingerprint, init, payload, now);
        let r = enqueue_jobs(jobs, next_id, event_id, fingerprint, channels, payload, now).0;
        if has_job(r, event_id, channel) {
            if !has_job(prev.0, event_id, channel) {
                let i = choose|i: int| 0 <= i < r.len() && #[trigger] r[i].event_id == event_id && r[i].channel == channel;
                assert(i == prev.0.len());
                assert(channels[channels.len() - 1] == channel);
            } else {
                let k = choose|k: int| 0 <= k < init.len() && init[k] == channel;
                assert(channels[k] == channel);
            }
        }
        if channels.contains(channel) {
            let k = choose|k: int| 0 <= k < channels.len() && channels[k] == channel;
            if k < channels.len() - 1 {
                assert(init[k] == channel);
                assert(init.contains(channel));
                if !has_job(prev.0, event_id, channels.last()) {
                    let i = choose|i: int| 0 <= i < prev.0.len() && #[trigger] prev.0[i].event_id == event_id && prev.0[i].channel == channel;
                    assert(r[i] == prev.0[i]);
                }
            } else {
                if !has_job(prev.0, event_id, channels.last()) {
                    assert(r[prev.0.len() as int].event_id == event_id);
                }
            }
        }
    }
}


/// Whether an alert passes the status filter.
pub open spec fn status_selected(a: AlertRecord, status: Option<AlertStatus>) -> bool {
    match status {
        None => true,
        Some(s) => a.status == s,
    }
}

/// The listing limit brought into 1 to 500.
pub open spec fn clamped_limit(limit: usize) -> int {
    if limit < 1 {
        1
    } else if limit > 500 {
        500
    } else {
        limit as int
    }
}

/// `out` lists the alerts at positions `idx`: distinct alerts that pass the
/// filter, latest `last_seen` first, at most the clamped limit of them; an
/// alert that passes the filter is left out only when the listing is full
/// and it was seen no later than the last one listed.
pub open spec fn listing_at(
    alerts: Seq<AlertRecord>,
    status: Option<AlertStatus>,
    limit: usize,
    out: Seq<AlertRecord>,
    idx: Seq<int>,
) -> bool {
    &&& idx.len() == out.len()
    &&& out.len() <= clamped_limit(limit)
    &&& forall|t: int|
        0 <= t < idx.len() ==> 0 <= #[trigger] idx[t] < alerts.len() && status_selected(alerts[idx[t]], status)
            && out[t] == alerts[idx[t]]
    &&& forall|t: int, u: int| 0 <= t < u < idx.len() ==> #[trigger] idx[t] != #[trigger] idx[u]
    &&& forall|t: int, u: int|
        0 <= t < u < out.len() ==> text_le(#[trigger] out[u].last_seen@, #[trigger] out[t].last_seen@)
    &&& forall|j: int|
        0 <= j < alerts.len() && status_selected(#[trigger] alerts[j], status) && !idx.contains(j)
            ==> out.len() == clamped_limit(limit) && text_le(alerts[j].last_seen@, out.last().last_seen@)
}

/// `out` is a listing of the alerts for a status filter and a limit.
pub open spec fn is_alert_listing(
    alerts: Seq<AlertRecord>,
    status: Option<AlertStatus>,
    limit: usize,
    out: Seq<AlertRecord>,
) -> bool {
    exists|idx: Seq<int>| listing_at(alerts, status, limit, out, idx)
}

/// Law: a listing filtered by a status holds only alerts of that status, each
/// one of the stored alerts.
pub proof fn law_listing_keeps_to_its_status(
    alerts: Seq<AlertRecord>,
    status: AlertStatus,
    limit: usize,
    out: Seq<AlertRecord>,
)
    requires
        is_alert_listing(alerts, Some(status), limit, out),
    ensures
        forall|t: int| 0 <= t < out.len() ==> (#[trigger] out[t]).status == status && alerts.contains(out[t]),
{
    let idx = choose|idx: Seq<int>| listing_at(alerts, Some(status), limit, out, idx);
    assert forall|t: int| 0 <= t < out.len() implies (#[trigger] out[t]).status == status && alerts.contains(out[t]) by {
        assert(0 <= idx[t] < alerts.len() && status_selected(alerts[idx[t]], Some(status)) && out[t] == alerts[idx[t]]);
    }
}

/// Law: a new valid event whose state is not firing is notified on every
/// routed channel: accepting it queues a job for it on each channel the
/// policy routes it to, whatever the event count of its alert.
pub proof fn law_non_firing_event_queues_each_channel(
    s: StoreState,
    policy: PolicyCatalog,
    event: Event,
    payload: String,
    now: String,
    channel: Seq<char>,
)
    requires
        s.inv(),
        s.has_count_room(event),
        event_issue(event) is None,
        !has_event(s.events, event.event_id@),
        s.accept(policy, event, payload, now).1 is Ok,
        event.state != EventState::Firing,
        routed_channels(policy.rules@, event).contains(channel),
    ensures
        has_job(s.accept(policy, event, payload, now).0.jobs, event.event_id@, channel),
{
    law_new_event_notifies_each_channel_once(s, policy, event, payload, now, channel);
}

/// The server's event store.
pub struct ServerEventStore {
    events: Vec<StoredEvent>,
    alerts: Vec<AlertRecord>,
    notifications: Vec<QueuedNotification>,
    next_id: u64,
    enrollments: Vec<Enrollment>,
}

impl View for ServerEventStore {
    type V = StoreState;

    closed spec fn view(&self) -> StoreState {
        StoreState {
            events: self.events@,
            alerts: self.alerts@,
            jobs: self.notifications@.map_values(|q: QueuedNotification| q.row()),
            next_id: self.next_id as int,
            enrollments: self.enrollments@.map_values(|e: Enrollment| e.row()),
        }
    }
}

proof fn lemma_event_pos(events: Seq<StoredEvent>, i: int)
    requires
        0 <= i < events.len(),
        forall|a: int, b: int|
            0 <= a < b < events.len() ==> #[trigger] events[a].event_id@
                != #[trigger] events[b].event_id@,
    ensures
        has_event(events, events[i].event_id@),
        event_pos(events, events[i].event_id@) == i,
{
    let id = events[i].event_id@;
    assert(events[i].event_id@ == id);
    let p = event_pos(events, id);
    if p < i {
        assert(events[p].event_id@ != events[i].event_id@);
    } else if p > i {
        assert(events[i].event_id@ != events[p].event_id@);
    }
}

proof fn lemma_alert_pos(alerts: Seq<AlertRecord>, i: int)
    requires
        0 <= i < alerts.len(),
        forall|a: int, b: int|
            0 <= a < b < alerts.len() ==> #[trigger] alerts[a].fingerprint@
                != #[trigger] alerts[b].fingerprint@,
    ensures
        has_alert(alerts, alerts[i].fingerprint@),
        alert_pos(alerts, alerts[i].fingerprint@) == i,
        find_alert(alerts, alerts[i].fingerprint@) == Some(alerts[i]),
{
    let fp = alerts[i].fingerprint@;
    assert(alerts[i].fingerprint@ == fp);
    let p = alert_pos(alerts, fp);
    if p < i {
        assert(alerts[p].fingerprint@ != alerts[i].fingerprint@);
    } else if p > i {
        assert(alerts[i].fingerprint@ != alerts[p].fingerprint@);
    }
}

impl ServerEventStore {
    #[verifier::type_invariant]
    closed spec fn store_inv(self) -> bool {
        self@.inv()
    }

    /// An empty store.
    pub fn new() -> (r: ServerEventStore)
        ensures
            r@.events.len() == 0,
            r@.alerts.len() == 0,
            r@.jobs.len() == 0,
            r@.next_id == 1,
            r@.enrollments.len() == 0,
            r@.inv(),
    {
        let r = ServerEventStore {
            events: Vec::new(),
            alerts: Vec::new(),
            notifications: Vec::new(),
            next_id: 1,
            enrollments: Vec::new(),
        };
        assert(r@.jobs =~= Seq::empty());
        assert(r@.enrollments =~= Seq::empty());
        r
    }

    /// The stored events.
    pub fn events(&self) -> (r: &Vec<StoredEvent>)
        ensures
            r@ == self@.events,
            self@.inv(),
    {
        proof {
            use_type_invariant(&*self);
        }
        &self.events
    }

    /// The alerts.
    pub fn alerts(&self) -> (r: &Vec<AlertRecord>)
        ensures
            r@ == self@.alerts,
            self@.inv(),
    {
        proof {
            use_type_invariant(&*self);
        }
        &self.alerts
    }

    /// The notification queue, in id order.
    pub fn queued_notifications(&self) -> (r: &Vec<QueuedNotification>)
        ensures
            r@.map_values(|q: QueuedNotification| q.row()) == self@.jobs,
            self@.inv(),
    {
        proof {
            use_type_invariant(&*self);
        }
        &self.notifications
    }

    /// The id the next queued notification receives.
    pub fn next_notification_id(&self) -> (r: u64)
        ensures
            r == self@.next_id,
            self@.inv(),
    {
        proof {
            use_type_invariant(&*self);
        }
        self.next_id
    }

    /// The enrollment codes.
    pub fn enrollments(&self) -> (r: &Vec<Enrollment>)
        ensures
            r@.map_values(|e: Enrollment| e.row()) == self@.enrollments,
            self@.inv(),
    {
        proof {
            use_type_invariant(&*self);
        }
        &self.enrollments
    }

    fn event_index(&self, id: &String) -> (r: Option<usize>)
        requires
            self@.inv(),
        ensures
            match r {
                Some(i) => has_event(self@.events, id@) && i == event_pos(self@.events, id@),
                None => !has_event(self@.events, id@),
            },
    {
        let n = self.events.len();
        for i in 0..n
            invariant
                n == self.events@.len(),
                self@.inv(),
                forall|k: int| 0 <= k < i ==> self.events@[k].event_id@ != id@,
        {
            if self.events[i].event_id == *id {
                proof {
                    lemma_event_pos(self@.events, i as int);
                }
                return Some(i);
            }
        }
        None
    }

    fn alert_index(&self, fingerprint: &String) -> (r: Option<usize>)
        requires
            self@.inv(),
        ensures
            match r {
                Some(i) => has_alert(self@.alerts, fingerprint@) && i == alert_pos(
                    self@.alerts,
                    fingerprint@,
                ) && find_alert(self@.alerts, fingerprint@) == Some(self@.alerts[i as int]),
                None => !has_alert(self@.alerts, fingerprint@) && find_alert(
                    self@.alerts,
                    fingerprint@,
                ) is None,
            },
    {
        let n = self.alerts.len();
        for i in 0..n
            invariant
                n == self.alerts@.len(),
                self@.inv(),
                forall|k: int| 0 <= k < i ==> self.alerts@[k].fingerprint@ != fingerprint@,
        {
            if self.alerts[i].fingerprint == *fingerprint {
                proof {
                    lemma_alert_pos(self@.alerts, i as int);
                }
                return Some(i);
            }
        }
        None
    }


    fn job_queued(jobs: &Vec<QueuedNotification>, event_id: &String, channel: &String) -> (r: bool)
        ensures
            r == has_job(rows(jobs@), event_id@, channel@),
    {
        let n = jobs.len();
        for i in 0..n
            invariant
                n == jobs@.len(),
                forall|k: int|
                    0 <= k < i ==> !(jobs@[k].job.event_id@ == event_id@ && jobs@[k].job.channel@
                        == channel@),
        {
            if jobs[i].job.event_id == *event_id && jobs[i].job.channel == *channel {
                assert(rows(jobs@)[i as int].event_id == event_id@);
                return true;
            }
        }
        proof {
            if has_job(rows(jobs@), event_id@, channel@) {
                let k = choose|k: int|
                    0 <= k < rows(jobs@).len() && #[trigger] rows(jobs@)[k].event_id == event_id@
                        && rows(jobs@)[k].channel == channel@;
                assert(rows(jobs@)[k] == jobs@[k].row());
            }
        }
        false
    }

    /// Accepts an event in one transaction: refuses an invalid event or a
    /// conflicting payload for a known id, answers a repeat with the alert of
    /// its fingerprint and no change, and otherwise stores the event, moves its
    /// alert and queues its notifications (see `StoreState::accept`).
    pub fn accept(&mut self, policy: &PolicyCatalog, event: &Event, payload: String, clock: &Clock) -> (r: Result<EventResult, AcceptError>)
        requires
            old(self)@.has_count_room(*event),
        ensures
            (final(self)@, r) == old(self)@.accept(*policy, *event, payload, clock.now_text),
            old(self)@.inv(),
            final(self)@.inv(),
    {
        proof {
            use_type_invariant(&*self);
            law_accept_keeps_invariant(self@, *policy, *event, payload, clock.now_text);
        }
        if let Err(e) = event.validate() {
            return Err(AcceptError::Invalid(e));
        }
        if let Some(i) = self.event_index(&event.event_id) {
            if self.events[i].payload != payload {
                return Err(AcceptError::Conflict);
            }
            return match self.alert_index(&event.fingerprint) {
                None => Err(AcceptError::MissingAlertState),
                Some(j) => Ok(EventResult { duplicate: true, alert: self.alerts[j].duplicate() }),
            };
        }
        let existing_index = self.alert_index(&event.fingerprint);
        let existing = match existing_index {
            Some(j) => Some(self.alerts[j].duplicate()),
            None => None,
        };
        let alert = transition_alert(existing, event);
        let channels = policy.channels_for(event);
        let notify = should_notify(event, &alert);
        if notify && channels.len() as u64 > (i64::MAX as u64 + 1) - self.next_id {
            return Err(AcceptError::QueueFull);
        }
        let ghost s = self@;
        let mut taken = ServerEventStore::new();
        std::mem::swap(self, &mut taken);
        let ServerEventStore { mut events, mut alerts, mut notifications, mut next_id, enrollments } = taken;
        assert(events@ == s.events && alerts@ == s.alerts && rows(notifications@) == s.jobs
            && next_id == s.next_id);
        events.push(
            StoredEvent {
                event_id: event.event_id.clone(),
                payload,
                fingerprint: event.fingerprint.clone(),
                received_at: clock.now_text.clone(),
            },
        );
        match existing_index {
            Some(j) => {
                alerts.set(j, alert.duplicate());
            },
            None => {
                alerts.push(alert.duplicate());
            },
        }
        assert(alerts@ =~= upsert_alert(s.alerts, alert));
        if notify {
            let message = render_event(event, &alert);
            let m = channels.len();
            let ghost base_jobs = s.jobs;
            let ghost base_id = s.next_id;
            let ghost chs = texts(channels@);
            proof {
                lemma_enqueue_jobs(base_jobs, base_id, event.event_id@, event.fingerprint@, chs, message@, clock.now_text@);
            }
            for k in 0..m
                invariant
                    m == channels@.len(),
                    chs == texts(channels@),
                    base_id + m <= i64::MAX + 1,
                    (rows(notifications@), next_id as int) == enqueue_jobs(
                        base_jobs,
                        base_id,
                        event.event_id@,
                        event.fingerprint@,
                        chs.take(k as int),
                        message@,
                        clock.now_text@,
                    ),
                    queue_ok(base_jobs, base_id),
                    base_id >= 1,
            {
                proof {
                    assert(chs.take(k + 1).drop_last() =~= chs.take(k as int));
                    assert(chs.take(k + 1).last() == channels@[k as int]@);
                    lemma_enqueue_jobs(base_jobs, base_id, event.event_id@, event.fingerprint@, chs.take(k as int), message@, clock.now_text@);
                }
                if !ServerEventStore::job_queued(&notifications, &event.event_id, &channels[k]) {
                    let ghost before = notifications@;
                    notifications.push(
                        QueuedNotification {
                            job: NotificationJob {
                                id: next_id as i64,
                                event_id: event.event_id.clone(),
                                fingerprint: event.fingerprint.clone(),
                                channel: channels[k].clone(),
                                payload: message.clone(),
                                status: "pending".to_owned(),
                                attempts: 0,
                                next_attempt_at: clock.now_text.clone(),
                                last_error: None,
                                retryable: true,
                                sent_at: None,
                            },
                            claimed_at: None,
                        },
                    );
                    assert(rows(notifications@) =~= rows(before).push(
                        pending_job(next_id as int, event.event_id@, event.fingerprint@, channels@[k as int]@, message@, clock.now_text@),
                    ));
                    next_id = next_id + 1;
                }
            }
            assert(chs.take(m as int) =~= chs);
        }
        proof {
            law_accept_keeps_invariant(s, *policy, *event, payload, clock.now_text);
        }
        *self = ServerEventStore { events, alerts, notifications, next_id, enrollments };
        Ok(EventResult { duplicate: false, alert })
    }


    fn claimable_at(q: &QueuedNotification, max_attempts: u32, clock: &Clock) -> (r: bool)
        ensures
            r == claimable(q.row(), max_attempts, clock.now_text@, clock.stale_before_text@),
    {
        let job = &q.job;
        if job.attempts >= max_attempts {
            return false;
        }
        if text_eq(job.status.as_str(), "pending") {
            return true;
        }
        if text_eq(job.status.as_str(), "failed") && job.retryable && text_at_or_before(
            job.next_attempt_at.as_str(),
            clock.now_text.as_str(),
        ) {
            return true;
        }
        if text_eq(job.status.as_str(), "in_flight") {
            match &q.claimed_at {
                Some(c) => {
                    return text_at_or_before(c.as_str(), clock.stale_before_text.as_str());
                },
                None => {
                    return false;
                },
            }
        }
        false
    }

    /// Claims the first claimable notification, in id order (see
    /// `StoreState::claim`), and returns it as claimed.
    pub fn claim_notification(&mut self, clock: &Clock, max_attempts: u32) -> (r: Option<NotificationJob>)
        ensures
            final(self)@ == old(self)@.claim(max_attempts, clock.now_text@, clock.stale_before_text@).0,
            match old(self)@.claim(max_attempts, clock.now_text@, clock.stale_before_text@).1 {
                Some(row) => r is Some && r->0.row(Some(clock.now_text@)) == row,
                None => r is None,
            },
            old(self)@.inv(),
            final(self)@.inv(),
    {
        proof {
            use_type_invariant(&*self);
            law_queue_operations_keep_invariant(self@, max_attempts, clock.now_text@, clock.stale_before_text@, 0, arbitrary());
        }
        let ghost s = self@;
        let n = self.notifications.len();
        let mut found: Option<usize> = None;
        let mut i: usize = 0;
        while i < n
            invariant_except_break
                found is None,
                forall|k: int| 0 <= k < i ==> !claimable(#[trigger] s.jobs[k], max_attempts, clock.now_text@, clock.stale_before_text@),
            invariant
                n == self.notifications@.len(),
                s == self@,
                i <= n,
            ensures
                match found {
                    Some(f) => first_claimable(s.jobs, f as int, max_attempts, clock.now_text@, clock.stale_before_text@),
                    None => forall|k: int| 0 <= k < n ==> !claimable(#[trigger] s.jobs[k], max_attempts, clock.now_text@, clock.stale_before_text@),
                },
            decreases n - i,
        {
            assert(s.jobs[i as int] == self.notifications@[i as int].row());
            if ServerEventStore::claimable_at(&self.notifications[i], max_attempts, clock) {
                found = Some(i);
                break;
            }
            i = i + 1;
        }
        match found {
            None => {
                proof {
                    if exists|i: int| first_claimable(s.jobs, i, max_attempts, clock.now_text@, clock.stale_before_text@) {
                        let i = choose|i: int| first_claimable(s.jobs, i, max_attempts, clock.now_text@, clock.stale_before_text@);
                        assert(!claimable(s.jobs[i], max_attempts, clock.now_text@, clock.stale_before_text@));
                    }
                }
                None
            },
            Some(i) => {
                proof {
                    lemma_first_claimable_unique(s.jobs, i as int, max_attempts, clock.now_text@, clock.stale_before_text@);
                }
                let mut job = self.notifications[i].job.duplicate();
                job.attempts = job.attempts + 1;
                job.status = "in_flight".to_owned();
                let mut taken = ServerEventStore::new();
                std::mem::swap(self, &mut taken);
                let ServerEventStore { events, alerts, mut notifications, next_id, enrollments } = taken;
                notifications.set(i, QueuedNotification { job: job.duplicate(), claimed_at: Some(clock.now_text.clone()) });
                let ghost j = s.jobs[i as int];
                proof {
                    let claimed = JobRow { status: "in_flight"@, attempts: j.attempts + 1, claimed_at: Some(clock.now_text@), ..j };
                    assert(rows(notifications@) =~= s.jobs.update(i as int, claimed));
                    law_queue_operations_keep_invariant(s, max_attempts, clock.now_text@, clock.stale_before_text@, 0, arbitrary());
                }
                *self = ServerEventStore { events, alerts, notifications, next_id, enrollments };
                Some(job)
            },
        }
    }

    fn in_flight_index(&self, id: i64) -> (r: Option<usize>)
        requires
            self@.inv(),
        ensures
            match r {
                Some(i) => in_flight_at(self@.jobs, id as int) && i == job_pos(self@.jobs, id as int),
                None => !in_flight_at(self@.jobs, id as int),
            },
    {
        let n = self.notifications.len();
        for i in 0..n
            invariant
                n == self.notifications@.len(),
                self@.inv(),
                forall|k: int| 0 <= k < i ==> !(#[trigger] self@.jobs[k].id == id && self@.jobs[k].status == "in_flight"@),
        {
            assert(self@.jobs[i as int] == self.notifications@[i as int].row());
            if self.notifications[i].job.id == id && text_eq(self.notifications[i].job.status.as_str(), "in_flight") {
                proof {
                    lemma_job_pos(self@.jobs, i as int);
                }
                return Some(i);
            }
        }
        None
    }

    /// Marks an in-flight notification as sent (see `StoreState::complete`);
    /// any other notification is left as it is.
    pub fn complete_notification(&mut self, id: i64, clock: &Clock)
        ensures
            final(self)@ == old(self)@.complete(id as int, clock.now_text@),
            old(self)@.inv(),
            final(self)@.inv(),
    {
        proof {
            use_type_invariant(&*self);
            law_queue_operations_keep_invariant(self@, 0, clock.now_text@, clock.now_text@, id as int, arbitrary());
        }
        let ghost s = self@;
        if let Some(i) = self.in_flight_index(id) {
            let mut job = self.notifications[i].job.duplicate();
            job.status = "sent".to_owned();
            job.sent_at = Some(clock.now_text.clone());
            job.last_error = None;
            let mut taken = ServerEventStore::new();
            std::mem::swap(self, &mut taken);
            let ServerEventStore { events, alerts, mut notifications, next_id, enrollments } = taken;
            notifications.set(i, QueuedNotification { job, claimed_at: None });
            proof {
                let j = s.jobs[i as int];
                assert(rows(notifications@) =~= s.jobs.update(i as int, JobRow { status: "sent"@, sent_at: Some(clock.now_text@), claimed_at: None, last_error: None, ..j }));
                law_queue_operations_keep_invariant(s, 0, clock.now_text@, clock.now_text@, id as int, arbitrary());
            }
            *self = ServerEventStore { events, alerts, notifications, next_id, enrollments };
        }
    }

    /// Records a failed delivery of an in-flight notification (see
    /// `StoreState::fail`); any other notification is left as it is.
    pub fn fail_notification(&mut self, id: i64, update: &NotificationFailureUpdate)
        requires
            update.schedulable(),
        ensures
            final(self)@ == old(self)@.fail(id as int, *update),
            old(self)@.inv(),
            final(self)@.inv(),
    {
        proof {
            use_type_invariant(&*self);
            law_queue_operations_keep_invariant(self@, 0, Seq::empty(), Seq::empty(), id as int, *update);
        }
        let ghost s = self@;
        let next_attempt_at = if !update.retryable || update.attempts >= update.max_attempts {
            update.now.now_text.clone()
        } else {
            retry_time(&update.now.now, update.attempts, update.retry_delay_seconds)
        };
        if let Some(i) = self.in_flight_index(id) {
            let mut job = self.notifications[i].job.duplicate();
            job.status = "failed".to_owned();
            job.next_attempt_at = next_attempt_at;
            job.last_error = Some(update.error.clone());
            job.retryable = update.retryable;
            let mut taken = ServerEventStore::new();
            std::mem::swap(self, &mut taken);
            let ServerEventStore { events, alerts, mut notifications, next_id, enrollments } = taken;
            notifications.set(i, QueuedNotification { job, claimed_at: None });
            proof {
                let j = s.jobs[i as int];
                assert(rows(notifications@) =~= s.jobs.update(i as int, JobRow {
                    status: "failed"@,
                    next_attempt_at: update.next_attempt_text(),
                    last_error: Some(update.error@),
                    retryable: update.retryable,
                    claimed_at: None,
                    ..j
                }));
                law_queue_operations_keep_invariant(s, 0, Seq::empty(), Seq::empty(), id as int, *update);
            }
            *self = ServerEventStore { events, alerts, notifications, next_id, enrollments };
        }
    }

    /// Records a failed delivery when its next attempt time can be written;
    /// otherwise changes nothing and returns `false`.
    pub fn try_fail_notification(&mut self, id: i64, update: &NotificationFailureUpdate) -> (r: bool)
        ensures
            r == update.schedulable(),
            r ==> final(self)@ == old(self)@.fail(id as int, *update),
            !r ==> final(self)@ == old(self)@,
            old(self)@.inv(),
            final(self)@.inv(),
    {
        proof {
            use_type_invariant(&*self);
            law_queue_operations_keep_invariant(self@, 0, Seq::empty(), Seq::empty(), id as int, *update);
        }
        match update.next_attempt_at() {
            Some(_) => {
                self.fail_notification(id, update);
                true
            },
            None => false,
        }
    }

    /// The queued notifications, in id order.
    pub fn list_notifications(&self) -> (r: Vec<NotificationJob>)
        ensures
            r@.len() == self@.jobs.len(),
            forall|i: int| 0 <= i < r@.len() ==> #[trigger] r@[i].row(self@.jobs[i].claimed_at) == self@.jobs[i],
            self@.inv(),
    {
        proof {
            use_type_invariant(&*self);
        }
        let n = self.notifications.len();
        let mut out: Vec<NotificationJob> = Vec::new();
        for i in 0..n
            invariant
                n == self.notifications@.len(),
                out@.len() == i,
                forall|k: int| 0 <= k < i ==> #[trigger] out@[k] == self.notifications@[k].job,
        {
            out.push(self.notifications[i].job.duplicate());
        }
        proof {
            assert forall|k: int| 0 <= k < out@.len() implies #[trigger] out@[k].row(self@.jobs[k].claimed_at) == self@.jobs[k] by {
                assert(self@.jobs[k] == self.notifications@[k].row());
            }
        }
        out
    }


    fn code_index(&self, hash: &String) -> (r: Option<usize>)
        requires
            self@.inv(),
        ensures
            match r {
                Some(i) => has_code(self@.enrollments, hash@) && i == code_pos(self@.enrollments, hash@),
                None => !has_code(self@.enrollments, hash@),
            },
    {
        let n = self.enrollments.len();
        for i in 0..n
            invariant
                n == self.enrollments@.len(),
                self@.inv(),
                forall|k: int| 0 <= k < i ==> #[trigger] self@.enrollments[k].code_hash != hash@,
        {
            assert(self@.enrollments[i as int] == self.enrollments@[i as int].row());
            if self.enrollments[i].code_hash == *hash {
                proof {
                    lemma_code_pos(self@.enrollments, i as int);
                }
                return Some(i);
            }
        }
        None
    }

    /// Creates an enrollment code (see `StoreState::enroll`).
    pub fn add_enrollment(&mut self, name: &str, code: &str, ttl_seconds: u64, now: &Timestamp) -> (r: Result<(), EnrollmentError>)
        requires
            enrollment_request_issue(name@, code@, ttl_seconds) is None ==> expiry_defined(*now, ttl_seconds),
        ensures
            (final(self)@, r) == old(self)@.enroll(name@, code@, ttl_seconds, *now),
            r is Ok ==> expiry_reads_back(*now, ttl_seconds),
            old(self)@.inv(),
            final(self)@.inv(),
    {
        proof {
            use_type_invariant(&*self);
            law_enrollment_keeps_invariant(self@, name@, code@, ttl_seconds, false, *now, Seq::empty());
        }
        check_enrollment_request(name, code, ttl_seconds)?;
        let hash = hash_secret(code);
        if self.code_index(&hash).is_some() {
            return Err(EnrollmentError::DuplicateCode);
        }
        let expires_at = match enrollment_expiry(now, ttl_seconds) {
            Some(t) => t,
            None => String::new(),
        };
        let ghost s = self@;
        let mut taken = ServerEventStore::new();
        std::mem::swap(self, &mut taken);
        let ServerEventStore { events, alerts, notifications, next_id, mut enrollments } = taken;
        let ghost before = enrollments@;
        enrollments.push(Enrollment { code_hash: hash, name: name.to_owned(), expires_at, consumed_at: None });
        proof {
            assert(enrollments@.map_values(|e: Enrollment| e.row()) =~= before.map_values(|e: Enrollment| e.row()).push(
                EnrollmentRow { code_hash: secret_hash(code@), name: name@, expires_at: expiry_text(*now, ttl_seconds), consumed_at: None },
            ));
            law_enrollment_keeps_invariant(s, name@, code@, ttl_seconds, false, *now, Seq::empty());
        }
        *self = ServerEventStore { events, alerts, notifications, next_id, enrollments };
        Ok(())
    }

    /// Creates an enrollment code when its expiry can be written; `None`, with
    /// nothing changed, when the request is valid but the expiry cannot be written.
    pub fn try_add_enrollment(&mut self, name: &str, code: &str, ttl_seconds: u64, now: &Timestamp) -> (r: Option<Result<(), EnrollmentError>>)
        ensures
            match r {
                Some(res) => (enrollment_request_issue(name@, code@, ttl_seconds) is None ==> expiry_defined(*now, ttl_seconds))
                    && (final(self)@, res) == old(self)@.enroll(name@, code@, ttl_seconds, *now),
                None => enrollment_request_issue(name@, code@, ttl_seconds) is None && !expiry_defined(*now, ttl_seconds)
                    && final(self)@ == old(self)@,
            },
            old(self)@.inv(),
            final(self)@.inv(),
    {
        proof {
            use_type_invariant(&*self);
            law_enrollment_keeps_invariant(self@, name@, code@, ttl_seconds, false, *now, Seq::empty());
        }
        if check_enrollment_request(name, code, ttl_seconds).is_ok() && enrollment_expiry(now, ttl_seconds).is_none() {
            return None;
        }
        Some(self.add_enrollment(name, code, ttl_seconds, now))
    }

    /// Consumes an enrollment code for an agent (see `StoreState::consume`);
    /// `credential_exists` tells whether the agent already has a credential file.
    pub fn consume_enrollment(&mut self, name: &str, code: &str, credential_exists: bool, clock: &Clock) -> (r: Result<(), EnrollmentError>)
        ensures
            (final(self)@, r) == old(self)@.consume(name@, code@, credential_exists, clock.now, clock.now_text@),
            old(self)@.inv(),
            final(self)@.inv(),
    {
        proof {
            use_type_invariant(&*self);
            law_enrollment_keeps_invariant(self@, name@, code@, 1, credential_exists, clock.now, clock.now_text@);
        }
        if let Err(e) = validate_agent_name(name) {
            return Err(EnrollmentError::InvalidName(e));
        }
        if text_is_blank(code) {
            return Err(EnrollmentError::EmptyCode);
        }
        if credential_exists {
            return Err(EnrollmentError::CredentialExists);
        }
        let hash = hash_secret(code);
        let i = match self.code_index(&hash) {
            None => return Err(EnrollmentError::InvalidCode),
            Some(i) => i,
        };
        assert(self@.enrollments[i as int] == self.enrollments@[i as int].row());
        if !crate::text::text_eq(self.enrollments[i].name.as_str(), name) {
            return Err(EnrollmentError::NameMismatch);
        }
        if self.enrollments[i].consumed_at.is_some() {
            return Err(EnrollmentError::AlreadyUsed);
        }
        let expires = match parse_rfc3339(self.enrollments[i].expires_at.as_str()) {
            None => return Err(EnrollmentError::InvalidExpiry),
            Some(t) => t,
        };
        if clock.now.is_at_or_after(&expires) {
            return Err(EnrollmentError::Expired);
        }
        let ghost s = self@;
        let row = Enrollment {
            code_hash: self.enrollments[i].code_hash.clone(),
            name: self.enrollments[i].name.clone(),
            expires_at: self.enrollments[i].expires_at.clone(),
            consumed_at: Some(clock.now_text.clone()),
        };
        let mut taken = ServerEventStore::new();
        std::mem::swap(self, &mut taken);
        let ServerEventStore { events, alerts, notifications, next_id, mut enrollments } = taken;
        let ghost before = enrollments@;
        enrollments.set(i, row);
        proof {
            assert(enrollments@.map_values(|e: Enrollment| e.row()) =~= s.enrollments.update(
                i as int,
                EnrollmentRow { consumed_at: Some(clock.now_text@), ..s.enrollments[i as int] },
            ));
            law_enrollment_keeps_invariant(s, name@, code@, 1, credential_exists, clock.now, clock.now_text@);
        }
        *self = ServerEventStore { events, alerts, notifications, next_id, enrollments };
        Ok(())
    }


    fn selected(alert: &AlertRecord, status: Option<AlertStatus>) -> (r: bool)
        ensures
            r == status_selected(*alert, status),
    {
        match status {
            None => true,
            Some(s) => alert.status == s,
        }
    }

    /// The alerts that pass the status filter, latest `last_seen` first, at
    /// most the limit brought into 1 to 500 (see `is_alert_listing`).
    pub fn list_alerts(&self, status: Option<AlertStatus>, limit: usize) -> (r: Vec<AlertRecord>)
        ensures
            is_alert_listing(self@.alerts, status, limit, r@),
            self@.inv(),
    {
        proof {
            use_type_invariant(&*self);
        }
        let k: usize = if limit < 1 {
            1
        } else if limit > 500 {
            500
        } else {
            limit
        };
        let alerts = &self.alerts;
        let n = alerts.len();
        let mut taken: Vec<bool> = Vec::new();
        for i in 0..n
            invariant
                taken@.len() == i,
                forall|t: int| 0 <= t < i ==> !#[trigger] taken@[t],
        {
            taken.push(false);
        }
        let ghost mut idx: Seq<int> = Seq::empty();
        let mut out: Vec<AlertRecord> = Vec::new();
        let mut done = false;
        while !done && out.len() < k
            invariant
                n == alerts@.len(),
                k == clamped_limit(limit),
                taken@.len() == n,
                idx.len() == out@.len(),
                out@.len() <= k,
                forall|i: int| 0 <= i < n ==> (#[trigger] taken@[i] <==> idx.contains(i)),
                forall|t: int|
                    0 <= t < idx.len() ==> 0 <= #[trigger] idx[t] < n && status_selected(alerts@[idx[t]], status)
                        && out@[t] == alerts@[idx[t]],
                forall|t: int, u: int| 0 <= t < u < idx.len() ==> #[trigger] idx[t] != #[trigger] idx[u],
                forall|t: int, u: int|
                    0 <= t < u < out@.len() ==> text_le(#[trigger] out@[u].last_seen@, #[trigger] out@[t].last_seen@),
                forall|j: int|
                    0 <= j < n && status_selected(#[trigger] alerts@[j], status) && !taken@[j] && out@.len() > 0
                        ==> text_le(alerts@[j].last_seen@, out@.last().last_seen@),
                done ==> forall|j: int| 0 <= j < n && status_selected(#[trigger] alerts@[j], status) ==> taken@[j],
            decreases k - out@.len() + (if done { 0int } else { 1int }),
        {
            let mut best: Option<usize> = None;
            for i in 0..n
                invariant
                    n == alerts@.len(),
                    taken@.len() == n,
                    match best {
                        Some(b) => b < n && status_selected(alerts@[b as int], status) && !taken@[b as int]
                            && forall|j: int| 0 <= j < i && status_selected(#[trigger] alerts@[j], status) && !taken@[j]
                                ==> text_le(alerts@[j].last_seen@, alerts@[b as int].last_seen@),
                        None => forall|j: int| 0 <= j < i ==> !(status_selected(#[trigger] alerts@[j], status) && !taken@[j]),
                    },
            {
                if !taken[i] && ServerEventStore::selected(&alerts[i], status) {
                    match best {
                        None => {
                            proof {
                                lemma_text_le_total(alerts@[i as int].last_seen@, alerts@[i as int].last_seen@);
                            }
                            best = Some(i);
                        },
                        Some(b) => {
                            if !text_at_or_before(alerts[i].last_seen.as_str(), alerts[b].last_seen.as_str()) {
                                proof {
                                    lemma_text_le_total(alerts@[i as int].last_seen@, alerts@[b as int].last_seen@);
                                    assert forall|j: int| 0 <= j < i + 1 && status_selected(#[trigger] alerts@[j], status) && !taken@[j]
                                        implies text_le(alerts@[j].last_seen@, alerts@[i as int].last_seen@) by {
                                        if j < i {
                                            lemma_text_le_transitive(alerts@[j].last_seen@, alerts@[b as int].last_seen@, alerts@[i as int].last_seen@);
                                        } else {
                                            lemma_text_le_total(alerts@[i as int].last_seen@, alerts@[i as int].last_seen@);
                                        }
                                    }
                                }
                                best = Some(i);
                            }
                        },
                    }
                }
            }
            match best {
                None => {
                    done = true;
                },
                Some(b) => {
                    proof {
                        assert(!idx.contains(b as int));
                        if out@.len() > 0 {
                            assert forall|t: int, u: int| 0 <= t < u < out@.len() + 1 implies text_le(
                                #[trigger] out@.push(alerts@[b as int])[u].last_seen@,
                                #[trigger] out@.push(alerts@[b as int])[t].last_seen@,
                            ) by {
                                if u == out@.len() {
                                    if t < out@.len() - 1 {
                                        lemma_text_le_transitive(
                                            alerts@[b as int].last_seen@,
                                            out@.last().last_seen@,
                                            out@[t].last_seen@,
                                        );
                                    }
                                }
                            }
                        }
                    }
                    let ghost old_idx = idx;
                    taken.set(b, true);
                    out.push(alerts[b].duplicate());
                    proof {
                        idx = idx.push(b as int);
                        assert forall|i: int| 0 <= i < n implies (#[trigger] taken@[i] <==> idx.contains(i)) by {
                            if i == b {
                                assert(idx[idx.len() - 1] == i);
                            } else {
                                if idx.contains(i) {
                                    let t = choose|t: int| 0 <= t < idx.len() && idx[t] == i;
                                    assert(old_idx[t] == i);
                                }
                                if old_idx.contains(i) {
                                    let t = choose|t: int| 0 <= t < old_idx.len() && old_idx[t] == i;
                                    assert(idx[t] == i);
                                }
                            }
                        }
                        assert forall|t: int, u: int| 0 <= t < u < idx.len() implies #[trigger] idx[t] != #[trigger] idx[u] by {
                            if u == idx.len() - 1 {
                                assert(old_idx.contains(old_idx[t]));
                            }
                        }
                    }
                },
            }
        }
        proof {
            assert(listing_at(self@.alerts, status, limit, out@, idx));
        }
        out
    }


    fn events_unique(events: &Vec<StoredEvent>) -> (r: bool)
        ensures
            r == forall|i: int, j: int| 0 <= i < j < events@.len() ==> #[trigger] events@[i].event_id@ != #[trigger] events@[j].event_id@,
    {
        let n = events.len();
        for j in 0..n
            invariant
                n == events@.len(),
                forall|a: int, b: int| 0 <= a < b < j ==> #[trigger] events@[a].event_id@ != #[trigger] events@[b].event_id@,
        {
            for i in 0..j
                invariant
                    n == events@.len(),
                    j < n,
                    forall|a: int, b: int| 0 <= a < b < j ==> #[trigger] events@[a].event_id@ != #[trigger] events@[b].event_id@,
                    forall|a: int| 0 <= a < i ==> #[trigger] events@[a].event_id@ != events@[j as int].event_id@,
            {
                if events[i].event_id == events[j].event_id {
                    return false;
                }
            }
        }
        true
    }

    fn alerts_ok(alerts: &Vec<AlertRecord>) -> (r: bool)
        ensures
            r == ((forall|i: int, j: int| 0 <= i < j < alerts@.len() ==> #[trigger] alerts@[i].fingerprint@ != #[trigger] alerts@[j].fingerprint@)
                && (forall|i: int| 0 <= i < alerts@.len() ==> #[trigger] alerts@[i].event_count >= 1)),
    {
        let n = alerts.len();
        for j in 0..n
            invariant
                n == alerts@.len(),
                forall|a: int, b: int| 0 <= a < b < j ==> #[trigger] alerts@[a].fingerprint@ != #[trigger] alerts@[b].fingerprint@,
                forall|a: int| 0 <= a < j ==> #[trigger] alerts@[a].event_count >= 1,
        {
            if alerts[j].event_count < 1 {
                return false;
            }
            for i in 0..j
                invariant
                    n == alerts@.len(),
                    j < n,
                    forall|a: int, b: int| 0 <= a < b < j ==> #[trigger] alerts@[a].fingerprint@ != #[trigger] alerts@[b].fingerprint@,
                    forall|a: int| 0 <= a < i ==> #[trigger] alerts@[a].fingerprint@ != alerts@[j as int].fingerprint@,
            {
                if alerts[i].fingerprint == alerts[j].fingerprint {
                    return false;
                }
            }
        }
        true
    }

    fn enrollments_unique(enrollments: &Vec<Enrollment>) -> (r: bool)
        ensures
            r == forall|i: int, j: int| 0 <= i < j < enrollments@.len() ==> #[trigger] enrollments@[i].code_hash@ != #[trigger] enrollments@[j].code_hash@,
    {
        let n = enrollments.len();
        for j in 0..n
            invariant
                n == enrollments@.len(),
                forall|a: int, b: int| 0 <= a < b < j ==> #[trigger] enrollments@[a].code_hash@ != #[trigger] enrollments@[b].code_hash@,
        {
            for i in 0..j
                invariant
                    n == enrollments@.len(),
                    j < n,
                    forall|a: int, b: int| 0 <= a < b < j ==> #[trigger] enrollments@[a].code_hash@ != #[trigger] enrollments@[b].code_hash@,
                    forall|a: int| 0 <= a < i ==> #[trigger] enrollments@[a].code_hash@ != enrollments@[j as int].code_hash@,
            {
                if enrollments[i].code_hash == enrollments[j].code_hash {
                    return false;
                }
            }
        }
        true
    }

    fn queue_consistent(jobs: &Vec<QueuedNotification>, next_id: u64, events: &Vec<StoredEvent>) -> (r: bool)
        ensures
            r == (queue_ok(rows(jobs@), next_id as int) && forall|i: int| 0 <= i < jobs@.len() ==> has_event(events@, #[trigger] rows(jobs@)[i].event_id)),
    {
        let n = jobs.len();
        for j in 0..n
            invariant
                n == jobs@.len(),
                queue_ok(rows(jobs@).take(j as int), next_id as int),
                forall|a: int| 0 <= a < j ==> has_event(events@, #[trigger] rows(jobs@)[a].event_id),
        {
            let id = jobs[j].job.id;
            if id < 1 || (id as u64) >= next_id {
                assert(rows(jobs@)[j as int].id == id);
                return false;
            }
            if j > 0 && jobs[j - 1].job.id >= id {
                assert(rows(jobs@)[j - 1].id == jobs@[j - 1].job.id);
                assert(rows(jobs@)[j as int].id == id);
                assert(!(rows(jobs@)[j - 1].id < rows(jobs@)[j as int].id));
                return false;
            }
            for i in 0..j
                invariant
                    n == jobs@.len(),
                    j < n,
                    forall|a: int| 0 <= a < i ==> !(#[trigger] jobs@[a].job.event_id@ == jobs@[j as int].job.event_id@ && jobs@[a].job.channel@ == jobs@[j as int].job.channel@),
            {
                if jobs[i].job.event_id == jobs[j].job.event_id && jobs[i].job.channel == jobs[j].job.channel {
                    assert(rows(jobs@)[i as int].event_id == rows(jobs@)[j as int].event_id);
                    return false;
                }
            }
            let mut known = false;
            let m = events.len();
            for e in 0..m
                invariant
                    m == events@.len(),
                    n == jobs@.len(),
                    j < n,
                    known ==> has_event(events@, jobs@[j as int].job.event_id@),
                    !known ==> forall|a: int| 0 <= a < e ==> #[trigger] events@[a].event_id@ != jobs@[j as int].job.event_id@,
            {
                if events[e].event_id == jobs[j].job.event_id {
                    assert(events@[e as int].event_id@ == jobs@[j as int].job.event_id@);
                    known = true;
                }
            }
            if !known {
                assert(rows(jobs@)[j as int].event_id == jobs@[j as int].job.event_id@);
                return false;
            }
            proof {
                let rs = rows(jobs@);
                let t = rs.take(j + 1);
                assert forall|a: int, b: int| 0 <= a < b < t.len() implies #[trigger] t[a].id < #[trigger] t[b].id by {
                    if b == j {
                        assert(rs.take(j as int)[a].id <= rs.take(j as int)[j - 1].id || a == j - 1);
                        if a < j - 1 {
                            assert(rs.take(j as int)[a].id < rs.take(j as int)[j - 1].id);
                        }
                    } else {
                        assert(rs.take(j as int)[a].id < rs.take(j as int)[b].id);
                    }
                }
                assert forall|a: int| 0 <= a < t.len() implies 1 <= #[trigger] t[a].id < next_id as int by {
                    if a < j {
                        assert(rs.take(j as int)[a] == t[a]);
                    }
                }
                assert forall|a: int, b: int| 0 <= a < b < t.len() implies !(#[trigger] t[a].event_id == #[trigger] t[b].event_id && t[a].channel == t[b].channel) by {
                    if b < j {
                        assert(rs.take(j as int)[a] == t[a] && rs.take(j as int)[b] == t[b]);
                    }
                }
            }
        }
        assert(rows(jobs@).take(n as int) =~= rows(jobs@));
        true
    }

    /// Rebuilds a store from its rows; `None` when the rows break the store's
    /// invariant (duplicate keys, ids out of order or not below `next_id`, a
    /// notification about an unknown event, an alert with no event counted).
    pub fn restore(
        events: Vec<StoredEvent>,
        alerts: Vec<AlertRecord>,
        notifications: Vec<QueuedNotification>,
        next_id: u64,
        enrollments: Vec<Enrollment>,
    ) -> (r: Option<ServerEventStore>)
        ensures
            match r {
                Some(l) => l@ == (StoreState {
                    events: events@,
                    alerts: alerts@,
                    jobs: rows(notifications@),
                    next_id: next_id as int,
                    enrollments: enrollments@.map_values(|e: Enrollment| e.row()),
                }),
                None => !(StoreState {
                    events: events@,
                    alerts: alerts@,
                    jobs: rows(notifications@),
                    next_id: next_id as int,
                    enrollments: enrollments@.map_values(|e: Enrollment| e.row()),
                }).inv(),
            },
            r matches Some(l) ==> l@.inv(),
    {
        let ghost st = StoreState {
            events: events@,
            alerts: alerts@,
            jobs: rows(notifications@),
            next_id: next_id as int,
            enrollments: enrollments@.map_values(|e: Enrollment| e.row()),
        };
        if next_id < 1 || next_id > i64::MAX as u64 + 1 {
            return None;
        }
        if !ServerEventStore::events_unique(&events) {
            proof {
                let (a, b) = choose|a: int, b: int| 0 <= a < b < events@.len() && #[trigger] events@[a].event_id@ == #[trigger] events@[b].event_id@;
                assert(st.events[a].event_id@ == st.events[b].event_id@);
            }
            return None;
        }
        if !ServerEventStore::alerts_ok(&alerts) {
            proof {
                if exists|a: int, b: int| 0 <= a < b < alerts@.len() && #[trigger] alerts@[a].fingerprint@ == #[trigger] alerts@[b].fingerprint@ {
                    let (a, b) = choose|a: int, b: int| 0 <= a < b < alerts@.len() && #[trigger] alerts@[a].fingerprint@ == #[trigger] alerts@[b].fingerprint@;
                    assert(st.alerts[a].fingerprint@ == st.alerts[b].fingerprint@);
                } else {
                    let a = choose|a: int| 0 <= a < alerts@.len() && !(#[trigger] alerts@[a].event_count >= 1);
                    assert(!(st.alerts[a].event_count >= 1));
                }
            }
            return None;
        }
        if !ServerEventStore::queue_consistent(&notifications, next_id, &events) {
            return None;
        }
        if !ServerEventStore::enrollments_unique(&enrollments) {
            proof {
                let i = choose|i: int, j: int| 0 <= i < j < enrollments@.len() && #[trigger] enrollments@[i].code_hash@ == #[trigger] enrollments@[j].code_hash@;
                let (a, b) = i;
                assert(st.enrollments[a].code_hash == st.enrollments[b].code_hash);
            }
            return None;
        }
        proof {
            assert forall|a: int, b: int| 0 <= a < b < st.enrollments.len() implies #[trigger] st.enrollments[a].code_hash != #[trigger] st.enrollments[b].code_hash by {
                assert(enrollments@[a].code_hash@ != enrollments@[b].code_hash@);
            }
        }
        Some(ServerEventStore { events, alerts, notifications, next_id, enrollments })
    }

    /// Whether accepting the event leaves every alert's event count in range.
    pub fn has_count_room(&self, event: &Event) -> (r: bool)
        ensures
            r == self@.has_count_room(*event),
            self@.inv(),
    {
        proof {
            use_type_invariant(&*self);
        }
        if event.validate().is_err() {
            return true;
        }
        if self.event_index(&event.event_id).is_some() {
            return true;
        }
        match self.alert_index(&event.fingerprint) {
            None => true,
            Some(i) => (event.state == EventState::Firing && self.alerts[i].status
                != AlertStatus::Firing) || self.alerts[i].event_count < i64::MAX,
        }
    }
}

} // verus!

//! The alert lifecycle: how each accepted event moves the alert of its
//! fingerprint, and when it is worth a notification.
use vstd::prelude::*;
use crate::model::{AlertRecord, AlertStatus, Event, EventState};

verus! {

/// The alert an event opens when its fingerprint has none yet.
pub open spec fn opened_alert(event: Event, status: AlertStatus) -> AlertRecord {
    AlertRecord {
        fingerprint: event.fingerprint,
        status,
        severity: event.severity,
        event_type: event.event_type,
        source: event.source,
        host_id: event.host_id,
        opened_at: event.occurred_at,
        last_seen: event.occurred_at,
        resolved_at: if event.state == EventState::Resolved {
            Some(event.occurred_at)
        } else {
            None
        },
        event_count: 1,
        last_event_id: event.event_id,
    }
}

/// The alert after `event`, given the alert its fingerprint had before.
///
/// Firing keeps a firing alert open (counting the event) and reopens any other
/// alert with a count of one; resolving resolves; information updates a firing
/// alert's sightings only and otherwise turns the alert informational.
pub open spec fn next_alert(existing: Option<AlertRecord>, event: Event) -> AlertRecord {
    match existing {
        None => opened_alert(
            event,
            match event.state {
                EventState::Firing => AlertStatus::Firing,
                EventState::Resolved => AlertStatus::Resolved,
                EventState::Info => AlertStatus::Info,
            },
        ),
        Some(a) => match event.state {
            EventState::Firing => if a.status == AlertStatus::Firing {
                AlertRecord {
                    severity: event.severity,
                    event_type: event.event_type,
                    source: event.source,
                    host_id: event.host_id,
                    last_seen: event.occurred_at,
                    resolved_at: None,
                    event_count: (a.event_count + 1) as i64,
                    last_event_id: event.event_id,
                    ..a
                }
            } else {
                AlertRecord {
                    status: AlertStatus::Firing,
                    severity: event.severity,
                    event_type: event.event_type,
                    source: event.source,
                    host_id: event.host_id,
                    opened_at: event.occurred_at,
                    last_seen: event.occurred_at,
                    resolved_at: None,
                    event_count: 1,
                    last_event_id: event.event_id,
                    ..a
                }
            },
            EventState::Resolved => AlertRecord {
                status: AlertStatus::Resolved,
                severity: event.severity,
                last_seen: event.occurred_at,
                resolved_at: Some(event.occurred_at),
                event_count: (a.event_count + 1) as i64,
                last_event_id: event.event_id,
                ..a
            },
            EventState::Info => if a.status == AlertStatus::Firing {
                AlertRecord {
                    last_seen: event.occurred_at,
                    event_count: (a.event_count + 1) as i64,
                    last_event_id: event.event_id,
                    ..a
                }
            } else {
                AlertRecord {
                    status: AlertStatus::Info,
                    severity: event.severity,
                    event_type: event.event_type,
                    source: event.source,
                    host_id: event.host_id,
                    last_seen: event.occurred_at,
                    resolved_at: None,
                    event_count: (a.event_count + 1) as i64,
                    last_event_id: event.event_id,
                    ..a
                }
            },
        },
    }
}

/// Whether the alert's event count can take `event`: the count grows unless
/// the event is the one that opens the alert or reopens it by firing, and a
/// growing count must be below `i64::MAX`.
pub open spec fn count_can_grow(existing: Option<AlertRecord>, event: Event) -> bool {
    match existing {
        None => true,
        Some(a) => (event.state == EventState::Firing && a.status != AlertStatus::Firing)
            || a.event_count < i64::MAX,
    }
}

/// An accepted event is notified unless it is a repeat of a firing alert.
pub open spec fn notifies(event: Event, alert: AlertRecord) -> bool {
    event.state != EventState::Firing || alert.event_count == 1
}


/// Law: every event leaves its alert holding the event as the latest sighting
/// (`last_event_id`, `last_seen`), under the same fingerprint.
pub proof fn law_event_is_latest_sighting(existing: Option<AlertRecord>, event: Event)
    requires
        existing matches Some(a) ==> a.fingerprint == event.fingerprint,
    ensures
        next_alert(existing, event).last_event_id == event.event_id,
        next_alert(existing, event).last_seen == event.occurred_at,
        next_alert(existing, event).fingerprint == event.fingerprint,
{
}

/// Law: the event count of an alert is at least one, and grows by one for each
/// event except a firing event that reopens the alert.
pub proof fn law_event_count(existing: Option<AlertRecord>, event: Event)
    requires
        existing matches Some(a) ==> a.event_count >= 1,
        count_can_grow(existing, event),
    ensures
        next_alert(existing, event).event_count >= 1,
        existing matches Some(a) ==> (next_alert(existing, event).event_count == a.event_count
            + 1 || (event.state == EventState::Firing && a.status != AlertStatus::Firing
            && next_alert(existing, event).event_count == 1)),
{
}

/// Law: a firing event deduplicates into an alert that is already firing: the
/// alert stays open since the same moment and the event is not notified again.
pub proof fn law_firing_is_deduplicated(a: AlertRecord, event: Event)
    requires
        a.status == AlertStatus::Firing,
        a.event_count >= 1,
        a.event_count < i64::MAX,
        event.state == EventState::Firing,
    ensures
        next_alert(Some(a), event).status == AlertStatus::Firing,
        next_alert(Some(a), event).opened_at == a.opened_at,
        next_alert(Some(a), event).event_count == a.event_count + 1,
        !notifies(event, next_alert(Some(a), event)),
{
}

/// Law: the first firing event of an alert that is not firing opens it anew
/// and is notified.
pub proof fn law_firing_opens(existing: Option<AlertRecord>, event: Event)
    requires
        event.state == EventState::Firing,
        existing matches Some(a) ==> a.status != AlertStatus::Firing,
    ensures
        next_alert(existing, event).status == AlertStatus::Firing,
        next_alert(existing, event).opened_at == event.occurred_at,
        next_alert(existing, event).resolved_at is None,
        next_alert(existing, event).event_count == 1,
        notifies(event, next_alert(existing, event)),
{
}

/// Law: a resolving event always resolves the alert at the event's time and is
/// always notified.
pub proof fn law_resolution(existing: Option<AlertRecord>, event: Event)
    requires
        event.state == EventState::Resolved,
    ensures
        next_alert(existing, event).status == AlertStatus::Resolved,
        next_alert(existing, event).resolved_at == Some(event.occurred_at),
        notifies(event, next_alert(existing, event)),
{
}

/// Law: an informational event never closes or reopens a firing alert.
pub proof fn law_info_keeps_firing(a: AlertRecord, event: Event)
    requires
        a.status == AlertStatus::Firing,
        event.state == EventState::Info,
    ensures
        next_alert(Some(a), event).status == AlertStatus::Firing,
        next_alert(Some(a), event).opened_at == a.opened_at,
        next_alert(Some(a), event).severity == a.severity,
        next_alert(Some(a), event).resolved_at == a.resolved_at,
{
}

/// Law: an informational event never makes an alert fire. The alert it
/// leaves is firing only when it was firing before; an alert that was not
/// firing becomes informational, and a fingerprint without an alert gets an
/// informational alert with one event and no resolution time.
pub proof fn law_info_never_fires(existing: Option<AlertRecord>, event: Event)
    requires
        event.state == EventState::Info,
    ensures
        next_alert(existing, event).status == AlertStatus::Firing ==> (existing is Some
            && existing->0.status == AlertStatus::Firing),
        existing is Some && existing->0.status != AlertStatus::Firing ==> next_alert(
            existing,
            event,
        ).status == AlertStatus::Info,
        existing is None ==> {
            &&& next_alert(existing, event).status == AlertStatus::Info
            &&& next_alert(existing, event).event_count == 1
            &&& next_alert(existing, event).resolved_at is None
        },
{
}

/// Law: every accepted event whose state is not firing is notified, whatever
/// the alert it moved (its status and event count).
pub proof fn law_non_firing_is_notified(event: Event, alert: AlertRecord)
    requires
        event.state != EventState::Firing,
    ensures
        notifies(event, alert),
{
}

/// The alert an event opens for a fingerprint that has none.
pub fn new_alert(event: &Event, status: AlertStatus) -> (r: AlertRecord)
    ensures
        r == opened_alert(*event, status),
{
    AlertRecord {
        fingerprint: event.fingerprint.clone(),
        status,
        severity: event.severity,
        event_type: event.event_type.clone(),
        source: event.source.clone(),
        host_id: event.host_id.clone(),
        opened_at: event.occurred_at.clone(),
        last_seen: event.occurred_at.clone(),
        resolved_at: if event.state == EventState::Resolved {
            Some(event.occurred_at.clone())
        } else {
            None
        },
        event_count: 1,
        last_event_id: event.event_id.clone(),
    }
}

/// Moves the alert of the event's fingerprint through the lifecycle.
pub fn transition_alert(existing: Option<AlertRecord>, event: &Event) -> (r: AlertRecord)
    requires
        count_can_grow(existing, *event),
    ensures
        r == next_alert(existing, *event),
{
    match existing {
        None => {
            let status = match event.state {
                EventState::Firing => AlertStatus::Firing,
                EventState::Resolved => AlertStatus::Resolved,
                EventState::Info => AlertStatus::Info,
            };
            new_alert(event, status)
        },
        Some(mut alert) => {
            match event.state {
                EventState::Firing => {
                    if alert.status == AlertStatus::Firing {
                        alert.severity = event.severity;
                        alert.event_type = event.event_type.clone();
                        alert.source = event.source.clone();
                        alert.host_id = event.host_id.clone();
                        alert.last_seen = event.occurred_at.clone();
                        alert.resolved_at = None;
                        alert.event_count = alert.event_count + 1;
                        alert.last_event_id = event.event_id.clone();
                    } else {
                        alert.status = AlertStatus::Firing;
                        alert.severity = event.severity;
                        alert.event_type = event.event_type.clone();
                        alert.source = event.source.clone();
                        alert.host_id = event.host_id.clone();
                        alert.opened_at = event.occurred_at.clone();
                        alert.last_seen = event.occurred_at.clone();
                        alert.resolved_at = None;
                        alert.event_count = 1;
                        alert.last_event_id = event.event_id.clone();
                    }
                },
                EventState::Resolved => {
                    alert.status = AlertStatus::Resolved;
                    alert.severity = event.severity;
                    alert.last_seen = event.occurred_at.clone();
                    alert.resolved_at = Some(event.occurred_at.clone());
                    alert.event_count = alert.event_count + 1;
                    alert.last_event_id = event.event_id.clone();
                },
                EventState::Info => {
                    if alert.status == AlertStatus::Firing {
                        alert.last_seen = event.occurred_at.clone();
                        alert.event_count = alert.event_count + 1;
                        alert.last_event_id = event.event_id.clone();
                    } else {
                        alert.status = AlertStatus::Info;
                        alert.severity = event.severity;
                        alert.event_type = event.event_type.clone();
                        alert.source = event.source.clone();
                        alert.host_id = event.host_id.clone();
                        alert.last_seen = event.occurred_at.clone();
                        alert.resolved_at = None;
                        alert.event_count = alert.event_count + 1;
                        alert.last_event_id = event.event_id.clone();
                    }
                },
            }
            alert
        },
    }
}

/// Whether an accepted event, having moved its alert to `alert`, is notified.
pub fn should_notify(event: &Event, alert: &AlertRecord) -> (r: bool)
    ensures
        r == notifies(*event, *alert),
{
    event.state != EventState::Firing || alert.event_count == 1
}

} // verus!

//! Instants and their RFC 3339 text, as the chrono crate reads and writes them.
use vstd::prelude::*;

verus! {

/// An instant: whole seconds since the Unix epoch and the nanoseconds within
/// that second (at or above one billion only while a leap second is shown).
#[derive(Clone, Copy, Debug, PartialEq, Eq, Structural)]
pub struct Timestamp {
    pub seconds: i64,
    pub nanos: u32,
}

impl Timestamp {
    /// Chronological order: `self` is at or after `other`.
    pub open spec fn at_or_after(self, other: Timestamp) -> bool {
        self.seconds > other.seconds || (self.seconds == other.seconds && self.nanos
            >= other.nanos)
    }

    /// Whether `self` is at or after `other`.
    pub fn is_at_or_after(&self, other: &Timestamp) -> (r: bool)
        ensures
            r == self.at_or_after(*other),
    {
        self.seconds > other.seconds || (self.seconds == other.seconds && self.nanos
            >= other.nanos)
    }
}

/// The instant that `chrono::DateTime::parse_from_rfc3339` reads from a text,
/// as (Unix seconds, sub-second nanoseconds), or `None` when it rejects the text.
pub uninterp spec fn rfc3339_instant(text: Seq<char>) -> Option<(i64, u32)>;

/// The text that `chrono::DateTime::<Utc>::to_rfc3339` writes for the instant
/// `chrono::DateTime::from_timestamp(seconds, nanos)`, or `None` when that
/// instant lies outside chrono's range.
pub uninterp spec fn utc_rfc3339_text(seconds: i64, nanos: u32) -> Option<Seq<char>>;

/// Calls `chrono::DateTime::parse_from_rfc3339` and reads the instant of the
/// result (`timestamp`, `timestamp_subsec_nanos`). The contract claims only that
/// the result is the one named by `rfc3339_instant` for this text.
#[verifier::external_body]
pub(crate) fn parse_rfc3339(text: &str) -> (r: Option<Timestamp>)
    ensures
        match rfc3339_instant(text@) {
            Some(p) => r == Some(Timestamp { seconds: p.0, nanos: p.1 }),
            None => r is None,
        },
{
    match chrono::DateTime::parse_from_rfc3339(text) {
        Ok(d) => Some(Timestamp { seconds: d.timestamp(), nanos: d.timestamp_subsec_nanos() }),
        Err(_) => None,
    }
}

/// Instants from 0000-01-01T00:00:00Z to 9999-12-31T23:59:59Z: those whose
/// year chrono writes with four digits.
pub open spec fn four_digit_year(seconds: i64) -> bool {
    -62_167_219_200 <= seconds <= 253_402_300_799
}

/// Calls `chrono::DateTime::from_timestamp` and, when it gives an instant,
/// `to_rfc3339` on it. The contract claims that the result is the one named by
/// `utc_rfc3339_text` for these arguments, and that for an instant of a
/// four-digit year outside a leap second, `parse_from_rfc3339` reads the text
/// back as the same instant (`write_rfc3339` writes `YYYY-MM-DDTHH:MM:SS`, the
/// exact fraction and `+00:00`, which `parse_rfc3339` reads).
#[verifier::external_body]
pub(crate) fn format_rfc3339(seconds: i64, nanos: u32) -> (r: Option<String>)
    ensures
        match utc_rfc3339_text(seconds, nanos) {
            Some(t) => r is Some && r->0@ == t,
            None => r is None,
        },
        r is Some && four_digit_year(seconds) && nanos < 1_000_000_000 ==> rfc3339_instant(
            r->0@,
        ) == Some((seconds, nanos)),
{
    match chrono::DateTime::from_timestamp(seconds, nanos) {
        Some(d) => Some(d.to_rfc3339()),
        None => None,
    }
}

/// Seconds after which an in-flight notification claim counts as abandoned.
pub const STALE_CLAIM_SECONDS: i64 = 300;

/// The texts a store operation writes for "now" and for the stale-claim cutoff.
pub struct Clock {
    pub now: Timestamp,
    pub now_text: String,
    pub stale_before_text: String,
}

impl Clock {
    /// The clock texts are those chrono writes for `now` and `now - 5 minutes`.
    pub open spec fn wf(self) -> bool {
        &&& self.now.nanos < 1_000_000_000
        &&& utc_rfc3339_text(self.now.seconds, self.now.nanos) == Some(self.now_text@)
        &&& self.now.seconds - STALE_CLAIM_SECONDS >= i64::MIN
        &&& utc_rfc3339_text((self.now.seconds - STALE_CLAIM_SECONDS) as i64, self.now.nanos)
            == Some(self.stale_before_text@)
    }

    /// Reads the clock texts for `now`; `None` when chrono cannot represent `now`
    /// or five minutes before it.
    pub fn at(now: Timestamp) -> (r: Option<Clock>)
        ensures
            match r {
                Some(c) => c.wf() && c.now == now,
                None => !(now.nanos < 1_000_000_000 && now.seconds - STALE_CLAIM_SECONDS
                    >= i64::MIN && utc_rfc3339_text(now.seconds, now.nanos) is Some
                    && utc_rfc3339_text(
                    (now.seconds - STALE_CLAIM_SECONDS) as i64,
                    now.nanos,
                ) is Some),
            },
    {
        if now.nanos >= 1_000_000_000 || now.seconds < i64::MIN + STALE_CLAIM_SECONDS {
            return None;
        }
        let now_text = match format_rfc3339(now.seconds, now.nanos) {
            Some(t) => t,
            None => return None,
        };
        let stale_before_text = match format_rfc3339(now.seconds - STALE_CLAIM_SECONDS, now.nanos) {
            Some(t) => t,
            None => return None,
        };
        Some(Clock { now, now_text, stale_before_text })
    }
}

} // verus!

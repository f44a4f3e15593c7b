//! Notification presentation and delivery policy: message rendering, retry
//! backoff, failure classes and the Telegram channel's rules.
use vstd::prelude::*;
use crate::model::{AlertRecord, AlertStatus, Event, Severity};
use crate::text::{
    byte_len, has_white_space, is_blank, join3, text_byte_len, text_eq, text_has_white_space,
    text_is_blank, trim, trimmed,
};
use crate::store::{NotificationFailureUpdate, NotificationJob};
use crate::time::{format_rfc3339, utc_rfc3339_text, Clock, Timestamp};

verus! {

/// The class of a failed delivery.
#[derive(Clone, Debug, PartialEq, Eq)]
pub enum NotificationFailure {
    Temporary(String),
    Permanent(String),
}

/// A failure is retried unless it is known to be permanent; a failure of no
/// known class is retried.
pub open spec fn is_retryable(failure: Option<NotificationFailure>) -> bool {
    match failure {
        None => true,
        Some(NotificationFailure::Temporary(_)) => true,
        Some(NotificationFailure::Permanent(_)) => false,
    }
}

/// Whether a delivery failure, classified as `failure` when its class is
/// known, should be retried.
pub fn failure_is_retryable(failure: &Option<NotificationFailure>) -> (r: bool)
    ensures
        r == is_retryable(*failure),
{
    match failure {
        None => true,
        Some(NotificationFailure::Temporary(_)) => true,
        Some(NotificationFailure::Permanent(_)) => false,
    }
}

/// The label of a host in messages; unknown hosts are not named.
pub open spec fn host_label(host: Seq<char>) -> Seq<char> {
    if host == "media"@ {
        "Media"@
    } else if host == "ops"@ {
        "Ops"@
    } else if host == "backup"@ {
        "Backup"@
    } else if host == "pve"@ {
        "PVE"@
    } else if host == "private-cloud"@ {
        "Private Cloud"@
    } else {
        "Infraestrutura"@
    }
}

/// The label of a severity in messages.
pub open spec fn severity_label(severity: Severity) -> Seq<char> {
    match severity {
        Severity::Critical => "CRÍTICA"@,
        Severity::Warning => "ATENÇÃO"@,
        Severity::Info => "INFORMAÇÃO"@,
    }
}

/// The human host label.
pub fn human_host(host: &str) -> (r: &'static str)
    ensures
        r@ == host_label(host@),
{
    if text_eq(host, "media") {
        "Media"
    } else if text_eq(host, "ops") {
        "Ops"
    } else if text_eq(host, "backup") {
        "Backup"
    } else if text_eq(host, "pve") {
        "PVE"
    } else if text_eq(host, "private-cloud") {
        "Private Cloud"
    } else {
        "Infraestrutura"
    }
}

/// The human severity label.
pub fn human_severity(severity: &Severity) -> (r: &'static str)
    ensures
        r@ == severity_label(*severity),
{
    match severity {
        Severity::Critical => "CRÍTICA",
        Severity::Warning => "ATENÇÃO",
        Severity::Info => "INFORMAÇÃO",
    }
}

/// The wording of a message: icon, status line, detail and action, chosen by
/// the event type, the alert status and the host.
pub struct Wording {
    pub icon: &'static str,
    pub status: &'static str,
    pub detail: &'static str,
    pub action: &'static str,
}

/// The wording texts (icon, status, detail, action) for an alert of the
/// given event type, status and host.
pub open spec fn wording(event_type: Seq<char>, status: AlertStatus, host: Seq<char>) -> (
    Seq<char>,
    Seq<char>,
    Seq<char>,
    Seq<char>,
) {
    if event_type == "storage.mount.missing"@ && status == AlertStatus::Firing && host
        == "media"@ {
        (
            "🚨"@,
            "ALERTA ATIVO"@,
            "O armazenamento de mídia não está montado."@,
            "Verificar o storage da Media."@,
        )
    } else if event_type == "storage.mount.missing"@ && status == AlertStatus::Resolved && host
        == "media"@ {
        (
            "✅"@,
            "ALERTA RESOLVIDO"@,
            "O armazenamento de mídia voltou a ficar disponível."@,
            "Nenhuma ação imediata; confirmar a operação normal."@,
        )
    } else if event_type == "backup.restic.stale"@ && status == AlertStatus::Firing {
        (
            "🚨"@,
            "ALERTA ATIVO"@,
            "A idade do backup ultrapassou o limite operacional."@,
            "Verificar o último backup e o mount de destino."@,
        )
    } else if event_type == "backup.restic.stale"@ && status == AlertStatus::Resolved {
        (
            "✅"@,
            "ALERTA RESOLVIDO"@,
            "A idade do backup voltou ao limite operacional."@,
            "Nenhuma ação imediata; confirmar o próximo ciclo."@,
        )
    } else if status == AlertStatus::Firing {
        (
            "⚠️"@,
            "ALERTA ATIVO"@,
            "Uma condição monitorada requer atenção."@,
            "Verificar o monitor correspondente."@,
        )
    } else if status == AlertStatus::Resolved {
        (
            "✅"@,
            "ALERTA RESOLVIDO"@,
            "A condição monitorada foi normalizada."@,
            "Nenhuma ação imediata."@,
        )
    } else {
        (
            "ℹ️"@,
            "INFORMAÇÃO"@,
            "Um evento operacional foi registrado."@,
            "Nenhuma ação imediata."@,
        )
    }
}

/// The notification text for an event and the alert it moved:
/// `"{icon} {status}\n{host} | Infraestrutura\n\n{detail}\n\nAção: {action}\nSeveridade: {severity}"`.
pub open spec fn rendered_message(event: Event, alert: AlertRecord) -> Seq<char> {
    let w = wording(event.event_type@, alert.status, event.host_id@);
    w.0 + " "@ + w.1 + "\n"@ + host_label(event.host_id@) + " | Infraestrutura\n\n"@ + w.2
        + "\n\nAção: "@ + w.3 + "\nSeveridade: "@ + severity_label(alert.severity)
}

fn choose_wording(event_type: &str, status: AlertStatus, host: &str) -> (r: Wording)
    ensures
        (r.icon@, r.status@, r.detail@, r.action@) == wording(event_type@, status, host@),
{
    let storage = text_eq(event_type, "storage.mount.missing");
    let media = text_eq(host, "media");
    let backup = text_eq(event_type, "backup.restic.stale");
    if storage && status == AlertStatus::Firing && media {
        Wording {
            icon: "🚨",
            status: "ALERTA ATIVO",
            detail: "O armazenamento de mídia não está montado.",
            action: "Verificar o storage da Media.",
        }
    } else if storage && status == AlertStatus::Resolved && media {
        Wording {
            icon: "✅",
            status: "ALERTA RESOLVIDO",
            detail: "O armazenamento de mídia voltou a ficar disponível.",
            action: "Nenhuma ação imediata; confirmar a operação normal.",
        }
    } else if backup && status == AlertStatus::Firing {
        Wording {
            icon: "🚨",
            status: "ALERTA ATIVO",
            detail: "A idade do backup ultrapassou o limite operacional.",
            action: "Verificar o último backup e o mount de destino.",
        }
    } else if backup && status == AlertStatus::Resolved {
        Wording {
            icon: "✅",
            status: "ALERTA RESOLVIDO",
            detail: "A idade do backup voltou ao limite operacional.",
            action: "Nenhuma ação imediata; confirmar o próximo ciclo.",
        }
    } else if status == AlertStatus::Firing {
        Wording {
            icon: "⚠️",
            status: "ALERTA ATIVO",
            detail: "Uma condição monitorada requer atenção.",
            action: "Verificar o monitor correspondente.",
        }
    } else if status == AlertStatus::Resolved {
        Wording {
            icon: "✅",
            status: "ALERTA RESOLVIDO",
            detail: "A condição monitorada foi normalizada.",
            action: "Nenhuma ação imediata.",
        }
    } else {
        Wording {
            icon: "ℹ️",
            status: "INFORMAÇÃO",
            detail: "Um evento operacional foi registrado.",
            action: "Nenhuma ação imediata.",
        }
    }
}

/// The notification text for an event and the alert it moved. It names the
/// host, the alert status and severity, and a fixed detail and action; it never
/// holds facts, fingerprints, identifiers or other event data.
pub fn render_event(event: &Event, alert: &AlertRecord) -> (r: String)
    ensures
        r@ == rendered_message(*event, *alert),
{
    let host = human_host(event.host_id.as_str());
    let severity = human_severity(&alert.severity);
    let w = choose_wording(event.event_type.as_str(), alert.status, event.host_id.as_str());
    let mut out = w.icon.to_owned();
    out.append(" ");
    out.append(w.status);
    out.append("\n");
    out.append(host);
    out.append(" | Infraestrutura\n\n");
    out.append(w.detail);
    out.append("\n\nAção: ");
    out.append(w.action);
    out.append("\nSeveridade: ");
    out.append(severity);
    out
}

/// Law: the notification text depends only on the event type and host of the
/// event and on the status and severity of the alert, so nothing else about
/// an event (facts, fingerprint, identifiers, timestamps) can reach a channel.
pub proof fn law_message_reveals_no_event_data(
    e1: Event,
    a1: AlertRecord,
    e2: Event,
    a2: AlertRecord,
)
    requires
        e1.event_type@ == e2.event_type@,
        e1.host_id@ == e2.host_id@,
        a1.status == a2.status,
        a1.severity == a2.severity,
    ensures
        rendered_message(e1, a1) == rendered_message(e2, a2),
{
}

/// The status line of a message for an alert status.
pub open spec fn status_title(status: AlertStatus) -> Seq<char> {
    match status {
        AlertStatus::Firing => "ALERTA ATIVO"@,
        AlertStatus::Resolved => "ALERTA RESOLVIDO"@,
        AlertStatus::Info => "INFORMAÇÃO"@,
    }
}

/// Law: the status line of a message follows the alert's status, whatever
/// the event type and host: a resolved alert reads `ALERTA RESOLVIDO`, a
/// firing one `ALERTA ATIVO`, an informational one `INFORMAÇÃO`, right after
/// the icon and a space at the start of the message.
pub proof fn law_status_line_follows_alert(event: Event, alert: AlertRecord)
    ensures
        ({
            let icon_len = wording(event.event_type@, alert.status, event.host_id@).0.len() as int;
            let title = status_title(alert.status);
            let n = title.len() as int;
            &&& rendered_message(event, alert).subrange(icon_len, icon_len + 1) == " "@
            &&& rendered_message(event, alert).subrange(icon_len + 1, icon_len + 1 + n) == title
            &&& rendered_message(event, alert)[icon_len + 1 + n] == '\n'
        }),
{
    let w = wording(event.event_type@, alert.status, event.host_id@);
    let m = rendered_message(event, alert);
    let title = status_title(alert.status);
    assert(w.1 == title);
    let k = w.0.len() as int;
    let n = title.len() as int;
    reveal_strlit(" ");
    reveal_strlit("\n");
    let head = w.0 + " "@ + w.1 + "\n"@;
    let tail = host_label(event.host_id@) + " | Infraestrutura\n\n"@ + w.2 + "\n\nAção: "@ + w.3
        + "\nSeveridade: "@ + severity_label(alert.severity);
    assert(m =~= head + tail);
    assert(head.len() == k + 1 + n + 1);
    assert forall|i: int| 0 <= i < head.len() implies m[i] == head[i] by {}
    assert(m.subrange(k, k + 1) =~= " "@);
    assert(m.subrange(k + 1, k + 1 + n) =~= title);
    assert(m[k + 1 + n] == '\n');
}

/// Largest doubling exponent of the retry backoff.
pub const MAX_BACKOFF_EXPONENT: u32 = 10;

/// The backoff exponent after `attempts` attempts: one less than the attempts,
/// at most ten.
pub open spec fn backoff_exponent(attempts: u32) -> nat {
    let e = if attempts == 0 {
        0nat
    } else {
        (attempts - 1) as nat
    };
    if e > 10 {
        10
    } else {
        e
    }
}

/// Two to the `n`.
pub open spec fn two_to(n: nat) -> nat
    decreases n,
{
    if n == 0 {
        1
    } else {
        2 * two_to((n - 1) as nat)
    }
}

/// The retry delay in seconds: `base * 2^exponent`, saturating at `u64::MAX`.
pub open spec fn retry_delay(attempts: u32, base_seconds: u64) -> u64 {
    let d = base_seconds * two_to(backoff_exponent(attempts));
    if d > u64::MAX {
        u64::MAX
    } else {
        d as u64
    }
}

/// The retry delay seconds.
pub fn retry_delay_seconds(attempts: u32, base_seconds: u64) -> (r: u64)
    ensures
        r == retry_delay(attempts, base_seconds),
{
    let exponent = if attempts == 0 {
        0
    } else {
        attempts - 1
    };
    let exponent = if exponent > MAX_BACKOFF_EXPONENT {
        MAX_BACKOFF_EXPONENT
    } else {
        exponent
    };
    let mut factor: u64 = 1;
    let mut i: u32 = 0;
    while i < exponent
        invariant
            i <= exponent <= 10,
            factor == two_to(i as nat),
            two_to(i as nat) <= 1024,
        decreases exponent - i,
    {
        proof {
            lemma_two_to_bounded((i + 1) as nat);
        }
        factor = factor * 2;
        i = i + 1;
    }
    proof {
        lemma_two_to_bounded(exponent as nat);
    }
    match base_seconds.checked_mul(factor) {
        Some(d) => d,
        None => u64::MAX,
    }
}

proof fn lemma_two_to_bounded(n: nat)
    requires
        n <= 10,
    ensures
        1 <= two_to(n) <= 1024,
        n >= 1 ==> two_to(n) == 2 * two_to((n - 1) as nat),
{
    reveal_with_fuel(two_to, 11);
    lemma_two_to_monotone(n, 10);
    lemma_two_to_monotone(0, n);
}

proof fn lemma_two_to_monotone(a: nat, b: nat)
    requires
        a <= b,
    ensures
        two_to(a) <= two_to(b),
    decreases b,
{
    if b > a {
        lemma_two_to_monotone(a, (b - 1) as nat);
    }
}

/// Law: the retry delay never shrinks as attempts accumulate.
pub proof fn law_backoff_monotone(a: u32, b: u32, base_seconds: u64)
    requires
        a <= b,
    ensures
        retry_delay(a, base_seconds) <= retry_delay(b, base_seconds),
{
    lemma_two_to_monotone(backoff_exponent(a), backoff_exponent(b));
    assert(base_seconds * two_to(backoff_exponent(a)) <= base_seconds * two_to(
        backoff_exponent(b),
    )) by (nonlinear_arith)
        requires
            two_to(backoff_exponent(a)) <= two_to(backoff_exponent(b)),
    ;
}

/// Law: while the doubling has not reached its cap or saturated, each further
/// attempt doubles the delay.
pub proof fn law_backoff_doubles(attempts: u32, base_seconds: u64)
    requires
        1 <= attempts <= 10,
        base_seconds * two_to(attempts as nat) <= u64::MAX,
    ensures
        retry_delay((attempts + 1) as u32, base_seconds) == 2 * retry_delay(
            attempts,
            base_seconds,
        ),
{
    lemma_two_to_bounded(attempts as nat);
    assert(backoff_exponent((attempts + 1) as u32) == attempts as nat);
    assert(backoff_exponent(attempts) == (attempts - 1) as nat);
    assert(base_seconds * two_to(attempts as nat) == 2 * (base_seconds * two_to(
        (attempts - 1) as nat,
    ))) by (nonlinear_arith)
        requires
            two_to(attempts as nat) == 2 * two_to((attempts - 1) as nat),
    ;
}

/// The retry delay as chrono's `TimeDelta::seconds` receives it (`delay as i64`).
/// This is the intended reading of the delay: a delay above `i64::MAX` wraps to
/// a negative offset, so the saturated delay `u64::MAX` schedules the retry one
/// second before `now` (a retry that is due at once).
pub open spec fn delay_offset(attempts: u32, base_seconds: u64) -> int {
    let d = retry_delay(attempts, base_seconds);
    if d <= i64::MAX {
        d as int
    } else {
        d - 0x1_0000_0000_0000_0000
    }
}

/// Largest span of seconds chrono's `TimeDelta::seconds` accepts.
pub open spec fn max_delta_seconds() -> int {
    i64::MAX / 1000
}

/// Whether the retry instant after `now` can be written: the delay fits a
/// chrono time delta and the instant lies in chrono's range.
pub open spec fn retry_time_defined(now: Timestamp, attempts: u32, base_seconds: u64) -> bool {
    let off = delay_offset(attempts, base_seconds);
    &&& -max_delta_seconds() <= off <= max_delta_seconds()
    &&& i64::MIN <= now.seconds + off <= i64::MAX
    &&& utc_rfc3339_text((now.seconds + off) as i64, now.nanos) is Some
}

/// The text of the retry instant after `now`.
pub open spec fn retry_time_text(now: Timestamp, attempts: u32, base_seconds: u64) -> Seq<
    char,
> {
    utc_rfc3339_text(
        (now.seconds + delay_offset(attempts, base_seconds)) as i64,
        now.nanos,
    )->0
}

fn offset_of(delay: u64) -> (r: i64)
    ensures
        r == (if delay <= i64::MAX {
            delay as int
        } else {
            delay - 0x1_0000_0000_0000_0000
        }),
{
    if delay <= i64::MAX as u64 {
        delay as i64
    } else {
        let below = u64::MAX - delay;
        -(below as i64) - 1
    }
}

/// The instant of the next attempt after a failure, `now` plus the backoff
/// delay, as RFC 3339 text.
pub fn retry_time(now: &Timestamp, attempts: u32, base_seconds: u64) -> (r: String)
    requires
        retry_time_defined(*now, attempts, base_seconds),
    ensures
        r@ == retry_time_text(*now, attempts, base_seconds),
{
    let off = offset_of(retry_delay_seconds(attempts, base_seconds));
    match format_rfc3339(now.seconds + off, now.nanos) {
        Some(t) => t,
        None => String::new(),
    }
}

/// The retry instant when it can be written; `None` exactly when chrono
/// cannot represent it.
pub fn try_retry_time(now: &Timestamp, attempts: u32, base_seconds: u64) -> (r: Option<String>)
    ensures
        match r {
            Some(t) => retry_time_defined(*now, attempts, base_seconds) && t@ == retry_time_text(
                *now,
                attempts,
                base_seconds,
            ),
            None => !retry_time_defined(*now, attempts, base_seconds),
        },
{
    let off = offset_of(retry_delay_seconds(attempts, base_seconds));
    if off < -(i64::MAX / 1000) || off > i64::MAX / 1000 {
        return None;
    }
    match now.seconds.checked_add(off) {
        None => None,
        Some(at) => format_rfc3339(at, now.nanos),
    }
}

/// Why a Telegram configuration or token is refused.
#[derive(Clone, Debug, PartialEq, Eq)]
pub enum TelegramError {
    InvalidChatId,
    InvalidTimeout,
    InvalidToken,
}

/// The Telegram channel's configuration.
#[derive(Clone, Debug)]
pub struct TelegramConfig {
    pub token_file: String,
    pub chat_id: String,
    pub timeout_seconds: u64,
}

/// The request timeout used when the configuration gives none.
pub fn default_timeout_seconds() -> (r: u64)
    ensures
        r == 10,
{
    10
}

/// The first problem of a Telegram configuration: a chat id of 1 to 128
/// non-blank bytes and a timeout of 1 to 120 seconds.
pub open spec fn telegram_config_issue(config: TelegramConfig) -> Option<TelegramError> {
    if is_blank(config.chat_id@) || byte_len(config.chat_id@) > 128 {
        Some(TelegramError::InvalidChatId)
    } else if config.timeout_seconds == 0 || config.timeout_seconds > 120 {
        Some(TelegramError::InvalidTimeout)
    } else {
        None
    }
}

impl TelegramConfig {
    /// Checks the chat id and the timeout.
    pub fn validate(&self) -> (r: Result<(), TelegramError>)
        ensures
            r == match telegram_config_issue(*self) {
                Some(e) => Err(e),
                None => Ok(()),
            },
    {
        if text_is_blank(self.chat_id.as_str()) || text_byte_len(self.chat_id.as_str()) > 128 {
            return Err(TelegramError::InvalidChatId);
        }
        if self.timeout_seconds == 0 || self.timeout_seconds > 120 {
            return Err(TelegramError::InvalidTimeout);
        }
        Ok(())
    }
}

/// A bot token, once trimmed, is 1 to 512 bytes with no white space.
pub open spec fn telegram_token_ok(token: Seq<char>) -> bool {
    token.len() > 0 && byte_len(token) <= 512 && !has_white_space(token)
}

/// Reads the bot token from the token file's contents: the trimmed text, when
/// it is a usable token.
pub fn telegram_token(contents: &str) -> (r: Result<String, TelegramError>)
    ensures
        match r {
            Ok(token) => token@ == trimmed(contents@) && telegram_token_ok(token@),
            Err(e) => e == TelegramError::InvalidToken && !telegram_token_ok(trimmed(contents@)),
        },
{
    let token = trim(contents);
    if token.as_str().unicode_len() == 0 || text_byte_len(token.as_str()) > 512
        || text_has_white_space(token.as_str()) {
        return Err(TelegramError::InvalidToken);
    }
    Ok(token)
}

/// The Bot API `sendMessage` address for a base address and token.
pub fn telegram_endpoint(base: &str, token: &str) -> (r: String)
    ensures
        r@ == base@ + "/bot"@ + token@ + "/sendMessage"@,
{
    let mut out = join3(base, "/bot", token);
    out.append("/sendMessage");
    out
}

/// The class of failure that an HTTP status of the Bot API means, or `None`
/// for success: 429 and server errors are temporary, others permanent.
#[derive(Clone, Copy, Debug, PartialEq, Eq, Structural)]
pub enum FailureClass {
    Temporary,
    Permanent,
}

/// The failure class of an HTTP status.
pub open spec fn status_failure(status: u16) -> Option<FailureClass> {
    if 200 <= status <= 299 {
        None
    } else if status == 429 || (500 <= status <= 599) {
        Some(FailureClass::Temporary)
    } else {
        Some(FailureClass::Permanent)
    }
}

/// Classifies the HTTP status of a Bot API reply.
pub fn classify_telegram_status(status: u16) -> (r: Option<FailureClass>)
    ensures
        r == status_failure(status),
{
    if 200 <= status && status <= 299 {
        None
    } else if status == 429 || (500 <= status && status <= 599) {
        Some(FailureClass::Temporary)
    } else {
        Some(FailureClass::Permanent)
    }
}


/// A channel that delivers notifications: its name, as routing rules name it,
/// and the delivery of one job. An implementation does the outside work; the
/// library relies on nothing but the signatures, and holds every outcome of
/// `send` possible.
pub trait NotificationChannel {
    fn name(&self) -> &str;

    fn send(&self, job: &NotificationJob) -> Result<(), SendFailure>;
}

/// Why a dispatcher cannot be built.
#[derive(Clone, Copy, Debug, PartialEq, Eq, Structural)]
pub enum DispatcherError {
    NoChannels,
    ZeroMaxAttempts,
}

/// Delivers due notifications through the configured channels, named here in
/// the order the caller holds them.
pub struct NotificationDispatcher {
    channels: Vec<String>,
    max_attempts: u32,
    retry_delay_seconds: u64,
}

/// The error text recorded for a job whose channel is not configured.
pub open spec fn unconfigured_channel_error() -> Seq<char> {
    "notification channel is not configured"@
}

/// How a channel's attempt to send ended, when it failed: the error text and
/// the failure class, when known.
pub struct SendFailure {
    pub message: String,
    pub class: Option<NotificationFailure>,
}

/// The next thing a delivery run asks of its caller.
pub enum DeliveryStep {
    /// Claim the next due notification from the store.
    Claim,
    /// Hand the claimed job to the channel at this position.
    Send { channel_index: usize, job: NotificationJob },
    /// Record that the job was sent.
    Complete { id: i64 },
    /// Record that the job failed.
    Fail { id: i64, update: NotificationFailureUpdate },
    /// The run is over; this many notifications were delivered.
    Finished { delivered: u32 },
}

/// The state of one delivery run: claims left, deliveries so far, and the
/// clock of the run.
pub struct DeliveryRun {
    remaining: usize,
    delivered: u32,
    clock: Clock,
}

/// A copy of a clock.
pub fn copy_clock(c: &Clock) -> (r: Clock)
    ensures
        r.now == c.now,
        r.now_text@ == c.now_text@,
        r.stale_before_text@ == c.stale_before_text@,
{
    Clock { now: c.now, now_text: c.now_text.clone(), stale_before_text: c.stale_before_text.clone() }
}

/// The failure record of a job: its attempts, the error, the dispatcher's
/// retry settings, whether it is retried, and the run's clock.
pub open spec fn failure_update_of(
    u: NotificationFailureUpdate,
    job: NotificationJob,
    error: Seq<char>,
    max_attempts: u32,
    retry_delay_seconds: u64,
    retryable: bool,
    clock: Clock,
) -> bool {
    &&& u.attempts == job.attempts
    &&& u.error@ == error
    &&& u.max_attempts == max_attempts
    &&& u.retry_delay_seconds == retry_delay_seconds
    &&& u.retryable == retryable
    &&& u.now.now == clock.now
    &&& u.now.now_text@ == clock.now_text@
    &&& u.now.stale_before_text@ == clock.stale_before_text@
}

impl NotificationDispatcher {
    pub closed spec fn channel_names(self) -> Seq<Seq<char>> {
        crate::policy::texts(self.channels@)
    }

    pub closed spec fn spec_max_attempts(self) -> u32 {
        self.max_attempts
    }

    pub closed spec fn spec_retry_delay_seconds(self) -> u64 {
        self.retry_delay_seconds
    }

    /// A dispatcher needs at least one channel and at least one attempt.
    pub fn new(channels: Vec<String>, max_attempts: u32, retry_delay_seconds: u64) -> (r: Result<
        NotificationDispatcher,
        DispatcherError,
    >)
        ensures
            match r {
                Ok(d) => channels@.len() > 0 && max_attempts > 0 && d.channel_names() == crate::policy::texts(channels@)
                    && d.spec_max_attempts() == max_attempts && d.spec_retry_delay_seconds() == retry_delay_seconds,
                Err(e) => (e == DispatcherError::NoChannels && channels@.len() == 0) || (e
                    == DispatcherError::ZeroMaxAttempts && channels@.len() > 0 && max_attempts == 0),
            },
    {
        if channels.len() == 0 {
            return Err(DispatcherError::NoChannels);
        }
        if max_attempts == 0 {
            return Err(DispatcherError::ZeroMaxAttempts);
        }
        Ok(NotificationDispatcher { channels, max_attempts, retry_delay_seconds })
    }

    /// A dispatcher over the given channels, named as each channel names
    /// itself and held in the same order, so that a `DeliveryStep::Send`
    /// position picks the channel from the same list.
    pub fn with_channels<C: NotificationChannel>(channels: &Vec<C>, max_attempts: u32, retry_delay_seconds: u64) -> (r: Result<
        NotificationDispatcher,
        DispatcherError,
    >)
        ensures
            match r {
                Ok(d) => channels@.len() > 0 && max_attempts > 0 && d.channel_names().len()
                    == channels@.len() && d.spec_max_attempts() == max_attempts
                    && d.spec_retry_delay_seconds() == retry_delay_seconds,
                Err(e) => (e == DispatcherError::NoChannels && channels@.len() == 0) || (e
                    == DispatcherError::ZeroMaxAttempts && channels@.len() > 0 && max_attempts == 0),
            },
    {
        let mut names: Vec<String> = Vec::new();
        let n = channels.len();
        for i in 0..n
            invariant
                n == channels@.len(),
                names@.len() == i,
        {
            names.push(channels[i].name().to_owned());
        }
        NotificationDispatcher::new(names, max_attempts, retry_delay_seconds)
    }

    /// The attempts a job gets.
    pub fn max_attempts(&self) -> (r: u32)
        ensures
            r == self.spec_max_attempts(),
    {
        self.max_attempts
    }

    /// The base retry delay.
    pub fn retry_delay_seconds(&self) -> (r: u64)
        ensures
            r == self.spec_retry_delay_seconds(),
    {
        self.retry_delay_seconds
    }

    fn channel_index(&self, name: &String) -> (r: Option<usize>)
        ensures
            match r {
                Some(i) => i < self.channel_names().len() && self.channel_names()[i as int] == name@
                    && forall|k: int| 0 <= k < i ==> self.channel_names()[k] != name@,
                None => !self.channel_names().contains(name@),
            },
    {
        let n = self.channels.len();
        for i in 0..n
            invariant
                n == self.channels@.len(),
                forall|k: int| 0 <= k < i ==> self.channel_names()[k] != name@,
        {
            if self.channels[i] == *name {
                return Some(i);
            }
        }
        proof {
            if self.channel_names().contains(name@) {
                let k = choose|k: int| 0 <= k < self.channel_names().len() && self.channel_names()[k] == name@;
                assert(self.channels@[k]@ == name@);
            }
        }
        None
    }

    /// Starts a run that claims at most `limit` notifications, all at the
    /// clock's instant.
    pub fn start(&self, limit: usize, clock: Clock) -> (r: DeliveryRun)
        ensures
            r.spec_remaining() == limit,
            r.spec_delivered() == 0,
            r.spec_clock() == clock,
    {
        DeliveryRun { remaining: limit, delivered: 0, clock }
    }
}

impl DeliveryRun {
    pub closed spec fn spec_remaining(self) -> int {
        self.remaining as int
    }

    pub closed spec fn spec_delivered(self) -> int {
        self.delivered as int
    }

    pub closed spec fn spec_clock(self) -> Clock {
        self.clock
    }

    /// The notifications delivered so far.
    pub fn delivered(&self) -> (r: u32)
        ensures
            r == self.spec_delivered(),
    {
        self.delivered
    }

    /// The next claim, or the end of the run when no claim is left.
    pub fn next(&mut self) -> (r: DeliveryStep)
        ensures
            final(self).spec_delivered() == old(self).spec_delivered(),
            final(self).spec_clock() == old(self).spec_clock(),
            old(self).spec_remaining() == 0 ==> final(self).spec_remaining() == 0 && r
                == (DeliveryStep::Finished { delivered: old(self).spec_delivered() as u32 }),
            old(self).spec_remaining() > 0 ==> final(self).spec_remaining() == old(
                self,
            ).spec_remaining() - 1 && r == DeliveryStep::Claim,
    {
        if self.remaining == 0 {
            DeliveryStep::Finished { delivered: self.delivered }
        } else {
            self.remaining = self.remaining - 1;
            DeliveryStep::Claim
        }
    }

    /// Decides what to do with the result of a claim: end the run when nothing
    /// is due, fail a job whose channel is not configured (not retried), and
    /// otherwise send the job through the first channel of its name.
    pub fn claimed(&mut self, dispatcher: &NotificationDispatcher, job: Option<NotificationJob>) -> (r: DeliveryStep)
        ensures
            final(self).spec_delivered() == old(self).spec_delivered(),
            final(self).spec_remaining() == old(self).spec_remaining(),
            final(self).spec_clock() == old(self).spec_clock(),
            match job {
                None => r == (DeliveryStep::Finished { delivered: old(self).spec_delivered() as u32 }),
                Some(j) => if dispatcher.channel_names().contains(j.channel@) {
                    match r {
                        DeliveryStep::Send { channel_index, job: sent } => sent == j
                            && channel_index < dispatcher.channel_names().len()
                            && dispatcher.channel_names()[channel_index as int] == j.channel@
                            && forall|k: int| 0 <= k < channel_index ==> dispatcher.channel_names()[k] != j.channel@,
                        _ => false,
                    }
                } else {
                    match r {
                        DeliveryStep::Fail { id, update } => id == j.id && failure_update_of(
                            update,
                            j,
                            unconfigured_channel_error(),
                            dispatcher.spec_max_attempts(),
                            dispatcher.spec_retry_delay_seconds(),
                            false,
                            old(self).spec_clock(),
                        ),
                        _ => false,
                    }
                },
            },
    {
        match job {
            None => DeliveryStep::Finished { delivered: self.delivered },
            Some(j) => match dispatcher.channel_index(&j.channel) {
                Some(i) => DeliveryStep::Send { channel_index: i, job: j },
                None => DeliveryStep::Fail {
                    id: j.id,
                    update: NotificationFailureUpdate {
                        attempts: j.attempts,
                        error: "notification channel is not configured".to_owned(),
                        max_attempts: dispatcher.max_attempts,
                        retry_delay_seconds: dispatcher.retry_delay_seconds,
                        retryable: false,
                        now: copy_clock(&self.clock),
                    },
                },
            },
        }
    }

    /// Decides what to record after a send: a success is completed and
    /// counted; a failure is recorded, retried unless known to be permanent.
    pub fn sent(&mut self, dispatcher: &NotificationDispatcher, job: &NotificationJob, outcome: Result<(), SendFailure>) -> (r: DeliveryStep)
        requires
            old(self).spec_delivered() < u32::MAX,
        ensures
            final(self).spec_remaining() == old(self).spec_remaining(),
            final(self).spec_clock() == old(self).spec_clock(),
            match outcome {
                Ok(()) => final(self).spec_delivered() == old(self).spec_delivered() + 1
                    && r == (DeliveryStep::Complete { id: job.id }),
                Err(f) => final(self).spec_delivered() == old(self).spec_delivered() && match r {
                    DeliveryStep::Fail { id, update } => id == job.id && failure_update_of(
                        update,
                        *job,
                        f.message@,
                        dispatcher.spec_max_attempts(),
                        dispatcher.spec_retry_delay_seconds(),
                        is_retryable(f.class),
                        old(self).spec_clock(),
                    ),
                    _ => false,
                },
            },
    {
        match outcome {
            Ok(()) => {
                self.delivered = self.delivered + 1;
                DeliveryStep::Complete { id: job.id }
            },
            Err(f) => DeliveryStep::Fail {
                id: job.id,
                update: NotificationFailureUpdate {
                    attempts: job.attempts,
                    error: f.message,
                    max_attempts: dispatcher.max_attempts,
                    retry_delay_seconds: dispatcher.retry_delay_seconds,
                    retryable: failure_is_retryable(&f.class),
                    now: copy_clock(&self.clock),
                },
            },
        }
    }
}

} // verus!

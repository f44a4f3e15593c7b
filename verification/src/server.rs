//! The server's decisions around its transactions: configuration checks,
//! the credential directory, and the answers of the HTTP endpoints.
use vstd::prelude::*;
use std::path::PathBuf;
use crate::model::AlertStatus;
use crate::policy::PolicyCatalog;
use crate::secrets::{authorized, token_authorized};
use crate::store::{AcceptError, EnrollmentError, EventResult};
use crate::text::join2;

verus! {

/// Settings of `beacon-server run`.
#[derive(Debug)]
pub struct ServerConfig {
    pub bind: String,
    pub data: PathBuf,
    pub credentials_dir: PathBuf,
    pub policy: PolicyCatalog,
    pub tls_cert: Option<PathBuf>,
    pub tls_key: Option<PathBuf>,
    pub allow_http: bool,
    pub telegram_config: Option<PathBuf>,
    pub notify_interval_seconds: u64,
    pub notify_limit: usize,
    pub notify_max_attempts: u32,
    pub notify_retry_delay_seconds: u64,
}

/// Why the server refuses its settings.
#[derive(Clone, Copy, Debug, PartialEq, Eq, Structural)]
pub enum ServerError {
    TlsRequired,
    TlsIncomplete,
    ZeroNotifyInterval,
    ZeroNotifyLimit,
    MissingCredentialDirectory,
}

impl ServerError {
    /// The text of the error.
    pub open spec fn text(self) -> Seq<char> {
        match self {
            ServerError::TlsRequired => "Beacon server requires TLS; use --allow-http only for local development"@,
            ServerError::TlsIncomplete => "tls_cert and tls_key must be configured together"@,
            ServerError::ZeroNotifyInterval => "notify interval must be greater than zero"@,
            ServerError::ZeroNotifyLimit => "notify limit must be greater than zero"@,
            ServerError::MissingCredentialDirectory => "agent credential directory does not exist or is not a directory"@,
        }
    }

    /// The message of the error.
    pub fn message(&self) -> (r: &'static str)
        ensures
            r@ == self.text(),
    {
        match self {
            ServerError::TlsRequired => "Beacon server requires TLS; use --allow-http only for local development",
            ServerError::TlsIncomplete => "tls_cert and tls_key must be configured together",
            ServerError::ZeroNotifyInterval => "notify interval must be greater than zero",
            ServerError::ZeroNotifyLimit => "notify limit must be greater than zero",
            ServerError::MissingCredentialDirectory => "agent credential directory does not exist or is not a directory",
        }
    }
}

/// How the server listens.
#[derive(Debug)]
pub enum ListenMode {
    Tls { cert: PathBuf, key: PathBuf },
    PlainHttp,
}

/// The listening mode for the TLS settings: TLS with both files, plain HTTP
/// with neither when allowed; anything else is refused.
pub fn listen_mode(tls_cert: Option<PathBuf>, tls_key: Option<PathBuf>, allow_http: bool) -> (r: Result<ListenMode, ServerError>)
    ensures
        match (tls_cert, tls_key) {
            (Some(c), Some(k)) => r == Ok::<ListenMode, ServerError>(ListenMode::Tls { cert: c, key: k }),
            (None, None) => if allow_http {
                r == Ok::<ListenMode, ServerError>(ListenMode::PlainHttp)
            } else {
                r == Err::<ListenMode, ServerError>(ServerError::TlsRequired)
            },
            _ => r == Err::<ListenMode, ServerError>(ServerError::TlsIncomplete),
        },
{
    match (tls_cert, tls_key) {
        (Some(cert), Some(key)) => Ok(ListenMode::Tls { cert, key }),
        (None, None) => {
            if allow_http {
                Ok(ListenMode::PlainHttp)
            } else {
                Err(ServerError::TlsRequired)
            }
        },
        _ => Err(ServerError::TlsIncomplete),
    }
}

/// Checks the notification worker's interval and batch limit.
pub fn check_worker_settings(interval_seconds: u64, limit: usize) -> (r: Result<(), ServerError>)
    ensures
        r == if interval_seconds == 0 {
            Err(ServerError::ZeroNotifyInterval)
        } else if limit == 0 {
            Err(ServerError::ZeroNotifyLimit)
        } else {
            Ok(())
        },
{
    if interval_seconds == 0 {
        return Err(ServerError::ZeroNotifyInterval);
    }
    if limit == 0 {
        return Err(ServerError::ZeroNotifyLimit);
    }
    Ok(())
}

/// The directory of agent credential files, one bearer token per file.
#[derive(Debug)]
pub struct CredentialStore {
    directory: PathBuf,
}

impl CredentialStore {
    pub closed spec fn spec_directory(self) -> PathBuf {
        self.directory
    }

    /// A credential store over a directory; `is_directory` tells whether the
    /// path names an existing directory.
    pub fn new(directory: PathBuf, is_directory: bool) -> (r: Result<CredentialStore, ServerError>)
        ensures
            is_directory ==> (r matches Ok(s) && s.spec_directory() == directory),
            !is_directory ==> r == Err::<CredentialStore, ServerError>(ServerError::MissingCredentialDirectory),
    {
        if !is_directory {
            return Err(ServerError::MissingCredentialDirectory);
        }
        CredentialStore::from_directory(directory)
    }

    fn from_directory(directory: PathBuf) -> (r: Result<CredentialStore, ServerError>)
        ensures
            r matches Ok(s) && s.spec_directory() == directory,
    {
        Ok(CredentialStore { directory })
    }

    /// The directory.
    pub fn directory(&self) -> (r: &PathBuf)
        ensures
            *r == self.spec_directory(),
    {
        &self.directory
    }

    /// Whether a presented token matches any credential file, given the
    /// contents of the directory's regular files as read now.
    pub fn authorized(&self, files: &Vec<String>, presented: &str) -> (r: bool)
        ensures
            r == token_authorized(files@, presented@),
    {
        authorized(files, presented)
    }
}

/// The default number of alerts a listing returns.
pub fn default_limit() -> (r: usize)
    ensures
        r == 100,
{
    100
}

/// Largest request body the server reads, in bytes.
pub const BODY_LIMIT_BYTES: usize = 262144;

/// The file name of an agent's credential.
pub fn credential_file_name(name: &str) -> (r: String)
    ensures
        r@ == name@ + ".token"@,
{
    join2(name, ".token")
}

/// The HTTP status answering an event submission.
pub open spec fn event_status(is_authorized: bool, result: Result<EventResult, AcceptError>) -> u16 {
    if !is_authorized {
        401
    } else {
        match result {
            Ok(_) => 202,
            Err(AcceptError::Invalid(_)) => 400,
            Err(AcceptError::Conflict) => 409,
            Err(_) => 500,
        }
    }
}

/// Answers an event submission: 401 without a valid token, 400 for an invalid
/// event, 409 for a conflicting payload, 202 when accepted (new or repeated),
/// 500 otherwise.
pub fn event_response_status(is_authorized: bool, result: &Result<EventResult, AcceptError>) -> (r: u16)
    ensures
        r == event_status(is_authorized, *result),
{
    if !is_authorized {
        return 401;
    }
    match result {
        Ok(_) => 202,
        Err(AcceptError::Invalid(_)) => 400,
        Err(AcceptError::Conflict) => 409,
        Err(_) => 500,
    }
}

/// Answers an enrollment: 201 with the new token, 401 when refused.
pub fn enrollment_response_status(result: &Result<(), EnrollmentError>) -> (r: u16)
    ensures
        r == if result is Ok {
            201u16
        } else {
            401u16
        },
{
    match result {
        Ok(()) => 201,
        Err(_) => 401,
    }
}

/// Reads the status filter of an alert listing: none, or a valid status name.
pub fn alert_query_status(status: &Option<String>) -> (r: Result<Option<AlertStatus>, String>)
    ensures
        match status {
            None => r == Ok::<Option<AlertStatus>, String>(None),
            Some(v) => match r {
                Ok(Some(s)) => s.name() == v@,
                Ok(None) => false,
                Err(message) => (forall|s: AlertStatus| #[trigger] s.name() != v@) && message@
                    == "invalid alert status: "@ + v@,
            },
        },
{
    match status {
        None => Ok(None),
        Some(v) => match AlertStatus::parse(v.as_str()) {
            Ok(s) => Ok(Some(s)),
            Err(message) => Err(message),
        },
    }
}

} // verus!

//! The producer-host agent's rules: its configuration, server addresses,
//! enrollment inputs and the retry schedule of one delivery.
use vstd::prelude::*;
use std::path::PathBuf;
use crate::text::{is_blank, join2, text_is_blank, trim, trim_end_slashes, strip_trailing_slashes, trimmed, text_eq};

verus! {

#[verifier::external_type_specification]
#[verifier::external_body]
pub struct ExPathBuf(std::path::PathBuf);

/// Settings of `beacon-agent enroll`.
#[derive(Debug)]
pub struct EnrollmentConfig {
    pub server: String,
    pub name: String,
    pub code_file: PathBuf,
    pub token_file: PathBuf,
    pub ca_file: Option<PathBuf>,
    pub allow_http: bool,
}

/// Settings of `beacon-agent run`.
#[derive(Debug)]
pub struct AgentConfig {
    pub server: String,
    pub spool: PathBuf,
    pub token: String,
    pub ca_file: Option<PathBuf>,
    pub allow_http: bool,
    pub limit: usize,
    pub max_attempts: usize,
    pub retry_delay_seconds: u64,
}

/// Why the agent refuses to go on.
#[derive(Clone, Copy, Debug, PartialEq, Eq, Structural)]
pub enum AgentError {
    EmptyToken,
    ZeroMaxAttempts,
    EmptyName,
    EmptyCode,
    InvalidServerUrl,
    HttpsRequired,
    EmptyIssuedToken,
    EmptyTokenFile,
}

impl AgentError {
    /// The text of the error.
    pub open spec fn text(self) -> Seq<char> {
        match self {
            AgentError::EmptyToken => "agent token cannot be empty"@,
            AgentError::ZeroMaxAttempts => "max attempts must be greater than zero"@,
            AgentError::EmptyName => "agent name cannot be empty"@,
            AgentError::EmptyCode => "enrollment code file is empty"@,
            AgentError::InvalidServerUrl => "parse Beacon server URL"@,
            AgentError::HttpsRequired => "Beacon agent requires an HTTPS server URL; use --allow-http only for local development"@,
            AgentError::EmptyIssuedToken => "server returned an empty agent token"@,
            AgentError::EmptyTokenFile => "agent token file is empty"@,
        }
    }

    /// The message of the error.
    pub fn message(&self) -> (r: &'static str)
        ensures
            r@ == self.text(),
    {
        match self {
            AgentError::EmptyToken => "agent token cannot be empty",
            AgentError::ZeroMaxAttempts => "max attempts must be greater than zero",
            AgentError::EmptyName => "agent name cannot be empty",
            AgentError::EmptyCode => "enrollment code file is empty",
            AgentError::InvalidServerUrl => "parse Beacon server URL",
            AgentError::HttpsRequired => "Beacon agent requires an HTTPS server URL; use --allow-http only for local development",
            AgentError::EmptyIssuedToken => "server returned an empty agent token",
            AgentError::EmptyTokenFile => "agent token file is empty",
        }
    }
}

/// The scheme of the URL that `url::Url::parse` reads from a text (as the
/// parser writes it), or `None` when it rejects the text.
pub uninterp spec fn url_scheme(text: Seq<char>) -> Option<Seq<char>>;

/// Calls `reqwest::Url::parse` (the url crate's `Url::parse`) and reads the
/// scheme of the result. The contract claims only that the result is the one
/// named by `url_scheme` for this text.
#[verifier::external_body]
fn parse_url_scheme(text: &str) -> (r: Option<String>)
    ensures
        match url_scheme(text@) {
            Some(s) => r is Some && r->0@ == s,
            None => r is None,
        },
{
    match reqwest::Url::parse(text) {
        Ok(u) => Some(u.scheme().to_owned()),
        Err(_) => None,
    }
}

/// The first problem of a server address: it must parse as a URL, and use
/// HTTPS unless plain HTTP is allowed.
pub open spec fn server_url_issue(server: Seq<char>, allow_http: bool) -> Option<AgentError> {
    match url_scheme(server) {
        None => Some(AgentError::InvalidServerUrl),
        Some(s) => if s != "https"@ && !allow_http {
            Some(AgentError::HttpsRequired)
        } else {
            None
        },
    }
}

/// Checks the server address before any client is built.
pub fn check_server_url(server: &str, allow_http: bool) -> (r: Result<(), AgentError>)
    ensures
        r == match server_url_issue(server@, allow_http) {
            Some(e) => Err(e),
            None => Ok(()),
        },
{
    match parse_url_scheme(server) {
        None => Err(AgentError::InvalidServerUrl),
        Some(scheme) => {
            if !text_eq(scheme.as_str(), "https") && !allow_http {
                Err(AgentError::HttpsRequired)
            } else {
                Ok(())
            }
        },
    }
}

/// The address of an endpoint of the server: the server address without
/// trailing slashes, then the path.
pub fn server_endpoint(server: &str, path: &str) -> (r: String)
    ensures
        r@ == trim_end_slashes(server@) + path@,
{
    let base = strip_trailing_slashes(server);
    join2(base.as_str(), path)
}

/// The first problem of a delivery run's settings.
pub open spec fn drain_config_issue(config: AgentConfig) -> Option<AgentError> {
    if is_blank(config.token@) {
        Some(AgentError::EmptyToken)
    } else if config.max_attempts == 0 {
        Some(AgentError::ZeroMaxAttempts)
    } else {
        None
    }
}

/// Checks the settings of a delivery run.
pub fn check_drain_config(config: &AgentConfig) -> (r: Result<(), AgentError>)
    ensures
        r == match drain_config_issue(*config) {
            Some(e) => Err(e),
            None => Ok(()),
        },
{
    if text_is_blank(config.token.as_str()) {
        return Err(AgentError::EmptyToken);
    }
    if config.max_attempts == 0 {
        return Err(AgentError::ZeroMaxAttempts);
    }
    Ok(())
}

/// How many of the listed events a run delivers: at most its limit.
pub fn events_to_deliver(listed: usize, limit: usize) -> (r: usize)
    ensures
        r == if listed < limit {
            listed
        } else {
            limit
        },
{
    if listed < limit {
        listed
    } else {
        limit
    }
}

/// Checks the agent name of an enrollment.
pub fn check_enrollment_name(name: &str) -> (r: Result<(), AgentError>)
    ensures
        r == if is_blank(name@) {
            Err(AgentError::EmptyName)
        } else {
            Ok(())
        },
{
    if text_is_blank(name) {
        Err(AgentError::EmptyName)
    } else {
        Ok(())
    }
}

/// The enrollment code of a code file: its trimmed contents, unless empty.
pub fn enrollment_code(contents: &str) -> (r: Result<String, AgentError>)
    ensures
        match r {
            Ok(code) => code@ == trimmed(contents@) && code@.len() > 0,
            Err(e) => e == AgentError::EmptyCode && trimmed(contents@).len() == 0,
        },
{
    let code = trim(contents);
    if code.as_str().unicode_len() == 0 {
        Err(AgentError::EmptyCode)
    } else {
        Ok(code)
    }
}

/// Checks the token the server issued at enrollment.
pub fn check_issued_token(token: &str) -> (r: Result<(), AgentError>)
    ensures
        r == if is_blank(token@) {
            Err(AgentError::EmptyIssuedToken)
        } else {
            Ok(())
        },
{
    if text_is_blank(token) {
        Err(AgentError::EmptyIssuedToken)
    } else {
        Ok(())
    }
}

/// The contents of an agent token file: the trimmed token and a newline.
pub fn token_file_contents(token: &str) -> (r: String)
    ensures
        r@ == trimmed(token@) + "\n"@,
{
    let t = trim(token);
    join2(t.as_str(), "\n")
}

/// The token of an agent token file: its trimmed contents, unless empty.
pub fn read_token(contents: &str) -> (r: Result<String, AgentError>)
    ensures
        match r {
            Ok(token) => token@ == trimmed(contents@) && token@.len() > 0,
            Err(e) => e == AgentError::EmptyTokenFile && trimmed(contents@).len() == 0,
        },
{
    let token = trim(contents);
    if token.as_str().unicode_len() == 0 {
        Err(AgentError::EmptyTokenFile)
    } else {
        Ok(token)
    }
}

/// Where a drain run stands.
#[derive(Clone, Copy, Debug, PartialEq, Eq, Structural)]
pub enum DrainPhase {
    /// Waiting for the outcome of submitting the current event.
    Submitting,
    /// Waiting for the retry delay to pass before submitting it again.
    Waiting,
    /// Waiting for the current event, accepted by the server, to leave the spool.
    Removing,
    /// Every event of the run was delivered.
    Finished,
    /// The current event could not be delivered; it and every later event stay queued.
    Stopped,
}

/// The state of a drain run: how many events it delivers, the position of the
/// current one, the number of its current submission, the retry settings and
/// the phase.
pub struct DrainState {
    pub count: nat,
    pub index: nat,
    pub attempt: nat,
    pub max_attempts: nat,
    pub retry_delay_seconds: u64,
    pub phase: DrainPhase,
}

/// What a drain run asks of its caller next.
#[derive(Debug, PartialEq, Eq)]
pub enum DrainStep {
    /// Submit the listed event at this position to the server.
    Submit { index: usize },
    /// Wait this many seconds, then submit the same event again.
    Wait { seconds: u64 },
    /// The server accepted the event at this position: remove it from the spool.
    Remove { index: usize },
    /// Stop with the last error: the event at this position was not delivered.
    GiveUp { index: usize },
    /// The run is over; this many events were delivered and removed.
    Finished { delivered: usize },
}

/// A run over `count` listed events, before any submission.
pub open spec fn drain_start(count: nat, max_attempts: nat, retry_delay_seconds: u64) -> DrainState {
    DrainState {
        count,
        index: 0,
        attempt: 1,
        max_attempts,
        retry_delay_seconds,
        phase: if count == 0 {
            DrainPhase::Finished
        } else {
            DrainPhase::Submitting
        },
    }
}

/// The step a run in this state asks for.
pub open spec fn pending_step(s: DrainState) -> DrainStep {
    match s.phase {
        DrainPhase::Submitting => DrainStep::Submit { index: s.index as usize },
        DrainPhase::Waiting => DrainStep::Wait { seconds: s.retry_delay_seconds },
        DrainPhase::Removing => DrainStep::Remove { index: s.index as usize },
        DrainPhase::Finished => DrainStep::Finished { delivered: s.index as usize },
        DrainPhase::Stopped => DrainStep::GiveUp { index: s.index as usize },
    }
}

/// The run after the outcome of a submission: an accepted event is removed
/// next; a refused one is submitted again after the delay while attempts
/// remain, and otherwise the run stops. Outside a submission nothing changes.
pub open spec fn after_submission(s: DrainState, accepted: bool) -> DrainState {
    if s.phase != DrainPhase::Submitting {
        s
    } else if accepted {
        DrainState { phase: DrainPhase::Removing, ..s }
    } else if s.attempt < s.max_attempts {
        DrainState { phase: DrainPhase::Waiting, attempt: s.attempt + 1, ..s }
    } else {
        DrainState { phase: DrainPhase::Stopped, ..s }
    }
}

/// The run after its retry delay: the same event is submitted again.
pub open spec fn after_wait(s: DrainState) -> DrainState {
    if s.phase == DrainPhase::Waiting {
        DrainState { phase: DrainPhase::Submitting, ..s }
    } else {
        s
    }
}

/// The run after the current event left the spool: the next event is
/// submitted for the first time, or the run is finished.
pub open spec fn after_removal(s: DrainState) -> DrainState {
    if s.phase != DrainPhase::Removing {
        s
    } else if s.index + 1 < s.count {
        DrainState { index: s.index + 1, attempt: 1, phase: DrainPhase::Submitting, ..s }
    } else {
        DrainState { index: s.index + 1, phase: DrainPhase::Finished, ..s }
    }
}

/// A run's state is consistent: its submission number is within the attempt
/// limit, and it is finished exactly when every event was delivered.
pub open spec fn drain_wf(s: DrainState) -> bool {
    &&& 1 <= s.attempt <= s.max_attempts
    &&& s.index <= s.count
    &&& (s.phase == DrainPhase::Finished <==> s.index == s.count)
}

/// Law: every step of a run keeps it consistent, so no event is submitted
/// more than `max_attempts` times and no position beyond the listing is
/// named.
pub proof fn law_drain_steps_keep_wf(s: DrainState, accepted: bool)
    requires
        drain_wf(s),
    ensures
        drain_wf(after_submission(s, accepted)),
        drain_wf(after_wait(s)),
        drain_wf(after_removal(s)),
{
}

/// Law: an event leaves the spool only after the server accepted it. A run
/// comes to remove an event only from submitting that same event when the
/// submission was accepted; waiting and removing never lead to a removal of
/// another event, and a run never starts by removing.
pub proof fn law_removal_follows_acceptance(s: DrainState, accepted: bool, count: nat, max_attempts: nat, delay: u64)
    ensures
        drain_start(count, max_attempts, delay).phase != DrainPhase::Removing,
        after_submission(s, accepted).phase == DrainPhase::Removing ==> (s.phase == DrainPhase::Removing
            && after_submission(s, accepted) == s) || (s.phase == DrainPhase::Submitting && accepted
            && after_submission(s, accepted).index == s.index),
        after_wait(s).phase == DrainPhase::Removing ==> after_wait(s) == s,
        after_removal(s).phase != DrainPhase::Removing || after_removal(s) == s,
{
}

/// Law: a run that stopped or finished stays where it is, whatever it is told.
pub proof fn law_run_end_is_final(s: DrainState, accepted: bool)
    requires
        s.phase == DrainPhase::Stopped || s.phase == DrainPhase::Finished,
    ensures
        after_submission(s, accepted) == s,
        after_wait(s) == s,
        after_removal(s) == s,
{
}

/// The delivery of listed spool events to the server, one at a time: each is
/// submitted up to the attempt limit, with the retry delay between attempts,
/// and removed from the spool once accepted; a failure stops the run.
pub struct DrainRun {
    count: usize,
    index: usize,
    attempt: usize,
    max_attempts: usize,
    retry_delay_seconds: u64,
    phase: DrainPhase,
}

impl View for DrainRun {
    type V = DrainState;

    closed spec fn view(&self) -> DrainState {
        DrainState {
            count: self.count as nat,
            index: self.index as nat,
            attempt: self.attempt as nat,
            max_attempts: self.max_attempts as nat,
            retry_delay_seconds: self.retry_delay_seconds,
            phase: self.phase,
        }
    }
}

impl DrainRun {
    #[verifier::type_invariant]
    closed spec fn run_inv(self) -> bool {
        drain_wf(self@)
    }

    /// Starts a run over `listed` events of the spool, delivering at most the
    /// configured limit, once the settings are checked.
    pub fn start(config: &AgentConfig, listed: usize) -> (r: Result<DrainRun, AgentError>)
        ensures
            match drain_config_issue(*config) {
                Some(e) => r == Err::<DrainRun, AgentError>(e),
                None => r matches Ok(run) && run@ == drain_start(
                    (if listed < config.limit {
                        listed
                    } else {
                        config.limit
                    }) as nat,
                    config.max_attempts as nat,
                    config.retry_delay_seconds,
                ),
            },
    {
        check_drain_config(config)?;
        let count = events_to_deliver(listed, config.limit);
        let phase = if count == 0 {
            DrainPhase::Finished
        } else {
            DrainPhase::Submitting
        };
        Ok(DrainRun {
            count,
            index: 0,
            attempt: 1,
            max_attempts: config.max_attempts,
            retry_delay_seconds: config.retry_delay_seconds,
            phase,
        })
    }

    fn step_of(&self) -> (r: DrainStep)
        ensures
            r == pending_step(self@),
    {
        match self.phase {
            DrainPhase::Submitting => DrainStep::Submit { index: self.index },
            DrainPhase::Waiting => DrainStep::Wait { seconds: self.retry_delay_seconds },
            DrainPhase::Removing => DrainStep::Remove { index: self.index },
            DrainPhase::Finished => DrainStep::Finished { delivered: self.index },
            DrainPhase::Stopped => DrainStep::GiveUp { index: self.index },
        }
    }

    /// The step the run asks for now.
    pub fn pending(&self) -> (r: DrainStep)
        ensures
            r == pending_step(self@),
    {
        self.step_of()
    }

    /// Takes the outcome of submitting the current event.
    pub fn submitted(&mut self, accepted: bool) -> (r: DrainStep)
        ensures
            final(self)@ == after_submission(old(self)@, accepted),
            r == pending_step(final(self)@),
    {
        proof {
            use_type_invariant(&*self);
        }
        if self.phase == DrainPhase::Submitting {
            let next = if accepted {
                DrainRun { phase: DrainPhase::Removing, ..*self }
            } else if self.attempt < self.max_attempts {
                DrainRun { phase: DrainPhase::Waiting, attempt: self.attempt + 1, ..*self }
            } else {
                DrainRun { phase: DrainPhase::Stopped, ..*self }
            };
            *self = next;
        }
        self.step_of()
    }

    /// Takes the end of the retry delay.
    pub fn waited(&mut self) -> (r: DrainStep)
        ensures
            final(self)@ == after_wait(old(self)@),
            r == pending_step(final(self)@),
    {
        proof {
            use_type_invariant(&*self);
        }
        if self.phase == DrainPhase::Waiting {
            *self = DrainRun { phase: DrainPhase::Submitting, ..*self };
        }
        self.step_of()
    }

    /// Takes the removal of the current event from the spool.
    pub fn removed(&mut self) -> (r: DrainStep)
        ensures
            final(self)@ == after_removal(old(self)@),
            r == pending_step(final(self)@),
    {
        proof {
            use_type_invariant(&*self);
        }
        if self.phase == DrainPhase::Removing {
            let next = if self.index + 1 < self.count {
                DrainRun { index: self.index + 1, attempt: 1, phase: DrainPhase::Submitting, ..*self }
            } else {
                DrainRun { index: self.index + 1, phase: DrainPhase::Finished, ..*self }
            };
            *self = next;
        }
        self.step_of()
    }
}

} // verus!

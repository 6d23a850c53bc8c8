//! Server-to-server transfer jobs: endpoints, strategy selection and the
//! job state machine the persistent queue applies.

use vstd::prelude::*;
use crate::text::{lex_le, lex_le_exec, lemma_lex_le_reflexive, lemma_lex_le_total, lemma_lex_le_transitive, append_chars, chars_of, is_text, slice_chars, string_of};

verus! {

/// One side of a transfer.
#[derive(Clone, Debug, PartialEq, Eq)]
pub enum TransferEndpoint {
    Local { path: String },
    Sftp { server_id: String, path: String },
    /// Native SCP, a different wire protocol from SFTP, paired only with a
    /// local endpoint on the other side.
    Scp { server_id: String, path: String },
    WebDav { connection_id: String, path: String },
    S3 { connection_id: String, bucket: String, key: String },
}

#[derive(Clone, Copy, Debug, PartialEq, Eq)]
pub enum TransferStrategy {
    Direct,
    ServerRelay,
}

#[derive(Clone, Copy, Debug, PartialEq, Eq)]
pub enum TransferState {
    Queued,
    Running,
    Paused,
    Completed,
    Failed,
    Cancelled,
}

/// A transfer as requested by its owner.
#[derive(Clone, Debug)]
pub struct NewTransfer {
    pub source: TransferEndpoint,
    pub destination: TransferEndpoint,
    pub bytes_total: Option<u64>,
}

/// A queued transfer as the queue stores it.
#[derive(Clone, Debug)]
pub struct TransferJob {
    pub id: String,
    pub owner_user_id: String,
    pub source: TransferEndpoint,
    pub destination: TransferEndpoint,
    pub strategy: TransferStrategy,
    pub state: TransferState,
    pub bytes_total: Option<u64>,
    pub bytes_transferred: u64,
    pub attempts: u32,
    pub next_attempt_at: i64,
    pub last_error: Option<String>,
    pub created_at: i64,
    pub updated_at: i64,
}

/// Errors of the transfer queue. Outside errors (database, JSON) are
/// carried as their rendered messages.
#[derive(Debug)]
pub enum TransferError {
    Database(String),
    Serialization(String),
    InvalidEndpoint,
    TooLarge,
    NotFound,
    InvalidTransition,
    Corrupt,
    Io(String),
    /// An error classified as unrecoverable: retrying can never succeed.
    Permanent(String),
}

/// The attempt ceiling shared by every provider: a job that keeps failing
/// terminates as `Failed` after this many attempts.
pub const MAX_TRANSFER_ATTEMPTS: u32 = 6;

/// The longest stored error message, in characters.
pub const MAX_ERROR_CHARS: usize = 1024;

/// The provider kind and the connection an endpoint uses.
pub open spec fn spec_provider_key(e: TransferEndpoint) -> (Seq<char>, Option<Seq<char>>) {
    match e {
        TransferEndpoint::Local { .. } => ("local"@, None),
        TransferEndpoint::Sftp { server_id, .. } => ("sftp"@, Some(server_id@)),
        TransferEndpoint::Scp { server_id, .. } => ("scp"@, Some(server_id@)),
        TransferEndpoint::WebDav { connection_id, .. } => ("webdav"@, Some(connection_id@)),
        TransferEndpoint::S3 { connection_id, .. } => ("s3"@, Some(connection_id@)),
    }
}

impl TransferEndpoint {
    /// The provider kind and the connection this endpoint uses.
    pub fn provider_key(&self) -> (key: (&'static str, Option<&str>))
        ensures
            key.0@ == spec_provider_key(*self).0,
            match (key.1, spec_provider_key(*self).1) {
                (Some(a), Some(b)) => a@ == b,
                (None, None) => true,
                _ => false,
            },
    {
        match self {
            TransferEndpoint::Local { .. } => ("local", None),
            TransferEndpoint::Sftp { server_id, .. } => ("sftp", Some(server_id.as_str())),
            TransferEndpoint::Scp { server_id, .. } => ("scp", Some(server_id.as_str())),
            TransferEndpoint::WebDav { connection_id, .. } => (
                "webdav",
                Some(connection_id.as_str()),
            ),
            TransferEndpoint::S3 { connection_id, .. } => ("s3", Some(connection_id.as_str())),
        }
    }
}

/// A transfer between two endpoints of the same provider and connection
/// runs directly there; anything else is relayed through the server,
/// never through the user's browser.
pub open spec fn spec_select_strategy(
    source: TransferEndpoint,
    destination: TransferEndpoint,
) -> TransferStrategy {
    if spec_provider_key(source) == spec_provider_key(destination) {
        TransferStrategy::Direct
    } else {
        TransferStrategy::ServerRelay
    }
}

fn str_eq(a: &str, b: &str) -> (eq: bool)
    ensures
        eq == (a@ == b@),
{
    let x = chars_of(a);
    crate::text::chars_equal(x.as_slice(), chars_of(b).as_slice())
}

/// A transfer runs directly exactly when both ends are local, or both use
/// the same provider kind on the same server or connection; two servers
/// or connections, even of one kind, and two kinds are always relayed.
pub proof fn law_direct_only_on_one_connection(source: TransferEndpoint, destination: TransferEndpoint)
    ensures
        (spec_select_strategy(source, destination) == TransferStrategy::Direct) <==> {
            ||| (source is Local && destination is Local)
            ||| (source matches TransferEndpoint::Sftp { server_id: a, .. }
                && destination matches TransferEndpoint::Sftp { server_id: b, .. } && a@ == b@)
            ||| (source matches TransferEndpoint::Scp { server_id: a, .. }
                && destination matches TransferEndpoint::Scp { server_id: b, .. } && a@ == b@)
            ||| (source matches TransferEndpoint::WebDav { connection_id: a, .. }
                && destination matches TransferEndpoint::WebDav { connection_id: b, .. } && a@ == b@)
            ||| (source matches TransferEndpoint::S3 { connection_id: a, .. }
                && destination matches TransferEndpoint::S3 { connection_id: b, .. } && a@ == b@)
        },
        spec_select_strategy(source, destination) == TransferStrategy::Direct
            || spec_select_strategy(source, destination) == TransferStrategy::ServerRelay,
{
    reveal_strlit("local");
    reveal_strlit("sftp");
    reveal_strlit("scp");
    reveal_strlit("webdav");
    reveal_strlit("s3");
    let ks = spec_provider_key(source).0;
    let kd = spec_provider_key(destination).0;
    if ks == kd {
        assert(ks.len() == kd.len() && ks[0] == kd[0] && ks[1] == kd[1]);
    }
}

pub fn select_strategy(source: &TransferEndpoint, destination: &TransferEndpoint) -> (s:
    TransferStrategy)
    ensures
        s == spec_select_strategy(*source, *destination),
{
    let source_key = source.provider_key();
    let destination_key = destination.provider_key();
    let same_id = match (source_key.1, destination_key.1) {
        (Some(a), Some(b)) => str_eq(a, b),
        (None, None) => true,
        _ => false,
    };
    if str_eq(source_key.0, destination_key.0) && same_id {
        TransferStrategy::Direct
    } else {
        TransferStrategy::ServerRelay
    }
}

} // verus!

verus! {

pub open spec fn spec_strategy_name(s: TransferStrategy) -> Seq<char> {
    match s {
        TransferStrategy::Direct => "direct"@,
        TransferStrategy::ServerRelay => "server-relay"@,
    }
}

pub open spec fn spec_state_name(s: TransferState) -> Seq<char> {
    match s {
        TransferState::Queued => "queued"@,
        TransferState::Running => "running"@,
        TransferState::Paused => "paused"@,
        TransferState::Completed => "completed"@,
        TransferState::Failed => "failed"@,
        TransferState::Cancelled => "cancelled"@,
    }
}

/// The stored name of a strategy.
pub fn strategy_name(value: TransferStrategy) -> (name: &'static str)
    ensures
        name@ == spec_strategy_name(value),
{
    match value {
        TransferStrategy::Direct => "direct",
        TransferStrategy::ServerRelay => "server-relay",
    }
}

/// The stored name of a state.
pub fn state_name(value: TransferState) -> (name: &'static str)
    ensures
        name@ == spec_state_name(value),
{
    match value {
        TransferState::Queued => "queued",
        TransferState::Running => "running",
        TransferState::Paused => "paused",
        TransferState::Completed => "completed",
        TransferState::Failed => "failed",
        TransferState::Cancelled => "cancelled",
    }
}

pub open spec fn spec_parse_strategy(value: Seq<char>) -> Option<TransferStrategy> {
    if value == "direct"@ {
        Some(TransferStrategy::Direct)
    } else if value == "server-relay"@ {
        Some(TransferStrategy::ServerRelay)
    } else {
        None
    }
}

pub open spec fn spec_parse_state(value: Seq<char>) -> Option<TransferState> {
    if value == "queued"@ {
        Some(TransferState::Queued)
    } else if value == "running"@ {
        Some(TransferState::Running)
    } else if value == "paused"@ {
        Some(TransferState::Paused)
    } else if value == "completed"@ {
        Some(TransferState::Completed)
    } else if value == "failed"@ {
        Some(TransferState::Failed)
    } else if value == "cancelled"@ {
        Some(TransferState::Cancelled)
    } else {
        None
    }
}

/// Reads a stored strategy name; anything else is corrupt.
pub fn parse_strategy(value: &str) -> (res: Result<TransferStrategy, TransferError>)
    ensures
        match spec_parse_strategy(value@) {
            Some(s) => res matches Ok(r) && r == s,
            None => res matches Err(TransferError::Corrupt),
        },
{
    let v = chars_of(value);
    if is_text(&v, "direct") {
        Ok(TransferStrategy::Direct)
    } else if is_text(&v, "server-relay") {
        Ok(TransferStrategy::ServerRelay)
    } else {
        Err(TransferError::Corrupt)
    }
}

/// Reads a stored state name; anything else is corrupt.
pub fn parse_state(value: &str) -> (res: Result<TransferState, TransferError>)
    ensures
        match spec_parse_state(value@) {
            Some(s) => res matches Ok(r) && r == s,
            None => res matches Err(TransferError::Corrupt),
        },
{
    let v = chars_of(value);
    if is_text(&v, "queued") {
        Ok(TransferState::Queued)
    } else if is_text(&v, "running") {
        Ok(TransferState::Running)
    } else if is_text(&v, "paused") {
        Ok(TransferState::Paused)
    } else if is_text(&v, "completed") {
        Ok(TransferState::Completed)
    } else if is_text(&v, "failed") {
        Ok(TransferState::Failed)
    } else if is_text(&v, "cancelled") {
        Ok(TransferState::Cancelled)
    } else {
        Err(TransferError::Corrupt)
    }
}

/// Every state survives being stored by name and read back.
pub proof fn lemma_state_name_roundtrip(s: TransferState)
    ensures
        spec_parse_state(spec_state_name(s)) == Some(s),
{
    reveal_strlit("queued");
    reveal_strlit("running");
    reveal_strlit("paused");
    reveal_strlit("completed");
    reveal_strlit("failed");
    reveal_strlit("cancelled");
    assert("queued"@[0] != "running"@[0]);
    assert("queued"@[0] != "paused"@[0]);
    assert("queued"@[0] != "completed"@[0]);
    assert("queued"@[0] != "failed"@[0]);
    assert("queued"@[0] != "cancelled"@[0]);
    assert("running"@[0] != "paused"@[0]);
    assert("running"@[0] != "completed"@[0]);
    assert("running"@[0] != "failed"@[0]);
    assert("running"@[0] != "cancelled"@[0]);
    assert("paused"@[0] != "completed"@[0]);
    assert("paused"@[0] != "failed"@[0]);
    assert("paused"@[0] != "cancelled"@[0]);
    assert("completed"@[0] != "failed"@[0]);
    assert("completed"@[1] != "cancelled"@[1]);
    assert("failed"@[0] != "cancelled"@[0]);
}

/// Every strategy survives being stored by name and read back.
pub proof fn lemma_strategy_name_roundtrip(s: TransferStrategy)
    ensures
        spec_parse_strategy(spec_strategy_name(s)) == Some(s),
{
    reveal_strlit("direct");
    reveal_strlit("server-relay");
    assert("direct"@[0] != "server-relay"@[0]);
}

/// A state update must have touched exactly one job.
pub fn ensure_updated(rows: u64) -> (res: Result<(), TransferError>)
    ensures
        rows == 1 ==> res is Ok,
        rows != 1 ==> (res matches Err(TransferError::InvalidTransition)),
{
    if rows == 1 {
        Ok(())
    } else {
        Err(TransferError::InvalidTransition)
    }
}

/// Whether an endpoint names something: its path, or its bucket and key,
/// are not empty.
pub open spec fn spec_endpoint_nonempty(e: TransferEndpoint) -> bool {
    match e {
        TransferEndpoint::Local { path } => path@.len() > 0,
        TransferEndpoint::Sftp { path, .. } => path@.len() > 0,
        TransferEndpoint::Scp { path, .. } => path@.len() > 0,
        TransferEndpoint::WebDav { path, .. } => path@.len() > 0,
        TransferEndpoint::S3 { bucket, key, .. } => bucket@.len() > 0 && key@.len() > 0,
    }
}

/// Validates an endpoint before it is queued. `scp_path_allowed` is the
/// verdict of the SCP client's remote-path policy on an SCP endpoint's
/// path (ignored for other endpoints).
pub fn validate_endpoint(endpoint: &TransferEndpoint, scp_path_allowed: bool) -> (res: Result<
    (),
    TransferError,
>)
    ensures
        res is Ok <==> (spec_endpoint_nonempty(*endpoint) && (endpoint is Scp ==> scp_path_allowed)),
        res matches Err(e) ==> (e matches TransferError::InvalidEndpoint),
{
    if let TransferEndpoint::Scp { .. } = endpoint {
        if !scp_path_allowed {
            return Err(TransferError::InvalidEndpoint);
        }
    }
    let valid = match endpoint {
        TransferEndpoint::Local { path } => !path.as_str().is_empty(),
        TransferEndpoint::Sftp { path, .. } => !path.as_str().is_empty(),
        TransferEndpoint::Scp { path, .. } => !path.as_str().is_empty(),
        TransferEndpoint::WebDav { path, .. } => !path.as_str().is_empty(),
        TransferEndpoint::S3 { bucket, key, .. } => !bucket.as_str().is_empty()
            && !key.as_str().is_empty(),
    };
    if valid {
        Ok(())
    } else {
        Err(TransferError::InvalidEndpoint)
    }
}

} // verus!

verus! {

/// The fields a state transition never touches.
pub open spec fn same_identity(a: TransferJob, b: TransferJob) -> bool {
    &&& a.id == b.id
    &&& a.owner_user_id == b.owner_user_id
    &&& a.source == b.source
    &&& a.destination == b.destination
    &&& a.strategy == b.strategy
    &&& a.bytes_total == b.bytes_total
    &&& a.created_at == b.created_at
}

/// The stored form of an error message: its first 1024 characters.
pub open spec fn truncated_error(e: Seq<char>) -> Seq<char> {
    if e.len() <= 1024 {
        e
    } else {
        e.take(1024)
    }
}

/// `2^n`.
pub open spec fn two_pow(n: nat) -> int
    decreases n,
{
    if n == 0 {
        1
    } else {
        2 * two_pow((n - 1) as nat)
    }
}

/// Seconds a transient failure delays the next attempt: `2^attempts`,
/// with the exponent capped at 8.
pub open spec fn spec_backoff(attempts: u32) -> int {
    two_pow(if attempts <= 8 {
        attempts as nat
    } else {
        8
    })
}

/// Whether a job may be claimed by a worker at `now`.
pub open spec fn claimable(job: TransferJob, now: i64) -> bool {
    job.state == TransferState::Queued && job.next_attempt_at <= now
}

/// The message a failure is stored with.
fn truncate_error(error: &str) -> (r: String)
    ensures
        r@ == truncated_error(error@),
{
    let v = chars_of(error);
    if v.len() <= MAX_ERROR_CHARS {
        string_of(v.as_slice())
    } else {
        let t = slice_chars(&v, 0, MAX_ERROR_CHARS);
        proof {
            assert(v@.subrange(0, 1024) =~= v@.take(1024));
        }
        string_of(t.as_slice())
    }
}

/// The retry delay for a job that has made `attempts` attempts.
pub fn backoff_seconds(attempts: u32) -> (b: i64)
    ensures
        b as int == spec_backoff(attempts),
        1 <= b <= 256,
{
    let exponent: u32 = if attempts <= 8 {
        attempts
    } else {
        8
    };
    let mut b: i64 = 1;
    let mut k: u32 = 0;
    while k < exponent
        invariant
            k <= exponent <= 8,
            b as int == two_pow(k as nat),
            1 <= b <= two_pow(k as nat),
        decreases exponent - k,
    {
        proof {
            lemma_two_pow_bounds(k as nat);
        }
        b = b * 2;
        k = k + 1;
    }
    proof {
        lemma_two_pow_bounds(k as nat);
    }
    b
}

proof fn lemma_two_pow_bounds(n: nat)
    requires
        n <= 8,
    ensures
        1 <= two_pow(n) <= 256,
        n < 8 ==> two_pow(n) <= 128,
    decreases 8 - n,
{
    reveal_with_fuel(two_pow, 9);
    if n < 8 {
        lemma_two_pow_bounds((n + 1) as nat);
        assert(two_pow((n + 1) as nat) == 2 * two_pow(n));
    } else {
        assert(two_pow(8) == 256);
    }
}

impl TransferJob {
    /// A worker takes a queued, due job: it becomes running and counts one
    /// more attempt.
    pub fn claim(&mut self, now: i64) -> (res: Result<(), TransferError>)
        requires
            old(self).attempts < u32::MAX,
        ensures
            follows(*old(self), *final(self), res is Ok, old(self).next_attempt_at <= now, JobEvent::Claim),
            claimable(*old(self), now) ==> res is Ok && same_identity(*old(self), *final(self))
                && final(self).state == TransferState::Running && final(self).attempts
                == old(self).attempts + 1 && final(self).updated_at == now
                && final(self).next_attempt_at == old(self).next_attempt_at
                && final(self).last_error == old(self).last_error
                && final(self).bytes_transferred == old(self).bytes_transferred,
            !claimable(*old(self), now) ==> (res matches Err(TransferError::InvalidTransition)
                && *final(self) == *old(self)),
    {
        if !(matches!(self.state, TransferState::Queued) && self.next_attempt_at <= now) {
            return Err(TransferError::InvalidTransition);
        }
        self.state = TransferState::Running;
        self.attempts = self.attempts + 1;
        self.updated_at = now;
        Ok(())
    }

    /// Records the bytes a running job has moved so far.
    pub fn record_progress(&mut self, bytes_transferred: u64, now: i64) -> (res: Result<
        (),
        TransferError,
    >)
        ensures
            bytes_transferred <= i64::MAX ==> follows(*old(self), *final(self), res is Ok, true, JobEvent::Progress),
            bytes_transferred > i64::MAX ==> (res matches Err(TransferError::TooLarge) && *final(self)
                == *old(self)),
            bytes_transferred <= i64::MAX && old(self).state != TransferState::Running ==> (res
                matches Err(TransferError::InvalidTransition) && *final(self) == *old(self)),
            bytes_transferred <= i64::MAX && old(self).state == TransferState::Running ==> res is Ok
                && *final(self) == (TransferJob {
                bytes_transferred,
                updated_at: now,
                ..*old(self)
            }),
    {
        if bytes_transferred > i64::MAX as u64 {
            return Err(TransferError::TooLarge);
        }
        if !matches!(self.state, TransferState::Running) {
            return Err(TransferError::InvalidTransition);
        }
        self.bytes_transferred = bytes_transferred;
        self.updated_at = now;
        Ok(())
    }

    /// A running job finished successfully.
    pub fn complete(&mut self, now: i64) -> (res: Result<(), TransferError>)
        ensures
            follows(*old(self), *final(self), res is Ok, true, JobEvent::Complete),
            old(self).state == TransferState::Running ==> res is Ok && *final(self) == (TransferJob {
                state: TransferState::Completed,
                updated_at: now,
                ..*old(self)
            }),
            old(self).state != TransferState::Running ==> (res matches Err(
                TransferError::InvalidTransition,
            ) && *final(self) == *old(self)),
    {
        if !matches!(self.state, TransferState::Running) {
            return Err(TransferError::InvalidTransition);
        }
        self.state = TransferState::Completed;
        self.updated_at = now;
        Ok(())
    }

    /// A running job failed terminally; it stays failed until its owner
    /// retries it.
    pub fn fail(&mut self, error: &str, now: i64) -> (res: Result<(), TransferError>)
        ensures
            follows(*old(self), *final(self), res is Ok, true, JobEvent::Fail),
            old(self).state == TransferState::Running ==> (res is Ok && same_identity(
                *old(self),
                *final(self),
            ) && final(self).state == TransferState::Failed && final(self).attempts == old(self).attempts && final(self).next_attempt_at == old(self).next_attempt_at && final(self).bytes_transferred == old(self).bytes_transferred && final(self).updated_at == now
                && (final(self).last_error matches Some(e) && e@ == truncated_error(error@))),
            old(self).state != TransferState::Running ==> (res matches Err(
                TransferError::InvalidTransition,
            ) && *final(self) == *old(self)),
    {
        if !matches!(self.state, TransferState::Running) {
            return Err(TransferError::InvalidTransition);
        }
        self.state = TransferState::Failed;
        self.last_error = Some(truncate_error(error));
        self.updated_at = now;
        Ok(())
    }

    /// Bounded retry: a permanent error, or one at the attempt ceiling,
    /// fails the job; any other error requeues it after the backoff.
    pub fn retry(&mut self, error: &str, permanent: bool, now: i64) -> (res: Result<
        (),
        TransferError,
    >)
        requires
            now <= i64::MAX - 256,
        ensures
            follows(*old(self), *final(self), res is Ok, true, JobEvent::Retry { permanent }),
            old(self).state != TransferState::Running ==> (res matches Err(
                TransferError::InvalidTransition,
            ) && *final(self) == *old(self)),
            old(self).state == TransferState::Running ==> (res is Ok && same_identity(
                *old(self),
                *final(self),
            ) && final(self).attempts == old(self).attempts && final(self).bytes_transferred == old(self).bytes_transferred && final(self).updated_at == now && (final(self).last_error matches Some(e) && e@ == truncated_error(error@))),
            old(self).state == TransferState::Running && (permanent || old(self).attempts
                >= MAX_TRANSFER_ATTEMPTS) ==> final(self).state == TransferState::Failed && final(self).next_attempt_at == old(self).next_attempt_at,
            old(self).state == TransferState::Running && !permanent && old(self).attempts
                < MAX_TRANSFER_ATTEMPTS ==> final(self).state == TransferState::Queued && final(self).next_attempt_at == now + spec_backoff(old(self).attempts),
    {
        if permanent || self.attempts >= MAX_TRANSFER_ATTEMPTS {
            return self.fail(error, now);
        }
        if !matches!(self.state, TransferState::Running) {
            return Err(TransferError::InvalidTransition);
        }
        let backoff = backoff_seconds(self.attempts);
        self.state = TransferState::Queued;
        self.last_error = Some(truncate_error(error));
        self.next_attempt_at = now + backoff;
        self.updated_at = now;
        Ok(())
    }

    /// The owner explicitly requeues a failed job with a fresh attempt
    /// budget; nobody else can.
    pub fn retry_failed(&mut self, owner_user_id: &str, now: i64) -> (res: Result<
        (),
        TransferError,
    >)
        ensures
            follows(*old(self), *final(self), res is Ok, true, JobEvent::RetryFailed { by_owner: old(self).owner_user_id@ == owner_user_id@ }),
            old(self).state == TransferState::Failed && old(self).owner_user_id@ == owner_user_id@
                ==> res is Ok && *final(self) == (TransferJob {
                state: TransferState::Queued,
                attempts: 0,
                last_error: None,
                next_attempt_at: now,
                updated_at: now,
                ..*old(self)
            }),
            !(old(self).state == TransferState::Failed && old(self).owner_user_id@
                == owner_user_id@) ==> (res matches Err(TransferError::InvalidTransition)
                && *final(self) == *old(self)),
    {
        if !matches!(self.state, TransferState::Failed) || !str_eq(
            self.owner_user_id.as_str(),
            owner_user_id,
        ) {
            return Err(TransferError::InvalidTransition);
        }
        self.state = TransferState::Queued;
        self.attempts = 0;
        self.last_error = None;
        self.next_attempt_at = now;
        self.updated_at = now;
        Ok(())
    }

    /// A job the service was running when it stopped goes back to the
    /// queue; returns whether this job was affected.
    pub fn recover_interrupted(&mut self, now: i64) -> (recovered: bool)
        ensures
            follows(*old(self), *final(self), recovered, true, JobEvent::Recover),
            recovered == (old(self).state == TransferState::Running),
            recovered ==> (same_identity(*old(self), *final(self)) && final(self).state
                == TransferState::Queued && final(self).attempts == old(self).attempts && final(self).bytes_transferred == old(self).bytes_transferred && final(self).next_attempt_at == now
                && final(self).updated_at == now && (final(self).last_error matches Some(e) && e@
                == "service restarted during transfer"@)),
            !recovered ==> *final(self) == *old(self),
    {
        if !matches!(self.state, TransferState::Running) {
            return false;
        }
        self.state = TransferState::Queued;
        self.next_attempt_at = now;
        self.updated_at = now;
        self.last_error = Some(string_of(&chars_of("service restarted during transfer")));
        true
    }
}

/// The states a caller may move a job to, from the states it may leave.
pub open spec fn spec_manual_transition_allowed(from: TransferState, to: TransferState) -> bool {
    match to {
        TransferState::Paused => from == TransferState::Queued || from == TransferState::Running,
        TransferState::Queued => from == TransferState::Paused,
        TransferState::Cancelled => from == TransferState::Queued || from == TransferState::Running
            || from == TransferState::Paused,
        _ => false,
    }
}

impl TransferJob {
    /// Pause, resume or cancel a job, where its current state allows it.
    pub fn set_state(&mut self, state: TransferState, now: i64) -> (res: Result<
        (),
        TransferError,
    >)
        ensures
            follows(*old(self), *final(self), res is Ok, true, JobEvent::SetState { target: state }),
            spec_manual_transition_allowed(old(self).state, state) ==> res is Ok && *final(self) == (
            TransferJob { state, updated_at: now, ..*old(self) }),
            !spec_manual_transition_allowed(old(self).state, state) ==> (res matches Err(
                TransferError::InvalidTransition,
            ) && *final(self) == *old(self)),
    {
        let allowed = match state {
            TransferState::Paused => matches!(self.state, TransferState::Queued)
                || matches!(self.state, TransferState::Running),
            TransferState::Queued => matches!(self.state, TransferState::Paused),
            TransferState::Cancelled => matches!(self.state, TransferState::Queued)
                || matches!(self.state, TransferState::Running)
                || matches!(self.state, TransferState::Paused),
            _ => false,
        };
        if !allowed {
            return Err(TransferError::InvalidTransition);
        }
        self.state = state;
        self.updated_at = now;
        Ok(())
    }
}

} // verus!

verus! {

/// The events that move a job through its life.
pub enum JobEvent {
    /// A worker claims the job.
    Claim,
    /// The worker reports progress.
    Progress,
    /// The transfer finished.
    Complete,
    /// The transfer failed terminally.
    Fail,
    /// The transfer failed; `permanent` when retrying can never succeed.
    Retry { permanent: bool },
    /// A user asks to requeue a failed job; `by_owner` when it is theirs.
    RetryFailed { by_owner: bool },
    /// A user pauses, resumes or cancels the job.
    SetState { target: TransferState },
    /// The service restarted.
    Recover,
}

/// The job's next state and attempt count after `event`, or `None` when
/// the job refuses the event. `due` says whether its next attempt time has
/// come.
pub open spec fn spec_transition(
    state: TransferState,
    attempts: u32,
    due: bool,
    event: JobEvent,
) -> Option<(TransferState, int)> {
    match event {
        JobEvent::Claim => if state == TransferState::Queued && due {
            Some((TransferState::Running, attempts + 1))
        } else {
            None
        },
        JobEvent::Progress => if state == TransferState::Running {
            Some((state, attempts as int))
        } else {
            None
        },
        JobEvent::Complete => if state == TransferState::Running {
            Some((TransferState::Completed, attempts as int))
        } else {
            None
        },
        JobEvent::Fail => if state == TransferState::Running {
            Some((TransferState::Failed, attempts as int))
        } else {
            None
        },
        JobEvent::Retry { permanent } => if state != TransferState::Running {
            None
        } else if permanent || attempts >= MAX_TRANSFER_ATTEMPTS {
            Some((TransferState::Failed, attempts as int))
        } else {
            Some((TransferState::Queued, attempts as int))
        },
        JobEvent::RetryFailed { by_owner } => if state == TransferState::Failed && by_owner {
            Some((TransferState::Queued, 0))
        } else {
            None
        },
        JobEvent::SetState { target } => if spec_manual_transition_allowed(state, target) {
            Some((target, attempts as int))
        } else {
            None
        },
        JobEvent::Recover => if state == TransferState::Running {
            Some((TransferState::Queued, attempts as int))
        } else {
            None
        },
    }
}

/// `new` is what `event` makes of `old` (or `old` refused it and `ok` is
/// false).
pub open spec fn follows(old: TransferJob, new: TransferJob, ok: bool, due: bool, event: JobEvent) -> bool {
    match spec_transition(old.state, old.attempts, due, event) {
        Some((s, a)) => ok && new.state == s && new.attempts == a,
        None => !ok && new == old,
    }
}

/// Completed and cancelled jobs are final: every event is refused.
pub proof fn lemma_finished_jobs_are_final(
    state: TransferState,
    attempts: u32,
    due: bool,
    event: JobEvent,
)
    requires
        state == TransferState::Completed || state == TransferState::Cancelled,
    ensures
        spec_transition(state, attempts, due, event) is None,
{
}

/// A failed job leaves `Failed` only when its owner retries it, and then
/// with a fresh attempt budget.
pub proof fn lemma_failed_left_only_by_owner_retry(attempts: u32, due: bool, event: JobEvent)
    requires
        spec_transition(TransferState::Failed, attempts, due, event) is Some,
    ensures
        event == (JobEvent::RetryFailed { by_owner: true }),
        spec_transition(TransferState::Failed, attempts, due, event) == Some(
            (TransferState::Queued, 0int),
        ),
{
}

/// A job that has used its attempt budget fails on the next retry,
/// whatever the error: retries are bounded.
pub proof fn lemma_exhausted_budget_fails(attempts: u32, due: bool, permanent: bool)
    requires
        attempts >= MAX_TRANSFER_ATTEMPTS,
    ensures
        spec_transition(TransferState::Running, attempts, due, JobEvent::Retry { permanent })
            == Some((TransferState::Failed, attempts as int)),
{
}

/// A permanent error fails a running job at once, without spending an
/// attempt.
pub proof fn lemma_permanent_error_fails_at_once(attempts: u32, due: bool)
    ensures
        spec_transition(
            TransferState::Running,
            attempts,
            due,
            JobEvent::Retry { permanent: true },
        ) == Some((TransferState::Failed, attempts as int)),
{
}

/// A claimed job cannot be claimed again until it is back in the queue.
pub proof fn lemma_claim_is_exclusive(attempts: u32, due: bool, again_due: bool)
    requires
        attempts < u32::MAX,
        spec_transition(TransferState::Queued, attempts, due, JobEvent::Claim) is Some,
    ensures
        spec_transition(TransferState::Running, (attempts + 1) as u32, again_due, JobEvent::Claim)
            is None,
{
}

/// Cancelling stays distinct from failing: a cancelled job is never
/// `Failed`, and no event ever turns it into one.
pub proof fn lemma_cancellation_is_not_failure(
    state: TransferState,
    attempts: u32,
    due: bool,
)
    requires
        state == TransferState::Queued || state == TransferState::Running || state
            == TransferState::Paused,
    ensures
        spec_transition(state, attempts, due, JobEvent::SetState { target: TransferState::Cancelled })
            == Some((TransferState::Cancelled, attempts as int)),
{
}

} // verus!

verus! {

/// A job a claim took is running, so no later claim takes it again
/// until it is queued anew: claims in sequence never take one job twice.
pub proof fn lemma_claimed_job_is_not_claimed_again(job: TransferJob, later: i64)
    requires
        job.state == TransferState::Running,
    ensures
        !claimable(job, later),
{
}

/// The queue's claim order: oldest first, then by id.
pub open spec fn claims_before(a: TransferJob, b: TransferJob) -> bool {
    a.created_at < b.created_at || (a.created_at == b.created_at && lex_le(a.id@, b.id@))
}

fn claims_before_exec(a: &TransferJob, b: &TransferJob) -> (r: bool)
    ensures
        r == claims_before(*a, *b),
{
    if a.created_at != b.created_at {
        return a.created_at < b.created_at;
    }
    let x = chars_of(a.id.as_str());
    let y = chars_of(b.id.as_str());
    lex_le_exec(x.as_slice(), y.as_slice())
}

/// A worker claims the first due job in queue order, if any; returns its
/// position. No other job changes.
pub fn claim_next(jobs: &mut Vec<TransferJob>, now: i64) -> (claimed: Option<usize>)
    requires
        forall|i: int|
            0 <= i < old(jobs)@.len() && claimable(#[trigger] old(jobs)@[i], now) ==> old(
                jobs,
            )@[i].attempts < u32::MAX,
    ensures
        final(jobs)@.len() == old(jobs)@.len(),
        claimed is None <==> forall|i: int|
            0 <= i < old(jobs)@.len() ==> !claimable(#[trigger] old(jobs)@[i], now),
        claimed is None ==> final(jobs)@ == old(jobs)@,
        claimed matches Some(c) ==> c < old(jobs)@.len() && claimable(old(jobs)@[c as int], now)
            && (forall|j: int|
            0 <= j < old(jobs)@.len() && claimable(#[trigger] old(jobs)@[j], now) ==> claims_before(
                old(jobs)@[c as int],
                old(jobs)@[j],
            )) && same_identity(old(jobs)@[c as int], final(jobs)@[c as int]) && final(
            jobs)@[c as int].state == TransferState::Running && final(jobs)@[c as int].attempts
            == old(jobs)@[c as int].attempts + 1 && final(jobs)@[c as int].updated_at == now
            && (forall|j: int| 0 <= j < old(jobs)@.len() && j != c ==> final(jobs)@[j] == old(
            jobs,
        )@[j]),
{
    let mut best: Option<usize> = None;
    let mut i: usize = 0;
    while i < jobs.len()
        invariant
            i <= jobs@.len(),
            jobs@ == old(jobs)@,
            match best {
                None => forall|j: int| 0 <= j < i ==> !claimable(#[trigger] jobs@[j], now),
                Some(b) => b < i && claimable(jobs@[b as int], now) && forall|j: int|
                    0 <= j < i && claimable(#[trigger] jobs@[j], now) ==> claims_before(
                        jobs@[b as int],
                        jobs@[j],
                    ),
            },
        decreases jobs@.len() - i,
    {
        let due = matches!(jobs[i].state, TransferState::Queued) && jobs[i].next_attempt_at <= now;
        if due {
            match best {
                None => {
                    best = Some(i);
                },
                Some(b) => {
                    if !claims_before_exec(&jobs[b], &jobs[i]) {
                        proof {
                            lemma_claims_before_total(jobs@[b as int], jobs@[i as int]);
                            assert forall|j: int|
                                0 <= j < i + 1 && claimable(#[trigger] jobs@[j], now) implies claims_before(
                                jobs@[i as int],
                                jobs@[j],
                            ) by {
                                if j < i {
                                    lemma_claims_before_transitive(
                                        jobs@[i as int],
                                        jobs@[b as int],
                                        jobs@[j],
                                    );
                                } else {
                                    lemma_claims_before_reflexive(jobs@[i as int]);
                                }
                            }
                        }
                        best = Some(i);
                    }
                },
            }
        }
        proof {
            if best is Some && best->0 == i {
                lemma_claims_before_reflexive(jobs@[i as int]);
            }
        }
        i = i + 1;
    }
    match best {
        None => None,
        Some(b) => {
            let mut job = jobs.remove(b);
            let _ = job.claim(now);
            jobs.insert(b, job);
            Some(b)
        },
    }
}

proof fn lemma_claims_before_reflexive(a: TransferJob)
    ensures
        claims_before(a, a),
{
    lemma_lex_le_reflexive(a.id@);
}

proof fn lemma_claims_before_total(a: TransferJob, b: TransferJob)
    ensures
        claims_before(a, b) || claims_before(b, a),
{
    lemma_lex_le_total(a.id@, b.id@);
}

proof fn lemma_claims_before_transitive(a: TransferJob, b: TransferJob, c: TransferJob)
    requires
        claims_before(a, b),
        claims_before(b, c),
    ensures
        claims_before(a, c),
{
    if a.created_at == b.created_at && b.created_at == c.created_at {
        lemma_lex_le_transitive(a.id@, b.id@, c.id@);
    }
}

} // verus!

verus! {

/// The text a transfer error is shown with.
pub open spec fn spec_error_message(e: TransferError) -> Seq<char> {
    match e {
        TransferError::Database(m) => "database error: "@ + m@,
        TransferError::Serialization(m) => "serialization error: "@ + m@,
        TransferError::InvalidEndpoint => "transfer endpoint is invalid"@,
        TransferError::TooLarge => "transfer size exceeds supported limits"@,
        TransferError::NotFound => "transfer was not found"@,
        TransferError::InvalidTransition => "transfer state transition is invalid"@,
        TransferError::Corrupt => "stored transfer state is corrupt"@,
        TransferError::Io(m) => "I/O error: "@ + m@,
        TransferError::Permanent(m) => "permanent error: "@ + m@,
    }
}

fn prefixed(prefix: &str, m: &String) -> (r: String)
    ensures
        r@ == prefix@ + m@,
{
    let mut v = chars_of(prefix);
    let w = chars_of(m.as_str());
    append_chars(&mut v, w.as_slice());
    string_of(v.as_slice())
}

fn literal(s: &str) -> (r: String)
    ensures
        r@ == s@,
{
    string_of(&chars_of(s))
}

impl TransferError {
    /// The text this error is shown with.
    pub fn message(&self) -> (m: String)
        ensures
            m@ == spec_error_message(*self),
    {
        match self {
            TransferError::Database(m) => prefixed("database error: ", m),
            TransferError::Serialization(m) => prefixed("serialization error: ", m),
            TransferError::InvalidEndpoint => literal("transfer endpoint is invalid"),
            TransferError::TooLarge => literal("transfer size exceeds supported limits"),
            TransferError::NotFound => literal("transfer was not found"),
            TransferError::InvalidTransition => literal("transfer state transition is invalid"),
            TransferError::Corrupt => literal("stored transfer state is corrupt"),
            TransferError::Io(m) => prefixed("I/O error: ", m),
            TransferError::Permanent(m) => prefixed("permanent error: ", m),
        }
    }

    /// The message and permanence a failed attempt is retried with: only a
    /// permanent error skips straight to `Failed`, with its bare message.
    pub fn retry_classification(&self) -> (c: (String, bool))
        ensures
            match *self {
                TransferError::Permanent(m) => c.0@ == m@ && c.1,
                _ => c.0@ == spec_error_message(*self) && !c.1,
            },
    {
        match self {
            TransferError::Permanent(message) => (literal(message.as_str()), true),
            other => (other.message(), false),
        }
    }
}

/// How many jobs one listing returns: the requested count, kept within
/// 1 to 200.
pub fn list_limit(limit: u32) -> (n: u32)
    ensures
        n == (if limit < 1 {
            1
        } else if limit > 200 {
            200
        } else {
            limit
        }),
{
    if limit < 1 {
        1
    } else if limit > 200 {
        200
    } else {
        limit
    }
}

/// What the queue stores for a new transfer, once both endpoints are
/// valid: the chosen strategy and the declared size as a signed integer.
/// `source_scp_ok`/`destination_scp_ok` are the SCP path policy's verdicts.
pub fn prepare_enqueue(
    transfer: &NewTransfer,
    source_scp_ok: bool,
    destination_scp_ok: bool,
) -> (res: Result<(TransferStrategy, Option<i64>), TransferError>)
    ensures
        !(spec_endpoint_nonempty(transfer.source) && (transfer.source is Scp ==> source_scp_ok))
            ==> (res matches Err(TransferError::InvalidEndpoint)),
        (spec_endpoint_nonempty(transfer.source) && (transfer.source is Scp ==> source_scp_ok))
            && !(spec_endpoint_nonempty(transfer.destination) && (transfer.destination is Scp
            ==> destination_scp_ok)) ==> (res matches Err(TransferError::InvalidEndpoint)),
        (spec_endpoint_nonempty(transfer.source) && (transfer.source is Scp ==> source_scp_ok))
            && (spec_endpoint_nonempty(transfer.destination) && (transfer.destination is Scp
            ==> destination_scp_ok)) ==> match transfer.bytes_total {
            Some(b) if b > i64::MAX => res matches Err(TransferError::TooLarge),
            _ => res matches Ok((s, t)) && s == spec_select_strategy(
                transfer.source,
                transfer.destination,
            ) && t == match transfer.bytes_total {
                Some(b) => Some(b as i64),
                None => None,
            },
        },
{
    validate_endpoint(&transfer.source, source_scp_ok)?;
    validate_endpoint(&transfer.destination, destination_scp_ok)?;
    let strategy = select_strategy(&transfer.source, &transfer.destination);
    let total = match transfer.bytes_total {
        Some(b) => {
            if b > i64::MAX as u64 {
                return Err(TransferError::TooLarge);
            }
            Some(b as i64)
        },
        None => None,
    };
    Ok((strategy, total))
}

/// Rebuilds a job from its stored columns (endpoints already decoded),
/// refusing anything out of range as corrupt.
#[allow(clippy::too_many_arguments)]
pub fn job_from_columns(
    id: String,
    owner_user_id: String,
    source: TransferEndpoint,
    destination: TransferEndpoint,
    strategy: &str,
    state: &str,
    bytes_total: Option<i64>,
    bytes_transferred: i64,
    attempts: i64,
    next_attempt_at: i64,
    last_error: Option<String>,
    created_at: i64,
    updated_at: i64,
) -> (res: Result<TransferJob, TransferError>)
    ensures
        (spec_parse_strategy(strategy@) is Some && spec_parse_state(state@) is Some
            && (bytes_total matches Some(t) ==> t >= 0) && bytes_transferred >= 0 && 0 <= attempts
            <= u32::MAX) <==> res is Ok,
        res is Err ==> (res matches Err(TransferError::Corrupt)),
        res matches Ok(j) ==> j.id == id && j.owner_user_id == owner_user_id && j.source == source
            && j.destination == destination && Some(j.strategy) == spec_parse_strategy(strategy@)
            && Some(j.state) == spec_parse_state(state@) && j.bytes_total == (match bytes_total {
            Some(t) => Some(t as u64),
            None => None,
        }) && j.bytes_transferred == bytes_transferred && j.attempts == attempts
            && j.next_attempt_at == next_attempt_at && j.last_error == last_error && j.created_at
            == created_at && j.updated_at == updated_at,
{
    let strategy = parse_strategy(strategy)?;
    let state = parse_state(state)?;
    let bytes_total = match bytes_total {
        Some(t) => {
            if t < 0 {
                return Err(TransferError::Corrupt);
            }
            Some(t as u64)
        },
        None => None,
    };
    if bytes_transferred < 0 {
        return Err(TransferError::Corrupt);
    }
    if attempts < 0 || attempts > u32::MAX as i64 {
        return Err(TransferError::Corrupt);
    }
    Ok(
        TransferJob {
            id,
            owner_user_id,
            source,
            destination,
            strategy,
            state,
            bytes_total,
            bytes_transferred: bytes_transferred as u64,
            attempts: attempts as u32,
            next_attempt_at,
            last_error,
            created_at,
            updated_at,
        },
    )
}

} // verus!

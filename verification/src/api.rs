//! How failures are answered over HTTP: a status, a fixed public message,
//! and an internal detail that is logged but never sent; and the mapping
//! of each subsystem's errors onto them, with the runtime kinds' rules.

use vstd::prelude::*;
use crate::text::{chars_of, string_of};
use crate::transfers::TransferError;
use crate::vault::VaultError;
use crate::wopi::WopiError;

verus! {

/// An API failure.
#[derive(Debug)]
pub struct ApiError {
    pub status: u16,
    /// What the client is told.
    pub public_message: &'static str,
    /// What is logged, never sent.
    pub internal: Option<String>,
}

pub open spec fn answers(e: ApiError, status: u16, message: Seq<char>) -> bool {
    e.status == status && e.public_message@ == message && e.internal is None
}

pub open spec fn internal_error(e: ApiError, detail: Seq<char>) -> bool {
    &&& e.status == 500
    &&& e.public_message@ == "internal server error"@
    &&& match e.internal {
        Some(d) => d@ == detail,
        None => false,
    }
}

impl ApiError {
    pub fn bad_request(message: &'static str) -> (e: Self)
        ensures
            answers(e, 400, message@),
    {
        ApiError { status: 400, public_message: message, internal: None }
    }

    pub fn not_found(message: &'static str) -> (e: Self)
        ensures
            answers(e, 404, message@),
    {
        ApiError { status: 404, public_message: message, internal: None }
    }

    /// A bad request whose reason is only known at run time: logged, and
    /// answered with a fixed message.
    pub fn bad_request_owned(message: String) -> (e: Self)
        ensures
            e.status == 400,
            e.public_message@ == "request could not be processed"@,
            e.internal == Some(message),
    {
        ApiError {
            status: 400,
            public_message: "request could not be processed",
            internal: Some(message),
        }
    }

    pub fn too_many_requests(message: &'static str) -> (e: Self)
        ensures
            answers(e, 429, message@),
    {
        ApiError { status: 429, public_message: message, internal: None }
    }

    pub fn unauthorized() -> (e: Self)
        ensures
            answers(e, 401, "authentication required"@),
    {
        ApiError { status: 401, public_message: "authentication required", internal: None }
    }

    pub fn forbidden() -> (e: Self)
        ensures
            answers(e, 403, "permission denied"@),
    {
        ApiError { status: 403, public_message: "permission denied", internal: None }
    }

    pub fn step_up_required() -> (e: Self)
        ensures
            answers(e, 403, "recent step-up authentication required"@),
    {
        ApiError {
            status: 403,
            public_message: "recent step-up authentication required",
            internal: None,
        }
    }

    pub fn runtime_unavailable() -> (e: Self)
        ensures
            answers(e, 503, "runtime management is not initialized"@),
    {
        ApiError {
            status: 503,
            public_message: "runtime management is not initialized",
            internal: None,
        }
    }

    pub fn conflict(message: &'static str) -> (e: Self)
        ensures
            answers(e, 409, message@),
    {
        ApiError { status: 409, public_message: message, internal: None }
    }

    pub fn bad_gateway(message: &'static str) -> (e: Self)
        ensures
            answers(e, 502, message@),
    {
        ApiError { status: 502, public_message: message, internal: None }
    }

    /// An internal failure: logged with its detail, answered generically.
    pub fn internal(message: String) -> (e: Self)
        ensures
            internal_error(e, message@),
    {
        ApiError { status: 500, public_message: "internal server error", internal: Some(message) }
    }

    /// A vault failure: a missing secret is `404`, invalid metadata `400`,
    /// anything else internal.
    pub fn from_vault(error: VaultError) -> (e: Self)
        ensures
            match error {
                VaultError::NotFound => answers(e, 404, "secret not found"@),
                VaultError::InvalidKind | VaultError::InvalidLabel | VaultError::InvalidValue => answers(
                    e,
                    400,
                    "invalid secret"@,
                ),
                VaultError::Database(m) => internal_error(e, "database error: "@ + m@),
                VaultError::Secret(m) => internal_error(e, "secret protection failed: "@ + m@),
            },
    {
        match error {
            VaultError::NotFound => ApiError { status: 404, public_message: "secret not found", internal: None },
            VaultError::InvalidKind | VaultError::InvalidLabel | VaultError::InvalidValue => {
                ApiError::bad_request("invalid secret")
            },
            VaultError::Database(m) => ApiError::internal(prefixed("database error: ", &m)),
            VaultError::Secret(m) => ApiError::internal(prefixed("secret protection failed: ", &m)),
        }
    }

    /// A transfer queue failure: a missing job is `404`, an invalid request
    /// `400`, a refused state change `409`, anything else internal.
    pub fn from_transfer(error: TransferError) -> (e: Self)
        ensures
            match error {
                TransferError::NotFound => answers(e, 404, "transfer not found"@),
                TransferError::InvalidEndpoint | TransferError::TooLarge => answers(
                    e,
                    400,
                    "invalid transfer"@,
                ),
                TransferError::InvalidTransition => answers(e, 409, "invalid transfer state transition"@),
                other => internal_error(e, crate::transfers::spec_error_message(other)),
            },
    {
        match error {
            TransferError::NotFound => ApiError { status: 404, public_message: "transfer not found", internal: None },
            TransferError::InvalidEndpoint | TransferError::TooLarge => ApiError::bad_request(
                "invalid transfer",
            ),
            TransferError::InvalidTransition => ApiError {
                status: 409,
                public_message: "invalid transfer state transition",
                internal: None,
            },
            other => ApiError::internal(other.message()),
        }
    }

    /// A WOPI failure: `403` when unauthorized, `404` for an unknown file,
    /// `401` for any token problem, internal otherwise.
    pub fn from_wopi(error: WopiError) -> (e: Self)
        ensures
            match error {
                WopiError::NotAuthorized => answers(e, 403, "permission denied"@),
                WopiError::NotFound => answers(e, 404, "file not found"@),
                WopiError::InvalidToken | WopiError::TokenExpired | WopiError::FileMismatch => answers(
                    e,
                    401,
                    "authentication required"@,
                ),
                WopiError::Database(m) => internal_error(e, m@),
                WopiError::Io(m) => internal_error(e, m@),
            },
    {
        match error {
            WopiError::NotAuthorized => ApiError::forbidden(),
            WopiError::NotFound => ApiError::not_found("file not found"),
            WopiError::InvalidToken | WopiError::TokenExpired | WopiError::FileMismatch => {
                ApiError::unauthorized()
            },
            WopiError::Database(m) => ApiError::internal(m),
            WopiError::Io(m) => ApiError::internal(m),
        }
    }
}

fn prefixed(prefix: &str, m: &String) -> (r: String)
    ensures
        r@ == prefix@ + m@,
{
    let mut v = chars_of(prefix);
    crate::text::append_chars(&mut v, chars_of(m.as_str()).as_slice());
    string_of(v.as_slice())
}

/// The runtime kinds an instance can be.
#[derive(Clone, Copy, Debug, PartialEq, Eq)]
pub enum RuntimeKind {
    Code,
    Office,
    Browser,
    TestFixture,
}

#[derive(Clone, Copy, Debug, PartialEq, Eq)]
pub enum Persistence {
    Persistent,
    Ephemeral,
}

/// The capability that gates using a kind; none for the test fixture.
pub fn kind_capability(kind: RuntimeKind) -> (c: Option<&'static str>)
    ensures
        match kind {
            RuntimeKind::Code => c matches Some(s) && s@ == "apps.code.use"@,
            RuntimeKind::Office => c matches Some(s) && s@ == "apps.office.use"@,
            RuntimeKind::Browser => c matches Some(s) && s@ == "apps.browser.use"@,
            RuntimeKind::TestFixture => c is None,
        },
{
    match kind {
        RuntimeKind::Code => Some("apps.code.use"),
        RuntimeKind::Office => Some("apps.office.use"),
        RuntimeKind::Browser => Some("apps.browser.use"),
        RuntimeKind::TestFixture => None,
    }
}

/// Code and office instances keep a profile; the others do not.
pub fn default_persistence(kind: RuntimeKind) -> (p: Persistence)
    ensures
        p == (match kind {
            RuntimeKind::Code | RuntimeKind::Office => Persistence::Persistent,
            RuntimeKind::Browser | RuntimeKind::TestFixture => Persistence::Ephemeral,
        }),
{
    match kind {
        RuntimeKind::Code | RuntimeKind::Office => Persistence::Persistent,
        RuntimeKind::Browser | RuntimeKind::TestFixture => Persistence::Ephemeral,
    }
}

/// A kind a request may select: any product kind, and the test fixture
/// only where tests enabled it. Refusals are indistinguishable.
pub fn selectable_kind(kind: Option<RuntimeKind>, allow_test_kind: bool) -> (r: Result<RuntimeKind, ApiError>)
    ensures
        match kind {
            Some(k) => if k != RuntimeKind::TestFixture || allow_test_kind {
                r matches Ok(x) && x == k
            } else {
                r matches Err(e) && answers(e, 400, "unknown runtime kind"@)
            },
            None => r matches Err(e) && answers(e, 400, "unknown runtime kind"@),
        },
{
    match kind {
        Some(k) => {
            if !matches!(k, RuntimeKind::TestFixture) || allow_test_kind {
                Ok(k)
            } else {
                Err(ApiError::bad_request("unknown runtime kind"))
            }
        },
        None => Err(ApiError::bad_request("unknown runtime kind")),
    }
}

/// Why an instance did not start.
#[derive(Debug)]
pub enum StartError {
    UnknownKind,
    Unavailable(String),
    Disabled,
    PerUserLimitReached,
    GlobalLimitReached,
    StartTimeout,
    NotFound,
    NotOwner,
    Adapter(String),
    Storage(String),
    Db(String),
}

/// How a start failure is answered: an instance of another user is
/// indistinguishable from a missing one.
pub fn map_start_error(error: StartError) -> (e: ApiError)
    ensures
        match error {
            StartError::UnknownKind | StartError::Unavailable(_) => answers(
                e,
                503,
                "runtime management is not initialized"@,
            ),
            StartError::Disabled => answers(e, 409, "runtime is currently disabled"@),
            StartError::PerUserLimitReached | StartError::GlobalLimitReached => answers(
                e,
                429,
                "runtime instance limit reached; try again shortly"@,
            ),
            StartError::StartTimeout => answers(e, 502, "runtime failed to become ready"@),
            StartError::NotFound | StartError::NotOwner => answers(e, 404, "runtime instance not found"@),
            StartError::Adapter(m) | StartError::Storage(m) | StartError::Db(m) => internal_error(e, m@),
        },
{
    match error {
        StartError::UnknownKind | StartError::Unavailable(_) => ApiError::runtime_unavailable(),
        StartError::Disabled => ApiError::conflict("runtime is currently disabled"),
        StartError::PerUserLimitReached | StartError::GlobalLimitReached => ApiError::too_many_requests(
            "runtime instance limit reached; try again shortly",
        ),
        StartError::StartTimeout => ApiError::bad_gateway("runtime failed to become ready"),
        StartError::NotFound | StartError::NotOwner => ApiError::not_found("runtime instance not found"),
        StartError::Adapter(m) | StartError::Storage(m) | StartError::Db(m) => ApiError::internal(m),
    }
}

/// Why an instance did not stop.
#[derive(Debug)]
pub enum StopError {
    NotFound,
    NotOwner,
    Db(String),
}

/// How a failed stop is answered: status, public message and the detail
/// that is only logged.
pub open spec fn stop_response(error: StopError) -> (u16, Seq<char>, Option<Seq<char>>) {
    match error {
        StopError::NotFound | StopError::NotOwner => (404, "runtime instance not found"@, None),
        StopError::Db(m) => (500, "internal server error"@, Some(m@)),
    }
}

/// The three parts of an error answer as plain values.
pub open spec fn answer_parts(e: ApiError) -> (u16, Seq<char>, Option<Seq<char>>) {
    (
        e.status,
        e.public_message@,
        match e.internal {
            Some(d) => Some(d@),
            None => None,
        },
    )
}

pub fn map_stop_error(error: StopError) -> (e: ApiError)
    ensures
        answer_parts(e) == stop_response(error),
        match error {
            StopError::NotFound | StopError::NotOwner => answers(e, 404, "runtime instance not found"@),
            StopError::Db(m) => internal_error(e, m@),
        },
{
    match error {
        StopError::NotFound | StopError::NotOwner => ApiError::not_found("runtime instance not found"),
        StopError::Db(m) => ApiError::internal(m),
    }
}

/// Stopping another user's instance is answered exactly as stopping one
/// that does not exist, so the answer reveals nothing about other users.
pub proof fn lemma_foreign_instance_looks_missing()
    ensures
        stop_response(StopError::NotOwner) == stop_response(StopError::NotFound),
{
}

} // verus!

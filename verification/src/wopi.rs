//! The WOPI host's rules: access tokens (stored only as hashes, bounded
//! lifetime, bound to one file), which of a user's roots authorizes a path,
//! server-side document locks with expiry, and the save precondition.

use vstd::prelude::*;
use vstd::utf8::encode_utf8;
use crate::lexical::{int_text, push_digits, push_i64};
use crate::ospath::{file_name, path_starts_with, spec_file_name, starts_with};
use crate::text::{chars_equal, chars_of, string_of};

verus! {

/// A WOPI access token's lifetime, in seconds.
pub const TOKEN_TTL_SECONDS: i64 = 1800;

/// A document lock's lifetime, in seconds; each refresh renews it.
pub const LOCK_TTL_SECONDS: i64 = 600;

/// The longest lock identifier accepted, in bytes.
pub const MAX_WOPI_LOCK_BYTES: usize = 1024;

/// The largest document served to the editor, in bytes.
pub const MAX_OFFICE_FILE_BYTES: u64 = 209_715_200;

/// Why a WOPI operation was refused.
#[derive(Debug)]
pub enum WopiError {
    NotAuthorized,
    NotFound,
    InvalidToken,
    TokenExpired,
    FileMismatch,
    /// A database failure, with its message.
    Database(String),
    /// A filesystem failure, with its message.
    Io(String),
}

impl WopiError {
    /// The HTTP status a WOPI failure is answered with.
    pub fn status(&self) -> (code: u16)
        ensures
            code == match self {
                WopiError::NotAuthorized => 403u16,
                WopiError::NotFound => 404u16,
                WopiError::InvalidToken | WopiError::TokenExpired | WopiError::FileMismatch => 401u16,
                WopiError::Database(_) | WopiError::Io(_) => 500u16,
            },
    {
        match self {
            WopiError::NotAuthorized => 403,
            WopiError::NotFound => 404,
            WopiError::InvalidToken | WopiError::TokenExpired | WopiError::FileMismatch => 401,
            WopiError::Database(_) | WopiError::Io(_) => 500,
        }
    }
}

/// A file authorized and resolved to its opaque WOPI identity.
pub struct ResolvedFile {
    pub file_id: String,
    pub canonical_path: String,
    pub read_write: bool,
}

/// A token verified against the current authorization state.
pub struct VerifiedToken {
    pub user_id: String,
    pub file_id: String,
    pub canonical_path: String,
    pub read_write: bool,
}

/// A live document lock.
pub struct LockInfo {
    pub lock_value: String,
    pub owner_user_id: String,
    pub expires_at: i64,
}

} // verus!

verus! {

/// What SHA-256 gives for `data`.
pub uninterp spec fn sha256_of(data: Seq<u8>) -> Seq<u8>;

/// SHA-256 of `data`.
///
/// Trusted: calls `sha2::Sha256::digest`; the contract names the digest,
/// a function of the input alone, and states its documented 32-byte size.
#[verifier::external_body]
pub(crate) fn sha256(data: &[u8]) -> (digest: Vec<u8>)
    ensures
        digest@ == sha256_of(data@),
        digest@.len() == 32,
{
    <sha2::Sha256 as sha2::Digest>::digest(data).to_vec()
}

/// The lower-case hexadecimal digit for `n < 16`.
pub open spec fn hex_digit(n: int) -> char {
    if n < 10 {
        (48 + n) as char
    } else {
        (87 + n) as char
    }
}

/// Two lower-case hexadecimal digits per byte, high nibble first.
pub open spec fn spec_hex_lower(bytes: Seq<u8>) -> Seq<char>
    decreases bytes.len(),
{
    if bytes.len() == 0 {
        Seq::empty()
    } else {
        spec_hex_lower(bytes.drop_last()) + seq![
            hex_digit(bytes.last() as int / 16),
            hex_digit(bytes.last() as int % 16),
        ]
    }
}

/// Lower-case hexadecimal text of `bytes`.
///
/// Trusted: calls `hex::encode`, which maps each byte to its high then low
/// nibble through the table `0123456789abcdef`.
#[verifier::external_body]
pub(crate) fn hex_encode(bytes: &[u8]) -> (s: String)
    ensures
        s@ == spec_hex_lower(bytes@),
{
    hex::encode(bytes)
}

/// The stored form of a raw token: hex SHA-256 of its UTF-8 bytes.
pub open spec fn spec_token_hash(raw: Seq<char>) -> Seq<char> {
    spec_hex_lower(sha256_of(encode_utf8(raw)))
}

/// Hashes a raw access token for storage and lookup; the raw value itself
/// is never stored.
pub fn hash_token(raw: &str) -> (h: String)
    ensures
        h@ == spec_token_hash(raw@),
{
    let digest = sha256(raw.as_bytes());
    hex_encode(digest.as_slice())
}

/// Whole seconds since the Unix epoch from the clock's reading, `0` when
/// the clock is before the epoch and saturated at `i64::MAX`.
pub fn unix_seconds(elapsed: Option<u64>) -> (t: i64)
    ensures
        t == match elapsed {
            None => 0,
            Some(s) => if s <= i64::MAX as u64 {
                s as i64
            } else {
                i64::MAX
            },
        },
{
    match elapsed {
        None => 0,
        Some(s) => if s <= i64::MAX as u64 {
            s as i64
        } else {
            i64::MAX
        },
    }
}

/// A file's modification time in whole seconds since the epoch, `0` when
/// unknown, before the epoch or out of range.
pub fn mtime_seconds(elapsed: Option<u64>) -> (t: i64)
    ensures
        t == match elapsed {
            None => 0,
            Some(s) => if s <= i64::MAX as u64 {
                s as i64
            } else {
                0
            },
        },
{
    match elapsed {
        None => 0,
        Some(s) => if s <= i64::MAX as u64 {
            s as i64
        } else {
            0
        },
    }
}

/// When a token issued at `now` expires.
pub fn token_expiry(now: i64) -> (t: i64)
    requires
        now <= i64::MAX - TOKEN_TTL_SECONDS,
    ensures
        t == now + TOKEN_TTL_SECONDS,
{
    now + TOKEN_TTL_SECONDS
}

/// When a lock acquired or refreshed at `now` expires.
pub fn lock_expiry(now: i64) -> (t: i64)
    requires
        now <= i64::MAX - LOCK_TTL_SECONDS,
    ensures
        t == now + LOCK_TTL_SECONDS,
{
    now + LOCK_TTL_SECONDS
}

/// Checks a stored token found by its hash: still unexpired at `now`, and
/// bound to `expected_file_id` when one is given.
pub fn check_token(
    expires_at: i64,
    token_file_id: &str,
    now: i64,
    expected_file_id: Option<&str>,
) -> (r: Result<(), WopiError>)
    ensures
        now >= expires_at ==> r matches Err(WopiError::TokenExpired),
        now < expires_at ==> match expected_file_id {
            Some(e) => if e@ == token_file_id@ {
                r is Ok
            } else {
                r matches Err(WopiError::FileMismatch)
            },
            None => r is Ok,
        },
{
    if now >= expires_at {
        return Err(WopiError::TokenExpired);
    }
    match expected_file_id {
        Some(e) => {
            if chars_equal(chars_of(e).as_slice(), chars_of(token_file_id).as_slice()) {
                Ok(())
            } else {
                Err(WopiError::FileMismatch)
            }
        },
        None => Ok(()),
    }
}

/// The document version reported to the editor: the stored save
/// generation, then the live size and modification time, joined by `-`.
pub open spec fn spec_version(generation: i64, size: u64, mtime: i64) -> Seq<char> {
    int_text(generation as int) + seq!['-'] + int_text(size as int) + seq!['-'] + int_text(
        mtime as int,
    )
}

/// Formats the document version string.
pub fn version_string(generation: i64, size: u64, mtime: i64) -> (v: String)
    ensures
        v@ == spec_version(generation, size, mtime),
{
    let mut out: Vec<char> = Vec::new();
    push_i64(generation, &mut out);
    out.push('-');
    push_digits(size, &mut out);
    out.push('-');
    push_i64(mtime, &mut out);
    proof {
        assert(out@ =~= spec_version(generation, size, mtime));
    }
    string_of(out.as_slice())
}

/// The stored size column for a file size (saturated at `i64::MAX`).
pub fn size_column(size: u64) -> (c: i64)
    ensures
        c == (if size <= i64::MAX as u64 {
            size as i64
        } else {
            i64::MAX
        }),
{
    if size <= i64::MAX as u64 {
        size as i64
    } else {
        i64::MAX
    }
}

/// A file size read back from its column (`0` for a negative value).
pub fn size_from_column(c: i64) -> (size: u64)
    ensures
        size == (if c >= 0 {
            c as u64
        } else {
            0u64
        }),
{
    if c >= 0 {
        c as u64
    } else {
        0
    }
}

} // verus!

verus! {

/// The access a root grants over `path`: the most specific root that
/// contains it among home (read-write) and `roots[..n]`, by byte length;
/// a later root wins only when strictly longer.
pub open spec fn best_root(
    path: Seq<char>,
    home: Seq<char>,
    roots: Seq<(Seq<char>, bool)>,
    n: int,
) -> Option<(nat, bool)>
    decreases n,
{
    if n <= 0 {
        if path_starts_with(path, home) {
            Some((encode_utf8(home).len(), true))
        } else {
            None
        }
    } else {
        let prev = best_root(path, home, roots, n - 1);
        let root = roots[n - 1];
        let len = encode_utf8(root.0).len();
        let longer = match prev {
            Some(p) => len > p.0,
            None => true,
        };
        if path_starts_with(path, root.0) && longer {
            Some((len, root.1))
        } else {
            prev
        }
    }
}

/// Whether `path` is authorized and with which access.
pub open spec fn spec_authorize_path(
    path: Seq<char>,
    home: Seq<char>,
    roots: Seq<(Seq<char>, bool)>,
) -> Option<bool> {
    match best_root(path, home, roots, roots.len() as int) {
        Some((_, rw)) => Some(rw),
        None => None,
    }
}

pub open spec fn roots_view(roots: Seq<(String, bool)>) -> Seq<(Seq<char>, bool)> {
    roots.map_values(|r: (String, bool)| (r.0@, r.1))
}

/// Re-authorizes a canonical path against the user's home (read-write)
/// and the assigned roots that resolved, in listing order: the most
/// specific containing root decides, so a read-only root inside home is
/// never widened to home's access. `None` when nothing contains it.
pub fn authorize_path(path: &str, home: &str, roots: &[(String, bool)]) -> (r: Option<bool>)
    ensures
        r == spec_authorize_path(path@, home@, roots_view(roots@)),
{
    let ghost rv = roots_view(roots@);
    let mut best: Option<(usize, bool)> = None;
    if starts_with(path, home) {
        best = Some((home.as_bytes().len(), true));
    }
    let mut i: usize = 0;
    while i < roots.len()
        invariant
            i <= roots@.len(),
            rv == roots_view(roots@),
            rv.len() == roots@.len(),
            match best {
                Some((l, rw)) => best_root(path@, home@, rv, i as int) == Some((l as nat, rw)),
                None => best_root(path@, home@, rv, i as int) is None,
            },
        decreases roots@.len() - i,
    {
        let root = &roots[i];
        let len = root.0.as_str().as_bytes().len();
        proof {
            assert(rv[i as int] == (root.0@, root.1));
        }
        if starts_with(path, root.0.as_str()) {
            let better = match best {
                None => true,
                Some((l, _)) => len > l,
            };
            if better {
                best = Some((len, root.1));
            }
        }
        i = i + 1;
    }
    match best {
        Some((_, rw)) => Some(rw),
        None => None,
    }
}

/// The name shown to the editor for a document: its path's final name, or
/// empty when the path has none.
pub fn base_file_name(canonical_path: &str) -> (name: String)
    ensures
        name@ == match spec_file_name(canonical_path@) {
            Some(n) => n,
            None => Seq::<char>::empty(),
        },
{
    match file_name(canonical_path) {
        Some(n) => n,
        None => string_of(Vec::<char>::new().as_slice()),
    }
}

/// What the editor is told about a document and the caller's rights.
pub struct FileInfo {
    pub base_file_name: String,
    pub size: u64,
    pub version: String,
    pub user_id: String,
    pub user_can_write: bool,
    pub user_can_not_write_relative: bool,
    pub user_can_rename: bool,
    pub supports_locks: bool,
    pub supports_get_lock: bool,
    pub supports_update: bool,
    pub read_only: bool,
}

/// The `CheckFileInfo` answer: write and update only with read-write
/// access, never rename or write-relative, locks always supported.
pub fn file_info(verified: &VerifiedToken, size: u64, version: String) -> (info: FileInfo)
    ensures
        info.base_file_name@ == match spec_file_name(verified.canonical_path@) {
            Some(n) => n,
            None => Seq::<char>::empty(),
        },
        info.size == size,
        info.version == version,
        info.user_id@ == verified.user_id@,
        info.user_can_write == verified.read_write,
        info.supports_update == verified.read_write,
        info.read_only == !verified.read_write,
        info.user_can_not_write_relative,
        !info.user_can_rename,
        info.supports_locks,
        info.supports_get_lock,
{
    FileInfo {
        base_file_name: base_file_name(verified.canonical_path.as_str()),
        size,
        version,
        user_id: string_of(chars_of(verified.user_id.as_str()).as_slice()),
        user_can_write: verified.read_write,
        user_can_not_write_relative: true,
        user_can_rename: false,
        supports_locks: true,
        supports_get_lock: true,
        supports_update: verified.read_write,
        read_only: !verified.read_write,
    }
}

} // verus!

verus! {

/// The lock operations of the `X-WOPI-Override` header that read the
/// current lock.
#[derive(Clone, Copy, Debug, PartialEq, Eq)]
pub enum LockOperation {
    Lock,
    RefreshLock,
    Unlock,
    GetLock,
}

/// The first step of a lock request.
#[derive(Clone, Copy, Debug, PartialEq, Eq)]
pub enum LockRequest {
    /// Answer with this status without reading the lock.
    Respond(u16),
    /// Read the current lock, then decide with [`lock_outcome`].
    Consult(LockOperation),
}

/// Which request a lock call is: a missing override or an identifier over
/// [`MAX_WOPI_LOCK_BYTES`] bytes is a bad request, `LOCK` needs read-write
/// access, `RENAME_FILE` is not implemented, anything else is a bad
/// request.
pub open spec fn spec_lock_request(
    override_header: Option<Seq<char>>,
    presented: Seq<char>,
    read_write: bool,
) -> LockRequest {
    match override_header {
        None => LockRequest::Respond(400),
        Some(h) => if encode_utf8(presented).len() > MAX_WOPI_LOCK_BYTES {
            LockRequest::Respond(400)
        } else if h == "LOCK"@ {
            if read_write {
                LockRequest::Consult(LockOperation::Lock)
            } else {
                LockRequest::Respond(403)
            }
        } else if h == "REFRESH_LOCK"@ {
            LockRequest::Consult(LockOperation::RefreshLock)
        } else if h == "UNLOCK"@ {
            LockRequest::Consult(LockOperation::Unlock)
        } else if h == "GET_LOCK"@ {
            LockRequest::Consult(LockOperation::GetLock)
        } else if h == "RENAME_FILE"@ {
            LockRequest::Respond(501)
        } else {
            LockRequest::Respond(400)
        },
    }
}

/// Classifies a lock call from its `X-WOPI-Override` header, the presented
/// `X-WOPI-Lock` value and the caller's access.
pub fn lock_request(override_header: Option<&str>, presented_lock: &str, read_write: bool) -> (r:
    LockRequest)
    ensures
        r == spec_lock_request(
            match override_header {
                Some(h) => Some(h@),
                None => None,
            },
            presented_lock@,
            read_write,
        ),
{
    let h = match override_header {
        None => {
            return LockRequest::Respond(400);
        },
        Some(h) => h,
    };
    if presented_lock.as_bytes().len() > MAX_WOPI_LOCK_BYTES {
        return LockRequest::Respond(400);
    }
    let v = chars_of(h);
    if crate::text::is_text(v.as_slice(), "LOCK") {
        if read_write {
            LockRequest::Consult(LockOperation::Lock)
        } else {
            LockRequest::Respond(403)
        }
    } else if crate::text::is_text(v.as_slice(), "REFRESH_LOCK") {
        LockRequest::Consult(LockOperation::RefreshLock)
    } else if crate::text::is_text(v.as_slice(), "UNLOCK") {
        LockRequest::Consult(LockOperation::Unlock)
    } else if crate::text::is_text(v.as_slice(), "GET_LOCK") {
        LockRequest::Consult(LockOperation::GetLock)
    } else if crate::text::is_text(v.as_slice(), "RENAME_FILE") {
        LockRequest::Respond(501)
    } else {
        LockRequest::Respond(400)
    }
}

/// What a lock operation writes to the stored lock.
#[derive(Clone, Copy, Debug, PartialEq, Eq)]
pub enum LockWrite {
    Keep,
    /// Store the presented value as a fresh lock owned by the caller.
    Acquire,
    /// Renew the held lock's expiry.
    Refresh,
    /// Delete the held lock.
    Release,
}

/// The answer to a lock operation: status, `X-WOPI-Lock` response header,
/// and the write to perform.
#[derive(Clone, Debug)]
pub struct LockResponse {
    pub status: u16,
    pub lock_header: Option<String>,
    pub write: LockWrite,
}

/// The outcome of a lock operation given the value of the live lock, if
/// any: only the holder's value refreshes or releases; a mismatch is a
/// conflict that echoes the held value; `LOCK` on an unlocked file
/// acquires; `GET_LOCK` answers the held value or empty.
pub open spec fn spec_lock_outcome(
    op: LockOperation,
    presented: Seq<char>,
    held: Option<Seq<char>>,
) -> (u16, Option<Seq<char>>, LockWrite) {
    match op {
        LockOperation::Lock => match held {
            None => (200u16, None, LockWrite::Acquire),
            Some(v) => if v == presented {
                (200u16, None, LockWrite::Refresh)
            } else {
                (409u16, Some(v), LockWrite::Keep)
            },
        },
        LockOperation::RefreshLock => match held {
            Some(v) => if v == presented {
                (200u16, None, LockWrite::Refresh)
            } else {
                (409u16, Some(v), LockWrite::Keep)
            },
            None => (404u16, None, LockWrite::Keep),
        },
        LockOperation::Unlock => match held {
            Some(v) => if v == presented {
                (200u16, None, LockWrite::Release)
            } else {
                (409u16, Some(v), LockWrite::Keep)
            },
            None => (409u16, None, LockWrite::Keep),
        },
        LockOperation::GetLock => (
            200u16,
            Some(
                match held {
                    Some(v) => v,
                    None => Seq::<char>::empty(),
                },
            ),
            LockWrite::Keep,
        ),
    }
}

/// The value of a live lock, if any.
pub open spec fn held_value(current: Option<&LockInfo>) -> Option<Seq<char>> {
    match current {
        Some(l) => Some(l.lock_value@),
        None => None,
    }
}

pub open spec fn header_view(h: Option<String>) -> Option<Seq<char>> {
    match h {
        Some(s) => Some(s@),
        None => None,
    }
}

fn copy_string(s: &String) -> (r: String)
    ensures
        r@ == s@,
{
    string_of(chars_of(s.as_str()).as_slice())
}

/// Decides a lock operation against the current live lock.
pub fn lock_outcome(op: LockOperation, presented_lock: &str, current: Option<&LockInfo>) -> (r:
    LockResponse)
    ensures
        (r.status, header_view(r.lock_header), r.write) == spec_lock_outcome(
            op,
            presented_lock@,
            held_value(current),
        ),
{
    let p = chars_of(presented_lock);
    let matches_held = match current {
        Some(l) => chars_equal(chars_of(l.lock_value.as_str()).as_slice(), p.as_slice()),
        None => false,
    };
    match op {
        LockOperation::Lock => match current {
            None => LockResponse { status: 200, lock_header: None, write: LockWrite::Acquire },
            Some(l) => if matches_held {
                LockResponse { status: 200, lock_header: None, write: LockWrite::Refresh }
            } else {
                LockResponse {
                    status: 409,
                    lock_header: Some(copy_string(&l.lock_value)),
                    write: LockWrite::Keep,
                }
            },
        },
        LockOperation::RefreshLock => match current {
            Some(l) => if matches_held {
                LockResponse { status: 200, lock_header: None, write: LockWrite::Refresh }
            } else {
                LockResponse {
                    status: 409,
                    lock_header: Some(copy_string(&l.lock_value)),
                    write: LockWrite::Keep,
                }
            },
            None => LockResponse { status: 404, lock_header: None, write: LockWrite::Keep },
        },
        LockOperation::Unlock => match current {
            Some(l) => if matches_held {
                LockResponse { status: 200, lock_header: None, write: LockWrite::Release }
            } else {
                LockResponse {
                    status: 409,
                    lock_header: Some(copy_string(&l.lock_value)),
                    write: LockWrite::Keep,
                }
            },
            None => LockResponse { status: 409, lock_header: None, write: LockWrite::Keep },
        },
        LockOperation::GetLock => {
            let value = match current {
                Some(l) => copy_string(&l.lock_value),
                None => string_of(Vec::<char>::new().as_slice()),
            };
            LockResponse { status: 200, lock_header: Some(value), write: LockWrite::Keep }
        },
    }
}

/// A stored lock row seen at `now`: an expired lock counts as absent.
pub fn live_lock(lock_value: String, owner_user_id: String, expires_at: i64, now: i64) -> (r:
    Option<LockInfo>)
    ensures
        now >= expires_at ==> r is None,
        now < expires_at ==> (r matches Some(l) && l.lock_value == lock_value && l.owner_user_id
            == owner_user_id && l.expires_at == expires_at),
{
    if now >= expires_at {
        None
    } else {
        Some(LockInfo { lock_value, owner_user_id, expires_at })
    }
}

/// The stored lock as the lock rules see it: its value and expiry.
pub open spec fn live_value(stored: Option<(Seq<char>, int)>, now: int) -> Option<Seq<char>> {
    match stored {
        Some((v, e)) => if now >= e {
            None
        } else {
            Some(v)
        },
        None => None,
    }
}

/// The stored lock after a write made at `now`.
pub open spec fn after_write(
    stored: Option<(Seq<char>, int)>,
    write: LockWrite,
    presented: Seq<char>,
    now: int,
) -> Option<(Seq<char>, int)> {
    match write {
        LockWrite::Keep => stored,
        LockWrite::Acquire => Some((presented, now + LOCK_TTL_SECONDS)),
        LockWrite::Refresh => match stored {
            Some((v, _)) => Some((v, now + LOCK_TTL_SECONDS)),
            None => None,
        },
        LockWrite::Release => None,
    }
}

/// Locking an unlocked (or expired) document stores the presented value:
/// until the lock expires, `GET_LOCK` answers that value and a `LOCK` with
/// any other value is refused with a conflict that names it.
pub proof fn lemma_lock_then_read(
    stored: Option<(Seq<char>, int)>,
    value: Seq<char>,
    other: Seq<char>,
    now: int,
    later: int,
)
    requires
        live_value(stored, now) is None,
        now <= later < now + LOCK_TTL_SECONDS,
        other != value,
    ensures
        spec_lock_outcome(LockOperation::Lock, value, live_value(stored, now)).2
            == LockWrite::Acquire,
        ({
            let after = after_write(stored, LockWrite::Acquire, value, now);
            &&& live_value(after, later) == Some(value)
            &&& spec_lock_outcome(LockOperation::GetLock, other, live_value(after, later)).1
                == Some(value)
            &&& spec_lock_outcome(LockOperation::Lock, other, live_value(after, later)) == (
                409u16,
                Some(value),
                LockWrite::Keep,
            )
        }),
{
}

/// Unlocking with the held value removes the lock: `GET_LOCK` then answers
/// empty and the next `LOCK` acquires.
pub proof fn lemma_unlock_then_read(
    stored: Option<(Seq<char>, int)>,
    value: Seq<char>,
    next: Seq<char>,
    now: int,
    later: int,
)
    requires
        live_value(stored, now) == Some(value),
        now <= later,
    ensures
        spec_lock_outcome(LockOperation::Unlock, value, live_value(stored, now)) == (
            200u16,
            None::<Seq<char>>,
            LockWrite::Release,
        ),
        ({
            let after = after_write(stored, LockWrite::Release, value, now);
            &&& spec_lock_outcome(LockOperation::GetLock, next, live_value(after, later)).1
                == Some(Seq::<char>::empty())
            &&& spec_lock_outcome(LockOperation::Lock, next, live_value(after, later)).2
                == LockWrite::Acquire
        }),
{
}

/// An expired lock never blocks: a `LOCK` from anyone acquires it.
pub proof fn lemma_expired_lock_is_recoverable(
    value: Seq<char>,
    expires_at: int,
    presented: Seq<char>,
    now: int,
)
    requires
        now >= expires_at,
    ensures
        spec_lock_outcome(
            LockOperation::Lock,
            presented,
            live_value(Some((value, expires_at)), now),
        ).2 == LockWrite::Acquire,
{
}

/// Only the holder's value ever refreshes or releases a lock, and every
/// conflict while a lock is held answers the held value.
pub proof fn lemma_only_holder_changes_lock(
    op: LockOperation,
    presented: Seq<char>,
    held: Option<Seq<char>>,
)
    ensures
        ({
            let (status, header, write) = spec_lock_outcome(op, presented, held);
            &&& (write == LockWrite::Refresh || write == LockWrite::Release) ==> held == Some(
                presented,
            )
            &&& write == LockWrite::Acquire ==> held is None
            &&& (status == 409 && held is Some) ==> header == held
        }),
{
}

/// The `X-WOPI-Override` value that names a lock operation.
pub open spec fn override_name(op: LockOperation) -> Seq<char> {
    match op {
        LockOperation::Lock => "LOCK"@,
        LockOperation::RefreshLock => "REFRESH_LOCK"@,
        LockOperation::Unlock => "UNLOCK"@,
        LockOperation::GetLock => "GET_LOCK"@,
    }
}

/// A lock call goes on to an operation only when its override names that
/// very operation; and each operation's own override, with a lock value
/// within [`MAX_WOPI_LOCK_BYTES`] bytes and (for `LOCK`) write access,
/// goes on to that operation.
pub proof fn law_each_override_names_its_own_operation(
    override_header: Option<Seq<char>>,
    presented: Seq<char>,
    read_write: bool,
    op: LockOperation,
)
    ensures
        spec_lock_request(override_header, presented, read_write) == LockRequest::Consult(op)
            ==> override_header == Some(override_name(op)),
        encode_utf8(presented).len() <= MAX_WOPI_LOCK_BYTES && (op == LockOperation::Lock ==> read_write)
            ==> spec_lock_request(Some(override_name(op)), presented, read_write)
            == LockRequest::Consult(op),
        override_header is None ==> spec_lock_request(override_header, presented, read_write)
            == LockRequest::Respond(400),
        override_header is Some && encode_utf8(presented).len() > MAX_WOPI_LOCK_BYTES
            ==> spec_lock_request(override_header, presented, read_write) == LockRequest::Respond(400),
        !read_write && override_header == Some("LOCK"@) && encode_utf8(presented).len()
            <= MAX_WOPI_LOCK_BYTES ==> spec_lock_request(override_header, presented, read_write)
            == LockRequest::Respond(403),
{
    reveal_strlit("LOCK");
    reveal_strlit("REFRESH_LOCK");
    reveal_strlit("UNLOCK");
    reveal_strlit("GET_LOCK");
    assert("LOCK"@.len() == 4 && "UNLOCK"@.len() == 6 && "GET_LOCK"@.len() == 8
        && "REFRESH_LOCK"@.len() == 12);
}

/// A caller without write access is never let through to take a lock.
pub proof fn lemma_read_only_never_locks(override_header: Option<Seq<char>>, presented: Seq<char>)
    ensures
        spec_lock_request(override_header, presented, false) != LockRequest::Consult(
            LockOperation::Lock,
        ),
{
}

} // verus!

verus! {

/// Whether a `PutFile` may replace the document.
#[derive(Clone, Debug)]
pub enum SaveDecision {
    /// Answer `403`: no write access.
    Forbidden,
    /// Answer `409`, with the held lock's value when there is one.
    Conflict(Option<String>),
    /// Write the new content.
    Proceed,
}

/// The save rule: write access is required; a non-empty document must be
/// locked with the presented value, and must still match the size and
/// modification time recorded with the lock when both are known.
pub open spec fn spec_save_decision(
    read_write: bool,
    existing_size: u64,
    presented: Seq<char>,
    held: Option<Seq<char>>,
    snapshot: Option<(u64, i64)>,
    live: Option<(u64, i64)>,
) -> (u16, Option<Seq<char>>) {
    if !read_write {
        (403u16, None)
    } else if existing_size == 0 {
        (200u16, None)
    } else {
        match held {
            None => (409u16, None),
            Some(v) => if v != presented {
                (409u16, Some(v))
            } else {
                match (snapshot, live) {
                    (Some(s), Some(l)) => if s != l {
                        (409u16, None)
                    } else {
                        (200u16, None)
                    },
                    _ => (200u16, None),
                }
            },
        }
    }
}

pub open spec fn save_view(d: SaveDecision) -> (u16, Option<Seq<char>>) {
    match d {
        SaveDecision::Forbidden => (403u16, None),
        SaveDecision::Conflict(h) => (409u16, header_view(h)),
        SaveDecision::Proceed => (200u16, None),
    }
}

/// Decides whether a save may go ahead.
pub fn save_decision(
    read_write: bool,
    existing_size: u64,
    presented_lock: &str,
    current: Option<&LockInfo>,
    snapshot: Option<(u64, i64)>,
    live: Option<(u64, i64)>,
) -> (d: SaveDecision)
    ensures
        save_view(d) == spec_save_decision(
            read_write,
            existing_size,
            presented_lock@,
            held_value(current),
            snapshot,
            live,
        ),
{
    if !read_write {
        return SaveDecision::Forbidden;
    }
    if existing_size == 0 {
        return SaveDecision::Proceed;
    }
    match current {
        None => SaveDecision::Conflict(None),
        Some(l) => {
            if !chars_equal(
                chars_of(l.lock_value.as_str()).as_slice(),
                chars_of(presented_lock).as_slice(),
            ) {
                return SaveDecision::Conflict(Some(copy_string(&l.lock_value)));
            }
            match (snapshot, live) {
                (Some(s), Some(v)) => if s.0 != v.0 || s.1 != v.1 {
                    SaveDecision::Conflict(None)
                } else {
                    SaveDecision::Proceed
                },
                _ => SaveDecision::Proceed,
            }
        },
    }
}

/// A non-empty document is only ever replaced by the holder of its lock.
pub proof fn lemma_save_needs_the_lock(
    read_write: bool,
    existing_size: u64,
    presented: Seq<char>,
    held: Option<Seq<char>>,
    snapshot: Option<(u64, i64)>,
    live: Option<(u64, i64)>,
)
    ensures
        spec_save_decision(read_write, existing_size, presented, held, snapshot, live).0 == 200
            ==> read_write && (existing_size > 0 ==> held == Some(presented)),
{
}

} // verus!

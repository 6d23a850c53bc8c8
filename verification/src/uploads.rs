//! Resumable uploads: a session declares its total size, chunks may never
//! exceed what remains, and the upload is placed only once complete and,
//! when a checksum was declared, only when it matches.

use vstd::prelude::*;
use crate::lexical::eq_ignore_ascii_case;
use crate::text::{chars_equal, chars_of};

verus! {

/// A session idle longer than this many seconds is abandoned.
pub const ABANDONED_SESSION_TTL_SECS: i64 = 86_400;

/// Directory name of the staged parts, in the user's home.
pub const UPLOAD_DIR_NAME: &'static str = ".clouddesk-uploads";

/// A request to start a resumable upload.
#[derive(Clone, Debug)]
pub struct CreateUploadSessionBody {
    pub path: String,
    pub total_size: u64,
    /// The expected SHA-256 of the whole content, in hexadecimal.
    pub sha256: Option<String>,
}

/// Why an upload step was refused.
#[derive(Clone, Copy, Debug, PartialEq, Eq)]
pub enum UploadError {
    /// The session belongs to another user.
    Forbidden,
    /// A chunk would go past the declared total size.
    ChunkTooLarge,
    /// Finalized before all bytes arrived.
    Incomplete,
    /// The content's digest differs from the declared one.
    ChecksumMismatch,
}

/// An upload session is only ever used by its owner.
pub fn check_owner(owner_user_id: &str, caller_user_id: &str) -> (r: Result<(), UploadError>)
    ensures
        r is Ok <==> owner_user_id@ == caller_user_id@,
        r is Err ==> r == Err::<(), UploadError>(UploadError::Forbidden),
{
    if chars_equal(chars_of(owner_user_id).as_slice(), chars_of(caller_user_id).as_slice()) {
        Ok(())
    } else {
        Err(UploadError::Forbidden)
    }
}

/// The chunk rule: a chunk of `len` bytes fits when it is no longer than
/// what remains of the declared size (nothing remains once it is reached);
/// the bytes received in this request then grow by `len`.
pub open spec fn spec_accept_chunk(total: int, received: int, received_now: int, len: int) -> Option<int> {
    let remaining = total - received - received_now;
    let allowed = if remaining > 0 {
        remaining
    } else {
        0
    };
    if len > allowed {
        None
    } else {
        Some(received_now + len)
    }
}

/// A chunk's length as counted: saturated at `i64::MAX`.
pub open spec fn chunk_len_count(chunk_len: usize) -> int {
    if chunk_len <= i64::MAX {
        chunk_len as int
    } else {
        i64::MAX as int
    }
}

/// Accepts one received chunk. Returns the new count of bytes received in
/// this request.
pub fn accept_chunk(
    total_size: i64,
    bytes_received: i64,
    received_now: i64,
    chunk_len: usize,
) -> (r: Result<i64, UploadError>)
    requires
        0 <= received_now,
        i64::MIN <= total_size - bytes_received - received_now <= i64::MAX,
        i64::MIN <= total_size - bytes_received <= i64::MAX,
    ensures
        r == match spec_accept_chunk(
            total_size as int,
            bytes_received as int,
            received_now as int,
            chunk_len_count(chunk_len),
        ) {
            Some(n) => Ok::<i64, UploadError>(n as i64),
            None => Err(UploadError::ChunkTooLarge),
        },
{
    let remaining = total_size - bytes_received - received_now;
    let allowed: i64 = if remaining > 0 {
        remaining
    } else {
        0
    };
    let len: i64 = if (chunk_len as u64) <= (i64::MAX as u64) {
        chunk_len as i64
    } else {
        i64::MAX
    };
    if len > allowed {
        Err(UploadError::ChunkTooLarge)
    } else {
        Ok(received_now + len)
    }
}

/// Accepted chunks never take a session past its declared size: from a
/// count within the total, an accepted chunk keeps it within the total.
pub proof fn lemma_chunks_never_exceed_total(total: int, received: int, received_now: int, len: int)
    requires
        0 <= received_now,
        0 <= len,
        received + received_now <= total,
    ensures
        spec_accept_chunk(total, received, received_now, len) matches Some(n) ==> received + n
            <= total,
{
}

/// An accepted chunk adds exactly its length to the bytes received in the
/// request; a chunk is accepted exactly when it is empty or fits in what
/// remains of the declared size.
pub proof fn law_accepted_chunk_adds_its_length(total: int, received: int, received_now: int, len: int)
    requires
        0 <= len,
    ensures
        spec_accept_chunk(total, received, received_now, len) matches Some(n) ==> n == received_now + len,
        spec_accept_chunk(total, received, received_now, len) is Some <==> (len == 0 || received
            + received_now + len <= total),
{
}

/// Two chunks accepted one after the other count as much as one chunk of
/// their joint length accepted at once.
pub proof fn law_chunks_add_up(total: int, received: int, received_now: int, a: int, b: int)
    requires
        0 <= a,
        0 <= b,
        spec_accept_chunk(total, received, received_now, a) is Some,
        spec_accept_chunk(total, received, spec_accept_chunk(total, received, received_now, a)->0, b) is Some,
    ensures
        spec_accept_chunk(total, received, received_now, a + b) == spec_accept_chunk(
            total,
            received,
            spec_accept_chunk(total, received, received_now, a)->0,
            b,
        ),
{
}

/// A session is placed only when every declared byte arrived and, if a
/// checksum was declared, the lower-case hex digest of the content equals
/// it ignoring ASCII case.
pub fn finalize_check(
    total_size: i64,
    bytes_received: i64,
    expected_sha256: Option<&str>,
    digest: &[u8],
) -> (r: Result<(), UploadError>)
    ensures
        bytes_received != total_size ==> r == Err::<(), UploadError>(UploadError::Incomplete),
        bytes_received == total_size ==> match expected_sha256 {
            None => r is Ok,
            Some(e) => if eq_ignore_ascii_case(crate::wopi::spec_hex_lower(digest@), e@) {
                r is Ok
            } else {
                r == Err::<(), UploadError>(UploadError::ChecksumMismatch)
            },
        },
{
    if bytes_received != total_size {
        return Err(UploadError::Incomplete);
    }
    match expected_sha256 {
        None => Ok(()),
        Some(e) => {
            let actual = crate::wopi::hex_encode(digest);
            if crate::lexical::eq_ignore_ascii_case_exec(
                chars_of(actual.as_str()).as_slice(),
                chars_of(e).as_slice(),
            ) {
                Ok(())
            } else {
                Err(UploadError::ChecksumMismatch)
            }
        },
    }
}

/// Sessions last touched before this time are abandoned.
pub fn abandoned_cutoff(now: i64) -> (c: i64)
    requires
        now >= i64::MIN + ABANDONED_SESSION_TTL_SECS,
    ensures
        c == now - ABANDONED_SESSION_TTL_SECS,
{
    now - ABANDONED_SESSION_TTL_SECS
}

} // verus!

//! The checksum a completed transfer records: SHA-256 of exactly the bytes
//! copied, fed chunk by chunk as they stream, in lower-case hex; a relayed
//! transfer, whose bytes never pass through here, records a fixed marker.

use vstd::prelude::*;
use crate::text::{chars_of, skip_leading, slice_chars, string_of, trim_start_char};
use crate::transfers::{TransferEndpoint, TransferJob};
use crate::wopi::{hex_encode, sha256_of, spec_hex_lower};

verus! {

/// A SHA-256 computation in progress. `sha2::Sha256` is an alias of a
/// generic wrapper that Verus will not take as a declared outside type
/// ("expected generics to match"), so the hasher is held in this opaque
/// struct, with the bytes it has been fed named by [`sha256_fed`].
#[verifier::external_body]
pub struct Sha256Stream {
    hasher: sha2::Sha256,
}

/// The bytes a SHA-256 computation has been fed so far.
pub uninterp spec fn sha256_fed(s: Sha256Stream) -> Seq<u8>;

/// A fresh computation.
///
/// Trusted: calls `sha2::Digest::new`, whose state has been fed nothing.
#[verifier::external_body]
fn sha256_stream_new() -> (s: Sha256Stream)
    ensures
        sha256_fed(s) == Seq::<u8>::empty(),
{
    Sha256Stream { hasher: <sha2::Sha256 as sha2::Digest>::new() }
}

/// Feeds a chunk.
///
/// Trusted: calls `sha2::Digest::update`, which appends the chunk to what
/// the computation has been fed.
#[verifier::external_body]
fn sha256_stream_update(s: &mut Sha256Stream, chunk: &[u8])
    ensures
        sha256_fed(*final(s)) == sha256_fed(*old(s)) + chunk@,
{
    sha2::Digest::update(&mut s.hasher, chunk)
}

/// Ends the computation.
///
/// Trusted: calls `sha2::Digest::finalize`, whose digest is SHA-256 of
/// everything fed, 32 bytes long.
#[verifier::external_body]
fn sha256_stream_finish(s: Sha256Stream) -> (d: Vec<u8>)
    ensures
        d@ == sha256_of(sha256_fed(s)),
        d@.len() == 32,
{
    sha2::Digest::finalize(s.hasher).to_vec()
}

/// The checksum of a transfer's bytes, computed as they stream.
pub struct TransferChecksum {
    stream: Sha256Stream,
}

impl TransferChecksum {
    /// The bytes counted so far.
    pub closed spec fn fed(&self) -> Seq<u8> {
        sha256_fed(self.stream)
    }

    /// A checksum over no bytes yet.
    pub fn new() -> (c: Self)
        ensures
            c.fed() == Seq::<u8>::empty(),
    {
        TransferChecksum { stream: sha256_stream_new() }
    }

    /// Counts the next chunk copied.
    pub fn update(&mut self, chunk: &[u8])
        ensures
            final(self).fed() == old(self).fed() + chunk@,
    {
        sha256_stream_update(&mut self.stream, chunk)
    }

    /// The checksum recorded: lower-case hex SHA-256 of every byte counted,
    /// in order.
    pub fn finish(self) -> (c: String)
        ensures
            c@ == spec_hex_lower(sha256_of(self.fed())),
    {
        let d = sha256_stream_finish(self.stream);
        hex_encode(d.as_slice())
    }
}

/// The marker a relayed transfer completes with.
pub fn relay_checksum() -> (c: String)
    ensures
        c@ == "sha256:relay_complete"@,
{
    string_of(chars_of("sha256:relay_complete").as_slice())
}

/// How the local worker carries out a transfer.
#[derive(Debug)]
pub enum LocalTransfer {
    /// Copy the file at `source` under the source base to `destination`
    /// under the destination base (both relative: leading `/` dropped).
    Copy { source: String, destination: String },
    /// Not a local-to-local copy: completed at once as relayed.
    Relay,
}

fn relative_part(path: &String) -> (r: String)
    ensures
        r@ == trim_start_char(path@, '/'),
{
    let v = chars_of(path.as_str());
    let i = skip_leading(v.as_slice(), '/');
    string_of(slice_chars(v.as_slice(), i, v.len()).as_slice())
}

/// A job between two local endpoints is copied between their paths with
/// leading `/` dropped; any other job is relayed.
pub fn local_transfer_plan(job: &TransferJob) -> (p: LocalTransfer)
    ensures
        match (job.source, job.destination) {
            (TransferEndpoint::Local { path: s }, TransferEndpoint::Local { path: d }) => p matches LocalTransfer::Copy {
                source,
                destination,
            } && source@ == trim_start_char(s@, '/') && destination@ == trim_start_char(d@, '/'),
            _ => p is Relay,
        },
{
    match (&job.source, &job.destination) {
        (TransferEndpoint::Local { path: s }, TransferEndpoint::Local { path: d }) => LocalTransfer::Copy {
            source: relative_part(s),
            destination: relative_part(d),
        },
        _ => LocalTransfer::Relay,
    }
}

} // verus!

//! Rules of the transfer worker's SSH connections: which connection
//! failures are permanent, the one-bastion `ProxyJump` limit, the mapped
//! identity a local side runs under, and how SCP jobs are laid out.

use vstd::prelude::*;
use crate::text::{append_chars, chars_of, string_of};
use crate::transfers::{TransferEndpoint, TransferError, TransferJob};

verus! {

/// A connection is the target plus at most one bastion.
pub const MAX_PROXY_CHAIN_HOPS: usize = 2;

/// Why an SSH connection for a remote server could not be set up.
#[derive(Debug)]
pub enum SshResolveError {
    NotFound,
    SelfReference,
    ChainTooDeep,
    AgentSocketUnavailable,
    MalformedCredential,
    /// A failure of the remote-server store, with its message;
    /// `host_key_changed` when the server presented another key than the
    /// pinned one.
    Remote { host_key_changed: bool, message: String },
    /// A failure revealing the stored credential, with its message.
    Vault(String),
    /// The SSH connection failed, with the reason.
    Connect(String),
}

/// The credential stored for certificate authentication: a private key
/// and its OpenSSH user certificate.
#[derive(Clone, Debug)]
pub struct CertificateCredential {
    pub key_data: String,
    pub cert_data: String,
}

/// The message an SSH setup failure is reported with.
pub open spec fn spec_ssh_message(e: SshResolveError) -> Seq<char> {
    match e {
        SshResolveError::NotFound => "remote server not found"@,
        SshResolveError::SelfReference => "a remote server cannot use itself as a ProxyJump bastion"@,
        SshResolveError::ChainTooDeep => "ProxyJump chain exceeds the maximum supported depth (2 hops)"@,
        SshResolveError::AgentSocketUnavailable => "SSH agent socket is unavailable or not owned by this user"@,
        SshResolveError::MalformedCredential => "stored SSH credential is malformed"@,
        SshResolveError::Remote { message, .. } => message@,
        SshResolveError::Vault(m) => m@,
        SshResolveError::Connect(m) => "SSH connection failed: "@ + m@,
    }
}

fn literal(s: &str) -> (r: String)
    ensures
        r@ == s@,
{
    string_of(chars_of(s).as_slice())
}

impl SshResolveError {
    /// The failure's message.
    pub fn message(&self) -> (m: String)
        ensures
            m@ == spec_ssh_message(*self),
    {
        match self {
            SshResolveError::NotFound => literal("remote server not found"),
            SshResolveError::SelfReference => literal(
                "a remote server cannot use itself as a ProxyJump bastion",
            ),
            SshResolveError::ChainTooDeep => literal(
                "ProxyJump chain exceeds the maximum supported depth (2 hops)",
            ),
            SshResolveError::AgentSocketUnavailable => literal(
                "SSH agent socket is unavailable or not owned by this user",
            ),
            SshResolveError::MalformedCredential => literal("stored SSH credential is malformed"),
            SshResolveError::Remote { message, .. } => literal(message.as_str()),
            SshResolveError::Vault(m) => literal(m.as_str()),
            SshResolveError::Connect(m) => {
                let mut v = chars_of("SSH connection failed: ");
                append_chars(&mut v, chars_of(m.as_str()).as_slice());
                string_of(v.as_slice())
            },
        }
    }
}

/// Failures no retry can cure: a missing or foreign server, a structurally
/// invalid `ProxyJump` chain, an unusable agent socket or credential, and
/// a changed host key.
pub open spec fn is_permanent_ssh_error(e: SshResolveError) -> bool {
    match e {
        SshResolveError::NotFound | SshResolveError::SelfReference | SshResolveError::ChainTooDeep
        | SshResolveError::AgentSocketUnavailable | SshResolveError::MalformedCredential => true,
        SshResolveError::Remote { host_key_changed, .. } => host_key_changed,
        _ => false,
    }
}

/// Classifies a connection failure for the transfer queue: permanent ones
/// fail the job at once, the rest are retried within the budget.
pub fn classify_ssh_resolve_error(error: &SshResolveError) -> (t: TransferError)
    ensures
        is_permanent_ssh_error(*error) ==> (t matches TransferError::Permanent(m) && m@
            == spec_ssh_message(*error)),
        !is_permanent_ssh_error(*error) ==> (t matches TransferError::Io(m) && m@
            == spec_ssh_message(*error)),
{
    let permanent = match error {
        SshResolveError::NotFound | SshResolveError::SelfReference | SshResolveError::ChainTooDeep
        | SshResolveError::AgentSocketUnavailable | SshResolveError::MalformedCredential => true,
        SshResolveError::Remote { host_key_changed, .. } => *host_key_changed,
        _ => false,
    };
    if permanent {
        TransferError::Permanent(error.message())
    } else {
        TransferError::Io(error.message())
    }
}

/// How a connection to a target server is made.
#[derive(Clone, Debug)]
pub enum HopPlan {
    /// Straight to the target.
    Direct,
    /// Refused: the target names itself as its bastion.
    SelfReference,
    /// Through the named bastion, once it is resolved and checked.
    ThroughBastion(String),
}

/// The first decision of a connection, from the target's `ProxyJump`
/// setting.
pub fn first_hop(target_id: &str, proxy_jump: Option<&str>) -> (p: HopPlan)
    ensures
        match proxy_jump {
            None => p is Direct,
            Some(b) => if b@ == target_id@ {
                p is SelfReference
            } else {
                p matches HopPlan::ThroughBastion(id) && id@ == b@
            },
        },
{
    match proxy_jump {
        None => HopPlan::Direct,
        Some(b) => {
            if crate::text::chars_equal(chars_of(b).as_slice(), chars_of(target_id).as_slice()) {
                HopPlan::SelfReference
            } else {
                HopPlan::ThroughBastion(literal(b))
            }
        },
    }
}

/// A bastion must not itself jump through another server: chains stop at
/// [`MAX_PROXY_CHAIN_HOPS`], which also rules out every loop.
pub fn check_bastion(bastion_proxy_jump: Option<&str>) -> (r: Result<(), SshResolveError>)
    ensures
        bastion_proxy_jump is None <==> r is Ok,
        bastion_proxy_jump is Some ==> r matches Err(SshResolveError::ChainTooDeep),
{
    match bastion_proxy_jump {
        None => Ok(()),
        Some(_) => Err(SshResolveError::ChainTooDeep),
    }
}

/// The servers a connection goes through, as the two checks allow it.
pub open spec fn hop_count(target_id: Seq<char>, proxy_jump: Option<Seq<char>>, bastion_proxy_jump: Option<Seq<char>>) -> Option<nat> {
    match proxy_jump {
        None => Some(1),
        Some(b) => if b == target_id {
            None
        } else if bastion_proxy_jump is Some {
            None
        } else {
            Some(2)
        },
    }
}

/// Every connection the rules allow uses at most two servers, and never
/// the target as its own bastion.
pub proof fn lemma_chain_is_bounded(
    target_id: Seq<char>,
    proxy_jump: Option<Seq<char>>,
    bastion_proxy_jump: Option<Seq<char>>,
)
    ensures
        hop_count(target_id, proxy_jump, bastion_proxy_jump) matches Some(n) ==> n
            <= MAX_PROXY_CHAIN_HOPS,
        proxy_jump == Some(target_id) ==> hop_count(target_id, proxy_jump, bastion_proxy_jump)
            is None,
{
}

} // verus!

verus! {

pub open spec fn permanent_with(t: TransferError, m: Seq<char>) -> bool {
    t matches TransferError::Permanent(x) && x@ == m
}

/// The mapped Linux identity a user's local transfers run under, from its
/// stored `(uid, gid)` row: both must be set, fit in 32 bits, and not be
/// root's.
pub fn mapped_ids(row: Option<(Option<i64>, Option<i64>)>) -> (r: Result<(u32, u32), TransferError>)
    ensures
        match row {
            Some((Some(uid), Some(gid))) => if !(0 <= uid <= u32::MAX) {
                r matches Err(t) && permanent_with(t, "invalid mapped UID"@)
            } else if !(0 <= gid <= u32::MAX) {
                r matches Err(t) && permanent_with(t, "invalid mapped GID"@)
            } else if uid == 0 || gid == 0 {
                r matches Err(t) && permanent_with(t, "mapped Linux identity is not permitted"@)
            } else {
                r == Ok::<(u32, u32), TransferError>((uid as u32, gid as u32))
            },
            _ => r matches Err(t) && permanent_with(t, "this user has no mapped Linux identity"@),
        },
{
    let (uid, gid) = match row {
        Some((Some(uid), Some(gid))) => (uid, gid),
        _ => {
            return Err(TransferError::Permanent(literal("this user has no mapped Linux identity")));
        },
    };
    if uid < 0 || uid > 4294967295 {
        return Err(TransferError::Permanent(literal("invalid mapped UID")));
    }
    if gid < 0 || gid > 4294967295 {
        return Err(TransferError::Permanent(literal("invalid mapped GID")));
    }
    if uid == 0 || gid == 0 {
        return Err(TransferError::Permanent(literal("mapped Linux identity is not permitted")));
    }
    Ok((uid as u32, gid as u32))
}

/// The identity found for the mapped user id must still have the mapped
/// group.
pub fn check_identity(found_gid: Option<u32>, gid: u32) -> (r: Result<(), TransferError>)
    ensures
        match found_gid {
            None => r matches Err(t) && permanent_with(t, "mapped Linux UID no longer exists"@),
            Some(g) => if g == gid {
                r is Ok
            } else {
                r matches Err(t) && permanent_with(t, "mapped Linux identity is no longer valid"@)
            },
        },
{
    match found_gid {
        None => Err(TransferError::Permanent(literal("mapped Linux UID no longer exists"))),
        Some(g) => if g == gid {
            Ok(())
        } else {
            Err(TransferError::Permanent(literal("mapped Linux identity is no longer valid")))
        },
    }
}

/// How an SCP job runs: only between a local path and an SCP server.
#[derive(Clone, Debug)]
pub enum ScpPlan {
    Upload { local_path: String, server_id: String, remote_path: String },
    Download { server_id: String, remote_path: String, local_path: String },
    Unsupported,
}

/// Whether a job goes over SCP on either side.
pub fn is_scp_job(job: &TransferJob) -> (r: bool)
    ensures
        r == (job.source is Scp || job.destination is Scp),
{
    matches!(job.source, TransferEndpoint::Scp { .. }) || matches!(
        job.destination,
        TransferEndpoint::Scp { .. },
    )
}

/// Lays out an SCP job: local to SCP uploads, SCP to local downloads, any
/// other pairing is refused as unsupported.
pub fn scp_plan(job: &TransferJob) -> (p: ScpPlan)
    ensures
        match (job.source, job.destination) {
            (TransferEndpoint::Local { path: l }, TransferEndpoint::Scp { server_id: s, path: r }) => (
            p matches ScpPlan::Upload { local_path, server_id, remote_path } && local_path@ == l@
                && server_id@ == s@ && remote_path@ == r@),
            (TransferEndpoint::Scp { server_id: s, path: r }, TransferEndpoint::Local { path: l }) => (
            p matches ScpPlan::Download { server_id, remote_path, local_path } && local_path@ == l@
                && server_id@ == s@ && remote_path@ == r@),
            _ => p is Unsupported,
        },
{
    match (&job.source, &job.destination) {
        (TransferEndpoint::Local { path: l }, TransferEndpoint::Scp { server_id: s, path: r }) => {
            ScpPlan::Upload {
                local_path: literal(l.as_str()),
                server_id: literal(s.as_str()),
                remote_path: literal(r.as_str()),
            }
        },
        (TransferEndpoint::Scp { server_id: s, path: r }, TransferEndpoint::Local { path: l }) => {
            ScpPlan::Download {
                server_id: literal(s.as_str()),
                remote_path: literal(r.as_str()),
                local_path: literal(l.as_str()),
            }
        },
        _ => ScpPlan::Unsupported,
    }
}

/// The message an unsupported SCP pairing fails with, permanently.
pub fn unsupported_scp_error() -> (t: TransferError)
    ensures
        permanent_with(
            t,
            "SCP transfers are only supported between a local path and a remote SCP server in this release"@,
        ),
{
    TransferError::Permanent(
        literal(
            "SCP transfers are only supported between a local path and a remote SCP server in this release",
        ),
    )
}

/// The temporary remote name an SCP upload writes before its final
/// rename, so that an interrupted upload never touches the destination.
pub fn remote_upload_temp(remote_path: &str, nonce: &str) -> (t: String)
    ensures
        t@ == remote_path@ + ".clouddesk-upload-"@ + nonce@ + ".part"@,
{
    let mut v = chars_of(remote_path);
    append_chars(&mut v, chars_of(".clouddesk-upload-").as_slice());
    append_chars(&mut v, chars_of(nonce).as_slice());
    append_chars(&mut v, chars_of(".part").as_slice());
    proof {
        assert(v@ =~= remote_path@ + ".clouddesk-upload-"@ + nonce@ + ".part"@);
    }
    string_of(v.as_slice())
}

/// The path a transfer endpoint reads or writes (an S3 object's key).
pub fn endpoint_path(endpoint: &TransferEndpoint) -> (p: &String)
    ensures
        match *endpoint {
            TransferEndpoint::Local { path } => *p == path,
            TransferEndpoint::Sftp { path, .. } => *p == path,
            TransferEndpoint::Scp { path, .. } => *p == path,
            TransferEndpoint::WebDav { path, .. } => *p == path,
            TransferEndpoint::S3 { key, .. } => *p == key,
        },
{
    match endpoint {
        TransferEndpoint::Local { path } => path,
        TransferEndpoint::Sftp { path, .. } => path,
        TransferEndpoint::Scp { path, .. } => path,
        TransferEndpoint::WebDav { path, .. } => path,
        TransferEndpoint::S3 { key, .. } => key,
    }
}

/// An audit event's result, read from its action name.
pub fn audit_result(action: &str) -> (r: &'static str)
    ensures
        r@ == (if action@.len() >= 6 && action@.skip(action@.len() - 6) == "failed"@ {
            "failure"@
        } else {
            "success"@
        }),
{
    let a = chars_of(action);
    if a.len() >= 6 {
        let n = a.len();
        let tail = crate::text::slice_chars(a.as_slice(), n - 6, n);
        proof {
            assert(tail@ =~= action@.skip(action@.len() - 6));
        }
        if crate::text::is_text(tail.as_slice(), "failed") {
            return "failure";
        }
    }
    "success"
}

} // verus!

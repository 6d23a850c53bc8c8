//! The code editor runtime: the identity marker that carries a user's
//! mapped identity and selected workspace to the container definition,
//! the mounts, user, environment and command derived from it, and the
//! choice of workspace on start.

use vstd::prelude::*;
use crate::text::{append_chars, chars_of, string_of};

verus! {

/// File name of the identity marker in an instance's state directory.
pub const CODE_IDENTITY_MARKER: &'static str = ".code_identity.json";

/// Where the selected workspace is always mounted in the container.
pub const WORKSPACE_CONTAINER_PATH: &'static str = "/workspace";

/// The trusted identity and workspace an instance starts with.
#[derive(Clone, Debug)]
pub struct CodeIdentityMarker {
    pub uid: u32,
    pub gid: u32,
    pub home: String,
    /// The selected assigned root, `None` for the home workspace.
    pub workspace_id: Option<String>,
    /// The canonical host path mounted at `/workspace`.
    pub workspace_path: String,
    pub workspace_read_write: bool,
    /// A workspace-relative file to open on this start.
    pub open_relative_file: Option<String>,
}

fn copy_string(s: &String) -> (r: String)
    ensures
        r@ == s@,
{
    string_of(chars_of(s.as_str()).as_slice())
}

/// The container-side mount target of the workspace: read-only unless the
/// workspace was granted read-write.
pub fn mount_target(read_write: bool) -> (t: String)
    ensures
        t@ == (if read_write {
            "/workspace"@
        } else {
            "/workspace:ro"@
        }),
{
    if read_write {
        string_of(chars_of("/workspace").as_slice())
    } else {
        string_of(chars_of("/workspace:ro").as_slice())
    }
}

/// The mounts of an instance: the user's home at the same path, always
/// read-write, and the selected workspace at `/workspace` with its granted
/// access; none without a marker.
pub fn extra_mounts(marker: Option<&CodeIdentityMarker>) -> (mounts: Vec<(String, String)>)
    ensures
        match marker {
            None => mounts@.len() == 0,
            Some(m) => mounts@.len() == 2 && mounts@[0].0@ == m.home@ && mounts@[0].1@ == m.home@
                && mounts@[1].0@ == m.workspace_path@ && mounts@[1].1@ == (if m.workspace_read_write {
                "/workspace"@
            } else {
                "/workspace:ro"@
            }),
        },
{
    match marker {
        None => Vec::new(),
        Some(m) => {
            let mut v: Vec<(String, String)> = Vec::new();
            v.push((copy_string(&m.home), copy_string(&m.home)));
            v.push((copy_string(&m.workspace_path), mount_target(m.workspace_read_write)));
            v
        },
    }
}

/// The user and group the instance runs as: the marker's mapped identity.
pub fn run_as(marker: Option<&CodeIdentityMarker>) -> (r: Option<(u32, u32)>)
    ensures
        r == match marker {
            Some(m) => Some((m.uid, m.gid)),
            None => None,
        },
{
    match marker {
        Some(m) => Some((m.uid, m.gid)),
        None => None,
    }
}

/// The instance's environment: `HOME` set to the marker's home.
pub fn extra_env(marker: Option<&CodeIdentityMarker>) -> (env: Vec<(String, String)>)
    ensures
        match marker {
            None => env@.len() == 0,
            Some(m) => env@.len() == 1 && env@[0].0@ == "HOME"@ && env@[0].1@ == m.home@,
        },
{
    match marker {
        None => Vec::new(),
        Some(m) => {
            let mut v: Vec<(String, String)> = Vec::new();
            v.push((string_of(chars_of("HOME").as_slice()), copy_string(&m.home)));
            v
        },
    }
}

fn text(s: &str) -> (r: String)
    ensures
        r@ == s@,
{
    string_of(chars_of(s).as_slice())
}

/// The editor's proxy base path for an instance.
pub open spec fn spec_proxy_base(instance_id: Seq<char>) -> Seq<char> {
    "/api/v1/runtime-instances/code/"@ + instance_id + "/proxy"@
}

/// The editor's command line: bound on port 8080 without its own login,
/// telemetry, update checks or port proxy, served under the instance's
/// proxy base path, opening `/workspace`, plus the one file to open when
/// the marker names one.
pub fn code_command(instance_id: &str, marker: Option<&CodeIdentityMarker>) -> (args: Vec<String>)
    ensures
        args@.len() == (if marker matches Some(m) && m.open_relative_file is Some {
            11int
        } else {
            10int
        }),
        args@[0]@ == "--bind-addr"@,
        args@[1]@ == "0.0.0.0:8080"@,
        args@[2]@ == "--auth"@,
        args@[3]@ == "none"@,
        args@[4]@ == "--disable-telemetry"@,
        args@[5]@ == "--disable-update-check"@,
        args@[6]@ == "--disable-proxy"@,
        args@[7]@ == "--abs-proxy-base-path"@,
        args@[8]@ == spec_proxy_base(instance_id@),
        args@[9]@ == "/workspace"@,
        match marker {
            Some(m) => match m.open_relative_file {
                Some(f) => args@[10]@ == "/workspace/"@ + f@,
                None => true,
            },
            None => true,
        },
{
    let mut args: Vec<String> = Vec::new();
    args.push(text("--bind-addr"));
    args.push(text("0.0.0.0:8080"));
    args.push(text("--auth"));
    args.push(text("none"));
    args.push(text("--disable-telemetry"));
    args.push(text("--disable-update-check"));
    args.push(text("--disable-proxy"));
    args.push(text("--abs-proxy-base-path"));
    let mut base = chars_of("/api/v1/runtime-instances/code/");
    append_chars(&mut base, chars_of(instance_id).as_slice());
    append_chars(&mut base, chars_of("/proxy").as_slice());
    proof {
        assert(base@ =~= spec_proxy_base(instance_id@));
    }
    args.push(string_of(base.as_slice()));
    args.push(text("/workspace"));
    match marker {
        Some(m) => match &m.open_relative_file {
            Some(f) => {
                let mut path = chars_of("/workspace/");
                append_chars(&mut path, chars_of(f.as_str()).as_slice());
                args.push(string_of(path.as_slice()));
            },
            None => {},
        },
        None => {},
    }
    args
}

/// A workspace chosen and authorized for a start.
#[derive(Clone, Debug)]
pub struct ResolvedWorkspace {
    pub workspace_id: Option<String>,
    pub path: String,
    pub read_write: bool,
}

/// An assigned root as its owner's authorization resolved it.
#[derive(Clone, Debug)]
pub struct AssignedRoot {
    pub id: String,
    pub path: String,
    pub read_write: bool,
}

pub open spec fn workspace_of_root(w: ResolvedWorkspace, r: AssignedRoot) -> bool {
    &&& w.workspace_id matches Some(id) && id@ == r.id@
    &&& w.path@ == r.path@
    &&& w.read_write == r.read_write
}

/// Chooses the workspace a start mounts: an explicitly requested root
/// (whose refusal is the start's refusal), else the last-used root when it
/// still resolves, else the home directory read-write.
pub fn resolve_workspace<E>(
    home: &str,
    requested: Option<Result<AssignedRoot, E>>,
    last_used: Option<AssignedRoot>,
) -> (r: Result<ResolvedWorkspace, E>)
    ensures
        match requested {
            Some(Ok(root)) => r matches Ok(w) && workspace_of_root(w, root),
            Some(Err(e)) => r == Err::<ResolvedWorkspace, E>(e),
            None => match last_used {
                Some(root) => r matches Ok(w) && workspace_of_root(w, root),
                None => r matches Ok(w) && w.workspace_id is None && w.path@ == home@
                    && w.read_write,
            },
        },
{
    match requested {
        Some(Ok(root)) => Ok(
            ResolvedWorkspace {
                workspace_id: Some(copy_string(&root.id)),
                path: copy_string(&root.path),
                read_write: root.read_write,
            },
        ),
        Some(Err(e)) => Err(e),
        None => match last_used {
            Some(root) => Ok(
                ResolvedWorkspace {
                    workspace_id: Some(copy_string(&root.id)),
                    path: copy_string(&root.path),
                    read_write: root.read_write,
                },
            ),
            None => Ok(ResolvedWorkspace { workspace_id: None, path: text(home), read_write: true }),
        },
    }
}

} // verus!

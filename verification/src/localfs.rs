//! The typed local-file protocol: every refusal the protocol owes is
//! decided here before any filesystem call, each operation becomes one
//! exact request, and a [`LocalRun`] says which filesystem call comes
//! next and what the answers to the calls make of the result. The caller
//! only performs the calls.

use vstd::prelude::*;
use crate::acl::{
    check_set_acl_request, classify_setfacl_failure, parse_getfacl_output, setfacl_modify_arg,
    spec_modify_arg, spec_parse_getfacl_output, AclEntry, AclEntryView,
};
use crate::archive::{
    create_archive_plan, extract_archive_plan, spec_create_plan, spec_extract_plan, texts,
    ArchiveFormat, ArchiveOutcome, ExtractTarget,
};
use crate::lexical::{last_index_of, last_index_of_exec};
use crate::ospath::spec_file_name;
use crate::text::{append_chars, chars_of, contains_text, lowercase_of, slice_chars, string_of};
use crate::vfs::{
    canonical_virtual, chmod_mode, listing_sorted, local_capabilities, normalize_virtual_path,
    normalized, preview_limit, search_limit, sort_listing, spec_canonical_virtual, spec_join_virtual,
    spec_local_capabilities, spec_requires_write, trash_destination, trash_plan, EntryKind,
    LocalFileOperation, LocalFileResult, VfsEntry, VfsError, MAX_PREVIEW_BYTES,
};

verus! {

/// What the filesystem reports of one entry.
#[derive(Clone, Debug)]
pub struct EntryStat {
    pub kind: EntryKind,
    pub size: u64,
    pub modified_at: Option<i64>,
    pub mode: u32,
    pub uid: u32,
    pub gid: u32,
}

/// How a `setfacl` run ended.
#[derive(Clone, Debug)]
pub enum SetfaclRun {
    Succeeded,
    /// The tool is not installed.
    ToolMissing,
    /// It failed, with this error output.
    Failed(String),
}

/// One filesystem call the protocol asks for, on paths already
/// normalized relative to the root. Each does only the I/O its name says;
/// every decision around the calls is [`LocalRun`]'s.
#[derive(Debug)]
pub enum IoCall {
    /// The children of a directory, each with what is known of it, its
    /// final symlink not followed; a child that cannot be read fails the
    /// whole listing.
    ListChildren { relative: String },
    /// The children of a directory for the search walk: a child whose
    /// name or metadata cannot be read is left out.
    ScanDirectory { relative: String },
    /// What is known of an entry, its final symlink not followed.
    Stat { relative: String },
    CreateDir { relative: String },
    CreateDirAll { relative: String },
    Rename { from: String, to: String },
    Copy { from: String, to: String },
    /// Whether the entry is a symlink, and its length.
    LinkFacts { relative: String },
    Read { relative: String },
    Write { relative: String, content: Vec<u8> },
    SetMode { relative: String, mode: u32 },
    /// Writes an archive of `sources` at `destination`.
    WriteArchive { destination: String, sources: Vec<String>, format: ArchiveFormat },
    /// Extracts `archive` into `destination`.
    ExtractArchive { archive: String, destination: String, format: ArchiveFormat },
    /// Opens the entry, as the ACL tools will be pointed at it.
    OpenTarget { relative: String },
    /// Runs `getfacl` on the entry.
    Getfacl { relative: String },
    /// Runs `setfacl -m modify_arg` on the entry.
    Setfacl { relative: String, modify_arg: String },
}

/// What the filesystem answered to one [`IoCall`].
#[derive(Debug)]
pub enum IoAnswer {
    /// To a call that returns nothing: directory creation, rename, write,
    /// mode change, opening the ACL target.
    Done(Result<(), VfsError>),
    /// To a listing or a directory scan.
    Children(Result<Vec<(String, EntryStat)>, VfsError>),
    Stat(Result<EntryStat, VfsError>),
    /// The number of bytes copied.
    Copied(Result<u64, VfsError>),
    /// Whether the entry is a symlink, and its length.
    Facts(Result<(bool, u64), VfsError>),
    Data(Result<Vec<u8>, VfsError>),
    Archive(Result<ArchiveOutcome, VfsError>),
    /// The output of `getfacl`, or none when the tool is missing or fails
    /// (no ACL support).
    AclText(Result<Option<String>, VfsError>),
    Setfacl(Result<SetfaclRun, VfsError>),
}

/// One operation as the filesystem is asked to carry it out: paths
/// normalized, limits applied, names planned.
#[derive(Debug)]
pub enum LocalRequest {
    List { relative: String, display: String },
    Stat { relative: String, display: String },
    CreateDirectory { relative: String },
    Rename { from: String, to: String },
    CopyFile { from: String, to: String },
    Trash { source: String, destination: String, virtual_path: String },
    ReadPreview { relative: String, limit: usize },
    WriteFile { relative: String, parent: Option<String>, content: Vec<u8> },
    Chmod { relative: String, mode: u32 },
    Search { relative: String, display: String, query: String, limit: usize },
    CreateArchive {
        destination: String,
        parent: Option<String>,
        sources: Vec<String>,
        format: ArchiveFormat,
        reported: String,
    },
    ExtractArchive { archive: String, destination: String, format: ArchiveFormat },
    ReadAcl { relative: String },
    SetAcl { relative: String, entries: Vec<AclEntry> },
}

pub open spec fn opt_text(o: Option<String>) -> Option<Seq<char>> {
    match o {
        Some(s) => Some(s@),
        None => None,
    }
}

/// The directory a normalized relative path lies in, when it is not the
/// root itself.
pub open spec fn parent_dir(rel: Seq<char>) -> Option<Seq<char>> {
    match last_index_of(rel, '/') {
        Some(k) => Some(rel.take(k)),
        None => None,
    }
}

pub open spec fn norm_is(path: Seq<char>, allow_root: bool, rel: Seq<char>) -> bool {
    match normalized(path, allow_root) {
        Ok(t) => t == rel,
        Err(_) => false,
    }
}

pub open spec fn err_of(n: Result<Seq<char>, VfsError>) -> Option<VfsError> {
    match n {
        Ok(_) => None,
        Err(e) => Some(e),
    }
}

pub open spec fn acl_views(v: Seq<AclEntry>) -> Seq<AclEntryView> {
    v.map_values(|e: AclEntry| e@)
}

/// The refusal an operation meets before any filesystem call, other than
/// an empty ACL change: `ReadOnly` for any change on a read-only root, then
/// the error of the first path that does not normalize (the root allowed
/// only where the operation reads a directory), a trashed path without a
/// final name, and the archive plans' own refusals.
pub open spec fn request_refusal(writable: bool, op: LocalFileOperation) -> Option<VfsError> {
    if spec_requires_write(op) && !writable {
        Some(VfsError::ReadOnly)
    } else {
        match op {
            LocalFileOperation::List { path } => err_of(normalized(path@, true)),
            LocalFileOperation::Stat { path } => err_of(normalized(path@, false)),
            LocalFileOperation::CreateDirectory { path } => err_of(normalized(path@, false)),
            LocalFileOperation::Rename { from, to } => match err_of(normalized(from@, false)) {
                Some(e) => Some(e),
                None => err_of(normalized(to@, false)),
            },
            LocalFileOperation::CopyFile { from, to } => match err_of(normalized(from@, false)) {
                Some(e) => Some(e),
                None => err_of(normalized(to@, false)),
            },
            LocalFileOperation::Trash { path } => match normalized(path@, false) {
                Err(e) => Some(e),
                Ok(src) => if spec_file_name(src) is None {
                    Some(VfsError::InvalidPath)
                } else {
                    None
                },
            },
            LocalFileOperation::ReadPreview { path, .. } => err_of(normalized(path@, false)),
            LocalFileOperation::WriteFile { path, .. } => err_of(normalized(path@, false)),
            LocalFileOperation::Chmod { path, .. } => err_of(normalized(path@, false)),
            LocalFileOperation::Search { path, .. } => err_of(normalized(path@, true)),
            LocalFileOperation::CreateArchive { sources, destination, .. } => match spec_create_plan(
                writable,
                texts(sources@),
                destination@,
            ) {
                Err(e) => Some(e),
                Ok(_) => None,
            },
            LocalFileOperation::ExtractArchive { archive, destination, .. } => match spec_extract_plan(
                writable,
                archive@,
                destination@,
            ) {
                Err(e) => Some(e),
                Ok(_) => None,
            },
            LocalFileOperation::ReadAcl { path } => err_of(normalized(path@, false)),
            LocalFileOperation::SetAcl { path, entries } => if entries@.len() == 0 {
                None
            } else {
                err_of(normalized(path@, false))
            },
        }
    }
}

/// An ACL change on a writable root that names no entry (refused with
/// "no ACL entries supplied").
pub open spec fn acl_empty(writable: bool, op: LocalFileOperation) -> bool {
    writable && match op {
        LocalFileOperation::SetAcl { entries, .. } => entries@.len() == 0,
        _ => false,
    }
}

/// `q` is exactly the request `op` becomes: each path normalized, a
/// listing shown under the asked path, a stat and a search under its
/// canonical form, the trash move planned at `now`, a preview capped at
/// [`MAX_PREVIEW_BYTES`], the written file's parent directory, the mode's
/// low twelve bits, the search limit kept within 1 to 200, and the archive
/// plans' paths.
pub open spec fn is_request_for(op: LocalFileOperation, now: i64, q: LocalRequest) -> bool {
    match op {
        LocalFileOperation::List { path } => q matches LocalRequest::List { relative, display }
            && norm_is(path@, true, relative@) && display@ == path@,
        LocalFileOperation::Stat { path } => q matches LocalRequest::Stat { relative, display }
            && norm_is(path@, false, relative@) && display@ == spec_canonical_virtual(path@),
        LocalFileOperation::CreateDirectory { path } => q matches LocalRequest::CreateDirectory {
            relative,
        } && norm_is(path@, false, relative@),
        LocalFileOperation::Rename { from, to } => q matches LocalRequest::Rename { from: f, to: t }
            && norm_is(from@, false, f@) && norm_is(to@, false, t@),
        LocalFileOperation::CopyFile { from, to } => q matches LocalRequest::CopyFile { from: f, to: t }
            && norm_is(from@, false, f@) && norm_is(to@, false, t@),
        LocalFileOperation::Trash { path } => q matches LocalRequest::Trash {
            source,
            destination,
            virtual_path,
        } && norm_is(path@, false, source@) && (spec_file_name(source@) matches Some(n)
            && destination@ == trash_destination(n, now as int)) && virtual_path@ == seq!['/']
            + destination@,
        LocalFileOperation::ReadPreview { path, maximum_bytes } => q matches LocalRequest::ReadPreview {
            relative,
            limit,
        } && norm_is(path@, false, relative@) && limit == (if maximum_bytes < MAX_PREVIEW_BYTES {
            maximum_bytes
        } else {
            MAX_PREVIEW_BYTES
        }),
        LocalFileOperation::WriteFile { path, content } => q matches LocalRequest::WriteFile {
            relative,
            parent,
            content: c,
        } && norm_is(path@, false, relative@) && opt_text(parent) == parent_dir(relative@) && c
            == content,
        LocalFileOperation::Chmod { path, mode } => q matches LocalRequest::Chmod { relative, mode: m }
            && norm_is(path@, false, relative@) && m == mode & 0o7777,
        LocalFileOperation::Search { path, query, maximum_results } => q matches LocalRequest::Search {
            relative,
            display,
            query: qq,
            limit,
        } && norm_is(path@, true, relative@) && display@ == spec_canonical_virtual(path@) && qq@
            == query@ && limit == (if maximum_results < 1 {
            1
        } else if maximum_results > 200 {
            200
        } else {
            maximum_results
        }),
        LocalFileOperation::CreateArchive { sources, destination, format } => q matches LocalRequest::CreateArchive {
            destination: d,
            parent,
            sources: s,
            format: f,
            reported,
        } && (spec_create_plan(true, texts(sources@), destination@) matches Ok((sd, ss)) && d@
            == sd && texts(s@) == ss && opt_text(parent) == parent_dir(sd)) && f == format
            && reported@ == spec_canonical_virtual(destination@),
        LocalFileOperation::ExtractArchive { archive, destination, format } => q matches LocalRequest::ExtractArchive {
            archive: a,
            destination: d,
            format: f,
        } && (spec_extract_plan(true, archive@, destination@) matches Ok((sa, sd)) && a@ == sa
            && d@ == sd) && f == format,
        LocalFileOperation::ReadAcl { path } => q matches LocalRequest::ReadAcl { relative }
            && norm_is(path@, false, relative@),
        LocalFileOperation::SetAcl { path, entries } => q matches LocalRequest::SetAcl {
            relative,
            entries: e,
        } && norm_is(path@, false, relative@) && e == entries,
    }
}

fn parent_of(rel: &String) -> (p: Option<String>)
    ensures
        opt_text(p) == parent_dir(rel@),
{
    let v = chars_of(rel.as_str());
    match last_index_of_exec(v.as_slice(), '/') {
        Some(k) => {
            let t = slice_chars(v.as_slice(), 0, k);
            proof {
                assert(t@ =~= rel@.take(k as int));
            }
            Some(string_of(t.as_slice()))
        },
        None => None,
    }
}

fn text(s: &String) -> (r: String)
    ensures
        r@ == s@,
{
    string_of(chars_of(s.as_str()).as_slice())
}

/// Decides what the filesystem is asked for an operation, or refuses it
/// before any filesystem call.
pub fn provider_request(writable: bool, op: LocalFileOperation, now: i64) -> (r: Result<
    LocalRequest,
    VfsError,
>)
    ensures
        match request_refusal(writable, op) {
            Some(e) => r == Err::<LocalRequest, VfsError>(e),
            None => if acl_empty(writable, op) {
                r matches Err(VfsError::InvalidAclEntry(m)) && m@ == "no ACL entries supplied"@
            } else {
                r matches Ok(q) && is_request_for(op, now, q)
            },
        },
{
    if op.requires_write() && !writable {
        return Err(VfsError::ReadOnly);
    }
    match op {
        LocalFileOperation::List { path } => {
            let relative = match normalize_virtual_path(path.as_str(), true) {
                Ok(r) => r,
                Err(e) => return Err(e),
            };
            Ok(LocalRequest::List { relative, display: path })
        },
        LocalFileOperation::Stat { path } => {
            let relative = match normalize_virtual_path(path.as_str(), false) {
                Ok(r) => r,
                Err(e) => return Err(e),
            };
            Ok(LocalRequest::Stat { relative, display: canonical_virtual(path.as_str()) })
        },
        LocalFileOperation::CreateDirectory { path } => {
            let relative = match normalize_virtual_path(path.as_str(), false) {
                Ok(r) => r,
                Err(e) => return Err(e),
            };
            Ok(LocalRequest::CreateDirectory { relative })
        },
        LocalFileOperation::Rename { from, to } => {
            let f = match normalize_virtual_path(from.as_str(), false) {
                Ok(r) => r,
                Err(e) => return Err(e),
            };
            let t = match normalize_virtual_path(to.as_str(), false) {
                Ok(r) => r,
                Err(e) => return Err(e),
            };
            Ok(LocalRequest::Rename { from: f, to: t })
        },
        LocalFileOperation::CopyFile { from, to } => {
            let f = match normalize_virtual_path(from.as_str(), false) {
                Ok(r) => r,
                Err(e) => return Err(e),
            };
            let t = match normalize_virtual_path(to.as_str(), false) {
                Ok(r) => r,
                Err(e) => return Err(e),
            };
            Ok(LocalRequest::CopyFile { from: f, to: t })
        },
        LocalFileOperation::Trash { path } => match trash_plan(writable, path.as_str(), now) {
            Ok(plan) => Ok(
                LocalRequest::Trash {
                    source: plan.source,
                    destination: plan.destination,
                    virtual_path: plan.virtual_path,
                },
            ),
            Err(e) => Err(e),
        },
        LocalFileOperation::ReadPreview { path, maximum_bytes } => {
            let relative = match normalize_virtual_path(path.as_str(), false) {
                Ok(r) => r,
                Err(e) => return Err(e),
            };
            Ok(LocalRequest::ReadPreview { relative, limit: preview_limit(maximum_bytes) })
        },
        LocalFileOperation::WriteFile { path, content } => {
            let relative = match normalize_virtual_path(path.as_str(), false) {
                Ok(r) => r,
                Err(e) => return Err(e),
            };
            let parent = parent_of(&relative);
            Ok(LocalRequest::WriteFile { relative, parent, content })
        },
        LocalFileOperation::Chmod { path, mode } => {
            let relative = match normalize_virtual_path(path.as_str(), false) {
                Ok(r) => r,
                Err(e) => return Err(e),
            };
            Ok(LocalRequest::Chmod { relative, mode: chmod_mode(mode) })
        },
        LocalFileOperation::Search { path, query, maximum_results } => {
            let relative = match normalize_virtual_path(path.as_str(), true) {
                Ok(r) => r,
                Err(e) => return Err(e),
            };
            Ok(
                LocalRequest::Search {
                    relative,
                    display: canonical_virtual(path.as_str()),
                    query,
                    limit: search_limit(maximum_results),
                },
            )
        },
        LocalFileOperation::CreateArchive { sources, destination, format } => {
            let (d, s) = match create_archive_plan(writable, sources.as_slice(), destination.as_str()) {
                Ok(p) => p,
                Err(e) => return Err(e),
            };
            let parent = parent_of(&d);
            Ok(
                LocalRequest::CreateArchive {
                    destination: d,
                    parent,
                    sources: s,
                    format,
                    reported: canonical_virtual(destination.as_str()),
                },
            )
        },
        LocalFileOperation::ExtractArchive { archive, destination, format } => {
            let (a, d) = match extract_archive_plan(writable, archive.as_str(), destination.as_str()) {
                Ok(p) => p,
                Err(e) => return Err(e),
            };
            Ok(LocalRequest::ExtractArchive { archive: a, destination: d, format })
        },
        LocalFileOperation::ReadAcl { path } => {
            let relative = match normalize_virtual_path(path.as_str(), false) {
                Ok(r) => r,
                Err(e) => return Err(e),
            };
            Ok(LocalRequest::ReadAcl { relative })
        },
        LocalFileOperation::SetAcl { path, entries } => {
            let relative = match check_set_acl_request(writable, path.as_str(), entries.as_slice()) {
                Ok(r) => r,
                Err(e) => return Err(e),
            };
            Ok(LocalRequest::SetAcl { relative, entries })
        },
    }
}

/// What the filesystem answered, step by step, for one request.
#[derive(Debug)]
pub enum LocalOutcome {
    Listed(Result<Vec<(String, EntryStat)>, VfsError>),
    Stated(Result<EntryStat, VfsError>),
    Unit(Result<(), VfsError>),
    Copied(Result<u64, VfsError>),
    Trashed { trash_dir: Result<(), VfsError>, moved: Option<Result<(), VfsError>> },
    Previewed { facts: Result<(bool, u64), VfsError>, read: Option<Result<Vec<u8>, VfsError>> },
    Wrote { made: Option<Result<(), VfsError>>, written: Option<Result<(), VfsError>> },
    Archived { made: Option<Result<(), VfsError>>, done: Option<Result<ArchiveOutcome, VfsError>> },
    AclRead(Result<Option<String>, VfsError>),
    AclSet { opened: Result<(), VfsError>, run: Option<Result<SetfaclRun, VfsError>> },
}

/// A preview is read only from a plain file no longer than the limit.
pub open spec fn preview_allowed(facts: Result<(bool, u64), VfsError>, limit: usize) -> bool {
    match facts {
        Ok((symlink, len)) => !symlink && len <= limit,
        Err(_) => false,
    }
}

/// `o` is a trace the filesystem can give for `q`: the calls each request
/// makes, each later one only when the earlier ones allow it (a parent is
/// made only when there is one, a file is read only when
/// [`preview_allowed`], `setfacl` runs only once the target opened and the
/// entries make an argument). A search is no single trace: it is walked
/// by [`LocalRun`].
pub open spec fn fits(q: LocalRequest, o: LocalOutcome) -> bool {
    match q {
        LocalRequest::List { .. } => o is Listed,
        LocalRequest::Stat { .. } => o is Stated,
        LocalRequest::CreateDirectory { .. } => o is Unit,
        LocalRequest::Rename { .. } => o is Unit,
        LocalRequest::Chmod { .. } => o is Unit,
        LocalRequest::CopyFile { .. } => o is Copied,
        LocalRequest::Trash { .. } => o matches LocalOutcome::Trashed { trash_dir, moved } && (moved is Some
            <==> trash_dir is Ok),
        LocalRequest::ReadPreview { limit, .. } => o matches LocalOutcome::Previewed { facts, read }
            && (read is Some <==> preview_allowed(facts, limit)),
        LocalRequest::WriteFile { parent, .. } => o matches LocalOutcome::Wrote { made, written } && (
        made is Some <==> parent is Some) && (written is Some <==> !(made matches Some(Err(_)))),
        LocalRequest::Search { .. } => false,
        LocalRequest::CreateArchive { parent, .. } => o matches LocalOutcome::Archived { made, done }
            && (made is Some <==> parent is Some) && (done is Some <==> !(made matches Some(Err(_)))),
        LocalRequest::ExtractArchive { .. } => o matches LocalOutcome::Archived { made, done } && made
            is None && done is Some,
        LocalRequest::ReadAcl { .. } => o is AclRead,
        LocalRequest::SetAcl { entries, .. } => o matches LocalOutcome::AclSet { opened, run } && (run is Some
            <==> (opened is Ok && spec_modify_arg(acl_views(entries@)) is Ok)),
    }
}

/// `e` is the listed child `c` shown under `display`.
pub open spec fn from_child(display: Seq<char>, c: (String, EntryStat), e: VfsEntry) -> bool {
    &&& e.name@ == c.0@
    &&& e.path@ == spec_join_virtual(display, e.name@)
    &&& e.kind == c.1.kind
    &&& e.size == c.1.size
    &&& e.modified_at == c.1.modified_at
    &&& e.mode == c.1.mode
    &&& e.uid == c.1.uid
    &&& e.gid == c.1.gid
}

/// `entries` are the children, each shown under `display`, in some
/// order: one entry for every child, none added and none lost.
pub open spec fn listing_of(display: Seq<char>, children: Seq<(String, EntryStat)>, entries: Seq<VfsEntry>) -> bool {
    exists|b: Seq<VfsEntry>|
        b.len() == children.len() && (forall|i: int|
            0 <= i < b.len() ==> from_child(display, children[i], #[trigger] b[i])) && entries.to_multiset()
            == #[trigger] b.to_multiset()
}

pub open spec fn fail_as(r: Result<LocalFileResult, VfsError>, e: VfsError) -> bool {
    r == Err::<LocalFileResult, VfsError>(e)
}

pub open spec fn ok_as(r: Result<LocalFileResult, VfsError>, v: LocalFileResult) -> bool {
    r == Ok::<LocalFileResult, VfsError>(v)
}

/// The protocol's answer to request `q` given the filesystem's trace `o`:
/// the first failing step's error; otherwise the listing sorted with
/// every child shown under the asked path and the root's capabilities,
/// the entry under its canonical path and final name, the trash path, a
/// refused symlink or over-long preview, the written length, the archive
/// at its canonical destination, the parsed ACL (none and unsupported
/// without `getfacl`), entries that make no `setfacl` argument refused,
/// and a failed `setfacl` classified.
pub open spec fn answered(writable: bool, q: LocalRequest, o: LocalOutcome, r: Result<LocalFileResult, VfsError>) -> bool {
    match o {
        LocalOutcome::Listed(res) => match res {
            Err(e) => fail_as(r, e),
            Ok(children) => match q {
                LocalRequest::List { display, .. } => r matches Ok(
                    LocalFileResult::Entries { entries, capabilities },
                ) && capabilities@ == spec_local_capabilities(writable) && listing_sorted(entries@)
                    && listing_of(display@, children@, entries@),
                _ => false,
            },
        },
        LocalOutcome::Stated(res) => match res {
            Err(e) => fail_as(r, e),
            Ok(st) => match q {
                LocalRequest::Stat { relative, display } => r matches Ok(LocalFileResult::Entry { entry })
                    && entry.name@ == (match spec_file_name(relative@) {
                    Some(n) => n,
                    None => seq!['/'],
                }) && entry.path@ == display@ && entry.kind == st.kind && entry.size == st.size
                    && entry.modified_at == st.modified_at && entry.mode == st.mode && entry.uid
                    == st.uid && entry.gid == st.gid,
                _ => false,
            },
        },
        LocalOutcome::Unit(res) => match res {
            Err(e) => fail_as(r, e),
            Ok(_) => ok_as(r, LocalFileResult::Complete),
        },
        LocalOutcome::Copied(res) => match res {
            Err(e) => fail_as(r, e),
            Ok(bytes) => ok_as(r, LocalFileResult::Copied { bytes }),
        },
        LocalOutcome::Trashed { trash_dir, moved } => match trash_dir {
            Err(e) => fail_as(r, e),
            Ok(_) => match moved {
                Some(Err(e)) => fail_as(r, e),
                Some(Ok(_)) => match q {
                    LocalRequest::Trash { virtual_path, .. } => r matches Ok(
                        LocalFileResult::Trashed { path },
                    ) && path@ == virtual_path@,
                    _ => false,
                },
                None => false,
            },
        },
        LocalOutcome::Previewed { facts, read } => match facts {
            Err(e) => fail_as(r, e),
            Ok((symlink, len)) => match q {
                LocalRequest::ReadPreview { limit, .. } => if symlink {
                    fail_as(r, VfsError::SymlinkReadDenied)
                } else if len > limit {
                    fail_as(r, VfsError::TooLarge)
                } else {
                    match read {
                        Some(Err(e)) => fail_as(r, e),
                        Some(Ok(bytes)) => ok_as(r, LocalFileResult::Preview { bytes }),
                        None => false,
                    }
                },
                _ => false,
            },
        },
        LocalOutcome::Wrote { made, written } => match made {
            Some(Err(e)) => fail_as(r, e),
            _ => match written {
                Some(Err(e)) => fail_as(r, e),
                Some(Ok(_)) => match q {
                    LocalRequest::WriteFile { content, .. } => ok_as(
                        r,
                        LocalFileResult::Written { bytes: content@.len() as u64 },
                    ),
                    _ => false,
                },
                None => false,
            },
        },
        LocalOutcome::Archived { made, done } => match made {
            Some(Err(e)) => fail_as(r, e),
            _ => match done {
                Some(Err(e)) => fail_as(r, e),
                Some(Ok(a)) => match q {
                    LocalRequest::CreateArchive { reported, .. } => r matches Ok(
                        LocalFileResult::ArchiveCreated { path, entries, bytes },
                    ) && path@ == reported@ && entries == a.entries && bytes == a.bytes,
                    _ => ok_as(
                        r,
                        LocalFileResult::ArchiveExtracted { entries: a.entries, bytes: a.bytes },
                    ),
                },
                None => false,
            },
        },
        LocalOutcome::AclRead(res) => match res {
            Err(e) => fail_as(r, e),
            Ok(None) => r matches Ok(LocalFileResult::Acl { entries, supported }) && entries@.len()
                == 0 && !supported,
            Ok(Some(out)) => r matches Ok(LocalFileResult::Acl { entries, supported }) && supported
                && acl_views(entries@) == spec_parse_getfacl_output(out@),
        },
        LocalOutcome::AclSet { opened, run } => match opened {
            Err(e) => fail_as(r, e),
            Ok(_) => match q {
                LocalRequest::SetAcl { entries, .. } => match spec_modify_arg(acl_views(entries@)) {
                    Err(m) => r matches Err(VfsError::InvalidAclEntry(t)) && t@ == m,
                    Ok(_) => match run {
                    Some(Err(e)) => fail_as(r, e),
                    Some(Ok(SetfaclRun::Succeeded)) => ok_as(r, LocalFileResult::Complete),
                    Some(Ok(SetfaclRun::ToolMissing)) => fail_as(r, VfsError::Unsupported),
                    Some(Ok(SetfaclRun::Failed(s))) => if contains_text(
                        lowercase_of(s@),
                        "not supported"@,
                    ) {
                        fail_as(r, VfsError::Unsupported)
                    } else {
                        r matches Err(VfsError::Io(m)) && m@ == s@
                    },
                    None => false,
                },
                },
                _ => false,
            },
        },
    }
}

/// Whether a preview may be read: not through a symlink, and not past the
/// limit.
pub fn preview_gate(is_symlink: bool, len: u64, limit: usize) -> (r: Result<(), VfsError>)
    ensures
        is_symlink ==> r matches Err(VfsError::SymlinkReadDenied),
        !is_symlink && len > limit ==> r matches Err(VfsError::TooLarge),
        !is_symlink && len <= limit ==> r is Ok,
{
    if is_symlink {
        Err(VfsError::SymlinkReadDenied)
    } else if len > limit as u64 {
        Err(VfsError::TooLarge)
    } else {
        Ok(())
    }
}

fn entries_from_children(display: &String, children: Vec<(String, EntryStat)>) -> (v: Vec<VfsEntry>)
    ensures
        v@.len() == children@.len(),
        forall|i: int| 0 <= i < v@.len() ==> from_child(display@, children@[i], #[trigger] v@[i]),
{
    let mut v: Vec<VfsEntry> = Vec::new();
    let mut i: usize = 0;
    while i < children.len()
        invariant
            i <= children@.len(),
            v@.len() == i,
            forall|k: int| 0 <= k < i ==> from_child(display@, children@[k], #[trigger] v@[k]),
        decreases children@.len() - i,
    {
        let name = text(&children[i].0);
        let st = &children[i].1;
        let path = crate::vfs::join_virtual(display.as_str(), name.as_str());
        v.push(
            VfsEntry {
                name,
                path,
                kind: st.kind,
                size: st.size,
                modified_at: st.modified_at,
                mode: st.mode,
                uid: st.uid,
                gid: st.gid,
            },
        );
        proof {
            assert(from_child(display@, children@[i as int], v@[i as int]));
        }
        i = i + 1;
    }
    v
}

/// Answers a request from what the filesystem answered for it.
pub fn answer_local(writable: bool, q: &LocalRequest, o: LocalOutcome) -> (r: Result<
    LocalFileResult,
    VfsError,
>)
    requires
        fits(*q, o),
    ensures
        answered(writable, *q, o, r),
{
    broadcast use vstd::multiset::group_multiset_axioms;

    match o {
        LocalOutcome::Listed(res) => match res {
            Err(e) => Err(e),
            Ok(children) => match q {
                LocalRequest::List { display, .. } => {
                    let ghost cs = children@;
                    let built = entries_from_children(display, children);
                    let ghost b = built@;
                    let entries = sort_listing(built);
                    proof {
                        assert(listing_of(display@, cs, entries@));
                    }
                    Ok(LocalFileResult::Entries { entries, capabilities: local_capabilities(writable) })
                },
                _ => Err(VfsError::InvalidPath),
            },
        },
        LocalOutcome::Stated(res) => match res {
            Err(e) => Err(e),
            Ok(st) => match q {
                LocalRequest::Stat { relative, display } => {
                    let name = match crate::ospath::file_name(relative.as_str()) {
                        Some(n) => n,
                        None => {
                            let mut v: Vec<char> = Vec::new();
                            v.push('/');
                            proof {
                                assert(v@ =~= seq!['/']);
                            }
                            string_of(v.as_slice())
                        },
                    };
                    Ok(
                        LocalFileResult::Entry {
                            entry: VfsEntry {
                                name,
                                path: text(display),
                                kind: st.kind,
                                size: st.size,
                                modified_at: st.modified_at,
                                mode: st.mode,
                                uid: st.uid,
                                gid: st.gid,
                            },
                        },
                    )
                },
                _ => Err(VfsError::InvalidPath),
            },
        },
        LocalOutcome::Unit(res) => match res {
            Err(e) => Err(e),
            Ok(_) => Ok(LocalFileResult::Complete),
        },
        LocalOutcome::Copied(res) => match res {
            Err(e) => Err(e),
            Ok(bytes) => Ok(LocalFileResult::Copied { bytes }),
        },
        LocalOutcome::Trashed { trash_dir, moved } => match trash_dir {
            Err(e) => Err(e),
            Ok(_) => match moved {
                Some(Err(e)) => Err(e),
                _ => match q {
                    LocalRequest::Trash { virtual_path, .. } => Ok(
                        LocalFileResult::Trashed { path: text(virtual_path) },
                    ),
                    _ => Err(VfsError::InvalidPath),
                },
            },
        },
        LocalOutcome::Previewed { facts, read } => match facts {
            Err(e) => Err(e),
            Ok((symlink, len)) => match q {
                LocalRequest::ReadPreview { limit, .. } => match preview_gate(symlink, len, *limit) {
                    Err(e) => Err(e),
                    Ok(()) => match read {
                        Some(Err(e)) => Err(e),
                        Some(Ok(bytes)) => Ok(LocalFileResult::Preview { bytes }),
                        None => Err(VfsError::InvalidPath),
                    },
                },
                _ => Err(VfsError::InvalidPath),
            },
        },
        LocalOutcome::Wrote { made, written } => match made {
            Some(Err(e)) => Err(e),
            _ => match written {
                Some(Err(e)) => Err(e),
                _ => match q {
                    LocalRequest::WriteFile { content, .. } => Ok(
                        LocalFileResult::Written { bytes: content.len() as u64 },
                    ),
                    _ => Err(VfsError::InvalidPath),
                },
            },
        },
        LocalOutcome::Archived { made, done } => match made {
            Some(Err(e)) => Err(e),
            _ => match done {
                Some(Err(e)) => Err(e),
                Some(Ok(a)) => match q {
                    LocalRequest::CreateArchive { reported, .. } => Ok(
                        LocalFileResult::ArchiveCreated {
                            path: text(reported),
                            entries: a.entries,
                            bytes: a.bytes,
                        },
                    ),
                    _ => Ok(LocalFileResult::ArchiveExtracted { entries: a.entries, bytes: a.bytes }),
                },
                None => Err(VfsError::InvalidPath),
            },
        },
        LocalOutcome::AclRead(res) => match res {
            Err(e) => Err(e),
            Ok(None) => Ok(LocalFileResult::Acl { entries: Vec::new(), supported: false }),
            Ok(Some(out)) => Ok(
                LocalFileResult::Acl { entries: parse_getfacl_output(out.as_str()), supported: true },
            ),
        },
        LocalOutcome::AclSet { opened, run } => match opened {
            Err(e) => Err(e),
            Ok(_) => match q {
                LocalRequest::SetAcl { entries, .. } => match setfacl_modify_arg(entries.as_slice()) {
                    Err(e) => Err(e),
                    Ok(_) => match run {
                        Some(Err(e)) => Err(e),
                        Some(Ok(SetfaclRun::Succeeded)) => Ok(LocalFileResult::Complete),
                        Some(Ok(SetfaclRun::ToolMissing)) => Err(VfsError::Unsupported),
                        Some(Ok(SetfaclRun::Failed(s))) => Err(classify_setfacl_failure(s.as_str())),
                        None => Err(VfsError::InvalidPath),
                    },
                },
                _ => Err(VfsError::InvalidPath),
            },
        },
    }
}

/// `c` writes `content` to the file at `relative`.
pub open spec fn write_is(relative: String, content: Vec<u8>, c: IoCall) -> bool {
    c matches IoCall::Write { relative: r, content: b } && r@ == relative@ && b@ == content@
}

/// `c` writes the archive of `sources` at `destination`.
pub open spec fn archive_write_is(destination: String, sources: Vec<String>, format: ArchiveFormat, c: IoCall) -> bool {
    c matches IoCall::WriteArchive { destination: d, sources: s, format: f } && d@ == destination@
        && texts(s@) == texts(sources@) && f == format
}

/// `c` is the first call request `q` makes: the one call of a single-step
/// request, the trash directory's creation, the preview's link facts, the
/// parent directory's creation before a write or an archive (the write
/// itself when there is no parent), the first directory of a search, and
/// the opening of an ACL target.
pub open spec fn first_call(q: LocalRequest, c: IoCall) -> bool {
    match q {
        LocalRequest::List { relative, .. } => c matches IoCall::ListChildren { relative: r } && r@
            == relative@,
        LocalRequest::Stat { relative, .. } => c matches IoCall::Stat { relative: r } && r@ == relative@,
        LocalRequest::CreateDirectory { relative } => c matches IoCall::CreateDir { relative: r } && r@
            == relative@,
        LocalRequest::Rename { from, to } => c matches IoCall::Rename { from: f, to: t } && f@ == from@
            && t@ == to@,
        LocalRequest::CopyFile { from, to } => c matches IoCall::Copy { from: f, to: t } && f@ == from@
            && t@ == to@,
        LocalRequest::Trash { .. } => c matches IoCall::CreateDirAll { relative: r } && r@
            == ".Trash/clouddesk"@,
        LocalRequest::ReadPreview { relative, .. } => c matches IoCall::LinkFacts { relative: r } && r@
            == relative@,
        LocalRequest::WriteFile { relative, parent, content } => match parent {
            Some(p) => c matches IoCall::CreateDirAll { relative: r } && r@ == p@,
            None => write_is(relative, content, c),
        },
        LocalRequest::Chmod { relative, mode } => c matches IoCall::SetMode { relative: r, mode: m }
            && r@ == relative@ && m == mode,
        LocalRequest::Search { relative, .. } => c matches IoCall::ScanDirectory { relative: r } && r@
            == relative@,
        LocalRequest::CreateArchive { destination, parent, sources, format, .. } => match parent {
            Some(p) => c matches IoCall::CreateDirAll { relative: r } && r@ == p@,
            None => archive_write_is(destination, sources, format, c),
        },
        LocalRequest::ExtractArchive { archive, destination, format } => c matches IoCall::ExtractArchive {
            archive: a,
            destination: d,
            format: f,
        } && a@ == archive@ && d@ == destination@ && f == format,
        LocalRequest::ReadAcl { relative } => c matches IoCall::Getfacl { relative: r } && r@ == relative@,
        LocalRequest::SetAcl { relative, .. } => c matches IoCall::OpenTarget { relative: r } && r@
            == relative@,
    }
}

/// Whether the answer `a` to the first call of `q` leads to a second call:
/// the trash directory exists, the preview is allowed, the parent directory
/// was made, the ACL target opened and the entries make an argument.
pub open spec fn wants_second(q: LocalRequest, a: IoAnswer) -> bool {
    match q {
        LocalRequest::Trash { .. } => a matches IoAnswer::Done(Ok(_)),
        LocalRequest::ReadPreview { limit, .. } => a matches IoAnswer::Facts(f) && preview_allowed(f, limit),
        LocalRequest::WriteFile { parent, .. } => parent is Some && a matches IoAnswer::Done(Ok(_)),
        LocalRequest::CreateArchive { parent, .. } => parent is Some && a matches IoAnswer::Done(Ok(_)),
        LocalRequest::SetAcl { entries, .. } => a matches IoAnswer::Done(Ok(_)) && spec_modify_arg(
            acl_views(entries@),
        ) is Ok,
        _ => false,
    }
}

/// `c` is the second call of `q`: the move into the trash, the read of the
/// previewed file, the write after its parent was made, and `setfacl` with
/// the argument the entries make.
pub open spec fn second_call(q: LocalRequest, c: IoCall) -> bool {
    match q {
        LocalRequest::Trash { source, destination, .. } => c matches IoCall::Rename { from: f, to: t } && f@
            == source@ && t@ == destination@,
        LocalRequest::ReadPreview { relative, .. } => c matches IoCall::Read { relative: r } && r@
            == relative@,
        LocalRequest::WriteFile { relative, content, .. } => write_is(relative, content, c),
        LocalRequest::CreateArchive { destination, sources, format, .. } => archive_write_is(
            destination,
            sources,
            format,
            c,
        ),
        LocalRequest::SetAcl { relative, entries } => c matches IoCall::Setfacl { relative: r, modify_arg: m }
            && r@ == relative@ && spec_modify_arg(acl_views(entries@)) == Ok::<Seq<char>, Seq<char>>(m@),
        _ => false,
    }
}

/// The kind of answer the call now due for `q` gets, `first` being the
/// answer to its first call once a second one was made.
pub open spec fn answer_fits(q: LocalRequest, first: Option<IoAnswer>, a: IoAnswer) -> bool {
    match q {
        LocalRequest::List { .. } => a is Children,
        LocalRequest::Search { .. } => a is Children,
        LocalRequest::Stat { .. } => a is Stat,
        LocalRequest::CopyFile { .. } => a is Copied,
        LocalRequest::ReadPreview { .. } => if first is None {
            a is Facts
        } else {
            a is Data
        },
        LocalRequest::CreateArchive { parent, .. } => if first is None && parent is Some {
            a is Done
        } else {
            a is Archive
        },
        LocalRequest::ExtractArchive { .. } => a is Archive,
        LocalRequest::ReadAcl { .. } => a is AclText,
        LocalRequest::SetAcl { .. } => if first is None {
            a is Done
        } else {
            a is Setfacl
        },
        _ => a is Done,
    }
}

pub open spec fn first_done(first: Option<IoAnswer>) -> Result<(), VfsError> {
    match first {
        Some(IoAnswer::Done(d)) => d,
        _ => Err(VfsError::InvalidPath),
    }
}

pub open spec fn first_facts(first: Option<IoAnswer>) -> Result<(bool, u64), VfsError> {
    match first {
        Some(IoAnswer::Facts(f)) => f,
        _ => Err(VfsError::InvalidPath),
    }
}

/// The trace the answers make: `last` the answer to the last call made,
/// `first` the answer to the first one when there were two.
pub open spec fn outcome_of(q: LocalRequest, first: Option<IoAnswer>, last: IoAnswer) -> LocalOutcome {
    match last {
        IoAnswer::Children(res) => LocalOutcome::Listed(res),
        IoAnswer::Stat(res) => LocalOutcome::Stated(res),
        IoAnswer::Copied(res) => LocalOutcome::Copied(res),
        IoAnswer::Facts(res) => LocalOutcome::Previewed { facts: res, read: None },
        IoAnswer::Data(res) => LocalOutcome::Previewed { facts: first_facts(first), read: Some(res) },
        IoAnswer::AclText(res) => LocalOutcome::AclRead(res),
        IoAnswer::Setfacl(res) => LocalOutcome::AclSet { opened: first_done(first), run: Some(res) },
        IoAnswer::Archive(res) => match first {
            Some(IoAnswer::Done(m)) => LocalOutcome::Archived { made: Some(m), done: Some(res) },
            _ => LocalOutcome::Archived { made: None, done: Some(res) },
        },
        IoAnswer::Done(res) => match q {
            LocalRequest::Trash { .. } => match first {
                Some(IoAnswer::Done(td)) => LocalOutcome::Trashed { trash_dir: td, moved: Some(res) },
                _ => LocalOutcome::Trashed { trash_dir: res, moved: None },
            },
            LocalRequest::WriteFile { parent, .. } => match first {
                Some(IoAnswer::Done(m)) => LocalOutcome::Wrote { made: Some(m), written: Some(res) },
                _ => if parent is Some {
                    LocalOutcome::Wrote { made: Some(res), written: None }
                } else {
                    LocalOutcome::Wrote { made: None, written: Some(res) }
                },
            },
            LocalRequest::CreateArchive { .. } => LocalOutcome::Archived { made: Some(res), done: None },
            LocalRequest::SetAcl { .. } => LocalOutcome::AclSet { opened: res, run: None },
            _ => LocalOutcome::Unit(res),
        },
    }
}

/// A search hit: the entry's lowercase name holds the lowercase query.
pub open spec fn search_hit(query: Seq<char>, e: VfsEntry) -> bool {
    contains_text(lowercase_of(e.name@), lowercase_of(query))
}

/// How a search ends: with at most `limit` entries, each a hit.
pub open spec fn search_answered(q: LocalRequest, r: Result<LocalFileResult, VfsError>) -> bool {
    q matches LocalRequest::Search { query, limit, .. } && r matches Ok(
        LocalFileResult::SearchResults { entries },
    ) && entries@.len() <= limit && forall|i: int|
        0 <= i < entries@.len() ==> search_hit(query@, #[trigger] entries@[i])
}

/// Where the search walk goes below a directory: the child's own name at
/// the root, else below the directory's path.
pub open spec fn spec_child_relative(dir: Seq<char>, name: Seq<char>) -> Seq<char> {
    if dir == seq!['.'] {
        name
    } else {
        dir + seq!['/'] + name
    }
}

/// One local-file operation in progress: the request it became, and
/// what the calls made so far answered.
#[derive(Debug)]
pub struct LocalRun {
    pub writable: bool,
    pub request: LocalRequest,
    /// The answer to the first call, once a second call was asked for.
    pub first: Option<IoAnswer>,
    /// The search walk: the hits so far,
    pub found: Vec<VfsEntry>,
    /// the directories still to scan, each as a relative and a shown path,
    /// the last queued scanned first,
    pub pending: Vec<(String, String)>,
    /// and the directory being scanned.
    pub scanning: (String, String),
}

/// What a run does next: make a call and go on, or finish with a result.
#[derive(Debug)]
pub enum LocalStep {
    Call(LocalRun, IoCall),
    Finish(Result<LocalFileResult, VfsError>),
}

impl LocalRun {
    /// A second call is due exactly when the first answer asks for one; a
    /// search keeps fewer hits than its limit (at least one), each a hit,
    /// and at most [`crate::vfs::MAX_SEARCH_PENDING_DIRECTORIES`]
    /// directories waiting.
    pub open spec fn wf(self) -> bool {
        match self.request {
            LocalRequest::Search { query, limit, .. } => {
                &&& self.first is None
                &&& 1 <= limit
                &&& self.found@.len() < limit
                &&& self.pending@.len() <= crate::vfs::MAX_SEARCH_PENDING_DIRECTORIES
                &&& forall|i: int| 0 <= i < self.found@.len() ==> search_hit(query@, #[trigger] self.found@[i])
            },
            _ => match self.first {
                None => true,
                Some(a) => wants_second(self.request, a),
            },
        }
    }

    /// Whether `a` is the kind of answer the call now due gets.
    pub fn accepts(&self, a: &IoAnswer) -> (b: bool)
        ensures
            b == answer_fits(self.request, self.first, *a),
    {
        let first_none = self.first.is_none();
        match &self.request {
            LocalRequest::List { .. } => matches!(a, IoAnswer::Children(_)),
            LocalRequest::Search { .. } => matches!(a, IoAnswer::Children(_)),
            LocalRequest::Stat { .. } => matches!(a, IoAnswer::Stat(_)),
            LocalRequest::CopyFile { .. } => matches!(a, IoAnswer::Copied(_)),
            LocalRequest::ReadPreview { .. } => if first_none {
                matches!(a, IoAnswer::Facts(_))
            } else {
                matches!(a, IoAnswer::Data(_))
            },
            LocalRequest::CreateArchive { parent, .. } => if first_none && parent.is_some() {
                matches!(a, IoAnswer::Done(_))
            } else {
                matches!(a, IoAnswer::Archive(_))
            },
            LocalRequest::ExtractArchive { .. } => matches!(a, IoAnswer::Archive(_)),
            LocalRequest::ReadAcl { .. } => matches!(a, IoAnswer::AclText(_)),
            LocalRequest::SetAcl { .. } => if first_none {
                matches!(a, IoAnswer::Done(_))
            } else {
                matches!(a, IoAnswer::Setfacl(_))
            },
            _ => matches!(a, IoAnswer::Done(_)),
        }
    }
}

fn copy_bytes(b: &Vec<u8>) -> (r: Vec<u8>)
    ensures
        r@ == b@,
{
    let mut r: Vec<u8> = Vec::new();
    let mut i: usize = 0;
    while i < b.len()
        invariant
            i <= b@.len(),
            r@ == b@.take(i as int),
        decreases b@.len() - i,
    {
        r.push(b[i]);
        i = i + 1;
        proof {
            assert(b@.take(i as int) =~= b@.take(i - 1).push(b@[i - 1]));
        }
    }
    proof {
        assert(b@.take(b@.len() as int) =~= b@);
    }
    r
}

fn copy_texts(v: &Vec<String>) -> (r: Vec<String>)
    ensures
        texts(r@) == texts(v@),
{
    let mut r: Vec<String> = Vec::new();
    let mut i: usize = 0;
    while i < v.len()
        invariant
            i <= v@.len(),
            r@.len() == i,
            forall|k: int| 0 <= k < i ==> (#[trigger] r@[k])@ == v@[k]@,
        decreases v@.len() - i,
    {
        r.push(text(&v[i]));
        i = i + 1;
    }
    proof {
        assert(texts(r@) =~= texts(v@));
    }
    r
}

fn child_relative(dir: &String, name: &String) -> (r: String)
    ensures
        r@ == spec_child_relative(dir@, name@),
{
    let d = chars_of(dir.as_str());
    let n = chars_of(name.as_str());
    if d.len() == 1 && d[0] == '.' {
        proof {
            assert(d@ =~= seq!['.']);
        }
        return string_of(n.as_slice());
    }
    proof {
        assert(d@ != seq!['.']);
    }
    let mut v = d;
    v.push('/');
    append_chars(&mut v, n.as_slice());
    string_of(v.as_slice())
}

fn empty_text() -> (r: String)
    ensures
        r@ == Seq::<char>::empty(),
{
    let v: Vec<char> = Vec::new();
    string_of(v.as_slice())
}

/// The first call of a request.
fn first_call_of(q: &LocalRequest) -> (c: IoCall)
    ensures
        first_call(*q, c),
{
    match q {
        LocalRequest::List { relative, .. } => IoCall::ListChildren { relative: text(relative) },
        LocalRequest::Stat { relative, .. } => IoCall::Stat { relative: text(relative) },
        LocalRequest::CreateDirectory { relative } => IoCall::CreateDir { relative: text(relative) },
        LocalRequest::Rename { from, to } => IoCall::Rename { from: text(from), to: text(to) },
        LocalRequest::CopyFile { from, to } => IoCall::Copy { from: text(from), to: text(to) },
        LocalRequest::Trash { .. } => IoCall::CreateDirAll {
            relative: string_of(chars_of(".Trash/clouddesk").as_slice()),
        },
        LocalRequest::ReadPreview { relative, .. } => IoCall::LinkFacts { relative: text(relative) },
        LocalRequest::WriteFile { relative, parent, content } => match parent {
            Some(p) => IoCall::CreateDirAll { relative: text(p) },
            None => IoCall::Write { relative: text(relative), content: copy_bytes(content) },
        },
        LocalRequest::Chmod { relative, mode } => IoCall::SetMode { relative: text(relative), mode: *mode },
        LocalRequest::Search { relative, .. } => IoCall::ScanDirectory { relative: text(relative) },
        LocalRequest::CreateArchive { destination, parent, sources, format, .. } => match parent {
            Some(p) => IoCall::CreateDirAll { relative: text(p) },
            None => IoCall::WriteArchive {
                destination: text(destination),
                sources: copy_texts(sources),
                format: *format,
            },
        },
        LocalRequest::ExtractArchive { archive, destination, format } => IoCall::ExtractArchive {
            archive: text(archive),
            destination: text(destination),
            format: *format,
        },
        LocalRequest::ReadAcl { relative } => IoCall::Getfacl { relative: text(relative) },
        LocalRequest::SetAcl { relative, .. } => IoCall::OpenTarget { relative: text(relative) },
    }
}

/// The second call of a request, when the answer to its first asks for
/// one.
fn second_call_of(q: &LocalRequest, a: &IoAnswer) -> (c: Option<IoCall>)
    ensures
        c is Some <==> wants_second(*q, *a),
        c matches Some(cc) ==> second_call(*q, cc),
{
    let done_ok = match a {
        IoAnswer::Done(Ok(())) => true,
        _ => false,
    };
    match q {
        LocalRequest::Trash { source, destination, .. } => if done_ok {
            Some(IoCall::Rename { from: text(source), to: text(destination) })
        } else {
            None
        },
        LocalRequest::ReadPreview { relative, limit } => match a {
            IoAnswer::Facts(Ok((symlink, len))) => match preview_gate(*symlink, *len, *limit) {
                Ok(()) => Some(IoCall::Read { relative: text(relative) }),
                Err(_) => None,
            },
            _ => None,
        },
        LocalRequest::WriteFile { relative, parent, content } => if parent.is_some() && done_ok {
            Some(IoCall::Write { relative: text(relative), content: copy_bytes(content) })
        } else {
            None
        },
        LocalRequest::CreateArchive { destination, parent, sources, format, .. } => if parent.is_some()
            && done_ok {
            Some(
                IoCall::WriteArchive {
                    destination: text(destination),
                    sources: copy_texts(sources),
                    format: *format,
                },
            )
        } else {
            None
        },
        LocalRequest::SetAcl { relative, entries } => if done_ok {
            match setfacl_modify_arg(entries.as_slice()) {
                Ok(arg) => Some(IoCall::Setfacl { relative: text(relative), modify_arg: arg }),
                Err(_) => None,
            }
        } else {
            None
        },
        _ => None,
    }
}

/// The trace the answers make, as [`outcome_of`] states it.
fn outcome_from(q: &LocalRequest, first: Option<IoAnswer>, last: IoAnswer) -> (o: LocalOutcome)
    ensures
        o == outcome_of(*q, first, last),
{
    match last {
        IoAnswer::Children(res) => LocalOutcome::Listed(res),
        IoAnswer::Stat(res) => LocalOutcome::Stated(res),
        IoAnswer::Copied(res) => LocalOutcome::Copied(res),
        IoAnswer::Facts(res) => LocalOutcome::Previewed { facts: res, read: None },
        IoAnswer::Data(res) => {
            let facts = match first {
                Some(IoAnswer::Facts(f)) => f,
                _ => Err(VfsError::InvalidPath),
            };
            LocalOutcome::Previewed { facts, read: Some(res) }
        },
        IoAnswer::AclText(res) => LocalOutcome::AclRead(res),
        IoAnswer::Setfacl(res) => {
            let opened = match first {
                Some(IoAnswer::Done(d)) => d,
                _ => Err(VfsError::InvalidPath),
            };
            LocalOutcome::AclSet { opened, run: Some(res) }
        },
        IoAnswer::Archive(res) => match first {
            Some(IoAnswer::Done(m)) => LocalOutcome::Archived { made: Some(m), done: Some(res) },
            _ => LocalOutcome::Archived { made: None, done: Some(res) },
        },
        IoAnswer::Done(res) => match q {
            LocalRequest::Trash { .. } => match first {
                Some(IoAnswer::Done(td)) => LocalOutcome::Trashed { trash_dir: td, moved: Some(res) },
                _ => LocalOutcome::Trashed { trash_dir: res, moved: None },
            },
            LocalRequest::WriteFile { parent, .. } => match first {
                Some(IoAnswer::Done(m)) => LocalOutcome::Wrote { made: Some(m), written: Some(res) },
                _ => if parent.is_some() {
                    LocalOutcome::Wrote { made: Some(res), written: None }
                } else {
                    LocalOutcome::Wrote { made: None, written: Some(res) }
                },
            },
            LocalRequest::CreateArchive { .. } => LocalOutcome::Archived { made: Some(res), done: None },
            LocalRequest::SetAcl { .. } => LocalOutcome::AclSet { opened: res, run: None },
            _ => LocalOutcome::Unit(res),
        },
    }
}

/// Starts one operation of the typed local-file protocol on a root that
/// is `writable` or not, at time `now` (which names trashed entries).
/// Every refusal before the filesystem is reached is exact; past them the
/// operation becomes exactly one request, and the run asks for that
/// request's first call.
pub fn execute_local(writable: bool, op: LocalFileOperation, now: i64) -> (r: Result<
    (LocalRun, IoCall),
    VfsError,
>)
    ensures
        match request_refusal(writable, op) {
            Some(e) => r == Err::<(LocalRun, IoCall), VfsError>(e),
            None => if acl_empty(writable, op) {
                r matches Err(VfsError::InvalidAclEntry(m)) && m@ == "no ACL entries supplied"@
            } else {
                r matches Ok((run, c)) && run.writable == writable && is_request_for(op, now, run.request)
                    && run.first is None && run.wf() && first_call(run.request, c)
            },
        },
{
    let q = match provider_request(writable, op, now) {
        Ok(q) => q,
        Err(e) => return Err(e),
    };
    let c = first_call_of(&q);
    let scanning = match &q {
        LocalRequest::Search { relative, display, .. } => (text(relative), text(display)),
        _ => (empty_text(), empty_text()),
    };
    let run = LocalRun { writable, request: q, first: None, found: Vec::new(), pending: Vec::new(), scanning };
    Ok((run, c))
}

impl LocalRun {
    /// Takes the answer to the call now due. A search scans the answered
    /// directory's children with [`search_visit`], skipping a directory
    /// that could not be read, then scans the last queued directory or
    /// ends; any other request asks for its second call when the first
    /// answer calls for one, and otherwise ends with what
    /// [`answer_local`] makes of the trace its answers form.
    pub fn resume(self, answer: IoAnswer) -> (s: LocalStep)
        requires
            self.wf(),
            answer_fits(self.request, self.first, answer),
        ensures
            match s {
                LocalStep::Call(next, c) => next.wf() && next.writable == self.writable && next.request
                    == self.request && if self.request is Search {
                    (c matches IoCall::ScanDirectory { relative } && relative@ == next.scanning.0@)
                } else {
                    self.first is None && next.first == Some(answer) && second_call(self.request, c)
                },
                LocalStep::Finish(r) => if self.request is Search {
                    search_answered(self.request, r)
                } else {
                    fits(self.request, outcome_of(self.request, self.first, answer)) && answered(
                        self.writable,
                        self.request,
                        outcome_of(self.request, self.first, answer),
                        r,
                    )
                },
            },
            !(self.request is Search) ==> (s is Call <==> (self.first is None && wants_second(
                self.request,
                answer,
            ))),
    {
        let is_search = match &self.request {
            LocalRequest::Search { .. } => true,
            _ => false,
        };
        if is_search {
            return self.scan(answer);
        }
        let LocalRun { writable, request, first, found, pending, scanning } = self;
        match first {
            None => match second_call_of(&request, &answer) {
                Some(c) => LocalStep::Call(
                    LocalRun { writable, request, first: Some(answer), found, pending, scanning },
                    c,
                ),
                None => {
                    let o = outcome_from(&request, None, answer);
                    LocalStep::Finish(answer_local(writable, &request, o))
                },
            },
            Some(a) => {
                let o = outcome_from(&request, Some(a), answer);
                LocalStep::Finish(answer_local(writable, &request, o))
            },
        }
    }

    /// One step of the search walk.
    fn scan(self, answer: IoAnswer) -> (s: LocalStep)
        requires
            self.wf(),
            self.request is Search,
        ensures
            match s {
                LocalStep::Call(next, c) => next.wf() && next.writable == self.writable && next.request
                    == self.request && (c matches IoCall::ScanDirectory { relative } && relative@
                    == next.scanning.0@),
                LocalStep::Finish(r) => search_answered(self.request, r),
            },
    {
        let LocalRun { writable, request, first, mut found, mut pending, scanning } = self;
        let ghost q = request;
        let (query, limit) = match &request {
            LocalRequest::Search { query, limit, .. } => (text(query), *limit),
            _ => (empty_text(), 1),
        };
        if let IoAnswer::Children(Ok(children)) = answer {
            let mut i: usize = 0;
            while i < children.len()
                invariant
                    q == self.request,
                    q matches LocalRequest::Search { query: qq, limit: l, .. } && qq@ == query@ && l
                        == limit,
                    1 <= limit,
                    found@.len() < limit,
                    pending@.len() <= crate::vfs::MAX_SEARCH_PENDING_DIRECTORIES,
                    forall|k: int| 0 <= k < found@.len() ==> search_hit(query@, #[trigger] found@[k]),
                decreases children@.len() - i,
            {
                let name = &children[i].0;
                let st = &children[i].1;
                let is_dir = match st.kind {
                    EntryKind::Directory => true,
                    _ => false,
                };
                let is_symlink = match st.kind {
                    EntryKind::Symlink => true,
                    _ => false,
                };
                let v = search_visit(
                    name.as_str(),
                    query.as_str(),
                    is_dir,
                    is_symlink,
                    found.len(),
                    pending.len(),
                    limit,
                );
                if v.report {
                    let entry = VfsEntry {
                        name: text(name),
                        path: crate::vfs::join_virtual(scanning.1.as_str(), name.as_str()),
                        kind: st.kind,
                        size: st.size,
                        modified_at: st.modified_at,
                        mode: st.mode,
                        uid: st.uid,
                        gid: st.gid,
                    };
                    found.push(entry);
                }
                if v.stop {
                    return LocalStep::Finish(Ok(LocalFileResult::SearchResults { entries: found }));
                }
                if v.descend {
                    let child = (
                        child_relative(&scanning.0, name),
                        crate::vfs::join_virtual(scanning.1.as_str(), name.as_str()),
                    );
                    pending.push(child);
                }
                i = i + 1;
            }
        }
        match pending.pop() {
            Some(next_dir) => {
                let c = IoCall::ScanDirectory { relative: text(&next_dir.0) };
                LocalStep::Call(
                    LocalRun { writable, request, first, found, pending, scanning: next_dir },
                    c,
                )
            },
            None => LocalStep::Finish(Ok(LocalFileResult::SearchResults { entries: found })),
        }
    }
}

} // verus!

verus! {

/// What the search walk does with one child of a directory it visits.
#[derive(Clone, Copy, Debug, PartialEq, Eq)]
pub struct SearchVisit {
    /// Report the child as a result.
    pub report: bool,
    /// The results are complete once this child is reported.
    pub stop: bool,
    /// Queue the child's own directory for visiting.
    pub descend: bool,
}

/// Decides one step of the search walk: a child whose lowercase name
/// contains the lowercase query is reported, and the walk stops when that
/// makes `limit` results; a real directory (never a symlink to one) is
/// queued while fewer than [`crate::vfs::MAX_SEARCH_PENDING_DIRECTORIES`]
/// directories wait.
pub fn search_visit(
    name: &str,
    query: &str,
    is_dir: bool,
    is_symlink: bool,
    results_so_far: usize,
    pending: usize,
    limit: usize,
) -> (v: SearchVisit)
    ensures
        v.report == contains_text(lowercase_of(name@), lowercase_of(query@)),
        v.stop == (v.report && results_so_far + 1 >= limit),
        v.descend == (!v.stop && is_dir && !is_symlink && pending
            < crate::vfs::MAX_SEARCH_PENDING_DIRECTORIES),
{
    let report = crate::vfs::search_matches(name, query);
    let stop = report && results_so_far >= limit || report && limit - results_so_far <= 1;
    let descend = !stop && is_dir && !is_symlink && pending < crate::vfs::MAX_SEARCH_PENDING_DIRECTORIES;
    SearchVisit { report, stop, descend }
}

} // verus!

verus! {

/// The relative path of an admitted archive entry.
pub open spec fn target_path(t: ExtractTarget) -> Seq<char> {
    match t {
        ExtractTarget::Directory(p) => p@,
        ExtractTarget::File(p) => p@,
    }
}

/// A path an extraction creates, relative to the root.
#[derive(Debug)]
pub struct Materialize {
    pub path: String,
    pub is_file: bool,
}

/// One removal of the cleanup after a refused extraction.
#[derive(Debug)]
pub enum CleanupStep {
    RemoveFile(String),
    RemoveDir(String),
}

/// The paths one extraction created, in the order it created them.
#[derive(Debug)]
pub struct ExtractionLog {
    pub created: Vec<String>,
}

impl ExtractionLog {
    pub fn new() -> (l: Self)
        ensures
            l.created@.len() == 0,
    {
        ExtractionLog { created: Vec::new() }
    }

    /// Where an admitted entry goes below `destination`; the path is
    /// logged before it is handed out, so every path the extraction
    /// creates is in the log.
    pub fn materialize(&mut self, destination: &str, target: ExtractTarget) -> (m: Materialize)
        ensures
            m.path@ == spec_child_relative(destination@, target_path(target)),
            m.is_file == (target is File),
            final(self).created@.len() == old(self).created@.len() + 1,
            final(self).created@.drop_last() == old(self).created@,
            final(self).created@.last()@ == m.path@,
    {
        let d = string_of(chars_of(destination).as_slice());
        let (relative, is_file) = match target {
            ExtractTarget::Directory(p) => (p, false),
            ExtractTarget::File(p) => (p, true),
        };
        let path = child_relative(&d, &relative);
        self.created.push(text(&path));
        proof {
            assert(self.created@.drop_last() =~= old(self).created@);
        }
        Materialize { path, is_file }
    }

    /// The cleanup after a refused extraction: every created path removed
    /// as a file, the last created first, then every one removed as a
    /// directory, the last created first, so that every file the
    /// extraction made goes and a directory goes only once empty.
    pub fn cleanup_plan(&self) -> (plan: Vec<CleanupStep>)
        ensures
            plan@.len() == 2 * self.created@.len(),
            forall|i: int|
                0 <= i < self.created@.len() ==> (#[trigger] plan@[i] matches CleanupStep::RemoveFile(p)
                    && p@ == self.created@[self.created@.len() - 1 - i]@),
            forall|i: int|
                0 <= i < self.created@.len() ==> (#[trigger] plan@[self.created@.len() + i] matches CleanupStep::RemoveDir(
                    p,
                ) && p@ == self.created@[self.created@.len() - 1 - i]@),
    {
        let n = self.created.len();
        let mut plan: Vec<CleanupStep> = Vec::new();
        let mut i: usize = 0;
        while i < n
            invariant
                n == self.created@.len(),
                i <= n,
                plan@.len() == i,
                forall|k: int|
                    0 <= k < i ==> (#[trigger] plan@[k] matches CleanupStep::RemoveFile(p) && p@
                        == self.created@[n - 1 - k]@),
            decreases n - i,
        {
            plan.push(CleanupStep::RemoveFile(text(&self.created[n - 1 - i])));
            i = i + 1;
        }
        let mut j: usize = 0;
        while j < n
            invariant
                n == self.created@.len(),
                j <= n,
                plan@.len() == n + j,
                forall|k: int|
                    0 <= k < n ==> (#[trigger] plan@[k] matches CleanupStep::RemoveFile(p) && p@
                        == self.created@[n - 1 - k]@),
                forall|k: int|
                    0 <= k < j ==> (#[trigger] plan@[n + k] matches CleanupStep::RemoveDir(p) && p@
                        == self.created@[n - 1 - k]@),
            decreases n - j,
        {
            plan.push(CleanupStep::RemoveDir(text(&self.created[n - 1 - j])));
            j = j + 1;
        }
        plan
    }
}

} // verus!

//! Virtual-path rules of the local file provider: every path a caller
//! supplies is normalized here before any filesystem call is made for it.

use vstd::prelude::*;
use crate::text::{trim_char, trim_char_exec, append_chars, chars_of, contains_char, contains_text, contains_text_exec, join_with, lemma_join_with_push, lemma_lex_le_reflexive, lemma_lex_le_total, lemma_lex_le_transitive, lex_le, lex_le_exec, lowercase_of, split_chars, split_on, string_of, to_lowercase};

verus! {

/// Errors of the file provider.
#[derive(Debug)]
pub enum VfsError {
    Traversal,
    InvalidPath,
    NonUtf8Name,
    ReadOnly,
    SymlinkReadDenied,
    TooLarge,
    /// A filesystem failure, with the operating system's message.
    Io(String),
    UnsafeArchiveEntry(String),
    ArchiveEntryLinkDenied,
    ArchiveQuotaExceeded,
    InvalidArchive(String),
    EmptyArchiveSelection,
    Unsupported,
    InvalidAclEntry(String),
}

/// A path piece that names something: not empty and not `.`.
pub open spec fn is_named_component(p: Seq<char>) -> bool {
    p.len() > 0 && p != seq!['.']
}

pub open spec fn parent_ref() -> Seq<char> {
    seq!['.', '.']
}

/// The named pieces among `pieces`, in order.
pub open spec fn named_only(pieces: Seq<Seq<char>>) -> Seq<Seq<char>> {
    pieces.filter(|p: Seq<char>| is_named_component(p))
}

pub proof fn lemma_named_only_push(pieces: Seq<Seq<char>>, x: Seq<char>)
    ensures
        named_only(pieces.push(x)) == (if is_named_component(x) {
            named_only(pieces).push(x)
        } else {
            named_only(pieces)
        }),
{
    pieces.lemma_filter_push(x, |p: Seq<char>| is_named_component(p));
}

/// The named components of a virtual path, in order.
pub open spec fn path_components(path: Seq<char>) -> Seq<Seq<char>> {
    named_only(split_on(path, '/'))
}

/// What `normalize_virtual_path` yields: the named components joined by
/// `/`, refusing NUL, any `..` piece, and an empty result unless the
/// root is allowed (then `.`).
pub open spec fn spec_normalize(path: Seq<char>, allow_root: bool) -> Result<Seq<char>, ()> {
    if path.contains('\0') || split_on(path, '/').contains(parent_ref()) {
        Err(())
    } else if path_components(path).len() == 0 {
        if allow_root {
            Ok(seq!['.'])
        } else {
            Err(())
        }
    } else {
        Ok(join_with(path_components(path), seq!['/']))
    }
}

/// `spec_normalize` with the error it reports: `InvalidPath` for NUL or
/// an empty path where the root is not allowed, `Traversal` for `..`.
pub open spec fn normalized(path: Seq<char>, allow_root: bool) -> Result<Seq<char>, VfsError> {
    if path.contains('\0') {
        Err(VfsError::InvalidPath)
    } else if split_on(path, '/').contains(parent_ref()) {
        Err(VfsError::Traversal)
    } else if path_components(path).len() == 0 {
        if allow_root {
            Ok(seq!['.'])
        } else {
            Err(VfsError::InvalidPath)
        }
    } else {
        Ok(join_with(path_components(path), seq!['/']))
    }
}

/// The named components of `v` joined by `/`, or `None` when a `..`
/// piece occurs.
pub fn normalize_components(v: &[char]) -> (res: Option<Vec<char>>)
    ensures
        res is None <==> split_on(v@, '/').contains(parent_ref()),
        res matches Some(p) ==> p@ == join_with(path_components(v@), seq!['/']) && (p@.len() == 0
            <==> path_components(v@).len() == 0),
{
    let pieces = split_chars(v, '/');
    let ghost all = split_on(v@, '/');
    let mut out: Vec<char> = Vec::new();
    let mut kept: usize = 0;
    let mut k: usize = 0;
    while k < pieces.len()
        invariant
            k <= pieces@.len(),
            all == split_on(v@, '/'),
            pieces@.len() == all.len(),
            forall|i: int| 0 <= i < pieces@.len() ==> #[trigger] pieces@[i]@ == all[i],
            forall|i: int| 0 <= i < k ==> all[i] != parent_ref(),
            kept as int == named_only(all.take(k as int)).len(),
            kept <= k,
            (out@.len() == 0) == (kept == 0),
            out@ == join_with(named_only(all.take(k as int)), seq!['/']),
        decreases pieces@.len() - k,
    {
        let piece = &pieces[k];
        proof {
            assert(piece@ == all[k as int]);
            assert(all.take(k + 1) =~= all.take(k as int).push(all[k as int]));
            lemma_named_only_push(all.take(k as int), all[k as int]);
            lemma_join_with_push(named_only(all.take(k as int)), all[k as int], seq!['/']);
        }
        if piece.len() == 2 && piece[0] == '.' && piece[1] == '.' {
            proof {
                assert(piece@ =~= parent_ref());
                assert(all.contains(parent_ref()));
            }
            return None;
        }
        proof {
            assert(all[k as int] != parent_ref());
        }
        let named = piece.len() > 0 && !(piece.len() == 1 && piece[0] == '.');
        proof {
            if named {
                assert(piece@ != seq!['.']);
            } else if piece.len() == 1 {
                assert(piece@ =~= seq!['.']);
            }
            assert(named == is_named_component(all[k as int]));
        }
        if named {
            if kept > 0 {
                out.push('/');
            }
            append_chars(&mut out, piece.as_slice());
            kept = kept + 1;
        }
        k = k + 1;
    }
    proof {
        assert(all.take(all.len() as int) =~= all);
        assert(!all.contains(parent_ref()));
    }
    Some(out)
}

/// Normalizes a caller-supplied virtual path into a path relative to the
/// provider root.
pub fn normalize_virtual_path(path: &str, allow_root: bool) -> (res: Result<String, VfsError>)
    ensures
        path@.contains('\0') ==> res matches Err(VfsError::InvalidPath),
        !path@.contains('\0') && split_on(path@, '/').contains(parent_ref()) ==> res matches Err(
            VfsError::Traversal,
        ),
        !path@.contains('\0') && !split_on(path@, '/').contains(parent_ref()) && path_components(
            path@,
        ).len() == 0 && !allow_root ==> res matches Err(VfsError::InvalidPath),
        spec_normalize(path@, allow_root) matches Ok(r) ==> res matches Ok(s) && s@ == r,
        match res {
            Ok(s) => normalized(path@, allow_root) matches Ok(t) && t == s@,
            Err(e) => normalized(path@, allow_root) == Err::<Seq<char>, VfsError>(e),
        },
{
    let v = chars_of(path);
    if contains_char(&v, '\0') {
        return Err(VfsError::InvalidPath);
    }
    match normalize_components(&v) {
        None => Err(VfsError::Traversal),
        Some(p) => {
            if p.len() == 0 {
                if allow_root {
                    proof {
                        assert(seq!['.'] =~= seq!['.']);
                    }
                    Ok(string_of(&['.']))
                } else {
                    Err(VfsError::InvalidPath)
                }
            } else {
                Ok(string_of(p.as_slice()))
            }
        },
    }
}

} // verus!

verus! {

/// `path` in canonical virtual form: a single leading `/` and no trailing
/// `/`; the root is `/`.
pub open spec fn spec_canonical_virtual(path: Seq<char>) -> Seq<char> {
    let trimmed = trim_char(path, '/');
    if trimmed.len() == 0 {
        seq!['/']
    } else {
        seq!['/'] + trimmed
    }
}

/// The virtual path of the entry `name` inside the directory `parent`.
pub open spec fn spec_join_virtual(parent: Seq<char>, name: Seq<char>) -> Seq<char> {
    let parent = spec_canonical_virtual(parent);
    if parent == seq!['/'] {
        seq!['/'] + name
    } else {
        parent + seq!['/'] + name
    }
}

fn canonical_chars(path: &[char]) -> (r: Vec<char>)
    ensures
        r@ == spec_canonical_virtual(path@),
{
    let trimmed = trim_char_exec(path, '/');
    let mut r: Vec<char> = Vec::new();
    r.push('/');
    if trimmed.len() > 0 {
        append_chars(&mut r, trimmed.as_slice());
    }
    proof {
        assert(seq!['/'] + trimmed@ =~= seq!['/'].push('/').drop_last() + trimmed@);
    }
    r
}

/// Canonical virtual form of `path`.
pub fn canonical_virtual(path: &str) -> (r: String)
    ensures
        r@ == spec_canonical_virtual(path@),
{
    let v = chars_of(path);
    let r = canonical_chars(&v);
    string_of(r.as_slice())
}

/// The virtual path of `name` inside `parent`.
pub fn join_virtual(parent: &str, name: &str) -> (r: String)
    ensures
        r@ == spec_join_virtual(parent@, name@),
{
    let p = chars_of(parent);
    let n = chars_of(name);
    let mut r = canonical_chars(&p);
    proof {
        reveal_strlit("/");
    }
    let root = r.len() == 1 && r[0] == '/';
    proof {
        if root {
            assert(r@ =~= seq!['/']);
        } else if r@.len() == 1 {
            assert(r@ != seq!['/']) by {
                assert(r@[0] != '/');
            }
        }
    }
    if !root {
        r.push('/');
    }
    append_chars(&mut r, n.as_slice());
    string_of(r.as_slice())
}

} // verus!

verus! {

#[derive(Clone, Copy, Debug, PartialEq, Eq)]
pub enum EntryKind {
    File,
    Directory,
    Symlink,
    Other,
}

#[derive(Clone, Debug, PartialEq, Eq)]
pub struct VfsEntry {
    pub name: String,
    pub path: String,
    pub kind: EntryKind,
    pub size: u64,
    pub modified_at: Option<i64>,
    pub mode: u32,
    pub uid: u32,
    pub gid: u32,
}

#[derive(Clone, Copy, Debug, PartialEq, Eq)]
pub enum ProviderFeature {
    Read,
    Write,
    Trash,
    Ownership,
    Permissions,
    Acl,
    ResumableUpload,
}

/// A file provider (local disk, SFTP, WebDAV, S3). What each operation
/// does is the implementor's; nothing here is promised of it.
pub trait VfsProvider {
    fn capabilities(&self) -> Vec<ProviderFeature>;

    fn list(&self, path: &str) -> Result<Vec<VfsEntry>, VfsError>;

    fn stat(&self, path: &str) -> Result<VfsEntry, VfsError>;

    fn create_directory(&self, path: &str) -> Result<(), VfsError>;

    fn rename(&self, from: &str, to: &str) -> Result<(), VfsError>;

    fn copy_file(&self, from: &str, to: &str) -> Result<u64, VfsError>;

    fn trash(&self, path: &str) -> Result<String, VfsError>;

    fn read_limited(&self, path: &str, maximum_bytes: usize) -> Result<Vec<u8>, VfsError>;

    fn write_file(&self, path: &str, content: &[u8]) -> Result<u64, VfsError>;

    fn chmod(&self, path: &str, mode: u32) -> Result<(), VfsError>;

    fn search(&self, path: &str, query: &str, maximum_results: usize) -> Result<
        Vec<VfsEntry>,
        VfsError,
    >;
}

/// One operation of the typed local-file protocol.
#[derive(Clone, Debug)]
pub enum LocalFileOperation {
    List { path: String },
    Stat { path: String },
    CreateDirectory { path: String },
    Rename { from: String, to: String },
    CopyFile { from: String, to: String },
    Trash { path: String },
    ReadPreview { path: String, maximum_bytes: usize },
    WriteFile { path: String, content: Vec<u8> },
    Chmod { path: String, mode: u32 },
    Search { path: String, query: String, maximum_results: usize },
    /// Virtual paths of the files/directories to include, preserved
    /// relative to the root inside the archive.
    CreateArchive {
        sources: Vec<String>,
        destination: String,
        format: crate::archive::ArchiveFormat,
    },
    ExtractArchive { archive: String, destination: String, format: crate::archive::ArchiveFormat },
    ReadAcl { path: String },
    SetAcl { path: String, entries: Vec<crate::acl::AclEntry> },
}

/// The result of one local-file operation.
#[derive(Clone, Debug)]
pub enum LocalFileResult {
    Entries { entries: Vec<VfsEntry>, capabilities: Vec<ProviderFeature> },
    Entry { entry: VfsEntry },
    Complete,
    Copied { bytes: u64 },
    Trashed { path: String },
    Preview { bytes: Vec<u8> },
    Written { bytes: u64 },
    SearchResults { entries: Vec<VfsEntry> },
    ArchiveCreated { path: String, entries: u64, bytes: u64 },
    ArchiveExtracted { entries: u64, bytes: u64 },
    Acl { entries: Vec<crate::acl::AclEntry>, supported: bool },
}

/// The operations that change the filesystem.
pub open spec fn spec_requires_write(op: LocalFileOperation) -> bool {
    match op {
        LocalFileOperation::CreateDirectory { .. } | LocalFileOperation::Rename { .. }
        | LocalFileOperation::CopyFile { .. } | LocalFileOperation::Trash { .. }
        | LocalFileOperation::WriteFile { .. } | LocalFileOperation::Chmod { .. }
        | LocalFileOperation::CreateArchive { .. } | LocalFileOperation::ExtractArchive { .. }
        | LocalFileOperation::SetAcl { .. } => true,
        _ => false,
    }
}

impl LocalFileOperation {
    /// Whether this operation changes the filesystem, and so needs a
    /// writable root.
    pub fn requires_write(&self) -> (w: bool)
        ensures
            w == spec_requires_write(*self),
    {
        match self {
            LocalFileOperation::CreateDirectory { .. } | LocalFileOperation::Rename { .. }
            | LocalFileOperation::CopyFile { .. } | LocalFileOperation::Trash { .. }
            | LocalFileOperation::WriteFile { .. } | LocalFileOperation::Chmod { .. }
            | LocalFileOperation::CreateArchive { .. } | LocalFileOperation::ExtractArchive { .. }
            | LocalFileOperation::SetAcl { .. } => true,
            _ => false,
        }
    }
}

/// The features of a local root: read always; write, trash, ownership,
/// permissions, ACLs and resumable upload only when it is writable.
pub open spec fn spec_local_capabilities(writable: bool) -> Seq<ProviderFeature> {
    if writable {
        seq![
            ProviderFeature::Read,
            ProviderFeature::Write,
            ProviderFeature::Trash,
            ProviderFeature::Ownership,
            ProviderFeature::Permissions,
            ProviderFeature::Acl,
            ProviderFeature::ResumableUpload,
        ]
    } else {
        seq![ProviderFeature::Read]
    }
}

/// The features a local root offers.
pub fn local_capabilities(writable: bool) -> (features: Vec<ProviderFeature>)
    ensures
        features@ == spec_local_capabilities(writable),
{
    let mut features = Vec::new();
    features.push(ProviderFeature::Read);
    if writable {
        features.push(ProviderFeature::Write);
        features.push(ProviderFeature::Trash);
        features.push(ProviderFeature::Ownership);
        features.push(ProviderFeature::Permissions);
        features.push(ProviderFeature::Acl);
        features.push(ProviderFeature::ResumableUpload);
    }
    proof {
        if writable {
            assert(features@ =~= spec_local_capabilities(writable));
        } else {
            assert(features@ =~= spec_local_capabilities(writable));
        }
    }
    features
}

/// A mutation on a read-only root is refused before any path is touched.
pub fn require_write(writable: bool) -> (res: Result<(), VfsError>)
    ensures
        writable <==> res is Ok,
        res is Err ==> (res matches Err(VfsError::ReadOnly)),
{
    if writable {
        Ok(())
    } else {
        Err(VfsError::ReadOnly)
    }
}

/// The kind an entry is listed as: a symlink is never followed, so it is
/// reported as such whatever it points to.
pub fn entry_kind(is_symlink: bool, is_dir: bool, is_file: bool) -> (k: EntryKind)
    ensures
        k == (if is_symlink {
            EntryKind::Symlink
        } else if is_dir {
            EntryKind::Directory
        } else if is_file {
            EntryKind::File
        } else {
            EntryKind::Other
        }),
{
    if is_symlink {
        EntryKind::Symlink
    } else if is_dir {
        EntryKind::Directory
    } else if is_file {
        EntryKind::File
    } else {
        EntryKind::Other
    }
}

/// The largest preview the typed protocol returns, in bytes.
pub const MAX_PREVIEW_BYTES: usize = 12288;

/// The byte limit a preview read uses: the request, capped at 12 KiB.
pub fn preview_limit(maximum_bytes: usize) -> (n: usize)
    ensures
        n == (if maximum_bytes < MAX_PREVIEW_BYTES {
            maximum_bytes
        } else {
            MAX_PREVIEW_BYTES
        }),
{
    if maximum_bytes < MAX_PREVIEW_BYTES {
        maximum_bytes
    } else {
        MAX_PREVIEW_BYTES
    }
}

/// How many search results are collected: the request, kept within 1 to
/// 200.
pub fn search_limit(maximum_results: usize) -> (n: usize)
    ensures
        n == (if maximum_results < 1 {
            1
        } else if maximum_results > 200 {
            200
        } else {
            maximum_results
        }),
{
    if maximum_results < 1 {
        1
    } else if maximum_results > 200 {
        200
    } else {
        maximum_results
    }
}

/// Directories waiting to be searched are bounded by this many.
pub const MAX_SEARCH_PENDING_DIRECTORIES: usize = 100;

/// The permission bits `chmod` may set: the low twelve.
pub fn chmod_mode(mode: u32) -> (m: u32)
    ensures
        m == mode & 0o7777,
{
    mode & 0o7777
}

/// Whether a file of `len` bytes fits a read limited to `maximum_bytes`.
pub fn fits_read_limit(len: u64, maximum_bytes: usize) -> (ok: bool)
    ensures
        ok == (len <= maximum_bytes),
{
    len <= maximum_bytes as u64
}

} // verus!

verus! {

proof fn lemma_named_only_all(parts: Seq<Seq<char>>)
    requires
        forall|i: int| 0 <= i < parts.len() ==> is_named_component(#[trigger] parts[i]),
    ensures
        named_only(parts) == parts,
    decreases parts.len(),
{
    if parts.len() > 0 {
        let init = parts.drop_last();
        assert forall|i: int| 0 <= i < init.len() implies is_named_component(#[trigger] init[i]) by {
            assert(init[i] == parts[i]);
        }
        lemma_named_only_all(init);
        lemma_named_only_push(init, parts.last());
        assert(init.push(parts.last()) =~= parts);
    } else {
        assert(named_only(parts) =~= parts);
    }
}

/// Normalizing a normalized path changes nothing: its pieces are exactly
/// the named components it was joined from, none of them `..`.
pub proof fn lemma_normalize_is_idempotent(path: Seq<char>, allow_root: bool)
    ensures
        spec_normalize(path, allow_root) matches Ok(q) ==> spec_normalize(q, allow_root) == Ok::<
            Seq<char>,
            (),
        >(q),
{
    if !path.contains('\0') && !split_on(path, '/').contains(parent_ref()) {
        let pieces = split_on(path, '/');
        let comps = path_components(path);
        if comps.len() == 0 {
            if allow_root {
                let dot = seq!['.'];
                assert(split_on(dot, '/') =~= seq![dot]) by {
                    crate::text::lemma_split_on_append_plain(Seq::empty(), dot, '/');
                    assert(Seq::<char>::empty() + dot =~= dot);
                    assert(split_on(Seq::<char>::empty(), '/') =~= seq![Seq::<char>::empty()]);
                    assert(Seq::<char>::empty() + dot =~= dot);
                }
                lemma_named_only_push(Seq::<Seq<char>>::empty(), dot);
                assert(seq![dot] =~= Seq::<Seq<char>>::empty().push(dot));
                assert(named_only(Seq::<Seq<char>>::empty()) =~= Seq::<Seq<char>>::empty());
                assert(!dot.contains('\0'));
                assert(!seq![dot].contains(parent_ref())) by {
                    assert(seq![dot][0] != parent_ref());
                }
            }
        } else {
            let pred = |p: Seq<char>| is_named_component(p);
            crate::text::lemma_split_on_no_sep(path, '/');
            crate::text::lemma_split_on_absent(path, '/', '\0');
            assert forall|i: int| 0 <= i < comps.len() implies {
                &&& !(#[trigger] comps[i]).contains('/')
                &&& !comps[i].contains('\0')
                &&& is_named_component(comps[i])
                &&& comps[i] != parent_ref()
            } by {
                pieces.lemma_filter_contains_rev(pred, comps[i]);
                assert(comps.contains(comps[i]));
                let k = choose|k: int| 0 <= k < pieces.len() && pieces[k] == comps[i];
                assert(pieces.contains(pieces[k]));
            }
            let q = join_with(comps, seq!['/']);
            crate::text::lemma_split_join(comps, '/');
            lemma_named_only_all(comps);
            crate::text::lemma_join_absent(comps, seq!['/'], '\0');
            assert(!split_on(q, '/').contains(parent_ref())) by {
                if comps.contains(parent_ref()) {
                    let k = choose|k: int| 0 <= k < comps.len() && comps[k] == parent_ref();
                    assert(comps[k] != parent_ref());
                }
            }
        }
    }
}

} // verus!

verus! {

/// Listing order: directories before everything else, then by lowercase
/// name (code point order).
pub open spec fn listed_before(a: VfsEntry, b: VfsEntry) -> bool {
    let ad = a.kind == EntryKind::Directory;
    let bd = b.kind == EntryKind::Directory;
    (ad && !bd) || (ad == bd && lex_le(lowercase_of(a.name@), lowercase_of(b.name@)))
}

/// Every entry comes no later than the ones after it.
pub open spec fn listing_sorted(s: Seq<VfsEntry>) -> bool {
    forall|i: int, j: int| 0 <= i < j < s.len() ==> listed_before(#[trigger] s[i], #[trigger] s[j])
}

proof fn lemma_listed_before_total(a: VfsEntry, b: VfsEntry)
    ensures
        listed_before(a, b) || listed_before(b, a),
{
    lemma_lex_le_total(lowercase_of(a.name@), lowercase_of(b.name@));
}

proof fn lemma_listed_before_transitive(a: VfsEntry, b: VfsEntry, c: VfsEntry)
    requires
        listed_before(a, b),
        listed_before(b, c),
    ensures
        listed_before(a, c),
{
    let ad = a.kind == EntryKind::Directory;
    let bd = b.kind == EntryKind::Directory;
    let cd = c.kind == EntryKind::Directory;
    if ad == bd && bd == cd {
        lemma_lex_le_transitive(lowercase_of(a.name@), lowercase_of(b.name@), lowercase_of(c.name@));
    }
}

fn listed_before_exec(a: &VfsEntry, b: &VfsEntry) -> (r: bool)
    ensures
        r == listed_before(*a, *b),
{
    let ad = matches!(a.kind, EntryKind::Directory);
    let bd = matches!(b.kind, EntryKind::Directory);
    if ad != bd {
        return ad;
    }
    let la = to_lowercase(a.name.as_str());
    let lb = to_lowercase(b.name.as_str());
    let x = chars_of(la.as_str());
    let y = chars_of(lb.as_str());
    lex_le_exec(x.as_slice(), y.as_slice())
}

/// Orders a directory listing: directories first, then by lowercase name.
/// The same entries come back, none lost or added.
pub fn sort_listing(entries: Vec<VfsEntry>) -> (sorted: Vec<VfsEntry>)
    ensures
        sorted@.to_multiset() == entries@.to_multiset(),
        listing_sorted(sorted@),
{
    broadcast use vstd::multiset::group_multiset_axioms;

    let ghost all = entries@;
    let mut rest = entries;
    let mut out: Vec<VfsEntry> = Vec::new();
    proof {
        assert(out@.to_multiset() =~= vstd::multiset::Multiset::<VfsEntry>::empty()) by {
            vstd::seq_lib::to_multiset_len(out@);
        }
        assert(out@.to_multiset().add(rest@.to_multiset()) =~= all.to_multiset());
    }
    while rest.len() > 0
        invariant
            out@.to_multiset().add(rest@.to_multiset()) == all.to_multiset(),
            listing_sorted(out@),
        decreases rest@.len(),
    {
        let ghost rest_before = rest@;
        let ghost out_before = out@;
        let x = rest.remove(0);
        let mut pos: usize = 0;
        while pos < out.len() && listed_before_exec(&out[pos], &x)
            invariant
                pos <= out@.len(),
                out@ == out_before,
                forall|k: int| 0 <= k < pos ==> listed_before(#[trigger] out@[k], x),
            decreases out@.len() - pos,
        {
            pos = pos + 1;
        }
        proof {
            if pos < out@.len() {
                lemma_listed_before_total(out@[pos as int], x);
                assert forall|k: int| pos <= k < out@.len() implies listed_before(x, #[trigger] out@[k]) by {
                    if k > pos {
                        assert(listed_before(out@[pos as int], out@[k]));
                        lemma_listed_before_transitive(x, out@[pos as int], out@[k]);
                    }
                }
            }
        }
        out.insert(pos, x);
        proof {
            assert forall|i: int, j: int| 0 <= i < j < out@.len() implies listed_before(
                #[trigger] out@[i],
                #[trigger] out@[j],
            ) by {
                if j < pos {
                    assert(out@[i] == out_before[i]);
                    assert(out@[j] == out_before[j]);
                } else if j == pos {
                    assert(out@[i] == out_before[i]);
                } else if i < pos {
                    assert(out@[i] == out_before[i]);
                    assert(out@[j] == out_before[j - 1]);
                } else if i == pos {
                    assert(out@[j] == out_before[j - 1]);
                } else {
                    assert(out@[i] == out_before[i - 1]);
                    assert(out@[j] == out_before[j - 1]);
                }
            }
            assert(rest_before.remove(0) == rest@);
            assert(out_before.insert(pos as int, x) == out@);
            vstd::seq_lib::to_multiset_insert(out_before, pos as int, x);
            vstd::seq_lib::to_multiset_remove(rest_before, 0);
            assert(rest_before.to_multiset().count(x) > 0) by {
                vstd::seq_lib::to_multiset_contains(rest_before, x);
                assert(rest_before.contains(x)) by {
                    assert(rest_before[0] == x);
                }
            }
            assert(out@.to_multiset().add(rest@.to_multiset()) =~= all.to_multiset());
        }
    }
    proof {
        assert(rest@ =~= Seq::<VfsEntry>::empty());
        assert(rest@.to_multiset() =~= vstd::multiset::Multiset::<VfsEntry>::empty()) by {
            vstd::seq_lib::to_multiset_len(rest@);
        }
        assert(out@.to_multiset() =~= all.to_multiset());
    }
    out
}

/// Whether a search for `query` matches the entry called `name`: the
/// lowercase name contains the lowercase query.
pub fn search_matches(name: &str, query: &str) -> (r: bool)
    ensures
        r == contains_text(lowercase_of(name@), lowercase_of(query@)),
{
    let n = to_lowercase(name);
    let q = to_lowercase(query);
    let nv = chars_of(n.as_str());
    let qv = chars_of(q.as_str());
    contains_text_exec(nv.as_slice(), qv.as_slice())
}

} // verus!

verus! {

/// Where a trashed entry goes, relative to the root.
pub open spec fn trash_destination(name: Seq<char>, now: int) -> Seq<char> {
    ".Trash/clouddesk/"@ + crate::lexical::int_text(now) + seq!['-'] + name
}

/// How `trash` moves an entry: from `source` to `destination` (both
/// relative to the root); `virtual_path` is what the caller is told.
pub struct TrashPlan {
    pub source: String,
    pub destination: String,
    pub virtual_path: String,
}

/// Plans moving the entry at `path` into the root's trash directory under
/// a name stamped with the current time. Refused on a read-only root, for
/// a path that does not normalize, and for one without a final name.
pub fn trash_plan(writable: bool, path: &str, now: i64) -> (r: Result<TrashPlan, VfsError>)
    ensures
        match r {
            Ok(p) => writable && match normalized(path@, false) {
                Ok(src) => p.source@ == src && match crate::ospath::spec_file_name(src) {
                    Some(name) => p.destination@ == trash_destination(name, now as int)
                        && p.virtual_path@ == seq!['/'] + p.destination@,
                    None => false,
                },
                Err(_) => false,
            },
            Err(e) => if !writable {
                e is ReadOnly
            } else {
                match normalized(path@, false) {
                    Err(e2) => e == e2,
                    Ok(src) => crate::ospath::spec_file_name(src) is None && e is InvalidPath,
                }
            },
        },
{
    if !writable {
        return Err(VfsError::ReadOnly);
    }
    let source = match normalize_virtual_path(path, false) {
        Ok(s) => s,
        Err(e) => return Err(e),
    };
    let name = match crate::ospath::file_name(source.as_str()) {
        Some(n) => n,
        None => return Err(VfsError::InvalidPath),
    };
    let mut d = chars_of(".Trash/clouddesk/");
    crate::lexical::push_i64(now, &mut d);
    d.push('-');
    let nv = chars_of(name.as_str());
    append_chars(&mut d, nv.as_slice());
    let mut v: Vec<char> = Vec::new();
    v.push('/');
    append_chars(&mut v, d.as_slice());
    proof {
        assert(v@ =~= seq!['/'] + d@);
    }
    Ok(TrashPlan { source, destination: string_of(d.as_slice()), virtual_path: string_of(v.as_slice()) })
}

} // verus!

verus! {

/// The text a provider error is reported with.
pub open spec fn spec_vfs_message(e: VfsError) -> Seq<char> {
    match e {
        VfsError::Traversal => "path traversal is not allowed"@,
        VfsError::InvalidPath => "path is invalid"@,
        VfsError::NonUtf8Name => "non-UTF-8 names are not supported by the web API"@,
        VfsError::ReadOnly => "provider is read-only"@,
        VfsError::SymlinkReadDenied => "direct reads through symbolic links are denied"@,
        VfsError::TooLarge => "file exceeds the requested size limit"@,
        VfsError::Io(m) => "filesystem operation failed: "@ + m@,
        VfsError::UnsafeArchiveEntry(m) => "archive entry uses an unsafe path: "@ + m@,
        VfsError::ArchiveEntryLinkDenied => "archive entry is a symlink or hard link, which is not permitted"@,
        VfsError::ArchiveQuotaExceeded => "archive exceeds the configured extraction quota"@,
        VfsError::InvalidArchive(m) => "archive is malformed or unsupported: "@ + m@,
        VfsError::EmptyArchiveSelection => "no sources were selected for the archive"@,
        VfsError::Unsupported => "operation is not supported on this filesystem"@,
        VfsError::InvalidAclEntry(m) => "invalid ACL entry: "@ + m@,
    }
}

fn text_of(s: &str) -> (r: String)
    ensures
        r@ == s@,
{
    string_of(chars_of(s).as_slice())
}

fn prefixed(prefix: &str, m: &String) -> (r: String)
    ensures
        r@ == prefix@ + m@,
{
    let mut v = chars_of(prefix);
    append_chars(&mut v, chars_of(m.as_str()).as_slice());
    string_of(v.as_slice())
}

impl VfsError {
    /// The error's message.
    pub fn message(&self) -> (m: String)
        ensures
            m@ == spec_vfs_message(*self),
    {
        match self {
            VfsError::Traversal => text_of("path traversal is not allowed"),
            VfsError::InvalidPath => text_of("path is invalid"),
            VfsError::NonUtf8Name => text_of("non-UTF-8 names are not supported by the web API"),
            VfsError::ReadOnly => text_of("provider is read-only"),
            VfsError::SymlinkReadDenied => text_of("direct reads through symbolic links are denied"),
            VfsError::TooLarge => text_of("file exceeds the requested size limit"),
            VfsError::Io(m) => prefixed("filesystem operation failed: ", m),
            VfsError::UnsafeArchiveEntry(m) => prefixed("archive entry uses an unsafe path: ", m),
            VfsError::ArchiveEntryLinkDenied => text_of(
                "archive entry is a symlink or hard link, which is not permitted",
            ),
            VfsError::ArchiveQuotaExceeded => text_of("archive exceeds the configured extraction quota"),
            VfsError::InvalidArchive(m) => prefixed("archive is malformed or unsupported: ", m),
            VfsError::EmptyArchiveSelection => text_of("no sources were selected for the archive"),
            VfsError::Unsupported => text_of("operation is not supported on this filesystem"),
            VfsError::InvalidAclEntry(m) => prefixed("invalid ACL entry: ", m),
        }
    }
}

} // verus!

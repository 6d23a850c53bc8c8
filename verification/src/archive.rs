//! Archive entry rules: which entry names may be materialized, and the
//! bounds that stop a decompression bomb.

use vstd::prelude::*;
use crate::text::{append_chars, chars_of, contains_char, join_with, spec_is_ascii_alphabetic, is_ascii_alphabetic, split_on, string_of, lex_le, lex_le_exec, lemma_lex_le_total, lemma_lex_le_transitive};
use crate::vfs::{lemma_normalize_is_idempotent, normalize_components, normalize_virtual_path, normalized, parent_ref, path_components, spec_normalize, VfsError};

verus! {

#[derive(Clone, Copy, Debug, PartialEq, Eq)]
pub enum ArchiveFormat {
    Zip,
    TarGz,
}

#[derive(Clone, Copy, Debug, PartialEq, Eq, Default)]
pub struct ArchiveOutcome {
    pub entries: u64,
    pub bytes: u64,
}

/// Entries beyond this count abort the extraction.
pub const MAX_EXTRACT_ENTRIES: u64 = 100_000;

/// Decompressed bytes beyond this abort the extraction.
pub const MAX_EXTRACT_BYTES: u64 = 4_294_967_296;

/// Whether an archive entry name must be refused: empty, NUL, backslash,
/// a drive-letter prefix, an absolute path, a `..` piece, or nothing left
/// once `.` pieces are dropped.
pub open spec fn is_unsafe_entry_name(raw: Seq<char>) -> bool {
    ||| raw.len() == 0
    ||| raw.contains('\0')
    ||| raw.contains('\\')
    ||| (raw.len() >= 2 && raw[1] == ':' && spec_is_ascii_alphabetic(raw[0]))
    ||| raw[0] == '/'
    ||| split_on(raw, '/').contains(parent_ref())
    ||| path_components(raw).len() == 0
}

/// Validates an archive entry name and returns it as a path relative to
/// the extraction destination.
pub fn safe_entry_path(raw: &str) -> (res: Result<String, VfsError>)
    ensures
        is_unsafe_entry_name(raw@) ==> (res matches Err(VfsError::UnsafeArchiveEntry(name))
            && name@ == raw@),
        !is_unsafe_entry_name(raw@) ==> (res matches Ok(p) && p@ == join_with(
            path_components(raw@),
            seq!['/'],
        )),
{
    let v = chars_of(raw);
    if v.len() == 0 || contains_char(&v, '\0') || contains_char(&v, '\\') || (v.len() >= 2
        && v[1] == ':' && is_ascii_alphabetic(v[0])) || v[0] == '/' {
        return Err(VfsError::UnsafeArchiveEntry(string_of(v.as_slice())));
    }
    match normalize_components(&v) {
        Some(p) => {
            if p.len() == 0 {
                return Err(VfsError::UnsafeArchiveEntry(string_of(v.as_slice())));
            }
            Ok(string_of(p.as_slice()))
        },
        None => Err(VfsError::UnsafeArchiveEntry(string_of(v.as_slice()))),
    }
}

/// The text of each string.
pub open spec fn texts(v: Seq<String>) -> Seq<Seq<char>> {
    v.map_values(|x: String| x@)
}

/// Every source normalized in turn, or the error of the first one that
/// cannot be.
pub open spec fn normalize_all(sources: Seq<Seq<char>>) -> Result<Seq<Seq<char>>, VfsError>
    decreases sources.len(),
{
    if sources.len() == 0 {
        Ok(Seq::empty())
    } else {
        match normalize_all(sources.drop_last()) {
            Err(e) => Err(e),
            Ok(done) => match normalized(sources.last(), false) {
                Err(e) => Err(e),
                Ok(p) => Ok(done.push(p)),
            },
        }
    }
}

/// What creating an archive checks before it writes anything: a writable
/// root, at least one source, then the destination and each source as
/// virtual paths, in that order.
pub open spec fn spec_create_plan(writable: bool, sources: Seq<Seq<char>>, destination: Seq<char>)
    -> Result<(Seq<char>, Seq<Seq<char>>), VfsError> {
    if !writable {
        Err(VfsError::ReadOnly)
    } else if sources.len() == 0 {
        Err(VfsError::EmptyArchiveSelection)
    } else {
        match normalized(destination, false) {
            Err(e) => Err(e),
            Ok(d) => match normalize_all(sources) {
                Err(e) => Err(e),
                Ok(v) => Ok((d, v)),
            },
        }
    }
}

/// Checks an archive creation request and returns the destination and
/// the sources as paths relative to the root.
pub fn create_archive_plan(writable: bool, sources: &[String], destination: &str) -> (r: Result<
    (String, Vec<String>),
    VfsError,
>)
    ensures
        match r {
            Ok((d, v)) => spec_create_plan(writable, texts(sources@), destination@) matches Ok(
                (sd, sv),
            ) && d@ == sd && texts(v@) == sv,
            Err(e) => spec_create_plan(writable, texts(sources@), destination@) == Err::<
                (Seq<char>, Seq<Seq<char>>),
                VfsError,
            >(e),
        },
{
    if !writable {
        return Err(VfsError::ReadOnly);
    }
    if sources.len() == 0 {
        return Err(VfsError::EmptyArchiveSelection);
    }
    let d = match normalize_virtual_path(destination, false) {
        Ok(d) => d,
        Err(e) => return Err(e),
    };
    let ghost all = texts(sources@);
    let mut out: Vec<String> = Vec::new();
    let mut i: usize = 0;
    proof {
        assert(all.take(0) =~= Seq::<Seq<char>>::empty());
        assert(texts(out@) =~= Seq::<Seq<char>>::empty());
    }
    while i < sources.len()
        invariant
            i <= sources@.len(),
            all == texts(sources@),
            all.len() == sources@.len(),
            writable,
            sources@.len() > 0,
            normalized(destination@, false) matches Ok(t) && t == d@,
            normalize_all(all.take(i as int)) matches Ok(done) && done == texts(out@),
        decreases sources@.len() - i,
    {
        proof {
            assert(all.take(i + 1).drop_last() =~= all.take(i as int));
            assert(all.take(i + 1).last() == sources@[i as int]@);
        }
        match normalize_virtual_path(sources[i].as_str(), false) {
            Ok(p) => {
                out.push(p);
                proof {
                    assert(texts(out@) =~= texts(out@).drop_last().push(p@));
                }
            },
            Err(e) => {
                proof {
                    lemma_normalize_all_err_prefix(all, (i + 1) as int);
                }
                return Err(e);
            },
        }
        i = i + 1;
    }
    proof {
        assert(all.take(i as int) =~= all);
    }
    Ok((d, out))
}

/// An error met on a prefix of the sources is the error of them all.
proof fn lemma_normalize_all_err_prefix(all: Seq<Seq<char>>, k: int)
    requires
        0 <= k <= all.len(),
        normalize_all(all.take(k)) is Err,
    ensures
        normalize_all(all) == normalize_all(all.take(k)),
    decreases all.len() - k,
{
    if k == all.len() {
        assert(all.take(k) =~= all);
    } else {
        assert(all.take(k + 1).drop_last() =~= all.take(k));
        lemma_normalize_all_err_prefix(all, k + 1);
    }
}

/// What extracting an archive checks before it writes anything: a
/// writable root, the archive path (not the root), then the destination
/// (the root allowed).
pub open spec fn spec_extract_plan(writable: bool, archive: Seq<char>, destination: Seq<char>)
    -> Result<(Seq<char>, Seq<char>), VfsError> {
    if !writable {
        Err(VfsError::ReadOnly)
    } else {
        match normalized(archive, false) {
            Err(e) => Err(e),
            Ok(a) => match normalized(destination, true) {
                Err(e) => Err(e),
                Ok(d) => Ok((a, d)),
            },
        }
    }
}

/// Checks an extraction request and returns the archive and the
/// destination as paths relative to the root.
pub fn extract_archive_plan(writable: bool, archive: &str, destination: &str) -> (r: Result<
    (String, String),
    VfsError,
>)
    ensures
        match r {
            Ok((a, d)) => spec_extract_plan(writable, archive@, destination@) matches Ok((sa, sd))
                && a@ == sa && d@ == sd,
            Err(e) => spec_extract_plan(writable, archive@, destination@) == Err::<
                (Seq<char>, Seq<char>),
                VfsError,
            >(e),
        },
{
    if !writable {
        return Err(VfsError::ReadOnly);
    }
    let a = match normalize_virtual_path(archive, false) {
        Ok(a) => a,
        Err(e) => return Err(e),
    };
    let d = match normalize_virtual_path(destination, true) {
        Ok(d) => d,
        Err(e) => return Err(e),
    };
    Ok((a, d))
}

/// Adds `read` freshly decompressed bytes to the running total, refusing
/// once the total passes the extraction quota. The count is of bytes
/// really read, never of a size the archive declares.
pub fn add_extracted_bytes(running_total: u64, read: u64) -> (r: Result<u64, VfsError>)
    ensures
        running_total + read <= MAX_EXTRACT_BYTES ==> r == Ok::<u64, VfsError>(
            (running_total + read) as u64,
        ),
        running_total + read > MAX_EXTRACT_BYTES ==> r matches Err(VfsError::ArchiveQuotaExceeded),
{
    if read > MAX_EXTRACT_BYTES || running_total > MAX_EXTRACT_BYTES - read {
        Err(VfsError::ArchiveQuotaExceeded)
    } else {
        Ok(running_total + read)
    }
}

/// What kind of thing an archive entry would materialize.
#[derive(Clone, Copy, Debug, PartialEq, Eq)]
pub enum ArchiveEntryType {
    File,
    Directory,
    Symlink,
    HardLink,
    /// A device node, a FIFO or anything else that is not a plain file.
    Other,
}

/// Where an admitted entry is written, relative to the destination.
#[derive(Clone, Debug, PartialEq, Eq)]
pub enum ExtractTarget {
    Directory(String),
    File(String),
}

/// The safe relative path of an entry name that passed the checks.
pub open spec fn entry_path(raw: Seq<char>) -> Seq<char> {
    join_with(path_components(raw), seq!['/'])
}

/// A zip archive with more entries than the quota is refused before any
/// entry is read.
pub fn check_zip_entry_count(len: usize) -> (r: Result<(), VfsError>)
    ensures
        len <= MAX_EXTRACT_ENTRIES <==> r is Ok,
        r is Err ==> r matches Err(VfsError::ArchiveQuotaExceeded),
{
    if len as u64 > MAX_EXTRACT_ENTRIES {
        Err(VfsError::ArchiveQuotaExceeded)
    } else {
        Ok(())
    }
}

/// Admits one zip entry: a symlink is refused, the name must be safe, and
/// the entry becomes a directory or a file under the destination.
pub fn zip_entry_target(is_symlink: bool, is_dir: bool, name: &str) -> (r: Result<
    ExtractTarget,
    VfsError,
>)
    ensures
        is_symlink ==> r matches Err(VfsError::ArchiveEntryLinkDenied),
        !is_symlink && is_unsafe_entry_name(name@) ==> (r matches Err(
            VfsError::UnsafeArchiveEntry(n),
        ) && n@ == name@),
        !is_symlink && !is_unsafe_entry_name(name@) && is_dir ==> (r matches Ok(
            ExtractTarget::Directory(p),
        ) && p@ == entry_path(name@)),
        !is_symlink && !is_unsafe_entry_name(name@) && !is_dir ==> (r matches Ok(
            ExtractTarget::File(p),
        ) && p@ == entry_path(name@)),
{
    if is_symlink {
        return Err(VfsError::ArchiveEntryLinkDenied);
    }
    let p = match safe_entry_path(name) {
        Ok(p) => p,
        Err(e) => return Err(e),
    };
    if is_dir {
        Ok(ExtractTarget::Directory(p))
    } else {
        Ok(ExtractTarget::File(p))
    }
}

/// Admits one tar entry, counting it first: past the entry quota the
/// extraction stops; links are refused; the name must be safe; a
/// directory or a plain file is materialized, anything else is refused.
/// Returns the new entry count with the target.
pub fn tar_entry_step(entries_before: u64, kind: ArchiveEntryType, raw: &str) -> (r: Result<
    (u64, ExtractTarget),
    VfsError,
>)
    ensures
        entries_before >= MAX_EXTRACT_ENTRIES ==> r matches Err(VfsError::ArchiveQuotaExceeded),
        entries_before < MAX_EXTRACT_ENTRIES && (kind == ArchiveEntryType::Symlink || kind
            == ArchiveEntryType::HardLink) ==> r matches Err(VfsError::ArchiveEntryLinkDenied),
        entries_before < MAX_EXTRACT_ENTRIES && kind != ArchiveEntryType::Symlink && kind
            != ArchiveEntryType::HardLink && is_unsafe_entry_name(raw@) ==> (r matches Err(
            VfsError::UnsafeArchiveEntry(n),
        ) && n@ == raw@),
        entries_before < MAX_EXTRACT_ENTRIES && kind == ArchiveEntryType::Other
            && !is_unsafe_entry_name(raw@) ==> r matches Err(VfsError::ArchiveEntryLinkDenied),
        entries_before < MAX_EXTRACT_ENTRIES && kind == ArchiveEntryType::Directory
            && !is_unsafe_entry_name(raw@) ==> (r matches Ok((n, ExtractTarget::Directory(p)))
            && n == entries_before + 1 && p@ == entry_path(raw@)),
        entries_before < MAX_EXTRACT_ENTRIES && kind == ArchiveEntryType::File
            && !is_unsafe_entry_name(raw@) ==> (r matches Ok((n, ExtractTarget::File(p))) && n
            == entries_before + 1 && p@ == entry_path(raw@)),
{
    if entries_before >= MAX_EXTRACT_ENTRIES {
        return Err(VfsError::ArchiveQuotaExceeded);
    }
    let count = entries_before + 1;
    match kind {
        ArchiveEntryType::Symlink | ArchiveEntryType::HardLink => {
            return Err(VfsError::ArchiveEntryLinkDenied);
        },
        _ => {},
    }
    let p = match safe_entry_path(raw) {
        Ok(p) => p,
        Err(e) => return Err(e),
    };
    match kind {
        ArchiveEntryType::Directory => Ok((count, ExtractTarget::Directory(p))),
        ArchiveEntryType::File => Ok((count, ExtractTarget::File(p))),
        _ => Err(VfsError::ArchiveEntryLinkDenied),
    }
}

/// An admitted entry cannot leave the destination: its relative path is
/// already normalized (normalizing it again changes nothing), not empty,
/// and without any `..` piece.
pub proof fn lemma_admitted_entry_stays_inside(raw: Seq<char>)
    requires
        !is_unsafe_entry_name(raw),
    ensures
        spec_normalize(entry_path(raw), false) == Ok::<Seq<char>, ()>(entry_path(raw)),
        !split_on(entry_path(raw), '/').contains(parent_ref()),
        path_components(entry_path(raw)).len() > 0,
{
    assert(spec_normalize(raw, false) == Ok::<Seq<char>, ()>(entry_path(raw)));
    lemma_normalize_is_idempotent(raw, false);
}

} // verus!

verus! {

/// What archive creation does with one entry of a selected tree.
#[derive(Clone, Copy, Debug, PartialEq, Eq)]
pub enum WalkStep {
    /// A symlink: neither followed nor added.
    SkipSymlink,
    /// A directory: added, then its children walked.
    Directory,
    /// Anything else: added as a file.
    File,
}

/// Archive creation never follows a symlink: it is skipped whatever it
/// points to; directories are descended into; the rest are files.
pub fn walk_step(is_symlink: bool, is_dir: bool) -> (s: WalkStep)
    ensures
        s == (if is_symlink {
            WalkStep::SkipSymlink
        } else if is_dir {
            WalkStep::Directory
        } else {
            WalkStep::File
        }),
{
    if is_symlink {
        WalkStep::SkipSymlink
    } else if is_dir {
        WalkStep::Directory
    } else {
        WalkStep::File
    }
}


/// An entry's name in the archive: its relative path with every `\\`
/// turned into `/`.
pub open spec fn spec_entry_name(p: Seq<char>) -> Seq<char> {
    p.map_values(|c: char| if c == '\\' { '/' } else { c })
}

/// What the walk waits to be told next.
#[derive(Clone, Copy, Debug, PartialEq, Eq)]
pub enum WalkWait {
    /// What the entry being visited is.
    Inspection,
    /// That its directory entry was written, and its children's names.
    Directory,
    /// That the file was written, and its length.
    File,
}

/// The next thing archive creation does.
#[derive(Debug)]
pub enum WalkAction {
    /// Tell what the entry at `relative` is, its final symlink not
    /// followed.
    Inspect { relative: String },
    /// Write the directory entry `name`, then list the children of
    /// `relative`.
    AddDirectory { name: String, relative: String },
    /// Write the file at `relative` as the entry `name`.
    AddFile { name: String, relative: String },
    /// Every selected tree was walked; the archive holds this many entries
    /// and bytes.
    Finish(ArchiveOutcome),
}

/// What the filesystem and the archive writer report back.
#[derive(Debug)]
pub enum WalkEvent {
    Inspected { is_symlink: bool, is_dir: bool },
    /// The directory entry was written; the names of the directory's
    /// children, in any order.
    DirectoryAdded { children: Vec<String> },
    /// The file was written, `bytes` long.
    FileAdded { bytes: u64 },
}

/// The walk of archive creation over the selected trees: depth first,
/// a directory's children in name order, never through a symlink.
#[derive(Debug)]
pub struct ArchiveWalk {
    /// The entries still to visit, the next one last.
    pub pending: Vec<String>,
    /// The entry being visited.
    pub current: String,
    pub waiting: WalkWait,
    /// The entries and bytes written so far.
    pub outcome: ArchiveOutcome,
}

/// The event is of the kind the walk waits for.
pub open spec fn event_fits(w: WalkWait, e: WalkEvent) -> bool {
    match w {
        WalkWait::Inspection => e is Inspected,
        WalkWait::Directory => e is DirectoryAdded,
        WalkWait::File => e is FileAdded,
    }
}

/// `next` goes on from `pending` with `outcome`: it visits the last
/// pending entry, or finishes with `outcome` when none is left.
pub open spec fn moves_on(pending: Seq<Seq<char>>, outcome: ArchiveOutcome, next: ArchiveWalk, a: WalkAction) -> bool {
    &&& next.outcome == outcome
    &&& if pending.len() == 0 {
        a == WalkAction::Finish(outcome)
    } else {
        &&& texts(next.pending@) == pending.drop_last()
        &&& next.current@ == pending.last()
        &&& next.waiting == WalkWait::Inspection
        &&& (a matches WalkAction::Inspect { relative } && relative@ == pending.last())
    }
}

/// The children of `dir` to visit, the first name visited first.
pub open spec fn child_paths(dir: Seq<char>, names: Seq<String>) -> Seq<Seq<char>> {
    Seq::new(names.len(), |i: int| dir + seq!['/'] + names[names.len() - 1 - i]@)
}

/// Names in code point order, which is the byte order of their UTF-8
/// forms.
pub open spec fn names_sorted(s: Seq<String>) -> bool {
    forall|i: int, j: int| 0 <= i < j < s.len() ==> lex_le((#[trigger] s[i])@, (#[trigger] s[j])@)
}

/// Orders a directory's child names; the same names come back, none lost
/// or added.
pub fn sort_names(names: Vec<String>) -> (sorted: Vec<String>)
    ensures
        sorted@.to_multiset() == names@.to_multiset(),
        names_sorted(sorted@),
{
    broadcast use vstd::multiset::group_multiset_axioms;

    let ghost all = names@;
    let mut rest = names;
    let mut out: Vec<String> = Vec::new();
    proof {
        assert(out@.to_multiset() =~= vstd::multiset::Multiset::<String>::empty()) by {
            vstd::seq_lib::to_multiset_len(out@);
        }
        assert(out@.to_multiset().add(rest@.to_multiset()) =~= all.to_multiset());
    }
    while rest.len() > 0
        invariant
            out@.to_multiset().add(rest@.to_multiset()) == all.to_multiset(),
            names_sorted(out@),
        decreases rest@.len(),
    {
        let ghost rest_before = rest@;
        let ghost out_before = out@;
        let x = rest.remove(0);
        let xv = chars_of(x.as_str());
        let mut pos: usize = 0;
        while pos < out.len() && lex_le_exec(chars_of(out[pos].as_str()).as_slice(), xv.as_slice())
            invariant
                pos <= out@.len(),
                out@ == out_before,
                xv@ == x@,
                forall|k: int| 0 <= k < pos ==> lex_le((#[trigger] out@[k])@, x@),
            decreases out@.len() - pos,
        {
            pos = pos + 1;
        }
        proof {
            if pos < out@.len() {
                lemma_lex_le_total(out@[pos as int]@, x@);
                assert forall|k: int| pos <= k < out@.len() implies lex_le(x@, (#[trigger] out@[k])@) by {
                    if k > pos {
                        assert(lex_le(out@[pos as int]@, out@[k]@));
                        lemma_lex_le_transitive(x@, out@[pos as int]@, out@[k]@);
                    }
                }
            }
        }
        out.insert(pos, x);
        proof {
            assert forall|i: int, j: int| 0 <= i < j < out@.len() implies lex_le(
                (#[trigger] out@[i])@,
                (#[trigger] out@[j])@,
            ) by {
                if j < pos {
                    assert(out@[i] == out_before[i]);
                    assert(out@[j] == out_before[j]);
                } else if j == pos {
                    assert(out@[i] == out_before[i]);
                } else if i < pos {
                    assert(out@[i] == out_before[i]);
                    assert(out@[j] == out_before[j - 1]);
                } else if i == pos {
                    assert(out@[j] == out_before[j - 1]);
                } else {
                    assert(out@[i] == out_before[i - 1]);
                    assert(out@[j] == out_before[j - 1]);
                }
            }
            assert(rest_before.remove(0) == rest@);
            assert(out_before.insert(pos as int, x) == out@);
            vstd::seq_lib::to_multiset_insert(out_before, pos as int, x);
            vstd::seq_lib::to_multiset_remove(rest_before, 0);
            assert(rest_before.to_multiset().count(x) > 0) by {
                vstd::seq_lib::to_multiset_contains(rest_before, x);
                assert(rest_before.contains(x)) by {
                    assert(rest_before[0] == x);
                }
            }
            assert(out@.to_multiset().add(rest@.to_multiset()) =~= all.to_multiset());
        }
    }
    proof {
        assert(rest@ =~= Seq::<String>::empty());
        assert(rest@.to_multiset() =~= vstd::multiset::Multiset::<String>::empty()) by {
            vstd::seq_lib::to_multiset_len(rest@);
        }
        assert(out@.to_multiset() =~= all.to_multiset());
    }
    out
}

fn entry_name(p: &String) -> (r: String)
    ensures
        r@ == spec_entry_name(p@),
{
    let v = chars_of(p.as_str());
    let mut out: Vec<char> = Vec::new();
    let mut i: usize = 0;
    while i < v.len()
        invariant
            i <= v@.len(),
            out@ == spec_entry_name(v@.take(i as int)),
        decreases v@.len() - i,
    {
        let c = v[i];
        out.push(if c == '\\' { '/' } else { c });
        i = i + 1;
        proof {
            assert(v@.take(i as int) =~= v@.take(i - 1).push(c));
            assert(spec_entry_name(v@.take(i as int)) =~= spec_entry_name(v@.take(i - 1)).push(
                if c == '\\' { '/' } else { c },
            ));
        }
    }
    proof {
        assert(v@.take(v@.len() as int) =~= v@);
    }
    string_of(out.as_slice())
}

fn copy_text(s: &String) -> (r: String)
    ensures
        r@ == s@,
{
    string_of(chars_of(s.as_str()).as_slice())
}

fn below(dir: &String, name: &String) -> (r: String)
    ensures
        r@ == dir@ + seq!['/'] + name@,
{
    let mut v = chars_of(dir.as_str());
    v.push('/');
    append_chars(&mut v, chars_of(name.as_str()).as_slice());
    string_of(v.as_slice())
}

impl ArchiveWalk {
    /// Visits the last pending entry, or finishes.
    fn advance(pending: Vec<String>, outcome: ArchiveOutcome) -> (r: (ArchiveWalk, WalkAction))
        ensures
            moves_on(texts(pending@), outcome, r.0, r.1),
    {
        let mut pending = pending;
        let ghost before = texts(pending@);
        match pending.pop() {
            Some(current) => {
                proof {
                    assert(texts(pending@) =~= before.drop_last());
                }
                let a = WalkAction::Inspect { relative: copy_text(&current) };
                (ArchiveWalk { pending, current, waiting: WalkWait::Inspection, outcome }, a)
            },
            None => {
                let empty: Vec<char> = Vec::new();
                (
                    ArchiveWalk {
                        pending,
                        current: string_of(empty.as_slice()),
                        waiting: WalkWait::Inspection,
                        outcome,
                    },
                    WalkAction::Finish(outcome),
                )
            },
        }
    }

    /// Starts the walk over `sources`, the first visited first.
    pub fn new(sources: &Vec<String>) -> (r: (ArchiveWalk, WalkAction))
        ensures
            moves_on(sources@.reverse().map_values(|x: String| x@), ArchiveOutcome { entries: 0, bytes: 0 }, r.0, r.1),
    {
        let mut pending: Vec<String> = Vec::new();
        let n = sources.len();
        let mut i: usize = 0;
        while i < n
            invariant
                n == sources@.len(),
                i <= n,
                pending@.len() == i,
                forall|k: int| 0 <= k < i ==> (#[trigger] pending@[k])@ == sources@[n - 1 - k]@,
            decreases n - i,
        {
            pending.push(copy_text(&sources[n - 1 - i]));
            i = i + 1;
        }
        proof {
            assert(texts(pending@) =~= sources@.reverse().map_values(|x: String| x@));
        }
        ArchiveWalk::advance(pending, ArchiveOutcome { entries: 0, bytes: 0 })
    }

    /// Takes what was reported of the entry being visited. A symlink is
    /// passed over: no entry, no bytes. A directory gets an entry named by
    /// its path and `/`, then its children are visited in name order; any
    /// other entry is written as a file under its path. Each written entry
    /// counts once, each file its length.
    pub fn step(self, event: WalkEvent) -> (r: (ArchiveWalk, WalkAction))
        requires
            event_fits(self.waiting, event),
            event is DirectoryAdded ==> self.outcome.entries < u64::MAX,
            event matches WalkEvent::FileAdded { bytes } ==> self.outcome.entries < u64::MAX
                && self.outcome.bytes + bytes <= u64::MAX,
        ensures
            match event {
                WalkEvent::Inspected { is_symlink, is_dir } => if is_symlink {
                    moves_on(texts(self.pending@), self.outcome, r.0, r.1)
                } else {
                    &&& texts(r.0.pending@) == texts(self.pending@)
                    &&& r.0.current@ == self.current@
                    &&& r.0.outcome == self.outcome
                    &&& if is_dir {
                        &&& r.0.waiting == WalkWait::Directory
                        &&& r.1 matches WalkAction::AddDirectory { name, relative } && name@
                            == spec_entry_name(self.current@) + seq!['/'] && relative@ == self.current@
                    } else {
                        &&& r.0.waiting == WalkWait::File
                        &&& r.1 matches WalkAction::AddFile { name, relative } && name@ == spec_entry_name(
                            self.current@,
                        ) && relative@ == self.current@
                    }
                },
                WalkEvent::DirectoryAdded { children } => exists|sorted: Seq<String>|
                    #![trigger sorted.to_multiset()]
                    sorted.to_multiset() == children@.to_multiset() && names_sorted(sorted) && moves_on(
                        texts(self.pending@) + child_paths(self.current@, sorted),
                        ArchiveOutcome {
                            entries: (self.outcome.entries + 1) as u64,
                            bytes: self.outcome.bytes,
                        },
                        r.0,
                        r.1,
                    ),
                WalkEvent::FileAdded { bytes } => moves_on(
                    texts(self.pending@),
                    ArchiveOutcome {
                        entries: (self.outcome.entries + 1) as u64,
                        bytes: (self.outcome.bytes + bytes) as u64,
                    },
                    r.0,
                    r.1,
                ),
            },
    {
        let ArchiveWalk { mut pending, current, waiting, outcome } = self;
        match event {
            WalkEvent::Inspected { is_symlink, is_dir } => match walk_step(is_symlink, is_dir) {
                WalkStep::SkipSymlink => ArchiveWalk::advance(pending, outcome),
                WalkStep::Directory => {
                    let mut name = chars_of(entry_name(&current).as_str());
                    name.push('/');
                    let a = WalkAction::AddDirectory {
                        name: string_of(name.as_slice()),
                        relative: copy_text(&current),
                    };
                    (ArchiveWalk { pending, current, waiting: WalkWait::Directory, outcome }, a)
                },
                WalkStep::File => {
                    let a = WalkAction::AddFile { name: entry_name(&current), relative: copy_text(&current) };
                    (ArchiveWalk { pending, current, waiting: WalkWait::File, outcome }, a)
                },
            },
            WalkEvent::DirectoryAdded { children } => {
                let ghost given = children@;
                let children = sort_names(children);
                let ghost before = texts(pending@);
                let n = children.len();
                let mut i: usize = 0;
                while i < n
                    invariant
                        n == children@.len(),
                        i <= n,
                        texts(pending@) == before + child_paths(current@, children@).take(i as int),
                    decreases n - i,
                {
                    let child = below(&current, &children[n - 1 - i]);
                    let ghost old_p = pending@;
                    let ghost cv = child@;
                    pending.push(child);
                    proof {
                        assert(texts(pending@) =~= texts(old_p).push(cv));
                        assert(cv == child_paths(current@, children@)[i as int]);
                    }
                    i = i + 1;
                    proof {
                        assert(child_paths(current@, children@).take(i as int) =~= child_paths(
                            current@,
                            children@,
                        ).take(i - 1).push(child_paths(current@, children@)[i - 1]));
                        assert(texts(pending@) =~= before + child_paths(current@, children@).take(
                            i as int,
                        ));
                    }
                }
                proof {
                    assert(child_paths(current@, children@).take(n as int) =~= child_paths(
                        current@,
                        children@,
                    ));
                }
                let r = ArchiveWalk::advance(
                    pending,
                    ArchiveOutcome { entries: outcome.entries + 1, bytes: outcome.bytes },
                );
                proof {
                    assert(children@.to_multiset() == given.to_multiset());
                }
                r
            },
            WalkEvent::FileAdded { bytes } => ArchiveWalk::advance(
                pending,
                ArchiveOutcome { entries: outcome.entries + 1, bytes: outcome.bytes + bytes },
            ),
        }
    }
}

} // verus!

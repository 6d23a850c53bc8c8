//! Browser download bookkeeping: display names, quotas and progress.

use vstd::prelude::*;
use crate::text::{chars_of, is_control, skip_leading, slice_chars, spec_is_control, string_of, trim_start_char, trim_ws, trim_ws_exec};

verus! {

/// Production default: no single download may exceed this many bytes.
pub const DEFAULT_MAX_DOWNLOAD_BYTES: u64 = 524_288_000;

/// Production default: total staged download bytes per Browser session.
pub const DEFAULT_MAX_SESSION_DOWNLOAD_BYTES: u64 = 2_147_483_648;

/// Longest display name kept, in characters.
pub const MAX_FILENAME_CHARS: usize = 200;

pub open spec fn is_path_separator(c: char) -> bool {
    c == '/' || c == '\\'
}

/// The text after the last `/` or `\` of `s` (all of `s` if there is none).
pub open spec fn after_last_separator(s: Seq<char>) -> Seq<char>
    decreases s.len(),
{
    if s.len() == 0 {
        s
    } else if is_path_separator(s.last()) {
        Seq::empty()
    } else {
        after_last_separator(s.drop_last()).push(s.last())
    }
}

/// `s` with every control character removed.
pub open spec fn without_controls(s: Seq<char>) -> Seq<char> {
    s.filter(|c: char| !spec_is_control(c))
}

/// The replacement applied to each remaining character: separators,
/// colons and NUL become `_`.
pub open spec fn spec_replace_unsafe(c: char) -> char {
    if c == '/' || c == '\\' || c == ':' || c == '\0' {
        '_'
    } else {
        c
    }
}

/// The display name kept for a site-suggested download filename.
pub open spec fn spec_sanitize_download_filename(suggested: Seq<char>) -> Seq<char> {
    let cleaned = trim_start_char(trim_ws(without_controls(after_last_separator(suggested))), '.');
    let replaced = cleaned.map_values(|c: char| spec_replace_unsafe(c));
    let truncated = if replaced.len() <= 200 {
        replaced
    } else {
        replaced.take(200)
    };
    if trim_ws(truncated).len() == 0 {
        "download"@
    } else {
        truncated
    }
}

proof fn lemma_after_last_separator_suffix(s: Seq<char>, i: int)
    requires
        0 <= i <= s.len(),
        i == 0 || is_path_separator(s[i - 1]),
        forall|k: int| i <= k < s.len() ==> !is_path_separator(#[trigger] s[k]),
    ensures
        after_last_separator(s) == s.subrange(i, s.len() as int),
    decreases s.len(),
{
    if s.len() == 0 {
    } else if i == s.len() {
        assert(is_path_separator(s.last()));
        assert(s.subrange(i, s.len() as int) =~= Seq::<char>::empty());
    } else {
        assert(!is_path_separator(s.last()));
        lemma_after_last_separator_suffix(s.drop_last(), i);
        assert(s.subrange(i, s.len() as int) =~= s.drop_last().subrange(i, s.len() - 1).push(
            s.last(),
        ));
    }
}

proof fn lemma_without_controls_push(s: Seq<char>, c: char)
    ensures
        without_controls(s.push(c)) == (if spec_is_control(c) {
            without_controls(s)
        } else {
            without_controls(s).push(c)
        }),
{
    s.lemma_filter_push(c, |c: char| !spec_is_control(c));
}

/// Normalizes a site-supplied suggested filename into a safe display name:
/// only its last path component, no control characters, no surrounding
/// white space, no leading dots, no separators or colons, at most 200
/// characters, and `download` when nothing is left.
pub fn sanitize_download_filename(suggested: &str) -> (name: String)
    ensures
        name@ == spec_sanitize_download_filename(suggested@),
{
    let v = chars_of(suggested);
    let mut start = v.len();
    while start > 0 && !(v[start - 1] == '/' || v[start - 1] == '\\')
        invariant
            start <= v@.len(),
            forall|k: int| start <= k < v@.len() ==> !is_path_separator(#[trigger] v@[k]),
        decreases start,
    {
        start = start - 1;
    }
    proof {
        lemma_after_last_separator_suffix(v@, start as int);
    }
    let last = slice_chars(&v, start, v.len());
    let mut cleaned: Vec<char> = Vec::new();
    let mut i: usize = 0;
    while i < last.len()
        invariant
            i <= last@.len(),
            cleaned@ == without_controls(last@.take(i as int)),
        decreases last@.len() - i,
    {
        proof {
            assert(last@.take(i + 1) =~= last@.take(i as int).push(last@[i as int]));
            lemma_without_controls_push(last@.take(i as int), last@[i as int]);
        }
        if !is_control(last[i]) {
            cleaned.push(last[i]);
        }
        i = i + 1;
    }
    proof {
        assert(last@.take(last@.len() as int) =~= last@);
    }
    let trimmed = trim_ws_exec(&cleaned);
    let dots = skip_leading(&trimmed, '.');
    let mut out: Vec<char> = Vec::new();
    let mut j = dots;
    let ghost undotted = trimmed@.subrange(dots as int, trimmed@.len() as int);
    let ghost replaced = undotted.map_values(|c: char| spec_replace_unsafe(c));
    while j < trimmed.len() && out.len() < MAX_FILENAME_CHARS
        invariant
            dots <= j <= trimmed@.len(),
            undotted == trimmed@.subrange(dots as int, trimmed@.len() as int),
            replaced == undotted.map_values(|c: char| spec_replace_unsafe(c)),
            out@.len() == j - dots,
            out@.len() <= 200,
            out@ == replaced.take(j - dots),
        decreases trimmed@.len() - j,
    {
        let c = trimmed[j];
        let r = if c == '/' || c == '\\' || c == ':' || c == '\0' {
            '_'
        } else {
            c
        };
        out.push(r);
        j = j + 1;
        proof {
            assert(out@ =~= replaced.take(j - dots));
        }
    }
    proof {
        if replaced.len() <= 200 {
            assert(out@ =~= replaced);
        } else {
            assert(out@.len() == 200);
        }
    }
    let check = trim_ws_exec(&out);
    if check.len() == 0 {
        proof {
            reveal_strlit("download");
        }
        string_of(&chars_of("download"))
    } else {
        string_of(out.as_slice())
    }
}

} // verus!

verus! {

#[derive(Clone, Copy, Debug, PartialEq, Eq)]
pub enum DownloadStateKind {
    InProgress,
    Completed,
    Cancelled,
    Failed,
}

/// A download staged by the isolated browser.
#[derive(Clone, Debug)]
pub struct DownloadRecord {
    /// The browser's own opaque download id, also the public id.
    pub guid: String,
    pub suggested_filename: String,
    pub sanitized_filename: String,
    pub url: String,
    pub total_bytes: Option<u64>,
    pub received_bytes: u64,
    pub state: DownloadStateKind,
    pub failure_reason: Option<String>,
    /// Host-side staging path, never shown to a client.
    pub staging_path: String,
}

/// The per-download limit: the test override's first value, else the
/// production default.
pub fn max_download_bytes(test_override: Option<(u64, u64)>) -> (n: u64)
    ensures
        n == match test_override {
            Some((d, _)) => d,
            None => DEFAULT_MAX_DOWNLOAD_BYTES,
        },
{
    match test_override {
        Some((d, _)) => d,
        None => DEFAULT_MAX_DOWNLOAD_BYTES,
    }
}

/// The per-session limit: the test override's second value, else the
/// production default.
pub fn max_session_download_bytes(test_override: Option<(u64, u64)>) -> (n: u64)
    ensures
        n == match test_override {
            Some((_, s)) => s,
            None => DEFAULT_MAX_SESSION_DOWNLOAD_BYTES,
        },
{
    match test_override {
        Some((_, s)) => s,
        None => DEFAULT_MAX_SESSION_DOWNLOAD_BYTES,
    }
}

/// Sets the test-only quota override once; later calls change nothing.
pub fn set_test_quota_override(
    slot: &mut Option<(u64, u64)>,
    max_download_bytes: u64,
    max_session_bytes: u64,
)
    ensures
        *final(slot) == match *old(slot) {
            Some(v) => Some(v),
            None => Some((max_download_bytes, max_session_bytes)),
        },
{
    if slot.is_none() {
        *slot = Some((max_download_bytes, max_session_bytes));
    }
}

/// The browser's reported download state, as far as the broker tells
/// them apart.
#[derive(Clone, Copy, Debug, PartialEq, Eq)]
pub enum ReportedDownloadState {
    InProgress,
    Completed,
    Canceled,
    /// Any other report is treated as still in progress.
    Other,
}

/// Reads the browser's download state string.
pub fn reported_download_state(s: &str) -> (r: ReportedDownloadState)
    ensures
        r == (if s@ == "inProgress"@ {
            ReportedDownloadState::InProgress
        } else if s@ == "completed"@ {
            ReportedDownloadState::Completed
        } else if s@ == "canceled"@ {
            ReportedDownloadState::Canceled
        } else {
            ReportedDownloadState::Other
        }),
{
    let v = chars_of(s);
    if crate::text::is_text(&v, "inProgress") {
        ReportedDownloadState::InProgress
    } else if crate::text::is_text(&v, "completed") {
        ReportedDownloadState::Completed
    } else if crate::text::is_text(&v, "canceled") {
        ReportedDownloadState::Canceled
    } else {
        ReportedDownloadState::Other
    }
}

/// The event a progress report is published as.
#[derive(Clone, Copy, Debug, PartialEq, Eq)]
pub enum DownloadEvent {
    Completed,
    Failed,
    Progress,
}

/// What a progress report leads to: whether the download is cancelled for
/// exceeding a quota, and the event published (none for an unknown id).
#[derive(Clone, Copy, Debug, PartialEq, Eq)]
pub struct ProgressOutcome {
    pub cancel: bool,
    pub event: Option<DownloadEvent>,
}

/// The bytes the session holds once `guid` has received `received`.
pub open spec fn session_total(records: Seq<DownloadRecord>, guid: Seq<char>, received: u64) -> int
    decreases records.len(),
{
    if records.len() == 0 {
        0
    } else {
        session_total(records.drop_last(), guid, received) + if records.last().guid@ == guid {
            received as int
        } else {
            records.last().received_bytes as int
        }
    }
}

/// `i` is the first record whose id is `guid`.
pub open spec fn is_first_match(records: Seq<DownloadRecord>, guid: Seq<char>, i: int) -> bool {
    &&& 0 <= i < records.len()
    &&& records[i].guid@ == guid
    &&& forall|j: int| 0 <= j < i ==> #[trigger] records[j].guid@ != guid
}

/// No two records share a download id, as in a map keyed by it.
pub open spec fn guids_unique(records: Seq<DownloadRecord>) -> bool {
    forall|i: int, j: int|
        #![trigger records[i], records[j]]
        0 <= i < j < records.len() ==> records[i].guid@ != records[j].guid@
}

/// Records keeping every id in place keep the ids distinct.
proof fn lemma_same_guids_unique(a: Seq<DownloadRecord>, b: Seq<DownloadRecord>)
    requires
        a.len() == b.len(),
        forall|j: int| 0 <= j < a.len() ==> #[trigger] b[j].guid@ == a[j].guid@,
        guids_unique(a),
    ensures
        guids_unique(b),
{
    assert forall|i: int, j: int| 0 <= i < j < b.len() implies #[trigger] b[i].guid@ != #[trigger] b[j].guid@ by {
        assert(b[i].guid@ == a[i].guid@);
        assert(b[j].guid@ == a[j].guid@);
        assert(a[i].guid@ != a[j].guid@);
    }
}

/// No record has the id `guid`.
pub open spec fn no_match(records: Seq<DownloadRecord>, guid: Seq<char>) -> bool {
    forall|j: int| 0 <= j < records.len() ==> #[trigger] records[j].guid@ != guid
}

} // verus!

verus! {

/// The state a record takes from a report.
pub open spec fn spec_state_after(reported: ReportedDownloadState) -> DownloadStateKind {
    match reported {
        ReportedDownloadState::Completed => DownloadStateKind::Completed,
        ReportedDownloadState::Canceled => DownloadStateKind::Cancelled,
        _ => DownloadStateKind::InProgress,
    }
}

/// The event a report is published as.
pub open spec fn spec_event_after(reported: ReportedDownloadState) -> DownloadEvent {
    match reported {
        ReportedDownloadState::Completed => DownloadEvent::Completed,
        ReportedDownloadState::Canceled => DownloadEvent::Failed,
        _ => DownloadEvent::Progress,
    }
}

/// A report crosses a quota: the per-download one, or the per-session one
/// counted with the reporting download at its new size.
pub open spec fn over_quota(
    records: Seq<DownloadRecord>,
    guid: Seq<char>,
    received: u64,
    max_download: u64,
    max_session: u64,
) -> bool {
    received > max_download || session_total(records, guid, received) > max_session
}

/// `after` is `before` updated by a report: new size, the total when one
/// was reported, the reported state, and for a cancellation the reason.
pub open spec fn record_after_report(
    before: DownloadRecord,
    after: DownloadRecord,
    reported: ReportedDownloadState,
    received: u64,
    total: Option<u64>,
    over: bool,
) -> bool {
    &&& after.guid == before.guid
    &&& after.suggested_filename == before.suggested_filename
    &&& after.sanitized_filename == before.sanitized_filename
    &&& after.url == before.url
    &&& after.staging_path == before.staging_path
    &&& after.received_bytes == received
    &&& after.total_bytes == (if total is Some {
        total
    } else {
        before.total_bytes
    })
    &&& after.state == spec_state_after(reported)
    &&& if reported == ReportedDownloadState::Canceled {
        &&& after.failure_reason is Some
        &&& after.failure_reason->0@ == (if over {
            "quota exceeded"@
        } else {
            "cancelled"@
        })
    } else {
        after.failure_reason == before.failure_reason
    }
}

/// Applies a browser progress report for `guid`: decides whether the
/// download must be cancelled for exceeding the per-download or the
/// per-session quota while still in progress, and updates its record.
pub fn apply_download_progress(
    records: &mut Vec<DownloadRecord>,
    guid: &str,
    reported: ReportedDownloadState,
    received: u64,
    total: Option<u64>,
    max_download: u64,
    max_session: u64,
) -> (outcome: ProgressOutcome)
    requires
        session_total(old(records)@, guid@, received) <= u64::MAX,
    ensures
        outcome.cancel == (over_quota(old(records)@, guid@, received, max_download, max_session)
            && reported == ReportedDownloadState::InProgress),
        final(records)@.len() == old(records)@.len(),
        outcome.event is None <==> no_match(old(records)@, guid@),
        outcome.event is None ==> final(records)@ == old(records)@,
        outcome.event is Some ==> outcome.event->0 == spec_event_after(reported),
        guids_unique(old(records)@) ==> guids_unique(final(records)@),
        outcome.event is Some ==> exists|i: int|
            {
                &&& #[trigger] is_first_match(old(records)@, guid@, i)
                &&& forall|j: int|
                    0 <= j < old(records)@.len() && j != i ==> final(records)@[j] == old(records)@[j]
                &&& record_after_report(
                    old(records)@[i],
                    final(records)@[i],
                    reported,
                    received,
                    total,
                    over_quota(old(records)@, guid@, received, max_download, max_session),
                )
            },
{
    let gv = chars_of(guid);
    let mut running: u64 = 0;
    let mut found: Option<usize> = None;
    let mut i: usize = 0;
    while i < records.len()
        invariant
            i <= records@.len(),
            records@ == old(records)@,
            gv@ == guid@,
            running as int == session_total(records@.take(i as int), guid@, received),
            session_total(records@, guid@, received) <= u64::MAX,
            match found {
                None => no_match(records@.take(i as int), guid@),
                Some(f) => f < i && is_first_match(records@, guid@, f as int),
            },
        decreases records@.len() - i,
    {
        proof {
            assert(records@.take(i + 1).drop_last() =~= records@.take(i as int));
            lemma_session_total_prefix_bound(records@, guid@, received, i as int + 1);
        }
        let matches_guid = crate::text::chars_equal(
            chars_of(records[i].guid.as_str()).as_slice(),
            gv.as_slice(),
        );
        if matches_guid {
            running = running + received;
            if found.is_none() {
                proof {
                    assert forall|j: int| 0 <= j < i implies #[trigger] records@[j].guid@ != guid@ by {
                        assert(records@.take(i as int)[j] == records@[j]);
                    }
                }
                found = Some(i);
            }
        } else {
            running = running + records[i].received_bytes;
            proof {
                if found.is_none() {
                    assert forall|j: int| 0 <= j < i + 1 implies #[trigger] records@.take(i + 1)[j].guid@ != guid@ by {
                        if j < i {
                            assert(records@.take(i as int)[j] == records@.take(i + 1)[j]);
                        }
                    }
                }
            }
        }
        i = i + 1;
    }
    proof {
        assert(records@.take(records@.len() as int) =~= records@);
    }
    let over = received > max_download || running > max_session;
    let cancel = over && matches!(reported, ReportedDownloadState::InProgress);
    match found {
        None => ProgressOutcome { cancel, event: None },
        Some(f) => {
            let ghost before = records@;
            let mut record = records.remove(f);
            record.received_bytes = received;
            if total.is_some() {
                record.total_bytes = total;
            }
            let event = match reported {
                ReportedDownloadState::Completed => {
                    record.state = DownloadStateKind::Completed;
                    DownloadEvent::Completed
                },
                ReportedDownloadState::Canceled => {
                    let reason = if over {
                        chars_of("quota exceeded")
                    } else {
                        chars_of("cancelled")
                    };
                    record.failure_reason = Some(string_of(reason.as_slice()));
                    record.state = DownloadStateKind::Cancelled;
                    DownloadEvent::Failed
                },
                _ => {
                    record.state = DownloadStateKind::InProgress;
                    DownloadEvent::Progress
                },
            };
            records.insert(f, record);
            proof {
                assert(records@ =~= before.update(f as int, record));
                assert(is_first_match(old(records)@, guid@, f as int));
                if guids_unique(before) {
                    lemma_same_guids_unique(before, records@);
                }
            }
            ProgressOutcome { cancel, event: Some(event) }
        },
    }
}

proof fn lemma_session_total_prefix_bound(
    records: Seq<DownloadRecord>,
    guid: Seq<char>,
    received: u64,
    k: int,
)
    requires
        0 <= k <= records.len(),
    ensures
        0 <= session_total(records.take(k), guid, received) <= session_total(
            records,
            guid,
            received,
        ),
    decreases records.len() - k,
{
    if k < records.len() {
        lemma_session_total_prefix_bound(records, guid, received, k + 1);
        assert(records.take(k + 1).drop_last() =~= records.take(k));
        lemma_session_total_nonneg(records.take(k), guid, received);
    } else {
        assert(records.take(k) =~= records);
        lemma_session_total_nonneg(records, guid, received);
    }
}

proof fn lemma_session_total_nonneg(records: Seq<DownloadRecord>, guid: Seq<char>, received: u64)
    ensures
        session_total(records, guid, received) >= 0,
    decreases records.len(),
{
    if records.len() > 0 {
        lemma_session_total_nonneg(records.drop_last(), guid, received);
    }
}

} // verus!

verus! {

/// A save's file name: the sanitized suggestion when none was given, else
/// the given name sanitized.
pub open spec fn spec_save_name(record: DownloadRecord, relative_path: Seq<char>) -> Seq<char> {
    if trim_ws(relative_path).len() == 0 {
        record.sanitized_filename@
    } else {
        spec_sanitize_download_filename(relative_path)
    }
}

/// Which staged file a save copies and under what name: only a completed
/// download of this session can be saved, and an unknown id is answered
/// like any other refusal.
pub fn save_download_plan(records: &Vec<DownloadRecord>, download_id: &str, relative_path: &str) -> (r:
    Result<(String, String), &'static str>)
    ensures
        match r {
            Ok((staging, name)) => exists|i: int|
                #[trigger] is_first_match(records@, download_id@, i) && records@[i].state
                    == DownloadStateKind::Completed && staging@ == records@[i].staging_path@ && name@
                    == spec_save_name(records@[i], relative_path@),
            Err(m) => (no_match(records@, download_id@) && m@ == "unknown download"@) || (exists|
                i: int,
            |
                #[trigger] is_first_match(records@, download_id@, i) && records@[i].state
                    != DownloadStateKind::Completed && m@ == "download is not completed"@),
        },
{
    let gv = chars_of(download_id);
    let mut i: usize = 0;
    while i < records.len()
        invariant
            i <= records@.len(),
            gv@ == download_id@,
            no_match(records@.take(i as int), download_id@),
        decreases records@.len() - i,
    {
        if crate::text::chars_equal(chars_of(records[i].guid.as_str()).as_slice(), gv.as_slice()) {
            proof {
                assert forall|j: int| 0 <= j < i implies #[trigger] records@[j].guid@ != download_id@ by {
                    assert(records@.take(i as int)[j] == records@[j]);
                }
                assert(is_first_match(records@, download_id@, i as int));
            }
            let record = &records[i];
            if !matches!(record.state, DownloadStateKind::Completed) {
                return Err("download is not completed");
            }
            let staging = string_of(chars_of(record.staging_path.as_str()).as_slice());
            let trimmed = trim_ws_exec(chars_of(relative_path).as_slice());
            let name = if trimmed.len() == 0 {
                string_of(chars_of(record.sanitized_filename.as_str()).as_slice())
            } else {
                sanitize_download_filename(relative_path)
            };
            return Ok((staging, name));
        }
        proof {
            assert forall|j: int| 0 <= j < i + 1 implies #[trigger] records@.take(i + 1)[j].guid@
                != download_id@ by {
                if j < i {
                    assert(records@.take(i as int)[j] == records@.take(i + 1)[j]);
                }
            }
        }
        i = i + 1;
    }
    proof {
        assert(records@.take(records@.len() as int) =~= records@);
    }
    Err("unknown download")
}

} // verus!

verus! {

/// No character a download's display name may not hold.
pub open spec fn is_safe_name_char(c: char) -> bool {
    c != '/' && c != '\\' && c != ':' && c != '\0' && !spec_is_control(c)
}

pub open spec fn all_safe_chars(s: Seq<char>) -> bool {
    forall|i: int| 0 <= i < s.len() ==> is_safe_name_char(#[trigger] s[i])
}

pub open spec fn no_controls(s: Seq<char>) -> bool {
    forall|i: int| 0 <= i < s.len() ==> !spec_is_control(#[trigger] s[i])
}

proof fn lemma_trim_start_ws_keeps(s: Seq<char>)
    requires
        no_controls(s),
    ensures
        no_controls(crate::text::trim_start_ws(s)),
    decreases s.len(),
{
    if s.len() > 0 && crate::text::spec_is_whitespace(s[0]) {
        assert(no_controls(s.drop_first())) by {
            assert forall|i: int| 0 <= i < s.drop_first().len() implies !spec_is_control(
                #[trigger] s.drop_first()[i],
            ) by {
                assert(s.drop_first()[i] == s[i + 1]);
            }
        }
        lemma_trim_start_ws_keeps(s.drop_first());
    }
}

proof fn lemma_trim_end_ws_keeps(s: Seq<char>)
    requires
        no_controls(s),
    ensures
        no_controls(crate::text::trim_end_ws(s)),
    decreases s.len(),
{
    if s.len() > 0 && crate::text::spec_is_whitespace(s.last()) {
        assert(no_controls(s.drop_last())) by {
            assert forall|i: int| 0 <= i < s.drop_last().len() implies !spec_is_control(
                #[trigger] s.drop_last()[i],
            ) by {
                assert(s.drop_last()[i] == s[i]);
            }
        }
        lemma_trim_end_ws_keeps(s.drop_last());
    }
}

proof fn lemma_trim_start_char_keeps(s: Seq<char>, c: char)
    requires
        no_controls(s),
    ensures
        no_controls(trim_start_char(s, c)),
    decreases s.len(),
{
    if s.len() > 0 && s[0] == c {
        assert(no_controls(s.drop_first())) by {
            assert forall|i: int| 0 <= i < s.drop_first().len() implies !spec_is_control(
                #[trigger] s.drop_first()[i],
            ) by {
                assert(s.drop_first()[i] == s[i + 1]);
            }
        }
        lemma_trim_start_char_keeps(s.drop_first(), c);
    }
}

/// Whatever a site suggests, the kept display name is between 1 and 200
/// characters and holds no path separator, colon, NUL or control
/// character.
pub proof fn lemma_sanitized_name_is_safe(suggested: Seq<char>)
    ensures
        ({
            let n = spec_sanitize_download_filename(suggested);
            &&& 1 <= n.len() <= 200
            &&& all_safe_chars(n)
        }),
{
    let w = without_controls(after_last_separator(suggested));
    let pred = |c: char| !spec_is_control(c);
    assert(no_controls(w)) by {
        assert forall|i: int| 0 <= i < w.len() implies !spec_is_control(#[trigger] w[i]) by {
            after_last_separator(suggested).lemma_filter_pred(pred, i);
        }
    }
    lemma_trim_start_ws_keeps(w);
    lemma_trim_end_ws_keeps(crate::text::trim_start_ws(w));
    let cleaned = trim_start_char(trim_ws(w), '.');
    lemma_trim_start_char_keeps(trim_ws(w), '.');
    let replaced = cleaned.map_values(|c: char| spec_replace_unsafe(c));
    let truncated = if replaced.len() <= 200 {
        replaced
    } else {
        replaced.take(200)
    };
    assert(all_safe_chars(truncated)) by {
        assert forall|i: int| 0 <= i < truncated.len() implies is_safe_name_char(
            #[trigger] truncated[i],
        ) by {
            assert(truncated[i] == spec_replace_unsafe(cleaned[i]));
        }
    }
    if trim_ws(truncated).len() == 0 {
        reveal_strlit("download");
        assert(all_safe_chars("download"@)) by {
            assert forall|i: int| 0 <= i < "download"@.len() implies is_safe_name_char(
                #[trigger] "download"@[i],
            ) by {}
        }
    } else {
        if truncated.len() == 0 {
            assert(trim_ws(truncated) =~= truncated);
        }
    }
}

} // verus!

verus! {

/// `r` is the record a download that just began starts as.
pub open spec fn is_fresh_download(
    r: DownloadRecord,
    guid: Seq<char>,
    url: Seq<char>,
    suggested: Seq<char>,
    staging_path: Seq<char>,
) -> bool {
    &&& r.guid@ == guid
    &&& r.suggested_filename@ == suggested
    &&& r.sanitized_filename@ == spec_sanitize_download_filename(suggested)
    &&& r.url@ == url
    &&& r.total_bytes is None
    &&& r.received_bytes == 0
    &&& r.state == DownloadStateKind::InProgress
    &&& r.failure_reason is None
    &&& r.staging_path@ == staging_path
}

/// Records a download the browser has begun: in progress, nothing
/// received, its suggested name sanitized. A download with the same id
/// is replaced in place; otherwise the record is added at the end.
pub fn begin_download(
    records: &mut Vec<DownloadRecord>,
    guid: &str,
    url: &str,
    suggested: &str,
    staging_path: &str,
)
    ensures
        no_match(old(records)@, guid@) ==> final(records)@.len() == old(records)@.len() + 1
            && final(records)@.take(old(records)@.len() as int) == old(records)@
            && is_fresh_download(
            final(records)@.last(),
            guid@,
            url@,
            suggested@,
            staging_path@,
        ),
        forall|i: int|
            #[trigger] is_first_match(old(records)@, guid@, i) ==> final(records)@.len()
                == old(records)@.len() && is_fresh_download(
                final(records)@[i],
                guid@,
                url@,
                suggested@,
                staging_path@,
            ) && forall|j: int|
                0 <= j < old(records)@.len() && j != i ==> final(records)@[j] == old(records)@[j],
        guids_unique(old(records)@) ==> guids_unique(final(records)@),
{
    let gv = chars_of(guid);
    let record = DownloadRecord {
        guid: string_of(gv.as_slice()),
        suggested_filename: string_of(chars_of(suggested).as_slice()),
        sanitized_filename: sanitize_download_filename(suggested),
        url: string_of(chars_of(url).as_slice()),
        total_bytes: None,
        received_bytes: 0,
        state: DownloadStateKind::InProgress,
        failure_reason: None,
        staging_path: string_of(chars_of(staging_path).as_slice()),
    };
    let mut i: usize = 0;
    while i < records.len()
        invariant
            i <= records@.len(),
            records@ == old(records)@,
            gv@ == guid@,
            is_fresh_download(record, guid@, url@, suggested@, staging_path@),
            no_match(records@.take(i as int), guid@),
        decreases records@.len() - i,
    {
        proof {
            assert(records@.take(i + 1).drop_last() =~= records@.take(i as int));
        }
        if crate::text::chars_equal(chars_of(records[i].guid.as_str()).as_slice(), gv.as_slice()) {
            proof {
                assert forall|j: int| 0 <= j < i implies #[trigger] records@[j].guid@ != guid@ by {
                    assert(records@.take(i as int)[j] == records@[j]);
                }
                assert(is_first_match(records@, guid@, i as int));
                assert forall|k: int| #[trigger] is_first_match(old(records)@, guid@, k) implies k
                    == i by {
                    if k < i {
                        assert(records@[k].guid@ != guid@);
                    } else if k > i {
                        assert(old(records)@[i as int].guid@ != guid@);
                    }
                }
            }
            let ghost fresh = record;
            records.remove(i);
            records.insert(i, record);
            proof {
                assert(records@ =~= old(records)@.update(i as int, fresh));
                assert(!no_match(old(records)@, guid@));
                if guids_unique(old(records)@) {
                    lemma_same_guids_unique(old(records)@, records@);
                }
            }
            return;
        }
        i = i + 1;
    }
    proof {
        assert(records@.take(records@.len() as int) =~= records@);
        assert forall|k: int| !#[trigger] is_first_match(old(records)@, guid@, k) by {
            if 0 <= k < old(records)@.len() {
                assert(records@.take(records@.len() as int)[k] == records@[k]);
            }
        }
    }
    records.push(record);
    proof {
        assert(records@.take(old(records)@.len() as int) =~= old(records)@);
        if guids_unique(old(records)@) {
            assert forall|a: int, b: int| 0 <= a < b < records@.len() implies #[trigger] records@[a].guid@
                != #[trigger] records@[b].guid@ by {
                assert(records@[a] == old(records)@[a]);
                if b < old(records)@.len() {
                    assert(records@[b] == old(records)@[b]);
                } else {
                    assert(old(records)@[a].guid@ != guid@);
                }
            }
        }
    }
}

} // verus!

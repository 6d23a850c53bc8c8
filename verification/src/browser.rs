//! The isolated browser session broker: what a client may ask of the
//! browser (navigation schemes, viewport bounds, clipboard limits), and the
//! per-session bookkeeping of tabs, the active tab, known targets and
//! pending file choosers.

use vstd::prelude::*;
use crate::lexical::{ascii_fold, push_digits, nat_digits};
use crate::text::{append_chars, chars_equal, chars_of, slice_chars, string_of, trim_ws, trim_ws_exec};

verus! {

pub const MIN_VIEWPORT_WIDTH: u32 = 200;
pub const MIN_VIEWPORT_HEIGHT: u32 = 150;
pub const MAX_VIEWPORT_WIDTH: u32 = 1920;
pub const MAX_VIEWPORT_HEIGHT: u32 = 1080;
pub const DEFAULT_VIEWPORT_WIDTH: u32 = 1024;
pub const DEFAULT_VIEWPORT_HEIGHT: u32 = 768;

/// Largest client message accepted, in bytes.
pub const MAX_CLIENT_MESSAGE_BYTES: usize = 65536;

/// JPEG quality of screencast frames.
pub const SCREENCAST_JPEG_QUALITY: u8 = 70;

/// Most tabs one session may hold; further new targets are closed.
pub const MAX_TABS_PER_SESSION: usize = 8;

/// How long a file chooser stays answerable, in milliseconds.
pub const CHOOSER_EXPIRY_MILLIS: u64 = 120_000;

/// Largest file handed to a page's file chooser, in bytes.
pub const MAX_UPLOAD_MATERIALIZE_BYTES: u64 = 209_715_200;

/// Largest clipboard text exchanged, in bytes.
pub const MAX_CLIPBOARD_BYTES: usize = 1_000_000;

#[derive(Clone, Copy, Debug, PartialEq, Eq)]
pub enum MouseButton {
    Left,
    Middle,
    Right,
}

impl MouseButton {
    /// The button's name in the browser protocol.
    pub fn as_cdp(self) -> (s: &'static str)
        ensures
            s@ == match self {
                MouseButton::Left => "left"@,
                MouseButton::Middle => "middle"@,
                MouseButton::Right => "right"@,
            },
    {
        match self {
            MouseButton::Left => "left",
            MouseButton::Middle => "middle",
            MouseButton::Right => "right",
        }
    }
}

/// `s` begins with `prefix` once ASCII letters are folded to lower case.
pub open spec fn starts_with_ignore_case(s: Seq<char>, prefix: Seq<char>) -> bool {
    s.len() >= prefix.len() && forall|i: int|
        0 <= i < prefix.len() ==> #[trigger] ascii_fold(s[i]) == ascii_fold(prefix[i])
}

fn starts_with_ignore_case_exec(s: &[char], prefix: &str) -> (r: bool)
    ensures
        r == starts_with_ignore_case(s@, prefix@),
{
    let p = chars_of(prefix);
    if s.len() < p.len() {
        return false;
    }
    let mut i: usize = 0;
    while i < p.len()
        invariant
            i <= p@.len() <= s@.len(),
            p@ == prefix@,
            forall|j: int| 0 <= j < i ==> #[trigger] ascii_fold(s@[j]) == ascii_fold(p@[j]),
        decreases p@.len() - i,
    {
        if crate::lexical::ascii_fold_exec(s[i]) != crate::lexical::ascii_fold_exec(p[i]) {
            return false;
        }
        i = i + 1;
    }
    true
}

/// The navigation rule: the trimmed URL, which must be `about:blank` or
/// start with `http://` or `https://` (ignoring ASCII case).
pub open spec fn spec_navigation(url: Seq<char>) -> Result<Seq<char>, Seq<char>> {
    let t = trim_ws(url);
    if t.len() == 0 {
        Err("empty URL"@)
    } else if t == "about:blank"@ || starts_with_ignore_case(t, "http://"@) || starts_with_ignore_case(
        t,
        "https://"@,
    ) {
        Ok(t)
    } else {
        Err("navigation scheme not permitted"@)
    }
}

/// Checks a URL a client asks the browser to open; every other scheme
/// (`file:`, `javascript:`, `data:` and the like) is refused.
pub fn validate_navigation_url(url: &str) -> (r: Result<String, &'static str>)
    ensures
        match r {
            Ok(u) => spec_navigation(url@) == Ok::<Seq<char>, Seq<char>>(u@),
            Err(m) => spec_navigation(url@) == Err::<Seq<char>, Seq<char>>(m@),
        },
{
    let t = trim_ws_exec(chars_of(url).as_slice());
    if t.len() == 0 {
        return Err("empty URL");
    }
    if crate::text::is_text(t.as_slice(), "about:blank") || starts_with_ignore_case_exec(
        t.as_slice(),
        "http://",
    ) || starts_with_ignore_case_exec(t.as_slice(), "https://") {
        Ok(string_of(t.as_slice()))
    } else {
        Err("navigation scheme not permitted")
    }
}

/// The page a new tab opens: `about:blank` when none is asked for,
/// otherwise the asked URL if the navigation rule admits it; a refused
/// URL is answered "navigation scheme not permitted" whatever the reason.
pub fn new_tab_url(url: Option<&str>) -> (r: Result<String, &'static str>)
    ensures
        match url {
            None => r matches Ok(u) && u@ == "about:blank"@,
            Some(s) => match spec_navigation(s@) {
                Ok(t) => r matches Ok(u) && u@ == t,
                Err(_) => r matches Err(m) && m@ == "navigation scheme not permitted"@,
            },
        },
{
    match url {
        None => Ok(string_of(chars_of("about:blank").as_slice())),
        Some(s) => match validate_navigation_url(s) {
            Ok(u) => Ok(u),
            Err(_) => Err("navigation scheme not permitted"),
        },
    }
}

pub open spec fn clamp(v: u32, lo: u32, hi: u32) -> u32 {
    if v < lo {
        lo
    } else if v > hi {
        hi
    } else {
        v
    }
}

/// A requested viewport, clamped to the allowed bounds.
pub fn clamp_viewport(width: u32, height: u32) -> (r: (u32, u32))
    ensures
        r == (
            clamp(width, MIN_VIEWPORT_WIDTH, MAX_VIEWPORT_WIDTH),
            clamp(height, MIN_VIEWPORT_HEIGHT, MAX_VIEWPORT_HEIGHT),
        ),
{
    let w = if width < MIN_VIEWPORT_WIDTH {
        MIN_VIEWPORT_WIDTH
    } else if width > MAX_VIEWPORT_WIDTH {
        MAX_VIEWPORT_WIDTH
    } else {
        width
    };
    let h = if height < MIN_VIEWPORT_HEIGHT {
        MIN_VIEWPORT_HEIGHT
    } else if height > MAX_VIEWPORT_HEIGHT {
        MAX_VIEWPORT_HEIGHT
    } else {
        height
    };
    (w, h)
}

/// How many bytes `c` takes in UTF-8.
pub open spec fn utf8_width(c: char) -> nat {
    crate::web::char_width(c)
}

/// The number of leading characters of `cs[i..]` that fit in `budget`
/// bytes, counted from `i`.
pub open spec fn fitting_prefix(cs: Seq<char>, i: int, budget: int) -> int
    decreases cs.len() - i,
{
    if i < 0 || i >= cs.len() || utf8_width(cs[i]) > budget {
        i
    } else {
        fitting_prefix(cs, i + 1, budget - utf8_width(cs[i]))
    }
}

/// Selected page text as returned to the client: the longest prefix that
/// fits in [`MAX_CLIPBOARD_BYTES`] bytes, cut at a character boundary.
pub fn clipboard_read_text(raw: &str) -> (r: String)
    ensures
        r@ == raw@.take(fitting_prefix(raw@, 0, MAX_CLIPBOARD_BYTES as int)),
{
    let cs = chars_of(raw);
    let mut budget: usize = MAX_CLIPBOARD_BYTES;
    let mut i: usize = 0;
    let mut done = false;
    while i < cs.len() && !done
        invariant
            i <= cs@.len(),
            cs@ == raw@,
            budget <= MAX_CLIPBOARD_BYTES,
            fitting_prefix(raw@, 0, MAX_CLIPBOARD_BYTES as int) == fitting_prefix(
                raw@,
                i as int,
                budget as int,
            ),
            done ==> fitting_prefix(raw@, i as int, budget as int) == i,
        decreases cs@.len() - i + (if done {
            0int
        } else {
            1int
        }),
    {
        let u = cs[i] as u32;
        let w: usize = if u <= 0x7F {
            1
        } else if u <= 0x7FF {
            2
        } else if u <= 0xFFFF {
            3
        } else {
            4
        };
        if w > budget {
            done = true;
        } else {
            budget = budget - w;
            i = i + 1;
        }
    }
    let out = slice_chars(cs.as_slice(), 0, i);
    proof {
        assert(out@ =~= raw@.take(i as int));
    }
    string_of(out.as_slice())
}

/// The text of a tab or chooser id: a prefix and a sequence number.
pub open spec fn numbered_id(prefix: Seq<char>, seq: u64) -> Seq<char> {
    prefix + nat_digits(seq as nat)
}

fn numbered(prefix: &str, seq: u64) -> (r: String)
    ensures
        r@ == numbered_id(prefix@, seq),
{
    let mut v = chars_of(prefix);
    push_digits(seq, &mut v);
    string_of(v.as_slice())
}

/// Where an upload is staged for the page, as the browser container sees
/// it: `/state/uploads/upload-{seq}/{name}`.
pub fn upload_container_path(seq: u64, file_name: &str) -> (p: String)
    ensures
        p@ == "/state/uploads/"@ + numbered_id("upload-"@, seq) + seq!['/'] + file_name@,
{
    let mut v = chars_of("/state/uploads/");
    let dir = numbered("upload-", seq);
    append_chars(&mut v, chars_of(dir.as_str()).as_slice());
    v.push('/');
    append_chars(&mut v, chars_of(file_name).as_slice());
    proof {
        assert(v@ =~= "/state/uploads/"@ + numbered_id("upload-"@, seq) + seq!['/'] + file_name@);
    }
    string_of(v.as_slice())
}

} // verus!

verus! {

/// One managed tab: the session's own opaque id for a browser target and
/// its attached protocol session, never shown to a client.
#[derive(Clone, Debug)]
pub struct Tab {
    pub id: String,
    pub target_id: String,
    pub session_id: String,
    pub url: String,
    pub title: String,
    pub loading: bool,
}

/// A page's pending file chooser, bound to the protocol session and node
/// that raised it.
#[derive(Clone, Debug)]
pub struct PendingChooser {
    pub id: String,
    pub session_id: String,
    pub backend_node_id: u64,
    pub created_at_ms: u64,
}

/// The broker's per-connection state.
pub struct BrowserSession {
    pub tabs: Vec<Tab>,
    pub active_tab: Option<String>,
    pub width: u32,
    pub height: u32,
    /// Every target this session has seen, created by it or by a page.
    pub known_target_ids: Vec<String>,
    pub pending_choosers: Vec<PendingChooser>,
}

/// The first tab of `tabs[i..]` with id `id`.
pub open spec fn tab_pos(tabs: Seq<Tab>, id: Seq<char>, i: int) -> Option<int>
    decreases tabs.len() - i,
{
    if i < 0 || i >= tabs.len() {
        None
    } else if tabs[i].id@ == id {
        Some(i)
    } else {
        tab_pos(tabs, id, i + 1)
    }
}

pub open spec fn has_tab(tabs: Seq<Tab>, id: Seq<char>) -> bool {
    exists|i: int| 0 <= i < tabs.len() && #[trigger] tabs[i].id@ == id
}

/// The session's invariant: at most [`MAX_TABS_PER_SESSION`] tabs with
/// distinct ids, an active tab that is one of them, and a viewport within
/// bounds.
pub open spec fn session_wf(tabs: Seq<Tab>, active: Option<String>, width: u32, height: u32) -> bool {
    &&& tabs.len() <= MAX_TABS_PER_SESSION
    &&& forall|i: int, j: int| 0 <= i < j < tabs.len() ==> tabs[i].id@ != tabs[j].id@
    &&& match active {
        Some(a) => has_tab(tabs, a@),
        None => true,
    }
    &&& MIN_VIEWPORT_WIDTH <= width <= MAX_VIEWPORT_WIDTH
    &&& MIN_VIEWPORT_HEIGHT <= height <= MAX_VIEWPORT_HEIGHT
}

/// No target id is noted twice, as in a set of them.
pub open spec fn target_ids_unique(ids: Seq<String>) -> bool {
    forall|i: int, j: int| #![trigger ids[i], ids[j]] 0 <= i < j < ids.len() ==> ids[i]@ != ids[j]@
}

/// No two pending choosers share an id, as in a map keyed by it.
pub open spec fn chooser_ids_unique(cs: Seq<PendingChooser>) -> bool {
    forall|i: int, j: int| #![trigger cs[i], cs[j]] 0 <= i < j < cs.len() ==> cs[i].id@ != cs[j].id@
}

/// What activating a tab asks of the browser: stop the previous active
/// tab's screencast when it is another tab, then size and start this one.
#[derive(Clone, Debug)]
pub struct ActivatePlan {
    pub stop_session: Option<String>,
    pub session_id: String,
    pub width: u32,
    pub height: u32,
}

/// What follows the removal of a tab.
#[derive(Clone, Debug)]
pub enum NextTab {
    /// The removed tab was not active; nothing else changes.
    Unchanged,
    /// Activate this remaining tab.
    Activate(String),
    /// No tab remains: open a blank one.
    OpenBlank,
}

/// The outcome of a chooser answer.
#[derive(Clone, Debug)]
pub enum ChooserLookup {
    Unknown,
    Expired,
    Ready(PendingChooser),
}

/// `i` is the first tab attached as protocol session `sid`.
pub open spec fn first_session(tabs: Seq<Tab>, sid: Seq<char>, i: int) -> bool {
    &&& 0 <= i < tabs.len()
    &&& tabs[i].session_id@ == sid
    &&& forall|k: int| 0 <= k < i ==> #[trigger] tabs[k].session_id@ != sid
}

/// No tab is attached as protocol session `sid`.
pub open spec fn no_session(tabs: Seq<Tab>, sid: Seq<char>) -> bool {
    forall|k: int| 0 <= k < tabs.len() ==> #[trigger] tabs[k].session_id@ != sid
}

/// `i` is the first tab of browser target `tid`.
pub open spec fn first_target(tabs: Seq<Tab>, tid: Seq<char>, i: int) -> bool {
    &&& 0 <= i < tabs.len()
    &&& tabs[i].target_id@ == tid
    &&& forall|k: int| 0 <= k < i ==> #[trigger] tabs[k].target_id@ != tid
}

/// `i` is the first pending chooser with id `id`.
pub open spec fn first_chooser(choosers: Seq<PendingChooser>, id: Seq<char>, i: int) -> bool {
    &&& 0 <= i < choosers.len()
    &&& choosers[i].id@ == id
    &&& forall|k: int| 0 <= k < i ==> #[trigger] choosers[k].id@ != id
}

/// No pending chooser has the id `id`.
pub open spec fn no_chooser(choosers: Seq<PendingChooser>, id: Seq<char>) -> bool {
    forall|k: int| 0 <= k < choosers.len() ==> #[trigger] choosers[k].id@ != id
}

/// Whether `active` names the tab `id`.
pub open spec fn is_active(active: Option<String>, id: Seq<char>) -> bool {
    match active {
        Some(a) => a@ == id,
        None => false,
    }
}

/// A chooser may still be answered at `now_ms`: it is at most
/// [`CHOOSER_EXPIRY_MILLIS`] old (a clock that went back counts as fresh).
pub open spec fn chooser_fresh(c: PendingChooser, now_ms: u64) -> bool {
    now_ms < c.created_at_ms || now_ms - c.created_at_ms <= CHOOSER_EXPIRY_MILLIS
}

/// `t` is `old` with its main frame navigated to `url` and loading.
pub open spec fn navigated(old: Tab, t: Tab, url: Seq<char>) -> bool {
    &&& t.id == old.id
    &&& t.target_id == old.target_id
    &&& t.session_id == old.session_id
    &&& t.title == old.title
    &&& t.url@ == url
    &&& t.loading
}

/// `t` is `old` done loading.
pub open spec fn loaded(old: Tab, t: Tab) -> bool {
    &&& t.id == old.id
    &&& t.target_id == old.target_id
    &&& t.session_id == old.session_id
    &&& t.title == old.title
    &&& t.url == old.url
    &&& !t.loading
}

fn same(a: &String, b: &str) -> (r: bool)
    ensures
        r == (a@ == b@),
{
    chars_equal(chars_of(a.as_str()).as_slice(), chars_of(b).as_slice())
}

fn copy(s: &String) -> (r: String)
    ensures
        r@ == s@,
{
    string_of(chars_of(s.as_str()).as_slice())
}

impl BrowserSession {
    /// The session's invariant, with every noted target and every pending
    /// chooser held once.
    pub open spec fn wf(&self) -> bool {
        &&& session_wf(self.tabs@, self.active_tab, self.width, self.height)
        &&& target_ids_unique(self.known_target_ids@)
        &&& chooser_ids_unique(self.pending_choosers@)
    }

    /// A session with no tab yet and the default viewport.
    pub fn new() -> (s: Self)
        ensures
            s.wf(),
            s.tabs@.len() == 0,
            s.active_tab is None,
            s.width == DEFAULT_VIEWPORT_WIDTH,
            s.height == DEFAULT_VIEWPORT_HEIGHT,
    {
        BrowserSession {
            tabs: Vec::new(),
            active_tab: None,
            width: DEFAULT_VIEWPORT_WIDTH,
            height: DEFAULT_VIEWPORT_HEIGHT,
            known_target_ids: Vec::new(),
            pending_choosers: Vec::new(),
        }
    }

    /// The position of the tab with id `id`, if any.
    pub fn find_tab(&self, id: &str) -> (r: Option<usize>)
        ensures
            match r {
                Some(i) => i < self.tabs@.len() && self.tabs@[i as int].id@ == id@,
                None => !has_tab(self.tabs@, id@),
            },
    {
        let mut i: usize = 0;
        while i < self.tabs.len()
            invariant
                i <= self.tabs@.len(),
                forall|k: int| 0 <= k < i ==> #[trigger] self.tabs@[k].id@ != id@,
            decreases self.tabs@.len() - i,
        {
            if same(&self.tabs[i].id, id) {
                return Some(i);
            }
            i = i + 1;
        }
        None
    }

    /// The position of the tab attached as protocol session `session_id`.
    pub fn find_session(&self, session_id: &str) -> (r: Option<usize>)
        ensures
            match r {
                Some(i) => i < self.tabs@.len() && self.tabs@[i as int].session_id@ == session_id@
                    && forall|k: int| 0 <= k < i ==> #[trigger] self.tabs@[k].session_id@ != session_id@,
                None => forall|k: int|
                    0 <= k < self.tabs@.len() ==> #[trigger] self.tabs@[k].session_id@ != session_id@,
            },
    {
        let mut i: usize = 0;
        while i < self.tabs.len()
            invariant
                i <= self.tabs@.len(),
                forall|k: int| 0 <= k < i ==> #[trigger] self.tabs@[k].session_id@ != session_id@,
            decreases self.tabs@.len() - i,
        {
            if same(&self.tabs[i].session_id, session_id) {
                return Some(i);
            }
            i = i + 1;
        }
        None
    }

    /// The protocol session of the active tab, which input, navigation and
    /// clipboard requests go to.
    pub fn active_session(&self) -> (r: Option<String>)
        requires
            self.wf(),
        ensures
            match self.active_tab {
                None => r is None,
                Some(a) => r matches Some(s) && exists|i: int|
                    0 <= i < self.tabs@.len() && #[trigger] self.tabs@[i].id@ == a@ && self.tabs@[i].session_id@
                        == s@,
            },
    {
        match &self.active_tab {
            None => None,
            Some(a) => match self.find_tab(a.as_str()) {
                Some(i) => Some(copy(&self.tabs[i].session_id)),
                None => None,
            },
        }
    }

    /// Whether a frame from `session_id` belongs to the active tab and is
    /// forwarded to the client.
    pub fn is_active_session(&self, session_id: &str) -> (r: bool)
        requires
            self.wf(),
        ensures
            r == match self.active_tab {
                None => false,
                Some(a) => exists|i: int|
                    0 <= i < self.tabs@.len() && #[trigger] self.tabs@[i].id@ == a@ && self.tabs@[i].session_id@
                        == session_id@,
            },
    {
        match &self.active_tab {
            None => false,
            Some(a) => match self.find_tab(a.as_str()) {
                Some(i) => {
                    let r = same(&self.tabs[i].session_id, session_id);
                    proof {
                        if !r {
                            assert forall|k: int|
                                0 <= k < self.tabs@.len() && #[trigger] self.tabs@[k].id@ == a@ implies self.tabs@[k].session_id@
                                != session_id@ by {
                                if k != i {
                                    if k < i {
                                        assert(self.tabs@[k].id@ != self.tabs@[i as int].id@);
                                    } else {
                                        assert(self.tabs@[i as int].id@ != self.tabs@[k].id@);
                                    }
                                }
                            }
                        }
                    }
                    r
                },
                None => false,
            },
        }
    }

    /// Whether another tab may be attached.
    pub fn can_attach(&self) -> (r: bool)
        ensures
            r == (self.tabs@.len() < MAX_TABS_PER_SESSION),
    {
        self.tabs.len() < MAX_TABS_PER_SESSION
    }

    /// Registers an attached target as tab `tab-{seq}`; `None` (the target
    /// is then closed) when the session is full or the id is taken.
    pub fn register_tab(&mut self, seq: u64, target_id: &str, session_id: &str) -> (r: Option<String>)
        requires
            old(self).wf(),
        ensures
            final(self).wf(),
            final(self).active_tab == old(self).active_tab,
            final(self).width == old(self).width,
            final(self).height == old(self).height,
            final(self).known_target_ids@ == old(self).known_target_ids@,
            final(self).pending_choosers@ == old(self).pending_choosers@,
            r is None <==> (old(self).tabs@.len() >= MAX_TABS_PER_SESSION || has_tab(
                old(self).tabs@,
                numbered_id("tab-"@, seq),
            )),
            match r {
                None => final(self).tabs@ == old(self).tabs@,
                Some(id) => id@ == numbered_id("tab-"@, seq) && old(self).tabs@.len()
                    < MAX_TABS_PER_SESSION && final(self).tabs@.len() == old(self).tabs@.len() + 1
                    && final(self).tabs@.drop_last() == old(self).tabs@ && final(self).tabs@.last().id@
                    == id@ && final(self).tabs@.last().target_id@ == target_id@
                    && final(self).tabs@.last().session_id@ == session_id@
                    && final(self).tabs@.last().url@.len() == 0 && final(self).tabs@.last().title@.len()
                    == 0 && final(self).tabs@.last().loading,
            },
    {
        if self.tabs.len() >= MAX_TABS_PER_SESSION {
            return None;
        }
        let id = numbered("tab-", seq);
        if self.find_tab(id.as_str()).is_some() {
            return None;
        }
        let tab = Tab {
            id: copy(&id),
            target_id: string_of(chars_of(target_id).as_slice()),
            session_id: string_of(chars_of(session_id).as_slice()),
            url: string_of(Vec::<char>::new().as_slice()),
            title: string_of(Vec::<char>::new().as_slice()),
            loading: true,
        };
        let ghost before = self.tabs@;
        self.tabs.push(tab);
        proof {
            let t = self.tabs@;
            assert(t.drop_last() =~= before);
            assert forall|i: int, j: int| 0 <= i < j < t.len() implies t[i].id@ != t[j].id@ by {
                if j == t.len() - 1 {
                    assert(t[i] == before[i]);
                } else {
                    assert(t[i] == before[i] && t[j] == before[j]);
                }
            }
            if self.active_tab is Some {
                let a = self.active_tab->0;
                let k = choose|k: int| 0 <= k < before.len() && #[trigger] before[k].id@ == a@;
                assert(t[k] == before[k]);
            }
        }
        Some(id)
    }

    /// Makes a tab active; `None` when no such tab exists (nothing changes).
    pub fn activate(&mut self, tab_id: &str) -> (r: Option<ActivatePlan>)
        requires
            old(self).wf(),
        ensures
            final(self).wf(),
            final(self).tabs@ == old(self).tabs@,
            final(self).width == old(self).width,
            final(self).height == old(self).height,
            match r {
                None => !has_tab(old(self).tabs@, tab_id@) && final(self).active_tab
                    == old(self).active_tab,
                Some(plan) => (final(self).active_tab matches Some(a) && a@ == tab_id@)
                    && has_tab(old(self).tabs@, tab_id@) && plan.width == old(self).width
                    && plan.height == old(self).height && (forall|i: int|
                    0 <= i < old(self).tabs@.len() && #[trigger] old(self).tabs@[i].id@ == tab_id@
                        ==> plan.session_id@ == old(self).tabs@[i].session_id@) && match old(
                    self,
                ).active_tab {
                    Some(prev) => if prev@ != tab_id@ {
                        plan.stop_session matches Some(stop) && forall|p: int|
                            0 <= p < old(self).tabs@.len() && #[trigger] old(self).tabs@[p].id@
                                == prev@ ==> stop@ == old(self).tabs@[p].session_id@
                    } else {
                        plan.stop_session is None
                    },
                    None => plan.stop_session is None,
                },
            },
            final(self).known_target_ids@ == old(self).known_target_ids@,
            final(self).pending_choosers@ == old(self).pending_choosers@,
    {
        let i = match self.find_tab(tab_id) {
            None => {
                return None;
            },
            Some(i) => i,
        };
        let stop = match &self.active_tab {
            Some(prev) => {
                if same(prev, tab_id) {
                    None
                } else {
                    match self.find_tab(prev.as_str()) {
                        Some(p) => Some(copy(&self.tabs[p].session_id)),
                        None => None,
                    }
                }
            },
            None => None,
        };
        let plan = ActivatePlan {
            stop_session: stop,
            session_id: copy(&self.tabs[i].session_id),
            width: self.width,
            height: self.height,
        };
        self.active_tab = Some(string_of(chars_of(tab_id).as_slice()));
        proof {
            assert(self.tabs@[i as int].id@ == tab_id@);
        }
        Some(plan)
    }

    /// Removes the tab at position `i`; when it was active, none is active
    /// until the caller activates the returned next tab or opens a blank
    /// one.
    fn remove_at(&mut self, i: usize) -> (r: (Tab, NextTab))
        requires
            old(self).wf(),
            i < old(self).tabs@.len(),
        ensures
            final(self).wf(),
            final(self).tabs@ == old(self).tabs@.remove(i as int),
            r.0 == old(self).tabs@[i as int],
            final(self).width == old(self).width,
            final(self).height == old(self).height,
            final(self).known_target_ids@ == old(self).known_target_ids@,
            final(self).pending_choosers@ == old(self).pending_choosers@,
            match r.1 {
                NextTab::Unchanged => !(old(self).active_tab matches Some(a) && a@ == r.0.id@)
                    && final(self).active_tab == old(self).active_tab,
                NextTab::Activate(n) => (old(self).active_tab matches Some(a) && a@ == r.0.id@)
                    && final(self).active_tab is None && final(self).tabs@.len() > 0
                    && n@ == final(self).tabs@[0].id@,
                NextTab::OpenBlank => (old(self).active_tab matches Some(a) && a@ == r.0.id@)
                    && final(self).active_tab is None && final(self).tabs@.len() == 0,
            },
    {
        let ghost before = self.tabs@;
        let tab = self.tabs.remove(i);
        let was_active = match &self.active_tab {
            Some(a) => same(a, tab.id.as_str()),
            None => false,
        };
        proof {
            let t = self.tabs@;
            assert(t =~= before.remove(i as int));
            assert forall|x: int, y: int| 0 <= x < y < t.len() implies t[x].id@ != t[y].id@ by {
                let bx = if x < i { x } else { x + 1 };
                let by_ = if y < i { y } else { y + 1 };
                assert(t[x] == before[bx] && t[y] == before[by_]);
            }
        }
        if was_active {
            self.active_tab = None;
            if self.tabs.len() > 0 {
                let next = copy(&self.tabs[0].id);
                (tab, NextTab::Activate(next))
            } else {
                (tab, NextTab::OpenBlank)
            }
        } else {
            proof {
                if self.active_tab is Some {
                    let a = self.active_tab->0;
                    let k = choose|k: int| 0 <= k < before.len() && #[trigger] before[k].id@ == a@;
                    assert(k != i);
                    let nk = if k < i { k } else { k - 1 };
                    assert(self.tabs@[nk] == before[k]);
                }
            }
            (tab, NextTab::Unchanged)
        }
    }

    /// Closes a tab on the client's request: the target to close and what
    /// follows, or `None` for an unknown tab (answered `unknown tab`).
    pub fn close_tab(&mut self, tab_id: &str) -> (r: Option<(String, NextTab)>)
        requires
            old(self).wf(),
        ensures
            final(self).wf(),
            r is None <==> !has_tab(old(self).tabs@, tab_id@),
            r is None ==> final(self).tabs@ == old(self).tabs@ && final(self).active_tab
                == old(self).active_tab,
            r is Some ==> final(self).tabs@.len() + 1 == old(self).tabs@.len() && !has_tab(
                final(self).tabs@,
                tab_id@,
            ),
            final(self).width == old(self).width,
            final(self).height == old(self).height,
            final(self).known_target_ids@ == old(self).known_target_ids@,
            final(self).pending_choosers@ == old(self).pending_choosers@,
            forall|i: int|
                0 <= i < old(self).tabs@.len() && #[trigger] old(self).tabs@[i].id@ == tab_id@ ==> (r matches Some(
                    (t, next),
                ) && t@ == old(self).tabs@[i].target_id@ && final(self).tabs@ == old(self).tabs@.remove(i)
                    && match next {
                    NextTab::Unchanged => !is_active(old(self).active_tab, tab_id@) && final(self).active_tab == old(self).active_tab,
                    NextTab::Activate(n) => is_active(old(self).active_tab, tab_id@) && final(self).active_tab is None && final(self).tabs@.len() > 0 && n@ == final(self).tabs@[0].id@,
                    NextTab::OpenBlank => is_active(old(self).active_tab, tab_id@) && final(self).active_tab is None && final(self).tabs@.len() == 0,
                }),
    {
        let i = match self.find_tab(tab_id) {
            None => {
                return None;
            },
            Some(i) => i,
        };
        let ghost before = self.tabs@;
        let (tab, next) = self.remove_at(i);
        proof {
            assert forall|k: int| 0 <= k < self.tabs@.len() implies #[trigger] self.tabs@[k].id@
                != tab_id@ by {
                let bk = if k < i { k } else { k + 1 };
                assert(self.tabs@[k] == before[bk]);
                if bk < i {
                    assert(before[bk].id@ != before[i as int].id@);
                } else {
                    assert(before[i as int].id@ != before[bk].id@);
                }
            }
        }
        Some((copy(&tab.target_id), next))
    }

    /// Forgets the tab of a destroyed target, if it was one: its id and
    /// what follows (never a blank tab: only an explicit close opens one).
    pub fn target_destroyed(&mut self, target_id: &str) -> (r: Option<(String, NextTab)>)
        requires
            old(self).wf(),
        ensures
            final(self).wf(),
            final(self).width == old(self).width,
            final(self).height == old(self).height,
            final(self).known_target_ids@ == old(self).known_target_ids@,
            final(self).pending_choosers@ == old(self).pending_choosers@,
            r is None <==> forall|k: int|
                0 <= k < old(self).tabs@.len() ==> #[trigger] old(self).tabs@[k].target_id@
                    != target_id@,
            r is None ==> final(self).tabs@ == old(self).tabs@ && final(self).active_tab
                == old(self).active_tab,
            forall|i: int|
                #[trigger] first_target(old(self).tabs@, target_id@, i) ==> (r matches Some((id, next))
                    && id == old(self).tabs@[i].id && final(self).tabs@ == old(self).tabs@.remove(i)
                    && match next {
                    NextTab::Unchanged => if is_active(old(self).active_tab, old(self).tabs@[i].id@) {
                        final(self).active_tab is None && final(self).tabs@.len() == 0
                    } else {
                        final(self).active_tab == old(self).active_tab
                    },
                    NextTab::Activate(n) => is_active(old(self).active_tab, old(self).tabs@[i].id@)
                        && final(self).active_tab is None && final(self).tabs@.len() > 0 && n@
                        == final(self).tabs@[0].id@,
                    NextTab::OpenBlank => false,
                }),
    {
        let mut i: usize = 0;
        while i < self.tabs.len()
            invariant
                i <= self.tabs@.len(),
                old(self).wf(),
                self.tabs@ == old(self).tabs@,
                self.active_tab == old(self).active_tab,
                self.width == old(self).width,
                self.height == old(self).height,
                self.known_target_ids@ == old(self).known_target_ids@,
                self.pending_choosers@ == old(self).pending_choosers@,
                forall|k: int| 0 <= k < i ==> #[trigger] self.tabs@[k].target_id@ != target_id@,
            decreases self.tabs@.len() - i,
        {
            if same(&self.tabs[i].target_id, target_id) {
                proof {
                    assert(first_target(old(self).tabs@, target_id@, i as int));
                    assert forall|j: int| #[trigger] first_target(old(self).tabs@, target_id@, j) implies j
                        == i by {
                        if j < i {
                            assert(old(self).tabs@[j].target_id@ != target_id@);
                        } else if j > i {
                            assert(old(self).tabs@[i as int].target_id@ != target_id@);
                        }
                    }
                }
                let (tab, next) = self.remove_at(i);
                let next = match next {
                    NextTab::OpenBlank => NextTab::Unchanged,
                    other => other,
                };
                return Some((tab.id, next));
            }
            i = i + 1;
        }
        proof {
            assert forall|j: int| !#[trigger] first_target(old(self).tabs@, target_id@, j) by {}
        }
        None
    }

    /// Records a page navigation of a tab's main frame: its new URL, and
    /// loading. Returns the tab's id; `None` when no tab is attached as
    /// that protocol session.
    pub fn frame_navigated(&mut self, session_id: &str, url: &str) -> (r: Option<String>)
        requires
            old(self).wf(),
        ensures
            final(self).wf(),
            final(self).active_tab == old(self).active_tab,
            final(self).width == old(self).width,
            final(self).height == old(self).height,
            final(self).known_target_ids@ == old(self).known_target_ids@,
            final(self).pending_choosers@ == old(self).pending_choosers@,
            final(self).tabs@.len() == old(self).tabs@.len(),
            r is None <==> no_session(old(self).tabs@, session_id@),
            r is None ==> final(self).tabs@ == old(self).tabs@,
            forall|i: int|
                #[trigger] first_session(old(self).tabs@, session_id@, i) ==> (r matches Some(id) && id@
                    == old(self).tabs@[i].id@ && navigated(old(self).tabs@[i], final(self).tabs@[i], url@)
                    && forall|k: int|
                    0 <= k < old(self).tabs@.len() && k != i ==> final(self).tabs@[k] == old(
                        self,
                    ).tabs@[k]),
    {
        match self.find_session(session_id) {
            None => {
                proof {
                    assert forall|j: int| !#[trigger] first_session(old(self).tabs@, session_id@, j) by {}
                }
                None
            },
            Some(i) => {
                let ghost before = self.tabs@;
                proof {
                    assert forall|j: int| #[trigger] first_session(before, session_id@, j) implies j
                        == i by {
                        if j < i {
                            assert(before[j].session_id@ != session_id@);
                        } else if j > i {
                            assert(before[i as int].session_id@ != session_id@);
                        }
                    }
                }
                let mut tab = self.tabs.remove(i);
                tab.url = string_of(chars_of(url).as_slice());
                tab.loading = true;
                let id = copy(&tab.id);
                self.tabs.insert(i, tab);
                proof {
                    let t = self.tabs@;
                    assert forall|k: int| 0 <= k < t.len() && k != i implies t[k] == before[k] by {}
                    assert forall|x: int, y: int| 0 <= x < y < t.len() implies t[x].id@ != t[y].id@ by {
                        assert(t[x].id@ == before[x].id@ && t[y].id@ == before[y].id@);
                    }
                    if self.active_tab is Some {
                        let a = self.active_tab->0;
                        let k = choose|k: int| 0 <= k < before.len() && #[trigger] before[k].id@ == a@;
                        assert(t[k].id@ == before[k].id@);
                    }
                    assert(navigated(before[i as int], t[i as int], url@));
                }
                Some(id)
            },
        }
    }

    /// Records that a tab finished loading. Returns the tab's id; `None`
    /// when no tab is attached as that protocol session.
    pub fn load_finished(&mut self, session_id: &str) -> (r: Option<String>)
        requires
            old(self).wf(),
        ensures
            final(self).wf(),
            final(self).active_tab == old(self).active_tab,
            final(self).width == old(self).width,
            final(self).height == old(self).height,
            final(self).known_target_ids@ == old(self).known_target_ids@,
            final(self).pending_choosers@ == old(self).pending_choosers@,
            final(self).tabs@.len() == old(self).tabs@.len(),
            r is None <==> no_session(old(self).tabs@, session_id@),
            r is None ==> final(self).tabs@ == old(self).tabs@,
            forall|i: int|
                #[trigger] first_session(old(self).tabs@, session_id@, i) ==> (r matches Some(id) && id@
                    == old(self).tabs@[i].id@ && loaded(old(self).tabs@[i], final(self).tabs@[i])
                    && forall|k: int|
                    0 <= k < old(self).tabs@.len() && k != i ==> final(self).tabs@[k] == old(
                        self,
                    ).tabs@[k]),
    {
        match self.find_session(session_id) {
            None => {
                proof {
                    assert forall|j: int| !#[trigger] first_session(old(self).tabs@, session_id@, j) by {}
                }
                None
            },
            Some(i) => {
                let ghost before = self.tabs@;
                proof {
                    assert forall|j: int| #[trigger] first_session(before, session_id@, j) implies j
                        == i by {
                        if j < i {
                            assert(before[j].session_id@ != session_id@);
                        } else if j > i {
                            assert(before[i as int].session_id@ != session_id@);
                        }
                    }
                }
                let mut tab = self.tabs.remove(i);
                tab.loading = false;
                let id = copy(&tab.id);
                self.tabs.insert(i, tab);
                proof {
                    let t = self.tabs@;
                    assert forall|k: int| 0 <= k < t.len() && k != i implies t[k] == before[k] by {}
                    assert forall|x: int, y: int| 0 <= x < y < t.len() implies t[x].id@ != t[y].id@ by {
                        assert(t[x].id@ == before[x].id@ && t[y].id@ == before[y].id@);
                    }
                    if self.active_tab is Some {
                        let a = self.active_tab->0;
                        let k = choose|k: int| 0 <= k < before.len() && #[trigger] before[k].id@ == a@;
                        assert(t[k].id@ == before[k].id@);
                    }
                    assert(loaded(before[i as int], t[i as int]));
                }
                Some(id)
            },
        }
    }

    /// Records a new viewport, clamped; the active tab's protocol session
    /// is returned for resizing and restarting its screencast.
    pub fn resize(&mut self, width: u32, height: u32) -> (r: Option<(String, u32, u32)>)
        requires
            old(self).wf(),
        ensures
            final(self).wf(),
            final(self).tabs@ == old(self).tabs@,
            final(self).active_tab == old(self).active_tab,
            final(self).width == clamp(width, MIN_VIEWPORT_WIDTH, MAX_VIEWPORT_WIDTH),
            final(self).height == clamp(height, MIN_VIEWPORT_HEIGHT, MAX_VIEWPORT_HEIGHT),
            r is Some <==> old(self).active_tab is Some,
            r matches Some(p) ==> p.1 == final(self).width && p.2 == final(self).height,
            r matches Some(p) ==> (old(self).active_tab matches Some(a) && exists|i: int|
                0 <= i < old(self).tabs@.len() && #[trigger] old(self).tabs@[i].id@ == a@ && old(
                    self,
                ).tabs@[i].session_id@ == p.0@),
    {
        let (w, h) = clamp_viewport(width, height);
        self.width = w;
        self.height = h;
        match self.active_session() {
            Some(s) => Some((s, w, h)),
            None => None,
        }
    }

    /// Whether a newly created target must be attached as a tab: a page
    /// the session has not seen before (its own tabs are noted when
    /// created, so only pages the browser opened by itself qualify). A page
    /// not seen before is noted as seen.
    pub fn note_target(&mut self, target_id: &str, is_page: bool) -> (attach: bool)
        requires
            old(self).wf(),
        ensures
            final(self).wf(),
            attach == (is_page && forall|k: int|
                0 <= k < old(self).known_target_ids@.len() ==> #[trigger] old(
                    self,
                ).known_target_ids@[k]@ != target_id@),
            attach ==> final(self).known_target_ids@.len() == old(self).known_target_ids@.len() + 1
                && final(self).known_target_ids@.drop_last() == old(self).known_target_ids@
                && final(self).known_target_ids@.last()@ == target_id@,
            !attach ==> final(self).known_target_ids@ == old(self).known_target_ids@,
            final(self).tabs@ == old(self).tabs@,
            final(self).active_tab == old(self).active_tab,
            final(self).width == old(self).width,
            final(self).height == old(self).height,
            final(self).pending_choosers@ == old(self).pending_choosers@,
    {
        if !is_page {
            return false;
        }
        let mut i: usize = 0;
        while i < self.known_target_ids.len()
            invariant
                self.wf(),
                i <= self.known_target_ids@.len(),
                forall|k: int| 0 <= k < i ==> #[trigger] self.known_target_ids@[k]@ != target_id@,
            decreases self.known_target_ids@.len() - i,
        {
            if same(&self.known_target_ids[i], target_id) {
                return false;
            }
            i = i + 1;
        }
        let ghost before = self.known_target_ids@;
        self.known_target_ids.push(string_of(chars_of(target_id).as_slice()));
        proof {
            assert(self.known_target_ids@.drop_last() =~= before);
            assert forall|a: int, b: int| 0 <= a < b < self.known_target_ids@.len() implies #[trigger] self.known_target_ids@[a]@
                != #[trigger] self.known_target_ids@[b]@ by {
                if b < before.len() {
                    assert(self.known_target_ids@[a] == before[a]);
                    assert(self.known_target_ids@[b] == before[b]);
                } else {
                    assert(self.known_target_ids@[a] == before[a]);
                }
            }
        }
        true
    }

    /// Records a page's file chooser as `chooser-{seq}`; a pending chooser
    /// with that id is replaced.
    pub fn open_chooser(&mut self, seq: u64, session_id: &str, backend_node_id: u64, now_ms: u64) -> (id: String)
        requires
            old(self).wf(),
        ensures
            final(self).wf(),
            id@ == numbered_id("chooser-"@, seq),
            final(self).tabs@ == old(self).tabs@,
            final(self).active_tab == old(self).active_tab,
            final(self).width == old(self).width,
            final(self).height == old(self).height,
            no_chooser(old(self).pending_choosers@, id@) ==> final(self).pending_choosers@.drop_last()
                == old(self).pending_choosers@,
            forall|i: int|
                #[trigger] first_chooser(old(self).pending_choosers@, id@, i)
                    ==> final(self).pending_choosers@.drop_last() == old(self).pending_choosers@.remove(i),
            final(self).pending_choosers@.len() > 0,
            final(self).pending_choosers@.last().id@ == id@,
            final(self).pending_choosers@.last().session_id@ == session_id@,
            final(self).pending_choosers@.last().backend_node_id == backend_node_id,
            final(self).pending_choosers@.last().created_at_ms == now_ms,
            final(self).known_target_ids@ == old(self).known_target_ids@,
    {
        let ghost before = self.pending_choosers@;
        let id = numbered("chooser-", seq);
        let mut i: usize = 0;
        while i < self.pending_choosers.len() && !same(&self.pending_choosers[i].id, id.as_str())
            invariant
                i <= self.pending_choosers@.len(),
                self.pending_choosers@ == before,
                before == old(self).pending_choosers@,
                forall|k: int| 0 <= k < i ==> #[trigger] self.pending_choosers@[k].id@ != id@,
            decreases self.pending_choosers@.len() - i,
        {
            i = i + 1;
        }
        let ghost kept = self.pending_choosers@;
        if i < self.pending_choosers.len() {
            proof {
                assert(first_chooser(before, id@, i as int));
                assert forall|j: int| #[trigger] first_chooser(before, id@, j) implies j == i by {
                    if j < i {
                        assert(before[j].id@ != id@);
                    } else if j > i {
                        assert(before[i as int].id@ != id@);
                    }
                }
            }
            self.pending_choosers.remove(i);
            proof {
                assert(self.pending_choosers@ =~= before.remove(i as int));
                assert forall|k: int| 0 <= k < self.pending_choosers@.len() implies #[trigger] self.pending_choosers@[k].id@
                    != id@ by {
                    if k < i {
                        assert(self.pending_choosers@[k] == before[k]);
                        assert(before[k].id@ != before[i as int].id@);
                    } else {
                        assert(self.pending_choosers@[k] == before[k + 1]);
                        assert(before[i as int].id@ != before[k + 1].id@);
                    }
                }
            }
        } else {
            proof {
                assert forall|j: int| !#[trigger] first_chooser(before, id@, j) by {}
            }
        }
        let ghost mid = self.pending_choosers@;
        proof {
            assert forall|a: int, b: int| 0 <= a < b < mid.len() implies #[trigger] mid[a].id@
                != #[trigger] mid[b].id@ by {
                if i < before.len() {
                    let ia = if a < i { a } else { a + 1 };
                    let ib = if b < i { b } else { b + 1 };
                    assert(mid[a] == before[ia]);
                    assert(mid[b] == before[ib]);
                    assert(before[ia].id@ != before[ib].id@);
                }
            }
        }
        self.pending_choosers.push(
            PendingChooser {
                id: copy(&id),
                session_id: string_of(chars_of(session_id).as_slice()),
                backend_node_id,
                created_at_ms: now_ms,
            },
        );
        proof {
            assert(self.pending_choosers@.drop_last() =~= mid);
            assert forall|a: int, b: int| 0 <= a < b < self.pending_choosers@.len() implies #[trigger] self.pending_choosers@[a].id@
                != #[trigger] self.pending_choosers@[b].id@ by {
                assert(self.pending_choosers@[a] == mid[a]);
                if b < mid.len() {
                    assert(self.pending_choosers@[b] == mid[b]);
                }
            }
        }
        id
    }

    /// Takes a chooser out to answer it: unknown ids and choosers older
    /// than [`CHOOSER_EXPIRY_MILLIS`] are refused, and a chooser is never
    /// answered twice (a found chooser is removed, expired or not).
    pub fn take_chooser(&mut self, chooser_id: &str, now_ms: u64) -> (r: ChooserLookup)
        requires
            old(self).wf(),
        ensures
            final(self).wf(),
            final(self).tabs@ == old(self).tabs@,
            final(self).active_tab == old(self).active_tab,
            final(self).width == old(self).width,
            final(self).height == old(self).height,
            final(self).known_target_ids@ == old(self).known_target_ids@,
            r is Unknown <==> forall|k: int|
                0 <= k < old(self).pending_choosers@.len() ==> #[trigger] old(
                    self,
                ).pending_choosers@[k].id@ != chooser_id@,
            r is Unknown ==> final(self).pending_choosers@ == old(self).pending_choosers@,
            forall|i: int|
                #[trigger] first_chooser(old(self).pending_choosers@, chooser_id@, i) ==> (final(self).pending_choosers@
                    == old(self).pending_choosers@.remove(i) && (if chooser_fresh(
                    old(self).pending_choosers@[i],
                    now_ms,
                ) {
                    r == ChooserLookup::Ready(old(self).pending_choosers@[i])
                } else {
                    r is Expired
                })),
    {
        let mut i: usize = 0;
        while i < self.pending_choosers.len()
            invariant
                self.wf(),
                i <= self.pending_choosers@.len(),
                self.tabs@ == old(self).tabs@,
                self.active_tab == old(self).active_tab,
                self.width == old(self).width,
                self.height == old(self).height,
                self.known_target_ids@ == old(self).known_target_ids@,
                self.pending_choosers@ == old(self).pending_choosers@,
                forall|k: int| 0 <= k < i ==> #[trigger] self.pending_choosers@[k].id@ != chooser_id@,
            decreases self.pending_choosers@.len() - i,
        {
            if same(&self.pending_choosers[i].id, chooser_id) {
                proof {
                    assert forall|j: int| #[trigger] first_chooser(old(self).pending_choosers@, chooser_id@, j)
                        implies j == i by {
                        if j < i {
                            assert(old(self).pending_choosers@[j].id@ != chooser_id@);
                        } else if j > i {
                            assert(old(self).pending_choosers@[i as int].id@ != chooser_id@);
                        }
                    }
                }
                let ghost before = self.pending_choosers@;
                let c = self.pending_choosers.remove(i);
                proof {
                    assert forall|a: int, b: int| 0 <= a < b < self.pending_choosers@.len() implies #[trigger] self.pending_choosers@[a].id@
                        != #[trigger] self.pending_choosers@[b].id@ by {
                        let ia = if a < i { a } else { a + 1 };
                        let ib = if b < i { b } else { b + 1 };
                        assert(self.pending_choosers@[a] == before[ia]);
                        assert(self.pending_choosers@[b] == before[ib]);
                        assert(before[ia].id@ != before[ib].id@);
                    }
                }
                let age_ok = now_ms < c.created_at_ms || now_ms - c.created_at_ms <= CHOOSER_EXPIRY_MILLIS;
                if !age_ok {
                    return ChooserLookup::Expired;
                }
                return ChooserLookup::Ready(c);
            }
            i = i + 1;
        }
        proof {
            assert forall|j: int| !#[trigger] first_chooser(old(self).pending_choosers@, chooser_id@, j) by {}
        }
        ChooserLookup::Unknown
    }
}

/// The active tab, whenever there is one, is a tab of the session, and
/// the session never holds more than [`MAX_TABS_PER_SESSION`] tabs.
pub proof fn lemma_active_tab_is_registered(s: BrowserSession)
    requires
        s.wf(),
    ensures
        s.tabs@.len() <= MAX_TABS_PER_SESSION,
        s.active_tab matches Some(a) ==> has_tab(s.tabs@, a@),
{
}

} // verus!

verus! {

/// The periodic check of a browser session against its runtime: the
/// session closes with `runtime_stopped` once the runtime no longer runs,
/// else with `stale_generation` when the runtime it connected to (known by
/// its generation) has been replaced; otherwise it goes on (`None`).
pub fn session_check(
    still_running: bool,
    connected_generation: Option<i64>,
    current_generation: Option<i64>,
) -> (r: Option<&'static str>)
    ensures
        !still_running ==> (r matches Some(m) && m@ == "runtime_stopped"@),
        still_running && connected_generation is Some && current_generation != connected_generation
            ==> (r matches Some(m) && m@ == "stale_generation"@),
        still_running && (connected_generation is None || current_generation
            == connected_generation) ==> r is None,
{
    if !still_running {
        return Some("runtime_stopped");
    }
    match connected_generation {
        Some(g) => {
            let same = match current_generation {
                Some(c) => c == g,
                None => false,
            };
            if same {
                None
            } else {
                Some("stale_generation")
            }
        },
        None => None,
    }
}

} // verus!

verus! {

/// A client's pick of a file for an open chooser: a file on a remote
/// server is refused, since only files of the local roots can be handed
/// to the page.
pub fn select_file_refusal(remote: bool) -> (r: Option<&'static str>)
    ensures
        remote ==> (r matches Some(m) && m@ == "remote file selection not supported"@),
        !remote ==> r is None,
{
    if remote {
        Some("remote file selection not supported")
    } else {
        None
    }
}

/// Text a client writes to the page's clipboard, given the length of its
/// UTF-8 form: refused past [`MAX_CLIPBOARD_BYTES`] bytes.
pub fn clipboard_write_check(byte_len: usize) -> (r: Result<(), &'static str>)
    ensures
        byte_len > MAX_CLIPBOARD_BYTES ==> (r matches Err(m) && m@ == "clipboard text is too large"@),
        byte_len <= MAX_CLIPBOARD_BYTES ==> r is Ok,
{
    if byte_len > MAX_CLIPBOARD_BYTES {
        Err("clipboard text is too large")
    } else {
        Ok(())
    }
}

/// The checks on the file a chooser is answered with, in this order: it
/// lies inside the authorized root, it is a regular file, and it is no
/// longer than [`MAX_UPLOAD_MATERIALIZE_BYTES`].
pub fn chooser_file_check(inside_root: bool, is_file: bool, len: u64) -> (r: Result<(), &'static str>)
    ensures
        !inside_root ==> (r matches Err(m) && m@ == "file is outside the authorized root"@),
        inside_root && !is_file ==> (r matches Err(m) && m@ == "not a file"@),
        inside_root && is_file && len > MAX_UPLOAD_MATERIALIZE_BYTES ==> (r matches Err(m) && m@
            == "file is too large"@),
        inside_root && is_file && len <= MAX_UPLOAD_MATERIALIZE_BYTES ==> r is Ok,
{
    if !inside_root {
        Err("file is outside the authorized root")
    } else if !is_file {
        Err("not a file")
    } else if len > MAX_UPLOAD_MATERIALIZE_BYTES {
        Err("file is too large")
    } else {
        Ok(())
    }
}

} // verus!

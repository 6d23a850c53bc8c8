//! The office editor's discovery document: which editor actions it
//! offers, which one a document opens with, how an editor URL is rewritten
//! under the host's own proxy prefix, and the bounded discovery cache.

use vstd::prelude::*;
use quick_xml::events::Event;
use quick_xml::reader::Reader;
use crate::lexical::{decode_utf8_lossy, eq_ignore_ascii_case, eq_ignore_ascii_case_exec, utf8_lossy};
use crate::text::{chars_equal, chars_of, find_text, is_text, lowercase_of, occurs_at, slice_chars, string_of, to_lowercase};

verus! {

/// Largest discovery response accepted, in bytes.
pub const MAX_DISCOVERY_BYTES: usize = 4_194_304;

/// Most actions collected from one discovery response.
pub const MAX_DISCOVERY_ACTIONS: usize = 2000;

/// One `<action>` of the discovery document.
#[derive(Clone, Debug)]
pub struct DiscoveredAction {
    pub extension: String,
    pub name: String,
    pub urlsrc: String,
}

/// An action as its three texts.
pub open spec fn action_view(a: DiscoveredAction) -> (Seq<char>, Seq<char>, Seq<char>) {
    (a.extension@, a.name@, a.urlsrc@)
}

pub open spec fn actions_view(actions: Seq<DiscoveredAction>) -> Seq<(Seq<char>, Seq<char>, Seq<char>)> {
    actions.map_values(|a: DiscoveredAction| action_view(a))
}

/// Why discovery failed.
#[derive(Debug)]
pub enum DiscoveryError {
    /// The request failed, with its message.
    Request(String),
    /// The response exceeded [`MAX_DISCOVERY_BYTES`].
    TooLarge,
    /// The document is not well-formed XML, with the parser's message.
    Parse(String),
}

/// One event of an XML document as the parser reports it.
#[derive(Clone, Debug)]
pub enum XmlEvent {
    /// A start or empty-element tag: its name, and its well-formed
    /// attributes in order as raw key and value bytes.
    Tag(Vec<u8>, Vec<(Vec<u8>, Vec<u8>)>),
    /// Any other event: end tag, text, comment, declaration.
    Other,
    /// The end of the document.
    Eof,
    /// A syntax error, with the parser's message.
    Error(String),
}

/// An XML event as the discovery rules read it.
pub enum XmlItem {
    Tag { name: Seq<u8>, attributes: Seq<(Seq<u8>, Seq<u8>)> },
    Other,
    Eof,
    Error { message: Seq<char> },
}

pub open spec fn attributes_view(attrs: Seq<(Vec<u8>, Vec<u8>)>) -> Seq<(Seq<u8>, Seq<u8>)> {
    attrs.map_values(|a: (Vec<u8>, Vec<u8>)| (a.0@, a.1@))
}

pub open spec fn event_view(e: XmlEvent) -> XmlItem {
    match e {
        XmlEvent::Tag(name, attrs) => XmlItem::Tag { name: name@, attributes: attributes_view(attrs@) },
        XmlEvent::Other => XmlItem::Other,
        XmlEvent::Eof => XmlItem::Eof,
        XmlEvent::Error(m) => XmlItem::Error { message: m@ },
    }
}

pub open spec fn events_view(events: Seq<XmlEvent>) -> Seq<XmlItem> {
    events.map_values(|e: XmlEvent| event_view(e))
}

/// The events `quick_xml` reads from `bytes` with its default reader
/// configuration, up to and including the end of the document or the
/// first error.
pub uninterp spec fn xml_events(bytes: Seq<u8>) -> Seq<XmlItem>;

/// Reads every event of an XML document.
///
/// Trusted: drives `quick_xml::reader::Reader` over `bytes` with
/// `read_event_into` until `Eof` or an error, converting each event;
/// a tag's attributes are those its `attributes()` iterator yields without
/// error. The contract names the sequence, a function of the bytes alone.
#[verifier::external_body]
fn read_xml_events(bytes: &[u8]) -> (events: Vec<XmlEvent>)
    ensures
        events_view(events@) == xml_events(bytes@),
{
    let mut reader = Reader::from_reader(bytes);
    let mut events = Vec::new();
    let mut buf = Vec::new();
    while !matches!(events.last(), Some(XmlEvent::Eof | XmlEvent::Error(_))) {
        events.push(match reader.read_event_into(&mut buf) {
            Ok(Event::Start(e) | Event::Empty(e)) => XmlEvent::Tag(e.name().0.to_vec(), e.attributes().flatten().map(|a| (a.key.0.to_vec(), a.value.to_vec())).collect()),
            Ok(Event::Eof) => XmlEvent::Eof,
            Ok(_) => XmlEvent::Other,
            Err(e) => XmlEvent::Error(e.to_string()),
        });
        buf.clear();
    }
    events
}

} // verus!

verus! {

/// The bytes of `action`.
pub open spec fn action_tag() -> Seq<u8> {
    seq![97u8, 99u8, 116u8, 105u8, 111u8, 110u8]
}

pub open spec fn ext_key() -> Seq<u8> {
    seq![101u8, 120u8, 116u8]
}

pub open spec fn name_key() -> Seq<u8> {
    seq![110u8, 97u8, 109u8, 101u8]
}

pub open spec fn urlsrc_key() -> Seq<u8> {
    seq![117u8, 114u8, 108u8, 115u8, 114u8, 99u8]
}

/// The value of the last attribute named `key`, if any.
pub open spec fn attr_value(attrs: Seq<(Seq<u8>, Seq<u8>)>, key: Seq<u8>) -> Option<Seq<u8>>
    decreases attrs.len(),
{
    if attrs.len() == 0 {
        None
    } else if attrs.last().0 == key {
        Some(attrs.last().1)
    } else {
        attr_value(attrs.drop_last(), key)
    }
}

/// The action an `<action>` tag describes, when it has `ext`, `name` and
/// `urlsrc`, each value decoded as UTF-8 (invalid sequences replaced).
pub open spec fn action_of(attrs: Seq<(Seq<u8>, Seq<u8>)>) -> Option<
    (Seq<char>, Seq<char>, Seq<char>),
> {
    match (attr_value(attrs, ext_key()), attr_value(attrs, name_key()), attr_value(attrs, urlsrc_key())) {
        (Some(e), Some(n), Some(u)) => Some((utf8_lossy(e), utf8_lossy(n), utf8_lossy(u))),
        _ => None,
    }
}

/// Collects actions from `events[i..]` after `acc`: every complete
/// `<action>` tag in order, stopping at the end of the document, at
/// [`MAX_DISCOVERY_ACTIONS`] actions, or with the first error.
pub open spec fn discovery_from(
    events: Seq<XmlItem>,
    i: int,
    acc: Seq<(Seq<char>, Seq<char>, Seq<char>)>,
) -> Result<Seq<(Seq<char>, Seq<char>, Seq<char>)>, Seq<char>>
    decreases events.len() - i,
{
    if i < 0 || i >= events.len() {
        Ok(acc)
    } else {
        match events[i] {
            XmlItem::Eof => Ok(acc),
            XmlItem::Error { message } => Err(message),
            XmlItem::Tag { name, attributes } => if name == action_tag() {
                match action_of(attributes) {
                    Some(a) => if acc.len() + 1 >= MAX_DISCOVERY_ACTIONS {
                        Ok(acc.push(a))
                    } else {
                        discovery_from(events, i + 1, acc.push(a))
                    },
                    None => discovery_from(events, i + 1, acc),
                }
            } else {
                discovery_from(events, i + 1, acc)
            },
            XmlItem::Other => discovery_from(events, i + 1, acc),
        }
    }
}

pub open spec fn spec_discovery(events: Seq<XmlItem>) -> Result<
    Seq<(Seq<char>, Seq<char>, Seq<char>)>,
    Seq<char>,
> {
    discovery_from(events, 0, Seq::empty())
}

fn bytes_equal(a: &[u8], b: &[u8]) -> (r: bool)
    ensures
        r == (a@ == b@),
{
    if a.len() != b.len() {
        return false;
    }
    let mut i: usize = 0;
    while i < a.len()
        invariant
            i <= a@.len(),
            a@.len() == b@.len(),
            forall|j: int| 0 <= j < i ==> a@[j] == b@[j],
        decreases a@.len() - i,
    {
        if a[i] != b[i] {
            return false;
        }
        i = i + 1;
    }
    proof {
        assert(a@ =~= b@);
    }
    true
}

/// The action an `<action>` tag's attributes describe.
fn action_from_attributes(attrs: &Vec<(Vec<u8>, Vec<u8>)>) -> (r: Option<DiscoveredAction>)
    ensures
        match r {
            Some(a) => action_of(attributes_view(attrs@)) == Some(action_view(a)),
            None => action_of(attributes_view(attrs@)) is None,
        },
{
    let ghost av = attributes_view(attrs@);
    let ext_k: Vec<u8> = vec![101u8, 120u8, 116u8];
    let name_k: Vec<u8> = vec![110u8, 97u8, 109u8, 101u8];
    let url_k: Vec<u8> = vec![117u8, 114u8, 108u8, 115u8, 114u8, 99u8];
    proof {
        assert(ext_k@ =~= ext_key());
        assert(name_k@ =~= name_key());
        assert(url_k@ =~= urlsrc_key());
    }
    let mut ext: Option<usize> = None;
    let mut name: Option<usize> = None;
    let mut url: Option<usize> = None;
    let mut k: usize = 0;
    proof {
        assert(av.take(0) =~= Seq::<(Seq<u8>, Seq<u8>)>::empty());
    }
    while k < attrs.len()
        invariant
            k <= attrs@.len(),
            av == attributes_view(attrs@),
            av.len() == attrs@.len(),
            ext_k@ == ext_key(),
            name_k@ == name_key(),
            url_k@ == urlsrc_key(),
            match ext {
                Some(x) => x < k && attr_value(av.take(k as int), ext_key()) == Some(av[x as int].1),
                None => attr_value(av.take(k as int), ext_key()) is None,
            },
            match name {
                Some(x) => x < k && attr_value(av.take(k as int), name_key()) == Some(av[x as int].1),
                None => attr_value(av.take(k as int), name_key()) is None,
            },
            match url {
                Some(x) => x < k && attr_value(av.take(k as int), urlsrc_key()) == Some(av[x as int].1),
                None => attr_value(av.take(k as int), urlsrc_key()) is None,
            },
        decreases attrs@.len() - k,
    {
        let key = &attrs[k].0;
        proof {
            assert(av.take(k + 1).drop_last() =~= av.take(k as int));
            assert(av[k as int] == (attrs@[k as int].0@, attrs@[k as int].1@));
        }
        if bytes_equal(key.as_slice(), ext_k.as_slice()) {
            ext = Some(k);
        }
        if bytes_equal(key.as_slice(), name_k.as_slice()) {
            name = Some(k);
        }
        if bytes_equal(key.as_slice(), url_k.as_slice()) {
            url = Some(k);
        }
        k = k + 1;
    }
    proof {
        assert(av.take(attrs@.len() as int) =~= av);
    }
    match (ext, name, url) {
        (Some(e), Some(n), Some(u)) => {
            let extension = decode_utf8_lossy(attrs[e].1.as_slice());
            let action_name = decode_utf8_lossy(attrs[n].1.as_slice());
            let urlsrc = decode_utf8_lossy(attrs[u].1.as_slice());
            Some(DiscoveredAction { extension, name: action_name, urlsrc })
        },
        _ => None,
    }
}

/// Collects the editor actions from the events of a discovery document:
/// every `<action>` tag with `ext`, `name` and `urlsrc`, in order, at most
/// [`MAX_DISCOVERY_ACTIONS`]; the first syntax error fails the whole
/// document unless that many were already collected.
pub fn discovery_from_events(events: &[XmlEvent]) -> (r: Result<Vec<DiscoveredAction>, DiscoveryError>)
    ensures
        match r {
            Ok(actions) => spec_discovery(events_view(events@)) == Ok::<
                Seq<(Seq<char>, Seq<char>, Seq<char>)>,
                Seq<char>,
            >(actions_view(actions@)),
            Err(DiscoveryError::Parse(m)) => spec_discovery(events_view(events@)) == Err::<
                Seq<(Seq<char>, Seq<char>, Seq<char>)>,
                Seq<char>,
            >(m@),
            Err(_) => false,
        },
{
    let ghost ev = events_view(events@);
    let mut actions: Vec<DiscoveredAction> = Vec::new();
    let mut i: usize = 0;
    proof {
        assert(actions_view(actions@) =~= Seq::<(Seq<char>, Seq<char>, Seq<char>)>::empty());
    }
    while i < events.len()
        invariant
            i <= events@.len(),
            ev == events_view(events@),
            ev.len() == events@.len(),
            actions@.len() < MAX_DISCOVERY_ACTIONS,
            spec_discovery(ev) == discovery_from(ev, i as int, actions_view(actions@)),
        decreases events@.len() - i,
    {
        proof {
            assert(ev[i as int] == event_view(events@[i as int]));
        }
        match &events[i] {
            XmlEvent::Eof => {
                return Ok(actions);
            },
            XmlEvent::Error(m) => {
                return Err(DiscoveryError::Parse(string_of(chars_of(m.as_str()).as_slice())));
            },
            XmlEvent::Tag(name, attrs) => {
                let tag: Vec<u8> = vec![97u8, 99u8, 116u8, 105u8, 111u8, 110u8];
                proof {
                    assert(tag@ =~= action_tag());
                }
                if bytes_equal(name.as_slice(), tag.as_slice()) {
                    match action_from_attributes(attrs) {
                        Some(a) => {
                            let ghost before = actions_view(actions@);
                            actions.push(a);
                            proof {
                                assert(actions_view(actions@) =~= before.push(action_view(a)));
                            }
                            if actions.len() >= MAX_DISCOVERY_ACTIONS {
                                return Ok(actions);
                            }
                        },
                        None => {},
                    }
                }
            },
            XmlEvent::Other => {},
        }
        i = i + 1;
    }
    Ok(actions)
}

/// Parses a discovery document.
pub fn parse_discovery_xml(bytes: &[u8]) -> (r: Result<Vec<DiscoveredAction>, DiscoveryError>)
    ensures
        match r {
            Ok(actions) => spec_discovery(xml_events(bytes@)) == Ok::<
                Seq<(Seq<char>, Seq<char>, Seq<char>)>,
                Seq<char>,
            >(actions_view(actions@)),
            Err(DiscoveryError::Parse(m)) => spec_discovery(xml_events(bytes@)) == Err::<
                Seq<(Seq<char>, Seq<char>, Seq<char>)>,
                Seq<char>,
            >(m@),
            Err(_) => false,
        },
{
    let events = read_xml_events(bytes);
    discovery_from_events(events.as_slice())
}

/// Checks a fetched discovery response's size, then parses it.
pub fn discovery_from_body(bytes: &[u8]) -> (r: Result<Vec<DiscoveredAction>, DiscoveryError>)
    ensures
        bytes@.len() > MAX_DISCOVERY_BYTES ==> r matches Err(DiscoveryError::TooLarge),
        bytes@.len() <= MAX_DISCOVERY_BYTES ==> match r {
            Ok(actions) => spec_discovery(xml_events(bytes@)) == Ok::<
                Seq<(Seq<char>, Seq<char>, Seq<char>)>,
                Seq<char>,
            >(actions_view(actions@)),
            Err(DiscoveryError::Parse(m)) => spec_discovery(xml_events(bytes@)) == Err::<
                Seq<(Seq<char>, Seq<char>, Seq<char>)>,
                Seq<char>,
            >(m@),
            Err(_) => false,
        },
{
    if bytes.len() > MAX_DISCOVERY_BYTES {
        return Err(DiscoveryError::TooLarge);
    }
    parse_discovery_xml(bytes)
}

} // verus!

verus! {

/// `a` is for extension `ext` (ignoring ASCII case) and named `name`.
pub open spec fn action_matches(a: DiscoveredAction, ext: Seq<char>, name: Seq<char>) -> bool {
    eq_ignore_ascii_case(a.extension@, ext) && a.name@ == name
}

/// The first action of `actions[i..]` that matches.
pub open spec fn first_action_from(
    actions: Seq<DiscoveredAction>,
    ext: Seq<char>,
    name: Seq<char>,
    i: int,
) -> Option<int>
    decreases actions.len() - i,
{
    if i < 0 || i >= actions.len() {
        None
    } else if action_matches(actions[i], ext, name) {
        Some(i)
    } else {
        first_action_from(actions, ext, name, i + 1)
    }
}

/// Which action opens a document: for read-write access the first `edit`
/// action of its (lower-cased) extension, else the first `view` action.
pub open spec fn spec_select_action(
    actions: Seq<DiscoveredAction>,
    extension: Seq<char>,
    read_write: bool,
) -> Option<int> {
    let ext = lowercase_of(extension);
    let edit = first_action_from(actions, ext, "edit"@, 0);
    if read_write && edit is Some {
        edit
    } else {
        first_action_from(actions, ext, "view"@, 0)
    }
}

fn first_action(actions: &[DiscoveredAction], ext: &[char], name: &str) -> (r: Option<usize>)
    ensures
        match r {
            Some(i) => i < actions@.len() && first_action_from(actions@, ext@, name@, 0) == Some(
                i as int,
            ),
            None => first_action_from(actions@, ext@, name@, 0) is None,
        },
{
    let mut i: usize = 0;
    while i < actions.len()
        invariant
            i <= actions@.len(),
            first_action_from(actions@, ext@, name@, 0) == first_action_from(
                actions@,
                ext@,
                name@,
                i as int,
            ),
        decreases actions@.len() - i,
    {
        let a = &actions[i];
        let hit = eq_ignore_ascii_case_exec(chars_of(a.extension.as_str()).as_slice(), ext) && is_text(
            chars_of(a.name.as_str()).as_slice(),
            name,
        );
        if hit {
            return Some(i);
        }
        i = i + 1;
    }
    None
}

/// Picks the action a document opens with, preferring `edit` with
/// read-write access and falling back to `view`: a read-only document never
/// gets an edit URL.
pub fn select_action<'a>(actions: &'a [DiscoveredAction], extension: &str, read_write: bool) -> (r:
    Option<&'a DiscoveredAction>)
    ensures
        r == match spec_select_action(actions@, extension@, read_write) {
            Some(i) => Some(&actions@[i]),
            None => None,
        },
{
    let lowered = to_lowercase(extension);
    let ext = chars_of(lowered.as_str());
    if read_write {
        match first_action(actions, ext.as_slice(), "edit") {
            Some(i) => {
                return Some(&actions[i]);
            },
            None => {},
        }
    }
    match first_action(actions, ext.as_slice(), "view") {
        Some(i) => Some(&actions[i]),
        None => None,
    }
}

/// A read-only document is never given an edit action.
pub proof fn lemma_read_only_never_edits(actions: Seq<DiscoveredAction>, extension: Seq<char>)
    ensures
        spec_select_action(actions, extension, false) matches Some(i) ==> actions[i].name@
            == "view"@,
{
    let ext = lowercase_of(extension);
    lemma_first_action_matches(actions, ext, "view"@, 0);
}

proof fn lemma_first_action_matches(
    actions: Seq<DiscoveredAction>,
    ext: Seq<char>,
    name: Seq<char>,
    i: int,
)
    ensures
        first_action_from(actions, ext, name, i) matches Some(k) ==> 0 <= k < actions.len()
            && action_matches(actions[k], ext, name),
    decreases actions.len() - i,
{
    if 0 <= i < actions.len() && !action_matches(actions[i], ext, name) {
        lemma_first_action_matches(actions, ext, name, i + 1);
    }
}

/// The first position at which `needle` occurs in `hay`.
pub open spec fn first_occurrence(hay: Seq<char>, needle: Seq<char>) -> Option<int> {
    if exists|i: int| occurs_at(hay, needle, i) {
        Some(
            choose|i: int|
                occurs_at(hay, needle, i) && forall|j: int|
                    0 <= j < i ==> !#[trigger] occurs_at(hay, needle, j),
        )
    } else {
        None
    }
}

proof fn lemma_first_occurrence(hay: Seq<char>, needle: Seq<char>, i: int)
    requires
        occurs_at(hay, needle, i),
        forall|j: int| 0 <= j < i ==> !#[trigger] occurs_at(hay, needle, j),
    ensures
        first_occurrence(hay, needle) == Some(i),
{
    let k = choose|k: int|
        occurs_at(hay, needle, k) && forall|j: int| 0 <= j < k ==> !#[trigger] occurs_at(hay, needle, j);
    assert(occurs_at(hay, needle, k) && forall|j: int|
        0 <= j < k ==> !#[trigger] occurs_at(hay, needle, j));
    if k < i {
        assert(!occurs_at(hay, needle, k));
    }
    if i < k {
        assert(!occurs_at(hay, needle, i));
    }
}

/// An editor URL with its scheme and host removed: the path and query
/// after the first `://` (just `/` when there is no path), or the text
/// unchanged when it has no scheme.
pub open spec fn spec_path_and_query(urlsrc: Seq<char>) -> Seq<char> {
    match first_occurrence(urlsrc, "://"@) {
        Some(k) => {
            let after = urlsrc.skip(k + 3);
            match first_occurrence(after, seq!['/']) {
                Some(s) => after.skip(s),
                None => seq!['/'],
            }
        },
        None => urlsrc,
    }
}

/// Strips the scheme and host from a discovery `urlsrc`, so that the
/// editor is reached under the host's own authenticated proxy prefix.
pub fn path_and_query(urlsrc: &str) -> (r: String)
    ensures
        r@ == spec_path_and_query(urlsrc@),
{
    let u = chars_of(urlsrc);
    let sep = chars_of("://");
    match find_text(u.as_slice(), sep.as_slice()) {
        Some(k) => {
            proof {
                lemma_first_occurrence(u@, sep@, k as int);
                reveal_strlit("://");
                assert(sep@.len() == 3);
                assert(k + 3 <= u@.len());
            }
            let n = u.len();
            let after = slice_chars(u.as_slice(), k + 3, n);
            proof {
                assert(after@ =~= u@.skip(k + 3));
            }
            let slash = chars_of("/");
            proof {
                reveal_strlit("/");
                assert(slash@ =~= seq!['/']);
            }
            match find_text(after.as_slice(), slash.as_slice()) {
                Some(s) => {
                    proof {
                        lemma_first_occurrence(after@, slash@, s as int);
                    }
                    let rest = slice_chars(after.as_slice(), s, after.len());
                    proof {
                        assert(rest@ =~= after@.skip(s as int));
                    }
                    string_of(rest.as_slice())
                },
                None => {
                    proof {
                        if exists|i: int| occurs_at(after@, slash@, i) {
                            let i = choose|i: int| occurs_at(after@, slash@, i);
                            assert(crate::text::contains_text(after@, slash@));
                        }
                    }
                    string_of(slash.as_slice())
                },
            }
        },
        None => {
            proof {
                if exists|i: int| occurs_at(u@, sep@, i) {
                    let i = choose|i: int| occurs_at(u@, sep@, i);
                    assert(crate::text::contains_text(u@, sep@));
                }
            }
            string_of(u.as_slice())
        },
    }
}

} // verus!

verus! {

/// Most discovery results cached at once.
pub const MAX_CACHE_ENTRIES: usize = 16;

/// How long a cached discovery result stays usable, in milliseconds.
pub const DISCOVERY_TTL_MILLIS: u64 = 300_000;

/// A cached discovery result for one editor address.
pub struct CacheEntry {
    pub base_url: String,
    pub actions: Vec<DiscoveredAction>,
    /// The runtime generation the result was fetched from.
    pub generation: i64,
    /// When it was fetched, on the monotonic clock in milliseconds.
    pub fetched_at_ms: u64,
}

/// Discovery results keyed by editor address, each valid only for the
/// runtime generation it came from and within [`DISCOVERY_TTL_MILLIS`].
pub struct DiscoveryCache {
    pub entries: Vec<CacheEntry>,
}

/// The first entry of `entries[i..]` for `key`.
pub open spec fn entry_from(entries: Seq<CacheEntry>, key: Seq<char>, i: int) -> Option<int>
    decreases entries.len() - i,
{
    if i < 0 || i >= entries.len() {
        None
    } else if entries[i].base_url@ == key {
        Some(i)
    } else {
        entry_from(entries, key, i + 1)
    }
}

/// Time passed since `then`; the monotonic clock never runs backwards, so
/// an earlier reading counts as no time.
pub open spec fn elapsed(now: u64, then: u64) -> int {
    if now >= then {
        now - then
    } else {
        0
    }
}

/// What a lookup of `key` for `generation` at `now` returns: the cached
/// actions when the entry is for that generation and still fresh.
pub open spec fn spec_lookup(entries: Seq<CacheEntry>, key: Seq<char>, generation: i64, now: u64) -> Option<
    Seq<(Seq<char>, Seq<char>, Seq<char>)>,
> {
    match entry_from(entries, key, 0) {
        Some(i) => if entries[i].generation == generation && elapsed(now, entries[i].fetched_at_ms)
            < DISCOVERY_TTL_MILLIS {
            Some(actions_view(entries[i].actions@))
        } else {
            None
        },
        None => None,
    }
}

/// At most [`MAX_CACHE_ENTRIES`] entries, one per address.
pub open spec fn cache_wf(entries: Seq<CacheEntry>) -> bool {
    &&& entries.len() <= MAX_CACHE_ENTRIES
    &&& forall|i: int, j: int|
        0 <= i < j < entries.len() ==> entries[i].base_url@ != entries[j].base_url@
}

proof fn lemma_entry_from_absent(entries: Seq<CacheEntry>, key: Seq<char>, i: int)
    requires
        0 <= i,
        forall|j: int| i <= j < entries.len() ==> entries[j].base_url@ != key,
    ensures
        entry_from(entries, key, i) is None,
    decreases entries.len() - i,
{
    if i < entries.len() {
        lemma_entry_from_absent(entries, key, i + 1);
    }
}

proof fn lemma_entry_from_unique(entries: Seq<CacheEntry>, key: Seq<char>, i: int, k: int)
    requires
        0 <= i <= k < entries.len(),
        entries[k].base_url@ == key,
        forall|j: int| i <= j < entries.len() && j != k ==> entries[j].base_url@ != key,
    ensures
        entry_from(entries, key, i) == Some(k),
    decreases entries.len() - i,
{
    if i < k {
        lemma_entry_from_unique(entries, key, i + 1, k);
    }
}

proof fn lemma_entry_from_found(entries: Seq<CacheEntry>, key: Seq<char>, i: int)
    requires
        0 <= i,
    ensures
        entry_from(entries, key, i) matches Some(k) ==> i <= k < entries.len()
            && entries[k].base_url@ == key,
        entry_from(entries, key, i) is None ==> forall|j: int|
            i <= j < entries.len() ==> entries[j].base_url@ != key,
    decreases entries.len() - i,
{
    if i < entries.len() && entries[i].base_url@ != key {
        lemma_entry_from_found(entries, key, i + 1);
    }
}

/// In a well-formed cache, the lookup of a key is decided by the one entry
/// that holds it.
proof fn lemma_lookup_at(entries: Seq<CacheEntry>, key: Seq<char>)
    requires
        cache_wf(entries),
    ensures
        forall|k: int|
            0 <= k < entries.len() && #[trigger] entries[k].base_url@ == key ==> entry_from(
                entries,
                key,
                0,
            ) == Some(k),
        (forall|k: int| 0 <= k < entries.len() ==> #[trigger] entries[k].base_url@ != key)
            ==> entry_from(entries, key, 0) is None,
{
    assert forall|k: int|
        0 <= k < entries.len() && #[trigger] entries[k].base_url@ == key implies entry_from(
        entries,
        key,
        0,
    ) == Some(k) by {
        assert forall|j: int| 0 <= j < entries.len() && j != k implies entries[j].base_url@
            != key by {
            if j < k {
                assert(entries[j].base_url@ != entries[k].base_url@);
            } else {
                assert(entries[k].base_url@ != entries[j].base_url@);
            }
        }
        lemma_entry_from_unique(entries, key, 0, k);
    }
    if forall|k: int| 0 <= k < entries.len() ==> #[trigger] entries[k].base_url@ != key {
        lemma_entry_from_absent(entries, key, 0);
    }
}

fn copy_string(s: &String) -> (r: String)
    ensures
        r@ == s@,
{
    string_of(chars_of(s.as_str()).as_slice())
}

impl DiscoveryCache {
    /// An empty cache.
    pub fn new() -> (c: Self)
        ensures
            c.entries@.len() == 0,
            cache_wf(c.entries@),
    {
        DiscoveryCache { entries: Vec::new() }
    }

    fn find(&self, base_url: &str) -> (r: Option<usize>)
        ensures
            match r {
                Some(i) => i < self.entries@.len() && entry_from(self.entries@, base_url@, 0) == Some(
                    i as int,
                ),
                None => entry_from(self.entries@, base_url@, 0) is None,
            },
    {
        let key = chars_of(base_url);
        let mut i: usize = 0;
        while i < self.entries.len()
            invariant
                i <= self.entries@.len(),
                key@ == base_url@,
                entry_from(self.entries@, base_url@, 0) == entry_from(
                    self.entries@,
                    base_url@,
                    i as int,
                ),
            decreases self.entries@.len() - i,
        {
            if chars_equal(chars_of(self.entries[i].base_url.as_str()).as_slice(), key.as_slice()) {
                return Some(i);
            }
            i = i + 1;
        }
        None
    }

    /// The cached actions for an address when they came from the same
    /// runtime generation and are within the time limit.
    pub fn lookup(&self, base_url: &str, generation: i64, now_ms: u64) -> (r: Option<
        &Vec<DiscoveredAction>,
    >)
        ensures
            match r {
                Some(a) => spec_lookup(self.entries@, base_url@, generation, now_ms) == Some(
                    actions_view(a@),
                ),
                None => spec_lookup(self.entries@, base_url@, generation, now_ms) is None,
            },
    {
        match self.find(base_url) {
            Some(i) => {
                let e = &self.entries[i];
                let age = if now_ms >= e.fetched_at_ms {
                    now_ms - e.fetched_at_ms
                } else {
                    0
                };
                if e.generation == generation && age < DISCOVERY_TTL_MILLIS {
                    Some(&e.actions)
                } else {
                    None
                }
            },
            None => None,
        }
    }

    /// Caches a freshly fetched result for an address, replacing any older
    /// one; when the cache is full and the address is new, one other entry
    /// is evicted to stay within [`MAX_CACHE_ENTRIES`].
    pub fn store(
        &mut self,
        base_url: &str,
        generation: i64,
        now_ms: u64,
        actions: Vec<DiscoveredAction>,
    )
        requires
            cache_wf(old(self).entries@),
        ensures
            cache_wf(final(self).entries@),
            forall|g: i64, t: u64|
                spec_lookup(final(self).entries@, base_url@, g, t) == (if g == generation
                    && elapsed(t, now_ms) < DISCOVERY_TTL_MILLIS {
                    Some(actions_view(actions@))
                } else {
                    None
                }),
            forall|k: Seq<char>, g: i64, t: u64|
                k != base_url@ && (#[trigger] spec_lookup(final(self).entries@, k, g, t)) is Some
                    ==> spec_lookup(final(self).entries@, k, g, t) == spec_lookup(
                    old(self).entries@,
                    k,
                    g,
                    t,
                ),
            old(self).entries@.len() < MAX_CACHE_ENTRIES ==> forall|k: Seq<char>, g: i64, t: u64|
                k != base_url@ ==> #[trigger] spec_lookup(final(self).entries@, k, g, t)
                    == spec_lookup(old(self).entries@, k, g, t),
    {
        let ghost old_entries = self.entries@;
        let entry = CacheEntry {
            base_url: string_of(chars_of(base_url).as_slice()),
            actions,
            generation,
            fetched_at_ms: now_ms,
        };
        let ghost new_entry = entry;
        match self.find(base_url) {
            Some(i) => {
                self.entries.set(i, entry);
                proof {
                    lemma_entry_from_found(old_entries, base_url@, 0);
                    let e = self.entries@;
                    assert(cache_wf(e)) by {
                        assert forall|a: int, b: int| 0 <= a < b < e.len() implies e[a].base_url@
                            != e[b].base_url@ by {
                            assert(old_entries[a].base_url@ != old_entries[b].base_url@);
                        }
                    }
                    lemma_lookup_at(e, base_url@);
                    assert(e[i as int].base_url@ == base_url@);
                    assert forall|k: Seq<char>, g: i64, t: u64| k != base_url@ implies #[trigger] spec_lookup(
                        e,
                        k,
                        g,
                        t,
                    ) == spec_lookup(old_entries, k, g, t) by {
                        lemma_lookup_at(e, k);
                        lemma_lookup_at(old_entries, k);
                        lemma_entry_from_found(old_entries, k, 0);
                        if entry_from(old_entries, k, 0) is Some {
                            let j = entry_from(old_entries, k, 0)->0;
                            assert(j != i);
                            assert(e[j] == old_entries[j]);
                            assert(e[j].base_url@ == k);
                        } else {
                            assert forall|j: int| 0 <= j < e.len() implies #[trigger] e[j].base_url@
                                != k by {
                                if j != i {
                                    assert(e[j] == old_entries[j]);
                                }
                            }
                        }
                    }
                }
            },
            None => {
                proof {
                    lemma_entry_from_found(old_entries, base_url@, 0);
                }
                let full = self.entries.len() >= MAX_CACHE_ENTRIES;
                if full {
                    self.entries.remove(0);
                }
                let ghost mid = self.entries@;
                self.entries.push(entry);
                proof {
                    let e = self.entries@;
                    assert(e.len() <= MAX_CACHE_ENTRIES);
                    assert(forall|j: int| 0 <= j < mid.len() ==> #[trigger] mid[j] == old_entries[j
                        + if full {
                        1int
                    } else {
                        0int
                    }]);
                    assert(cache_wf(e)) by {
                        assert forall|a: int, b: int| 0 <= a < b < e.len() implies e[a].base_url@
                            != e[b].base_url@ by {
                            if b == e.len() - 1 {
                                assert(e[b] == new_entry);
                            }
                        }
                    }
                    lemma_lookup_at(e, base_url@);
                    assert(e[e.len() - 1].base_url@ == base_url@);
                    assert forall|k: Seq<char>, g: i64, t: u64|
                        k != base_url@ && (#[trigger] spec_lookup(e, k, g, t)) is Some implies spec_lookup(
                        e,
                        k,
                        g,
                        t,
                    ) == spec_lookup(old_entries, k, g, t) by {
                        lemma_lookup_at(e, k);
                        lemma_lookup_at(old_entries, k);
                        lemma_entry_from_found(e, k, 0);
                        let j = entry_from(e, k, 0)->0;
                        let off: int = if full {
                            1
                        } else {
                            0
                        };
                        assert(e[j] == old_entries[j + off]);
                    }
                    if !full {
                        assert forall|k: Seq<char>, g: i64, t: u64| k != base_url@ implies #[trigger] spec_lookup(
                            e,
                            k,
                            g,
                            t,
                        ) == spec_lookup(old_entries, k, g, t) by {
                            lemma_lookup_at(e, k);
                            lemma_lookup_at(old_entries, k);
                            lemma_entry_from_found(e, k, 0);
                            lemma_entry_from_found(old_entries, k, 0);
                            if entry_from(old_entries, k, 0) is Some {
                                let j = entry_from(old_entries, k, 0)->0;
                                assert(e[j] == old_entries[j]);
                                assert(e[j].base_url@ == k);
                                assert(entry_from(e, k, 0) == Some(j));
                                assert(spec_lookup(e, k, g, t) == spec_lookup(old_entries, k, g, t));
                            } else {
                                assert forall|j: int| 0 <= j < e.len() implies #[trigger] e[j].base_url@
                                    != k by {
                                    if j < old_entries.len() {
                                        assert(e[j] == old_entries[j]);
                                    } else {
                                        assert(e[j] == new_entry);
                                    }
                                }
                                assert(entry_from(e, k, 0) is None);
                                assert(spec_lookup(e, k, g, t) == spec_lookup(old_entries, k, g, t));
                            }
                        }
                    }
                }
            },
        }
    }

    /// Drops every cached result, so that nothing fetched before is served
    /// again.
    pub fn clear_for_test(&mut self)
        ensures
            final(self).entries@.len() == 0,
            cache_wf(final(self).entries@),
            forall|k: Seq<char>, g: i64, t: u64| #[trigger] spec_lookup(final(self).entries@, k, g, t)
                is None,
    {
        self.entries = Vec::new();
    }
}

/// A result cached for one runtime generation is never served for another:
/// a restarted editor is always asked afresh.
pub proof fn lemma_generation_change_misses(
    entries: Seq<CacheEntry>,
    key: Seq<char>,
    stored: i64,
    asked: i64,
    now: u64,
)
    requires
        entry_from(entries, key, 0) matches Some(i) && entries[i].generation == stored,
        stored != asked,
    ensures
        spec_lookup(entries, key, asked, now) is None,
{
}

} // verus!

verus! {

/// Where the editor finds the document when no WOPI host base is
/// configured.
pub const DEFAULT_WOPI_HOST_BASE: &'static str = "http://host.docker.internal";

/// The editor URL a document opens at: the action's path and query under
/// the instance's authenticated proxy prefix, then the document's WOPI
/// source (percent-encoded) and its access token.
pub open spec fn spec_editor_url(
    instance_id: Seq<char>,
    urlsrc: Seq<char>,
    wopi_host_base: Seq<char>,
    file_id: Seq<char>,
    token: Seq<char>,
) -> Seq<char> {
    let prefix = "/api/v1/runtime-instances/office/"@ + instance_id + "/office-proxy"@;
    let action_path = spec_path_and_query(urlsrc);
    let wopi_src = wopi_host_base + "/wopi/files/"@ + file_id;
    let separator = if action_path.contains('?') {
        '&'
    } else {
        '?'
    };
    prefix + action_path + seq![separator] + "WOPISrc="@ + crate::web::spec_percent_encode(
        vstd::utf8::encode_utf8(wopi_src),
    ) + "&access_token="@ + token
}

/// Builds the editor URL for an opened document.
pub fn editor_url(
    instance_id: &str,
    urlsrc: &str,
    wopi_host_base: Option<&str>,
    file_id: &str,
    token: &str,
) -> (u: String)
    ensures
        u@ == spec_editor_url(
            instance_id@,
            urlsrc@,
            match wopi_host_base {
                Some(b) => b@,
                None => DEFAULT_WOPI_HOST_BASE@,
            },
            file_id@,
            token@,
        ),
{
    let mut out = chars_of("/api/v1/runtime-instances/office/");
    crate::text::append_chars(&mut out, chars_of(instance_id).as_slice());
    crate::text::append_chars(&mut out, chars_of("/office-proxy").as_slice());
    let action_path = path_and_query(urlsrc);
    let ap = chars_of(action_path.as_str());
    crate::text::append_chars(&mut out, ap.as_slice());
    let base = match wopi_host_base {
        Some(b) => b,
        None => DEFAULT_WOPI_HOST_BASE,
    };
    let mut src = chars_of(base);
    crate::text::append_chars(&mut src, chars_of("/wopi/files/").as_slice());
    crate::text::append_chars(&mut src, chars_of(file_id).as_slice());
    let wopi_src = string_of(src.as_slice());
    if crate::text::contains_char(ap.as_slice(), '?') {
        out.push('&');
    } else {
        out.push('?');
    }
    crate::text::append_chars(&mut out, chars_of("WOPISrc=").as_slice());
    let encoded = crate::web::urlencode(wopi_src.as_str());
    crate::text::append_chars(&mut out, chars_of(encoded.as_str()).as_slice());
    crate::text::append_chars(&mut out, chars_of("&access_token=").as_slice());
    crate::text::append_chars(&mut out, chars_of(token).as_slice());
    proof {
        let b = match wopi_host_base {
            Some(b) => b@,
            None => DEFAULT_WOPI_HOST_BASE@,
        };
        assert(out@ =~= spec_editor_url(instance_id@, urlsrc@, b, file_id@, token@));
    }
    string_of(out.as_slice())
}

} // verus!

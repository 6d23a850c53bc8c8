//! POSIX ACL entries: reading `getfacl` output and writing `setfacl`
//! modification specs.

use vstd::prelude::*;
use vstd::utf8::encode_utf8;
use crate::text::{contains_text, contains_text_exec, lowercase_of, to_lowercase, append_chars, chars_of, is_text, join_from, join_with, split_chars, split_on, string_of, trim_ws, trim_ws_exec};
use crate::vfs::VfsError;

verus! {

#[derive(Clone, Copy, Debug, PartialEq, Eq)]
pub enum AclQualifierKind {
    OwningUser,
    User,
    OwningGroup,
    Group,
    Mask,
    Other,
}

#[derive(Clone, Debug)]
pub struct AclEntry {
    pub kind: AclQualifierKind,
    /// Present only for `User`/`Group` entries: the named user or group.
    pub name: Option<String>,
    pub read: bool,
    pub write: bool,
    pub execute: bool,
}

/// An ACL entry as plain values.
pub struct AclEntryView {
    pub kind: AclQualifierKind,
    pub name: Option<Seq<char>>,
    pub read: bool,
    pub write: bool,
    pub execute: bool,
}

impl View for AclEntry {
    type V = AclEntryView;

    open spec fn view(&self) -> AclEntryView {
        AclEntryView {
            kind: self.kind,
            name: match self.name {
                Some(n) => Some(n@),
                None => None,
            },
            read: self.read,
            write: self.write,
            execute: self.execute,
        }
    }
}

/// The `(read, write, execute)` bits of a three-byte permission field:
/// each bit is set exactly when its byte is `r`, `w` or `x`.
pub open spec fn spec_parse_permissions(field: Seq<char>) -> Option<(bool, bool, bool)> {
    let b = encode_utf8(field);
    if b.len() != 3 {
        None
    } else {
        Some((b[0] == 0x72u8, b[1] == 0x77u8, b[2] == 0x78u8))
    }
}

/// Parses a `getfacl` permission field such as `rw-`.
pub fn parse_permissions(field: &str) -> (res: Option<(bool, bool, bool)>)
    ensures
        res == spec_parse_permissions(field@),
{
    let bytes = field.as_bytes();
    if bytes.len() != 3 {
        return None;
    }
    Some((bytes[0] == 0x72u8, bytes[1] == 0x77u8, bytes[2] == 0x78u8))
}

/// The entry a `tag:qualifier:perms` line describes, if any.
pub open spec fn spec_entry_of(
    tag: Seq<char>,
    qualifier: Seq<char>,
    perms: Seq<char>,
) -> Option<AclEntryView> {
    match spec_parse_permissions(perms) {
        None => None,
        Some((r, w, x)) => {
            if tag == "user"@ {
                if qualifier.len() == 0 {
                    Some(
                        AclEntryView {
                            kind: AclQualifierKind::OwningUser,
                            name: None,
                            read: r,
                            write: w,
                            execute: x,
                        },
                    )
                } else {
                    Some(
                        AclEntryView {
                            kind: AclQualifierKind::User,
                            name: Some(qualifier),
                            read: r,
                            write: w,
                            execute: x,
                        },
                    )
                }
            } else if tag == "group"@ {
                if qualifier.len() == 0 {
                    Some(
                        AclEntryView {
                            kind: AclQualifierKind::OwningGroup,
                            name: None,
                            read: r,
                            write: w,
                            execute: x,
                        },
                    )
                } else {
                    Some(
                        AclEntryView {
                            kind: AclQualifierKind::Group,
                            name: Some(qualifier),
                            read: r,
                            write: w,
                            execute: x,
                        },
                    )
                }
            } else if tag == "mask"@ {
                Some(
                    AclEntryView {
                        kind: AclQualifierKind::Mask,
                        name: None,
                        read: r,
                        write: w,
                        execute: x,
                    },
                )
            } else if tag == "other"@ {
                Some(
                    AclEntryView {
                        kind: AclQualifierKind::Other,
                        name: None,
                        read: r,
                        write: w,
                        execute: x,
                    },
                )
            } else {
                None
            }
        },
    }
}

/// The entry one line of `getfacl` output describes: blank lines and
/// `#` comments describe none, the rest is `tag:qualifier:perms` with the
/// permissions possibly holding further colons.
pub open spec fn spec_entry_of_line(line: Seq<char>) -> Option<AclEntryView> {
    let t = trim_ws(line);
    if t.len() == 0 || t[0] == '#' {
        None
    } else {
        let fields = split_on(t, ':');
        if fields.len() < 3 {
            None
        } else {
            spec_entry_of(fields[0], fields[1], join_with(fields.skip(2), seq![':']))
        }
    }
}

/// The entries of the given lines, in order.
pub open spec fn spec_entries_of_lines(lines: Seq<Seq<char>>) -> Seq<AclEntryView>
    decreases lines.len(),
{
    if lines.len() == 0 {
        Seq::empty()
    } else {
        let before = spec_entries_of_lines(lines.drop_last());
        match spec_entry_of_line(lines.last()) {
            Some(e) => before.push(e),
            None => before,
        }
    }
}

/// The entries of a whole `getfacl --omit-header` listing.
pub open spec fn spec_parse_getfacl_output(text: Seq<char>) -> Seq<AclEntryView> {
    spec_entries_of_lines(split_on(text, '\n'))
}

fn entry_of_line(line: &[char]) -> (res: Option<AclEntry>)
    ensures
        match res {
            Some(e) => spec_entry_of_line(line@) == Some(e@),
            None => spec_entry_of_line(line@) is None,
        },
{
    let t = trim_ws_exec(line);
    if t.len() == 0 || t[0] == '#' {
        return None;
    }
    let fields = split_chars(t.as_slice(), ':');
    if fields.len() < 3 {
        return None;
    }
    let perms = join_from(&fields, 2, ':');
    proof {
        let all = split_on(t@, ':');
        assert(Seq::new((fields@.len() - 2) as nat, |i: int| fields@[2 + i]@) =~= all.skip(2));
    }
    let perms_text = string_of(perms.as_slice());
    let (read, write, execute) = match parse_permissions(perms_text.as_str()) {
        Some(p) => p,
        None => return None,
    };
    let tag = &fields[0];
    let qualifier = &fields[1];
    if is_text(tag.as_slice(), "user") {
        if qualifier.len() == 0 {
            Some(AclEntry { kind: AclQualifierKind::OwningUser, name: None, read, write, execute })
        } else {
            Some(
                AclEntry {
                    kind: AclQualifierKind::User,
                    name: Some(string_of(qualifier.as_slice())),
                    read,
                    write,
                    execute,
                },
            )
        }
    } else if is_text(tag.as_slice(), "group") {
        if qualifier.len() == 0 {
            Some(AclEntry { kind: AclQualifierKind::OwningGroup, name: None, read, write, execute })
        } else {
            Some(
                AclEntry {
                    kind: AclQualifierKind::Group,
                    name: Some(string_of(qualifier.as_slice())),
                    read,
                    write,
                    execute,
                },
            )
        }
    } else if is_text(tag.as_slice(), "mask") {
        Some(AclEntry { kind: AclQualifierKind::Mask, name: None, read, write, execute })
    } else if is_text(tag.as_slice(), "other") {
        Some(AclEntry { kind: AclQualifierKind::Other, name: None, read, write, execute })
    } else {
        None
    }
}

/// Parses `getfacl --omit-header` output into ACL entries, skipping
/// comments, blank lines and anything that is not a recognized entry.
pub fn parse_getfacl_output(text: &str) -> (entries: Vec<AclEntry>)
    ensures
        entries@.map_values(|e: AclEntry| e@) == spec_parse_getfacl_output(text@),
{
    let v = chars_of(text);
    let lines = split_chars(&v, '\n');
    let ghost all = split_on(text@, '\n');
    let mut entries: Vec<AclEntry> = Vec::new();
    let mut k: usize = 0;
    while k < lines.len()
        invariant
            k <= lines@.len(),
            all == split_on(text@, '\n'),
            lines@.len() == all.len(),
            forall|i: int| 0 <= i < lines@.len() ==> #[trigger] lines@[i]@ == all[i],
            entries@.map_values(|e: AclEntry| e@) == spec_entries_of_lines(all.take(k as int)),
        decreases lines@.len() - k,
    {
        proof {
            assert(all.take(k + 1).drop_last() =~= all.take(k as int));
            assert(lines@[k as int]@ == all[k as int]);
        }
        match entry_of_line(lines[k].as_slice()) {
            Some(e) => {
                entries.push(e);
                proof {
                    assert(entries@.map_values(|e: AclEntry| e@) =~= spec_entries_of_lines(
                        all.take(k + 1),
                    ));
                }
            },
            None => {
                proof {
                    assert(entries@.map_values(|e: AclEntry| e@) =~= spec_entries_of_lines(
                        all.take(k + 1),
                    ));
                }
            },
        }
        k = k + 1;
    }
    proof {
        assert(all.take(all.len() as int) =~= all);
    }
    entries
}


/// An entry is named exactly when it is a named user or group, and then
/// by a non-empty name; the owning user and group, the mask and the rest
/// carry no name.
pub open spec fn named_exactly_when_qualified(e: AclEntryView) -> bool {
    &&& (e.name is Some <==> (e.kind == AclQualifierKind::User || e.kind == AclQualifierKind::Group))
    &&& (e.name matches Some(n) ==> n.len() > 0)
}

/// A `user` or `group` line with an empty qualifier is the owning user or
/// group, with no name; with a qualifier it is that named user or group.
/// Every entry a line gives is named exactly when it is qualified.
pub proof fn law_empty_qualifier_is_the_owner(tag: Seq<char>, qualifier: Seq<char>, perms: Seq<char>)
    ensures
        spec_entry_of(tag, qualifier, perms) matches Some(e) ==> named_exactly_when_qualified(e)
            && spec_parse_permissions(perms) == Some((e.read, e.write, e.execute)),
        spec_parse_permissions(perms) is Some && tag == "group"@ && qualifier.len() == 0 ==> (spec_entry_of(
            tag,
            qualifier,
            perms,
        ) matches Some(e) && e.kind == AclQualifierKind::OwningGroup && e.name is None),
        spec_parse_permissions(perms) is Some && tag == "user"@ && qualifier.len() == 0 ==> (spec_entry_of(
            tag,
            qualifier,
            perms,
        ) matches Some(e) && e.kind == AclQualifierKind::OwningUser && e.name is None),
        spec_parse_permissions(perms) is Some && tag == "group"@ && qualifier.len() > 0 ==> (spec_entry_of(
            tag,
            qualifier,
            perms,
        ) matches Some(e) && e.kind == AclQualifierKind::Group && e.name == Some(qualifier)),
        spec_parse_permissions(perms) is Some && tag == "user"@ && qualifier.len() > 0 ==> (spec_entry_of(
            tag,
            qualifier,
            perms,
        ) matches Some(e) && e.kind == AclQualifierKind::User && e.name == Some(qualifier)),
{
    reveal_strlit("user");
    reveal_strlit("group");
    reveal_strlit("mask");
    reveal_strlit("other");
    if tag == "group"@ {
        assert(tag != "user"@) by {
            assert(tag[0] != "user"@[0]);
        }
    }
}

/// Every entry parsed from a `getfacl` listing is named exactly when it is
/// a named user or group.
pub proof fn law_parsed_entries_are_named_exactly_when_qualified(text: Seq<char>)
    ensures
        forall|i: int|
            0 <= i < spec_parse_getfacl_output(text).len() ==> named_exactly_when_qualified(
                #[trigger] spec_parse_getfacl_output(text)[i],
            ),
{
    lemma_lines_named(split_on(text, '\n'));
}

proof fn lemma_lines_named(lines: Seq<Seq<char>>)
    ensures
        forall|i: int|
            0 <= i < spec_entries_of_lines(lines).len() ==> named_exactly_when_qualified(
                #[trigger] spec_entries_of_lines(lines)[i],
            ),
    decreases lines.len(),
{
    if lines.len() > 0 {
        lemma_lines_named(lines.drop_last());
        let line = lines.last();
        let t = trim_ws(line);
        if !(t.len() == 0 || t[0] == '#') {
            let fields = split_on(t, ':');
            if fields.len() >= 3 {
                law_empty_qualifier_is_the_owner(fields[0], fields[1], join_with(fields.skip(2), seq![':']));
            }
        }
        let before = spec_entries_of_lines(lines.drop_last());
        match spec_entry_of_line(line) {
            Some(e) => {
                assert(named_exactly_when_qualified(e));
                assert(spec_entries_of_lines(lines) == before.push(e));
                assert forall|i: int| 0 <= i < before.push(e).len() implies named_exactly_when_qualified(
                    #[trigger] before.push(e)[i],
                ) by {
                    if i < before.len() {
                        assert(before.push(e)[i] == before[i]);
                    }
                }
            },
            None => {
                assert(spec_entries_of_lines(lines) == before);
            },
        }
    }
}

} // verus!

verus! {

/// A byte allowed in a user or group name: ASCII letter or digit, `_`,
/// `-` or `.`.
pub open spec fn is_qualifier_byte(b: u8) -> bool {
    (0x30 <= b && b <= 0x39) || (0x41 <= b && b <= 0x5A) || (0x61 <= b && b <= 0x7A) || b == 0x5F
        || b == 0x2D || b == 0x2E
}

/// Linux user/group names: 1 to 64 bytes from the allowed set, which
/// excludes `:` and `,`, the `setfacl` spec delimiters.
pub open spec fn spec_valid_qualifier_name(name: Seq<char>) -> bool {
    let b = encode_utf8(name);
    0 < b.len() <= 64 && forall|i: int| 0 <= i < b.len() ==> is_qualifier_byte(#[trigger] b[i])
}

pub fn valid_qualifier_name(name: &str) -> (ok: bool)
    ensures
        ok == spec_valid_qualifier_name(name@),
{
    let b = name.as_bytes();
    if b.len() == 0 || b.len() > 64 {
        return false;
    }
    let mut i: usize = 0;
    while i < b.len()
        invariant
            i <= b@.len(),
            b@ == encode_utf8(name@),
            forall|k: int| 0 <= k < i ==> is_qualifier_byte(#[trigger] b@[k]),
        decreases b@.len() - i,
    {
        let c = b[i];
        let allowed = (0x30 <= c && c <= 0x39) || (0x41 <= c && c <= 0x5A) || (0x61 <= c && c
            <= 0x7A) || c == 0x5F || c == 0x2D || c == 0x2E;
        if !allowed {
            return false;
        }
        i = i + 1;
    }
    true
}

/// The `rwx` field of an entry, `-` for each bit that is clear.
pub open spec fn spec_perm_text(e: AclEntryView) -> Seq<char> {
    seq![
        if e.read { 'r' } else { '-' },
        if e.write { 'w' } else { '-' },
        if e.execute { 'x' } else { '-' },
    ]
}

/// The `setfacl -m` spec of one entry, or why it is refused: a named entry
/// needs a name, and a safe one.
pub open spec fn spec_format_entry(e: AclEntryView) -> Result<Seq<char>, Seq<char>> {
    let p = spec_perm_text(e);
    match e.kind {
        AclQualifierKind::OwningUser => Ok(seq!['u', ':', ':'] + p),
        AclQualifierKind::OwningGroup => Ok(seq!['g', ':', ':'] + p),
        AclQualifierKind::Mask => Ok(seq!['m', ':', ':'] + p),
        AclQualifierKind::Other => Ok(seq!['o', ':', ':'] + p),
        AclQualifierKind::User | AclQualifierKind::Group => {
            match e.name {
                None => Err("ACL entry missing qualifier name"@),
                Some(n) => {
                    if !spec_valid_qualifier_name(n) {
                        Err("unsafe ACL qualifier name: "@ + n)
                    } else {
                        let tag = if e.kind == AclQualifierKind::User {
                            'u'
                        } else {
                            'g'
                        };
                        Ok(seq![tag, ':'] + n + seq![':'] + p)
                    }
                },
            }
        },
    }
}

/// Formats one entry as a `setfacl -m` spec such as `u:alice:rw-`.
pub fn format_entry_spec(entry: &AclEntry) -> (res: Result<String, VfsError>)
    ensures
        spec_format_entry(entry@) matches Ok(s) ==> (res matches Ok(r) && r@ == s),
        spec_format_entry(entry@) matches Err(m) ==> (res matches Err(VfsError::InvalidAclEntry(r))
            && r@ == m),
{
    let mut p: Vec<char> = Vec::new();
    p.push(if entry.read { 'r' } else { '-' });
    p.push(if entry.write { 'w' } else { '-' });
    p.push(if entry.execute { 'x' } else { '-' });
    proof {
        assert(p@ =~= spec_perm_text(entry@));
    }
    let mut out: Vec<char> = Vec::new();
    match entry.kind {
        AclQualifierKind::OwningUser | AclQualifierKind::OwningGroup | AclQualifierKind::Mask
        | AclQualifierKind::Other => {
            let tag = match entry.kind {
                AclQualifierKind::OwningUser => 'u',
                AclQualifierKind::OwningGroup => 'g',
                AclQualifierKind::Mask => 'm',
                _ => 'o',
            };
            out.push(tag);
            out.push(':');
            out.push(':');
            append_chars(&mut out, p.as_slice());
            proof {
                assert(out@ =~= seq![tag, ':', ':'] + p@);
            }
            Ok(string_of(out.as_slice()))
        },
        AclQualifierKind::User | AclQualifierKind::Group => {
            match &entry.name {
                None => {
                    proof {
                        reveal_strlit("ACL entry missing qualifier name");
                    }
                    Err(VfsError::InvalidAclEntry(string_of(&chars_of("ACL entry missing qualifier name"))))
                },
                Some(name) => {
                    let n = chars_of(name.as_str());
                    if !valid_qualifier_name(name.as_str()) {
                        let mut m = chars_of("unsafe ACL qualifier name: ");
                        append_chars(&mut m, n.as_slice());
                        return Err(VfsError::InvalidAclEntry(string_of(m.as_slice())));
                    }
                    let tag = if matches!(entry.kind, AclQualifierKind::User) {
                        'u'
                    } else {
                        'g'
                    };
                    out.push(tag);
                    out.push(':');
                    append_chars(&mut out, n.as_slice());
                    out.push(':');
                    append_chars(&mut out, p.as_slice());
                    proof {
                        assert(out@ =~= seq![tag, ':'] + n@ + seq![':'] + p@);
                    }
                    Ok(string_of(out.as_slice()))
                },
            }
        },
    }
}

} // verus!

verus! {

/// The `setfacl -m` argument for `entries`: their specs joined by `,`, or
/// the first entry's refusal.
pub open spec fn spec_modify_arg(entries: Seq<AclEntryView>) -> Result<Seq<char>, Seq<char>>
    decreases entries.len(),
{
    if entries.len() == 0 {
        Ok(Seq::empty())
    } else {
        match spec_modify_arg(entries.drop_last()) {
            Err(m) => Err(m),
            Ok(before) => match spec_format_entry(entries.last()) {
                Err(m) => Err(m),
                Ok(s) => Ok(if entries.len() == 1 {
                    s
                } else {
                    before + seq![','] + s
                }),
            },
        }
    }
}

/// Builds the `setfacl -m` argument for `entries`.
pub fn setfacl_modify_arg(entries: &[AclEntry]) -> (res: Result<String, VfsError>)
    ensures
        spec_modify_arg(entries@.map_values(|e: AclEntry| e@)) matches Ok(s) ==> (res matches Ok(
            r,
        ) && r@ == s),
        spec_modify_arg(entries@.map_values(|e: AclEntry| e@)) matches Err(m) ==> (res matches Err(
            VfsError::InvalidAclEntry(r),
        ) && r@ == m),
{
    let ghost views = entries@.map_values(|e: AclEntry| e@);
    let mut out: Vec<char> = Vec::new();
    let mut k: usize = 0;
    while k < entries.len()
        invariant
            k <= entries@.len(),
            views == entries@.map_values(|e: AclEntry| e@),
            spec_modify_arg(views.take(k as int)) == Ok::<Seq<char>, Seq<char>>(out@),
        decreases entries@.len() - k,
    {
        proof {
            assert(views.take(k + 1).drop_last() =~= views.take(k as int));
            assert(views.take(k + 1).last() == entries@[k as int]@);
        }
        let spec = format_entry_spec(&entries[k]);
        match spec {
            Err(e) => {
                proof {
                    let pre = views.take(k + 1);
                    assert(spec_modify_arg(pre) is Err);
                    lemma_modify_arg_err_extends(views, k as int + 1);
                    assert(views.take(views.len() as int) =~= views);
                }
                return Err(e);
            },
            Ok(s) => {
                let ghost before = out@;
                if k > 0 {
                    out.push(',');
                }
                let sc = chars_of(s.as_str());
                append_chars(&mut out, sc.as_slice());
                proof {
                    assert(sc@ == s@);
                    if k == 0 {
                        assert(before =~= Seq::<char>::empty());
                        assert(out@ =~= sc@);
                    } else {
                        assert(out@ =~= before + seq![','] + sc@);
                    }
                }
            },
        }
        k = k + 1;
    }
    proof {
        assert(views.take(views.len() as int) =~= views);
    }
    Ok(string_of(out.as_slice()))
}

/// Once a prefix of the entries is refused, every longer prefix is refused
/// with the same message.
proof fn lemma_modify_arg_err_extends(views: Seq<AclEntryView>, k: int)
    requires
        0 <= k <= views.len(),
        spec_modify_arg(views.take(k)) is Err,
    ensures
        spec_modify_arg(views) == spec_modify_arg(views.take(k)),
    decreases views.len() - k,
{
    if k < views.len() {
        assert(views.take(k + 1).drop_last() =~= views.take(k));
        lemma_modify_arg_err_extends(views, k + 1);
    } else {
        assert(views.take(k) =~= views);
    }
}

/// The checks `set_acl` makes before touching the filesystem: a writable
/// provider, at least one entry, and a normalizable path (returned
/// relative to the provider root).
pub fn check_set_acl_request(writable: bool, path: &str, entries: &[AclEntry]) -> (res: Result<
    String,
    VfsError,
>)
    ensures
        !writable ==> res matches Err(VfsError::ReadOnly),
        writable && entries@.len() == 0 ==> (res matches Err(VfsError::InvalidAclEntry(m)) && m@
            == "no ACL entries supplied"@),
        writable && entries@.len() > 0 ==> match crate::vfs::normalized(path@, false) {
            Ok(r) => res matches Ok(s) && s@ == r,
            Err(e) => res == Err::<String, VfsError>(e),
        },
{
    if !writable {
        return Err(VfsError::ReadOnly);
    }
    if entries.len() == 0 {
        return Err(VfsError::InvalidAclEntry(string_of(&chars_of("no ACL entries supplied"))));
    }
    crate::vfs::normalize_virtual_path(path, false)
}

/// The error a failed `setfacl` run maps to: `Unsupported` when its
/// lowercased error output mentions "not supported", otherwise an I/O
/// error carrying the output.
pub fn classify_setfacl_failure(stderr: &str) -> (e: VfsError)
    ensures
        contains_text(lowercase_of(stderr@), "not supported"@) ==> e matches VfsError::Unsupported,
        !contains_text(lowercase_of(stderr@), "not supported"@) ==> (e matches VfsError::Io(m)
            && m@ == stderr@),
{
    let lower = to_lowercase(stderr);
    let l = chars_of(lower.as_str());
    let needle = chars_of("not supported");
    if contains_text_exec(l.as_slice(), needle.as_slice()) {
        VfsError::Unsupported
    } else {
        VfsError::Io(string_of(&chars_of(stderr)))
    }
}

} // verus!

verus! {

/// The `getfacl` line of an entry with a qualifier: `user:` or `group:`
/// (long tags), the name, and the permission field.
pub open spec fn spec_named_line(e: AclEntryView, name: Seq<char>) -> Seq<char> {
    (if e.kind == AclQualifierKind::User {
        "user"@
    } else {
        "group"@
    }) + seq![':'] + name + seq![':'] + spec_perm_text(e)
}

proof fn lemma_perm_text_parses(r: bool, w: bool, x: bool)
    ensures
        spec_parse_permissions(
            seq![if r { 'r' } else { '-' }, if w { 'w' } else { '-' }, if x { 'x' } else { '-' }],
        ) == Some((r, w, x)),
{
    let s = seq![if r { 'r' } else { '-' }, if w { 'w' } else { '-' }, if x { 'x' } else { '-' }];
    assert(vstd::utf8::is_ascii_chars(s));
    vstd::utf8::is_ascii_chars_encode_utf8(s);
    let b = encode_utf8(s);
    assert(b.len() == 3);
    assert(b[0] == s[0] as u8 && b[1] == s[1] as u8 && b[2] == s[2] as u8);
}

/// What an entry's permission field reads back as is the entry's own
/// bits.
pub proof fn lemma_permissions_round_trip(e: AclEntryView)
    ensures
        spec_parse_permissions(spec_perm_text(e)) == Some((e.read, e.write, e.execute)),
{
    lemma_perm_text_parses(e.read, e.write, e.execute);
}

} // verus!

verus! {

/// A named user or group entry, as `getfacl` lists it, reads back as the
/// same entry: kind, name and permission bits.
pub proof fn lemma_named_entry_round_trip(e: AclEntryView, name: Seq<char>)
    requires
        e.kind == AclQualifierKind::User || e.kind == AclQualifierKind::Group,
        e.name == Some(name),
        name.len() > 0,
        !name.contains(':'),
    ensures
        spec_entry_of_line(spec_named_line(e, name)) == Some(e),
{
    reveal_strlit("user");
    reveal_strlit("group");
    let tag = if e.kind == AclQualifierKind::User {
        "user"@
    } else {
        "group"@
    };
    let perm = spec_perm_text(e);
    let line = spec_named_line(e, name);
    assert(line =~= tag + seq![':'] + name + seq![':'] + perm);
    assert(line.len() > 0 && !crate::text::spec_is_whitespace(line[0]));
    assert(!crate::text::spec_is_whitespace(line.last())) by {
        assert(line.last() == perm[2]);
    }
    assert(crate::text::trim_start_ws(line) == line);
    assert(trim_ws(line) == line);
    let parts = seq![tag, name, perm];
    assert(forall|i: int| 0 <= i < parts.len() ==> !(#[trigger] parts[i]).contains(':')) by {
        assert forall|i: int| 0 <= i < parts.len() implies !(#[trigger] parts[i]).contains(':') by {
            if i == 0 {
                if tag.contains(':') {
                    let k = choose|k: int| 0 <= k < tag.len() && tag[k] == ':';
                }
            } else if i == 2 {
                if perm.contains(':') {
                    let k = choose|k: int| 0 <= k < perm.len() && perm[k] == ':';
                }
            }
        }
    }
    assert(join_with(parts, seq![':']) =~= line) by {
        let two = seq![tag, name];
        assert(parts.drop_last() =~= two);
        assert(two.drop_last() =~= seq![tag]);
        assert(join_with(seq![tag], seq![':']) == tag);
        assert(join_with(two, seq![':']) == tag + seq![':'] + name);
        assert(join_with(parts, seq![':']) == join_with(two, seq![':']) + seq![':'] + perm);
    }
    crate::text::lemma_split_join(parts, ':');
    let fields = split_on(line, ':');
    assert(fields == parts);
    assert(fields.skip(2) =~= seq![perm]);
    lemma_permissions_round_trip(e);
}

} // verus!

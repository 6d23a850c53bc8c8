//! Reading `ssh-keyscan` output: which lines offer a supported host key,
//! and the one key per type that is kept for the user to verify.

use vstd::prelude::*;
use crate::api::{answers, ApiError};
use crate::lexical::{next_word, skip_ws_from, word_end_from};
use crate::text::{is_text, slice_chars, split_chars, split_on, string_of};

verus! {

/// The host key types the server accepts for pinning.
pub open spec fn supported_key_type(t: Seq<char>) -> bool {
    ||| t == "ssh-ed25519"@
    ||| t == "ssh-rsa"@
    ||| t == "ecdsa-sha2-nistp256"@
    ||| t == "ecdsa-sha2-nistp384"@
    ||| t == "ecdsa-sha2-nistp521"@
}

/// The key type and the base64 key a line of `ssh-keyscan` output offers:
/// none for a comment, for fewer than three white-space separated fields,
/// or for an unsupported type (the second field); the key is the third.
pub open spec fn keyscan_line(line: Seq<char>) -> Option<(Seq<char>, Seq<char>)> {
    let b1 = skip_ws_from(line, 0);
    let e1 = word_end_from(line, b1);
    let b2 = skip_ws_from(line, e1);
    let e2 = word_end_from(line, b2);
    let b3 = skip_ws_from(line, e2);
    let e3 = word_end_from(line, b3);
    if line.len() > 0 && line[0] == '#' {
        None
    } else if b3 < e3 && supported_key_type(line.subrange(b2, e2)) {
        Some((line.subrange(b2, e2), line.subrange(b3, e3)))
    } else {
        None
    }
}

/// The keys offered by the given lines, in order.
pub open spec fn keyscan_offers(lines: Seq<Seq<char>>) -> Seq<(Seq<char>, Seq<char>)>
    decreases lines.len(),
{
    if lines.len() == 0 {
        Seq::empty()
    } else {
        let before = keyscan_offers(lines.drop_last());
        match keyscan_line(lines.last()) {
            Some(k) => before.push(k),
            None => before,
        }
    }
}

/// A host key offered by the scanned server.
#[derive(Clone, Debug, PartialEq, Eq)]
pub struct OfferedKey {
    pub key_type: String,
    pub key_base64: String,
}

pub open spec fn offer_view(k: OfferedKey) -> (Seq<char>, Seq<char>) {
    (k.key_type@, k.key_base64@)
}

/// A host key kept for the user, with its fingerprint.
#[derive(Clone, Debug, PartialEq, Eq)]
pub struct ScannedHostKey {
    pub key_type: String,
    pub key_base64: String,
    pub fingerprint: String,
}

fn keyscan_line_exec(line: &[char]) -> (r: Option<OfferedKey>)
    ensures
        match r {
            Some(k) => keyscan_line(line@) == Some(offer_view(k)),
            None => keyscan_line(line@) is None,
        },
{
    let (b1, e1) = next_word(line, 0);
    let (b2, e2) = next_word(line, e1);
    let (b3, e3) = next_word(line, e2);
    if line.len() > 0 && line[0] == '#' {
        return None;
    }
    if b3 >= e3 {
        return None;
    }
    let t = slice_chars(line, b2, e2);
    let supported = is_text(t.as_slice(), "ssh-ed25519") || is_text(t.as_slice(), "ssh-rsa")
        || is_text(t.as_slice(), "ecdsa-sha2-nistp256") || is_text(
        t.as_slice(),
        "ecdsa-sha2-nistp384",
    ) || is_text(t.as_slice(), "ecdsa-sha2-nistp521");
    if !supported {
        return None;
    }
    let k = slice_chars(line, b3, e3);
    Some(OfferedKey { key_type: string_of(t.as_slice()), key_base64: string_of(k.as_slice()) })
}

/// The supported host keys `ssh-keyscan` printed, line by line, in order.
pub fn keyscan_candidates(output: &str) -> (r: Vec<OfferedKey>)
    ensures
        r@.map_values(|k: OfferedKey| offer_view(k)) == keyscan_offers(split_on(output@, '\n')),
{
    let v = crate::text::chars_of(output);
    let lines = split_chars(v.as_slice(), '\n');
    let ghost all = split_on(output@, '\n');
    let mut out: Vec<OfferedKey> = Vec::new();
    let mut i: usize = 0;
    while i < lines.len()
        invariant
            i <= lines@.len(),
            all == split_on(output@, '\n'),
            lines@.len() == all.len(),
            forall|j: int| 0 <= j < lines@.len() ==> #[trigger] lines@[j]@ == all[j],
            out@.map_values(|k: OfferedKey| offer_view(k)) == keyscan_offers(all.take(i as int)),
        decreases lines@.len() - i,
    {
        proof {
            assert(all.take(i + 1).drop_last() =~= all.take(i as int));
            assert(all.take(i + 1).last() == lines@[i as int]@);
        }
        match keyscan_line_exec(lines[i].as_slice()) {
            Some(k) => {
                out.push(k);
                proof {
                    assert(out@.map_values(|k: OfferedKey| offer_view(k)) =~= keyscan_offers(
                        all.take(i as int),
                    ).push(offer_view(k)));
                }
            },
            None => {},
        }
        i = i + 1;
    }
    proof {
        assert(all.take(lines@.len() as int) =~= all);
    }
    out
}

/// The keys kept from the offers, given each offer's fingerprint (none
/// when it could not be computed): offers without a fingerprint are
/// skipped, and of each key type only the first is kept.
pub open spec fn kept_keys(offers: Seq<(Seq<char>, Seq<char>)>, prints: Seq<Option<Seq<char>>>)
    -> Seq<(Seq<char>, Seq<char>, Seq<char>)>
    decreases offers.len(),
{
    if offers.len() == 0 || prints.len() < offers.len() {
        Seq::empty()
    } else {
        let n = offers.len() - 1;
        let before = kept_keys(offers.drop_last(), prints.take(n));
        match prints[n] {
            Some(f) => if exists|j: int| 0 <= j < before.len() && (#[trigger] before[j]).0 == offers[n].0 {
                before
            } else {
                before.push((offers[n].0, offers[n].1, f))
            },
            None => before,
        }
    }
}

pub open spec fn scanned_view(k: ScannedHostKey) -> (Seq<char>, Seq<char>, Seq<char>) {
    (k.key_type@, k.key_base64@, k.fingerprint@)
}

/// Keeps one fingerprinted key per type, in the order offered; a scan that
/// keeps none is answered `502 Bad Gateway`.
pub fn select_host_keys(offers: Vec<OfferedKey>, fingerprints: Vec<Option<String>>) -> (r: Result<
    Vec<ScannedHostKey>,
    ApiError,
>)
    requires
        fingerprints@.len() == offers@.len(),
    ensures
        ({
            let kept = kept_keys(
                offers@.map_values(|k: OfferedKey| offer_view(k)),
                fingerprints@.map_values(|f: Option<String>| match f {
                    Some(s) => Some(s@),
                    None => None,
                }),
            );
            match r {
                Ok(keys) => kept.len() > 0 && keys@.map_values(|k: ScannedHostKey| scanned_view(k))
                    == kept,
                Err(e) => kept.len() == 0 && answers(
                    e,
                    502,
                    "remote host returned no supported SSH host key"@,
                ),
            }
        }),
{
    let ghost ov = offers@.map_values(|k: OfferedKey| offer_view(k));
    let ghost pv = fingerprints@.map_values(
        |f: Option<String>|
            match f {
                Some(s) => Some(s@),
                None => None,
            },
    );
    let mut keys: Vec<ScannedHostKey> = Vec::new();
    let mut i: usize = 0;
    while i < offers.len()
        invariant
            i <= offers@.len(),
            fingerprints@.len() == offers@.len(),
            ov == offers@.map_values(|k: OfferedKey| offer_view(k)),
            pv == fingerprints@.map_values(
                |f: Option<String>|
                    match f {
                        Some(s) => Some(s@),
                        None => None,
                    },
            ),
            keys@.map_values(|k: ScannedHostKey| scanned_view(k)) == kept_keys(
                ov.take(i as int),
                pv.take(i as int),
            ),
        decreases offers@.len() - i,
    {
        let ghost before = kept_keys(ov.take(i as int), pv.take(i as int));
        proof {
            assert(ov.take(i + 1).drop_last() =~= ov.take(i as int));
            assert(pv.take(i + 1).take(i as int) =~= pv.take(i as int));
            assert(ov.take(i + 1)[i as int] == ov[i as int]);
            assert(pv.take(i + 1)[i as int] == pv[i as int]);
        }
        match &fingerprints[i] {
            Some(f) => {
                let mut seen = false;
                let mut j: usize = 0;
                while j < keys.len()
                    invariant
                        j <= keys@.len(),
                        i < offers@.len(),
                        ov == offers@.map_values(|k: OfferedKey| offer_view(k)),
                        keys@.map_values(|k: ScannedHostKey| scanned_view(k)) == before,
                        seen <==> exists|m: int| 0 <= m < j && (#[trigger] before[m]).0 == ov[i as int].0,
                    decreases keys@.len() - j,
                {
                    let a = crate::text::chars_of(keys[j].key_type.as_str());
                    let b = crate::text::chars_of(offers[i].key_type.as_str());
                    proof {
                        assert(before[j as int] == scanned_view(keys@[j as int]));
                    }
                    if crate::text::chars_equal(a.as_slice(), b.as_slice()) {
                        seen = true;
                    }
                    j = j + 1;
                }
                if !seen {
                    keys.push(
                        ScannedHostKey {
                            key_type: offers[i].key_type.clone(),
                            key_base64: offers[i].key_base64.clone(),
                            fingerprint: f.clone(),
                        },
                    );
                    proof {
                        assert(keys@.map_values(|k: ScannedHostKey| scanned_view(k)) =~= before.push(
                            (ov[i as int].0, ov[i as int].1, f@),
                        ));
                    }
                }
            },
            None => {},
        }
        i = i + 1;
    }
    proof {
        assert(ov.take(offers@.len() as int) =~= ov);
        assert(pv.take(offers@.len() as int) =~= pv);
    }
    if keys.len() == 0 {
        return Err(ApiError::bad_gateway("remote host returned no supported SSH host key"));
    }
    Ok(keys)
}


/// `w` holds no white space.
pub open spec fn one_word(w: Seq<char>) -> bool {
    w.len() > 0 && forall|k: int| 0 <= k < w.len() ==> !crate::text::spec_is_whitespace(#[trigger] w[k])
}

/// A word running from `i` to `j` ends at `j`.
proof fn lemma_word_end(s: Seq<char>, i: int, j: int)
    requires
        0 <= i <= j <= s.len(),
        forall|k: int| i <= k < j ==> !crate::text::spec_is_whitespace(#[trigger] s[k]),
        j == s.len() || crate::text::spec_is_whitespace(s[j]),
    ensures
        word_end_from(s, i) == j,
    decreases j - i,
{
    if i < j {
        lemma_word_end(s, i + 1, j);
    }
}

/// A line offers only one of the five supported key types.
pub proof fn law_only_supported_types_are_offered(line: Seq<char>)
    ensures
        keyscan_line(line) matches Some((t, k)) ==> (t == "ssh-ed25519"@ || t == "ssh-rsa"@ || t
            == "ecdsa-sha2-nistp256"@ || t == "ecdsa-sha2-nistp384"@ || t == "ecdsa-sha2-nistp521"@),
{
}

/// Every line `host type key` whose type is one of the five supported
/// host key types (Ed25519, RSA, and ECDSA on P-256, P-384 and P-521)
/// offers that type with that key, whatever the host (short of a `#`
/// comment).
pub proof fn law_every_supported_type_is_offered(host: Seq<char>, key_type: Seq<char>, key: Seq<char>)
    requires
        one_word(host),
        one_word(key_type),
        one_word(key),
        host[0] != '#',
        key_type == "ssh-ed25519"@ || key_type == "ssh-rsa"@ || key_type == "ecdsa-sha2-nistp256"@
            || key_type == "ecdsa-sha2-nistp384"@ || key_type == "ecdsa-sha2-nistp521"@,
    ensures
        keyscan_line(host + seq![' '] + key_type + seq![' '] + key) == Some((key_type, key)),
{
    let line = host + seq![' '] + key_type + seq![' '] + key;
    let h = host.len() as int;
    let t = key_type.len() as int;
    assert(crate::text::spec_is_whitespace(' '));
    assert forall|k: int| 0 <= k < h implies !crate::text::spec_is_whitespace(#[trigger] line[k]) by {
        assert(line[k] == host[k]);
    }
    assert forall|k: int| h + 1 <= k < h + 1 + t implies !crate::text::spec_is_whitespace(#[trigger] line[k]) by {
        assert(line[k] == key_type[k - h - 1]);
    }
    assert forall|k: int| h + 2 + t <= k < line.len() implies !crate::text::spec_is_whitespace(#[trigger] line[k]) by {
        assert(line[k] == key[k - h - 2 - t]);
    }
    assert(line[h] == ' ');
    assert(line[h + 1 + t] == ' ');
    assert(skip_ws_from(line, 0) == 0);
    lemma_word_end(line, 0, h);
    assert(skip_ws_from(line, h + 1) == h + 1);
    assert(skip_ws_from(line, h) == h + 1);
    lemma_word_end(line, h + 1, h + 1 + t);
    assert(skip_ws_from(line, h + 2 + t) == h + 2 + t);
    assert(skip_ws_from(line, h + 1 + t) == h + 2 + t);
    lemma_word_end(line, h + 2 + t, line.len() as int);
    assert(line.subrange(h + 1, h + 1 + t) =~= key_type);
    assert(line.subrange(h + 2 + t, line.len() as int) =~= key);
    assert(line[0] == host[0]);
}

} // verus!

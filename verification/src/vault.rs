//! The secret vault's rules: what a stored secret's kind, label and value
//! may be, the encryption contexts binding each ciphertext to its owner and
//! record, and the random identifiers it issues.

use vstd::prelude::*;
use vstd::utf8::encode_utf8;
use crate::text::{append_chars, chars_of, string_of, trim_ws};

verus! {

/// Longest secret kind, in bytes.
pub const MAX_KIND_BYTES: usize = 64;

/// Longest secret label, in bytes.
pub const MAX_LABEL_BYTES: usize = 256;

/// Largest secret value, in bytes.
pub const MAX_VALUE_BYTES: usize = 1_048_576;

/// A secret's public description; never its value.
#[derive(Clone, Debug, PartialEq, Eq)]
pub struct SecretMetadata {
    pub id: String,
    pub kind: String,
    pub label: String,
    pub created_at: i64,
    pub updated_at: i64,
    pub last_revealed_at: Option<i64>,
}

/// Why a vault operation failed.
#[derive(Debug)]
pub enum VaultError {
    /// A database failure, with its message.
    Database(String),
    /// Encryption or decryption failed, with the reason.
    Secret(String),
    InvalidKind,
    InvalidLabel,
    InvalidValue,
    NotFound,
}

/// A kind byte: an ASCII letter or digit, `.`, `_` or `-`.
pub open spec fn is_kind_byte(b: u8) -> bool {
    (48 <= b && b <= 57) || (65 <= b && b <= 90) || (97 <= b && b <= 122) || b == 46 || b == 95
        || b == 45
}

/// The metadata rule: a kind of 1 to 64 bytes drawn from letters, digits,
/// `.`, `_` and `-`; a label that is not blank and at most 256 bytes; a
/// value of 1 byte to 1 MiB. The first rule broken decides the error.
pub open spec fn spec_validate_metadata(kind: Seq<char>, label: Seq<char>, value_len: nat) -> Result<(), VaultError> {
    let kb = encode_utf8(kind);
    if kb.len() == 0 || kb.len() > MAX_KIND_BYTES || !(forall|i: int|
        0 <= i < kb.len() ==> is_kind_byte(#[trigger] kb[i])) {
        Err(VaultError::InvalidKind)
    } else if trim_ws(label).len() == 0 || encode_utf8(label).len() > MAX_LABEL_BYTES {
        Err(VaultError::InvalidLabel)
    } else if value_len == 0 || value_len > MAX_VALUE_BYTES {
        Err(VaultError::InvalidValue)
    } else {
        Ok(())
    }
}

/// Validates a secret's metadata before it is stored.
pub fn validate_metadata(kind: &str, label: &str, value: &[u8]) -> (r: Result<(), VaultError>)
    ensures
        r == spec_validate_metadata(kind@, label@, value@.len()),
{
    let kb = kind.as_bytes();
    if kb.len() == 0 || kb.len() > MAX_KIND_BYTES {
        return Err(VaultError::InvalidKind);
    }
    let mut i: usize = 0;
    while i < kb.len()
        invariant
            i <= kb@.len(),
            kb@ == encode_utf8(kind@),
            forall|j: int| 0 <= j < i ==> is_kind_byte(#[trigger] kb@[j]),
        decreases kb@.len() - i,
    {
        let b = kb[i];
        let ok = (48 <= b && b <= 57) || (65 <= b && b <= 90) || (97 <= b && b <= 122) || b == 46
            || b == 95 || b == 45;
        if !ok {
            return Err(VaultError::InvalidKind);
        }
        i = i + 1;
    }
    let trimmed = crate::text::trim_ws_exec(chars_of(label).as_slice());
    if trimmed.len() == 0 || label.as_bytes().len() > MAX_LABEL_BYTES {
        return Err(VaultError::InvalidLabel);
    }
    if value.len() == 0 || value.len() > MAX_VALUE_BYTES {
        return Err(VaultError::InvalidValue);
    }
    Ok(())
}

/// The label as stored: trimmed.
pub fn stored_label(label: &str) -> (r: String)
    ensures
        r@ == trim_ws(label@),
{
    crate::text::trim_str(label)
}

/// The encryption context of a record from before per-record keys:
/// `vault:{owner}:{id}`.
pub fn legacy_context(owner_user_id: &str, id: &str) -> (c: Vec<u8>)
    ensures
        c@ == encode_utf8("vault:"@ + owner_user_id@ + seq![':'] + id@),
{
    let mut v = chars_of("vault:");
    append_chars(&mut v, chars_of(owner_user_id).as_slice());
    v.push(':');
    append_chars(&mut v, chars_of(id).as_slice());
    proof {
        assert(v@ =~= "vault:"@ + owner_user_id@ + seq![':'] + id@);
    }
    text_bytes(string_of(v.as_slice()).as_str())
}

/// The encryption context of a record's wrapped data key:
/// `vault:key:{owner}:{id}`.
pub fn key_context(owner_user_id: &str, id: &str) -> (c: Vec<u8>)
    ensures
        c@ == encode_utf8("vault:key:"@ + owner_user_id@ + seq![':'] + id@),
{
    let mut v = chars_of("vault:key:");
    append_chars(&mut v, chars_of(owner_user_id).as_slice());
    v.push(':');
    append_chars(&mut v, chars_of(id).as_slice());
    proof {
        assert(v@ =~= "vault:key:"@ + owner_user_id@ + seq![':'] + id@);
    }
    text_bytes(string_of(v.as_slice()).as_str())
}

/// The encryption context of a record's value: `vault:value:{owner}:{id}`.
pub fn value_context(owner_user_id: &str, id: &str) -> (c: Vec<u8>)
    ensures
        c@ == encode_utf8("vault:value:"@ + owner_user_id@ + seq![':'] + id@),
{
    let mut v = chars_of("vault:value:");
    append_chars(&mut v, chars_of(owner_user_id).as_slice());
    v.push(':');
    append_chars(&mut v, chars_of(id).as_slice());
    proof {
        assert(v@ =~= "vault:value:"@ + owner_user_id@ + seq![':'] + id@);
    }
    text_bytes(string_of(v.as_slice()).as_str())
}

fn text_bytes(s: &str) -> (b: Vec<u8>)
    ensures
        b@ == encode_utf8(s@),
{
    let bytes = s.as_bytes();
    let mut v: Vec<u8> = Vec::new();
    let mut i: usize = 0;
    while i < bytes.len()
        invariant
            i <= bytes@.len(),
            bytes@ == encode_utf8(s@),
            v@ == bytes@.take(i as int),
        decreases bytes@.len() - i,
    {
        v.push(bytes[i]);
        i = i + 1;
        proof {
            assert(v@ =~= bytes@.take(i as int));
        }
    }
    proof {
        assert(bytes@.take(bytes@.len() as int) =~= bytes@);
    }
    v
}

/// `n` bytes from the operating system's random source, or none when
/// that source fails.
///
/// Trusted: fills a buffer with `rand::RngCore::try_fill_bytes` on
/// `rand::rngs::OsRng`, which reports a failure of `getrandom` as an
/// error instead of panicking. The bytes are unpredictable, so only their
/// number is stated.
#[verifier::external_body]
fn random_bytes(n: usize) -> (b: Option<Vec<u8>>)
    ensures
        b matches Some(v) ==> v@.len() == n,
{
    let mut bytes = vec![0_u8; n];
    match rand::RngCore::try_fill_bytes(&mut rand::rngs::OsRng, &mut bytes) {
        Ok(()) => Some(bytes),
        Err(_) => None,
    }
}

/// A fresh 32-byte data key; none when the random source fails.
pub fn random_data_key() -> (k: Option<Vec<u8>>)
    ensures
        k matches Some(v) ==> v@.len() == 32,
{
    random_bytes(32)
}

/// A fresh record id: 16 random bytes as 32 lower-case hex digits; none
/// when the random source fails.
pub fn random_id() -> (id: Option<String>)
    ensures
        id matches Some(s) ==> exists|b: Seq<u8>| b.len() == 16 && s@ == crate::wopi::spec_hex_lower(b),
{
    match random_bytes(16) {
        Some(b) => Some(crate::wopi::hex_encode(b.as_slice())),
        None => None,
    }
}

/// A fresh tombstone overwriting a deleted value: 64 random bytes as 128
/// lower-case hex digits; none when the random source fails.
pub fn random_tombstone() -> (t: Option<String>)
    ensures
        t matches Some(s) ==> exists|b: Seq<u8>| b.len() == 64 && s@ == crate::wopi::spec_hex_lower(b),
{
    match random_bytes(64) {
        Some(b) => Some(crate::wopi::hex_encode(b.as_slice())),
        None => None,
    }
}

} // verus!

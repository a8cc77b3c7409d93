//! 128-bit identifiers: fresh random ids, their text form, and the
//! deterministic content id of a resource path.
use sha2::Digest;
use vstd::prelude::*;
use crate::text::joined3;
use vstd::string::StringSliceAdditionalSpecFns;

verus! {

/// A hexadecimal digit, in lower case.
pub open spec fn hex_digit(d: nat) -> char {
    if d < 10 {
        crate::text::digit_char(d)
    } else if d == 10 {
        'a'
    } else if d == 11 {
        'b'
    } else if d == 12 {
        'c'
    } else if d == 13 {
        'd'
    } else if d == 14 {
        'e'
    } else {
        'f'
    }
}

/// The last `n` hexadecimal digits of `v`, most significant first.
pub open spec fn hex_digits(v: nat, n: nat) -> Seq<char>
    decreases n,
{
    if n == 0 {
        Seq::empty()
    } else {
        hex_digits(v / 16, (n - 1) as nat).push(hex_digit(v % 16))
    }
}

/// The hyphenated text form of a UUID: its 32 lower-case hexadecimal
/// digits, most significant first, grouped 8-4-4-4-12 by hyphens.
pub open spec fn uuid_text(id: u128) -> Seq<char> {
    let h = hex_digits(id as nat, 32);
    h.subrange(0, 8) + seq!['-'] + h.subrange(8, 12) + seq!['-'] + h.subrange(12, 16) + seq!['-']
        + h.subrange(16, 20) + seq!['-'] + h.subrange(20, 32)
}

/// The UUID that the uuid crate reads from a text, if it reads one.
pub uninterp spec fn uuid_parse(text: Seq<char>) -> Option<u128>;

/// The uuid crate's description of why a text is not a UUID.
pub uninterp spec fn uuid_parse_error(text: Seq<char>) -> Seq<char>;

/// The SHA-256 digest of a byte string.
pub uninterp spec fn sha256(data: Seq<u8>) -> Seq<u8>;

/// A fresh random (version 4) UUID as a 128-bit value, from `uuid::Uuid::new_v4`.
/// The value depends on chance; the source shows only that the version nibble
/// is 4 and the variant bits are `10`.
#[verifier::external_body]
pub fn fresh_id() -> (id: u128)
    ensures
        (id >> 76u128) & 0xfu128 == 4,
        (id >> 62u128) & 0x3u128 == 2,
{
    uuid::Uuid::new_v4().as_u128()
}

/// The text form of an id, from the uuid crate's `Display` (hyphenated,
/// lower case; see `uuid_text`).
#[verifier::external_body]
pub fn id_text(id: u128) -> (s: String)
    ensures
        s@ == uuid_text(id),
{
    uuid::Uuid::from_u128(id).to_string()
}

/// `uuid::Uuid::parse_str`: the id a text denotes, or the crate's error message.
#[verifier::external_body]
fn parse_uuid_text(text: &str) -> (r: Result<u128, String>)
    ensures
        match r {
            Ok(v) => uuid_parse(text@) == Some(v),
            Err(e) => uuid_parse(text@) is None && e@ == uuid_parse_error(text@),
        },
{
    match uuid::Uuid::parse_str(text) {
        Ok(u) => Ok(u.as_u128()),
        Err(e) => Err(e.to_string()),
    }
}

/// The message given when `value` is not a UUID of the kind named `what`.
pub open spec fn invalid_uuid_message(value: Seq<char>, what: Seq<char>) -> Seq<char> {
    "Invalid "@ + what + " UUID '"@ + value + "': "@ + uuid_parse_error(value)
}

/// Reads the id of a scene, an entity, ... (`what`) from its text form.
pub fn parse_uuid(value: &str, what: &str) -> (r: Result<u128, String>)
    ensures
        match r {
            Ok(v) => uuid_parse(value@) == Some(v),
            Err(e) => uuid_parse(value@) is None && e@ == invalid_uuid_message(value@, what@),
        },
{
    match parse_uuid_text(value) {
        Ok(v) => Ok(v),
        Err(e) => {
            let mut m = joined3("Invalid ", what, " UUID '");
            m.append(value);
            m.append("': ");
            m.append(e.as_str());
            proof {
                assert(m@ =~= invalid_uuid_message(value@, what@));
            }
            Err(m)
        },
    }
}

/// The value of bytes read most significant first.
pub open spec fn big_endian(b: Seq<u8>) -> nat
    decreases b.len(),
{
    if b.len() == 0 {
        0
    } else {
        big_endian(b.drop_last()) * 256 + b.last() as nat
    }
}

/// Marks 16 bytes as a version 4, RFC 4122 variant UUID.
pub open spec fn stamp_v4(b: Seq<u8>) -> Seq<u8> {
    b.update(6, (b[6] & 0x0fu8) | 0x40u8).update(8, (b[8] & 0x3fu8) | 0x80u8)
}

/// The content id of a path: the first 16 bytes of the SHA-256 digest of its
/// text, stamped as a version 4 UUID.
pub open spec fn content_id(path: Seq<u8>) -> nat {
    big_endian(stamp_v4(sha256(path).subrange(0, 16)))
}

/// `sha2::Sha256` over a byte string; its digest is 32 bytes long.
#[verifier::external_body]
fn sha256_digest(data: &[u8]) -> (d: Vec<u8>)
    ensures
        d@ == sha256(data@),
        d@.len() == 32,
{
    sha2::Sha256::digest(data).to_vec()
}

/// `uuid::Uuid::from_bytes` read back with `as_u128`: the bytes taken most
/// significant first.
#[verifier::external_body]
fn uuid_from_bytes(bytes: [u8; 16]) -> (r: u128)
    ensures
        r as nat == big_endian(bytes@),
{
    uuid::Uuid::from_bytes(bytes).as_u128()
}

/// The deterministic id of a resource path (the same path always gives the
/// same id), used to key texture and sound caches.
pub fn path_to_uuid(path: &str) -> (r: u128)
    ensures
        r as nat == content_id(path.spec_bytes()),
{
    let digest = sha256_digest(path.as_bytes());
    let mut bytes: [u8; 16] = [0u8; 16];
    let mut i: usize = 0;
    while i < 16
        invariant
            digest@.len() == 32,
            i <= 16,
            forall|j: int| 0 <= j < i ==> bytes@[j] == digest@[j],
        decreases 16 - i,
    {
        bytes[i] = digest[i];
        i = i + 1;
    }
    let b6 = bytes[6];
    let b8 = bytes[8];
    bytes[6] = (b6 & 0x0f) | 0x40;
    bytes[8] = (b8 & 0x3f) | 0x80;
    proof {
        assert(bytes@ =~= stamp_v4(digest@.subrange(0, 16)));
    }
    uuid_from_bytes(bytes)
}

} // verus!

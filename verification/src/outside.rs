//! What the library takes from outside crates and from std, with the contracts that are believed
//! of it. What depends on chance or on the machine stands where it is used, in `config`, `net` and
//! `setup`.
use crate::numeral::digit_char;
use crate::prepare::{JsonDocument, JsonValue};
use vstd::prelude::*;

verus! {

/// `String::push` appends the given character to the end of the string.
pub assume_specification[ String::push ](text: &mut String, ch: char)
    ensures
        final(text)@ == old(text)@.push(ch),
;

/// The Ed25519 key pair that identifies the accessory. Nothing is known of what it holds.
#[verifier::external_type_specification]
#[verifier::external_body]
pub struct ExKeypair(ed25519_dalek::Keypair);

/// The identifier of a controller.
#[verifier::external_type_specification]
#[verifier::external_body]
pub struct ExUuid(uuid::Uuid);

/// The value of a characteristic, as it goes into a JSON document.
#[verifier::external_type_specification]
#[verifier::external_body]
pub struct ExJsonValue(serde_json::Value);

/// `Clone::clone` of a JSON value gives an equal value.
pub assume_specification[ <serde_json::Value as Clone>::clone ](value: &serde_json::Value) -> (r:
    serde_json::Value)
    ensures
        r == *value,
;

/// An octet as two uppercase hexadecimal digits.
pub open spec fn hex_pair(octet: u8) -> Seq<char> {
    seq![digit_char((octet / 16) as nat), digit_char((octet % 16) as nat)]
}

/// Six octets as uppercase hexadecimal pairs with colons between them.
pub open spec fn mac_text(octets: Seq<u8>) -> Seq<char> {
    hex_pair(octets[0]) + seq![':'] + hex_pair(octets[1]) + seq![':'] + hex_pair(octets[2])
        + seq![':'] + hex_pair(octets[3]) + seq![':'] + hex_pair(octets[4]) + seq![':']
        + hex_pair(octets[5])
}

/// `MacAddr6`'s `Display` writes the six octets as `{:02X}` with colons between them.
#[verifier::external_body]
pub(crate) fn format_mac(octets: &[u8; 6]) -> (text: String)
    ensures
        text@ == mac_text(octets@),
{
    macaddr::MacAddr6::from(*octets).to_string()
}

/// What `sha2::Sha512` makes of the given bytes.
pub uninterp spec fn sha512_digest(data: Seq<u8>) -> Seq<u8>;

/// `sha2::Sha512`: the SHA-512 digest of the data, 64 bytes that depend on the data alone.
#[verifier::external_body]
pub(crate) fn sha512(data: &[u8]) -> (digest: Vec<u8>)
    ensures
        digest@ == sha512_digest(data@),
        digest@.len() == 64,
{
    <sha2::Sha512 as sha2::Digest>::digest(data).to_vec()
}

/// The character of the standard base64 alphabet for six bits.
pub open spec fn base64_char(sextet: nat) -> char {
    if sextet < 26 {
        ('A' as nat + sextet) as char
    } else if sextet < 52 {
        ('a' as nat + sextet - 26) as char
    } else if sextet < 62 {
        ('0' as nat + sextet - 52) as char
    } else if sextet == 62 {
        '+'
    } else {
        '/'
    }
}

/// The byte at `i`, or zero behind the end.
pub open spec fn byte_or_zero(bytes: Seq<u8>, i: int) -> nat {
    if i < bytes.len() {
        bytes[i] as nat
    } else {
        0
    }
}

/// The `i`-th group of six bits, counted from the front, with zero bits behind the end.
pub open spec fn sextet(bytes: Seq<u8>, i: int) -> nat {
    let first = i / 4 * 3;
    let word = byte_or_zero(bytes, first) * 65536 + byte_or_zero(bytes, first + 1) * 256
        + byte_or_zero(bytes, first + 2);
    if i % 4 == 0 {
        word / 262144
    } else if i % 4 == 1 {
        word / 4096 % 64
    } else if i % 4 == 2 {
        word / 64 % 64
    } else {
        word % 64
    }
}

/// Base64 with the standard alphabet: a character for every six bits, the last ones filled up
/// with zeros, and `=` up to a multiple of four characters.
pub open spec fn base64_text(bytes: Seq<u8>) -> Seq<char> {
    Seq::new(
        (bytes.len() + 2) / 3 * 4,
        |i: int|
            if i * 6 < bytes.len() * 8 {
                base64_char(sextet(bytes, i))
            } else {
                '='
            },
    )
}

/// `base64::encode`: the bytes in base64, with the standard alphabet and with padding. It panics
/// where the length of the text overflows.
#[verifier::external_body]
pub(crate) fn encode_base64(bytes: &[u8]) -> (text: String)
    requires
        (bytes@.len() + 2) / 3 * 4 <= usize::MAX,
    ensures
        text@ == base64_text(bytes@),
{
    base64::encode(bytes)
}

/// What `serde_json::from_slice` makes of the given bytes: `None` where they are not JSON, and else
/// the members of the object that they hold, or `None` where they hold something other than an
/// object.
pub uninterp spec fn json_document(bytes: Seq<u8>) -> Option<Option<Seq<(Seq<char>, JsonValue)>>>;

/// `serde_json::from_slice` reads a JSON document, which depends on the bytes alone. Of a document
/// the members of its outermost object are handed on, with what `Value::as_f64` and
/// `Value::as_u64` say of them.
#[verifier::external_body]
pub(crate) fn parse_json(bytes: &[u8]) -> (r: Option<JsonDocument>)
    ensures
        json_document(bytes@) == (match r {
            Some(document) => Some(document@),
            None => None,
        }),
{
    let value: serde_json::Value = serde_json::from_slice(bytes).ok()?;
    let convert = |(name, value): (&String, &serde_json::Value)| match value.as_f64() {
        Some(_) => (name.clone(), JsonValue::Number { unsigned: value.as_u64() }),
        None => (name.clone(), JsonValue::Other),
    };
    Some(JsonDocument { members: value.as_object().map(|found| found.iter().map(convert).collect()) })
}

} // verus!

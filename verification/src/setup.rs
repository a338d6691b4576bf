//! What a controller's user scans or types: the setup identifier, the setup hash and the setup
//! URI.
use crate::numeral::{
    digit_char, digit_to_char, law_numeral_reads_back, lemma_numeral_width,
    lemma_padded_digits, lemma_zero_padded_reads_back, numeral, numeral_value, to_base36,
    zero_padded,
};
use crate::outside::{
    base64_char, base64_text, byte_or_zero, encode_base64, sextet, sha512, sha512_digest,
};
use crate::pin::{all_digits, lemma_eight_digits, setup_code};
use vstd::arithmetic::power::pow;
use vstd::prelude::*;
use vstd::slice::slice_subrange;
use vstd::string::StringExecFns;
use vstd::utf8::encode_utf8;

verus! {

/// Four characters, each an uppercase letter or a digit.
pub open spec fn is_setup_id(text: Seq<char>) -> bool {
    &&& text.len() == 4
    &&& forall|i: int|
        0 <= i < 4 ==> '0' <= #[trigger] text[i] <= '9' || 'A' <= text[i] <= 'Z'
}

/// The characters that the picked numbers stand for.
pub open spec fn picked_chars(picks: Seq<usize>) -> Seq<char> {
    Seq::new(picks.len(), |i: int| digit_char(picks[i] as nat))
}

/// The setup identifier that the picked numbers spell.
pub fn setup_id_from(picks: &Vec<usize>) -> (text: String)
    requires
        forall|i: int| 0 <= i < picks@.len() ==> picks@[i] < 36,
    ensures
        text@ == picked_chars(picks@),
{
    let mut text: String = String::new();
    let mut i: usize = 0;
    while i < picks.len()
        invariant
            i <= picks@.len(),
            forall|j: int| 0 <= j < picks@.len() ==> picks@[j] < 36,
            text@ == picked_chars(picks@.take(i as int)),
        decreases picks@.len() - i,
    {
        text.push(digit_to_char(picks[i] as u64));
        i = i + 1;
        assert(text@ =~= picked_chars(picks@.take(i as int)));
    }
    assert(picks@.take(i as int) =~= picks@);
    text
}

/// `Rng::gen_range` on the operating system's generator: some number below `bound`. It panics
/// where the operating system has no random numbers to give.
#[verifier::external_body]
fn random_below(bound: usize) -> (r: usize)
    requires
        0 < bound,
    ensures
        r < bound,
{
    rand::Rng::gen_range(&mut rand::rngs::OsRng {}, 0, bound)
}

/// What a draw of a random number below the bound can give.
pub closed spec fn is_draw_below(bound: usize, drawn: usize) -> bool {
    call_ensures(random_below, (bound,), drawn)
}

/// A random setup identifier: each of its four characters is drawn.
pub fn generate_setup_id() -> (text: String)
    ensures
        is_setup_id(text@),
        exists|picks: Seq<usize>|
            {
                &&& picks.len() == 4
                &&& forall|i: int| 0 <= i < 4 ==> is_draw_below(36, #[trigger] picks[i])
                &&& text@ == #[trigger] picked_chars(picks)
            },
{
    let mut picks: Vec<usize> = Vec::new();
    while picks.len() < 4
        invariant
            picks@.len() <= 4,
            forall|i: int| 0 <= i < picks@.len() ==> picks@[i] < 36,
            forall|i: int| 0 <= i < picks@.len() ==> is_draw_below(36, #[trigger] picks@[i]),
        decreases 4 - picks@.len(),
    {
        picks.push(random_below(36));
    }
    setup_id_from(&picks)
}

/// The setup hash that belongs to a digest: its first four bytes in base64.
pub open spec fn digest_hash(digest: Seq<u8>) -> Seq<char> {
    base64_text(digest.take(4))
}

/// The setup hash of an accessory: SHA-512 over the setup identifier and the device identifier,
/// cut to four bytes, in base64.
pub open spec fn setup_hash_text(setup_id: Seq<char>, device_id: Seq<char>) -> Seq<char> {
    digest_hash(sha512_digest(encode_utf8(setup_id) + encode_utf8(device_id)))
}

/// The setup hash that belongs to a digest.
pub fn hash_from_digest(digest: &[u8]) -> (text: String)
    requires
        digest@.len() >= 4,
    ensures
        text@ == digest_hash(digest@),
        text@ == base64_text(digest@.take(4)),
{
    encode_base64(slice_subrange(digest, 0, 4))
}

/// The setup hash of an accessory.
pub fn hash_setup(setup_id: &str, device_id: &str) -> (text: String)
    ensures
        text@ == setup_hash_text(setup_id@, device_id@),
        text@ == base64_text(
            sha512_digest(encode_utf8(setup_id@) + encode_utf8(device_id@)).take(4),
        ),
        text@.len() == 8,
        text@.skip(6) == seq!['=', '='],
{
    let mut data: Vec<u8> = Vec::new();
    data.extend_from_slice(setup_id.as_bytes());
    data.extend_from_slice(device_id.as_bytes());
    assert(data@ =~= encode_utf8(setup_id@) + encode_utf8(device_id@));
    let digest: Vec<u8> = sha512(data.as_slice());
    proof {
        law_setup_hash_is_eight_characters(digest@);
    }
    hash_from_digest(digest.as_slice())
}

/// The number that a setup URI carries. From the most significant bit: four reserved bits, eight
/// of the category, four of flags, of which the one for IP is set, and 27 of the setup code.
pub open spec fn setup_payload(category: u8, code: nat) -> nat {
    category as nat * 0x8000_0000 + 0x1000_0000 + code
}

/// The setup URI: the payload as nine base-36 digits behind `X-HM://`, then the setup identifier.
pub open spec fn setup_uri_text(category: u8, digits: Seq<u8>, setup_id: Seq<char>) -> Seq<char> {
    "X-HM://"@ + zero_padded(numeral(setup_payload(category, setup_code(digits)), 36), 9) + setup_id
}

/// Packs the category and the setup code.
pub fn pack_payload(category: u8, code: u64) -> (value: u64)
    requires
        code < 0x800_0000,
    ensures
        value == setup_payload(category, code as nat),
{
    let wide: u64 = category as u64;
    let mut low: u64 = code | (1u64 << 28);
    if wide & 1 == 1 {
        low = low | (1u64 << 31);
    }
    let value: u64 = ((wide >> 1) << 32) | low;
    assert(wide < 256);
    assert(value == wide * 0x8000_0000 + 0x1000_0000 + code) by (bit_vector)
        requires
            wide < 256,
            code < 0x800_0000,
            low == (if wide & 1 == 1 {
                (code | (1u64 << 28)) | (1u64 << 31)
            } else {
                code | (1u64 << 28)
            }),
            value == ((wide >> 1) << 32) | low,
    ;
    value
}

/// Writes the setup URI.
pub fn write_setup_uri(category: u8, code: u64, setup_id: &str) -> (text: String)
    requires
        code < 0x800_0000,
    ensures
        text@ == "X-HM://"@ + zero_padded(numeral(setup_payload(category, code as nat), 36), 9)
            + setup_id@,
{
    let payload: String = to_base36(pack_payload(category, code));
    proof {
        lemma_payload_width(category, code as nat);
    }
    let mut text: String = "X-HM://".to_owned();
    let mut width: usize = payload.as_str().unicode_len();
    let ghost start = text@;
    let ghost digits = width;
    while width < 9
        invariant
            digits <= width <= 9,
            text@ =~= start + Seq::new((width - digits) as nat, |i: int| '0'),
        decreases 9 - width,
    {
        text.push('0');
        width = width + 1;
    }
    text.append(payload.as_str());
    text.append(setup_id);
    assert(text@ =~= start + zero_padded(payload@, 9) + setup_id@);
    text
}

proof fn lemma_payload_width(category: u8, code: nat)
    requires
        code < 0x800_0000,
    ensures
        0 < numeral(setup_payload(category, code), 36).len() <= 9,
{
    reveal_with_fuel(pow, 10);
    assert(pow(36, 9) == 101_559_956_668_416);
    lemma_numeral_width(setup_payload(category, code), 36, 9);
}

/// The payload can be taken apart again: the category, the flags (IP and nothing else) and the
/// setup code stand where the layout puts them, and the reserved bits above are zero.
pub proof fn law_payload_takes_apart(category: u8, code: nat)
    requires
        code < 0x800_0000,
    ensures
        setup_payload(category, code) / 0x8000_0000 == category,
        setup_payload(category, code) / 0x800_0000 % 16 == 2,
        setup_payload(category, code) % 0x800_0000 == code,
        setup_payload(category, code) < 0x80_0000_0000,
{
}

/// What a controller reads from a setup URI: behind `X-HM://` stand exactly nine digits, which
/// give the payload back, and then the setup identifier.
pub proof fn law_setup_uri_reads_back(category: u8, digits: Seq<u8>, setup_id: Seq<char>)
    requires
        digits.len() == 8,
        all_digits(digits),
    ensures
        ({
            let uri = setup_uri_text(category, digits, setup_id);
            &&& uri.len() == 16 + setup_id.len()
            &&& uri.take(7) == "X-HM://"@
            &&& numeral_value(uri.subrange(7, 16), 36) == setup_payload(
                category,
                setup_code(digits),
            )
            &&& uri.skip(16) == setup_id
        }),
{
    reveal_strlit("X-HM://");
    lemma_eight_digits(digits);
    let payload = setup_payload(category, setup_code(digits));
    lemma_payload_width(category, setup_code(digits));
    law_numeral_reads_back(payload, 36);
    lemma_zero_padded_reads_back(numeral(payload, 36), 9, 36);
    let uri = setup_uri_text(category, digits, setup_id);
    let middle = zero_padded(numeral(payload, 36), 9);
    assert(middle.len() == 9);
    assert(uri.take(7) =~= "X-HM://"@);
    assert(uri.subrange(7, 16) =~= middle);
    assert(uri.skip(16) =~= setup_id);
}

/// Accessories with the same setup URI have the same category, the same pin and the same setup
/// identifier.
pub proof fn law_setup_uri_determines_setup(
    category: u8,
    digits: Seq<u8>,
    setup_id: Seq<char>,
    other_category: u8,
    other_digits: Seq<u8>,
    other_id: Seq<char>,
)
    requires
        digits.len() == 8,
        all_digits(digits),
        other_digits.len() == 8,
        all_digits(other_digits),
        setup_uri_text(category, digits, setup_id) == setup_uri_text(
            other_category,
            other_digits,
            other_id,
        ),
    ensures
        category == other_category,
        digits == other_digits,
        setup_id == other_id,
{
    law_setup_uri_reads_back(category, digits, setup_id);
    law_setup_uri_reads_back(other_category, other_digits, other_id);
    lemma_eight_digits(digits);
    lemma_eight_digits(other_digits);
    law_payload_takes_apart(category, setup_code(digits));
    law_payload_takes_apart(other_category, setup_code(other_digits));
    crate::pin::law_code_determines_pin(digits, other_digits);
}

/// A setup hash is eight characters long, and the last two are padding.
pub proof fn law_setup_hash_is_eight_characters(digest: Seq<u8>)
    requires
        digest.len() >= 4,
    ensures
        digest_hash(digest).len() == 8,
        digest_hash(digest).skip(6) == seq!['=', '='],
{
    assert(digest_hash(digest).skip(6) =~= seq!['=', '=']);
}

/// The setup hash is the base64 text of the first four bytes of the SHA-512 digest over the setup
/// identifier and, behind it, the device identifier.
pub proof fn law_setup_hash_is_of_both_identifiers(setup_id: &str, device_id: &str, text: String)
    requires
        call_ensures(hash_setup, (setup_id, device_id), text),
    ensures
        text@ == base64_text(
            sha512_digest(encode_utf8(setup_id@) + encode_utf8(device_id@)).take(4),
        ),
{
}

/// A setup hash spells the first 32 bits of the digest, six to a character of the standard
/// alphabet, filled up with zero bits and with padding.
pub proof fn law_setup_hash_spells_four_bytes(digest: &[u8], text: String)
    requires
        digest@.len() >= 4,
        call_ensures(hash_from_digest, (digest,), text),
    ensures
        ({
            let alphabet = "ABCDEFGHIJKLMNOPQRSTUVWXYZabcdefghijklmnopqrstuvwxyz0123456789+/"@;
            &&& text@.len() == 8
            &&& text@[0] == alphabet[digest@[0] as int / 4]
            &&& text@[1] == alphabet[digest@[0] as int % 4 * 16 + digest@[1] as int / 16]
            &&& text@[2] == alphabet[digest@[1] as int % 16 * 4 + digest@[2] as int / 64]
            &&& text@[3] == alphabet[digest@[2] as int % 64]
            &&& text@[4] == alphabet[digest@[3] as int / 4]
            &&& text@[5] == alphabet[digest@[3] as int % 4 * 16]
            &&& text@[6] == '='
            &&& text@[7] == '='
        }),
{
    let first = digest@.take(4);
    lemma_four_bytes(first);
    assert forall|i: int| 0 <= i < 6 implies sextet(first, i) < 64 && #[trigger] text@[i]
        == "ABCDEFGHIJKLMNOPQRSTUVWXYZabcdefghijklmnopqrstuvwxyz0123456789+/"@[sextet(
        first,
        i,
    ) as int] by {
        lemma_base64_alphabet(sextet(first, i));
        assert(text@[i] == base64_text(first)[i]);
    }
    assert(text@[6] == base64_text(first)[6]);
    assert(text@[7] == base64_text(first)[7]);
}

/// The six groups of bits that four bytes make.
proof fn lemma_four_bytes(bytes: Seq<u8>)
    requires
        bytes.len() == 4,
    ensures
        sextet(bytes, 0) == bytes[0] as int / 4,
        sextet(bytes, 1) == bytes[0] as int % 4 * 16 + bytes[1] as int / 16,
        sextet(bytes, 2) == bytes[1] as int % 16 * 4 + bytes[2] as int / 64,
        sextet(bytes, 3) == bytes[2] as int % 64,
        sextet(bytes, 4) == bytes[3] as int / 4,
        sextet(bytes, 5) == bytes[3] as int % 4 * 16,
        forall|i: int| 0 <= i < 6 ==> #[trigger] sextet(bytes, i) < 64,
{
    lemma_three_bytes(bytes[0], bytes[1], bytes[2]);
    lemma_three_bytes(bytes[3], 0, 0);
    assert(byte_or_zero(bytes, 3) == bytes[3]);
    assert(byte_or_zero(bytes, 4) == 0);
    assert(byte_or_zero(bytes, 5) == 0);
}

/// Three bytes as four groups of six bits.
proof fn lemma_three_bytes(a: u8, b: u8, c: u8)
    ensures
        ({
            let word = a * 65536 + b * 256 + c;
            &&& word / 262144 == a as int / 4
            &&& word / 4096 % 64 == a as int % 4 * 16 + b as int / 16
            &&& word / 64 % 64 == b as int % 16 * 4 + c as int / 64
            &&& word % 64 == c as int % 64
        }),
{
    let (x, y, z) = (a as u32, b as u32, c as u32);
    let word = (x * 65536 + y * 256 + z) as u32;
    assert(word / 262144 == x / 4 && word / 4096 % 64 == x % 4 * 16 + y / 16 && word / 64
        % 64 == y % 16 * 4 + z / 64 && word % 64 == z % 64) by (bit_vector)
        requires
            x < 256,
            y < 256,
            z < 256,
            word == x * 65536 + y * 256 + z,
    ;
}

proof fn lemma_base64_alphabet(sextet: nat)
    requires
        sextet < 64,
    ensures
        base64_char(sextet)
            == "ABCDEFGHIJKLMNOPQRSTUVWXYZabcdefghijklmnopqrstuvwxyz0123456789+/"@[sextet as int],
{
    reveal_strlit("ABCDEFGHIJKLMNOPQRSTUVWXYZabcdefghijklmnopqrstuvwxyz0123456789+/");
}

/// The setup identifier has a character for every picked number: `0` to `9`, then `A` to `Z`.
pub proof fn law_setup_id_spells_the_picks(picks: &Vec<usize>, text: String)
    requires
        forall|i: int| 0 <= i < picks@.len() ==> picks@[i] < 36,
        call_ensures(setup_id_from, (picks,), text),
    ensures
        text@.len() == picks@.len(),
        forall|i: int|
            0 <= i < picks@.len() ==> (#[trigger] text@[i]) as int == (if picks@[i] < 10 {
                48 + picks@[i]
            } else {
                55 + picks@[i]
            }),
{
}

/// A generated setup identifier is four characters, digits or uppercase letters, each of which
/// stands for a number that was drawn.
pub proof fn law_setup_id_is_drawn(text: String)
    requires
        call_ensures(generate_setup_id, (), text),
    ensures
        text@.len() == 4,
        forall|i: int|
            0 <= i < 4 ==> '0' <= #[trigger] text@[i] <= '9' || 'A' <= text@[i] <= 'Z',
        exists|picks: Seq<usize>|
            {
                &&& picks.len() == 4
                &&& forall|i: int|
                    0 <= i < 4 ==> is_draw_below(36, #[trigger] picks[i]) && text@[i] as int == (
                    if picks[i] < 10 {
                        48 + picks[i]
                    } else {
                        55 + picks[i]
                    })
            },
{
    let picks = choose|picks: Seq<usize>|
        {
            &&& picks.len() == 4
            &&& forall|i: int| 0 <= i < 4 ==> is_draw_below(36, #[trigger] picks[i])
            &&& text@ == #[trigger] picked_chars(picks)
        };
    assert forall|i: int| 0 <= i < 4 implies is_draw_below(36, #[trigger] picks[i]) && text@[i] as int
        == (if picks[i] < 10 {
        48 + picks[i]
    } else {
        55 + picks[i]
    }) by {
        law_draw_is_drawn(36, picks[i]);
    }
}

/// A draw is what the generator gave, and it is below the bound.
proof fn law_draw_is_drawn(bound: usize, drawn: usize)
    requires
        is_draw_below(bound, drawn),
    ensures
        call_ensures(random_below, (bound,), drawn),
        drawn < bound,
{
}

/// The payload of a setup URI holds the category, the flag for IP alone and the setup code, each in
/// its bits.
pub proof fn law_payload_is_category_flags_and_code(category: u8, code: u64, value: u64)
    requires
        code < 0x800_0000,
        call_ensures(pack_payload, (category, code), value),
    ensures
        value as int / 0x8000_0000 == category,
        value as int / 0x800_0000 % 16 == 2,
        value as int % 0x800_0000 == code,
{
}

/// Behind `X-HM://` a setup URI holds, in nine base-36 digits, the number that is made of the
/// category, the flag for IP and the setup code, and behind these the setup identifier.
pub proof fn law_setup_uri_holds_the_payload(
    category: u8,
    code: u64,
    setup_id: &str,
    text: String,
)
    requires
        code < 0x800_0000,
        call_ensures(write_setup_uri, (category, code, setup_id), text),
    ensures
        text@.len() == 16 + setup_id@.len(),
        text@.take(7) == seq!['X', '-', 'H', 'M', ':', '/', '/'],
        text@.skip(16) == setup_id@,
        forall|i: int|
            7 <= i < 16 ==> {
                let digit = (category * 0x8000_0000 + 0x1000_0000 + code) / pow(
                    36,
                    (15 - i) as nat,
                ) % 36;
                (#[trigger] text@[i]) as int == (if digit < 10 {
                    48 + digit
                } else {
                    55 + digit
                })
            },
{
    lemma_uri_digits(category, code as nat, setup_id@, text@);
}

proof fn lemma_uri_digits(category: u8, code: nat, setup_id: Seq<char>, uri: Seq<char>)
    requires
        code < 0x800_0000,
        uri == "X-HM://"@ + zero_padded(numeral(setup_payload(category, code), 36), 9) + setup_id,
    ensures
        uri.len() == 16 + setup_id.len(),
        uri.take(7) == seq!['X', '-', 'H', 'M', ':', '/', '/'],
        uri.skip(16) == setup_id,
        forall|i: int|
            7 <= i < 16 ==> {
                let digit = (category * 0x8000_0000 + 0x1000_0000 + code) / pow(
                    36,
                    (15 - i) as nat,
                ) % 36;
                (#[trigger] uri[i]) as int == (if digit < 10 {
                    48 + digit
                } else {
                    55 + digit
                })
            },
{
    reveal_strlit("X-HM://");
    let payload = setup_payload(category, code);
    lemma_payload_width(category, code);
    lemma_padded_digits(payload, 36, 9);
    let middle = zero_padded(numeral(payload, 36), 9);
    assert(uri.take(7) =~= seq!['X', '-', 'H', 'M', ':', '/', '/']);
    assert(uri.skip(16) =~= setup_id);
    assert forall|i: int| 7 <= i < 16 implies {
        let digit = (category * 0x8000_0000 + 0x1000_0000 + code) / pow(36, (15 - i) as nat) % 36;
        (#[trigger] uri[i]) as int == (if digit < 10 {
            48 + digit
        } else {
            55 + digit
        })
    } by {
        assert(uri[i] == middle[i - 7]);
        assert((9 - 1 - (i - 7)) as nat == (15 - i) as nat);
    }
}

/// The digits of the setup URI of a pin.
pub(crate) proof fn lemma_setup_uri_digits(category: u8, digits: Seq<u8>, setup_id: Seq<char>)
    requires
        digits.len() == 8,
        all_digits(digits),
    ensures
        ({
            let uri = setup_uri_text(category, digits, setup_id);
            &&& uri.len() == 16 + setup_id.len()
            &&& uri.take(7) == seq!['X', '-', 'H', 'M', ':', '/', '/']
            &&& uri.skip(16) == setup_id
            &&& forall|i: int|
                7 <= i < 16 ==> {
                    let digit = (category * 0x8000_0000 + 0x1000_0000 + setup_code(digits)) / pow(
                        36,
                        (15 - i) as nat,
                    ) % 36;
                    (#[trigger] uri[i]) as int == (if digit < 10 {
                        48 + digit
                    } else {
                        55 + digit
                    })
                }
        }),
{
    lemma_eight_digits(digits);
    lemma_uri_digits(
        category,
        setup_code(digits),
        setup_id,
        setup_uri_text(category, digits, setup_id),
    );
}

} // verus!

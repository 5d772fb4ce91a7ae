//! The calls into other crates: hashing, text encodings, signatures, randomness
//! and the clock. What each contract claims of the call is believed, not proved.
use base64::Engine;
use ed25519_dalek::{Signer, SigningKey, Verifier, VerifyingKey};
use rand::RngCore;
use sha2::Digest;
use vstd::prelude::*;
use vstd::utf8::{decode_utf8, valid_utf8};

verus! {

/// The lower-case hexadecimal digit of a value under sixteen.
pub open spec fn hex_digit(n: int) -> char {
    if n < 10 {
        (48 + n) as char
    } else {
        (87 + n) as char
    }
}

/// `bytes` in lower-case hexadecimal, two digits for each byte.
pub open spec fn hex_of(bytes: Seq<u8>) -> Seq<char> {
    Seq::new(
        2 * bytes.len(),
        |i: int|
            if i % 2 == 0 {
                hex_digit(bytes[i / 2] as int / 16)
            } else {
                hex_digit(bytes[i / 2] as int % 16)
            },
    )
}

/// Whether `c` is a hexadecimal digit, in either case.
pub open spec fn is_hex_digit(c: char) -> bool {
    '0' <= c <= '9' || 'a' <= c <= 'f' || 'A' <= c <= 'F'
}

/// The value of a hexadecimal digit.
pub open spec fn hex_value(c: char) -> int {
    if '0' <= c <= '9' {
        c as int - 48
    } else if 'a' <= c <= 'f' {
        c as int - 87
    } else {
        c as int - 55
    }
}

/// Whether `s` is an even number of hexadecimal digits.
pub open spec fn is_hex(s: Seq<char>) -> bool {
    s.len() % 2 == 0 && forall|i: int| 0 <= i < s.len() ==> is_hex_digit(#[trigger] s[i])
}

/// The bytes that an even number of hexadecimal digits stands for.
pub open spec fn unhex(s: Seq<char>) -> Seq<u8> {
    Seq::new(s.len() / 2, |i: int| (16 * hex_value(s[2 * i]) + hex_value(s[2 * i + 1])) as u8)
}

/// `hex::encode` writes each byte as two lower-case hexadecimal digits, the
/// high half first.
#[verifier::external_body]
pub(crate) fn hex_encode(bytes: &[u8]) -> (r: String)
    ensures
        r@ == hex_of(bytes@),
{
    hex::encode(bytes)
}

/// `hex::decode` reads an even number of hexadecimal digits of either case,
/// two for each byte, and refuses every other text.
#[verifier::external_body]
pub(crate) fn hex_decode(s: &str) -> (r: Option<Vec<u8>>)
    ensures
        r is Some <==> is_hex(s@),
        r is Some ==> r->0@ == unhex(s@),
{
    hex::decode(s).ok()
}

/// The SHA-256 digest of a sequence of bytes.
pub uninterp spec fn sha256_of(bytes: Seq<u8>) -> Seq<u8>;

/// `sha2::Sha256::digest` is a function of the bytes it is handed, and thirty-two
/// bytes long.
#[verifier::external_body]
pub(crate) fn sha256(bytes: &[u8]) -> (r: [u8; 32])
    ensures
        r@ == sha256_of(bytes@),
{
    sha2::Sha256::digest(bytes).into()
}

/// The base64 digit of a value under sixty-four. The last two differ between the
/// alphabets.
pub open spec fn digit64(n: int, last_but_one: char, last: char) -> char {
    if n < 26 {
        (65 + n) as char
    } else if n < 52 {
        (71 + n) as char
    } else if n < 62 {
        (n - 4) as char
    } else if n == 62 {
        last_but_one
    } else {
        last
    }
}

/// A byte, or zero past the end.
pub open spec fn byte_at(bytes: Seq<u8>, i: int) -> int {
    if 0 <= i < bytes.len() {
        bytes[i] as int
    } else {
        0
    }
}

/// The `i`-th six bits of `bytes`, the high bits first.
pub open spec fn sextet(bytes: Seq<u8>, i: int) -> int {
    let a = byte_at(bytes, i / 4 * 3);
    let b = byte_at(bytes, i / 4 * 3 + 1);
    let c = byte_at(bytes, i / 4 * 3 + 2);
    if i % 4 == 0 {
        a / 4
    } else if i % 4 == 1 {
        a % 4 * 16 + b / 16
    } else if i % 4 == 2 {
        b % 16 * 4 + c / 64
    } else {
        c % 64
    }
}

/// How many digits `bytes` have in base64.
pub open spec fn digits64(bytes: Seq<u8>) -> nat {
    (4 * bytes.len() + 2) / 3
}

/// Bytes in URL-safe base64, without padding.
pub open spec fn base64_url_of(bytes: Seq<u8>) -> Seq<char> {
    Seq::new(digits64(bytes), |i: int| digit64(sextet(bytes, i), '-', '_'))
}

/// Bytes in standard base64, padded to a multiple of four.
pub open spec fn base64_of(bytes: Seq<u8>) -> Seq<char> {
    Seq::new(
        (bytes.len() + 2) / 3 * 4,
        |i: int|
            if i < digits64(bytes) {
                digit64(sextet(bytes, i), '+', '/')
            } else {
                '='
            },
    )
}

/// The bytes that a text stands for in standard base64, if it is one.
pub open spec fn unbase64(text: Seq<char>) -> Option<Seq<u8>> {
    if exists|b: Seq<u8>| base64_of(b) == text {
        Some(choose|b: Seq<u8>| base64_of(b) == text)
    } else {
        None
    }
}

/// `Engine::encode` of base64's `URL_SAFE_NO_PAD` writes six bits to a digit of the
/// URL-safe alphabet, and pads with nothing.
#[verifier::external_body]
pub(crate) fn base64_url(bytes: &[u8; 32]) -> (r: String)
    ensures
        r@ == base64_url_of(bytes@),
{
    base64::engine::general_purpose::URL_SAFE_NO_PAD.encode(bytes)
}

/// `Engine::encode` of base64's `STANDARD` writes six bits to a digit of the standard
/// alphabet, and pads the last group of four.
#[verifier::external_body]
pub(crate) fn base64_standard(bytes: &[u8; 32]) -> (r: String)
    ensures
        r@ == base64_of(bytes@),
{
    base64::engine::general_purpose::STANDARD.encode(bytes)
}

/// `Engine::decode` of base64's `STANDARD` gives the bytes whose encoding a text is.
/// It asks for the padding and refuses bits that are left over, so it fails on every
/// text that is no encoding.
#[verifier::external_body]
pub(crate) fn base64_decode(text: &str) -> (r: Option<Vec<u8>>)
    ensures
        match r {
            Some(bytes) => base64_of(bytes@) == text@,
            None => forall|b: Seq<u8>| #[trigger] base64_of(b) != text@,
        },
{
    base64::engine::general_purpose::STANDARD.decode(text).ok()
}

proof fn sextets_are_small(bytes: Seq<u8>, i: int)
    ensures
        0 <= sextet(bytes, i) < 64,
{
}

proof fn digit_is_its_own(m: int, n: int)
    requires
        0 <= m < 64,
        0 <= n < 64,
        digit64(m, '+', '/') == digit64(n, '+', '/'),
    ensures
        m == n,
{
}

proof fn digit_is_no_padding(n: int)
    requires
        0 <= n < 64,
    ensures
        digit64(n, '+', '/') != '=',
{
}

/// A byte, from the six bits that its group was cut into.
proof fn byte_of_sextets(bytes: Seq<u8>, j: int)
    requires
        0 <= j < bytes.len(),
    ensures
        bytes[j] == (if j % 3 == 0 {
            sextet(bytes, j / 3 * 4) * 4 + sextet(bytes, j / 3 * 4 + 1) / 16
        } else if j % 3 == 1 {
            sextet(bytes, j / 3 * 4 + 1) % 16 * 16 + sextet(bytes, j / 3 * 4 + 2) / 4
        } else {
            sextet(bytes, j / 3 * 4 + 2) % 4 * 64 + sextet(bytes, j / 3 * 4 + 3)
        }),
{
    let g = j / 3;
    assert((g * 4) / 4 == g && (g * 4 + 1) / 4 == g && (g * 4 + 2) / 4 == g && (g * 4 + 3) / 4 == g);
    assert((g * 4) % 4 == 0 && (g * 4 + 1) % 4 == 1 && (g * 4 + 2) % 4 == 2 && (g * 4 + 3) % 4
        == 3);
}

/// No two sequences of bytes are the same in base64.
pub proof fn base64_is_one_to_one(a: Seq<u8>, b: Seq<u8>)
    requires
        base64_of(a) == base64_of(b),
    ensures
        a == b,
{
    let t = base64_of(a);
    assert(t.len() == (a.len() + 2) / 3 * 4);
    assert(t.len() == (b.len() + 2) / 3 * 4);
    if digits64(a) < digits64(b) {
        let i = digits64(a) as int;
        assert(t[i] == '=');
        assert(base64_of(b)[i] == digit64(sextet(b, i), '+', '/'));
        sextets_are_small(b, i);
        digit_is_no_padding(sextet(b, i));
    } else if digits64(b) < digits64(a) {
        let i = digits64(b) as int;
        assert(base64_of(b)[i] == '=');
        assert(t[i] == digit64(sextet(a, i), '+', '/'));
        sextets_are_small(a, i);
        digit_is_no_padding(sextet(a, i));
    }
    assert(a.len() == b.len());
    assert forall|i: int| 0 <= i < digits64(a) implies sextet(a, i) == sextet(b, i) by {
        assert(base64_of(a)[i] == digit64(sextet(a, i), '+', '/'));
        assert(base64_of(b)[i] == digit64(sextet(b, i), '+', '/'));
        sextets_are_small(a, i);
        sextets_are_small(b, i);
        digit_is_its_own(sextet(a, i), sextet(b, i));
    }
    assert forall|j: int| 0 <= j < a.len() implies a[j] == b[j] by {
        byte_of_sextets(a, j);
        byte_of_sextets(b, j);
    }
    assert(a =~= b);
}

/// What encodes to a text is what the text stands for.
pub proof fn base64_reads_back(text: Seq<char>, bytes: Seq<u8>)
    requires
        base64_of(bytes) == text,
    ensures
        unbase64(text) == Some(bytes),
{
    let b = choose|b: Seq<u8>| base64_of(b) == text;
    base64_is_one_to_one(b, bytes);
}

/// A character of the URL-safe base64 alphabet.
pub open spec fn is_url_safe(c: char) -> bool {
    'A' <= c <= 'Z' || 'a' <= c <= 'z' || '0' <= c <= '9' || c == '-' || c == '_'
}

/// Thirty-two bytes in URL-safe base64 are forty-three characters, none of which needs
/// to be escaped anywhere.
pub proof fn url_text_is_plain(bytes: Seq<u8>)
    requires
        bytes.len() == 32,
    ensures
        base64_url_of(bytes).len() == 43,
        forall|i: int| 0 <= i < 43 ==> is_url_safe(#[trigger] base64_url_of(bytes)[i]),
{
    assert forall|i: int| 0 <= i < 43 implies is_url_safe(
        #[trigger] base64_url_of(bytes)[i],
    ) by {
        sextets_are_small(bytes, i);
    }
}

/// `str::from_utf8` gives the text that bytes encode in UTF-8, and refuses bytes that
/// encode none.
#[verifier::external_body]
pub(crate) fn utf8_text(bytes: &[u8]) -> (r: Option<String>)
    ensures
        r is Some <==> valid_utf8(bytes@),
        r is Some ==> r->0@ == decode_utf8(bytes@),
{
    std::str::from_utf8(bytes).ok().map(|s| s.to_owned())
}

/// A text in quotes, with what cannot be printed escaped.
pub uninterp spec fn debug_text(s: Seq<char>) -> Seq<char>;

/// `{:?}` of a text, which std documents as the text in quotes with its special
/// characters escaped, is a function of the text.
#[verifier::external_body]
pub(crate) fn debug_of(s: &str) -> (r: String)
    ensures
        r@ == debug_text(s@),
{
    format!("{:?}", s)
}

/// A character within a JSON string: what would end the string or break the line is
/// escaped, as is every other control character.
pub open spec fn json_escaped(c: char) -> Seq<char> {
    if c == '"' {
        seq!['\\', '"']
    } else if c == '\\' {
        seq!['\\', '\\']
    } else if c == '\n' {
        seq!['\\', 'n']
    } else if c == '\r' {
        seq!['\\', 'r']
    } else if c == '\t' {
        seq!['\\', 't']
    } else if c as int == 8 {
        seq!['\\', 'b']
    } else if c as int == 12 {
        seq!['\\', 'f']
    } else if (c as int) < 32 {
        seq!['\\', 'u', '0', '0', hex_digit(c as int / 16), hex_digit(c as int % 16)]
    } else {
        seq![c]
    }
}

/// The characters of a JSON string.
pub open spec fn json_inner(s: Seq<char>) -> Seq<char>
    decreases s.len(),
{
    if s.len() == 0 {
        Seq::empty()
    } else {
        json_inner(s.drop_last()) + json_escaped(s.last())
    }
}

/// A text as a JSON string, quoted and escaped.
pub open spec fn json_quoted(s: Seq<char>) -> Seq<char> {
    seq!['"'] + json_inner(s) + seq!['"']
}

/// `serde_json::to_string` of a text puts it in quotes, and escapes quotes, backslashes
/// and control characters.
#[verifier::external_body]
pub(crate) fn json_quote(s: &str) -> (r: String)
    ensures
        r@ == json_quoted(s@),
{
    serde_json::to_string(s).unwrap_or_default()
}

/// The ed25519 verifying key of a signing key's seed.
pub uninterp spec fn ed25519_key_of(seed: Seq<u8>) -> Seq<u8>;

/// The ed25519 signature of a message under a signing key's seed.
pub uninterp spec fn ed25519_signature_of(seed: Seq<u8>, message: Seq<u8>) -> Seq<u8>;

/// Whether a signature of a message verifies under a verifying key.
pub uninterp spec fn ed25519_accepts(key: Seq<u8>, message: Seq<u8>, signature: Seq<u8>) -> bool;

/// `SigningKey::from_bytes` and `SigningKey::verifying_key` make the verifying
/// key from the seed alone.
#[verifier::external_body]
pub(crate) fn ed25519_key(seed: &[u8; 32]) -> (r: [u8; 32])
    ensures
        r@ == ed25519_key_of(seed@),
{
    SigningKey::from_bytes(seed).verifying_key().to_bytes()
}

/// `Signer::sign` of ed25519 is a function of the seed and the message, and its
/// signature verifies under the verifying key of that seed.
#[verifier::external_body]
pub(crate) fn ed25519_sign(seed: &[u8; 32], message: &[u8]) -> (r: [u8; 64])
    ensures
        r@ == ed25519_signature_of(seed@, message@),
        ed25519_accepts(ed25519_key_of(seed@), message@, r@),
{
    SigningKey::from_bytes(seed).sign(message).to_bytes()
}

/// `Verifier::verify` of ed25519 depends on the key, the message and the
/// signature alone. Bytes that are no point of the curve verify nothing.
#[verifier::external_body]
pub(crate) fn ed25519_verify(key: &[u8; 32], message: &[u8], signature: &[u8; 64]) -> (r: bool)
    ensures
        r == ed25519_accepts(key@, message@, signature@),
{
    let signature = ed25519_dalek::Signature::from_bytes(signature);
    VerifyingKey::from_bytes(key).is_ok_and(|k| k.verify(message, &signature).is_ok())
}

/// `rand::random` fills thirty-two bytes from the thread's generator. Nothing
/// can be said of what they are.
#[verifier::external_body]
pub(crate) fn random_bytes() -> [u8; 32] {
    rand::random()
}

/// `OsRng::fill_bytes` fills thirty-two bytes from the operating system.
/// Nothing can be said of what they are.
#[verifier::external_body]
pub(crate) fn os_random_bytes() -> [u8; 32] {
    let mut seed = [0u8; 32];
    rand::rngs::OsRng.fill_bytes(&mut seed);
    seed
}

/// A lower-case hexadecimal digit.
pub open spec fn is_lower_hex(c: char) -> bool {
    '0' <= c <= '9' || 'a' <= c <= 'f'
}

/// Whether a text is a random UUID in its simple form: thirty-two hexadecimal digits,
/// of which one is the version and one tells the variant.
pub open spec fn is_uuid_text(s: Seq<char>) -> bool {
    &&& s.len() == 32
    &&& forall|i: int| 0 <= i < 32 ==> is_lower_hex(#[trigger] s[i])
    &&& s[12] == '4'
    &&& s[16] == '8' || s[16] == '9' || s[16] == 'a' || s[16] == 'b'
}

/// Whether a text is thirty-two bytes in URL-safe base64.
pub open spec fn is_key_text(s: Seq<char>) -> bool {
    exists|b: Seq<u8>| b.len() == 32 && #[trigger] base64_url_of(b) == s
}

/// `Uuid::new_v4` in its simple form: lower-case hexadecimal digits, with version 4 and
/// the variant of RFC 4122. Which ones the others are is chance.
#[verifier::external_body]
pub(crate) fn fresh_uuid() -> (r: String)
    ensures
        is_uuid_text(r@),
{
    uuid::Uuid::new_v4().simple().to_string()
}

/// Thirty-two random bytes as a text.
pub(crate) fn fresh_key_text() -> (r: String)
    ensures
        is_key_text(r@),
{
    let bytes = random_bytes();
    let r = base64_url(&bytes);
    assert(bytes@.len() == 32 && base64_url_of(bytes@) == r@);
    r
}

/// Milliseconds since the Unix epoch, by `SystemTime::now`; 0 on a clock that
/// stands before it. Nothing can be said of the value.
#[verifier::external_body]
pub fn now_ms() -> u64 {
    std::time::SystemTime::now().duration_since(std::time::UNIX_EPOCH).map(|d| d.as_millis() as u64).unwrap_or(0)
}

} // verus!

//! At-rest encryption and request signing.
//!
//! [`SecretCipher`] seals signing secrets with XChaCha20-Poly1305 when an encryption key is
//! configured, and falls back to a hex-encoded plaintext envelope otherwise, so that there is one
//! self-describing storage format. [`canonical_v1_payload`], [`compute_signature`] and
//! [`verify_signature`] are the `CANONICAL_V1` HMAC-SHA256 scheme shared by inbound authentication
//! and outbound signed calls.
//!
//! [`SecretCipher::open`] fails closed: a stored value without a recognised prefix is an error,
//! never handed back verbatim.

use chacha20poly1305::aead::Aead;
use chacha20poly1305::{Key, KeyInit, XChaCha20Poly1305, XNonce};
use hmac::{Hmac, Mac};
use rand::RngExt;
use sha2::Sha256;
use vstd::prelude::*;
use vstd::utf8::*;

use crate::text;

verus! {

/// Maximum permitted clock skew, in seconds, of a signed request.
pub const MAX_TIMESTAMP_SKEW_SECS: i64 = 300;

/// Environment variable carrying the encryption key as 64 hexadecimal characters.
pub const ENCRYPTION_KEY_ENV: &'static str = "SYNC_ENCRYPTION_KEY";

/// Bytes in an encryption key.
pub const KEY_LEN: usize = 32;

/// Bytes in an encryption nonce.
pub const NONCE_LEN: usize = 24;

/// Prefix of a secret that is stored hex-encoded but not encrypted.
pub const PLAINTEXT_PREFIX: &'static str = "v1.plain.";

/// Prefix of an encrypted secret.
pub const SEALED_PREFIX: &'static str = "v1.xchacha20poly1305.";

/// Required prefix of a signature header value.
pub const SIGNATURE_PREFIX: &'static str = "sha256=";

/// Failure modes of the operations on secrets.
#[derive(Clone, Copy, Debug, PartialEq, Eq, Structural)]
pub enum CryptoError {
    /// The configured key is not exactly 64 hexadecimal characters.
    InvalidKey,
    /// A stored secret does not carry a recognised envelope, or its contents are corrupt.
    MalformedCiphertext,
    /// Decryption failed: wrong key, or tampered ciphertext.
    DecryptionFailed,
    /// Encryption failed.
    EncryptionFailed,
}

impl CryptoError {
    /// The text an operator reads.
    pub open spec fn text(self) -> Seq<char> {
        match self {
            CryptoError::InvalidKey => "invalid encryption key"@,
            CryptoError::MalformedCiphertext => "malformed ciphertext"@,
            CryptoError::DecryptionFailed => "decryption failed"@,
            CryptoError::EncryptionFailed => "encryption failed"@,
        }
    }

    /// The text an operator reads.
    pub fn message(&self) -> (r: &'static str)
        ensures
            r@ == self.text(),
    {
        match self {
            CryptoError::InvalidKey => "invalid encryption key",
            CryptoError::MalformedCiphertext => "malformed ciphertext",
            CryptoError::DecryptionFailed => "decryption failed",
            CryptoError::EncryptionFailed => "encryption failed",
        }
    }
}

// ---------------------------------------------------------------------------
// Hexadecimal text
// ---------------------------------------------------------------------------
/// The lower-case hexadecimal digit of a value below sixteen.
pub open spec fn hex_digit(v: int) -> char {
    if v < 10 {
        ('0' as u32 + v) as char
    } else {
        ('a' as u32 + (v - 10)) as char
    }
}

/// The value of a hexadecimal digit of either case.
pub open spec fn hex_value(c: char) -> Option<int> {
    if '0' <= c <= '9' {
        Some(c as u32 - '0' as u32)
    } else if 'a' <= c <= 'f' {
        Some(c as u32 - 'a' as u32 + 10)
    } else if 'A' <= c <= 'F' {
        Some(c as u32 - 'A' as u32 + 10)
    } else {
        None
    }
}

/// Bytes written as two lower-case hexadecimal digits each, the high half first.
pub open spec fn hex_text(bytes: Seq<u8>) -> Seq<char> {
    Seq::new(
        2 * bytes.len(),
        |i: int|
            if i % 2 == 0 {
                hex_digit(bytes[i / 2] as int / 16)
            } else {
                hex_digit(bytes[i / 2] as int % 16)
            },
    )
}

/// Whether `s` is a whole number of bytes in hexadecimal.
pub open spec fn is_hex_text(s: Seq<char>) -> bool {
    &&& s.len() % 2 == 0
    &&& forall|i: int| 0 <= i < s.len() ==> hex_value(#[trigger] s[i]) is Some
}

/// The bytes that hexadecimal text stands for.
pub open spec fn hex_bytes(s: Seq<char>) -> Seq<u8> {
    Seq::new(
        s.len() / 2,
        |i: int| (hex_value(s[2 * i])->0 * 16 + hex_value(s[2 * i + 1])->0) as u8,
    )
}

/// Hexadecimal text is ASCII.
proof fn lemma_hex_text_is_ascii(bytes: Seq<u8>)
    ensures
        is_ascii_chars(hex_text(bytes)),
{
    let s = hex_text(bytes);
    assert forall|i: int| 0 <= i < s.len() implies 0 <= (#[trigger] s[i]) as int && s[i] as int
        <= 127 by {
        let b = bytes[i / 2] as int;
        assert(0 <= b / 16 < 16 && 0 <= b % 16 < 16);
    }
}

/// Calls `hex::encode`, which writes each byte as two lower-case digits.
#[verifier::external_body]
pub(crate) fn hex_encode(bytes: &[u8]) -> (r: String)
    ensures
        r@ == hex_text(bytes@),
{
    hex::encode(bytes)
}

/// Calls `hex::decode`, which accepts an even number of digits of either case and nothing else.
#[verifier::external_body]
pub(crate) fn hex_decode(s: &str) -> (r: Option<Vec<u8>>)
    ensures
        r is Some <==> is_hex_text(s@),
        r matches Some(bytes) ==> bytes@ == hex_bytes(s@),
{
    hex::decode(s).ok()
}

/// Hexadecimal text gives back the bytes it was written from.
pub proof fn law_hex_round_trip(bytes: Seq<u8>)
    ensures
        is_hex_text(hex_text(bytes)),
        hex_bytes(hex_text(bytes)) == bytes,
{
    let s = hex_text(bytes);
    assert forall|i: int| 0 <= i < s.len() implies hex_value(#[trigger] s[i]) is Some by {
        let b = bytes[i / 2] as int;
        assert(0 <= b / 16 < 16 && 0 <= b % 16 < 16);
    }
    assert forall|i: int| 0 <= i < bytes.len() implies hex_bytes(s)[i] == #[trigger] bytes[i] by {
        let b = bytes[i] as int;
        assert((2 * i) / 2 == i && (2 * i + 1) / 2 == i);
        assert(0 <= b / 16 < 16 && 0 <= b % 16 < 16);
        assert(hex_value(s[2 * i]) == Some(b / 16));
        assert(hex_value(s[2 * i + 1]) == Some(b % 16));
    }
    assert(hex_bytes(s) =~= bytes);
}

// ---------------------------------------------------------------------------
// Outside primitives
// ---------------------------------------------------------------------------
/// What HMAC-SHA256 of `message` under `key` is.
pub uninterp spec fn hmac_sha256(key: Seq<u8>, message: Seq<u8>) -> Seq<u8>;

/// Calls `Hmac::<Sha256>`: `new_from_slice` takes a key of any length, and the finished tag is the
/// 32 bytes of HMAC-SHA256.
#[verifier::external_body]
fn hmac_tag(key: &[u8], message: &[u8]) -> (r: Option<Vec<u8>>)
    ensures
        r is Some,
        r->0@ == hmac_sha256(key@, message@),
        r->0@.len() == 32,
{
    let mut mac = Hmac::<Sha256>::new_from_slice(key).ok()?;
    mac.update(message);
    Some(mac.finalize().into_bytes().to_vec())
}

/// Calls `Mac::verify_slice`, which compares the whole tag, its length included, in constant time.
#[verifier::external_body]
fn hmac_matches(key: &[u8], message: &[u8], tag: &[u8]) -> (matches: bool)
    ensures
        matches == (tag@ == hmac_sha256(key@, message@)),
{
    match Hmac::<Sha256>::new_from_slice(key) {
        Ok(mac) => mac.chain_update(message).verify_slice(tag).is_ok(),
        Err(_) => false,
    }
}

/// Calls `random` on the thread's generator, which needs a seed from the operating system. Any 32
/// bytes may come back.
#[verifier::external_body]
fn random_key_bytes() -> (bytes: [u8; 32]) {
    rand::rng().random()
}

/// Calls `random` on the thread's generator, which needs a seed from the operating system. Any 24
/// bytes may come back.
#[verifier::external_body]
fn random_nonce_bytes() -> (bytes: [u8; 24]) {
    rand::rng().random()
}

/// What XChaCha20-Poly1305 makes of `plaintext`, without associated data, tag last.
pub uninterp spec fn xchacha20poly1305_sealed(
    key: Seq<u8>,
    nonce: Seq<u8>,
    plaintext: Seq<u8>,
) -> Seq<u8>;

/// What XChaCha20-Poly1305 gives back of `ciphertext`, or nothing where the tag does not match.
pub uninterp spec fn xchacha20poly1305_opened(
    key: Seq<u8>,
    nonce: Seq<u8>,
    ciphertext: Seq<u8>,
) -> Option<Seq<u8>>;

/// The most bytes that one keystream covers: 64 for each of the 2^32 - 2 blocks that are left to a
/// message.
pub const KEYSTREAM_LEN: u64 = 274_877_906_816;

/// Bytes of the tag behind a ciphertext.
pub const TAG_LEN: u64 = 16;

/// Whether a plaintext of `len` bytes is short enough for one keystream.
pub open spec fn fits_one_keystream(len: nat) -> bool {
    len <= KEYSTREAM_LEN
}

/// Whether a ciphertext of `len` bytes, its tag included, is short enough for one keystream.
pub open spec fn ciphertext_fits(len: nat) -> bool {
    len <= KEYSTREAM_LEN + TAG_LEN
}

/// Calls `XChaCha20Poly1305::encrypt`. A plaintext that one keystream covers is always encrypted, the
/// tag of 16 bytes comes on top, and `decrypt` under the same key and nonce gives the plaintext back.
/// Where the keystream runs out the crate panics, so such a plaintext is not admitted.
#[verifier::external_body]
fn aead_encrypt(key: &[u8; 32], nonce: &[u8; 24], plaintext: &[u8]) -> (r: Option<Vec<u8>>)
    requires
        fits_one_keystream(plaintext@.len()),
    ensures
        r is Some,
        r matches Some(c) ==> {
            &&& c@ == xchacha20poly1305_sealed(key@, nonce@, plaintext@)
            &&& c@.len() == plaintext@.len() + TAG_LEN
            &&& xchacha20poly1305_opened(key@, nonce@, c@) == Some(plaintext@)
        },
{
    let cipher = XChaCha20Poly1305::new(&Key::from(*key));
    cipher.encrypt(&XNonce::from(*nonce), plaintext).ok()
}

/// Calls `XChaCha20Poly1305::decrypt`. What comes back, if anything, is a function of the key, the
/// nonce and the ciphertext. That a ciphertext which was tampered with does not open is likely beyond
/// measure, but not certain, and is not claimed. Where the keystream runs out the crate panics, so such
/// a ciphertext is not admitted.
#[verifier::external_body]
fn aead_decrypt(key: &[u8; 32], nonce: &[u8; 24], ciphertext: &[u8]) -> (r: Option<Vec<u8>>)
    requires
        ciphertext_fits(ciphertext@.len()),
    ensures
        match r {
            Some(p) => xchacha20poly1305_opened(key@, nonce@, ciphertext@) == Some(p@),
            None => xchacha20poly1305_opened(key@, nonce@, ciphertext@) is None,
        },
{
    let cipher = XChaCha20Poly1305::new(&Key::from(*key));
    cipher.decrypt(&XNonce::from(*nonce), ciphertext).ok()
}

// ---------------------------------------------------------------------------
// Request signing
// ---------------------------------------------------------------------------
/// Whether `s` is 256 bits in lower-case hexadecimal.
pub open spec fn is_generated(s: Seq<char>) -> bool {
    exists|bytes: Seq<u8>| bytes.len() == 32 && s == #[trigger] hex_text(bytes)
}

/// A generated credential has 64 characters, all of them ASCII.
pub proof fn lemma_generated_is_ascii(s: Seq<char>)
    requires
        is_generated(s),
    ensures
        s.len() == 64,
        is_ascii_chars(s),
{
    let bytes = choose|bytes: Seq<u8>| bytes.len() == 32 && s == #[trigger] hex_text(bytes);
    lemma_hex_text_is_ascii(bytes);
}

/// A fresh 256-bit signing secret, hex-encoded.
pub fn generate_signing_secret() -> (r: String)
    ensures
        is_generated(r@),
{
    let bytes = random_key_bytes();
    let r = hex_encode(bytes.as_slice());
    assert(r@ == hex_text(bytes@));
    r
}

/// The `CANONICAL_V1` bytes: method, target, timestamp and body, separated by newlines.
pub open spec fn canonical_v1(
    method: Seq<char>,
    target: Seq<char>,
    timestamp: Seq<char>,
    body: Seq<u8>,
) -> Seq<u8> {
    encode_utf8(method) + seq![10u8] + encode_utf8(target) + seq![10u8] + encode_utf8(timestamp)
        + seq![10u8] + body
}

/// Appends `more` to `bytes`.
fn append_bytes(bytes: &mut Vec<u8>, more: &[u8])
    ensures
        final(bytes)@ == old(bytes)@ + more@,
{
    let ghost start = bytes@;
    for i in 0..more.len()
        invariant
            bytes@ == start + more@.take(i as int),
    {
        bytes.push(more[i]);
        assert(more@.take(i + 1) =~= more@.take(i as int).push(more@[i as int]));
    }
    assert(more@.take(more@.len() as int) =~= more@);
}

/// Builds the `CANONICAL_V1` byte string: `METHOD\nTARGET\nTIMESTAMP\nRAW_BODY`, without a
/// trailing newline. `target` must be the full request path plus query string.
pub fn canonical_v1_payload(method: &str, target: &str, timestamp: &str, body: &[u8]) -> (message:
    Vec<u8>)
    ensures
        message@ == canonical_v1(method@, target@, timestamp@, body@),
{
    let mut message: Vec<u8> = Vec::new();
    append_bytes(&mut message, method.as_bytes());
    message.push(10u8);
    append_bytes(&mut message, target.as_bytes());
    message.push(10u8);
    append_bytes(&mut message, timestamp.as_bytes());
    message.push(10u8);
    append_bytes(&mut message, body);
    assert(message@ =~= canonical_v1(method@, target@, timestamp@, body@));
    message
}

/// The encoding of a character other than a line break has no byte of a line break.
proof fn lemma_scalar_has_no_line_break(c: u32)
    requires
        c != 10,
        is_scalar(c),
    ensures
        !encode_scalar(c).contains(10u8),
{
    assert(c <= 0x7f && c != 10 ==> (c & 0x7f) as u8 != 10u8) by (bit_vector);
    assert(0xc0u8 | ((c >> 6) & 0x1f) as u8 != 10u8) by (bit_vector);
    assert(0xe0u8 | ((c >> 12) & 0x0f) as u8 != 10u8) by (bit_vector);
    assert(0xf0u8 | ((c >> 18) & 0x7) as u8 != 10u8) by (bit_vector);
    assert(0x80u8 | (c & 0x3f) as u8 != 10u8) by (bit_vector);
    assert(0x80u8 | ((c >> 6) & 0x3f) as u8 != 10u8) by (bit_vector);
    assert(0x80u8 | ((c >> 12) & 0x3f) as u8 != 10u8) by (bit_vector);
}

/// The encoding of a text without line breaks has no byte of a line break.
proof fn lemma_text_has_no_line_break(s: Seq<char>)
    requires
        !s.contains('\n'),
    ensures
        !encode_utf8(s).contains(10u8),
    decreases s.len(),
{
    if s.len() > 0 {
        assert(s.contains(s[0]));
        assert forall|c: char| s.drop_first().contains(c) implies s.contains(c) by {
            let i = s.drop_first().index_of(c);
            assert(s[i + 1] == c);
        }
        char_is_scalar(s[0]);
        char_u32_cast(s[0], s[0] as u32);
        assert(10u32 as char == '\n');
        lemma_scalar_has_no_line_break(s[0] as u32);
        lemma_text_has_no_line_break(s.drop_first());
    }
}

/// Where a line has no line break in it, the first line break ends it.
proof fn lemma_first_line(a: Seq<u8>, a_rest: Seq<u8>, b: Seq<u8>, b_rest: Seq<u8>)
    requires
        !a.contains(10u8),
        !b.contains(10u8),
        a + seq![10u8] + a_rest == b + seq![10u8] + b_rest,
    ensures
        a == b,
        a_rest == b_rest,
{
    let whole_a = a + seq![10u8] + a_rest;
    let whole_b = b + seq![10u8] + b_rest;
    assert(whole_a[a.len() as int] == 10u8);
    assert(whole_b[b.len() as int] == 10u8);
    if a.len() < b.len() {
        assert(whole_b[a.len() as int] == b[a.len() as int]);
        assert(b.contains(10u8));
    }
    if b.len() < a.len() {
        assert(whole_a[b.len() as int] == a[b.len() as int]);
        assert(a.contains(10u8));
    }
    assert(a =~= whole_a.take(a.len() as int));
    assert(b =~= whole_b.take(b.len() as int));
    assert(a_rest =~= whole_a.skip(a.len() as int + 1));
    assert(b_rest =~= whole_b.skip(b.len() as int + 1));
}

/// Two requests have the same canonical bytes only if they are the same request: the method, the
/// target, the timestamp and the body can all be read back, since the first three hold no line
/// break.
pub proof fn law_canonical_bytes_are_unambiguous(
    method: Seq<char>,
    target: Seq<char>,
    timestamp: Seq<char>,
    body: Seq<u8>,
    other_method: Seq<char>,
    other_target: Seq<char>,
    other_timestamp: Seq<char>,
    other_body: Seq<u8>,
)
    requires
        !method.contains('\n') && !other_method.contains('\n'),
        !target.contains('\n') && !other_target.contains('\n'),
        !timestamp.contains('\n') && !other_timestamp.contains('\n'),
        canonical_v1(method, target, timestamp, body) == canonical_v1(
            other_method,
            other_target,
            other_timestamp,
            other_body,
        ),
    ensures
        method == other_method,
        target == other_target,
        timestamp == other_timestamp,
        body == other_body,
{
    lemma_text_has_no_line_break(method);
    lemma_text_has_no_line_break(other_method);
    lemma_text_has_no_line_break(target);
    lemma_text_has_no_line_break(other_target);
    lemma_text_has_no_line_break(timestamp);
    lemma_text_has_no_line_break(other_timestamp);
    let third = encode_utf8(timestamp) + seq![10u8] + body;
    let other_third = encode_utf8(other_timestamp) + seq![10u8] + other_body;
    let second = encode_utf8(target) + seq![10u8] + third;
    let other_second = encode_utf8(other_target) + seq![10u8] + other_third;
    assert(canonical_v1(method, target, timestamp, body) =~= encode_utf8(method) + seq![10u8]
        + second);
    assert(canonical_v1(other_method, other_target, other_timestamp, other_body) =~= encode_utf8(
        other_method,
    ) + seq![10u8] + other_second);
    lemma_first_line(encode_utf8(method), second, encode_utf8(other_method), other_second);
    lemma_first_line(encode_utf8(target), third, encode_utf8(other_target), other_third);
    lemma_first_line(encode_utf8(timestamp), body, encode_utf8(other_timestamp), other_body);
    encode_utf8_decode_utf8(method);
    encode_utf8_decode_utf8(other_method);
    encode_utf8_decode_utf8(target);
    encode_utf8_decode_utf8(other_target);
    encode_utf8_decode_utf8(timestamp);
    encode_utf8_decode_utf8(other_timestamp);
}

/// The tag of a request under a signing secret.
pub open spec fn request_tag(
    secret: Seq<char>,
    method: Seq<char>,
    target: Seq<char>,
    timestamp: Seq<char>,
    body: Seq<u8>,
) -> Seq<u8> {
    hmac_sha256(encode_utf8(secret), canonical_v1(method, target, timestamp, body))
}

/// The header value that carries a tag.
pub open spec fn signature_header(tag: Seq<u8>) -> Seq<char> {
    SIGNATURE_PREFIX@ + hex_text(tag)
}

/// The tag that a header value carries, if it is well formed. White space around the value and
/// after the prefix is ignored.
pub open spec fn presented_tag(header: Seq<char>) -> Option<Seq<u8>> {
    let value = text::trimmed(header);
    if text::has_prefix(value, SIGNATURE_PREFIX@) {
        let digits = text::trimmed(value.skip(SIGNATURE_PREFIX@.len() as int));
        if is_hex_text(digits) {
            Some(hex_bytes(digits))
        } else {
            None
        }
    } else {
        None
    }
}

/// Computes `sha256=<hex>` over the `CANONICAL_V1` payload. The tag can be computed under every
/// secret, so this never fails.
pub fn compute_signature(
    secret: &str,
    method: &str,
    target: &str,
    timestamp: &str,
    body: &[u8],
) -> (r: Result<String, CryptoError>)
    ensures
        r is Ok,
        r->Ok_0@ == signature_header(request_tag(secret@, method@, target@, timestamp@, body@)),
{
    let payload = canonical_v1_payload(method, target, timestamp, body);
    match hmac_tag(secret.as_bytes(), payload.as_slice()) {
        Some(tag) => {
            let mut header = SIGNATURE_PREFIX.to_owned();
            header.append(hex_encode(tag.as_slice()).as_str());
            Ok(header)
        },
        None => Err(CryptoError::EncryptionFailed),
    }
}

/// Verifies a provided signature header in constant time. Gives the decoded tag on success, for
/// the replay guard to key on, and nothing on any failure.
pub fn verify_signature(
    secret: &str,
    method: &str,
    target: &str,
    timestamp: &str,
    body: &[u8],
    provided: &str,
) -> (r: Option<Vec<u8>>)
    ensures
        r is Some <==> presented_tag(provided@) == Some(
            request_tag(secret@, method@, target@, timestamp@, body@),
        ),
        r matches Some(tag) ==> tag@ == request_tag(
            secret@,
            method@,
            target@,
            timestamp@,
            body@,
        ),
{
    let value = text::trim(provided);
    let digits = match text::strip_prefix(value, SIGNATURE_PREFIX) {
        Some(rest) => text::trim(rest),
        None => return None,
    };
    let tag = match hex_decode(digits) {
        Some(tag) => tag,
        None => return None,
    };
    let payload = canonical_v1_payload(method, target, timestamp, body);
    if hmac_matches(secret.as_bytes(), payload.as_slice(), tag.as_slice()) {
        Some(tag)
    } else {
        None
    }
}

/// The digits of hexadecimal text are neither white space nor dots.
proof fn lemma_hex_text_chars(bytes: Seq<u8>)
    ensures
        forall|i: int|
            0 <= i < hex_text(bytes).len() ==> {
                let c = #[trigger] hex_text(bytes)[i];
                !text::is_white_space(c) && c != '.'
            },
{
    assert forall|i: int| 0 <= i < hex_text(bytes).len() implies {
        let c = #[trigger] hex_text(bytes)[i];
        !text::is_white_space(c) && c != '.'
    } by {
        let b = bytes[i / 2] as int;
        assert(0 <= b / 16 < 16 && 0 <= b % 16 < 16);
    }
}

/// Every signature that [`compute_signature`] gives is accepted by [`verify_signature`] for the
/// same request, and yields the request's tag.
pub proof fn law_signature_round_trip(tag: Seq<u8>)
    ensures
        presented_tag(signature_header(tag)) == Some(tag),
{
    reveal_strlit("sha256=");
    lemma_hex_text_chars(tag);
    law_hex_round_trip(tag);
    let header = signature_header(tag);
    let digits = hex_text(tag);
    assert(header.first() == 's');
    assert(header.last() == if digits.len() > 0 {
        digits.last()
    } else {
        '='
    });
    assert(text::trimmed(header) == header);
    assert(header.take(SIGNATURE_PREFIX@.len() as int) =~= SIGNATURE_PREFIX@);
    assert(header.skip(SIGNATURE_PREFIX@.len() as int) =~= digits);
    assert(text::trimmed(digits) == digits);
}

/// A signature computed for one request is refused for another, unless the two have the same tag.
pub proof fn law_signature_binds_the_request(computed: Seq<u8>, expected: Seq<u8>)
    ensures
        presented_tag(signature_header(computed)) == Some(expected) <==> computed == expected,
{
    law_signature_round_trip(computed);
}

// ---------------------------------------------------------------------------
// Secrets at rest
// ---------------------------------------------------------------------------
/// Seals and opens secrets at rest.
#[derive(Clone, Copy)]
pub enum SecretCipher {
    /// No encryption key configured: secrets are stored hex-encoded.
    Plaintext,
    /// Secrets are encrypted under this key.
    Sealed([u8; 32]),
}

/// The envelope of a secret that is not encrypted.
pub open spec fn plaintext_envelope(plaintext: Seq<char>) -> Seq<char> {
    PLAINTEXT_PREFIX@ + hex_text(encode_utf8(plaintext))
}

/// The envelope of an encrypted secret.
pub open spec fn sealed_envelope(key: Seq<u8>, nonce: Seq<u8>, plaintext: Seq<char>) -> Seq<char> {
    SEALED_PREFIX@ + hex_text(nonce) + seq!['.'] + hex_text(
        xchacha20poly1305_sealed(key, nonce, encode_utf8(plaintext)),
    )
}

/// The text that recovered bytes stand for.
pub open spec fn recovered_text(bytes: Seq<u8>) -> Result<Seq<char>, CryptoError> {
    if valid_utf8(bytes) {
        Ok(decode_utf8(bytes))
    } else {
        Err(CryptoError::MalformedCiphertext)
    }
}

impl SecretCipher {
    /// What a configured value asks for: no value, or only white space, means no encryption.
    pub open spec fn configured(value: Option<Seq<char>>) -> Result<Option<Seq<u8>>, CryptoError> {
        match value {
            Some(raw) => if text::trimmed(raw).len() == 0 {
                Ok(None)
            } else if is_hex_text(text::trimmed(raw)) && text::trimmed(raw).len() == 2 * KEY_LEN {
                Ok(Some(hex_bytes(text::trimmed(raw))))
            } else {
                Err(CryptoError::InvalidKey)
            },
            None => Ok(None),
        }
    }

    /// The key of an encrypting cipher.
    pub open spec fn key(self) -> Option<Seq<u8>> {
        match self {
            SecretCipher::Plaintext => None,
            SecretCipher::Sealed(key) => Some(key@),
        }
    }

    /// What a stored envelope holds under this cipher.
    pub open spec fn opened(self, stored: Seq<char>) -> Result<Seq<char>, CryptoError> {
        if text::has_prefix(stored, PLAINTEXT_PREFIX@) {
            let digits = stored.skip(PLAINTEXT_PREFIX@.len() as int);
            if is_hex_text(digits) {
                recovered_text(hex_bytes(digits))
            } else {
                Err(CryptoError::MalformedCiphertext)
            }
        } else if text::has_prefix(stored, SEALED_PREFIX@) {
            match text::cut_at(stored.skip(SEALED_PREFIX@.len() as int), '.') {
                None => Err(CryptoError::MalformedCiphertext),
                Some((nonce, ciphertext)) => if !is_hex_text(nonce) || nonce.len() != 2 * NONCE_LEN
                    || !is_hex_text(ciphertext) {
                    Err(CryptoError::MalformedCiphertext)
                } else {
                    match self {
                        SecretCipher::Plaintext => Err(CryptoError::DecryptionFailed),
                        SecretCipher::Sealed(key) => if !ciphertext_fits(
                            hex_bytes(ciphertext).len(),
                        ) {
                            Err(CryptoError::DecryptionFailed)
                        } else {
                            match xchacha20poly1305_opened(
                                key@,
                                hex_bytes(nonce),
                                hex_bytes(ciphertext),
                            ) {
                                None => Err(CryptoError::DecryptionFailed),
                                Some(bytes) => recovered_text(bytes),
                            }
                        },
                    }
                },
            }
        } else {
            Err(CryptoError::MalformedCiphertext)
        }
    }

    /// Whether a secret can be sealed: under a key, it must not be too long for the keystream.
    pub open spec fn can_seal(self, plaintext: Seq<char>) -> bool {
        self.key() is None || fits_one_keystream(encode_utf8(plaintext).len())
    }

    /// Whether `stored` is an envelope that this cipher makes of `plaintext`, encrypted under some
    /// nonce where a key is configured, and that it opens again.
    pub open spec fn seals(self, stored: Seq<char>, plaintext: Seq<char>) -> bool {
        &&& self.opened(stored) == Ok::<Seq<char>, CryptoError>(plaintext)
        &&& match self {
            SecretCipher::Plaintext => stored == plaintext_envelope(plaintext),
            SecretCipher::Sealed(key) => exists|nonce: Seq<u8>|
                nonce.len() == NONCE_LEN && stored == #[trigger] sealed_envelope(
                    key@,
                    nonce,
                    plaintext,
                ),
        }
    }

    /// Builds a cipher from the value of [`ENCRYPTION_KEY_ENV`]. `Ok(Plaintext)` if unset or blank;
    /// `Err(InvalidKey)` if set but not exactly 64 hexadecimal characters.
    pub fn from_env(value: Option<&str>) -> (r: Result<Self, CryptoError>)
        ensures
            match Self::configured(
                match value {
                    Some(raw) => Some(raw@),
                    None => None,
                },
            ) {
                Ok(key) => r is Ok && r->Ok_0.key() == key,
                Err(e) => r == Err::<Self, CryptoError>(e),
            },
    {
        match value {
            Some(raw) => {
                let key = text::trim(raw);
                if key.is_empty() {
                    Ok(SecretCipher::Plaintext)
                } else {
                    Self::from_hex_key(key)
                }
            },
            None => Ok(SecretCipher::Plaintext),
        }
    }

    /// Builds an encrypting cipher from a key of 64 hexadecimal characters.
    pub fn from_hex_key(hex_key: &str) -> (r: Result<Self, CryptoError>)
        ensures
            if is_hex_text(hex_key@) && hex_key@.len() == 2 * KEY_LEN {
                r is Ok && r->Ok_0.key() == Some(hex_bytes(hex_key@))
            } else {
                r == Err::<Self, CryptoError>(CryptoError::InvalidKey)
            },
    {
        let bytes = match hex_decode(hex_key) {
            Some(bytes) => bytes,
            None => return Err(CryptoError::InvalidKey),
        };
        if bytes.len() != KEY_LEN {
            return Err(CryptoError::InvalidKey);
        }
        let mut key = [0u8; 32];
        for i in 0..KEY_LEN
            invariant
                bytes@.len() == KEY_LEN,
                key@.len() == KEY_LEN,
                forall|j: int| 0 <= j < i ==> key@[j] == bytes@[j],
        {
            key[i] = bytes[i];
        }
        assert(key@ =~= bytes@);
        Ok(SecretCipher::Sealed(key))
    }

    /// Whether this cipher encrypts.
    pub fn is_encrypting(&self) -> (b: bool)
        ensures
            b == (self.key() is Some),
    {
        match self {
            SecretCipher::Plaintext => false,
            SecretCipher::Sealed(_) => true,
        }
    }

    /// Seals `plaintext` into its stored envelope, encrypting under `nonce` where a key is
    /// configured.
    pub fn seal_with_nonce(&self, nonce: &[u8; 24], plaintext: &str) -> (r: Result<
        String,
        CryptoError,
    >)
        ensures
            match self {
                SecretCipher::Plaintext => r is Ok && r->Ok_0@ == plaintext_envelope(plaintext@),
                SecretCipher::Sealed(key) => if fits_one_keystream(encode_utf8(plaintext@).len()) {
                    r is Ok && r->Ok_0@ == sealed_envelope(key@, nonce@, plaintext@)
                } else {
                    r == Err::<String, CryptoError>(CryptoError::EncryptionFailed)
                },
            },
            r is Ok ==> self.opened(r->Ok_0@) == Ok::<Seq<char>, CryptoError>(plaintext@),
    {
        match self {
            SecretCipher::Plaintext => {
                let mut envelope = PLAINTEXT_PREFIX.to_owned();
                envelope.append(hex_encode(plaintext.as_bytes()).as_str());
                proof {
                    law_plaintext_round_trip(*self, plaintext@);
                }
                Ok(envelope)
            },
            SecretCipher::Sealed(key) => {
                if plaintext.as_bytes().len() as u64 > KEYSTREAM_LEN {
                    return Err(CryptoError::EncryptionFailed);
                }
                let ciphertext = match aead_encrypt(key, nonce, plaintext.as_bytes()) {
                    Some(ciphertext) => ciphertext,
                    None => return Err(CryptoError::EncryptionFailed),
                };
                let mut envelope = SEALED_PREFIX.to_owned();
                envelope.append(hex_encode(nonce.as_slice()).as_str());
                envelope.push('.');
                envelope.append(hex_encode(ciphertext.as_slice()).as_str());
                proof {
                    assert(envelope@ =~= sealed_envelope(key@, nonce@, plaintext@));
                    lemma_sealed_round_trip(*self, nonce@, plaintext@);
                }
                Ok(envelope)
            },
        }
    }

    /// Seals `plaintext` into its stored envelope, encrypting under a fresh random nonce where a
    /// key is configured. What was sealed opens again to the same text.
    pub fn seal(&self, plaintext: &str) -> (r: Result<String, CryptoError>)
        ensures
            if self.can_seal(plaintext@) {
                r is Ok && self.seals(r->Ok_0@, plaintext@)
            } else {
                r == Err::<String, CryptoError>(CryptoError::EncryptionFailed)
            },
    {
        let nonce = random_nonce_bytes();
        self.seal_with_nonce(&nonce, plaintext)
    }

    /// Opens a stored envelope. Only the two shapes that [`SecretCipher::seal`] produces are
    /// accepted.
    pub fn open(&self, stored: &str) -> (r: Result<String, CryptoError>)
        ensures
            match self.opened(stored@) {
                Ok(plaintext) => r is Ok && r->Ok_0@ == plaintext,
                Err(e) => r == Err::<String, CryptoError>(e),
            },
    {
        if let Some(encoded) = text::strip_prefix(stored, PLAINTEXT_PREFIX) {
            let bytes = match hex_decode(encoded) {
                Some(bytes) => bytes,
                None => return Err(CryptoError::MalformedCiphertext),
            };
            return Self::recover(bytes);
        }
        if let Some(body) = text::strip_prefix(stored, SEALED_PREFIX) {
            let (nonce_hex, ciphertext_hex) = match text::split_once(body, '.') {
                Some(halves) => halves,
                None => return Err(CryptoError::MalformedCiphertext),
            };
            let nonce_bytes = match hex_decode(nonce_hex) {
                Some(bytes) => bytes,
                None => return Err(CryptoError::MalformedCiphertext),
            };
            if nonce_bytes.len() != NONCE_LEN {
                return Err(CryptoError::MalformedCiphertext);
            }
            let ciphertext = match hex_decode(ciphertext_hex) {
                Some(bytes) => bytes,
                None => return Err(CryptoError::MalformedCiphertext),
            };
            let key = match self {
                SecretCipher::Plaintext => return Err(CryptoError::DecryptionFailed),
                SecretCipher::Sealed(key) => key,
            };
            let mut nonce = [0u8; 24];
            for i in 0..NONCE_LEN
                invariant
                    nonce_bytes@.len() == NONCE_LEN,
                    nonce@.len() == NONCE_LEN,
                    forall|j: int| 0 <= j < i ==> nonce@[j] == nonce_bytes@[j],
            {
                nonce[i] = nonce_bytes[i];
            }
            assert(nonce@ =~= nonce_bytes@);
            if ciphertext.len() as u64 > KEYSTREAM_LEN + TAG_LEN {
                return Err(CryptoError::DecryptionFailed);
            }
            return match aead_decrypt(key, &nonce, ciphertext.as_slice()) {
                Some(bytes) => Self::recover(bytes),
                None => Err(CryptoError::DecryptionFailed),
            };
        }
        Err(CryptoError::MalformedCiphertext)
    }

    /// Recovered bytes as text.
    fn recover(bytes: Vec<u8>) -> (r: Result<String, CryptoError>)
        ensures
            match recovered_text(bytes@) {
                Ok(plaintext) => r is Ok && r->Ok_0@ == plaintext,
                Err(e) => r == Err::<String, CryptoError>(e),
            },
    {
        match text::string_from_utf8(bytes) {
            Some(s) => Ok(s),
            None => Err(CryptoError::MalformedCiphertext),
        }
    }
}

/// The bytes of a text are recovered as that text.
proof fn lemma_recovered_text(plaintext: Seq<char>)
    ensures
        recovered_text(encode_utf8(plaintext)) == Ok::<Seq<char>, CryptoError>(plaintext),
{
    encode_utf8_valid_utf8(plaintext);
    encode_utf8_decode_utf8(plaintext);
}

/// An unencrypted envelope opens to its text, whatever cipher opens it.
pub proof fn law_plaintext_round_trip(cipher: SecretCipher, plaintext: Seq<char>)
    ensures
        cipher.opened(plaintext_envelope(plaintext)) == Ok::<Seq<char>, CryptoError>(plaintext),
{
    let stored = plaintext_envelope(plaintext);
    law_hex_round_trip(encode_utf8(plaintext));
    lemma_recovered_text(plaintext);
    assert(stored.take(PLAINTEXT_PREFIX@.len() as int) =~= PLAINTEXT_PREFIX@);
    assert(stored.skip(PLAINTEXT_PREFIX@.len() as int) =~= hex_text(encode_utf8(plaintext)));
}

/// An encrypted envelope opens to its text under its own key, where the cipher itself gives back
/// what it encrypted.
proof fn lemma_sealed_round_trip(cipher: SecretCipher, nonce: Seq<u8>, plaintext: Seq<char>)
    requires
        cipher.key() is Some,
        nonce.len() == NONCE_LEN,
        ciphertext_fits(
            xchacha20poly1305_sealed(cipher.key()->0, nonce, encode_utf8(plaintext)).len(),
        ),
        xchacha20poly1305_opened(
            cipher.key()->0,
            nonce,
            xchacha20poly1305_sealed(cipher.key()->0, nonce, encode_utf8(plaintext)),
        ) == Some(encode_utf8(plaintext)),
    ensures
        cipher.opened(sealed_envelope(cipher.key()->0, nonce, plaintext)) == Ok::<
            Seq<char>,
            CryptoError,
        >(plaintext),
{
    let key = cipher.key()->0;
    let ciphertext = xchacha20poly1305_sealed(key, nonce, encode_utf8(plaintext));
    let stored = sealed_envelope(key, nonce, plaintext);
    lemma_sealed_parts(nonce, ciphertext, stored);
    lemma_sealed_is_not_plaintext(stored);
    law_hex_round_trip(nonce);
    law_hex_round_trip(ciphertext);
    lemma_recovered_text(plaintext);
}

/// No encrypted envelope starts like an unencrypted one.
proof fn lemma_sealed_is_not_plaintext(stored: Seq<char>)
    requires
        text::has_prefix(stored, SEALED_PREFIX@),
    ensures
        !text::has_prefix(stored, PLAINTEXT_PREFIX@),
{
    reveal_strlit("v1.plain.");
    reveal_strlit("v1.xchacha20poly1305.");
    if text::has_prefix(stored, PLAINTEXT_PREFIX@) {
        assert(stored.take(PLAINTEXT_PREFIX@.len() as int)[3] == 'p');
        assert(stored.take(SEALED_PREFIX@.len() as int)[3] == 'x');
    }
}

/// The nonce and the ciphertext of an encrypted envelope are found again.
proof fn lemma_sealed_parts(nonce: Seq<u8>, ciphertext: Seq<u8>, stored: Seq<char>)
    requires
        stored == SEALED_PREFIX@ + hex_text(nonce) + seq!['.'] + hex_text(ciphertext),
    ensures
        text::has_prefix(stored, SEALED_PREFIX@),
        text::cut_at(stored.skip(SEALED_PREFIX@.len() as int), '.') == Some(
            (hex_text(nonce), hex_text(ciphertext)),
        ),
{
    let body = stored.skip(SEALED_PREFIX@.len() as int);
    let dot = hex_text(nonce).len() as int;
    assert(stored.take(SEALED_PREFIX@.len() as int) =~= SEALED_PREFIX@);
    lemma_hex_text_chars(nonce);
    assert(body.take(dot) =~= hex_text(nonce));
    assert(body[dot] == '.');
    text::lemma_index_of_char_is(body, '.', dot);
    assert(body.skip(dot + 1) =~= hex_text(ciphertext));
}

/// Opening fails closed: a stored value with neither prefix is malformed under every cipher.
pub proof fn law_open_fails_closed(cipher: SecretCipher, stored: Seq<char>)
    requires
        !text::has_prefix(stored, PLAINTEXT_PREFIX@),
        !text::has_prefix(stored, SEALED_PREFIX@),
    ensures
        cipher.opened(stored) == Err::<Seq<char>, CryptoError>(CryptoError::MalformedCiphertext),
{
}

/// Where a key is configured, what is stored is encrypted, and nobody without a key opens it.
pub proof fn law_secrets_are_encrypted_at_rest(
    cipher: SecretCipher,
    stored: Seq<char>,
    plaintext: Seq<char>,
)
    requires
        cipher.key() is Some,
        cipher.seals(stored, plaintext),
    ensures
        text::has_prefix(stored, SEALED_PREFIX@),
        !text::has_prefix(stored, PLAINTEXT_PREFIX@),
        SecretCipher::Plaintext.opened(stored) is Err,
{
    let key = cipher.key()->0;
    let nonce = choose|nonce: Seq<u8>|
        nonce.len() == NONCE_LEN && stored == #[trigger] sealed_envelope(key, nonce, plaintext);
    let ciphertext = xchacha20poly1305_sealed(key, nonce, encode_utf8(plaintext));
    lemma_sealed_parts(nonce, ciphertext, stored);
    lemma_sealed_is_not_plaintext(stored);
}

/// Without a key, no encrypted value is ever opened.
pub proof fn law_no_key_opens_nothing_sealed(stored: Seq<char>)
    requires
        text::has_prefix(stored, SEALED_PREFIX@),
    ensures
        SecretCipher::Plaintext.opened(stored) is Err,
{
    lemma_sealed_is_not_plaintext(stored);
}

/// Result of the boot-time encryption-key canary.
#[derive(Clone, Copy, Debug, PartialEq, Eq, Structural)]
pub enum KeyCanary {
    /// Nothing sealed exists yet: there is nothing to check the key against.
    NoSealedSecrets,
    /// A stored secret was opened: the configured key matches the data at rest.
    Verified,
}

/// Boot-time canary: checks that the configured key opens a secret that is already stored, so that
/// a well-formed but wrong key is refused at start rather than at the first signed call.
pub fn check_key_canary(cipher: &SecretCipher, sample: Option<&str>) -> (r: Result<
    KeyCanary,
    CryptoError,
>)
    ensures
        match sample {
            None => r == Ok::<KeyCanary, CryptoError>(KeyCanary::NoSealedSecrets),
            Some(stored) => match cipher.opened(stored@) {
                Ok(_) => r == Ok::<KeyCanary, CryptoError>(KeyCanary::Verified),
                Err(e) => r == Err::<KeyCanary, CryptoError>(e),
            },
        },
{
    match sample {
        None => Ok(KeyCanary::NoSealedSecrets),
        Some(stored) => match cipher.open(stored) {
            Ok(_) => Ok(KeyCanary::Verified),
            Err(e) => Err(e),
        },
    }
}

/// A byte is written as two digits, the high half first, and what follows it comes behind.
pub proof fn law_bytes_are_written_in_order(bytes: Seq<u8>, byte: u8, more: Seq<u8>)
    ensures
        hex_text(bytes + more) == hex_text(bytes) + hex_text(more),
        hex_text(seq![byte]).len() == 2,
        hex_value(hex_text(seq![byte])[0]) == Some(byte as int / 16),
        hex_value(hex_text(seq![byte])[1]) == Some(byte as int % 16),
        forall|i: int|
            0 <= i < hex_text(bytes).len() ==> '0' <= #[trigger] hex_text(bytes)[i] <= '9' || 'a'
                <= hex_text(bytes)[i] <= 'f',
{
    let n = 2 * bytes.len() as int;
    let whole = hex_text(bytes + more);
    let parts = hex_text(bytes) + hex_text(more);
    assert forall|i: int| 0 <= i < whole.len() implies whole[i] == parts[i] by {
        if i >= n {
            assert(i / 2 - bytes.len() == (i - n) / 2);
            assert(i % 2 == (i - n) % 2);
        }
    }
    assert(whole =~= parts);
}

/// Digits of either case stand for the same value, and nothing but the digits has one.
pub proof fn law_digits_have_their_value(v: int, c: char)
    requires
        0 <= v < 16,
    ensures
        hex_value(hex_digit(v)) == Some(v),
        '0' <= hex_digit(v) <= '9' || 'a' <= hex_digit(v) <= 'f',
        hex_value(c) is Some <==> '0' <= c <= '9' || 'a' <= c <= 'f' || 'A' <= c <= 'F',
        'A' <= c <= 'F' ==> hex_value(c) == hex_value((c as u32 + 32) as char),
{
}

/// A tag is read from a header exactly where, without the white space around it, that starts with
/// `sha256=` and goes on in hexadecimal digits, two for each byte.
pub proof fn law_which_headers_carry_a_tag(header: Seq<char>)
    ensures
        ({
            let value = text::trimmed(header);
            let digits = text::trimmed(value.skip(7));
            &&& SIGNATURE_PREFIX@ == "sha256="@
            &&& presented_tag(header) is Some <==> text::has_prefix(value, "sha256="@)
                && digits.len() % 2 == 0 && (forall|i: int|
                0 <= i < digits.len() ==> '0' <= #[trigger] digits[i] <= '9' || 'a' <= digits[i]
                    <= 'f' || 'A' <= digits[i] <= 'F')
            &&& presented_tag(header) matches Some(tag) ==> 2 * tag.len() == digits.len()
        }),
{
    reveal_strlit("sha256=");
    let digits = text::trimmed(text::trimmed(header).skip(7));
    if is_hex_text(digits) {
        assert forall|i: int| 0 <= i < digits.len() implies '0' <= #[trigger] digits[i] <= '9'
            || 'a' <= digits[i] <= 'f' || 'A' <= digits[i] <= 'F' by {
            assert(hex_value(digits[i]) is Some);
        }
    }
}

/// What is signed is the method, the target, the time and the body as they are sent, each on a line of
/// its own, and it is authenticated under the secret.
pub proof fn law_what_is_signed(
    secret: Seq<char>,
    method: Seq<char>,
    target: Seq<char>,
    timestamp: Seq<char>,
    body: Seq<u8>,
)
    ensures
        request_tag(secret, method, target, timestamp, body) == hmac_sha256(
            encode_utf8(secret),
            encode_utf8(method).push(10) + (encode_utf8(target).push(10) + (encode_utf8(
                timestamp,
            ).push(10) + body)),
        ),
        signature_header(request_tag(secret, method, target, timestamp, body)) == "sha256="@
            + hex_text(request_tag(secret, method, target, timestamp, body)),
{
    assert(canonical_v1(method, target, timestamp, body) =~= encode_utf8(method).push(10) + (
    encode_utf8(target).push(10) + (encode_utf8(timestamp).push(10) + body)));
}

/// A key is configured by 64 hexadecimal digits, and none by nothing or white space; everything else
/// is refused.
pub proof fn law_how_a_key_is_configured(value: Option<Seq<char>>, key: Seq<u8>)
    ensures
        value is None ==> SecretCipher::configured(value) == Ok::<Option<Seq<u8>>, CryptoError>(
            None,
        ),
        value matches Some(raw) ==> text::trimmed(raw).len() == 0 ==> SecretCipher::configured(value)
            == Ok::<Option<Seq<u8>>, CryptoError>(None),
        value matches Some(raw) ==> key.len() == 32 && text::trimmed(raw) == hex_text(key)
            ==> SecretCipher::configured(value) == Ok::<Option<Seq<u8>>, CryptoError>(Some(key)),
        value matches Some(raw) ==> text::trimmed(raw).len() > 0 && text::trimmed(raw).len() != 64
            ==> SecretCipher::configured(value) == Err::<Option<Seq<u8>>, CryptoError>(
            CryptoError::InvalidKey,
        ),
        value matches Some(raw) ==> text::trimmed(raw).len() > 0 && !is_hex_text(text::trimmed(raw))
            ==> SecretCipher::configured(value) == Err::<Option<Seq<u8>>, CryptoError>(
            CryptoError::InvalidKey,
        ),
{
    law_hex_round_trip(key);
}

/// An unencrypted envelope whose contents are not hexadecimal, or are no text, is malformed; an
/// encrypted one that does not authenticate is not opened.
pub proof fn law_corrupt_secrets_are_not_opened(
    cipher: SecretCipher,
    digits: Seq<char>,
    nonce: Seq<u8>,
    ciphertext: Seq<u8>,
)
    ensures
        !is_hex_text(digits) || !valid_utf8(hex_bytes(digits)) ==> cipher.opened(
            "v1.plain."@ + digits,
        ) == Err::<Seq<char>, CryptoError>(CryptoError::MalformedCiphertext),
        nonce.len() != 24 ==> cipher.opened(
            "v1.xchacha20poly1305."@ + hex_text(nonce) + seq!['.'] + hex_text(ciphertext),
        ) == Err::<Seq<char>, CryptoError>(CryptoError::MalformedCiphertext),
        nonce.len() == 24 && cipher.key() is Some && ciphertext_fits(ciphertext.len())
            && xchacha20poly1305_opened(cipher.key()->0, nonce, ciphertext) is None ==> cipher.opened(
            "v1.xchacha20poly1305."@ + hex_text(nonce) + seq!['.'] + hex_text(ciphertext),
        ) == Err::<Seq<char>, CryptoError>(CryptoError::DecryptionFailed),
{
    text::law_prefixes_are_seen(PLAINTEXT_PREFIX@, digits);
    let stored = "v1.xchacha20poly1305."@ + hex_text(nonce) + seq!['.'] + hex_text(ciphertext);
    lemma_sealed_parts(nonce, ciphertext, stored);
    lemma_sealed_is_not_plaintext(stored);
    law_hex_round_trip(nonce);
    law_hex_round_trip(ciphertext);
}

/// An envelope says how it is sealed, and with a key it holds the nonce and the encrypted secret.
pub proof fn law_how_secrets_are_stored(key: Seq<u8>, nonce: Seq<u8>, plaintext: Seq<char>)
    ensures
        plaintext_envelope(plaintext) == "v1.plain."@ + hex_text(encode_utf8(plaintext)),
        sealed_envelope(key, nonce, plaintext) == "v1.xchacha20poly1305."@ + hex_text(nonce)
            + seq!['.'] + hex_text(xchacha20poly1305_sealed(key, nonce, encode_utf8(plaintext))),
        SecretCipher::Plaintext.key() is None,
        SecretCipher::Plaintext.can_seal(plaintext),
        MAX_TIMESTAMP_SKEW_SECS == 300,
        KEY_LEN == 32,
        NONCE_LEN == 24,
{
}

/// What an operator reads of a failure with a secret.
pub proof fn law_crypto_errors_say_what_went_wrong()
    ensures
        CryptoError::InvalidKey.text() == "invalid encryption key"@,
        CryptoError::MalformedCiphertext.text() == "malformed ciphertext"@,
        CryptoError::DecryptionFailed.text() == "decryption failed"@,
        CryptoError::EncryptionFailed.text() == "encryption failed"@,
{
}

/// Without a key a secret is stored as its unencrypted envelope and nothing else; with one it is never
/// stored so.
pub proof fn law_what_seals_a_secret(cipher: SecretCipher, stored: Seq<char>, plaintext: Seq<char>)
    ensures
        SecretCipher::Plaintext.seals(stored, plaintext) <==> stored == "v1.plain."@ + hex_text(
            encode_utf8(plaintext),
        ),
        cipher.seals(stored, plaintext) ==> cipher.opened(stored) == Ok::<Seq<char>, CryptoError>(
            plaintext,
        ),
        cipher.key() is Some ==> !cipher.seals(plaintext_envelope(plaintext), plaintext),
{
    law_plaintext_round_trip(SecretCipher::Plaintext, plaintext);
    if cipher.key() is Some && cipher.seals(plaintext_envelope(plaintext), plaintext) {
        law_secrets_are_encrypted_at_rest(cipher, plaintext_envelope(plaintext), plaintext);
        text::law_prefixes_are_seen(PLAINTEXT_PREFIX@, hex_text(encode_utf8(plaintext)));
    }
}

/// A secret of up to 2^32 - 2 blocks of 64 bytes fits, and its encrypted form is sixteen bytes longer.
pub proof fn law_how_long_a_secret_may_be(len: nat)
    ensures
        fits_one_keystream(len) <==> len <= 64 * 0xffff_fffe,
        ciphertext_fits(len) <==> len <= 64 * 0xffff_fffe + 16,
        SecretCipher::Plaintext.can_seal(Seq::empty()),
{
}

} // verus!

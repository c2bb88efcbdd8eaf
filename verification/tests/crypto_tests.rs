//! Signatures and secrets at rest.

use simply_ip_sync::crypto::{
    canonical_v1_payload, check_key_canary, compute_signature, generate_signing_secret,
    verify_signature, CryptoError, KeyCanary, SecretCipher, PLAINTEXT_PREFIX, SEALED_PREFIX,
    SIGNATURE_PREFIX,
};

#[test]
fn seal_open_round_trip_plaintext() {
    let cipher = SecretCipher::Plaintext;
    let sealed = cipher.seal("hello-secret").expect("seal");
    assert!(sealed.starts_with(PLAINTEXT_PREFIX));
    assert_eq!(cipher.open(&sealed).expect("open"), "hello-secret");
}

#[test]
fn seal_open_round_trip_encrypted() {
    let key = generate_signing_secret();
    let cipher = SecretCipher::from_hex_key(&key).expect("valid key");
    assert!(cipher.is_encrypting());
    let sealed = cipher.seal("hello-secret").expect("seal");
    assert!(sealed.starts_with(SEALED_PREFIX));
    assert_eq!(cipher.open(&sealed).expect("open"), "hello-secret");
}

#[test]
fn open_rejects_unrecognised_prefix() {
    let cipher = SecretCipher::Plaintext;
    assert!(matches!(
        cipher.open("legacy-unprefixed-value"),
        Err(CryptoError::MalformedCiphertext)
    ));
}

#[test]
fn open_rejects_sealed_value_without_key() {
    let key = generate_signing_secret();
    let sealing_cipher = SecretCipher::from_hex_key(&key).expect("valid key");
    let sealed = sealing_cipher.seal("hello").expect("seal");
    let plaintext_cipher = SecretCipher::Plaintext;
    assert!(matches!(
        plaintext_cipher.open(&sealed),
        Err(CryptoError::DecryptionFailed)
    ));
}

#[test]
fn from_hex_key_rejects_wrong_length() {
    assert!(matches!(
        SecretCipher::from_hex_key("abcd"),
        Err(CryptoError::InvalidKey)
    ));
}

#[test]
fn compute_and_verify_signature_round_trip() {
    let secret = "test-secret";
    let sig = compute_signature(secret, "POST", "/api/records/batch", "1700000000", b"{}")
        .expect("compute");
    assert!(sig.starts_with(SIGNATURE_PREFIX));
    let digest = verify_signature(secret, "POST", "/api/records/batch", "1700000000", b"{}", &sig);
    assert!(digest.is_some());
}

#[test]
fn verify_signature_rejects_tampered_body() {
    let secret = "test-secret";
    let sig = compute_signature(secret, "POST", "/api/records/batch", "1700000000", b"{}")
        .expect("compute");
    let digest = verify_signature(
        secret,
        "POST",
        "/api/records/batch",
        "1700000000",
        b"{\"tampered\":true}",
        &sig,
    );
    assert!(digest.is_none());
}

#[test]
fn verify_signature_rejects_missing_prefix() {
    let secret = "test-secret";
    let digest = verify_signature(secret, "POST", "/x", "1", b"{}", "deadbeef");
    assert!(digest.is_none());
}

#[test]
fn every_single_bit_flip_of_a_valid_tag_fails_verification() {
    let secret = "test-secret";
    let method = "POST";
    let target = "/api/records/batch";
    let timestamp = "1700000000";
    let body = b"{\"records\":[]}";

    let valid_sig = compute_signature(secret, method, target, timestamp, body).expect("compute");
    let valid_hex = valid_sig.strip_prefix(SIGNATURE_PREFIX).expect("has prefix");
    let valid_bytes = hex::decode(valid_hex).expect("valid hex");
    assert_eq!(valid_bytes.len(), 32, "HMAC-SHA256 tag must be exactly 32 bytes");

    for byte_index in 0..valid_bytes.len() {
        for bit in 0..8u8 {
            let mut mutated = valid_bytes.clone();
            mutated[byte_index] ^= 1 << bit;
            let mutated_sig = format!("{SIGNATURE_PREFIX}{}", hex::encode(&mutated));
            let digest = verify_signature(secret, method, target, timestamp, body, &mutated_sig);
            assert!(
                digest.is_none(),
                "flipping bit {bit} of byte {byte_index} produced a tag that still verified — constant-time comparison bug?"
            );
        }
    }
}

#[test]
fn every_wrong_tag_length_fails_verification() {
    let secret = "test-secret";
    let method = "GET";
    let target = "/api/auth/me";
    let timestamp = "1700000000";
    let body = b"";

    for len in 0..64usize {
        if len == 32 {
            continue;
        }
        let wrong_length_bytes = vec![0xABu8; len];
        let wrong_length_sig = format!("{SIGNATURE_PREFIX}{}", hex::encode(&wrong_length_bytes));
        let digest = verify_signature(secret, method, target, timestamp, body, &wrong_length_sig);
        assert!(digest.is_none(), "a {len}-byte tag must never verify (only 32 bytes is a valid HMAC-SHA256 length)");
    }
}

#[test]
fn canary_reports_no_sealed_secrets_on_an_empty_database() {
    let cipher = SecretCipher::from_hex_key(&generate_signing_secret()).expect("valid key");
    let result = check_key_canary(&cipher, None).expect("infallible on the empty-database branch");
    assert!(matches!(result, KeyCanary::NoSealedSecrets));
}

#[test]
fn canary_verifies_a_secret_sealed_under_the_same_key() {
    let key = generate_signing_secret();
    let cipher = SecretCipher::from_hex_key(&key).expect("valid key");
    let sealed = cipher.seal("vault-signing-secret").expect("seal");

    let result = check_key_canary(&cipher, Some(&sealed)).expect("the same key must open its own ciphertext");
    assert!(matches!(result, KeyCanary::Verified));
}

#[test]
fn canary_fails_closed_when_the_configured_key_does_not_match_the_sealed_secret() {
    let original_cipher = SecretCipher::from_hex_key(&generate_signing_secret()).expect("valid key");
    let sealed = original_cipher.seal("vault-signing-secret").expect("seal");

    let wrong_cipher = SecretCipher::from_hex_key(&generate_signing_secret()).expect("valid key");
    let result = check_key_canary(&wrong_cipher, Some(&sealed));
    assert!(result.is_err(), "a wrong-but-well-formed key must fail the canary, not silently pass");
}

#[test]
fn canary_passes_trivially_in_plaintext_mode() {
    let cipher = SecretCipher::Plaintext;
    let sealed = cipher.seal("vault-signing-secret").expect("seal");
    let result = check_key_canary(&cipher, Some(&sealed)).expect("plaintext mode has no key to mismatch");
    assert!(matches!(result, KeyCanary::Verified));
}

#[test]
fn the_canonical_string_is_four_lines() {
    assert_eq!(canonical_v1_payload("GET", "/a?b=c", "17", b"raw"), b"GET\n/a?b=c\n17\nraw".to_vec());
}

#[test]
fn the_signature_is_the_hmac_of_the_canonical_string() {
    let sig = compute_signature("key", "A", "B", "C", b"D").expect("compute");
    assert_eq!(sig, "sha256=7c19b184cd583dac7453f89e8b7d1e20ca0ed62b67f84a590cd8bfa30bf52bd9");
    for other in [
        compute_signature("kez", "A", "B", "C", b"D"),
        compute_signature("key", "a", "B", "C", b"D"),
        compute_signature("key", "A", "b", "C", b"D"),
        compute_signature("key", "A", "B", "c", b"D"),
        compute_signature("key", "A", "B", "C", b"d"),
    ] {
        assert_ne!(sig, other.expect("compute"));
    }
}

#[test]
fn the_plaintext_envelope_is_hexadecimal() {
    assert_eq!(SecretCipher::Plaintext.seal("Az").expect("seal"), "v1.plain.417a");
    assert_eq!(SecretCipher::Plaintext.open("v1.plain.417A").expect("open"), "Az");
    assert!(matches!(SecretCipher::Plaintext.open("v1.plain.4"), Err(CryptoError::MalformedCiphertext)));
    assert!(matches!(SecretCipher::Plaintext.open("v1.plain.ff"), Err(CryptoError::MalformedCiphertext)));
}

#[test]
fn two_seals_of_one_secret_differ() {
    let cipher = SecretCipher::from_hex_key(&"0f".repeat(32)).expect("valid key");
    let a = cipher.seal("same").expect("seal");
    let b = cipher.seal("same").expect("seal");
    assert_ne!(a, b);
    assert_eq!(cipher.open(&a).expect("open"), cipher.open(&b).expect("open"));
}

#[test]
fn a_tampered_ciphertext_does_not_open() {
    let cipher = SecretCipher::from_hex_key(&"0f".repeat(32)).expect("valid key");
    let mut sealed = cipher.seal("secret").expect("seal");
    let last = sealed.pop().expect("not empty");
    sealed.push(if last == '0' { '1' } else { '0' });
    assert!(matches!(cipher.open(&sealed), Err(CryptoError::DecryptionFailed)));
}

#[test]
fn the_cipher_follows_its_environment_value() {
    assert!(!SecretCipher::from_env(None).expect("unset").is_encrypting());
    assert!(!SecretCipher::from_env(Some("   ")).expect("blank").is_encrypting());
    assert!(SecretCipher::from_env(Some(&format!(" {} ", "a".repeat(64)))).expect("a key").is_encrypting());
    assert!(matches!(SecretCipher::from_env(Some("short")), Err(CryptoError::InvalidKey)));
}

#[test]
fn generated_secrets_are_64_hex_characters_and_differ() {
    let a = generate_signing_secret();
    let b = generate_signing_secret();
    assert_eq!(a.len(), 64);
    assert!(a.chars().all(|c| c.is_ascii_hexdigit()));
    assert_ne!(a, b);
}

#[test]
fn crypto_errors_say_what_failed() {
    assert_eq!(CryptoError::InvalidKey.message(), "invalid encryption key");
    assert_eq!(CryptoError::MalformedCiphertext.message(), "malformed ciphertext");
    assert_eq!(CryptoError::DecryptionFailed.message(), "decryption failed");
    assert_eq!(CryptoError::EncryptionFailed.message(), "encryption failed");
}

#[test]
fn a_configured_key_encrypts_what_is_stored() {
    let cipher = SecretCipher::from_hex_key(&"ab".repeat(32)).unwrap();
    let stored = cipher.seal("top secret").unwrap();
    assert!(stored.starts_with("v1.xchacha20poly1305."));
    assert!(!stored.contains(&hex::encode("top secret")));
    assert_eq!(cipher.open(&stored).unwrap(), "top secret");
    assert!(SecretCipher::Plaintext.open(&stored).is_err());
}

#[test]
fn moving_text_between_the_parts_changes_the_canonical_bytes() {
    let payload = canonical_v1_payload("GET", "/a", "170", b"0");
    assert_ne!(payload, canonical_v1_payload("GET", "/a1", "70", b"0"));
    assert_ne!(payload, canonical_v1_payload("GET/", "a", "170", b"0"));
    assert_ne!(payload, canonical_v1_payload("GET", "/a", "1700", b""));
    assert_ne!(payload, canonical_v1_payload("GET", "/a", "170", b"\n0"));
}

#[test]
fn a_ciphertext_is_as_long_as_the_text_and_its_tag() {
    let cipher = SecretCipher::from_hex_key(&"cd".repeat(32)).expect("valid key");
    let stored = cipher.seal_with_nonce(&[7; 24], "hello").expect("seal");
    let digits = stored.rsplit('.').next().expect("ciphertext");
    assert_eq!(digits.len(), 2 * (5 + 16));
    assert_eq!(cipher.open(&stored).expect("open"), "hello");
}

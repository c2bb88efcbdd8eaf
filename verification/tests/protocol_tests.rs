//! Outbound calls, inbound authentication, replay protection, the Master pin and retries.

use simply_ip_sync::api::support::hash_key;
use simply_ip_sync::client::{
    batch_target, delta_target, page_step, remote_error, signed_headers, BatchMode, BatchPush,
    BatchRecordsResponse, ClientError, DeltaFetch, IpRecordResponse, PageStep, PushReply, PushStep,
    DELTA_PAGE_SIZE,
};
use simply_ip_sync::crypto::{compute_signature, verify_signature, SecretCipher};
use simply_ip_sync::entities::{api_key, vault_endpoint};
use simply_ip_sync::error::AppError;
use simply_ip_sync::master::{sole_master, MasterPin, MasterPinError};
use simply_ip_sync::middleware::{
    authenticate_request, check_bound_ips, read_credentials, signed_target, signing_secret,
    validate_timestamp, SignedRequest,
};
use simply_ip_sync::net::{parse_address, IpAddress};
use simply_ip_sync::replay::ReplayGuard;
use simply_ip_sync::retry::{backoff_with_jitter, capped_backoff, is_transient_status};
use simply_ip_sync::time::Timestamp;

const NOW: Timestamp = Timestamp { secs: 1_700_000_000, nanos: 0 };

fn ip(s: &str) -> IpAddress {
    parse_address(s).expect("an address")
}

fn key(id: u128, is_master: bool, bound_ips: Option<&str>) -> api_key::Model {
    api_key::Model {
        id,
        name: "key".to_owned(),
        key_hash: hash_key("plain"),
        signing_secret: Some(SecretCipher::Plaintext.seal("secret").expect("seal")),
        prefix: "plain".to_owned(),
        is_master,
        can_manage_keys: false,
        can_manage_sources: false,
        can_manage_vaults: false,
        parent_key_id: None,
        bound_ips: bound_ips.map(|s| s.to_owned()),
        created_at: NOW,
        updated_at: NOW,
    }
}

/// What the caller is told.
fn told(e: AppError) -> String {
    e.into_response().1.get("error").and_then(|m| m.as_str()).expect("a message").to_owned()
}

// Retries

#[test]
fn transient_statuses_are_exactly_the_documented_set() {
    for status in [429, 502, 503, 504] {
        assert!(is_transient_status(status), "{status} must be treated as transient");
    }
    for status in [400, 401, 403, 404, 409, 413, 500, 501] {
        assert!(!is_transient_status(status), "{status} must NOT be treated as transient");
    }
}

#[test]
fn backoff_grows_with_attempt_number_and_stays_capped() {
    let first = backoff_with_jitter(100, 1);
    let second = backoff_with_jitter(100, 2);
    let far_future = backoff_with_jitter(100, 50);

    assert!(first >= 100, "attempt 1 must be at least the base backoff");
    assert!(first < 200, "attempt 1 must not already include a doubling");
    assert!(second >= 200, "attempt 2 must have backed off further than attempt 1's minimum");
    assert!(far_future <= 30_000 + 15_000, "backoff must stay bounded even for a very high attempt count");
}

#[test]
fn the_backoff_doubles_up_to_half_a_minute() {
    let delays: Vec<u64> = (1..=8).map(|attempt| capped_backoff(500, attempt)).collect();
    assert_eq!(delays, vec![500, 1_000, 2_000, 4_000, 8_000, 16_000, 30_000, 30_000]);
    assert_eq!(capped_backoff(u64::MAX, 4_000_000_000), 30_000);
}

#[test]
fn jitter_adds_at_most_half() {
    for _ in 0..50 {
        assert_eq!(backoff_with_jitter(1, 1), 1, "half a millisecond is none");
        assert!((2..=3).contains(&backoff_with_jitter(1, 2)));
        assert!((100..=150).contains(&backoff_with_jitter(100, 1)));
    }
}

// Replay protection

#[test]
fn first_use_accepted_second_use_rejected() {
    let mut guard = ReplayGuard::new(300, 0);
    let digest = vec![1, 2, 3];
    assert!(guard.check_and_record(1, &digest, 0));
    assert!(!guard.check_and_record(1, &digest, 0));
}

#[test]
fn different_keys_do_not_collide() {
    let mut guard = ReplayGuard::new(300, 0);
    let digest = vec![1, 2, 3];
    assert!(guard.check_and_record(1, &digest, 0));
    assert!(guard.check_and_record(2, &digest, 0));
}

#[test]
fn entry_expires_after_window() {
    let mut guard = ReplayGuard::new(1, 0);
    let digest = vec![9, 9, 9];
    assert!(guard.check_and_record(1, &digest, 0));
    assert!(guard.check_and_record(1, &digest, 2_000));
}

#[test]
fn the_default_window_is_the_permitted_skew() {
    let mut guard = ReplayGuard::with_default_window(0);
    assert!(guard.check_and_record(1, &[7], 0));
    assert!(!guard.check_and_record(1, &[7], 299_999));
    assert!(guard.check_and_record(1, &[7], 300_000));
}

#[test]
fn a_sweep_forgets_only_what_has_expired() {
    let mut guard = ReplayGuard::new(300, 0);
    for i in 0..100u8 {
        assert!(guard.check_and_record(1, &[i], u64::from(i) * 5_000));
    }
    // At half a million milliseconds everything before 200,000 has expired.
    assert!(guard.check_and_record(1, &[0], 500_000));
    assert!(!guard.check_and_record(1, &[99], 500_000));
    assert!(!guard.check_and_record(1, &[50], 500_000));
}

// The Master pin

#[test]
fn exactly_one_master_can_be_pinned() {
    assert_eq!(sole_master(&vec![4]).expect("one"), 4);
    assert!(matches!(sole_master(&vec![]), Err(MasterPinError::NoMaster)));
    match sole_master(&vec![1, 2]) {
        Err(e) => assert_eq!(
            e.message(),
            "multiple Master keys exist: [00000000-0000-0000-0000-000000000001, 00000000-0000-0000-0000-000000000002]"
        ),
        Ok(id) => panic!("{id}"),
    }
}

#[test]
fn the_pin_is_written_once_and_needs_its_index() {
    let mut pin = MasterPin::new();
    assert_eq!(pin.get(), None);
    assert!(matches!(pin.pin_at_boot(&vec![4], false), Err(MasterPinError::MissingUniquenessIndex)));
    assert_eq!(pin.pin_at_boot(&vec![4], true).expect("pinned"), 4);
    assert_eq!(pin.pin_at_boot(&vec![5], true).expect("still pinned"), 4);
    assert_eq!(MasterPinError::NoMaster.message(), "no Master key exists");
    assert_eq!(MasterPinError::Db("gone".to_owned()).message(), "gone");
}

#[test]
fn a_forged_master_mark_is_dropped() {
    let pin = MasterPin::pinned_to(4);
    assert!(pin.authenticate(key(4, true, None)).is_master);
    assert!(!pin.authenticate(key(5, true, None)).is_master);
    assert!(!pin.authenticate(key(4, false, None)).is_master);
    assert!(!MasterPin::new().authenticate(key(4, true, None)).is_master);
}

// Inbound authentication

#[test]
fn the_signed_target_is_path_and_query() {
    assert_eq!(signed_target(Some("/a?b=c"), "/a"), "/a?b=c");
    assert_eq!(signed_target(None, "/a"), "/a");
}

#[test]
fn timestamps_are_fresh_within_300_seconds_either_way() {
    for offset in [-300i64, -1, 0, 1, 300] {
        let header = format!(" {} ", NOW.secs + offset);
        assert_eq!(validate_timestamp(Some(&header), NOW.secs).expect("fresh"), header.trim());
    }
    for offset in [-301i64, 301, 1_000_000] {
        let header = (NOW.secs + offset).to_string();
        let e = validate_timestamp(Some(&header), NOW.secs).expect_err("stale");
        assert_eq!(told(e), "Request timestamp outside the permitted 300s window");
    }
    assert_eq!(told(validate_timestamp(None, 0).expect_err("none")), "Missing X-Timestamp header");
    assert_eq!(told(validate_timestamp(Some("noon"), 0).expect_err("text")), "Malformed X-Timestamp header");
    assert!(validate_timestamp(Some("-9223372036854775808"), i64::MAX).is_err());
}

#[test]
fn credentials_are_read_in_order() {
    let now = NOW.secs.to_string();
    let read = read_credentials(Some(&now), Some("plain"), Some("sha256=ab"), NOW.secs).expect("complete");
    assert_eq!(read.key_hash, hash_key("plain"));
    assert_eq!(read.timestamp, now);
    assert_eq!(read.signature, "sha256=ab");
    let refused = |t: Option<&str>, k: Option<&str>, s: Option<&str>| {
        told(read_credentials(t, k, s, NOW.secs).expect_err("refused"))
    };
    assert_eq!(refused(None, None, None), "Missing X-Timestamp header");
    assert_eq!(refused(Some(&now), None, None), "Missing X-API-Key header");
    assert_eq!(refused(Some(&now), Some("k"), None), "Missing X-Signature-256 header");
    assert_eq!(refused(Some(&now), Some("k"), Some("ab")), "X-Signature-256 must be formatted as sha256=<hex>");
}

#[test]
fn the_stored_key_is_the_sha256_of_the_plaintext() {
    assert_eq!(hash_key("abc"), "ba7816bf8f01cfea414140de5dae2223b00361a396177a9cb410ff61f20015ad");
}

#[test]
fn the_signing_secret_is_opened_from_the_row() {
    assert_eq!(signing_secret(Some(&key(1, false, None)), &SecretCipher::Plaintext).expect("opens"), "secret");
    let unknown = signing_secret(None, &SecretCipher::Plaintext).expect_err("no key");
    assert_eq!(told(unknown), "Invalid API Key");
    let mut bare = key(1, false, None);
    bare.signing_secret = None;
    let none = signing_secret(Some(&bare), &SecretCipher::Plaintext).expect_err("no secret");
    assert_eq!(told(none), "This API key has no signing secret; rotate it to obtain one");
    bare.signing_secret = Some("garbage".to_owned());
    assert!(matches!(signing_secret(Some(&bare), &SecretCipher::Plaintext), Err(AppError::Internal)));
}

#[test]
fn bound_networks_admit_only_their_addresses() {
    assert!(check_bound_ips(None, ip("1.2.3.4")).is_ok());
    assert!(check_bound_ips(Some(" , "), ip("1.2.3.4")).is_ok());
    assert!(check_bound_ips(Some("10.0.0.0/8, ::1"), ip("10.9.9.9")).is_ok());
    assert!(check_bound_ips(Some("10.0.0.0/8, ::1"), ip("::1")).is_ok());
    let refused = check_bound_ips(Some("10.0.0.0/8"), ip("11.0.0.1")).expect_err("outside");
    assert_eq!(told(refused), "Client IP not allowed");
    assert!(matches!(check_bound_ips(Some("10.0.0.0/8,nonsense"), ip("10.0.0.1")), Err(AppError::Internal)));
}

#[test]
fn a_signed_request_is_authenticated_once() {
    let signature = compute_signature("secret", "GET", "/api/auth/me", "1700000000", b"").expect("sign");
    let request = SignedRequest {
        method: "GET",
        target: "/api/auth/me",
        timestamp: "1700000000",
        body: b"",
        signature: &signature,
    };
    let pin = MasterPin::pinned_to(1);
    let mut guard = ReplayGuard::new(600, 0);
    let accepted = authenticate_request(key(1, true, None), "secret", &request, ip("1.2.3.4"), &mut guard, &pin, 0)
        .expect("authenticated");
    assert!(accepted.is_master);
    let replayed = authenticate_request(key(1, true, None), "secret", &request, ip("1.2.3.4"), &mut guard, &pin, 1)
        .expect_err("a replay");
    assert_eq!(told(replayed), "This request signature has already been used; sign a fresh request");
}

#[test]
fn a_bad_signature_is_refused_before_the_address_is_looked_at() {
    let request = SignedRequest { method: "GET", target: "/", timestamp: "0", body: b"", signature: "sha256=00" };
    let pin = MasterPin::new();
    let mut guard = ReplayGuard::new(600, 0);
    for from in ["10.0.0.1", "8.8.8.8"] {
        let refused =
            authenticate_request(key(1, false, Some("10.0.0.0/8")), "secret", &request, ip(from), &mut guard, &pin, 0)
                .expect_err("unsigned");
        assert_eq!(told(refused), "Invalid request signature");
    }
    let signature = compute_signature("secret", "GET", "/", "0", b"").expect("sign");
    let signed = SignedRequest { method: "GET", target: "/", timestamp: "0", body: b"", signature: &signature };
    let outside =
        authenticate_request(key(1, false, Some("10.0.0.0/8")), "secret", &signed, ip("8.8.8.8"), &mut guard, &pin, 0)
            .expect_err("outside");
    assert_eq!(told(outside), "Client IP not allowed");
}

// Outbound calls

fn endpoint(base: &str, cipher: &SecretCipher) -> vault_endpoint::Model {
    vault_endpoint::Model {
        id: 1,
        name: "north".to_owned(),
        target_url: base.to_owned(),
        api_key: "remote-key".to_owned(),
        signing_secret: cipher.seal("outbound").expect("seal"),
        description: None,
        owner_key_id: None,
        created_at: NOW,
        updated_at: NOW,
    }
}

#[test]
fn outbound_headers_carry_a_signature_that_the_remote_can_verify() {
    let cipher = SecretCipher::from_hex_key(&"ab".repeat(32)).expect("a key");
    let vault = endpoint("https://vault.example", &cipher);
    let headers = signed_headers(&cipher, &vault, "POST", "/api/records/batch", b"{}", NOW.secs).expect("signed");
    assert_eq!(headers.api_key, "remote-key");
    assert_eq!(headers.timestamp, "1700000000");
    assert!(verify_signature("outbound", "POST", "/api/records/batch", "1700000000", b"{}", &headers.signature).is_some());
    assert!(verify_signature("inbound", "POST", "/api/records/batch", "1700000000", b"{}", &headers.signature).is_none());
    match signed_headers(&SecretCipher::Plaintext, &vault, "POST", "/", b"", 0) {
        Err(e) => assert_eq!(e.message(), "failed to decrypt vault endpoint signing secret"),
        Ok(h) => panic!("{h:?}"),
    }
}

#[test]
fn batches_go_to_the_batch_endpoint() {
    let target = batch_target("https://vault.example:8443/base/").expect("a URL");
    assert_eq!(target.url, "https://vault.example:8443/api/records/batch");
    assert_eq!(target.target, "/api/records/batch");
    match batch_target("not a url") {
        Err(ClientError::InvalidUrl(m)) => assert!(!m.is_empty()),
        other => panic!("{other:?}"),
    }
}

#[test]
fn the_signed_delta_target_has_the_query_as_it_is_sent() {
    let target = delta_target("https://vault.example", "a group&b", true, 5_000, Some(NOW)).expect("a URL");
    assert_eq!(
        target.target,
        "/api/ips?group_name=a+group%26b&include_deleted=true&limit=5000&offset=5000&since=1700000000"
    );
    assert_eq!(target.url, format!("https://vault.example{}", target.target));
    let first = delta_target("https://vault.example", "g", false, 0, None).expect("a URL");
    assert_eq!(first.target, "/api/ips?group_name=g&include_deleted=false&limit=5000&offset=0");
    assert!(delta_target("::", "g", true, 0, None).is_err());
}

#[test]
fn remote_errors_keep_the_head_of_the_body() {
    let body = "é".repeat(600);
    match remote_error(500, &body) {
        ClientError::RemoteError { status, body } => {
            assert_eq!(status, 500);
            assert_eq!(body.chars().count(), 500);
        }
        other => panic!("{other:?}"),
    }
    assert_eq!(remote_error(404, "gone").message(), "vault endpoint returned 404: gone");
    assert_eq!(ClientError::Request("lost".to_owned()).message(), "request to vault endpoint failed: lost");
    assert_eq!(ClientError::Signing.message(), "failed to compute request signature");
    assert_eq!(ClientError::InvalidUrl("bad".to_owned()).message(), "invalid target_url: bad");
}

fn created(n: u64) -> BatchRecordsResponse {
    BatchRecordsResponse { created: n, ..BatchRecordsResponse::default() }
}

/// Pushes to a remote that takes at most `most` records at once, and records what it was sent.
fn push_to(len: usize, most: usize, base: BatchMode) -> (Vec<(usize, usize, BatchMode)>, BatchRecordsResponse) {
    let mut push = BatchPush::new(len, base, 3);
    let mut taken = Vec::new();
    while let Some(piece) = push.piece() {
        let reply = if piece.end - piece.start > most {
            PushReply::Refused { status: 413, body: "too large".to_owned() }
        } else {
            taken.push((piece.start, piece.end, piece.mode));
            PushReply::Accepted(created((piece.end - piece.start) as u64))
        };
        match push.record(reply) {
            PushStep::Failed(e) => panic!("{}", e.message()),
            PushStep::Retry(attempt) => panic!("{attempt}"),
            PushStep::Send | PushStep::Done => {}
        }
    }
    (taken, push.total())
}

#[test]
fn a_batch_that_is_too_large_is_halved_until_it_fits() {
    let (taken, total) = push_to(10, 3, BatchMode::FullReplace);
    assert_eq!(
        taken,
        vec![
            (0, 2, BatchMode::FullReplace),
            (2, 5, BatchMode::Upsert),
            (5, 7, BatchMode::Upsert),
            (7, 10, BatchMode::Upsert),
        ]
    );
    assert_eq!(total.created, 10);
}

#[test]
fn an_empty_batch_is_still_sent_once() {
    let (taken, _) = push_to(0, 5, BatchMode::FullReplace);
    assert_eq!(taken, vec![(0, 0, BatchMode::FullReplace)]);
}

#[test]
fn a_transient_refusal_is_retried_and_then_given_up() {
    let mut push = BatchPush::new(5, BatchMode::Upsert, 2);
    let busy = || PushReply::Refused { status: 503, body: "busy".to_owned() };
    assert!(matches!(push.record(busy()), PushStep::Retry(1)));
    assert!(matches!(push.record(busy()), PushStep::Retry(2)));
    match push.record(busy()) {
        PushStep::Failed(e) => assert_eq!(e.message(), "vault endpoint returned 503: busy"),
        other => panic!("{other:?}"),
    }
    let mut single = BatchPush::new(1, BatchMode::Upsert, 2);
    let too_large = PushReply::Refused { status: 413, body: String::new() };
    assert!(matches!(single.record(too_large), PushStep::Failed(_)), "one record cannot be halved");
    let mut lost = BatchPush::new(1, BatchMode::Upsert, 2);
    assert!(matches!(lost.record(PushReply::Lost("gone".to_owned())), PushStep::Failed(ClientError::Request(_))));
}

#[test]
fn counts_add_up_without_overflow() {
    let sum = created(u64::MAX).plus(created(1));
    assert_eq!(sum.created, u64::MAX);
    assert_eq!(created(1).plus(created(2)).created, 3);
}

fn page(n: u64) -> Vec<IpRecordResponse> {
    (0..n)
        .map(|i| IpRecordResponse {
            id: u128::from(i),
            target_address: "1.1.1.1".to_owned(),
            group_name: "g".to_owned(),
            cause: None,
            is_deleted: false,
            deleted_at: None,
            created_at: None,
            updated_at: None,
            last_seen_at: None,
        })
        .collect()
}

#[test]
fn a_delta_is_fetched_until_a_page_is_not_full() {
    let mut fetch = DeltaFetch::new();
    assert_eq!(fetch.offset(), Some(0));
    fetch.take_page(page(DELTA_PAGE_SIZE));
    assert_eq!(fetch.offset(), Some(DELTA_PAGE_SIZE));
    fetch.take_page(page(7));
    assert_eq!(fetch.offset(), None);
    assert_eq!(fetch.finish().len(), DELTA_PAGE_SIZE as usize + 7);
}

#[test]
fn modes_are_read_as_they_are_written() {
    for mode in [BatchMode::Upsert, BatchMode::FullReplace] {
        assert_eq!(BatchMode::parse(mode.as_str()), Some(mode));
    }
    assert_eq!(BatchMode::parse("UPSERT"), None);
}

#[test]
fn a_page_is_asked_for_again_while_the_failure_is_transient() {
    assert_eq!(page_step(204, 0, 3), PageStep::Read);
    assert_eq!(page_step(429, 0, 3), PageStep::Retry(1));
    assert_eq!(page_step(429, 3, 3), PageStep::Refused);
    assert_eq!(page_step(500, 0, 3), PageStep::Refused);
    assert_eq!(page_step(302, 0, 3), PageStep::Refused);
}

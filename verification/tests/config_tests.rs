//! Settings, bootstrap credentials, client addresses and trusted proxies.

use simply_ip_sync::config::{
    is_trusted, max_body_bytes, max_decompressed_bytes, normalize_ip,
    outbound_http_timeout, outbound_max_retries, outbound_retry_backoff, resolve_bind_addr,
    resolve_client_ip, validate_initial_master_key, validate_initial_master_signing_secret,
    DEFAULT_MAX_BODY_MIB, DEFAULT_OUTBOUND_HTTP_TIMEOUT_SECS, DEFAULT_OUTBOUND_MAX_RETRIES,
    DEFAULT_OUTBOUND_RETRY_BACKOFF_MS,
};
use simply_ip_sync::net::{address_string, network_string, parse_address, IpAddress, IpNetwork};
use simply_ip_sync::proxies::{
    boot_step, grace_report, hostname_rejection, parse_trusted_proxies, BootStep, ProxyMatcher,
    TrustedProxies,
};

fn ip(s: &str) -> IpAddress {
    parse_address(s).expect("an address")
}

fn network(s: &str) -> IpNetwork {
    match parse_trusted_proxies(s).expect("parses").remove(0) {
        ProxyMatcher::Network(n) => n,
        ProxyMatcher::Hostname(h) => panic!("{h} is not a network"),
    }
}

#[test]
fn parse_trusted_proxies_accepts_cidr_and_bare_ip() {
    let parsed = parse_trusted_proxies("10.0.0.0/8, 192.168.1.5").expect("parses");
    assert_eq!(parsed.len(), 2);
    assert!(parsed.iter().all(|m| matches!(m, ProxyMatcher::Network(_))));
}

#[test]
fn parse_trusted_proxies_accepts_docker_style_hostnames() {
    let parsed = parse_trusted_proxies("traefik_tomidejetsu, proxy, traefik.internal").expect("parses");
    assert_eq!(parsed.len(), 3);
    assert!(parsed.iter().all(|m| matches!(m, ProxyMatcher::Hostname(_))));
}

#[test]
fn parse_trusted_proxies_accepts_a_mix_of_cidr_and_hostname() {
    let parsed = parse_trusted_proxies("172.16.0.0/12, traefik").expect("parses");
    assert_eq!(parsed.len(), 2);
    assert!(matches!(parsed[0], ProxyMatcher::Network(_)));
    assert!(matches!(parsed[1], ProxyMatcher::Hostname(_)));
}

#[test]
fn parse_trusted_proxies_rejects_a_malformed_cidr_rather_than_treating_it_as_a_hostname() {
    let err = parse_trusted_proxies("10.0.0.0/99").expect_err("not a valid CIDR");
    assert_eq!(err.len(), 1);
    assert_eq!(err[0].entry, "10.0.0.0/99");
}

#[test]
fn parse_trusted_proxies_rejects_a_malformed_ipv4_literal() {
    let err = parse_trusted_proxies("10.0.0.256").expect_err("not a valid address");
    assert_eq!(err.len(), 1);
}

#[test]
fn parse_trusted_proxies_rejects_characters_that_cannot_appear_in_a_dns_name() {
    assert!(parse_trusted_proxies("!!!not-valid!!!").is_err());
}

#[test]
fn parse_trusted_proxies_collects_every_bad_entry_not_just_the_first() {
    let err = parse_trusted_proxies("10.0.0.0/99, good-hostname, !!!bad!!!").expect_err("two bad entries");
    assert_eq!(err.len(), 2, "one restart should surface both typos: {err:?}");
}

#[test]
fn a_refused_proxy_list_names_every_entry_and_its_reason() {
    let err = match TrustedProxies::from_env(Some("10.0.0.0/99, ok, 1.2.3")) {
        Ok(_) => panic!("two entries are malformed"),
        Err(e) => e,
    };
    let message = err.message();
    assert!(message.starts_with("2 invalid TRUSTED_PROXIES entries: "), "{message}");
    assert!(message.contains("\"10.0.0.0/99\" ("), "{message}");
    assert!(message.contains("; \"1.2.3\" ("), "{message}");
    let one = match TrustedProxies::from_env(Some("::1/999")) {
        Ok(_) => panic!("the entry is malformed"),
        Err(e) => e.message(),
    };
    assert!(one.starts_with("1 invalid TRUSTED_PROXIES entry: "), "{one}");
}

#[test]
fn an_unset_proxy_list_trusts_nobody() {
    for value in [None, Some(""), Some("  ,  ")] {
        let trusted = TrustedProxies::from_env(value).expect("nothing to refuse");
        assert!(trusted.is_empty());
        assert!(trusted.resolved(0).expect("nothing to look up").is_empty());
    }
}

#[test]
fn hostname_syntax_accepts_container_names_and_rejects_near_miss_addresses() {
    for name in ["traefik", "traefik_tomidejetsu", "proxy-1", "traefik.internal", "a", "a1"] {
        assert!(hostname_rejection(name).is_none(), "{name:?} must be accepted as a hostname");
    }
    for garbage in ["10.0.0.0/8", "::1", "10.0.0.256", "-leading-hyphen", "trailing-hyphen-", ""] {
        assert!(hostname_rejection(garbage).is_some(), "{garbage:?} must be refused");
    }
}

/// Looks every name up in a table, as a resolver would.
fn look_up(trusted: &mut TrustedProxies, table: &[(&str, Vec<IpAddress>)], now: u64) -> usize {
    let mut lookups: usize = 0;
    let mut next = trusted.next_stale(0, now);
    while let Some(i) = next {
        let name = trusted.hostname(i).to_owned();
        let addresses = match table.iter().find(|(n, _)| *n == name) {
            Some((_, addresses)) => addresses.clone(),
            None => Vec::new(),
        };
        trusted.record(i, &addresses, now);
        lookups += 1;
        next = trusted.next_stale(i + 1, now);
    }
    trusted.rebuild();
    lookups
}

#[test]
fn a_hostname_entry_is_resolved_and_matched() {
    let mut trusted = TrustedProxies::new(vec![ProxyMatcher::Hostname("localhost".to_owned())]);
    assert!(trusted.resolved(0).is_none(), "a name must be looked up first");
    look_up(&mut trusted, &[("localhost", vec![ip("127.0.0.1"), ip("::1")])], 0);
    let resolved = trusted.resolved(0).expect("looked up");
    assert!(is_trusted(ip("127.0.0.1"), resolved));
    assert!(is_trusted(ip("::1"), resolved));
    assert!(!is_trusted(ip("203.0.113.9"), resolved), "an unrelated address must not match");
}

#[test]
fn docker_style_configuration_matches_by_cidr_or_by_hostname() {
    let mut trusted = TrustedProxies::from_env(Some("172.16.0.0/12, localhost")).expect("parses");
    look_up(&mut trusted, &[("localhost", vec![ip("127.0.0.1")])], 0);
    let resolved = trusted.resolved(0).expect("looked up");
    assert!(is_trusted(ip("172.17.0.5"), resolved), "docker bridge CIDR matches");
    assert!(is_trusted(ip("127.0.0.1"), resolved), "the named service matches");
    assert!(!is_trusted(ip("192.0.2.7"), resolved), "anything else does not");
}

#[test]
fn an_unresolvable_hostname_trusts_nobody_but_disables_only_itself() {
    let mut trusted =
        TrustedProxies::from_env(Some("this-host-does-not-exist.invalid, 10.0.0.0/8")).expect("parses");
    look_up(&mut trusted, &[], 0);
    let resolved = trusted.resolved(0).expect("looked up");
    assert!(is_trusted(ip("10.1.2.3"), resolved), "the literal entry still applies");
    assert_eq!(resolved.len(), 1, "the unresolvable name contributes nothing: {resolved:?}");
    assert_eq!(trusted.unresolved(), vec!["this-host-does-not-exist.invalid".to_owned()]);
}

#[test]
fn a_fresh_resolution_is_served_from_cache_not_re_queried() {
    let table = [("localhost", vec![ip("127.0.0.1")])];
    let mut trusted = TrustedProxies::new(vec![ProxyMatcher::Hostname("localhost".to_owned())])
        .with_ttls(30_000, 30_000);
    assert_eq!(look_up(&mut trusted, &table, 0), 1);
    assert!(trusted.resolved(29_999).is_some(), "an unexpired resolution must be reused");
    assert_eq!(look_up(&mut trusted, &table, 29_999), 0);
    assert!(trusted.resolved(30_000).is_none(), "an expired one must not");
    assert_eq!(look_up(&mut trusted, &table, 30_000), 1);
}

#[test]
fn a_failed_lookup_is_forgotten_sooner_than_a_good_one() {
    let mut trusted = TrustedProxies::from_env(Some("here, gone")).expect("parses").with_ttls(30_000, 5_000);
    look_up(&mut trusted, &[("here", vec![ip("10.0.0.1")])], 0);
    assert_eq!(trusted.next_stale(0, 5_000).map(|i| trusted.hostname(i).to_owned()), Some("gone".to_owned()));
    trusted.forget();
    assert!(trusted.resolved(0).is_none());
}

#[test]
fn no_hostnames_never_touches_the_cache() {
    let trusted = TrustedProxies::from_env(Some("10.0.0.0/8")).expect("parses");
    assert_eq!(trusted.next_stale(0, 0), None);
    assert_eq!(trusted.resolved(0).map(|n| n.len()), Some(1));
}

#[test]
fn matchers_are_shown_as_they_are_written() {
    let trusted = TrustedProxies::from_env(Some("10.0.0.0/8,proxy")).expect("parses");
    let shown: Vec<String> = trusted.matchers().iter().map(|m| m.to_text()).collect();
    assert_eq!(shown, vec!["10.0.0.0/8".to_owned(), "proxy".to_owned()]);
}

#[test]
fn the_boot_report_says_what_did_not_resolve() {
    assert!(matches!(boot_step(0, &Vec::new()), BootStep::Quiet));
    assert!(matches!(boot_step(2, &Vec::new()), BootStep::Resolved(_)));
    let failed = vec!["gone".to_owned()];
    match boot_step(2, &failed) {
        BootStep::RetryAfterGrace(m) => assert!(m.contains("[\"gone\"]"), "{m}"),
        other => panic!("{other:?}"),
    }
    assert!(grace_report(&failed).contains("[\"gone\"]"));
}

#[test]
fn resolve_client_ip_ignores_xff_from_untrusted_peer() {
    let peer = ip("203.0.113.7");
    assert_eq!(resolve_client_ip(peer, Some("1.2.3.4"), None, &[]), peer);
}

#[test]
fn resolve_client_ip_walks_xff_right_to_left_skipping_trusted_hops() {
    let trusted = vec![network("10.0.0.0/8")];
    let peer = ip("10.0.0.1");
    let resolved = resolve_client_ip(peer, Some("198.51.100.9, 10.0.0.5, 10.0.0.1"), None, &trusted);
    assert_eq!(resolved, ip("198.51.100.9"));
}

#[test]
fn a_spoofed_left_hand_entry_never_wins() {
    let trusted = vec![network("10.0.0.0/8")];
    let resolved = resolve_client_ip(ip("10.0.0.1"), Some("1.1.1.1, 198.51.100.9, 10.0.0.5"), None, &trusted);
    assert_eq!(resolved, ip("198.51.100.9"));
}

#[test]
fn the_real_ip_header_counts_only_from_a_trusted_peer() {
    let trusted = vec![network("10.0.0.0/8")];
    assert_eq!(resolve_client_ip(ip("10.0.0.1"), None, Some("198.51.100.9"), &trusted), ip("198.51.100.9"));
    assert_eq!(resolve_client_ip(ip("192.0.2.1"), None, Some("198.51.100.9"), &trusted), ip("192.0.2.1"));
}

#[test]
fn normalize_ip_unwraps_v4_mapped_v6() {
    assert_eq!(normalize_ip(ip("::ffff:127.0.0.1")), ip("127.0.0.1"));
    assert_eq!(normalize_ip(ip("::1")), ip("::1"));
}

#[test]
fn addresses_and_networks_are_written_canonically() {
    assert_eq!(ip("127.0.0.1"), IpAddress::V4(0x7f00_0001));
    assert_eq!(ip("::1"), IpAddress::V6(1));
    assert_eq!(address_string(ip("2001:0db8:0:0::0001")), "2001:db8::1");
    assert_eq!(network_string(network("10.1.2.3/8")), "10.1.2.3/8");
    assert!(parse_address("10.0.0.256").is_none());
    assert!(parse_address("10.0.0.0/8").is_none());
    assert!(network("10.1.2.3/8").contains(ip("10.255.0.1")));
    assert!(!network("10.1.2.3/8").contains(ip("11.0.0.1")));
    assert!(!network("10.0.0.0/8").contains(ip("::1")));
    assert!(network("2001:db8::/32").contains(ip("2001:db8:ffff::1")));
}

#[test]
fn validate_initial_master_key_accepts_64_hex_chars() {
    let key = "a".repeat(64);
    assert!(validate_initial_master_key(&key).is_ok());
}

#[test]
fn validate_initial_master_key_rejects_wrong_length() {
    assert!(validate_initial_master_key("abcd").is_err());
}

#[test]
fn validate_initial_master_key_rejects_non_hex() {
    let key = "z".repeat(64);
    assert!(validate_initial_master_key(&key).is_err());
}

#[test]
fn invalid_initial_master_key_reports_the_actual_length_supplied() {
    let err = validate_initial_master_key("abcd").unwrap_err();
    assert_eq!(err.got, 4);
    assert_eq!(err.detail, "");
    assert!(err.message().contains("Got 4 character"), "{}", err.message());
}

#[test]
fn invalid_initial_master_key_reports_non_hex_characters() {
    let key = "z".repeat(64);
    let err = validate_initial_master_key(&key).unwrap_err();
    assert_eq!(err.got, 64);
    assert!(err.detail.contains("non-hexadecimal"));
}

#[test]
fn validate_initial_master_signing_secret_accepts_64_hex_chars() {
    let secret = "b".repeat(64);
    assert!(validate_initial_master_signing_secret(&secret).is_ok());
}

#[test]
fn validate_initial_master_signing_secret_rejects_wrong_length() {
    assert!(validate_initial_master_signing_secret("abcd").is_err());
    let err = validate_initial_master_signing_secret("abcd").unwrap_err();
    assert!(err.message().starts_with("INITIAL_MASTER_SIGNING_SECRET must be exactly 64"), "{}", err.message());
}

#[test]
fn outbound_max_retries_defaults_when_unset() {
    assert_eq!(outbound_max_retries(None), DEFAULT_OUTBOUND_MAX_RETRIES);
}

#[test]
fn outbound_retry_backoff_defaults_when_unset() {
    assert_eq!(outbound_retry_backoff(None), DEFAULT_OUTBOUND_RETRY_BACKOFF_MS);
}

#[test]
fn settings_read_their_values_and_fall_back_on_bad_ones() {
    assert_eq!(outbound_max_retries(Some("0")), 0);
    assert_eq!(outbound_max_retries(Some("-1")), DEFAULT_OUTBOUND_MAX_RETRIES);
    assert_eq!(outbound_http_timeout(Some("5")), 5);
    assert_eq!(outbound_http_timeout(Some("0")), DEFAULT_OUTBOUND_HTTP_TIMEOUT_SECS);
    assert_eq!(outbound_http_timeout(Some("soon")), DEFAULT_OUTBOUND_HTTP_TIMEOUT_SECS);
    assert_eq!(max_body_bytes(Some("3")), 3 * 1024 * 1024);
    assert_eq!(max_body_bytes(Some("0")), DEFAULT_MAX_BODY_MIB * 1024 * 1024);
    assert_eq!(max_body_bytes(Some("18446744073709551615")), 10 * 1024 * 1024, "more than can be counted");
    assert_eq!(max_body_bytes(Some("17592186044415")), 17_592_186_044_415 * 1024 * 1024);
    assert_eq!(max_body_bytes(Some("17592186044416")), 10 * 1024 * 1024);
    assert_eq!(max_body_bytes(None), 10 * 1024 * 1024);
    assert_eq!(simply_ip_sync::max_request_body_bytes(Some("2")), 2 * 1024 * 1024);
    assert_eq!(max_decompressed_bytes(Some("4096")), 4096);
}

#[test]
fn the_bind_address_falls_back_in_order() {
    assert_eq!(resolve_bind_addr(None, None, None), (ip("0.0.0.0"), 3003));
    assert_eq!(resolve_bind_addr(Some("127.0.0.1"), Some("10.0.0.1"), Some("80")), (ip("127.0.0.1"), 80));
    assert_eq!(resolve_bind_addr(None, Some("::1"), Some("99999")), (ip("::1"), 3003));
}

//! Feed parsers.

use simply_ip_sync::json::{parse, JsonValue};
use simply_ip_sync::parsers::json_path::JsonPathParser;
use simply_ip_sync::parsers::regex_line::RegexLineParser;
use simply_ip_sync::parsers::{for_type, normalize_ip_or_cidr, FeedParser, ParseError};

#[test]
fn parses_nested_array_path() {
    let parser = JsonPathParser;
    let body = br#"{"data":{"items":[{"ipAddress":"1.2.3.4"},{"ipAddress":"5.6.7.8"}]}}"#;
    let config = r#"{"array_path":"data.items","ip_field":"ipAddress"}"#;
    let out = parser.parse(body, Some(config)).expect("parse");
    assert_eq!(out, vec!["1.2.3.4".to_owned(), "5.6.7.8".to_owned()]);
}

#[test]
fn parses_bare_top_level_array() {
    let parser = JsonPathParser;
    let body = br#"[{"ip":"9.9.9.9"}]"#;
    let config = r#"{"ip_field":"ip"}"#;
    let out = parser.parse(body, Some(config)).expect("parse");
    assert_eq!(out, vec!["9.9.9.9".to_owned()]);
}

#[test]
fn skips_items_missing_the_ip_field() {
    let parser = JsonPathParser;
    let body = br#"[{"other":"x"},{"ip":"1.1.1.1"}]"#;
    let config = r#"{"ip_field":"ip"}"#;
    let out = parser.parse(body, Some(config)).expect("parse");
    assert_eq!(out, vec!["1.1.1.1".to_owned()]);
}

#[test]
fn errors_without_config() {
    let parser = JsonPathParser;
    assert!(parser.parse(b"[]", None).is_err());
}

#[test]
fn errors_when_array_path_missing() {
    let parser = JsonPathParser;
    let body = br#"{"other":true}"#;
    let config = r#"{"array_path":"data.items","ip_field":"ip"}"#;
    assert!(parser.parse(body, Some(config)).is_err());
}

#[test]
fn errors_on_malformed_json_body() {
    let parser = JsonPathParser;
    let config = r#"{"ip_field":"ip"}"#;
    assert!(parser.parse(b"not json", Some(config)).is_err());
}

#[test]
fn jsonl_mode_parses_spamhaus_drop_v6_shape() {
    let parser = JsonPathParser;
    let mut body = String::new();
    body.push_str("{\"cidr\":\"2001:678:254::/48\",\"sblid\":\"SBL697648\",\"rir\":\"ripencc\"}\n");
    body.push_str("{\"cidr\":\"2001:678:6c0::/48\",\"sblid\":\"SBL624855\",\"rir\":\"ripencc\"}\n");
    body.push_str("{\"type\":\"metadata\",\"timestamp\":1786614242,\"records\":2}\n");
    let config = r#"{"jsonl":true,"ip_field":"cidr"}"#;
    let out = parser.parse(body.as_bytes(), Some(config)).expect("parse");
    assert_eq!(out, vec!["2001:678:254::/48".to_owned(), "2001:678:6c0::/48".to_owned()]);
}

#[test]
fn jsonl_mode_skips_unparseable_lines_without_failing() {
    let parser = JsonPathParser;
    let body = "{\"cidr\":\"2001:db8::/32\"}\nnot json at all\n{\"cidr\":\"2001:db9::/32\"}\n";
    let config = r#"{"jsonl":true,"ip_field":"cidr"}"#;
    let out = parser.parse(body.as_bytes(), Some(config)).expect("parse");
    assert_eq!(out, vec!["2001:db8::/32".to_owned(), "2001:db9::/32".to_owned()]);
}

#[test]
fn strips_comment_lines() {
    let parser = RegexLineParser;
    let body = b"# comment\n; also comment\n// js style\n1.2.3.4\n";
    let out = parser.parse(body, None).expect("parse");
    assert_eq!(out, vec!["1.2.3.4".to_owned()]);
}

#[test]
fn extracts_cidr_and_bare_ip() {
    let parser = RegexLineParser;
    let body = b"10.0.0.0/8\n192.168.1.1\n";
    let out = parser.parse(body, None).expect("parse");
    assert_eq!(out, vec!["10.0.0.0/8".to_owned(), "192.168.1.1".to_owned()]);
}

#[test]
fn extracts_ipv6() {
    let parser = RegexLineParser;
    let body = b"2001:db8::1\n";
    let out = parser.parse(body, None).expect("parse");
    assert_eq!(out, vec!["2001:db8::1".to_owned()]);
}

#[test]
fn ignores_blank_and_non_ip_lines() {
    let parser = RegexLineParser;
    let body = b"\n   \nnot an ip at all\n1.2.3.4\n";
    let out = parser.parse(body, None).expect("parse");
    assert_eq!(out, vec!["1.2.3.4".to_owned()]);
}

#[test]
fn non_utf8_body_degrades_to_zero_entries_instead_of_erroring() {
    let parser = RegexLineParser;
    let body: &[u8] = &[0xff, 0xfe, 0x00];
    let out = parser.parse(body, None).expect("must not error on invalid UTF-8");
    assert!(out.is_empty());
}

#[test]
fn mixed_encoding_body_still_extracts_the_valid_utf8_portions() {
    let parser = RegexLineParser;
    let mut body = b"1.2.3.4\n".to_vec();
    body.extend_from_slice(&[0xff, 0xfe]);
    body.extend_from_slice(b"\n5.6.7.8\n");
    let out = parser.parse(&body, None).expect("must not error on invalid UTF-8");
    assert_eq!(out, vec!["1.2.3.4".to_owned(), "5.6.7.8".to_owned()]);
}

#[test]
fn latin1_byte_in_a_comment_does_not_prevent_extraction() {
    let parser = RegexLineParser;
    let mut body = b"# Th".to_vec();
    body.push(0xE9);
    body.extend_from_slice(b" liste\n10.0.0.0/8\n");
    let out = parser.parse(&body, None).expect("must not error on invalid UTF-8");
    assert_eq!(out, vec!["10.0.0.0/8".to_owned()]);
}

#[test]
fn several_addresses_on_one_line_all_count() {
    let out = RegexLineParser.parse(b"deny 1.2.3.4 and 10.0.0.0/8; # 2001:db8::/32\n", None).expect("parse");
    assert_eq!(out, vec!["1.2.3.4".to_owned(), "10.0.0.0/8".to_owned(), "2001:db8::/32".to_owned()]);
}

#[test]
fn what_only_looks_like_an_address_is_left_out() {
    let out = RegexLineParser.parse(b"999.1.1.1\n1.2.3.4/64\n8.8.8.8\n", None).expect("parse");
    assert!(out.contains(&"8.8.8.8".to_owned()));
    assert!(!out.iter().any(|e| e.starts_with("999")));
    assert!(!out.contains(&"1.2.3.4/64".to_owned()));
}

#[test]
fn addresses_and_networks_are_normalized() {
    assert_eq!(normalize_ip_or_cidr("  192.168.1.1 "), Some("192.168.1.1".to_owned()));
    assert_eq!(normalize_ip_or_cidr("2001:0DB8::0001"), Some("2001:db8::1".to_owned()));
    assert_eq!(normalize_ip_or_cidr("10.0.0.0/8"), Some("10.0.0.0/8".to_owned()));
    assert_eq!(normalize_ip_or_cidr("10.0.0.0/99"), None);
    assert_eq!(normalize_ip_or_cidr("example.com"), None);
    assert_eq!(normalize_ip_or_cidr(""), None);
}

#[test]
fn canonical_spellings_are_given_back_as_they_are() {
    let spellings = [
        ("192.168.1.1/32", "192.168.1.1"),
        ("10.0.0.0/255.0.0.0", "10.0.0.0/8"),
        ("0.0.0.0/0", "0.0.0.0/0"),
        ("2001:DB8:0:0::/032", "2001:db8::/32"),
        ("::ffff:1.2.3.4", "::ffff:1.2.3.4"),
        ("::1/128", "::1"),
        ("::/0", "::/0"),
        ("1:0:0:2:0:0:0:3", "1:0:0:2::3"),
    ];
    for (input, canonical) in spellings {
        assert_eq!(normalize_ip_or_cidr(input).as_deref(), Some(canonical));
        assert_eq!(normalize_ip_or_cidr(canonical).as_deref(), Some(canonical));
        assert_eq!(normalize_ip_or_cidr(&format!(" \t{input}\n")).as_deref(), Some(canonical));
    }
}

#[test]
fn blank_lines_and_comments_change_nothing() {
    let plain = RegexLineParser.parse(b"1.1.1.1\n2.2.2.2\n", None).expect("parse");
    for skipped in ["   ", "# 3.3.3.3", "; 3.3.3.3", " // 3.3.3.3"] {
        let feed = format!("1.1.1.1\n{skipped}\n2.2.2.2\n");
        assert_eq!(RegexLineParser.parse(feed.as_bytes(), Some("not read")).expect("parse"), plain);
    }
}

#[test]
fn parsers_are_found_by_type() {
    let regex = for_type("REGEX_LINE").expect("known");
    assert_eq!(regex.parse(b"1.2.3.4", None).expect("parse"), vec!["1.2.3.4".to_owned()]);
    let json = for_type("JSON_PATH").expect("known");
    assert_eq!(json.parse(b"[{\"ip\":\"1.2.3.4\"}]", Some("{\"ip_field\":\"ip\"}")).expect("parse"), vec!["1.2.3.4".to_owned()]);
    match for_type("XML") {
        Err(e) => assert!(e.message().contains("XML"), "{}", e.message()),
        Ok(p) => panic!("{p:?}"),
    }
}

#[test]
fn a_malformed_parser_configuration_is_an_error() {
    for config in ["not json", "[]", "{\"array_path\":\"a\"}", "{\"ip_field\":1}", "{\"ip_field\":\"ip\",\"jsonl\":\"yes\"}"] {
        let err = JsonPathParser.parse(b"[]", Some(config)).expect_err(config);
        assert!(!err.message().is_empty());
    }
}

#[test]
fn json_lines_must_be_text() {
    let err = JsonPathParser.parse(&[0xff], Some("{\"jsonl\":true,\"ip_field\":\"ip\"}")).expect_err("not UTF-8");
    assert!(matches!(err, ParseError::MalformedBody(_)), "{err:?}");
}

#[test]
fn documents_are_read_as_serde_json_reads_them() {
    let doc = parse(br#"{"a":[1,-2.5,true,null,"xA"],"b":{"c":"d"}}"#).expect("a document");
    match doc.get("a") {
        Some(JsonValue::Array(items)) => {
            assert!(matches!(&items[0], JsonValue::Number(n) if n == "1"));
            assert!(matches!(&items[1], JsonValue::Number(n) if n == "-2.5"));
            assert!(matches!(items[2], JsonValue::Bool(true)));
            assert!(matches!(items[3], JsonValue::Null));
            assert_eq!(items[4].as_str(), Some("xA"));
        }
        other => panic!("{other:?}"),
    }
    assert_eq!(doc.get("b").and_then(|b| b.get("c")).and_then(|c| c.as_str()), Some("d"));
    assert!(doc.get("missing").is_none());
    assert!(parse(b"{").is_err());
}

use feedcore::address::{count_colons, Link, Origin, MAX_COLONS};
use feedcore::clock::{datetime_after, get_future_datetime, parse_pub_date, Timestamp};
use feedcore::credentials::{check_password, hash_password, hash_with_salt, sha512};
use feedcore::error::AppError;
use feedcore::text::{conjoin, decimal_of, join};

#[test]
fn concat_appends() {
    assert_eq!(conjoin("ab", "cd"), "abcd");
    assert_eq!(conjoin("", ""), "");
}

#[test]
fn join_puts_separator_between() {
    assert_eq!(join(&vec![], "\n"), "");
    assert_eq!(join(&vec!["a".to_string()], "\n"), "a");
    assert_eq!(join(&vec!["a".to_string(), "b".to_string(), "c".to_string()], "\n"), "a\nb\nc");
}

#[test]
fn decimal_of_writes_digits() {
    assert_eq!(decimal_of(0), "0");
    assert_eq!(decimal_of(7), "7");
    assert_eq!(decimal_of(443), "443");
    assert_eq!(decimal_of(65535), "65535");
}

#[test]
fn sha512_of_known_text() {
    assert_eq!(
        sha512("abc".to_string()),
        "ddaf35a193617abacc417349ae20413112e6fa4e89a97ea20a9eeee64b55d39a2192992a274fc1a836ba3c23a3feebbd454d4423643ce80e2a9ac94fa54ca49f"
    );
}

#[test]
fn hashes_are_128_hex_digits() {
    for text in ["", "abc", "a longer text with \u{e9} in it"] {
        let hash = sha512(text.to_string());
        assert_eq!(hash.len(), 128);
        assert!(hash.chars().all(|c| c.is_ascii_digit() || ('a'..='f').contains(&c)));
    }
    assert_eq!(hash_password("pw".to_string(), None).hash.len(), 128);
}

#[test]
fn hash_with_salt_hashes_password_then_salt() {
    let hashed = hash_with_salt("ab", "c".to_string());
    assert_eq!(hashed.salt, "c");
    assert_eq!(hashed.hash, sha512("abc".to_string()));
}

#[test]
fn hash_password_keeps_given_salt() {
    let hashed = hash_password("secret".to_string(), Some("NaCl".to_string()));
    assert_eq!(hashed.salt, "NaCl");
    assert_eq!(hashed.hash, sha512("secretNaCl".to_string()));
}

#[test]
fn hash_password_draws_salt() {
    let hashed = hash_password("secret".to_string(), None);
    assert_eq!(hashed.salt.len(), 8);
    assert!(hashed.salt.chars().all(|c| c.is_ascii_alphanumeric()));
    assert_eq!(hashed.hash, sha512(format!("secret{}", hashed.salt)));
}

#[test]
fn check_password_accepts_and_rejects() {
    let hashed = hash_password("secret".to_string(), None);
    assert!(check_password("secret".to_string(), hashed.hash.clone(), hashed.salt.clone()).is_ok());
    let wrong = check_password("Secret".to_string(), hashed.hash.clone(), hashed.salt.clone());
    assert!(matches!(wrong, Err(AppError::Unauthorized)));
}

#[test]
fn link_parse_normalizes() {
    let link = Link::parse("HTTPS://Example.com:443/a/../b").unwrap();
    assert_eq!(link.text, "https://example.com/b");
    let link = Link::parse("mailto:someone@example.com").unwrap();
    assert_eq!(link.text, "mailto:someone@example.com");
}

#[test]
fn origin_of_special_scheme() {
    let origin = Origin::of("HTTPS://Example.com/a/../b").unwrap().unwrap();
    assert_eq!(origin.scheme, "https");
    assert_eq!(origin.host, "example.com");
    assert_eq!(origin.port, 443);
    let origin = Origin::of("http://[::1]:8080/x").unwrap().unwrap();
    assert_eq!(origin.scheme, "http");
    assert_eq!(origin.host, "[::1]");
    assert_eq!(origin.port, 8080);
}

#[test]
fn origin_of_opaque_scheme_is_none() {
    assert!(Origin::of("mailto:someone@example.com").unwrap().is_none());
    assert!(Origin::of("data:text/plain,hello").unwrap().is_none());
    assert!(Origin::of("blob:not a url").unwrap().is_none());
}

#[test]
fn origin_of_blob_is_that_of_its_path() {
    let origin = Origin::of("blob:https://example.com/some-id").unwrap().unwrap();
    assert_eq!(origin.scheme, "https");
    assert_eq!(origin.host, "example.com");
    assert_eq!(origin.port, 443);
    let nested = Origin::of("blob:blob:blob:http://example.org:81/").unwrap().unwrap();
    assert_eq!(nested.host, "example.org");
    assert_eq!(nested.port, 81);
}

#[test]
fn origin_of_no_url_fails() {
    match Origin::of("/just/a/path") {
        Err(AppError::ParseFailure(m)) => assert_eq!(m, "relative URL without a base"),
        other => panic!("unexpected: {:?}", other),
    }
}

#[test]
fn origin_of_too_many_colons_is_refused() {
    let at_the_bound = format!("{}https://example.com/", "blob:".repeat(MAX_COLONS - 1));
    assert_eq!(count_colons(&at_the_bound), MAX_COLONS);
    assert_eq!(Origin::of(&at_the_bound).unwrap().unwrap().host, "example.com");
    let beyond = format!("{}https://example.com/", "blob:".repeat(MAX_COLONS));
    match Origin::of(&beyond) {
        Err(AppError::ParseFailure(m)) => assert_eq!(m, "too many colons in link"),
        other => panic!("unexpected: {:?}", other),
    }
    let deep = format!("{}https://example.com/", "blob:".repeat(200_000));
    assert!(Origin::of(&deep).is_err());
    assert!(Link::parse(&deep).is_ok());
}

#[test]
fn count_colons_counts() {
    assert_eq!(count_colons(""), 0);
    assert_eq!(count_colons("no colon"), 0);
    assert_eq!(count_colons("a:b::c"), 3);
    assert_eq!(count_colons("\u{ff1a}:\u{3a}"), 2);
}

#[test]
fn link_parse_rejects_relative() {
    match Link::parse("/just/a/path") {
        Err(AppError::ParseFailure(m)) => assert_eq!(m, "relative URL without a base"),
        other => panic!("unexpected: {:?}", other),
    }
}

#[test]
fn pub_date_without_weekday() {
    let at = parse_pub_date("01 Jan 2024 12:30 +0000").unwrap();
    assert_eq!(at, Timestamp { unix_seconds: 1704112200, offset_seconds: 0 });
    let at = parse_pub_date("01 Jan 2024 12:30 +0200").unwrap();
    assert_eq!(at, Timestamp { unix_seconds: 1704105000, offset_seconds: 7200 });
}

#[test]
fn pub_date_rfc2822() {
    let at = parse_pub_date("Mon, 01 Jan 2024 12:30:15 +0000").unwrap();
    assert_eq!(at, Timestamp { unix_seconds: 1704112215, offset_seconds: 0 });
}

#[test]
fn pub_date_unreadable() {
    assert!(parse_pub_date("yesterday").is_err());
    assert!(parse_pub_date("").is_err());
}

#[test]
fn datetime_after_adds_and_bounds() {
    assert_eq!(datetime_after(100, 5), Some(Timestamp { unix_seconds: 105, offset_seconds: 0 }));
    assert_eq!(datetime_after(253402300799, 0), Some(Timestamp { unix_seconds: 253402300799, offset_seconds: 0 }));
    assert_eq!(datetime_after(253402300799, 1), None);
    assert_eq!(datetime_after(-377705116800, -1), None);
    assert_eq!(datetime_after(i64::MAX, i64::MAX), None);
}

#[test]
fn future_datetime_is_now_or_later() {
    let now = get_future_datetime(0).unwrap();
    let later = get_future_datetime(604800).unwrap();
    assert_eq!(now.offset_seconds, 0);
    assert!(later.unix_seconds >= now.unix_seconds + 604800);
    assert!(now.unix_seconds > 1_600_000_000);
}

use ktra::error::Error;
use ktra::mirroring::{cache_is_usable, check_download, crates_io_url};
use ktra::password::{encode_password, matches_password, random_alphanumeric_string};
use ktra::schema::{
    is_reserved_key, migrate_tokens, schema_version_bytes, OAUTH_NONCES_KEY, OLD_TOKENS_KEY,
    PASSWORDS_KEY, SCHEMA_VERSION, SCHEMA_VERSION_KEY, TOKENS_KEY, USERS_KEY,
};
use ktra::text::{chars_of, contains_chars, decimal_text, distinct_texts, same_text, string_of};
use ktra::utils::always_true;
use ktra::version::Version;

#[test]
fn a_mirrored_crate_file_comes_from_crates_io() {
    let version = Version::parse("1.0.197").unwrap();
    assert_eq!(
        crates_io_url("serde", &version),
        "https://crates.io/api/v1/crates/serde/1.0.197/download"
    );
}

#[test]
fn an_empty_or_missing_cache_file_is_not_served() {
    assert!(!cache_is_usable(None));
    assert!(!cache_is_usable(Some(0)));
    assert!(cache_is_usable(Some(1)));
    assert!(cache_is_usable(Some(u64::MAX)));
}

#[test]
fn an_empty_download_is_no_crate_file() {
    assert!(matches!(check_download(&[]), Err(Error::InvalidHttpResponseLength)));
    assert!(check_download(&[0]).is_ok());
}

#[test]
fn a_random_string_is_made_of_letters_and_digits() {
    for length in [0usize, 1, 32, 100] {
        let s = random_alphanumeric_string(length);
        assert_eq!(s.chars().count(), length);
        assert!(s.chars().all(|c| c.is_ascii_alphanumeric()));
    }
    assert_ne!(random_alphanumeric_string(32), random_alphanumeric_string(32));
}

#[test]
fn a_hash_verifies_against_its_password() {
    let encoded = encode_password("correct horse", "0123456789abcdef").unwrap();
    assert!(encoded.starts_with("$argon2id$"));
    assert_eq!(matches_password(&encoded, "correct horse").unwrap(), true);
    assert_eq!(matches_password(&encoded, "correct horse ").unwrap(), false);
    assert_eq!(matches_password(&encoded, "").unwrap(), false);
    // the same password and salt give the same hash, another salt another
    assert_eq!(encode_password("correct horse", "0123456789abcdef").unwrap(), encoded);
    assert_ne!(encode_password("correct horse", "0123456789abcdeg").unwrap(), encoded);
    assert!(encode_password("pw", "short").is_err());
    assert!(matches_password("no hash", "pw").is_err());
}

#[test]
fn a_known_hash_verifies() {
    let encoded = "$argon2i$v=19$m=4096,t=3,p=1$c29tZXNhbHQ$iWh06vD8Fy27wf9npn6FXWiCX4K6pW6Ue1Bnzz07Z8A";
    assert_eq!(matches_password(encoded, "password").unwrap(), true);
    assert_eq!(matches_password(encoded, "Password").unwrap(), false);
}

#[test]
fn reserved_keys_are_no_crate_names() {
    for key in [SCHEMA_VERSION_KEY, USERS_KEY, PASSWORDS_KEY, TOKENS_KEY, OAUTH_NONCES_KEY] {
        assert!(is_reserved_key(key));
        assert!(key.starts_with("__") && key.ends_with("__"));
        assert!(ktra::names::check_crate_name(key).is_err());
    }
    assert!(!is_reserved_key(OLD_TOKENS_KEY));
    assert!(!is_reserved_key("alpha"));
    assert!(!is_reserved_key("__users__"));
    assert!(!is_reserved_key(""));
    assert_eq!(OLD_TOKENS_KEY, "tokens");
    assert_eq!(TOKENS_KEY, "__TOKENS__");
}

#[test]
fn the_layout_is_at_version_three() {
    assert_eq!(SCHEMA_VERSION, 3);
    assert_eq!(schema_version_bytes(), SCHEMA_VERSION.to_be_bytes());
}

#[test]
fn tokens_of_the_first_layout_are_moved() {
    let old = b"{\"0\":\"T0\"}";
    assert_eq!(
        migrate_tokens(false, Some(old)).unwrap().as_deref(),
        Some("{\"0\":\"T0\"}")
    );
    // a database that states its version is left alone
    assert_eq!(migrate_tokens(true, Some(old)).unwrap(), None);
    assert_eq!(migrate_tokens(false, None).unwrap(), None);
    assert_eq!(migrate_tokens(true, None).unwrap(), None);
    assert!(matches!(
        migrate_tokens(false, Some(&[0xc3, 0x28])),
        Err(Error::InvalidUtf8Bytes(_))
    ));
    assert_eq!(migrate_tokens(true, Some(&[0xc3, 0x28])).unwrap(), None);
}

#[test]
fn texts_and_characters_convert_both_ways() {
    for text in ["", "a", "héllo wörld", "日本語", "a\nb"] {
        let chars = chars_of(text);
        assert_eq!(chars, text.chars().collect::<Vec<char>>());
        assert_eq!(string_of(&chars), text);
    }
}

#[test]
fn texts_are_compared_by_their_characters() {
    assert!(same_text("", ""));
    assert!(same_text("abc", "abc"));
    assert!(!same_text("abc", "abd"));
    assert!(!same_text("abc", "ab"));
    assert!(!same_text("é", "e"));
    assert!(same_text("日本", "日本"));
}

#[test]
fn a_text_is_found_within_another() {
    let has = |hay: &str, needle: &str| contains_chars(&chars_of(hay), &chars_of(needle));
    for (hay, needle) in [
        ("", ""),
        ("abc", ""),
        ("abc", "abc"),
        ("abc", "a"),
        ("abc", "c"),
        ("abc", "bc"),
        ("abc", "abcd"),
        ("abc", "d"),
        ("", "a"),
        ("aab", "ab"),
        ("foo=bar", "o=b"),
        ("foo=bar", "o-b"),
        ("ababac", "abac"),
        ("héllo", "él"),
    ] {
        assert_eq!(has(hay, needle), hay.contains(needle), "{:?} in {:?}", needle, hay);
    }
}

#[test]
fn numbers_are_written_in_decimal() {
    for n in [0u64, 1, 9, 10, 11, 99, 100, 101, 12345, 4294967295, u64::MAX] {
        assert_eq!(decimal_text(n), n.to_string());
    }
}

#[test]
fn texts_that_repeat_are_not_distinct() {
    let list = |items: &[&str]| items.iter().map(|s| s.to_string()).collect::<Vec<String>>();
    assert!(distinct_texts(&list(&[])));
    assert!(distinct_texts(&list(&["a"])));
    assert!(distinct_texts(&list(&["a", "b", "c"])));
    assert!(!distinct_texts(&list(&["a", "b", "a"])));
    assert!(!distinct_texts(&list(&["a", "a"])));
    assert!(!distinct_texts(&list(&["x", "b", "b"])));
}

#[test]
fn always_true_is_true() {
    assert!(always_true(()));
    assert!(always_true(false));
    assert!(always_true("anything"));
}

use ktra::error::Error;
use ktra::names::{check_crate_name, lower_case, normalized_crate_name};

fn rejected_as(name: &str, lower: &str) -> bool {
    match check_crate_name(name) {
        Err(Error::InvalidCrateName(reported)) => reported == lower,
        _ => false,
    }
}

#[test]
fn normalized_name_is_lower_case_with_equals_signs() {
    assert_eq!(normalized_crate_name("Foo_Bar-baz"), "foo=bar=baz");
    assert_eq!(normalized_crate_name("alpha"), "alpha");
    assert_eq!(normalized_crate_name(""), "");
    assert_eq!(normalized_crate_name("A-_Z09"), "a==z09");
}

#[test]
fn normalized_name_keeps_what_is_not_ascii() {
    assert_eq!(normalized_crate_name("ÄB-é"), "Äb=é");
}

#[test]
fn normalizing_twice_changes_nothing() {
    for name in ["foo_bar", "Foo-Bar", "a=b", "X", "", "söme_Thing-1"] {
        let once = normalized_crate_name(name);
        assert_eq!(normalized_crate_name(&once), once);
    }
}

#[test]
fn hyphen_and_underscore_normalize_alike() {
    for name in ["foo-bar", "a-b-c", "-", "no_hyphen", "Mixed-Case_name"] {
        assert_eq!(
            normalized_crate_name(name),
            normalized_crate_name(&name.replace('-', "_"))
        );
    }
}

#[test]
fn two_spellings_of_one_crate_normalize_alike() {
    assert_eq!(normalized_crate_name("foo_bar"), normalized_crate_name("foo-bar"));
    assert_eq!(normalized_crate_name("al-pha"), "al=pha");
    assert_ne!(normalized_crate_name("al-pha"), normalized_crate_name("alpha"));
}

#[test]
fn lower_case_touches_only_ascii_capitals() {
    assert_eq!(lower_case("AbC-_1Ä"), "abc-_1Ä");
}

#[test]
fn plain_names_are_accepted() {
    for name in ["alpha", "a", "Z", "foo_bar", "foo-bar", "serde1", "a-1_b", "Con1", "com", "com0", "com10", "nul_", "aux1"] {
        assert!(check_crate_name(name).is_ok(), "{} should be accepted", name);
    }
}

#[test]
fn a_name_of_sixty_five_characters_is_accepted() {
    let name = "a".repeat(65);
    assert!(check_crate_name(&name).is_ok());
}

#[test]
fn a_name_of_sixty_six_characters_is_rejected() {
    let name = "a".repeat(66);
    assert!(rejected_as(&name, &name));
    let longer = "b".repeat(200);
    assert!(rejected_as(&longer, &longer));
}

#[test]
fn an_empty_name_is_rejected() {
    assert!(rejected_as("", ""));
}

#[test]
fn a_name_that_starts_with_a_digit_is_rejected() {
    assert!(rejected_as("1abc", "1abc"));
    assert!(rejected_as("0", "0"));
}

#[test]
fn a_name_that_starts_with_a_hyphen_or_an_underscore_is_rejected() {
    assert!(rejected_as("-abc", "-abc"));
    assert!(rejected_as("_abc", "_abc"));
    assert!(rejected_as("__USERS__", "__users__"));
}

#[test]
fn a_name_with_a_character_outside_ascii_is_rejected() {
    assert!(rejected_as("caf\u{e9}", "caf\u{e9}"));
    assert!(rejected_as("\u{e9}cole", "\u{e9}cole"));
    assert!(rejected_as("kelvin\u{212a}", "kelvin\u{212a}"));
}

#[test]
fn a_name_with_a_character_that_is_not_allowed_is_rejected() {
    for name in ["foo bar", "foo.bar", "foo/bar", "foo=bar", "a+b", "a\n"] {
        assert!(check_crate_name(name).is_err(), "{:?} should be rejected", name);
    }
}

#[test]
fn reserved_device_names_are_rejected_in_any_case() {
    for name in ["con", "prn", "aux", "nul", "com1", "com2", "com3", "com4", "com5", "com6", "com7", "com8", "com9"] {
        assert!(rejected_as(name, name));
        assert!(rejected_as(&name.to_uppercase(), name));
    }
    assert!(rejected_as("CoN", "con"));
    assert!(rejected_as("Com7", "com7"));
}

#[test]
fn the_rejected_name_is_reported_in_lower_case() {
    assert!(rejected_as("Foo Bar", "foo bar"));
}

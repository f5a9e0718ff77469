use ktra::version::{Precedence, Version};

fn version(text: &str) -> Version {
    Version::parse(text).unwrap()
}

#[test]
fn semantic_versions_are_read() {
    for text in ["0.1.0", "1.2.3", "10.20.30", "1.0.0-alpha", "1.0.0-alpha.1", "1.0.0+build.5", "2.0.0-rc.1+build.5", "0.0.0"] {
        let v = Version::parse(text).unwrap();
        assert_eq!(v.as_str(), text);
        assert_eq!(v.to_string(), text);
    }
}

#[test]
fn what_is_no_semantic_version_is_not_read() {
    for text in ["", "1", "1.2", "1.2.3.4", "a.b.c", "01.2.3", "1.2.3-", "1.2.3+", " 1.2.3", "1.2.3 ", "v1.2.3", "1.2.x"] {
        assert!(Version::parse(text).is_none(), "{:?} should not be read", text);
    }
}

#[test]
fn a_version_is_the_same_as_itself_only() {
    assert!(version("1.2.3").same(&version("1.2.3")));
    assert!(!version("1.2.3").same(&version("1.2.4")));
    assert!(!version("1.2.3").same(&version("1.2.3-alpha")));
    assert!(!version("1.2.3+a").same(&version("1.2.3+b")));
    assert_eq!(version("1.2.3").compare(&version("1.2.3")), Precedence::Same);
}

#[test]
fn versions_are_ordered_by_their_numbers() {
    assert_eq!(version("0.1.0").compare(&version("0.2.0")), Precedence::Older);
    assert_eq!(version("0.2.0").compare(&version("0.1.0")), Precedence::Newer);
    assert_eq!(version("0.9.0").compare(&version("0.10.0")), Precedence::Older);
    assert_eq!(version("1.0.0").compare(&version("0.99.99")), Precedence::Newer);
    assert_eq!(version("1.2.3").compare(&version("1.2.10")), Precedence::Older);
}

#[test]
fn a_prerelease_is_older_than_its_release() {
    let chain = [
        "1.0.0-alpha",
        "1.0.0-alpha.1",
        "1.0.0-alpha.beta",
        "1.0.0-beta",
        "1.0.0-beta.2",
        "1.0.0-beta.11",
        "1.0.0-rc.1",
        "1.0.0",
    ];
    for i in 0..chain.len() {
        for j in 0..chain.len() {
            let expected = if i < j {
                Precedence::Older
            } else if i == j {
                Precedence::Same
            } else {
                Precedence::Newer
            };
            assert_eq!(
                version(chain[i]).compare(&version(chain[j])),
                expected,
                "{} against {}",
                chain[i],
                chain[j]
            );
        }
    }
}

#[test]
fn a_copy_of_a_version_is_the_same_version() {
    let v = version("3.1.4-pre.1");
    assert!(v.clone().same(&v));
    assert_eq!(v.clone().as_str(), "3.1.4-pre.1");
}

use ktra::config::IndexConfig;
use ktra::error::Error;
use ktra::index_manager::{
    add_package_message, append_line, branch_ref, change_yanked, change_yanked_message,
    committer_email, credentials_callback, fetch_refspec, index_file_path, join_lines, merge,
    push_refspec, split_lines, Credentials, MergePlan,
};
use ktra::models::Package;
use ktra::version::Version;

fn line(name: &str, vers: &str, yanked: bool) -> Package {
    Package {
        name: name.to_owned(),
        vers: Version::parse(vers).unwrap(),
        deps: Vec::new(),
        cksum: format!("cksum-{}", vers),
        features: Vec::new(),
        yanked,
        links: None,
    }
}

fn marks(packages: &[Package]) -> Vec<(String, bool)> {
    packages.iter().map(|p| (p.vers.to_string(), p.yanked)).collect()
}

fn texts(lines: &[&str]) -> Vec<String> {
    lines.iter().map(|l| l.to_string()).collect()
}

#[test]
fn the_file_of_a_crate_lies_in_its_directory() {
    assert_eq!(index_file_path("a").unwrap(), "1/a");
    assert_eq!(index_file_path("ab").unwrap(), "2/ab");
    assert_eq!(index_file_path("abc").unwrap(), "3/a/abc");
    assert_eq!(index_file_path("alpha").unwrap(), "al/ph/alpha");
    assert_eq!(index_file_path("Foo_Bar").unwrap(), "fo/o_/foo_bar");
    assert!(matches!(index_file_path(""), Err(Error::CrateNameNotDefined)));
}

#[test]
fn lines_end_at_line_feeds() {
    assert_eq!(split_lines(""), Vec::<String>::new());
    assert_eq!(split_lines("one"), texts(&["one"]));
    assert_eq!(split_lines("one\n"), texts(&["one"]));
    assert_eq!(split_lines("one\ntwo"), texts(&["one", "two"]));
    assert_eq!(split_lines("one\ntwo\n"), texts(&["one", "two"]));
    assert_eq!(split_lines("\n"), texts(&[""]));
    assert_eq!(split_lines("\n\n"), texts(&["", ""]));
    assert_eq!(split_lines("a\n\nb"), texts(&["a", "", "b"]));
}

#[test]
fn a_carriage_return_before_a_line_feed_is_no_part_of_the_line() {
    assert_eq!(split_lines("one\r\ntwo\r\n"), texts(&["one", "two"]));
    assert_eq!(split_lines("one\r\r\ntwo"), texts(&["one\r", "two"]));
    assert_eq!(split_lines("one\rtwo\n"), texts(&["one\rtwo"]));
    assert_eq!(split_lines("one\r"), texts(&["one\r"]));
    assert_eq!(split_lines("\r\n"), texts(&[""]));
}

#[test]
fn lines_are_split_as_the_standard_library_splits_them() {
    for content in ["", "a", "a\n", "a\nb", "a\r\nb\r\n", "\n", "\r", "\r\n\r\n", "a\r", "x\n\ny\n", "\n\r\n\r", "é\nü"] {
        let expected: Vec<String> = content.lines().map(str::to_owned).collect();
        assert_eq!(split_lines(content), expected, "{:?}", content);
    }
}

#[test]
fn lines_are_joined_with_line_feeds_between_them() {
    assert_eq!(join_lines(&Vec::new()), "");
    assert_eq!(join_lines(&texts(&["one"])), "one");
    assert_eq!(join_lines(&texts(&["one", "two"])), "one\ntwo");
    assert_eq!(join_lines(&texts(&["", ""])), "\n");
    assert_eq!(join_lines(&texts(&["a", "", "b"])), "a\n\nb");
}

#[test]
fn a_line_is_added_behind_the_lines_of_the_file() {
    assert_eq!(append_line("", "{\"a\":1}"), "{\"a\":1}");
    assert_eq!(append_line("{\"a\":1}", "{\"a\":2}"), "{\"a\":1}\n{\"a\":2}");
    assert_eq!(append_line("{\"a\":1}\n", "{\"a\":2}"), "{\"a\":1}\n{\"a\":2}");
    assert_eq!(append_line("x\r\ny\r\n", "z"), "x\ny\nz");
    let mut content = String::new();
    for i in 0..5 {
        content = append_line(&content, &format!("line {}", i));
    }
    assert_eq!(content, "line 0\nline 1\nline 2\nline 3\nline 4");
}

#[test]
fn the_lines_of_a_version_are_marked() {
    let mut packages = vec![line("alpha", "0.1.0", false), line("alpha", "0.2.0", false), line("alpha", "0.3.0", true)];
    change_yanked(&mut packages, &Version::parse("0.2.0").unwrap(), true);
    assert_eq!(
        marks(&packages),
        vec![("0.1.0".to_owned(), false), ("0.2.0".to_owned(), true), ("0.3.0".to_owned(), true)]
    );
    assert_eq!(packages[1].cksum, "cksum-0.2.0");
    assert_eq!(packages[1].name, "alpha");
    change_yanked(&mut packages, &Version::parse("0.3.0").unwrap(), false);
    assert_eq!(
        marks(&packages),
        vec![("0.1.0".to_owned(), false), ("0.2.0".to_owned(), true), ("0.3.0".to_owned(), false)]
    );
    // a version that has no line changes nothing
    change_yanked(&mut packages, &Version::parse("9.9.9").unwrap(), true);
    assert_eq!(
        marks(&packages),
        vec![("0.1.0".to_owned(), false), ("0.2.0".to_owned(), true), ("0.3.0".to_owned(), false)]
    );
}

#[test]
fn yanking_and_unyanking_leave_the_lines_where_they_were() {
    let mut packages = vec![line("alpha", "0.1.0", false), line("alpha", "0.2.0", false), line("alpha", "0.3.0", true)];
    let before = marks(&packages);
    let version = Version::parse("0.1.0").unwrap();
    change_yanked(&mut packages, &version, true);
    assert_ne!(marks(&packages), before);
    change_yanked(&mut packages, &version, false);
    assert_eq!(marks(&packages), before);
    assert_eq!(packages.len(), 3);
}

#[test]
fn commits_say_what_was_done() {
    let package = line("alpha", "0.1.0", false);
    assert_eq!(add_package_message(&package), "Updating crate `alpha#0.1.0`");
    let version = Version::parse("1.2.3-beta").unwrap();
    assert_eq!(change_yanked_message("alpha", &version, true), "Yanking crate `alpha#1.2.3-beta`");
    assert_eq!(change_yanked_message("alpha", &version, false), "Unyanking crate `alpha#1.2.3-beta`");
}

#[test]
fn references_name_the_branch() {
    assert_eq!(branch_ref("main"), "refs/heads/main");
    assert_eq!(fetch_refspec("main"), "refs/heads/main:refs/remotes/origin/main");
    assert_eq!(push_refspec("release"), "refs/heads/release:refs/heads/release");
}

#[test]
fn the_committer_has_an_address() {
    let mut config = IndexConfig::default();
    assert_eq!(committer_email(&config), "undefined@example.com");
    config.email = Some("registry@example.org".to_owned());
    assert_eq!(committer_email(&config), "registry@example.org");
}

#[test]
fn a_user_name_and_a_password_are_presented_where_the_remote_takes_them() {
    let mut config = IndexConfig::default();
    config.https_username = Some("configured".to_owned());
    config.https_password = Some("hunter2".to_owned());
    config.ssh_privkey_path = Some("/id".to_owned());
    match credentials_callback(&config, None, true) {
        Ok(Credentials::UserPass { username, password }) => {
            assert_eq!(username, "configured");
            assert_eq!(password, "hunter2");
        }
        other => panic!("unexpected {:?}", other),
    }
    // the name that the address carries comes first
    match credentials_callback(&config, Some("from-url"), true) {
        Ok(Credentials::UserPass { username, .. }) => assert_eq!(username, "from-url"),
        other => panic!("unexpected {:?}", other),
    }
}

#[test]
fn an_ssh_key_is_presented_otherwise() {
    let mut config = IndexConfig::default();
    config.https_username = Some("web".to_owned());
    config.https_password = Some("hunter2".to_owned());
    config.ssh_username = Some("git".to_owned());
    config.ssh_privkey_path = Some("/home/r/.ssh/id".to_owned());
    match credentials_callback(&config, None, false) {
        Ok(Credentials::SshKey { username, public_key, private_key, passphrase }) => {
            assert_eq!(username, "git");
            assert_eq!(public_key, None);
            assert_eq!(private_key, "/home/r/.ssh/id");
            assert_eq!(passphrase, None);
        }
        other => panic!("unexpected {:?}", other),
    }
    config.ssh_pubkey_path = Some("/home/r/.ssh/id.pub".to_owned());
    config.ssh_key_passphrase = Some("open".to_owned());
    match credentials_callback(&config, Some("me"), false) {
        Ok(Credentials::SshKey { username, public_key, private_key, passphrase }) => {
            assert_eq!(username, "me");
            assert_eq!(public_key.as_deref(), Some("/home/r/.ssh/id.pub"));
            assert_eq!(private_key, "/home/r/.ssh/id");
            assert_eq!(passphrase.as_deref(), Some("open"));
        }
        other => panic!("unexpected {:?}", other),
    }
}

#[test]
fn credentials_that_are_not_configured_cannot_be_presented() {
    let config = IndexConfig::default();
    assert_eq!(credentials_callback(&config, None, true).unwrap_err(), "username not defined");
    assert_eq!(credentials_callback(&config, Some("u"), true).unwrap_err(), "password not defined");
    assert_eq!(credentials_callback(&config, None, false).unwrap_err(), "username not defined");
    assert_eq!(
        credentials_callback(&config, Some("u"), false).unwrap_err(),
        "ssh private key not specified"
    );
}

#[test]
fn a_fast_forward_is_preferred_to_a_merge() {
    assert_eq!(merge(true, false), MergePlan::FastForward);
    assert_eq!(merge(true, true), MergePlan::FastForward);
    assert_eq!(merge(false, true), MergePlan::Normal);
    assert_eq!(merge(false, false), MergePlan::Nothing);
}

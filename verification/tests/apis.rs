use ktra::apis::{
    authorize_edit, download_path, handle_add_owners, handle_change_password,
    handle_change_password_with, handle_login, handle_login_with, handle_new_user,
    handle_new_user_with, handle_remove_owners, plan_publish, read_publish_head,
};
use ktra::db_manager::DbManager;
use ktra::error::Error;
use ktra::models::{ChangePassword, Credential, Metadata, Owners, Query};
use ktra::version::Version;

const SALT: &str = "0123456789abcdefghijklmnopqrstuv";

fn registry() -> DbManager {
    DbManager::new("ktra-secure-auth:".to_owned())
}

fn request_metadata(name: &str, vers: &str) -> Metadata {
    Metadata {
        name: name.to_owned(),
        vers: Version::parse(vers).unwrap(),
        deps: Vec::new(),
        features: Vec::new(),
        authors: vec!["a".to_owned()],
        description: None,
        documentation: None,
        homepage: None,
        readme: None,
        readme_file: None,
        keywords: Vec::new(),
        categories: Vec::new(),
        license: None,
        license_file: None,
        repository: None,
        badges: Vec::new(),
        links: None,
        yanked: false,
    }
}

fn request_body(metadata: &[u8], tarball: &[u8]) -> Vec<u8> {
    let mut body = Vec::new();
    body.extend_from_slice(&(metadata.len() as u32).to_le_bytes());
    body.extend_from_slice(metadata);
    body.extend_from_slice(&(tarball.len() as u32).to_le_bytes());
    body.extend_from_slice(tarball);
    body
}

fn ten_bytes() -> Vec<u8> {
    (0u8..10).collect()
}

/// Publishes as the host does: head, decoded metadata, plan, store.
fn publish(db: &mut DbManager, token: &str, name: &str, vers: &str) -> Result<String, Error> {
    let text = format!("{{\"name\":\"{}\",\"vers\":\"{}\"}}", name, vers);
    let body = request_body(text.as_bytes(), &ten_bytes());
    let head = read_publish_head(db, token, &body)?;
    assert_eq!(head.metadata, text);
    let metadata = request_metadata(name, vers);
    let cksum = plan_publish(db, head.user_id, &metadata, head.rest)?.package.cksum;
    db.add_new_metadata(head.user_id, metadata)?;
    Ok(cksum)
}

fn registry_with_alpha() -> DbManager {
    let mut db = registry();
    assert_eq!(
        handle_new_user_with(&mut db, "alice", "p1", SALT, "T0").unwrap(),
        "T0"
    );
    publish(&mut db, "T0", "alpha", "0.1.0").unwrap();
    db
}

#[test]
fn first_publish() {
    let mut db = registry();
    handle_new_user_with(&mut db, "alice", "p1", SALT, "T0").unwrap();
    let text = "{\"name\":\"alpha\",\"vers\":\"0.1.0\"}";
    let body = request_body(text.as_bytes(), &ten_bytes());
    let head = read_publish_head(&db, "T0", &body).unwrap();
    assert_eq!(head.user_id, 0);
    assert_eq!(head.metadata, text);
    let metadata = request_metadata("alpha", "0.1.0");
    let publication = plan_publish(&db, head.user_id, &metadata, head.rest).unwrap();
    assert_eq!(publication.tarball, &ten_bytes()[..]);
    assert_eq!(publication.package.name, "alpha");
    assert_eq!(publication.package.vers.as_str(), "0.1.0");
    assert!(!publication.package.yanked);
    assert_eq!(
        publication.package.cksum,
        "1f825aa2f0020ef7cf91dfa30da4668d791c5d4824fc8e41354b89ec05795ab3"
    );
    assert_eq!(download_path("alpha", &metadata.vers), "alpha/0.1.0/download");
    db.add_new_metadata(head.user_id, metadata).unwrap();
    let found = db.search(&Query::new("alpha".to_owned()));
    assert_eq!(found.meta.total, 1);
    assert_eq!(found.crates[0].max_version.as_str(), "0.1.0");
    assert_eq!(db.owners("alpha")[0].login, "ktra-secure-auth:alice");
}

#[test]
fn the_checksum_is_the_sha256_of_the_crate_file() {
    let db = registry();
    let metadata = request_metadata("alpha", "0.1.0");
    let cksum_of = |tarball: &[u8]| {
        let mut rest = (tarball.len() as u32).to_le_bytes().to_vec();
        rest.extend_from_slice(tarball);
        plan_publish(&db, 0, &metadata, &rest).unwrap().package.cksum
    };
    assert_eq!(
        cksum_of(b""),
        "e3b0c44298fc1c149afbf4c8996fb92427ae41e4649b934ca495991b7852b855"
    );
    assert_eq!(
        cksum_of(b"abc"),
        "ba7816bf8f01cfea414140de5dae2223b00361a396177a9cb410ff61f20015ad"
    );
}

#[test]
fn overlap_detection() {
    let mut db = registry_with_alpha();
    match publish(&mut db, "T0", "al-pha", "0.2.0") {
        // `al-pha` is a crate of its own: it does not normalize as `alpha`
        Ok(_) => {}
        other => panic!("unexpected {:?}", other),
    }
    let mut db = registry();
    handle_new_user_with(&mut db, "alice", "p1", SALT, "T0").unwrap();
    publish(&mut db, "T0", "al_pha", "0.1.0").unwrap();
    match publish(&mut db, "T0", "al-pha", "0.2.0") {
        Err(Error::OverlappedCrateName(name)) => assert_eq!(name, "al-pha"),
        other => panic!("unexpected {:?}", other),
    }
    match publish(&mut db, "T0", "foo_bar", "0.1.0").and_then(|_| publish(&mut db, "T0", "foo-bar", "0.1.1")) {
        Err(Error::OverlappedCrateName(name)) => assert_eq!(name, "foo-bar"),
        other => panic!("unexpected {:?}", other),
    }
}

#[test]
fn non_owner_publish() {
    let mut db = registry_with_alpha();
    assert_eq!(
        handle_new_user_with(&mut db, "bob", "p2", SALT, "T1").unwrap(),
        "T1"
    );
    assert_eq!(db.user_by_username("bob").unwrap().id, 1);
    match publish(&mut db, "T1", "alpha", "0.2.0") {
        Err(Error::InvalidUser(1)) => {}
        other => panic!("unexpected {:?}", other),
    }
}

#[test]
fn yank_then_search() {
    let mut db = registry_with_alpha();
    publish(&mut db, "T0", "alpha", "0.2.0").unwrap();
    let v1 = Version::parse("0.1.0").unwrap();
    let v2 = Version::parse("0.2.0").unwrap();
    assert_eq!(authorize_edit(&db, "T0", "alpha", &v2).unwrap(), 0);
    db.yank("alpha", &v2).unwrap();
    let found = db.search(&Query::new("alpha".to_owned()));
    assert_eq!(found.crates.len(), 1);
    assert_eq!(found.crates[0].max_version.as_str(), "0.1.0");
    assert_eq!(authorize_edit(&db, "T0", "alpha", &v1).unwrap(), 0);
    db.yank("alpha", &v1).unwrap();
    let found = db.search(&Query::new("alpha".to_owned()));
    assert!(found.crates.is_empty());
    assert_eq!(found.meta.total, 0);
}

#[test]
fn add_owners() {
    let mut db = registry_with_alpha();
    handle_new_user_with(&mut db, "bob", "p2", SALT, "T1").unwrap();
    let owners = Owners { logins: vec!["ktra-secure-auth:bob".to_owned()] };
    let message = handle_add_owners(&mut db, "T0", "alpha", &owners).unwrap();
    assert_eq!(
        message,
        "user ktra-secure-auth:bob has been added to the owners list of crate alpha"
    );
    let listed = db.owners("alpha");
    assert_eq!(listed.len(), 2);
    assert_eq!(listed[0].id, 0);
    assert_eq!(listed[0].login, "ktra-secure-auth:alice");
    assert_eq!(listed[1].id, 1);
    assert_eq!(listed[1].login, "ktra-secure-auth:bob");
}

#[test]
fn change_password() {
    let mut db = registry();
    let original =
        handle_new_user(&mut db, "alice", &Credential { password: "p1".to_owned() }).unwrap();
    let same = ChangePassword { old_password: "p1".to_owned(), new_password: "p1".to_owned() };
    assert!(matches!(
        handle_change_password(&mut db, "alice", &same),
        Err(Error::SamePasswords)
    ));
    let change = ChangePassword { old_password: "p1".to_owned(), new_password: "p2".to_owned() };
    let token = handle_change_password(&mut db, "alice", &change).unwrap();
    assert_ne!(token, original);
    assert_eq!(db.user_id_for_token(&token).unwrap(), 0);
    assert!(db.user_id_for_token(&original).is_err());
    assert_eq!(db.verify_password(0, "p1").unwrap(), false);
    assert_eq!(db.verify_password(0, "p2").unwrap(), true);
}

#[test]
fn a_publish_request_needs_a_token_that_is_somebodys() {
    let db = registry_with_alpha();
    let body = request_body(b"{}", b"");
    match read_publish_head(&db, "nobody", &body) {
        Err(Error::InvalidToken(token)) => assert_eq!(token, "nobody"),
        other => panic!("unexpected {:?}", other),
    }
    // the token is looked at before the body
    assert!(matches!(read_publish_head(&db, "nobody", &[]), Err(Error::InvalidToken(_))));
    assert!(matches!(read_publish_head(&db, "T0", &[]), Err(Error::InvalidBodyLength(0))));
}

#[test]
fn the_metadata_must_be_there_and_be_text() {
    let db = registry_with_alpha();
    assert!(matches!(
        read_publish_head(&db, "T0", &[5, 0, 0, 0, b'a']),
        Err(Error::InvalidBodyLength(1))
    ));
    let body = request_body(&[0xff, 0xfe], b"crate");
    assert!(matches!(read_publish_head(&db, "T0", &body), Err(Error::InvalidUtf8Bytes(_))));
    let body = request_body("h\u{e9}".as_bytes(), b"crate");
    let head = read_publish_head(&db, "T0", &body).unwrap();
    assert_eq!(head.metadata, "h\u{e9}");
    assert_eq!(head.rest, &[5, 0, 0, 0, b'c', b'r', b'a', b't', b'e']);
}

#[test]
fn the_store_is_asked_before_the_crate_file_is_read() {
    let db = registry_with_alpha();
    // the rest of the frame is cut short, but the version exists already
    let metadata = request_metadata("alpha", "0.1.0");
    assert!(matches!(
        plan_publish(&db, 0, &metadata, &[9, 0]),
        Err(Error::VersionExists(_, _))
    ));
    let metadata = request_metadata("alpha", "0.2.0");
    assert!(matches!(
        plan_publish(&db, 0, &metadata, &[9, 0]),
        Err(Error::InvalidBodyLength(2))
    ));
    assert!(matches!(
        plan_publish(&db, 0, &metadata, &[1, 0, 0, 0, 7, 7]),
        Err(Error::InvalidBodyLength(1))
    ));
    let metadata = request_metadata("nul", "0.2.0");
    assert!(matches!(
        plan_publish(&db, 0, &metadata, &[0, 0, 0, 0]),
        Err(Error::InvalidCrateName(_))
    ));
}

#[test]
fn yanking_is_for_owners() {
    let mut db = registry_with_alpha();
    handle_new_user_with(&mut db, "bob", "p2", SALT, "T1").unwrap();
    let v1 = Version::parse("0.1.0").unwrap();
    let v9 = Version::parse("0.9.0").unwrap();
    assert!(matches!(authorize_edit(&db, "T1", "alpha", &v1), Err(Error::InvalidUser(1))));
    assert!(matches!(authorize_edit(&db, "T9", "alpha", &v1), Err(Error::InvalidToken(_))));
    assert!(matches!(authorize_edit(&db, "T0", "alpha", &v9), Err(Error::VersionNotFoundInDb(_))));
    assert!(matches!(authorize_edit(&db, "T0", "beta", &v1), Err(Error::CrateNotFoundInDb(_))));
    match authorize_edit(&db, "T0", "ALPHA", &v1) {
        Err(Error::OverlappedCrateName(name)) => assert_eq!(name, "ALPHA"),
        other => panic!("unexpected {:?}", other),
    }
}

#[test]
fn several_owners_are_added_at_once() {
    let mut db = registry_with_alpha();
    handle_new_user_with(&mut db, "bob", "p2", SALT, "T1").unwrap();
    handle_new_user_with(&mut db, "carol", "p3", SALT, "T2").unwrap();
    let owners = Owners {
        logins: vec!["ktra-secure-auth:carol".to_owned(), "ktra-secure-auth:bob".to_owned()],
    };
    let message = handle_add_owners(&mut db, "T0", "alpha", &owners).unwrap();
    assert_eq!(
        message,
        "users [\"ktra-secure-auth:carol\", \"ktra-secure-auth:bob\"] have been added to the owners list of crate alpha"
    );
    assert_eq!(db.entries()[0].entry.owner_ids, vec![0, 1, 2]);
    // a new owner may publish
    publish(&mut db, "T2", "alpha", "0.2.0").unwrap();
}

#[test]
fn owners_are_removed_with_an_empty_message() {
    let mut db = registry_with_alpha();
    handle_new_user_with(&mut db, "bob", "p2", SALT, "T1").unwrap();
    let bob = Owners { logins: vec!["ktra-secure-auth:bob".to_owned()] };
    handle_add_owners(&mut db, "T0", "alpha", &bob).unwrap();
    let alice = Owners { logins: vec!["ktra-secure-auth:alice".to_owned()] };
    assert_eq!(handle_remove_owners(&mut db, "T1", "alpha", &alice).unwrap(), "");
    assert_eq!(db.entries()[0].entry.owner_ids, vec![1]);
    assert!(matches!(
        handle_remove_owners(&mut db, "T0", "alpha", &bob),
        Err(Error::InvalidUser(0))
    ));
}

#[test]
fn a_change_of_owners_is_refused_in_order() {
    let mut db = registry_with_alpha();
    handle_new_user_with(&mut db, "bob", "p2", SALT, "T1").unwrap();
    let nobody = Owners { logins: Vec::new() };
    let bob = Owners { logins: vec!["ktra-secure-auth:bob".to_owned()] };
    let stranger = Owners { logins: vec!["stranger".to_owned()] };
    // no logins: before the token is looked at
    assert!(matches!(handle_add_owners(&mut db, "bad", "alpha", &nobody), Err(Error::LoginsNotDefined)));
    assert!(matches!(handle_remove_owners(&mut db, "bad", "alpha", &nobody), Err(Error::LoginsNotDefined)));
    assert!(matches!(handle_add_owners(&mut db, "bad", "alpha", &bob), Err(Error::InvalidToken(_))));
    assert!(matches!(handle_add_owners(&mut db, "T1", "alpha", &bob), Err(Error::InvalidUser(1))));
    assert!(matches!(handle_add_owners(&mut db, "T0", "beta", &bob), Err(Error::CrateNotFoundInDb(_))));
    assert!(matches!(handle_add_owners(&mut db, "T0", "1x", &bob), Err(Error::InvalidCrateName(_))));
    match handle_add_owners(&mut db, "T0", "alpha", &stranger) {
        Err(Error::InvalidLoginNames(missing)) => assert_eq!(missing, vec!["stranger".to_owned()]),
        other => panic!("unexpected {:?}", other),
    }
    assert_eq!(db.entries()[0].entry.owner_ids, vec![0]);
}

#[test]
fn users_get_the_next_id() {
    let mut db = registry();
    handle_new_user_with(&mut db, "a", "p", SALT, "Ta").unwrap();
    handle_new_user_with(&mut db, "b", "p", SALT, "Tb").unwrap();
    handle_new_user_with(&mut db, "c", "p", SALT, "Tc").unwrap();
    let ids: Vec<u32> = db.users().iter().map(|u| u.id).collect();
    assert_eq!(ids, vec![0, 1, 2]);
    assert_eq!(db.users()[2].login, "ktra-secure-auth:c");
    assert_eq!(db.users()[2].name.as_deref(), Some("c"));
    assert_eq!(db.user_id_for_token("Tc").unwrap(), 2);
}

#[test]
fn the_id_after_the_last_one_is_zero() {
    let mut db = registry();
    db.set_token(u32::MAX, "last");
    handle_new_user_with(&mut db, "a", "p", SALT, "Ta").unwrap();
    assert_eq!(db.user_by_username("a").unwrap().id, 0);
}

#[test]
fn a_name_registers_once() {
    let mut db = registry();
    handle_new_user_with(&mut db, "alice", "p1", SALT, "T0").unwrap();
    match handle_new_user_with(&mut db, "alice", "p2", SALT, "T1") {
        Err(Error::UserExists(login)) => assert_eq!(login, "ktra-secure-auth:alice"),
        other => panic!("unexpected {:?}", other),
    }
    assert!(db.user_id_for_token("T1").is_err());
    assert_eq!(db.user_id_for_token("T0").unwrap(), 0);
}

#[test]
fn a_registration_answers_with_a_token_of_32_letters_and_digits() {
    let mut db = registry();
    let token = handle_new_user(&mut db, "alice", &Credential { password: "pw".to_owned() }).unwrap();
    assert_eq!(token.len(), 32);
    assert!(token.chars().all(|c| c.is_ascii_alphanumeric()));
    assert_eq!(db.user_id_for_token(&token).unwrap(), 0);
    assert_eq!(db.verify_password(0, "pw").unwrap(), true);
}

#[test]
fn a_login_gives_a_new_token() {
    let mut db = registry();
    handle_new_user_with(&mut db, "alice", "p1", SALT, "T0").unwrap();
    assert_eq!(handle_login_with(&mut db, "alice", "p1", "T1").unwrap(), "T1");
    assert_eq!(db.user_id_for_token("T1").unwrap(), 0);
    assert!(db.user_id_for_token("T0").is_err());
    let token = handle_login(&mut db, "alice", &Credential { password: "p1".to_owned() }).unwrap();
    assert_eq!(token.len(), 32);
    assert_eq!(db.user_id_for_token(&token).unwrap(), 0);
    assert!(db.user_id_for_token("T1").is_err());
}

#[test]
fn after_several_logins_only_the_latest_token_authenticates() {
    let mut db = registry();
    handle_new_user_with(&mut db, "alice", "p1", SALT, "T0").unwrap();
    let mut tokens = vec!["T0".to_owned()];
    for _ in 0..4 {
        tokens.push(handle_login(&mut db, "alice", &Credential { password: "p1".to_owned() }).unwrap());
    }
    let latest = tokens.pop().unwrap();
    assert_eq!(db.user_id_for_token(&latest).unwrap(), 0);
    for token in tokens {
        assert!(db.user_id_for_token(&token).is_err());
    }
}

#[test]
fn a_login_with_a_wrong_password_gives_none() {
    let mut db = registry();
    handle_new_user_with(&mut db, "alice", "p1", SALT, "T0").unwrap();
    assert!(matches!(
        handle_login_with(&mut db, "alice", "p2", "T1"),
        Err(Error::InvalidPassword)
    ));
    match handle_login_with(&mut db, "bob", "p1", "T1") {
        Err(Error::InvalidUsername(name)) => assert_eq!(name, "bob"),
        other => panic!("unexpected {:?}", other),
    }
    assert_eq!(db.user_id_for_token("T0").unwrap(), 0);
    assert!(db.user_id_for_token("T1").is_err());
}

#[test]
fn a_password_change_gives_a_new_token() {
    let mut db = registry();
    handle_new_user_with(&mut db, "alice", "p1", SALT, "T0").unwrap();
    assert_eq!(
        handle_change_password_with(&mut db, "alice", "p1", "p2", SALT, "T1").unwrap(),
        "T1"
    );
    assert_eq!(db.user_id_for_token("T1").unwrap(), 0);
    assert!(matches!(
        handle_change_password_with(&mut db, "alice", "p1", "p3", SALT, "T2"),
        Err(Error::InvalidPassword)
    ));
    assert!(matches!(
        handle_change_password_with(&mut db, "bob", "p1", "p3", SALT, "T2"),
        Err(Error::InvalidUsername(_))
    ));
    assert!(matches!(
        handle_change_password_with(&mut db, "alice", "p2", "p3", "short", "T2"),
        Err(Error::Argon2(_))
    ));
    assert_eq!(db.user_id_for_token("T1").unwrap(), 0);
    assert_eq!(handle_login_with(&mut db, "alice", "p2", "T3").unwrap(), "T3");
}

#[test]
fn a_crate_file_lies_under_its_name_and_version() {
    let version = Version::parse("1.0.0-rc.1").unwrap();
    assert_eq!(download_path("foo_bar", &version), "foo_bar/1.0.0-rc.1/download");
}

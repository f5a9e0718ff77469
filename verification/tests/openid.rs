use ktra::config::OpenIdConfig;
use ktra::db_manager::DbManager;
use ktra::error::Error;
use ktra::openid::{
    check_user_authorization, get_or_create_user, get_or_create_user_with, give_token, TokenReply,
};

const OPENID_SALT: &str = "abcdefghijklmnopqrstuvwxyz012345";

fn names(list: &[&str]) -> Option<Vec<String>> {
    Some(list.iter().map(|n| n.to_string()).collect())
}

fn restricted(groups: Option<Vec<String>>, users: Option<Vec<String>>) -> OpenIdConfig {
    let mut config = OpenIdConfig::default();
    config.gitlab_authorized_groups = groups;
    config.gitlab_authorized_users = users;
    config
}

fn nick(name: &str) -> Option<String> {
    Some(name.to_owned())
}

#[test]
fn everybody_is_let_in_where_nobody_is_named() {
    for config in [
        restricted(None, None),
        restricted(names(&[]), None),
        restricted(None, names(&[])),
        restricted(names(&[]), names(&[])),
    ] {
        assert!(check_user_authorization(&config, &None, &None));
        assert!(check_user_authorization(&config, &names(&["g"]), &nick("n")));
    }
}

#[test]
fn a_member_of_a_named_group_is_let_in() {
    let config = restricted(names(&["admins", "devs"]), None);
    assert!(check_user_authorization(&config, &names(&["guests", "devs"]), &nick("n")));
    assert!(check_user_authorization(&config, &names(&["admins"]), &None));
    assert!(!check_user_authorization(&config, &names(&["guests"]), &nick("admins")));
    assert!(!check_user_authorization(&config, &names(&[]), &nick("n")));
    assert!(!check_user_authorization(&config, &None, &nick("n")));
}

#[test]
fn a_named_user_is_let_in() {
    let config = restricted(None, names(&["alice", "bob"]));
    assert!(check_user_authorization(&config, &None, &nick("bob")));
    assert!(check_user_authorization(&config, &names(&["guests"]), &nick("alice")));
    assert!(!check_user_authorization(&config, &names(&["alice"]), &nick("carol")));
    assert!(!check_user_authorization(&config, &None, &None));
    assert!(!check_user_authorization(&config, &None, &nick("Alice")));
}

#[test]
fn a_user_without_a_nickname_counts_as_the_empty_nickname() {
    let config = restricted(None, names(&["", "bob"]));
    assert!(check_user_authorization(&config, &None, &None));
    assert!(check_user_authorization(&config, &None, &nick("")));
}

#[test]
fn a_group_or_a_name_is_enough() {
    let config = restricted(names(&["devs"]), names(&["alice"]));
    assert!(check_user_authorization(&config, &names(&["devs"]), &nick("zed")));
    assert!(check_user_authorization(&config, &names(&["ops"]), &nick("alice")));
    assert!(!check_user_authorization(&config, &names(&["ops"]), &nick("zed")));
    // an empty list of groups beside named users restricts to the users
    let config = restricted(names(&[]), names(&["alice"]));
    assert!(!check_user_authorization(&config, &names(&["devs"]), &nick("zed")));
}

#[test]
fn a_user_of_an_issuer_is_created_once() {
    let mut db = DbManager::new("ktra-secure-auth:".to_owned());
    let user = get_or_create_user_with(&mut db, "gitlab.example.com", "alice", OPENID_SALT).unwrap();
    assert_eq!(user.id, 0);
    assert_eq!(user.login, "gitlab.example.com:alice");
    assert_eq!(user.name.as_deref(), Some("alice"));
    assert_eq!(db.users().len(), 1);
    assert_eq!(
        db.verify_password(0, "passphrases are unsupported with openid feature").unwrap(),
        true
    );
    let again = get_or_create_user(&mut db, "gitlab.example.com", "alice").unwrap();
    assert_eq!(again.id, 0);
    assert_eq!(db.users().len(), 1);
    // without a token the next user gets the same id: ids follow the tokens
    let other = get_or_create_user(&mut db, "gitlab.example.com", "bob").unwrap();
    assert_eq!(other.id, 0);
    assert_eq!(db.users().len(), 2);
}

#[test]
fn a_user_of_an_issuer_gets_the_id_after_the_last_token() {
    let mut db = DbManager::new("p:".to_owned());
    db.set_token(4, "T4");
    let user = get_or_create_user_with(&mut db, "host", "nick", OPENID_SALT).unwrap();
    assert_eq!(user.id, 5);
    assert!(matches!(
        get_or_create_user_with(&mut db, "host", "other", "short"),
        Err(Error::Argon2(_))
    ));
    assert_eq!(db.users().len(), 1);
}

#[test]
fn a_user_keeps_the_token_they_have() {
    let mut db = DbManager::new("p:".to_owned());
    let user = get_or_create_user_with(&mut db, "host", "nick", OPENID_SALT).unwrap();
    match give_token(&mut db, &user, false, "first") {
        TokenReply::New { username, new_token, revoked_token } => {
            assert_eq!(username, "host:nick");
            assert_eq!(new_token, "first");
            assert_eq!(revoked_token, None);
        }
        other => panic!("unexpected {:?}", other),
    }
    match give_token(&mut db, &user, false, "second") {
        TokenReply::Existing { username, existing_token } => {
            assert_eq!(username, "host:nick");
            assert_eq!(existing_token, "first");
        }
        other => panic!("unexpected {:?}", other),
    }
    assert_eq!(db.user_id_for_token("first").unwrap(), user.id);
    assert!(db.user_id_for_token("second").is_err());
}

#[test]
fn a_token_is_replaced_on_request() {
    let mut db = DbManager::new("p:".to_owned());
    let user = get_or_create_user_with(&mut db, "host", "nick", OPENID_SALT).unwrap();
    give_token(&mut db, &user, false, "first");
    match give_token(&mut db, &user, true, "second") {
        TokenReply::New { username, new_token, revoked_token } => {
            assert_eq!(username, "host:nick");
            assert_eq!(new_token, "second");
            assert_eq!(revoked_token.as_deref(), Some("first"));
        }
        other => panic!("unexpected {:?}", other),
    }
    assert_eq!(db.user_id_for_token("second").unwrap(), user.id);
    assert!(db.user_id_for_token("first").is_err());
}

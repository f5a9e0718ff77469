use ktra::config::{Config, CrateFilesConfig, DbConfig, IndexConfig, OpenIdConfig, ServerConfig};

#[test]
fn the_index_lives_in_index_on_main() {
    assert_eq!(IndexConfig::local_path_default(), "index");
    assert_eq!(IndexConfig::branch_default(), "main");
    assert_eq!(IndexConfig::name_default(), "ktra-driver");
    let config = IndexConfig::default();
    assert_eq!(config.remote_url, "");
    assert_eq!(config.local_path, "index");
    assert_eq!(config.branch, "main");
    assert_eq!(config.name, "ktra-driver");
    assert_eq!(config.email, None);
    assert_eq!(config.https_username, None);
    assert_eq!(config.https_password, None);
    assert_eq!(config.ssh_username, None);
    assert_eq!(config.ssh_pubkey_path, None);
    assert_eq!(config.ssh_privkey_path, None);
    assert_eq!(config.ssh_key_passphrase, None);
}

#[test]
fn crate_files_are_kept_in_crates_and_served_under_dl() {
    assert_eq!(CrateFilesConfig::dl_dir_path_default(), "crates");
    assert_eq!(CrateFilesConfig::cache_dir_path_default(), "crates_io_caches");
    assert_eq!(CrateFilesConfig::dl_path_default(), vec!["dl".to_owned()]);
    let config = CrateFilesConfig::default();
    assert_eq!(config.dl_dir_path, "crates");
    assert_eq!(config.cache_dir_path, "crates_io_caches");
    assert_eq!(config.dl_path, vec!["dl".to_owned()]);
}

#[test]
fn the_server_listens_on_every_address_at_port_8000() {
    assert_eq!(ServerConfig::address_default(), [0, 0, 0, 0]);
    assert_eq!(ServerConfig::port_default(), 8000);
    let config = ServerConfig::default();
    assert_eq!(config.address, [0, 0, 0, 0]);
    assert_eq!(config.port, 8000);
}

#[test]
fn logins_begin_with_the_prefix() {
    assert_eq!(DbConfig::login_prefix_default(), "ktra-secure-auth:");
    assert_eq!(DbConfig::db_dir_path_default(), "db");
    assert_eq!(DbConfig::redis_url_default(), "redis://localhost");
    assert_eq!(DbConfig::mongodb_url_default(), "mongodb://localhost:27017");
    let config = DbConfig::default();
    assert_eq!(config.login_prefix, "ktra-secure-auth:");
    assert_eq!(config.db_dir_path, "db");
    assert_eq!(config.redis_url, "redis://localhost");
    assert_eq!(config.mongodb_url, "mongodb://localhost:27017");
}

#[test]
fn no_issuer_is_configured_by_default() {
    let config = OpenIdConfig::default();
    assert_eq!(config.issuer_url, "");
    assert_eq!(config.redirect_url, "");
    assert_eq!(config.client_id, "");
    assert_eq!(config.client_secret, "");
    assert!(config.additional_scopes.is_empty());
    assert_eq!(config.gitlab_authorized_groups, None);
    assert_eq!(config.gitlab_authorized_users, None);
}

#[test]
fn the_settings_default_to_the_defaults_of_their_parts() {
    let config = Config::default();
    assert_eq!(config.crate_files_config.dl_dir_path, "crates");
    assert_eq!(config.crate_files_config.dl_path, vec!["dl".to_owned()]);
    assert_eq!(config.db_config.login_prefix, "ktra-secure-auth:");
    assert_eq!(config.index_config.branch, "main");
    assert_eq!(config.index_config.name, "ktra-driver");
    assert_eq!(config.server_config.port, 8000);
    assert_eq!(config.server_config.address, [0, 0, 0, 0]);
    assert!(config.openid_config.additional_scopes.is_empty());
}

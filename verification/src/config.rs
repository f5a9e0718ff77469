//! The settings of the registry, and what each is where it is not set.

use vstd::prelude::*;

verus! {

/// Where the index lives and how the registry signs and sends its commits.
#[derive(Debug)]
pub struct IndexConfig {
    pub remote_url: String,
    pub local_path: String,
    pub branch: String,
    pub https_username: Option<String>,
    pub https_password: Option<String>,
    pub ssh_username: Option<String>,
    pub ssh_pubkey_path: Option<String>,
    pub ssh_privkey_path: Option<String>,
    pub ssh_key_passphrase: Option<String>,
    pub name: String,
    pub email: Option<String>,
}

impl IndexConfig {
    /// The directory of the local clone of the index: `index`.
    pub fn local_path_default() -> (path: String)
        ensures
            path@ == "index"@,
    {
        "index".to_owned()
    }

    /// The branch of the index: `main`.
    pub fn branch_default() -> (branch: String)
        ensures
            branch@ == "main"@,
    {
        "main".to_owned()
    }

    /// The name under which the registry commits: `ktra-driver`.
    pub fn name_default() -> (name: String)
        ensures
            name@ == "ktra-driver"@,
    {
        "ktra-driver".to_owned()
    }
}

/// `config` sets nothing: the index is cloned into `index` and tracked on
/// `main`, commits are made as `ktra-driver`, and no remote, no credentials
/// and no e-mail address are known.
pub open spec fn index_unset(config: IndexConfig) -> bool {
    &&& config.remote_url@.len() == 0
    &&& config.local_path@ == "index"@
    &&& config.branch@ == "main"@
    &&& config.https_username is None
    &&& config.https_password is None
    &&& config.ssh_username is None
    &&& config.ssh_pubkey_path is None
    &&& config.ssh_privkey_path is None
    &&& config.ssh_key_passphrase is None
    &&& config.name@ == "ktra-driver"@
    &&& config.email is None
}

impl Default for IndexConfig {
    fn default() -> (config: IndexConfig)
        ensures
            index_unset(config),
    {
        IndexConfig {
            remote_url: String::new(),
            local_path: IndexConfig::local_path_default(),
            branch: IndexConfig::branch_default(),
            https_username: None,
            https_password: None,
            ssh_username: None,
            ssh_pubkey_path: None,
            ssh_privkey_path: None,
            ssh_key_passphrase: None,
            name: IndexConfig::name_default(),
            email: None,
        }
    }
}

/// Where the crate files are kept and under which path they are served.
#[derive(Debug)]
pub struct CrateFilesConfig {
    pub dl_dir_path: String,
    pub cache_dir_path: String,
    pub dl_path: Vec<String>,
}

impl CrateFilesConfig {
    /// The directory of the crate files: `crates`.
    pub fn dl_dir_path_default() -> (path: String)
        ensures
            path@ == "crates"@,
    {
        "crates".to_owned()
    }

    /// The directory of the crate files mirrored from crates.io:
    /// `crates_io_caches`.
    pub fn cache_dir_path_default() -> (path: String)
        ensures
            path@ == "crates_io_caches"@,
    {
        "crates_io_caches".to_owned()
    }

    /// The path under which crate files are served: the one segment `dl`.
    pub fn dl_path_default() -> (path: Vec<String>)
        ensures
            path@.len() == 1,
            path@[0]@ == "dl"@,
    {
        let mut path: Vec<String> = Vec::new();
        path.push("dl".to_owned());
        path
    }
}

/// `config` sets nothing: crate files are kept in `crates`, mirrored ones
/// in `crates_io_caches`, and they are served under `dl`.
pub open spec fn crate_files_unset(config: CrateFilesConfig) -> bool {
    &&& config.dl_dir_path@ == "crates"@
    &&& config.cache_dir_path@ == "crates_io_caches"@
    &&& config.dl_path@.len() == 1
    &&& config.dl_path@[0]@ == "dl"@
}

impl Default for CrateFilesConfig {
    fn default() -> (config: CrateFilesConfig)
        ensures
            crate_files_unset(config),
    {
        CrateFilesConfig {
            dl_dir_path: CrateFilesConfig::dl_dir_path_default(),
            cache_dir_path: CrateFilesConfig::cache_dir_path_default(),
            dl_path: CrateFilesConfig::dl_path_default(),
        }
    }
}

/// The address and the port on which the registry listens.
#[derive(Clone, Copy, Debug)]
pub struct ServerConfig {
    pub address: [u8; 4],
    pub port: u16,
}

impl ServerConfig {
    /// The address on which the registry listens: every address, `0.0.0.0`.
    pub fn address_default() -> (address: [u8; 4])
        ensures
            address@ == seq![0u8, 0u8, 0u8, 0u8],
    {
        let address: [u8; 4] = [0, 0, 0, 0];
        assert(address@ =~= seq![0u8, 0u8, 0u8, 0u8]);
        address
    }

    /// The port on which the registry listens: 8000.
    pub fn port_default() -> (port: u16)
        ensures
            port == 8000,
    {
        8000
    }
}

/// `config` sets nothing: the registry listens on every address, at port
/// 8000.
pub open spec fn server_unset(config: ServerConfig) -> bool {
    &&& config.address@ == seq![0u8, 0u8, 0u8, 0u8]
    &&& config.port == 8000
}

impl Default for ServerConfig {
    fn default() -> (config: ServerConfig)
        ensures
            server_unset(config),
    {
        ServerConfig { address: ServerConfig::address_default(), port: ServerConfig::port_default() }
    }
}

/// How the registry reaches an OpenID Connect issuer, and who may log in
/// through it.
#[derive(Debug)]
pub struct OpenIdConfig {
    pub issuer_url: String,
    pub redirect_url: String,
    pub client_id: String,
    pub client_secret: String,
    pub additional_scopes: Vec<String>,
    pub gitlab_authorized_groups: Option<Vec<String>>,
    pub gitlab_authorized_users: Option<Vec<String>>,
}

/// `config` sets nothing: no issuer is known, no scope is asked for beyond
/// the usual ones, and no group and no user is named.
pub open spec fn openid_unset(config: OpenIdConfig) -> bool {
    &&& config.issuer_url@.len() == 0
    &&& config.redirect_url@.len() == 0
    &&& config.client_id@.len() == 0
    &&& config.client_secret@.len() == 0
    &&& config.additional_scopes@.len() == 0
    &&& config.gitlab_authorized_groups is None
    &&& config.gitlab_authorized_users is None
}

impl Default for OpenIdConfig {
    fn default() -> (config: OpenIdConfig)
        ensures
            openid_unset(config),
    {
        OpenIdConfig {
            issuer_url: String::new(),
            redirect_url: String::new(),
            client_id: String::new(),
            client_secret: String::new(),
            additional_scopes: Vec::new(),
            gitlab_authorized_groups: None,
            gitlab_authorized_users: None,
        }
    }
}

/// Where the store keeps its state, and how it forms the logins of the
/// users who register by name.
#[derive(Debug)]
pub struct DbConfig {
    pub login_prefix: String,
    pub db_dir_path: String,
    pub redis_url: String,
    pub mongodb_url: String,
}

impl DbConfig {
    /// The prefix of the logins of the users who register by name:
    /// `ktra-secure-auth:`.
    pub fn login_prefix_default() -> (prefix: String)
        ensures
            prefix@ == "ktra-secure-auth:"@,
    {
        "ktra-secure-auth:".to_owned()
    }

    /// The directory of an embedded database: `db`.
    pub fn db_dir_path_default() -> (path: String)
        ensures
            path@ == "db"@,
    {
        "db".to_owned()
    }

    /// The address of a Redis server: `redis://localhost`.
    pub fn redis_url_default() -> (url: String)
        ensures
            url@ == "redis://localhost"@,
    {
        "redis://localhost".to_owned()
    }

    /// The address of a MongoDB server: `mongodb://localhost:27017`.
    pub fn mongodb_url_default() -> (url: String)
        ensures
            url@ == "mongodb://localhost:27017"@,
    {
        "mongodb://localhost:27017".to_owned()
    }
}

/// `config` sets nothing: logins begin with `ktra-secure-auth:`, an
/// embedded database lies in `db`, and a database server is looked for on
/// this machine.
pub open spec fn db_unset(config: DbConfig) -> bool {
    &&& config.login_prefix@ == "ktra-secure-auth:"@
    &&& config.db_dir_path@ == "db"@
    &&& config.redis_url@ == "redis://localhost"@
    &&& config.mongodb_url@ == "mongodb://localhost:27017"@
}

impl Default for DbConfig {
    fn default() -> (config: DbConfig)
        ensures
            db_unset(config),
    {
        DbConfig {
            login_prefix: DbConfig::login_prefix_default(),
            db_dir_path: DbConfig::db_dir_path_default(),
            redis_url: DbConfig::redis_url_default(),
            mongodb_url: DbConfig::mongodb_url_default(),
        }
    }
}

/// All the settings of the registry.
#[derive(Debug)]
pub struct Config {
    pub crate_files_config: CrateFilesConfig,
    pub db_config: DbConfig,
    pub index_config: IndexConfig,
    pub server_config: ServerConfig,
    pub openid_config: OpenIdConfig,
}

impl Default for Config {
    fn default() -> (config: Config)
        ensures
            crate_files_unset(config.crate_files_config),
            db_unset(config.db_config),
            index_unset(config.index_config),
            server_unset(config.server_config),
            openid_unset(config.openid_config),
    {
        Config {
            crate_files_config: CrateFilesConfig::default(),
            db_config: DbConfig::default(),
            index_config: IndexConfig::default(),
            server_config: ServerConfig::default(),
            openid_config: OpenIdConfig::default(),
        }
    }
}

} // verus!

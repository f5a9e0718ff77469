//! Core of a small Cargo-compatible package registry: crate-name rules,
//! the publish frame, the metadata store, the index file and the rules
//! that decide who may publish, yank and own a crate.

pub mod apis;
pub mod config;
pub mod db_manager;
pub mod error;
pub mod frame;
pub mod index_manager;
pub mod mirroring;
pub mod models;
pub mod names;
pub mod openid;
pub mod password;
pub mod schema;
pub mod text;
pub mod utils;
pub mod version;

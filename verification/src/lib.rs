//! Credential vault engine: key derivation, authenticated encryption of
//! credential data, the project catalog and the two-tier locking protocol.

pub mod app_settings;
pub mod cli;
pub mod codec;
pub mod config;
pub mod crypto;
pub mod envmap;
pub mod envops;
pub mod install;
pub mod master_lock;
pub mod store;
pub mod styles;
pub mod text;
pub mod ui;
pub mod update_checker;

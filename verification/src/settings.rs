//! The server's configuration parameters.
use crate::db::DatabaseSettings;
use vstd::prelude::*;

verus! {

/// Config parameters pertaining to server / network
#[derive(Clone, Debug)]
pub struct ServerSettings {
    pub listen_addr: String,
    pub listen_port: u16,
    pub name: String,
}

/// Container for all config parameters
#[derive(Clone, Debug)]
pub struct Settings {
    pub server: ServerSettings,
    pub db: DatabaseSettings,
}

} // verus!

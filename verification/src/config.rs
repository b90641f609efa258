//! The bridge's startup settings, as plain data.  Loading them from a
//! configuration file, and every use of them to open sockets or sessions,
//! happens outside the library; the engine itself only ever sees the two
//! topic prefixes.

use vstd::prelude::*;

verus! {

/// The hub connection's settings: where to reach it, the credentials,
/// and the two topic prefixes the engine publishes under.
pub struct HAConf {
    pub address: String,
    pub port: u16,
    pub username: String,
    pub password: String,
    pub ponder_prefix: String,
    pub discovery_prefix: String,
}

/// The bridge's settings: the hub connection, the TLS material for the
/// device-facing listener, and the listener ports.
pub struct Conf {
    pub home_assistant: HAConf,
    pub ca_cert_file: String,
    pub ca_key_file: String,
    pub https_port: u16,
    pub mqtts_port: u16,
    pub mqtt_port: u16,
    pub hostname: String,
}

} // verus!

//! Where the gateway listens: the address it falls back to, and how the
//! stored configuration is resolved against it.

use vstd::prelude::*;

verus! {

/// The port that the gateway listens on where none is configured.
pub const DEFAULT_PORT: u16 = 8766;

/// The address that the gateway listens on.
#[derive(Debug)]
pub struct ApiServerConfig {
    /// The host, as the text of an IP address.
    pub host: String,
    pub port: u16,
}

impl Default for ApiServerConfig {
    /// The loopback address and the default port.
    fn default() -> (config: ApiServerConfig)
        ensures
            config.host@ == "127.0.0.1"@,
            config.port == DEFAULT_PORT,
    {
        ApiServerConfig { host: "127.0.0.1".to_owned(), port: DEFAULT_PORT }
    }
}

/// The port to listen on for a stored value: the value itself where it is a
/// port number above zero, else the default.
pub open spec fn spec_resolve_port(stored: i32) -> u16 {
    if 0 < stored <= 65535 {
        stored as u16
    } else {
        DEFAULT_PORT
    }
}

/// The gateway's bootstrap.
pub struct ApiServer {}

impl ApiServer {
    /// Resolves the stored port against the default.
    pub fn resolve_port(stored: i32) -> (port: u16)
        ensures
            port == spec_resolve_port(stored),
    {
        if 0 < stored && stored <= 65535 {
            stored as u16
        } else {
            DEFAULT_PORT
        }
    }

    /// Resolves the stored configuration. `host` is the stored host where it
    /// is the text of an IP address, and nothing where it is absent or is no
    /// address; `stored_port` is the stored port.
    pub fn resolve_config(host: Option<String>, stored_port: i32) -> (config: ApiServerConfig)
        ensures
            config.port == spec_resolve_port(stored_port),
            config.host@ == match host {
                Some(text) => text@,
                None => "127.0.0.1"@,
            },
    {
        let fallback = ApiServerConfig::default();
        let host = match host {
            Some(text) => text,
            None => fallback.host,
        };
        ApiServerConfig { host, port: ApiServer::resolve_port(stored_port) }
    }
}

} // verus!

//! Server configuration and its defaults.
use vstd::prelude::*;

verus! {

#[derive(Debug, Clone)]
pub struct Config {
    pub server: ServerConfig,
    pub sip: SipConfig,
    pub database: DatabaseConfig,
}

#[derive(Debug, Clone)]
pub struct ServerConfig {
    pub host: String,
    pub port: u16,
}

#[derive(Debug, Clone)]
pub struct SipConfig {
    pub bind_address: String,
    pub bind_port: u16,
    pub domain: String,
}

#[derive(Debug, Clone)]
pub struct DatabaseConfig {
    pub url: String,
}

impl Default for Config {
    /// Listen on every interface: HTTP on 8080, SIP on 5060 for the
    /// `localhost` domain, with the local `yakyak` Postgres database.
    fn default() -> (r: Self)
        ensures
            r.server.host@ == "0.0.0.0"@,
            r.server.port == 8080,
            r.sip.bind_address@ == "0.0.0.0"@,
            r.sip.bind_port == 5060,
            r.sip.domain@ == "localhost"@,
            r.database.url@ == "postgres://postgres@localhost/yakyak"@,
    {
        Config {
            server: ServerConfig { host: String::from_str("0.0.0.0"), port: 8080 },
            sip: SipConfig {
                bind_address: String::from_str("0.0.0.0"),
                bind_port: 5060,
                domain: String::from_str("localhost"),
            },
            database: DatabaseConfig { url: String::from_str("postgres://postgres@localhost/yakyak") },
        }
    }
}

} // verus!

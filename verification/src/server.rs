//! Service settings and the protocol version.

use vstd::prelude::*;

verus! {

/// The version of the print service and its protocol.
pub const HE_VERSION: &'static str = "1.1.1";

/// Where the service listens, and how many jobs it prints at once.
#[derive(Debug, Clone)]
pub struct ServerConfig {
    pub host: String,
    pub http_port: u16,
    pub max_concurrent: usize,
}

impl Default for ServerConfig {
    /// `127.0.0.1:18000`, four jobs at once.
    fn default() -> (r: ServerConfig)
        ensures
            r.host@ == "127.0.0.1"@,
            r.http_port == 18000,
            r.max_concurrent == 4,
    {
        ServerConfig { host: "127.0.0.1".to_owned(), http_port: 18000, max_concurrent: 4 }
    }
}

} // verus!

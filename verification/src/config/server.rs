use vstd::prelude::*;

use crate::text::{concat_str, dec, u64_to_decimal};

verus! {

/// Settings of the HTTP listener.
pub struct ServerConfig {
    pub host: String,
    pub port: u16,
    pub request_timeout_secs: u64,
    pub shutdown_timeout_secs: u64,
}

impl ServerConfig {
    /// The listen address, `host:port`.
    pub fn addr(&self) -> (r: String)
        ensures
            r@ == self.host@ + seq![':'] + dec(self.port as nat),
    {
        let with_colon = concat_str(self.host.as_str(), ":");
        let port = u64_to_decimal(self.port as u64);
        proof {
            reveal_strlit(":");
        }
        concat_str(with_colon.as_str(), port.as_str())
    }
}

} // verus!

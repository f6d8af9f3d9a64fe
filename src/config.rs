//! The server's configuration, as the loader hands it over.

use vstd::prelude::*;

verus! {

/// Where the TLS certificate chain and private key are kept.
#[derive(Debug, Clone)]
pub struct ServerConfig {
    pub tls_cert: String,
    pub tls_key: String,
}

#[derive(Debug, Clone)]
pub struct Config {
    pub server: ServerConfig,
}

} // verus!

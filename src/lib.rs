//! Core of a bandwidth measurement server: request routing and transfer
//! bookkeeping, host address collection for the resolver, certificate
//! block extraction, and the socket options used by listeners and
//! outbound connections.

pub mod certs;
pub mod config;
pub mod dns;
pub mod server;
pub mod tcp;
pub mod udp;

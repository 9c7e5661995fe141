//! How the embedder wants STARTTLS set up. The library itself never
//! transacts TLS: it only reads whether an upgrade should be offered, and
//! hands the certificate paths back to the embedder's TLS backend.

use vstd::prelude::*;

verus! {

/// `SslConfig` is used to configure the STARTTLS configuration of the server
#[derive(Debug)]
pub enum SslConfig {
    /// Do not support STARTTLS
    Disabled,
    /// Use a self-signed certificate for STARTTLS
    SelfSigned {
        /// Certificate path
        cert_path: String,
        /// Path to key file
        key_path: String,
    },
    /// Use a certificate from an authority
    Trusted {
        /// Certificate path
        cert_path: String,
        /// Key file path
        key_path: String,
        /// Path to CA bundle
        chain_path: String,
    },
}

impl SslConfig {
    /// Should the session offer the STARTTLS extension?
    pub fn enables_tls(&self) -> (r: bool)
        ensures
            r == !(self is Disabled),
    {
        match self {
            SslConfig::Disabled => false,
            _ => true,
        }
    }
}

} // verus!

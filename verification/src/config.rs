//! Configuration shapes, loaded once at startup from a file by the
//! surrounding program; missing or malformed configuration is fatal
//! there, before any value of these types exists.
use crate::util::Secret;
use vstd::prelude::*;

verus! {

/// Settings of the panic route.
pub struct ApiConfiguration {
    /// The static shared secret that authorizes the panic operation.
    pub panic_key: Secret,
}

/// Settings of the identity provider connection.
pub struct OidcConfiguration {
    /// Issuer URL used for provider metadata discovery.
    pub url: String,
    /// Client identifier registered at the provider.
    pub client_id: String,
    /// Groups whose members may use the identity-checked routes.
    pub authorized_groups: Vec<String>,
}

/// Settings of the listener.
pub struct ServerConfiguration {
    /// Address to serve on, as `host:port`.
    pub addr: String,
}

/// The whole configuration surface.
pub struct Configuration {
    pub api: ApiConfiguration,
    pub oidc: OidcConfiguration,
    pub server: ServerConfiguration,
}

} // verus!

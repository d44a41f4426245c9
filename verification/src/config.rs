use vstd::prelude::*;

verus! {

/// Where the HTTP front listens and which database it talks to.
#[derive(Clone, Debug)]
pub struct ServerConfig {
    pub host: String,
    pub port: u16,
    pub database_url: String,
}

/// Display name and base URL of the blog.
#[derive(Clone, Debug)]
pub struct BlogConfig {
    pub name: String,
    pub url: String,
}

/// The token-signing secret.
#[derive(Clone, Debug)]
pub struct SecretConfig {
    pub secret: String,
}

/// Process-wide configuration, loaded once at startup and then
/// only read.
#[derive(Clone, Debug)]
pub struct Config {
    pub server: ServerConfig,
    pub blog: BlogConfig,
    pub secret: SecretConfig,
}

} // verus!

//! Server settings and the state shared by the request handlers.

use crate::services::provider::Clients;
use std::sync::Arc;
use vstd::prelude::*;

verus! {

/// The state shared by all request handlers: the provider registry.
pub struct AppState<C> {
    pub clients: Arc<Clients<C>>,
}

impl<C> Clone for AppState<C> {
    fn clone(&self) -> (r: Self)
        ensures
            r.clients@ == self.clients@,
    {
        AppState { clients: self.clients.clone() }
    }
}

/// Server settings, read from the environment variables `app_host` and
/// `app_port`.
pub struct Config {
    pub host: String,
    pub port: u16,
}

impl Config {
    /// The host the server binds to when none is configured.
    pub fn default_host() -> (r: String)
        ensures
            r@ == "127.0.0.1"@,
    {
        String::from_str("127.0.0.1")
    }

    /// The port the server listens on when none is configured.
    pub fn default_port() -> (r: u16)
        ensures
            r == 8080,
    {
        8080
    }
}

} // verus!

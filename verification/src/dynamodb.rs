//! Application configuration: a single optional custom endpoint, read from
//! the process environment at startup by the surrounding program and handed
//! in as a plain value.

use vstd::prelude::*;

verus! {

/// Application configuration.
#[derive(Debug, Clone)]
pub struct Config {
    /// Optional custom endpoint for the storage service.
    pub endpoint: Option<String>,
}

/// Constructs the configuration from the endpoint value the surrounding
/// program read from its environment.
pub fn load_config(endpoint: Option<String>) -> (c: Config)
    ensures
        c.endpoint == endpoint,
{
    Config { endpoint: endpoint }
}

} // verus!

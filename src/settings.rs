//! The configuration that endpoints are built from.

use crate::secret_validation::SecretFormat;
use std::collections::HashMap;
use vstd::prelude::*;

verus! {

/// The whole configuration: the server, the hooks around every endpoint, and
/// the endpoints by name.
#[derive(Clone, Debug)]
pub struct Settings {
    pub server: ServerSettings,
    pub hooks: Option<Hooks>,
    pub endpoints: HashMap<String, EndpointSettings>,
}

#[derive(Clone, Debug)]
pub struct ServerSettings {
    pub address: Option<String>,
}

/// Commands to run before an action, after it succeeds, and after it fails.
#[derive(Clone, Debug)]
pub struct Hooks {
    pub pre_action: Option<String>,
    pub post_action: Option<String>,
    pub err_action: Option<String>,
}

#[derive(Clone, Debug)]
pub struct EndpointSettings {
    pub path: String,
    pub action: String,
    pub hooks: Option<Hooks>,
    pub allow_parallel: bool,
    pub run_detached: bool,
    pub secret: Option<SecretSettings>,
}

#[derive(Clone, Debug)]
pub struct SecretSettings {
    pub value: String,
    pub format: SecretFormat,
}

} // verus!

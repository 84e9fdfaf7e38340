//! Runtime configuration: where the local inference endpoint lives.

use vstd::prelude::*;

verus! {

/// Default Okapi endpoint: loopback only, never a remote host.
pub const DEFAULT_OKAPI_ENDPOINT: &'static str = "http://127.0.0.1:11435/v1";

/// Environment variable that overrides the Okapi endpoint.
pub const ENV_OKAPI_ENDPOINT: &'static str = "RUSSELL_OKAPI_ENDPOINT";

/// Runtime configuration.
#[derive(Debug, Clone)]
pub struct RuntimeConfig {
    /// Okapi inference endpoint URL.
    pub okapi_endpoint: String,
}

impl RuntimeConfig {
    /// The configuration given the value of `RUSSELL_OKAPI_ENDPOINT`
    /// (`None` when unset or unreadable): that value, else the default.
    pub fn from_env_value(okapi_endpoint: Option<String>) -> (r: Self)
        ensures
            match okapi_endpoint {
                Some(v) => r.okapi_endpoint@ == v@,
                None => r.okapi_endpoint@ == DEFAULT_OKAPI_ENDPOINT@,
            },
    {
        match okapi_endpoint {
            Some(v) => RuntimeConfig { okapi_endpoint: v },
            None => RuntimeConfig::default(),
        }
    }
}

impl Default for RuntimeConfig {
    /// The loopback default endpoint.
    fn default() -> (r: Self)
        ensures
            r.okapi_endpoint@ == DEFAULT_OKAPI_ENDPOINT@,
    {
        RuntimeConfig { okapi_endpoint: DEFAULT_OKAPI_ENDPOINT.to_owned() }
    }
}

} // verus!

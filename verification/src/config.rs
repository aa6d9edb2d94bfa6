//! Network and client configuration.
use vstd::prelude::*;

verus! {

/// The RPC endpoint of the network the protocol runs on.
pub struct NetworkConfig {
    pub rpc_url: String,
}

impl NetworkConfig {
    /// The Arch network's public RPC endpoint.
    pub fn arch_network() -> (r: Self)
        ensures
            r.rpc_url@ == "https://rpc.arch.network"@,
    {
        Self { rpc_url: "https://rpc.arch.network".to_string() }
    }
}

/// Client configuration: the network endpoint and a feature switch.
pub struct Config {
    pub network_endpoint: String,
    pub feature_toggle: bool,
}

impl Config {
    /// The default configuration: the Arch network endpoint, feature on.
    pub fn new() -> (r: Self)
        ensures
            r.network_endpoint@ == "https://rpc.arch.network"@,
            r.feature_toggle,
    {
        Self { network_endpoint: "https://rpc.arch.network".to_string(), feature_toggle: true }
    }
}

} // verus!

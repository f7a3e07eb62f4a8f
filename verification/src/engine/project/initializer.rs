//! A new project: its manifest from the given values and the defaults, and
//! for a server project the default server configuration.
use vstd::prelude::*;
use crate::engine::io::project::manifest::{ConduitConfig, InstanceType};
use crate::engine::io::server::config::{is_default_server_config, ServerConfig};

verus! {

pub struct InitParams {
    pub name: Option<String>,
    pub instance_type: Option<InstanceType>,
    pub mc_version: Option<String>,
    pub loader: Option<String>,
}

/// The manifest of a new project, each field the given value or else the
/// default, and the server configuration to write beside it when the
/// project is declared a server.
pub fn init_project(params: InitParams) -> (r: (ConduitConfig, Option<ServerConfig>))
    ensures
        r.0.wf(),
        r.0.name@ == (match params.name { Some(n) => n@, None => "conduit-project"@ }),
        r.0.instance_type == (match params.instance_type { Some(t) => t, None => InstanceType::Server }),
        r.0.mc_version@ == (match params.mc_version { Some(v) => v@, None => "1.21.1"@ }),
        r.0.loader@ == (match params.loader { Some(l) => l@, None => "neoforge@latest"@ }),
        r.0.mods.entries().len() == 0,
        r.1 is Some <==> params.instance_type == Some(InstanceType::Server),
        r.1 matches Some(c) ==> is_default_server_config(c),
{
    let mut config = ConduitConfig::default();
    let InitParams { name, instance_type, mc_version, loader } = params;
    if let Some(n) = name {
        config.name = n;
    }
    if let Some(t) = instance_type {
        config.instance_type = t;
    }
    if let Some(v) = mc_version {
        config.mc_version = v;
    }
    if let Some(l) = loader {
        config.loader = l;
    }
    let server = match instance_type {
        Some(InstanceType::Server) => Some(ServerConfig::default()),
        _ => None,
    };
    (config, server)
}

} // verus!

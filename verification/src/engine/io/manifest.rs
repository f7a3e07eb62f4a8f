//! The manifest as the project's first layout writes it.
use vstd::prelude::*;
use crate::strmap::StrMap;

verus! {

#[derive(Clone, Copy, Debug, PartialEq, Eq, Structural)]
pub enum InstanceType {
    Server,
    Client,
}

impl InstanceType {
    /// The name the type is shown and written under.
    pub fn to_string(&self) -> (s: String)
        ensures
            s@ == (match self {
                InstanceType::Server => "server"@,
                InstanceType::Client => "client"@,
            }),
    {
        match self {
            InstanceType::Server => "server".to_string(),
            InstanceType::Client => "client".to_string(),
        }
    }
}

pub struct ConduitConfig {
    pub name: String,
    pub instance_type: InstanceType,
    pub mc_version: String,
    pub loader: String,
    pub mods: StrMap<String>,
}

} // verus!

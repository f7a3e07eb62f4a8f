//! `conduit.json`: what the project is and which mods it asks for.
use vstd::prelude::*;
use crate::strmap::StrMap;

verus! {

#[derive(Clone, Copy, Debug, PartialEq, Eq, Structural)]
pub enum InstanceType {
    Server,
    Client,
}

impl InstanceType {
    /// The name the type is shown and written under.
    pub fn to_string(&self) -> (s: String)
        ensures
            s@ == (match self {
                InstanceType::Server => "server"@,
                InstanceType::Client => "client"@,
            }),
    {
        match self {
            InstanceType::Server => "server".to_owned(),
            InstanceType::Client => "client".to_owned(),
        }
    }
}

/// The project manifest; `mods` maps each mod's slug to the version asked for.
pub struct ConduitConfig {
    pub name: String,
    pub instance_type: InstanceType,
    pub mc_version: String,
    pub loader: String,
    pub mods: StrMap<String>,
}

impl ConduitConfig {
    pub open spec fn wf(self) -> bool {
        self.mods.wf()
    }
}

impl Default for ConduitConfig {
    fn default() -> (c: Self)
        ensures
            c.wf(),
            c.name@ == "conduit-project"@,
            c.instance_type == InstanceType::Server,
            c.mc_version@ == "1.21.1"@,
            c.loader@ == "neoforge@latest"@,
            c.mods.entries().len() == 0,
    {
        ConduitConfig {
            name: "conduit-project".to_owned(),
            instance_type: InstanceType::Server,
            mc_version: "1.21.1".to_owned(),
            loader: "neoforge@latest".to_owned(),
            mods: StrMap::new(),
        }
    }
}

} // verus!

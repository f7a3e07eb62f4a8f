//! The paths a project carries besides its addons.
use vstd::prelude::*;

verus! {

pub struct ConduitInclude {
    pub paths: Vec<String>,
}

impl Default for ConduitInclude {
    fn default() -> (r: Self)
        ensures
            r.paths@.len() == 0,
    {
        ConduitInclude { paths: Vec::new() }
    }
}

} // verus!

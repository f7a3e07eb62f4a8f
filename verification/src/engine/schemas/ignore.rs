//! The paths a project leaves out of what it tracks.
use vstd::prelude::*;
use crate::text::views;

verus! {

pub struct ConduitIgnore {
    pub rules: Vec<String>,
}

impl Default for ConduitIgnore {
    /// Runtimes, caches, logs, temporary files and the environment folder.
    fn default() -> (r: Self)
        ensures
            views(r.rules@) == seq![".conduit_runtimes/"@, "cache/"@, "logs/"@, "temp/"@, ".env/"@],
    {
        let rules = vec![
            ".conduit_runtimes/".to_string(),
            "cache/".to_string(),
            "logs/".to_string(),
            "temp/".to_string(),
            ".env/".to_string(),
        ];
        assert(views(rules@) =~= seq![".conduit_runtimes/"@, "cache/"@, "logs/"@, "temp/"@, ".env/"@]);
        ConduitIgnore { rules }
    }
}

} // verus!

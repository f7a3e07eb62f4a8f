pub mod manifest;

use vstd::prelude::*;

verus! {

/// The project's files on disk: `conduit.json` and `conduit.lock`.
pub struct ProjectFiles;

} // verus!

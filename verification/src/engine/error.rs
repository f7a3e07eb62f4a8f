//! The errors of the project logic.
use vstd::prelude::*;

verus! {

pub enum CoreError {
    /// An input/output failure, with its message.
    Io(String),
    RuntimeError(String),
    MissingConfig,
    MissingLocalDataDir,
    ServerOnlyFeature,
    UnsupportedLoader(String),
}

} // verus!

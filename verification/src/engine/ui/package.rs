use vstd::prelude::*;

verus! {

/// Progress of the packages being fetched.
pub enum PackageEvent {
    DownloadStarted { id: String, name: String, total: Option<u64> },
    DownloadProgress { id: String, current: u64 },
    DownloadFinished { id: String },
    Resolving { name: String },
}

} // verus!

//! Where an addon comes from and the digests its file is checked against.
use vstd::prelude::*;

verus! {

pub enum SourceType {
    Modrinth { id: String, slug: String },
}

/// The digests known for a file, in lower-case hexadecimal.
pub struct Hash {
    pub sha1: Option<String>,
    pub sha256: Option<String>,
    pub sha512: Option<String>,
}

pub struct AddonSource {
    pub source_type: SourceType,
    pub hash: Hash,
}

} // verus!

//! The server software a project runs on.
use vstd::prelude::*;
use crate::text::{concat3, str_eq};

verus! {

/// The server software, with the Minecraft version that Forge and NeoForge
/// builds are tied to.
pub enum Loader {
    Vanilla,
    Paper,
    Purpur,
    Fabric,
    Forge { version: String },
    Neoforge { version: String },
}

pub enum LoaderKind {
    Vanilla,
    Paper,
    Purpur,
    Fabric,
    Forge(Seq<char>),
    Neoforge(Seq<char>),
}

impl View for Loader {
    type V = LoaderKind;

    open spec fn view(&self) -> LoaderKind {
        match self {
            Loader::Vanilla => LoaderKind::Vanilla,
            Loader::Paper => LoaderKind::Paper,
            Loader::Purpur => LoaderKind::Purpur,
            Loader::Fabric => LoaderKind::Fabric,
            Loader::Forge { version } => LoaderKind::Forge(version@),
            Loader::Neoforge { version } => LoaderKind::Neoforge(version@),
        }
    }
}

/// What `{:?}` writes for a string: the string quoted, with escapes; a
/// function of its characters alone.
pub uninterp spec fn debug_text(s: Seq<char>) -> Seq<char>;

/// Calls the `Debug` formatting of `str` (`format!("{:?}", s)`). Claimed:
/// the result is `debug_text` of the characters; the escaping rules are not
/// stated.
#[verifier::external_body]
fn debug_str(s: &str) -> (r: String)
    ensures
        r@ == debug_text(s@),
{
    format!("{:?}", s)
}

/// What `{:?}` writes for a loader.
pub open spec fn loader_debug(l: LoaderKind) -> Seq<char> {
    match l {
        LoaderKind::Vanilla => "Vanilla"@,
        LoaderKind::Paper => "Paper"@,
        LoaderKind::Purpur => "Purpur"@,
        LoaderKind::Fabric => "Fabric"@,
        LoaderKind::Forge(v) => "Forge { version: "@ + debug_text(v) + " }"@,
        LoaderKind::Neoforge(v) => "Neoforge { version: "@ + debug_text(v) + " }"@,
    }
}

impl Loader {
    /// A copy with the same view.
    pub fn duplicate(&self) -> (r: Loader)
        ensures
            r@ == self@,
    {
        match self {
            Loader::Vanilla => Loader::Vanilla,
            Loader::Paper => Loader::Paper,
            Loader::Purpur => Loader::Purpur,
            Loader::Fabric => Loader::Fabric,
            Loader::Forge { version } => Loader::Forge { version: version.clone() },
            Loader::Neoforge { version } => Loader::Neoforge { version: version.clone() },
        }
    }

    /// Equality of loaders: the same software and, where it has one, the
    /// same version.
    pub fn same_as(&self, other: &Loader) -> (b: bool)
        ensures
            b == (self@ == other@),
    {
        match (self, other) {
            (Loader::Vanilla, Loader::Vanilla) => true,
            (Loader::Paper, Loader::Paper) => true,
            (Loader::Purpur, Loader::Purpur) => true,
            (Loader::Fabric, Loader::Fabric) => true,
            (Loader::Forge { version: a }, Loader::Forge { version: b }) => str_eq(a.as_str(), b.as_str()),
            (Loader::Neoforge { version: a }, Loader::Neoforge { version: b }) => str_eq(a.as_str(), b.as_str()),
            _ => false,
        }
    }

    /// The text `{:?}` gives for the loader.
    pub fn debug_string(&self) -> (r: String)
        ensures
            r@ == loader_debug(self@),
    {
        match self {
            Loader::Vanilla => "Vanilla".to_string(),
            Loader::Paper => "Paper".to_string(),
            Loader::Purpur => "Purpur".to_string(),
            Loader::Fabric => "Fabric".to_string(),
            Loader::Forge { version } => {
                let d = debug_str(version.as_str());
                concat3("Forge { version: ", d.as_str(), " }")
            },
            Loader::Neoforge { version } => {
                let d = debug_str(version.as_str());
                concat3("Neoforge { version: ", d.as_str(), " }")
            },
        }
    }
}

} // verus!

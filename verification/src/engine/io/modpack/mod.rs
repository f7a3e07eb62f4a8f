//! Modpacks: the formats a project can be exported to and imported from.
use vstd::prelude::*;
use crate::engine::error::CoreError;
use crate::engine::io::modpack::metadata::ConduitPackMetadata;
use crate::engine::io::project::manifest::ConduitConfig;
use crate::lock::ConduitLock;

pub mod conduit;
pub mod metadata;

verus! {

pub enum PackFormat {
    Conduit,
}

/// What an archive holds: its files, the extensions met (lower-cased, each
/// once, in the order first met), how many files have a dangerous
/// extension, how many are jars among the overrides, and a line for each of
/// those.
pub struct PackAnalysis {
    pub files: Vec<String>,
    pub extensions: Vec<String>,
    pub dangerous_count: usize,
    pub local_jars_count: usize,
    pub suspicious_files: Vec<String>,
}

/// One entry of a zip archive, as the archive describes it.
pub struct ZipEntryInfo {
    pub name: String,
    pub is_dir: bool,
    pub is_file: bool,
    pub size: u64,
    pub compressed_size: u64,
}

pub struct ZipEntryView {
    pub name: Seq<char>,
    pub is_dir: bool,
    pub is_file: bool,
    pub size: u64,
    pub compressed_size: u64,
}

impl View for ZipEntryInfo {
    type V = ZipEntryView;

    open spec fn view(&self) -> ZipEntryView {
        ZipEntryView {
            name: self.name@,
            is_dir: self.is_dir,
            is_file: self.is_file,
            size: self.size,
            compressed_size: self.compressed_size,
        }
    }
}

pub open spec fn entry_views(v: Seq<ZipEntryInfo>) -> Seq<ZipEntryView> {
    v.map_values(|e: ZipEntryInfo| e@)
}

/// Writing an entry of an imported archive: the path it goes to, whether
/// it is a directory, and whether the console names it as a linked file.
pub struct ImportStep {
    pub out_path: String,
    pub is_dir: bool,
    pub announce: bool,
}

/// The entries to write, in archive order, and the error that stopped the
/// import after them, if one did.
pub struct ImportPlan {
    pub steps: Vec<ImportStep>,
    pub error: Option<CoreError>,
}

pub struct ImportStepView {
    pub out_path: Seq<char>,
    pub is_dir: bool,
    pub announce: bool,
}

impl View for ImportStep {
    type V = ImportStepView;

    open spec fn view(&self) -> ImportStepView {
        ImportStepView { out_path: self.out_path@, is_dir: self.is_dir, announce: self.announce }
    }
}

pub open spec fn step_views(v: Seq<ImportStep>) -> Seq<ImportStepView> {
    v.map_values(|s: ImportStep| s@)
}

/// A pack format: reading an archive's listing, and extracting it into a
/// project directory.
pub trait ModpackProvider {
    /// What goes into a pack of the project: see `ExportPlan`. `lock` is
    /// the project's lock where it has one.
    fn export(
        &self,
        manifest: &ConduitConfig,
        lock: Option<&ConduitLock>,
        include_config: bool,
        config_dir_exists: bool,
        mods_dir_exists: bool,
        conduit_version: &str,
    ) -> ExportPlan;

    fn analyze(&self, entries: &Vec<ZipEntryInfo>) -> Result<PackAnalysis, CoreError>;

    fn import(&self, target_dir: &str, entries: &Vec<ZipEntryInfo>) -> ImportPlan;
}

/// What an export needs from the project: the local mod files to carry,
/// the pack metadata, and the folders to copy.
pub struct ExportPlan {
    pub local_mod_filenames: Vec<String>,
    pub metadata: ConduitPackMetadata,
    pub folders: Vec<String>,
}

/// The provider of a pack format: the Conduit format's own, whose export,
/// analysis and import are those of `ConduitProvider`.
pub fn get_provider(format: &PackFormat) -> (p: conduit::ConduitProvider)
    ensures
        p == conduit::ConduitProvider,
{
    match format {
        PackFormat::Conduit => conduit::ConduitProvider,
    }
}

} // verus!

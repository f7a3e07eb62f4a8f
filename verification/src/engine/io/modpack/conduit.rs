//! The Conduit pack format: a zip with the manifest, the lock, a
//! `metadata.toml` and an `overrides/` tree; and the checks an archive must
//! pass before it is read.
use vstd::prelude::*;
use crate::engine::error::CoreError;
use crate::engine::io::modpack::metadata::{ConduitInfo, ConduitPackMetadata, ContentFlags, PackInfo};
use crate::engine::io::project::manifest::ConduitConfig;
use crate::lock::{ConduitLock, LockEntries, LockedMod};
use crate::engine::io::modpack::{
    ExportPlan,
    entry_views, step_views, ImportPlan, ImportStep, ImportStepView, ModpackProvider, PackAnalysis,
    ZipEntryInfo, ZipEntryView,
};
use crate::engine::paths::{extension_of, extension_spec, join, join_path, path_starts_with, path_starts_with_exec};
use crate::text::{
    concat2, contains_str, contains_sub, eq_ignore_ascii_case, has_infix, has_prefix, lowercase, starts_with,
    str_eq, str_eq_ignore_ascii_case, string_of_range, chars_of, to_lowercase, views, replace_all, replace_str,
};

verus! {

pub const MAX_DECOMPRESSION_RATIO: u64 = 200;

pub const MAX_TOTAL_SIZE: u64 = 2147483648;

pub const MAX_SINGLE_FILE_SIZE: u64 = 524288000;

pub struct ConduitProvider;

/// The extensions that mark a file as dangerous.
pub open spec fn blacklist() -> Seq<Seq<char>> {
    seq!["exe"@, "bat"@, "sh"@, "py"@, "js"@, "vbs"@, "msi"@, "com"@, "cmd"@, "scr"@]
}

pub open spec fn dangerous_spec(extension: Seq<char>) -> bool {
    blacklist().contains(lowercase(extension))
}

/// The check of one archive entry against the size limits: too large a
/// file, too high a compression ratio on a file over 1 MiB, or a running
/// total over the pack limit is refused with its message; otherwise the new
/// running total.
pub open spec fn entry_check(name: Seq<char>, size: u64, compressed: u64, total: int) -> Result<int, Seq<char>> {
    if size > MAX_SINGLE_FILE_SIZE {
        Err("File too large: "@ + name)
    } else if compressed > 0 && size / compressed > MAX_DECOMPRESSION_RATIO && size > 1048576 {
        Err("Abnormal compression ratio: "@ + name)
    } else if total + size > MAX_TOTAL_SIZE {
        Err("Pack exceeds total size limit"@)
    } else {
        Ok(total + size)
    }
}

/// Whether the check reaches the running total and that total does not fit
/// in a `u64`.
pub open spec fn entry_total_overflows(size: u64, compressed: u64, total: int) -> bool {
    size <= MAX_SINGLE_FILE_SIZE && !(compressed > 0 && size / compressed > MAX_DECOMPRESSION_RATIO
        && size > 1048576) && total + size > u64::MAX
}

pub open spec fn runtime_error(r: Result<u64, CoreError>, msg: Seq<char>) -> bool {
    r matches Err(CoreError::RuntimeError(m)) && m@ == msg
}

impl ConduitProvider {
    /// Whether a file with this extension is dangerous: its lower-cased form
    /// is one of `exe bat sh py js vbs msi com cmd scr`.
    pub fn is_dangerous(extension: &str) -> (b: bool)
        ensures
            b == dangerous_spec(extension@),
    {
        let lower = to_lowercase(extension);
        let list: Vec<&str> = vec!["exe", "bat", "sh", "py", "js", "vbs", "msi", "com", "cmd", "scr"];
        assert(list@.map_values(|s: &str| s@) =~= blacklist());
        for i in 0..list.len()
            invariant
                list@.map_values(|s: &str| s@) == blacklist(),
                lower@ == lowercase(extension@),
                forall|j: int| 0 <= j < i ==> blacklist()[j] != lower@,
        {
            assert(list@[i as int]@ == blacklist()[i as int]);
            if str_eq(list[i], lower.as_str()) {
                return true;
            }
        }
        false
    }

    /// Checks one entry of an archive against the size limits and gives the
    /// running total of uncompressed sizes with it.
    pub fn validate_zip_entry(name: &str, size: u64, compressed_size: u64, current_total: u64) -> (r: Result<u64, CoreError>)
        requires
            !entry_total_overflows(size, compressed_size, current_total as int),
        ensures
            match entry_check(name@, size, compressed_size, current_total as int) {
                Ok(t) => r == Ok::<u64, CoreError>(t as u64),
                Err(m) => runtime_error(r, m),
            },
    {
        if size > MAX_SINGLE_FILE_SIZE {
            return Err(CoreError::RuntimeError(concat2("File too large: ", name)));
        }
        if compressed_size > 0 {
            let ratio = size / compressed_size;
            if ratio > MAX_DECOMPRESSION_RATIO && size > 1048576 {
                return Err(CoreError::RuntimeError(concat2("Abnormal compression ratio: ", name)));
            }
        }
        let new_total = current_total + size;
        if new_total > MAX_TOTAL_SIZE {
            return Err(CoreError::RuntimeError("Pack exceeds total size limit".to_string()));
        }
        Ok(new_total)
    }
}

// ---------------------------------------------------------------- analysis

/// What has been gathered of an archive so far.
pub struct AnalysisState {
    pub files: Seq<Seq<char>>,
    pub extensions: Seq<Seq<char>>,
    pub dangerous: nat,
    pub local_jars: nat,
    pub suspicious: Seq<Seq<char>>,
    pub total: int,
}

pub open spec fn empty_analysis() -> AnalysisState {
    AnalysisState {
        files: Seq::empty(),
        extensions: Seq::empty(),
        dangerous: 0,
        local_jars: 0,
        suspicious: Seq::empty(),
        total: 0,
    }
}

pub open spec fn is_jar_extension(o: Option<Seq<char>>) -> bool {
    match o {
        Some(x) => eq_ignore_ascii_case(x, "jar"@),
        None => false,
    }
}

/// The extension part of an entry: the lower-cased extension joins the
/// list once; a dangerous one is counted and noted.
pub open spec fn note_extension(a: AnalysisState, name: Seq<char>) -> AnalysisState {
    match extension_spec(name) {
        Some(x) => {
            let xl = lowercase(x);
            let exts = if a.extensions.contains(xl) { a.extensions } else { a.extensions.push(xl) };
            if dangerous_spec(xl) {
                AnalysisState {
                    extensions: exts,
                    dangerous: a.dangerous + 1,
                    suspicious: a.suspicious.push("[DANGER] "@ + name),
                    ..a
                }
            } else {
                AnalysisState { extensions: exts, ..a }
            }
        },
        None => a,
    }
}

/// A jar under `overrides/` is counted and noted.
pub open spec fn note_local_jar(a: AnalysisState, name: Seq<char>) -> AnalysisState {
    if has_infix(name, "overrides/"@) && is_jar_extension(extension_spec(name)) {
        AnalysisState { local_jars: a.local_jars + 1, suspicious: a.suspicious.push("[LOCAL JAR] "@ + name), ..a }
    } else {
        a
    }
}

/// One entry of the listing: only files count; each is checked against the
/// limits, listed, and its extension and place looked at.
pub open spec fn analysis_step(a: AnalysisState, e: ZipEntryView) -> Result<AnalysisState, Seq<char>> {
    if !e.is_file {
        Ok(a)
    } else {
        match entry_check(e.name, e.size, e.compressed_size, a.total) {
            Err(m) => Err(m),
            Ok(t) => Ok(note_local_jar(
                note_extension(AnalysisState { files: a.files.push(e.name), total: t, ..a }, e.name),
                e.name,
            )),
        }
    }
}

/// The analysis of a listing, entry by entry; the first refused entry ends it.
pub open spec fn analysis_fold(es: Seq<ZipEntryView>) -> Result<AnalysisState, Seq<char>>
    decreases es.len(),
{
    if es.len() == 0 {
        Ok(empty_analysis())
    } else {
        match analysis_fold(es.drop_last()) {
            Err(m) => Err(m),
            Ok(a) => analysis_step(a, es.last()),
        }
    }
}

proof fn lemma_analysis_err(es: Seq<ZipEntryView>, i: int)
    requires
        0 <= i <= es.len(),
        analysis_fold(es.take(i)) is Err,
    ensures
        analysis_fold(es) == analysis_fold(es.take(i)),
    decreases es.len() - i,
{
    if i < es.len() {
        assert(es.drop_last().take(i) =~= es.take(i));
        lemma_analysis_err(es.drop_last(), i);
    } else {
        assert(es.take(i) =~= es);
    }
}

proof fn lemma_analysis_bounds(es: Seq<ZipEntryView>)
    ensures
        analysis_fold(es) matches Ok(a) ==> a.dangerous <= es.len() && a.local_jars <= es.len() && 0 <= a.total
            <= MAX_TOTAL_SIZE,
    decreases es.len(),
{
    if es.len() > 0 {
        lemma_analysis_bounds(es.drop_last());
    }
}

impl ModpackProvider for ConduitProvider {
    /// Plans the export of a project; see `is_export_plan`.
    fn export(
        &self,
        manifest: &ConduitConfig,
        lock: Option<&ConduitLock>,
        include_config: bool,
        config_dir_exists: bool,
        mods_dir_exists: bool,
        conduit_version: &str,
    ) -> (r: ExportPlan)
        ensures
            is_export_plan(r, *manifest, lock, include_config, config_dir_exists, mods_dir_exists, conduit_version@),
    {
        export_plan(manifest, lock, include_config, config_dir_exists, mods_dir_exists, conduit_version)
    }

    /// Reads an archive's listing; see `analysis_fold`. A refused entry is
    /// answered with its message.
    fn analyze(&self, entries: &Vec<ZipEntryInfo>) -> (r: Result<PackAnalysis, CoreError>)
        ensures
            match analysis_fold(entry_views(entries@)) {
                Err(m) => r matches Err(CoreError::RuntimeError(e)) && e@ == m,
                Ok(a) => r matches Ok(p) && views(p.files@) == a.files && views(p.extensions@) == a.extensions
                    && p.dangerous_count == a.dangerous && p.local_jars_count == a.local_jars
                    && views(p.suspicious_files@) == a.suspicious,
            },
    {
        let ghost es = entry_views(entries@);
        let mut files: Vec<String> = Vec::new();
        let mut extensions: Vec<String> = Vec::new();
        let mut suspicious: Vec<String> = Vec::new();
        let mut dangerous_count: usize = 0;
        let mut local_jars_count: usize = 0;
        let mut total: u64 = 0;
        proof {
            assert(es.take(0) =~= Seq::<ZipEntryView>::empty());
            assert(views(files@) =~= Seq::<Seq<char>>::empty());
            assert(views(extensions@) =~= Seq::<Seq<char>>::empty());
            assert(views(suspicious@) =~= Seq::<Seq<char>>::empty());
        }
        for i in 0..entries.len()
            invariant
                es == entry_views(entries@),
                analysis_fold(es.take(i as int)) == Ok::<AnalysisState, Seq<char>>(AnalysisState {
                    files: views(files@),
                    extensions: views(extensions@),
                    dangerous: dangerous_count as nat,
                    local_jars: local_jars_count as nat,
                    suspicious: views(suspicious@),
                    total: total as int,
                }),
                dangerous_count <= i,
                local_jars_count <= i,
                total <= MAX_TOTAL_SIZE,
        {
            let e = &entries[i];
            proof {
                assert(es.take(i + 1).drop_last() =~= es.take(i as int));
                assert(es.take(i + 1).last() == e@);
            }
            if e.is_file {
                let checked = ConduitProvider::validate_zip_entry(e.name.as_str(), e.size, e.compressed_size, total);
                match checked {
                    Err(err) => {
                        proof {
                            lemma_analysis_err(es, i + 1);
                        }
                        return Err(err);
                    },
                    Ok(t) => {
                        total = t;
                    },
                }
                let ghost prev_files = views(files@);
                files.push(e.name.clone());
                assert(views(files@) =~= prev_files.push(e.name@));
                match extension_of(e.name.as_str()) {
                    Some(ext) => {
                        let lower = to_lowercase(ext.as_str());
                        if !contains_str(&extensions, lower.as_str()) {
                            let ghost prev = views(extensions@);
                            extensions.push(lower.clone());
                            assert(views(extensions@) =~= prev.push(lower@));
                        }
                        if ConduitProvider::is_dangerous(lower.as_str()) {
                            dangerous_count = dangerous_count + 1;
                            let ghost prev = views(suspicious@);
                            suspicious.push(concat2("[DANGER] ", e.name.as_str()));
                            assert(views(suspicious@) =~= prev.push("[DANGER] "@ + e.name@));
                        }
                    },
                    None => {},
                }
                let in_overrides = contains_sub(e.name.as_str(), "overrides/");
                let is_jar = match extension_of(e.name.as_str()) {
                    Some(ext) => str_eq_ignore_ascii_case(ext.as_str(), "jar"),
                    None => false,
                };
                if in_overrides && is_jar {
                    local_jars_count = local_jars_count + 1;
                    let ghost prev = views(suspicious@);
                    suspicious.push(concat2("[LOCAL JAR] ", e.name.as_str()));
                    assert(views(suspicious@) =~= prev.push("[LOCAL JAR] "@ + e.name@));
                }
            }
            proof {
                lemma_analysis_bounds(es.take(i + 1));
            }
        }
        proof {
            assert(es.take(entries@.len() as int) =~= es);
        }
        Ok(PackAnalysis {
            files,
            extensions,
            dangerous_count,
            local_jars_count,
            suspicious_files: suspicious,
        })
    }

    /// Plans the extraction of an archive into `target_dir`; see
    /// `import_fold`.
    fn import(&self, target_dir: &str, entries: &Vec<ZipEntryInfo>) -> (r: ImportPlan)
        ensures
            step_views(r.steps@) == import_fold(target_dir@, entry_views(entries@)).0,
            match import_fold(target_dir@, entry_views(entries@)).1 {
                Some(m) => r.error matches Some(CoreError::RuntimeError(e)) && e@ == m,
                None => r.error is None,
            },
    {
        import_plan(target_dir, entries)
    }
}

// ---------------------------------------------------------------- import

/// Where an entry goes: an `overrides/` entry goes to the rest of its name
/// under the target, any other entry to its name under the target.
pub open spec fn import_target(target: Seq<char>, name: Seq<char>) -> Seq<char> {
    if has_prefix(name, "overrides/"@) {
        join_path(target, name.skip(10))
    } else {
        join_path(target, name)
    }
}

pub open spec fn is_linked_extension(o: Option<Seq<char>>) -> bool {
    match o {
        Some(x) => eq_ignore_ascii_case(x, "json"@) || eq_ignore_ascii_case(x, "lock"@),
        None => false,
    }
}

/// One entry of an import: checked against the limits, then refused if its
/// path leaves the target; a file named `*.json` or `*.lock` is announced.
pub open spec fn import_step(target: Seq<char>, total: int, e: ZipEntryView) -> Result<(ImportStepView, int), Seq<char>> {
    match entry_check(e.name, e.size, e.compressed_size, total) {
        Err(m) => Err(m),
        Ok(t) => {
            let out = import_target(target, e.name);
            if !path_starts_with(out, target) {
                Err("Invalid path in ZIP: "@ + e.name)
            } else {
                Ok((ImportStepView {
                    out_path: out,
                    is_dir: e.is_dir,
                    announce: !e.is_dir && is_linked_extension(extension_spec(e.name)),
                }, t))
            }
        },
    }
}

/// The steps of an import, the error that stopped it, and the running total.
pub open spec fn import_fold(target: Seq<char>, es: Seq<ZipEntryView>) -> (Seq<ImportStepView>, Option<Seq<char>>, int)
    decreases es.len(),
{
    if es.len() == 0 {
        (Seq::empty(), None, 0)
    } else {
        let prev = import_fold(target, es.drop_last());
        if prev.1 is Some {
            prev
        } else {
            match import_step(target, prev.2, es.last()) {
                Err(m) => (prev.0, Some(m), prev.2),
                Ok(st) => (prev.0.push(st.0), None, st.1),
            }
        }
    }
}

proof fn lemma_import_err(target: Seq<char>, es: Seq<ZipEntryView>, i: int)
    requires
        0 <= i <= es.len(),
        import_fold(target, es.take(i)).1 is Some,
    ensures
        import_fold(target, es) == import_fold(target, es.take(i)),
    decreases es.len() - i,
{
    if i < es.len() {
        assert(es.drop_last().take(i) =~= es.take(i));
        lemma_import_err(target, es.drop_last(), i);
    } else {
        assert(es.take(i) =~= es);
    }
}

proof fn lemma_import_total(target: Seq<char>, es: Seq<ZipEntryView>)
    ensures
        0 <= import_fold(target, es).2 <= MAX_TOTAL_SIZE,
    decreases es.len(),
{
    if es.len() > 0 {
        lemma_import_total(target, es.drop_last());
    }
}

/// The path an entry is written to.
fn import_target_of(target_dir: &str, name: &str) -> (r: String)
    ensures
        r@ == import_target(target_dir@, name@),
{
    if starts_with(name, "overrides/") {
        proof {
            reveal_strlit("overrides/");
        }
        let v = chars_of(name);
        let rest = string_of_range(&v, 10, v.len());
        assert(rest@ =~= name@.skip(10));
        join(target_dir, rest.as_str())
    } else {
        join(target_dir, name)
    }
}

/// Plans the extraction of an archive into `target_dir`.
pub fn import_plan(target_dir: &str, entries: &Vec<ZipEntryInfo>) -> (r: ImportPlan)
    ensures
        step_views(r.steps@) == import_fold(target_dir@, entry_views(entries@)).0,
        match import_fold(target_dir@, entry_views(entries@)).1 {
            Some(m) => r.error matches Some(CoreError::RuntimeError(e)) && e@ == m,
            None => r.error is None,
        },
{
    let ghost es = entry_views(entries@);
    let mut steps: Vec<ImportStep> = Vec::new();
    let mut total: u64 = 0;
    proof {
        assert(es.take(0) =~= Seq::<ZipEntryView>::empty());
        assert(step_views(steps@) =~= Seq::<ImportStepView>::empty());
    }
    for i in 0..entries.len()
        invariant
            es == entry_views(entries@),
            import_fold(target_dir@, es.take(i as int)) == (step_views(steps@), None::<Seq<char>>, total as int),
            total <= MAX_TOTAL_SIZE,
    {
        let e = &entries[i];
        proof {
            assert(es.take(i + 1).drop_last() =~= es.take(i as int));
            assert(es.take(i + 1).last() == e@);
        }
        let checked = ConduitProvider::validate_zip_entry(e.name.as_str(), e.size, e.compressed_size, total);
        let t = match checked {
            Err(err) => {
                proof {
                    lemma_import_err(target_dir@, es, i + 1);
                }
                return ImportPlan { steps, error: Some(err) };
            },
            Ok(t) => t,
        };
        let out = import_target_of(target_dir, e.name.as_str());
        if !path_starts_with_exec(out.as_str(), target_dir) {
            proof {
                lemma_import_err(target_dir@, es, i + 1);
            }
            return ImportPlan {
                steps,
                error: Some(CoreError::RuntimeError(concat2("Invalid path in ZIP: ", e.name.as_str()))),
            };
        }
        let announce = if e.is_dir {
            false
        } else {
            match extension_of(e.name.as_str()) {
                Some(ext) => str_eq_ignore_ascii_case(ext.as_str(), "json") || str_eq_ignore_ascii_case(ext.as_str(), "lock"),
                None => false,
            }
        };
        let ghost prev = step_views(steps@);
        let step = ImportStep { out_path: out, is_dir: e.is_dir, announce };
        steps.push(step);
        total = t;
        proof {
            assert(step_views(steps@) =~= prev.push(step@));
        }
    }
    proof {
        assert(es.take(entries@.len() as int) =~= es);
    }
    ImportPlan { steps, error: None }
}

// ---------------------------------------------------------------- export

/// A lock key of a mod added from a local file.
pub open spec fn is_local_key(k: Seq<char>) -> bool {
    has_prefix(k, "local:"@) || has_prefix(k, "f:"@) || has_prefix(k, "file:"@)
}

/// The file names of the locally added mods, each once, in key order.
pub open spec fn local_filenames(e: LockEntries) -> Seq<Seq<char>>
    decreases e.len(),
{
    if e.len() == 0 {
        Seq::empty()
    } else {
        let prev = local_filenames(e.drop_last());
        let f = e.last().1.filename@;
        if is_local_key(e.last().0) && !prev.contains(f) {
            prev.push(f)
        } else {
            prev
        }
    }
}

/// The file names of the mods added from local files: those are the only
/// jars that a pack carries in its `overrides/mods`.
pub fn local_mod_filenames(lock: &ConduitLock) -> (r: Vec<String>)
    ensures
        views(r@) == local_filenames(lock.entries()),
{
    let ghost e = lock.entries();
    let mut r: Vec<String> = Vec::new();
    proof {
        assert(e.take(0) =~= Seq::<(Seq<char>, LockedMod)>::empty());
        assert(views(r@) =~= Seq::<Seq<char>>::empty());
    }
    let n = lock.locked_mods.len();
    for i in 0..n
        invariant
            e == lock.entries(),
            lock.locked_mods.len_spec() == e.len(),
            n == e.len(),
            views(r@) == local_filenames(e.take(i as int)),
    {
        let k = lock.locked_mods.key_at(i);
        let m = lock.locked_mods.value_at(i);
        proof {
            assert(e.take(i + 1).drop_last() =~= e.take(i as int));
            assert(e.take(i + 1).last() == e[i as int]);
            assert(k@ == e[i as int].0);
        }
        let local = starts_with(k.as_str(), "local:") || starts_with(k.as_str(), "f:") || starts_with(k.as_str(), "file:");
        if local && !contains_str(&r, m.filename.as_str()) {
            let ghost prev = views(r@);
            r.push(m.filename.clone());
            assert(views(r@) =~= prev.push(m.filename@));
        }
    }
    proof {
        assert(e.take(e.len() as int) =~= e);
    }
    r
}

/// The metadata written into an exported pack.
pub fn pack_metadata(
    manifest: &ConduitConfig,
    conduit_version: &str,
    include_config: bool,
    config_dir_exists: bool,
    has_local_mods: bool,
) -> (m: ConduitPackMetadata)
    ensures
        m.conduit.version@ == conduit_version@,
        m.conduit.format_version == 1,
        m.pack.title@ == manifest.name@,
        m.pack.creator matches Some(c) && c@ == "Conduit User"@,
        m.pack.description is None,
        m.pack.homepage is None,
        m.pack.repository is None,
        m.pack.pack_type == manifest.instance_type,
        m.content.has_configs == (include_config && config_dir_exists),
        m.content.has_mods_overrides == has_local_mods,
{
    ConduitPackMetadata {
        conduit: ConduitInfo { version: conduit_version.to_string(), format_version: 1 },
        pack: PackInfo {
            title: manifest.name.clone(),
            creator: Some("Conduit User".to_string()),
            description: None,
            homepage: None,
            repository: None,
            pack_type: manifest.instance_type,
        },
        content: ContentFlags {
            has_configs: include_config && config_dir_exists,
            has_mods_overrides: has_local_mods,
        },
    }
}

/// The project folders copied into a pack: `config` when asked for, then
/// `mods` when it exists.
pub fn export_folders(include_config: bool, mods_dir_exists: bool) -> (r: Vec<String>)
    ensures
        views(r@) == (if include_config { seq!["config"@] } else { Seq::empty() }) + (if mods_dir_exists {
            seq!["mods"@]
        } else {
            Seq::empty()
        }),
{
    let mut r: Vec<String> = Vec::new();
    if include_config {
        r.push("config".to_string());
    }
    if mods_dir_exists {
        r.push("mods".to_string());
    }
    assert(views(r@) =~= (if include_config { seq!["config"@] } else { Seq::<Seq<char>>::empty() }) + (if mods_dir_exists {
        seq!["mods"@]
    } else {
        Seq::<Seq<char>>::empty()
    }));
    r
}

/// Whether a file of a copied folder goes into the pack: in `mods` only
/// the locally added jars do, elsewhere every file.
pub fn export_keeps(folder: &str, filename: &str, locals: &Vec<String>) -> (b: bool)
    ensures
        b == !(folder@ == "mods"@ && !views(locals@).contains(filename@)),
{
    !(str_eq(folder, "mods") && !contains_str(locals, filename))
}

/// The name under which a project file is stored in a pack: `overrides/`
/// and its path relative to the project, with `/` for every `\`.
pub fn export_zip_path(relative: &str) -> (r: String)
    ensures
        r@ == "overrides/"@ + replace_all(relative@, "\\"@, "/"@),
{
    proof {
        reveal_strlit("\\");
    }
    let fixed = replace_str(relative, "\\", "/");
    concat2("overrides/", fixed.as_str())
}

/// The plan of an export: the locally added jars of the lock (none
/// without a lock), the pack metadata, and the folders to copy.
pub open spec fn is_export_plan(
    p: ExportPlan,
    manifest: ConduitConfig,
    lock: Option<&ConduitLock>,
    include_config: bool,
    config_dir_exists: bool,
    mods_dir_exists: bool,
    conduit_version: Seq<char>,
) -> bool {
    &&& views(p.local_mod_filenames@) == (match lock {
        Some(l) => local_filenames(l.entries()),
        None => Seq::empty(),
    })
    &&& p.metadata.conduit.version@ == conduit_version
    &&& p.metadata.conduit.format_version == 1
    &&& p.metadata.pack.title@ == manifest.name@
    &&& (p.metadata.pack.creator matches Some(c) && c@ == "Conduit User"@)
    &&& p.metadata.pack.description is None
    &&& p.metadata.pack.homepage is None
    &&& p.metadata.pack.repository is None
    &&& p.metadata.pack.pack_type == manifest.instance_type
    &&& p.metadata.content.has_configs == (include_config && config_dir_exists)
    &&& p.metadata.content.has_mods_overrides == (p.local_mod_filenames@.len() > 0)
    &&& views(p.folders@) == (if include_config { seq!["config"@] } else { Seq::empty() }) + (if mods_dir_exists {
        seq!["mods"@]
    } else {
        Seq::empty()
    })
}

/// Plans the export of a project.
pub fn export_plan(
    manifest: &ConduitConfig,
    lock: Option<&ConduitLock>,
    include_config: bool,
    config_dir_exists: bool,
    mods_dir_exists: bool,
    conduit_version: &str,
) -> (r: ExportPlan)
    ensures
        is_export_plan(r, *manifest, lock, include_config, config_dir_exists, mods_dir_exists, conduit_version@),
{
    let locals = match lock {
        Some(l) => local_mod_filenames(l),
        None => {
            let v: Vec<String> = Vec::new();
            assert(views(v@) =~= Seq::<Seq<char>>::empty());
            v
        },
    };
    let metadata = pack_metadata(manifest, conduit_version, include_config, config_dir_exists, locals.len() > 0);
    let folders = export_folders(include_config, mods_dir_exists);
    ExportPlan { local_mod_filenames: locals, metadata, folders }
}

} // verus!

verus! {

/// The path of every file an import writes begins, component by component,
/// with the target directory's components: an entry whose joined path does
/// not stops the import before anything of it is written. The check is on
/// the components as written, so a `..` among them passes it.
pub proof fn lemma_import_stays_inside(target: Seq<char>, es: Seq<ZipEntryView>)
    ensures
        forall|i: int| 0 <= i < import_fold(target, es).0.len() ==> path_starts_with(
            #[trigger] import_fold(target, es).0[i].out_path,
            target,
        ),
    decreases es.len(),
{
    if es.len() > 0 {
        lemma_import_stays_inside(target, es.drop_last());
        let prev = import_fold(target, es.drop_last());
        if prev.1 is None {
            match import_step(target, prev.2, es.last()) {
                Ok(st) => {
                    assert forall|i: int| 0 <= i < prev.0.push(st.0).len() implies path_starts_with(
                        #[trigger] prev.0.push(st.0)[i].out_path,
                        target,
                    ) by {
                        if i < prev.0.len() {
                            assert(prev.0.push(st.0)[i] == prev.0[i]);
                        }
                    }
                },
                Err(_) => {},
            }
        }
    }
}

/// The uncompressed sizes an import admits never add up to more than the
/// pack limit.
pub proof fn lemma_import_total_bounded(target: Seq<char>, es: Seq<ZipEntryView>)
    ensures
        0 <= import_fold(target, es).2 <= MAX_TOTAL_SIZE,
{
    lemma_import_total(target, es);
}

/// An analysis lists each extension once, counts no more dangerous files
/// and no more local jars than it lists files.
pub proof fn lemma_analysis_consistent(es: Seq<ZipEntryView>)
    ensures
        analysis_fold(es) matches Ok(a) ==> a.extensions.no_duplicates() && a.dangerous <= a.files.len()
            && a.local_jars <= a.files.len() && a.suspicious.len() == a.dangerous + a.local_jars,
    decreases es.len(),
{
    if es.len() > 0 {
        lemma_analysis_consistent(es.drop_last());
        match analysis_fold(es.drop_last()) {
            Ok(a) => {
                let e = es.last();
                if e.is_file {
                    match entry_check(e.name, e.size, e.compressed_size, a.total) {
                        Ok(t) => {
                            let a1 = AnalysisState { files: a.files.push(e.name), total: t, ..a };
                            let a2 = note_extension(a1, e.name);
                            match extension_spec(e.name) {
                                Some(x) => {
                                    let xl = lowercase(x);
                                    if !a1.extensions.contains(xl) {
                                        assert forall|i: int, j: int|
                                            0 <= i < j < a1.extensions.push(xl).len() implies a1.extensions.push(
                                            xl,
                                        )[i] != a1.extensions.push(xl)[j] by {
                                            if j == a1.extensions.len() {
                                                assert(a1.extensions.push(xl)[i] == a1.extensions[i]);
                                            }
                                        }
                                    }
                                },
                                None => {},
                            }
                        },
                        Err(_) => {},
                    }
                }
            },
            Err(_) => {},
        }
    }
}

} // verus!

//! Mods added from jar files on disk.
use vstd::prelude::*;
use crate::text::{
    ascii_lower, is_ascii_alnum, char_ascii_lower, char_is_ascii_alnum, chars_of, ends_with,
    has_suffix, trim_ch, trim_char, trim_start_by, trim_end_by, cut, lowercase, to_lowercase,
    concat2, str_eq, contains_str, views,
};
use crate::strmap::StrMap;
use crate::lock::{ConduitLock, LockedMod, LockedModView};
use crate::engine::io::project::manifest::ConduitConfig;
use crate::engine::io::hash::{sha256_file, sha256_digest, hex_lower};
use crate::engine::manager::add::models::ModSide;

verus! {

/// Lower-cases ASCII letters, keeps ASCII letters and digits, and writes a
/// single `-` for each run of other characters.
pub open spec fn slugify(s: Seq<char>) -> Seq<char>
    decreases s.len(),
{
    if s.len() == 0 {
        Seq::empty()
    } else {
        let o = slugify(s.drop_last());
        let c = ascii_lower(s.last());
        if is_ascii_alnum(c) {
            o.push(c)
        } else if o.len() > 0 && o.last() == '-' {
            o
        } else {
            o.push('-')
        }
    }
}

/// The name a jar file is keyed under when its mod id is unknown: the file
/// name without `.jar`, slugified, without `-` at the ends, or
/// `my-local-mod` when nothing remains.
pub open spec fn local_slug(filename: Seq<char>) -> Seq<char> {
    let stem = if has_suffix(filename, ".jar"@) { filename.take(filename.len() - 4) } else { filename };
    let t = trim_ch(slugify(stem), '-');
    if t.len() == 0 { "my-local-mod"@ } else { t }
}

/// The key of a local jar: `local:` and its mod id in lower case when the
/// mod id is known, else `local:` and the slug of its file name.
pub open spec fn local_key_spec(filename: Seq<char>, mod_id: Option<Seq<char>>) -> Seq<char> {
    match mod_id {
        Some(id) => "local:"@ + lowercase(id),
        None => "local:"@ + local_slug(filename),
    }
}

/// The slug of a jar's file name (see `local_slug`).
pub fn local_key_from_filename(filename: &str) -> (r: String)
    ensures
        r@ == local_slug(filename@),
{
    let v = chars_of(filename);
    proof { reveal_strlit(".jar"); }
    let stem_len = if ends_with(filename, ".jar") { v.len() - 4 } else { v.len() };
    let ghost stem = if has_suffix(filename@, ".jar"@) { filename@.take(filename@.len() - 4) } else { filename@ };
    assert(stem =~= v@.take(stem_len as int));
    let mut out = String::new();
    let mut last_dash = false;
    assert(stem.take(0) =~= Seq::<char>::empty());
    for i in 0..stem_len
        invariant
            stem_len <= v@.len(),
            stem == v@.take(stem_len as int),
            out@ == slugify(stem.take(i as int)),
            last_dash == (out@.len() > 0 && out@.last() == '-'),
    {
        assert(stem.take(i + 1).drop_last() =~= stem.take(i as int));
        assert(stem.take(i + 1).last() == v@[i as int]);
        let c = char_ascii_lower(v[i]);
        if char_is_ascii_alnum(c) {
            out.push(c);
            proof {
                assert(('-' as u32) == 45);
            }
            last_dash = false;
        } else if !last_dash {
            out.push('-');
            last_dash = true;
        }
    }
    assert(stem.take(stem_len as int) =~= stem);
    let t = trim_char(out.as_str(), '-');
    if t.as_str().is_empty() {
        "my-local-mod".to_owned()
    } else {
        t
    }
}

/// The key under which a local jar is recorded.
pub fn local_key(filename: &str, mod_id: Option<&str>) -> (r: String)
    ensures
        r@ == local_key_spec(filename@, match mod_id { Some(id) => Some(id@), None => None }),
{
    match mod_id {
        Some(id) => {
            let lower = to_lowercase(id);
            concat2("local:", lower.as_str())
        },
        None => {
            let slug = local_key_from_filename(filename);
            concat2("local:", slug.as_str())
        },
    }
}

} // verus!

verus! {

pub open spec fn slug_char(c: char) -> bool {
    c == '-' || (is_ascii_alnum(c) && !(65 <= (c as u32) <= 90))
}

/// A slug: not empty, made of lower-case ASCII letters, digits and `-`, with
/// no `-` at either end and never two in a row.
pub open spec fn is_slug(t: Seq<char>) -> bool {
    &&& t.len() > 0
    &&& forall|i: int| 0 <= i < t.len() ==> slug_char(#[trigger] t[i])
    &&& t[0] != '-'
    &&& t.last() != '-'
    &&& forall|i: int| 0 <= i < t.len() - 1 ==> !(#[trigger] t[i] == '-' && t[i + 1] == '-')
}

proof fn lemma_slugify_chars(s: Seq<char>)
    ensures
        forall|i: int| 0 <= i < slugify(s).len() ==> slug_char(#[trigger] slugify(s)[i]),
        forall|i: int| 0 <= i < slugify(s).len() - 1 ==> !(#[trigger] slugify(s)[i] == '-' && slugify(s)[i + 1] == '-'),
    decreases s.len(),
{
    if s.len() > 0 {
        lemma_slugify_chars(s.drop_last());
        let o = slugify(s.drop_last());
        let r = slugify(s);
        assert(('-' as u32) == 45);
        assert forall|i: int| 0 <= i < r.len() implies slug_char(#[trigger] r[i]) by {
            if i < o.len() {
                assert(r[i] == o[i]);
            }
        }
        assert forall|i: int| 0 <= i < r.len() - 1 implies !(#[trigger] r[i] == '-' && r[i + 1] == '-') by {
            if i + 1 < o.len() {
                assert(r[i] == o[i]);
                assert(r[i + 1] == o[i + 1]);
            } else {
                assert(r[i] == o[i]);
            }
        }
    }
}

proof fn lemma_trim_dash_shape(s: Seq<char>) -> (ab: (int, int))
    ensures
        0 <= ab.0 <= ab.1 <= s.len(),
        trim_ch(s, '-') == s.subrange(ab.0, ab.1),
        ab.0 < ab.1 ==> s[ab.0] != '-' && s[ab.1 - 1] != '-',
    decreases s.len(),
{
    let a = lemma_trim_start_dash(s);
    let t = s.skip(a);
    let b = lemma_trim_end_dash(t);
    assert(t.take(b) =~= s.subrange(a, a + b));
    if b > 0 {
        assert(t[0] == s[a]);
    }
    (a, a + b)
}

proof fn lemma_trim_start_dash(s: Seq<char>) -> (a: int)
    ensures
        0 <= a <= s.len(),
        trim_start_by(s, false, '-') == s.skip(a),
        a < s.len() ==> s[a] != '-',
    decreases s.len(),
{
    if s.len() > 0 && cut(false, '-', s[0]) {
        let a = lemma_trim_start_dash(s.drop_first());
        assert(s.drop_first().skip(a) =~= s.skip(a + 1));
        if a < s.drop_first().len() {
            assert(s.drop_first()[a] == s[a + 1]);
        }
        a + 1
    } else {
        assert(s.skip(0) =~= s);
        0
    }
}

proof fn lemma_trim_end_dash(s: Seq<char>) -> (b: int)
    ensures
        0 <= b <= s.len(),
        trim_end_by(s, false, '-') == s.take(b),
        b > 0 ==> s[b - 1] != '-',
    decreases s.len(),
{
    if s.len() > 0 && cut(false, '-', s.last()) {
        let b = lemma_trim_end_dash(s.drop_last());
        assert(s.drop_last().take(b) =~= s.take(b));
        if b > 0 {
            assert(s.drop_last()[b - 1] == s[b - 1]);
        }
        b
    } else {
        assert(s.take(s.len() as int) =~= s);
        s.len() as int
    }
}

/// Every key made from a file name is a slug.
pub proof fn lemma_local_slug_is_slug(filename: Seq<char>)
    ensures
        is_slug(local_slug(filename)),
{
    let stem = if has_suffix(filename, ".jar"@) { filename.take(filename.len() - 4) } else { filename };
    let o = slugify(stem);
    lemma_slugify_chars(stem);
    let (a, b) = lemma_trim_dash_shape(o);
    let t = trim_ch(o, '-');
    if t.len() == 0 {
        reveal_strlit("my-local-mod");
        assert(('-' as u32) == 45);
    } else {
        assert forall|i: int| 0 <= i < t.len() implies slug_char(#[trigger] t[i]) by {
            assert(t[i] == o[a + i]);
        }
        assert forall|i: int| 0 <= i < t.len() - 1 implies !(#[trigger] t[i] == '-' && t[i + 1] == '-') by {
            assert(t[i] == o[a + i]);
            assert(t[i + 1] == o[a + i + 1]);
        }
        assert(t[0] == o[a]);
        assert(t.last() == o[b - 1]);
    }
}

proof fn lemma_slugify_slug_prefix(t: Seq<char>, n: int)
    requires
        is_slug(t),
        0 <= n <= t.len(),
    ensures
        slugify(t.take(n)) == t.take(n),
    decreases n,
{
    if n > 0 {
        lemma_slugify_slug_prefix(t, n - 1);
        assert(t.take(n).drop_last() =~= t.take(n - 1));
        let c = t[n - 1];
        assert(slug_char(c));
        assert(('-' as u32) == 45);
        if c != '-' {
            assert(ascii_lower(c) == c);
            assert(t.take(n - 1).push(c) =~= t.take(n));
        } else {
            assert(n - 1 > 0);
            assert(t[n - 2] != '-');
            assert(t.take(n - 1).last() == t[n - 2]);
            assert(ascii_lower(c) == c);
            assert(t.take(n - 1).push(c) =~= t.take(n));
        }
    } else {
        assert(t.take(0) =~= Seq::<char>::empty());
    }
}

/// Making a key from a key changes nothing.
pub proof fn lemma_local_slug_idempotent(filename: Seq<char>)
    ensures
        local_slug(local_slug(filename)) == local_slug(filename),
{
    let t = local_slug(filename);
    lemma_local_slug_is_slug(filename);
    reveal_strlit(".jar");
    assert(('.' as u32) == 46);
    if has_suffix(t, ".jar"@) {
        assert(".jar"@[0] == '.');
        assert(t[t.len() - 4] == '.');
        assert(slug_char(t[t.len() - 4]));
    }
    lemma_slugify_slug_prefix(t, t.len() as int);
    assert(t.take(t.len() as int) =~= t);
    let (a, b) = lemma_trim_dash_shape(t);
    let a2 = lemma_trim_start_dash(t);
    assert(a2 == 0) by {
        if a2 > 0 {
            assert(trim_start_by(t, false, '-') == trim_start_by(t.drop_first(), false, '-'));
        }
    }
    assert(t.skip(0) =~= t);
    let b2 = lemma_trim_end_dash(t);
    assert(b2 == t.len()) by {
        if b2 < t.len() {
            assert(trim_end_by(t, false, '-') == trim_end_by(t.drop_last(), false, '-'));
        }
    }
    assert(t.take(t.len() as int) =~= t);
}

} // verus!

verus! {

/// A jar added to the project: its key and file name.
pub struct AddedLocalMod {
    pub key: String,
    pub filename: String,
}

pub struct AddLocalModsReport {
    pub added: Vec<AddedLocalMod>,
}

/// The local mods that a project lacks.
pub struct MissingLocalReport {
    pub missing_files: Vec<String>,
    pub missing_lock_entries: Vec<String>,
}

/// A manifest entry asks for a local mod.
pub open spec fn is_local_entry(config: ConduitConfig, i: int) -> bool {
    config.mods.entries()[i].1@ == "local"@
}

/// Manifest entry `i` asks for a local mod that the lock records as local,
/// with file `f`, and `f` is not among `present`.
pub open spec fn entry_misses(config: ConduitConfig, lock: ConduitLock, present: Seq<Seq<char>>, i: int, f: Seq<char>) -> bool {
    is_local_entry(config, i) && match lock.locked_mods.get_spec(config.mods.keys()[i]) {
        Some(m) => m.url@ == "local"@ && m.filename@ == f && !present.contains(f),
        None => false,
    }
}

/// The file of a local mod that the manifest lists, the lock records as
/// local, and that is not among `present`.
pub open spec fn missing_file(config: ConduitConfig, lock: ConduitLock, present: Seq<Seq<char>>, f: Seq<char>) -> bool {
    exists|i: int| 0 <= i < config.mods.len_spec() && #[trigger] entry_misses(config, lock, present, i, f)
}

/// What the project lacks of its local mods: the files, among those the
/// manifest asks for and the lock records as local, that are not in
/// `present` (the locked file names found in the mods folder), sorted and
/// without repeats; and the manifest's local entries that the lock lacks,
/// in key order.
pub fn find_missing_local_mods(config: &ConduitConfig, lock: &ConduitLock, present: &Vec<String>) -> (r: MissingLocalReport)
    requires
        config.wf(),
        lock.wf(),
    ensures
        crate::strmap::sorted_keys(views(r.missing_files@)),
        forall|f: Seq<char>| views(r.missing_files@).contains(f) <==> missing_file(*config, *lock, views(present@), f),
        views(r.missing_lock_entries@) == config.mods.entries().filter(
            |p: (Seq<char>, String)| p.1@ == "local"@ && !lock.locked_mods.contains(p.0)).map_values(
            |p: (Seq<char>, String)| p.0),
{
    let ghost pv = views(present@);
    let ghost pred = |p: (Seq<char>, String)| p.1@ == "local"@ && !lock.locked_mods.contains(p.0);
    let ghost ents = config.mods.entries();
    let mut files: StrMap<()> = StrMap::new();
    let mut entries: Vec<String> = Vec::new();
    proof {
        assert(ents.take(0) =~= Seq::<(Seq<char>, String)>::empty());
        assert(views(entries@) =~= Seq::<Seq<char>>::empty());
        assert(Seq::<(Seq<char>, String)>::empty().filter(pred).map_values(|p: (Seq<char>, String)| p.0) =~= Seq::<Seq<char>>::empty());
    }
    let n = config.mods.len();
    for i in 0..n
        invariant
            n == config.mods.len_spec(),
            config.wf(),
            lock.wf(),
            ents == config.mods.entries(),
            pv == views(present@),
            pred == (|p: (Seq<char>, String)| p.1@ == "local"@ && !lock.locked_mods.contains(p.0)),
            files.wf(),
            forall|f: Seq<char>| files.keys().contains(f) <==> exists|j: int| 0 <= j < i && #[trigger] entry_misses(*config, *lock, pv, j, f),
            views(entries@) == ents.take(i as int).filter(pred).map_values(|p: (Seq<char>, String)| p.0),
    {
        proof {
            assert(ents.take(i + 1).drop_last() =~= ents.take(i as int));
            reveal_with_fuel(Seq::filter, 1);
        }
        let key = config.mods.key_at(i);
        let ghost k = key@;
        assert(config.mods.keys()[i as int] == ents[i as int].0);
        let ghost files_before = files.keys();
        if !str_eq(config.mods.value_at(i).as_str(), "local") {
            assert(!is_local_entry(*config, i as int));
            assert(ents.take(i + 1).filter(pred) =~= ents.take(i as int).filter(pred));
            assert forall|f: Seq<char>| files.keys().contains(f) <==> exists|j: int| 0 <= j < i + 1 && #[trigger] entry_misses(*config, *lock, pv, j, f) by {}
        } else {
            assert(is_local_entry(*config, i as int));
            match lock.locked_mods.get(key.as_str()) {
                Some(locked) => {
                    assert(ents.take(i + 1).filter(pred) =~= ents.take(i as int).filter(pred));
                    if str_eq(locked.url.as_str(), "local") && !contains_str(present, locked.filename.as_str()) {
                        let ghost fname = locked.filename@;
                        files.insert(locked.filename.clone(), ());
                        assert(entry_misses(*config, *lock, pv, i as int, fname));
                        assert forall|f: Seq<char>| files.keys().contains(f) <==> exists|j: int| 0 <= j < i + 1 && #[trigger] entry_misses(*config, *lock, pv, j, f) by {
                            assert(files.keys().to_set().contains(f) == files.keys().contains(f));
                            assert(files_before.to_set().contains(f) == files_before.contains(f));
                            if exists|j: int| 0 <= j < i + 1 && #[trigger] entry_misses(*config, *lock, pv, j, f) {
                                let j = choose|j: int| 0 <= j < i + 1 && #[trigger] entry_misses(*config, *lock, pv, j, f);
                                if j == i {
                                    assert(f == fname);
                                }
                            }
                        }
                    } else {
                        assert forall|f: Seq<char>| files.keys().contains(f) <==> exists|j: int| 0 <= j < i + 1 && #[trigger] entry_misses(*config, *lock, pv, j, f) by {}
                    }
                },
                None => {
                    let ghost before = views(entries@);
                    entries.push(key.clone());
                    assert(views(entries@) =~= before.push(k));
                    assert(ents.take(i + 1).filter(pred) =~= ents.take(i as int).filter(pred).push(ents[i as int]));
                    assert forall|f: Seq<char>| files.keys().contains(f) <==> exists|j: int| 0 <= j < i + 1 && #[trigger] entry_misses(*config, *lock, pv, j, f) by {}
                },
            }
        }
    }
    assert(ents.take(config.mods.len_spec() as int) =~= ents);
    let missing_files = files.key_list();
    MissingLocalReport { missing_files, missing_lock_entries: entries }
}

/// Records a jar in the project: the lock gets an entry under the jar's key
/// (its id is the key, its version and url `local`, its hash the SHA-256 of
/// `jar_bytes`), and for a root jar the manifest asks for the key as
/// `local`. Returns the key and the file name.
pub fn process_local_jar(
    config: &mut ConduitConfig,
    lock: &mut ConduitLock,
    filename: &str,
    jar_bytes: &[u8],
    mod_id: Option<&str>,
    side: ModSide,
    dependencies: Vec<String>,
    is_root: bool,
) -> (r: (String, String))
    requires
        old(config).wf(),
        old(lock).wf(),
    ensures
        final(config).wf(),
        final(lock).wf(),
        r.0@ == local_key_spec(filename@, match mod_id { Some(id) => Some(id@), None => None }),
        r.1@ == filename@,
        is_root ==> final(config).mods.get_spec(r.0@).unwrap()@ == "local"@
            && final(config).mods.keys().to_set() == old(config).mods.keys().to_set().insert(r.0@)
            && forall|k: Seq<char>| k != r.0@ ==> final(config).mods.get_spec(k) == old(config).mods.get_spec(k),
        !is_root ==> final(config).mods.entries() == old(config).mods.entries(),
        final(config).name == old(config).name,
        final(config).mc_version == old(config).mc_version,
        final(config).loader == old(config).loader,
        final(config).instance_type == old(config).instance_type,
        final(lock).locked_mods.get_spec(r.0@) matches Some(m) && m@ == (LockedModView {
            id: r.0@,
            version_id: "local"@,
            filename: filename@,
            url: "local"@,
            hash: hex_lower(sha256_digest(jar_bytes@)),
            dependencies: views(dependencies@),
            side: side,
        }),
        forall|k: Seq<char>| k != r.0@ ==> final(lock).locked_mods.get_spec(k) == old(lock).locked_mods.get_spec(k),
        final(lock).locked_mods.keys().to_set() == old(lock).locked_mods.keys().to_set().insert(r.0@),
        final(lock).version == old(lock).version,
        final(lock).loader_version == old(lock).loader_version,
{
    let hash = sha256_file(jar_bytes);
    let key = local_key(filename, mod_id);
    if is_root {
        config.mods.insert(key.clone(), "local".to_owned());
    }
    let locked = LockedMod {
        id: key.clone(),
        version_id: "local".to_owned(),
        filename: filename.to_owned(),
        url: "local".to_owned(),
        hash,
        dependencies,
        side,
    };
    lock.locked_mods.insert(key.clone(), locked);
    (key, filename.to_owned())
}

} // verus!

verus! {

/// A jar path as given on the command line, made absolute against the
/// project directory.
pub fn normalize_path(project_dir: &str, p: &str) -> (r: String)
    ensures
        r@ == (if crate::engine::paths::is_absolute(p@) { p@ } else { crate::engine::paths::join_path(project_dir@, p@) }),
{
    if crate::engine::paths::path_is_absolute(p) {
        p.to_string()
    } else {
        crate::engine::paths::join(project_dir, p)
    }
}

} // verus!

verus! {

/// A jar being added, as read from disk: its file name, its contents, the
/// id of the first mod it declares (if it declares one) and the side it was
/// found to run on.
pub struct LocalJar {
    pub filename: String,
    pub contents: Vec<u8>,
    pub mod_id: Option<String>,
    pub detected_side: ModSide,
}

pub open spec fn jar_key(j: LocalJar) -> Seq<char> {
    local_key_spec(j.filename@, match j.mod_id {
        Some(id) => Some(id@),
        None => None,
    })
}

pub open spec fn jar_keys(v: Seq<LocalJar>) -> Seq<Seq<char>> {
    v.map_values(|j: LocalJar| jar_key(j))
}

/// The side a jar is recorded with: the one asked for, else the one found.
pub open spec fn jar_side(j: LocalJar, explicit_side: Option<ModSide>) -> ModSide {
    match explicit_side {
        Some(s) => s,
        None => j.detected_side,
    }
}

/// The lock record of a jar.
pub open spec fn jar_record(j: LocalJar, deps: Seq<Seq<char>>, explicit_side: Option<ModSide>) -> LockedModView {
    LockedModView {
        id: jar_key(j),
        version_id: "local"@,
        filename: j.filename@,
        url: "local"@,
        hash: hex_lower(sha256_digest(j.contents@)),
        dependencies: deps,
        side: jar_side(j, explicit_side),
    }
}

/// The last of the first `n` keys equal to `k`, or -1.
pub open spec fn last_index(keys: Seq<Seq<char>>, k: Seq<char>, n: int) -> int
    decreases n,
{
    if n <= 0 {
        -1
    } else if keys[n - 1] == k {
        n - 1
    } else {
        last_index(keys, k, n - 1)
    }
}

proof fn lemma_last_index(keys: Seq<Seq<char>>, k: Seq<char>, n: int)
    requires
        0 <= n <= keys.len(),
    ensures
        -1 <= last_index(keys, k, n) < n,
        last_index(keys, k, n) >= 0 ==> keys[last_index(keys, k, n)] == k,
        last_index(keys, k, n) == -1 <==> !keys.take(n).contains(k),
    decreases n,
{
    if n > 0 {
        lemma_last_index(keys, k, n - 1);
        if keys[n - 1] == k {
            assert(keys.take(n)[n - 1] == k);
        } else {
            assert(keys.take(n).drop_last() =~= keys.take(n - 1));
            if keys.take(n).contains(k) {
                let j = choose|j: int| 0 <= j < n && keys.take(n)[j] == k;
                assert(keys.take(n - 1)[j] == k);
            }
            if keys.take(n - 1).contains(k) {
                let j = choose|j: int| 0 <= j < n - 1 && #[trigger] keys.take(n - 1)[j] == k;
                assert(keys.take(n)[j] == k);
            }
        }
    }
}

/// The lock after recording the first `n` of `all` (dependencies first,
/// the first `nd` of them) over `base`: each key holds the record of the
/// last jar with that key.
pub open spec fn records_match(
    lock: ConduitLock,
    base: ConduitLock,
    all: Seq<LocalJar>,
    nd: int,
    dep_keys: Seq<Seq<char>>,
    explicit_side: Option<ModSide>,
    n: int,
) -> bool {
    &&& lock.wf()
    &&& lock.version == base.version
    &&& lock.loader_version == base.loader_version
    &&& lock.locked_mods.keys().to_set() == base.locked_mods.keys().to_set().union(jar_keys(all).take(n).to_set())
    &&& forall|k: Seq<char>| #![trigger lock.locked_mods.get_spec(k)]
        last_index(jar_keys(all), k, n) == -1 ==> lock.locked_mods.get_spec(k) == base.locked_mods.get_spec(k)
    &&& forall|k: Seq<char>| #![trigger lock.locked_mods.get_spec(k)]
        last_index(jar_keys(all), k, n) >= 0 ==> (lock.locked_mods.get_spec(k) matches Some(m) && m@ == jar_record(
            all[last_index(jar_keys(all), k, n)],
            if last_index(jar_keys(all), k, n) < nd { Seq::empty() } else { dep_keys },
            explicit_side,
        ))
}

/// Adds local jars to the project: first the explicit dependencies (locked,
/// with no dependencies, not asked for by the manifest), then the jars
/// themselves (asked for by the manifest as `local`, locked with the keys
/// of those dependencies); each under its key, with the given side or else
/// the one detected. A later jar with the same key replaces an earlier.
pub fn add_local_mods_to_project(
    config: &mut ConduitConfig,
    lock: &mut ConduitLock,
    explicit_deps: &Vec<LocalJar>,
    jars: &Vec<LocalJar>,
    explicit_side: Option<ModSide>,
) -> (report: AddLocalModsReport)
    requires
        old(config).wf(),
        old(lock).wf(),
    ensures
        final(config).wf(),
        report.added@.len() == jars@.len(),
        forall|i: int| 0 <= i < jars@.len() ==> #[trigger] report.added@[i].key@ == jar_key(jars@[i])
            && report.added@[i].filename@ == jars@[i].filename@,
        final(config).mods.keys().to_set() == old(config).mods.keys().to_set().union(jar_keys(jars@).to_set()),
        forall|k: Seq<char>| #![trigger final(config).mods.get_spec(k)]
            !jar_keys(jars@).contains(k) ==> final(config).mods.get_spec(k) == old(config).mods.get_spec(k),
        forall|k: Seq<char>| #![trigger final(config).mods.get_spec(k)]
            jar_keys(jars@).contains(k) ==> (final(config).mods.get_spec(k) matches Some(v) && v@ == "local"@),
        final(config).name == old(config).name,
        final(config).mc_version == old(config).mc_version,
        final(config).loader == old(config).loader,
        final(config).instance_type == old(config).instance_type,
        records_match(*final(lock), *old(lock), explicit_deps@ + jars@, explicit_deps@.len() as int,
            jar_keys(explicit_deps@), explicit_side, (explicit_deps@.len() + jars@.len()) as int),
{
    let ghost all = explicit_deps@ + jars@;
    let ghost nd = explicit_deps@.len() as int;
    let ghost base = *lock;
    let ghost cbase = *config;
    let mut dep_keys: Vec<String> = Vec::new();
    proof {
        assert(jar_keys(all).take(0) =~= Seq::<Seq<char>>::empty());
        assert(base.locked_mods.keys().to_set().union(Seq::<Seq<char>>::empty().to_set()) =~= base.locked_mods.keys().to_set());
    }
    for i in 0..explicit_deps.len()
        invariant
            all == explicit_deps@ + jars@,
            nd == explicit_deps@.len(),
            config.wf(),
            config.mods.entries() == cbase.mods.entries(),
            config.name == cbase.name,
            config.mc_version == cbase.mc_version,
            config.loader == cbase.loader,
            config.instance_type == cbase.instance_type,
            views(dep_keys@) == jar_keys(explicit_deps@).take(i as int),
            records_match(*lock, base, all, nd, jar_keys(explicit_deps@), explicit_side, i as int),
    {
        let j = &explicit_deps[i];
        let side = match explicit_side {
            Some(s) => s,
            None => j.detected_side,
        };
        let mod_id: Option<&str> = match &j.mod_id {
            Some(id) => Some(id.as_str()),
            None => None,
        };
        let ghost before = *lock;
        let ghost cfg_before = *config;
        let no_deps: Vec<String> = Vec::new();
        assert(views(no_deps@) =~= Seq::<Seq<char>>::empty());
        let (key, _) = process_local_jar(config, lock, j.filename.as_str(), j.contents.as_slice(), mod_id, side, no_deps, false);
        proof {
            assert(config.mods.entries() == cfg_before.mods.entries());
            assert(last_index(jar_keys(all), key@, i + 1) == i);
            assert(jar_keys(all).take(i + 1) =~= jar_keys(all).take(i as int).push(key@));
            jar_keys(all).take(i as int).lemma_push_to_set_commute(key@);
            assert(before.locked_mods.keys().to_set() == base.locked_mods.keys().to_set().union(
                jar_keys(all).take(i as int).to_set()));
            assert(lock.locked_mods.keys().to_set() == before.locked_mods.keys().to_set().insert(key@));
            assert(lock.locked_mods.keys().to_set() =~= base.locked_mods.keys().to_set().union(
                jar_keys(all).take(i + 1).to_set()));
            assert(all[i as int] == explicit_deps@[i as int]);
            assert(jar_keys(all)[i as int] == key@);
            assert(jar_keys(all).take(i + 1) =~= jar_keys(all).take(i as int).push(key@));
            jar_keys(all).take(i as int).lemma_push_to_set_commute(key@);
            assert forall|k: Seq<char>| #![trigger lock.locked_mods.get_spec(k)]
                last_index(jar_keys(all), k, i + 1) == -1 implies lock.locked_mods.get_spec(k) == base.locked_mods.get_spec(k) by {
            }
            assert forall|k: Seq<char>| #![trigger lock.locked_mods.get_spec(k)]
                last_index(jar_keys(all), k, i + 1) >= 0 implies (lock.locked_mods.get_spec(k) matches Some(m) && m@ == jar_record(
                    all[last_index(jar_keys(all), k, i + 1)],
                    if last_index(jar_keys(all), k, i + 1) < nd { Seq::empty() } else { jar_keys(explicit_deps@) },
                    explicit_side,
                )) by {
                if k != key@ {
                    assert(last_index(jar_keys(all), k, i + 1) == last_index(jar_keys(all), k, i as int));
                    assert(before.locked_mods.get_spec(k) == lock.locked_mods.get_spec(k));
                }
            }
        }
        let ghost dk = views(dep_keys@);
        dep_keys.push(key);
        proof {
            assert(views(dep_keys@) =~= dk.push(jar_key(explicit_deps@[i as int])));
            assert(jar_keys(explicit_deps@).take(i + 1) =~= jar_keys(explicit_deps@).take(i as int).push(
                jar_key(explicit_deps@[i as int]),
            ));
        }
    }
    proof {
        assert(jar_keys(explicit_deps@).take(nd) =~= jar_keys(explicit_deps@));
        assert(jar_keys(jars@).take(0) =~= Seq::<Seq<char>>::empty());
        assert(cbase.mods.keys().to_set().union(Seq::<Seq<char>>::empty().to_set()) =~= cbase.mods.keys().to_set());
    }
    let mut added: Vec<AddedLocalMod> = Vec::new();
    for i in 0..jars.len()
        invariant
            all == explicit_deps@ + jars@,
            nd == explicit_deps@.len(),
            views(dep_keys@) == jar_keys(explicit_deps@),
            config.wf(),
            config.name == cbase.name,
            config.mc_version == cbase.mc_version,
            config.loader == cbase.loader,
            config.instance_type == cbase.instance_type,
            config.mods.keys().to_set() == cbase.mods.keys().to_set().union(jar_keys(jars@).take(i as int).to_set()),
            forall|k: Seq<char>| #![trigger config.mods.get_spec(k)]
                !jar_keys(jars@).take(i as int).contains(k) ==> config.mods.get_spec(k) == cbase.mods.get_spec(k),
            forall|k: Seq<char>| #![trigger config.mods.get_spec(k)]
                jar_keys(jars@).take(i as int).contains(k) ==> (config.mods.get_spec(k) matches Some(v) && v@ == "local"@),
            added@.len() == i,
            forall|t: int| 0 <= t < i ==> #[trigger] added@[t].key@ == jar_key(jars@[t]),
            forall|t: int| 0 <= t < i ==> #[trigger] added@[t].filename@ == jars@[t].filename@,
            records_match(*lock, base, all, nd, jar_keys(explicit_deps@), explicit_side, nd + i),
    {
        let j = &jars[i];
        let side = match explicit_side {
            Some(s) => s,
            None => j.detected_side,
        };
        let mod_id: Option<&str> = match &j.mod_id {
            Some(id) => Some(id.as_str()),
            None => None,
        };
        let ghost before = *lock;
        let ghost cfg_before = *config;
        let deps_copy = crate::lock::copy_strings(&dep_keys);
        let (key, filename) = process_local_jar(config, lock, j.filename.as_str(), j.contents.as_slice(), mod_id, side, deps_copy, true);
        proof {
            let n = nd + i;
            assert(last_index(jar_keys(all), key@, n + 1) == n);
            assert(jar_keys(all).take(n + 1) =~= jar_keys(all).take(n).push(key@));
            jar_keys(all).take(n).lemma_push_to_set_commute(key@);
            assert(before.locked_mods.keys().to_set() == base.locked_mods.keys().to_set().union(
                jar_keys(all).take(n).to_set()));
            assert(lock.locked_mods.keys().to_set() == before.locked_mods.keys().to_set().insert(key@));
            assert(lock.locked_mods.keys().to_set() =~= base.locked_mods.keys().to_set().union(
                jar_keys(all).take(n + 1).to_set()));
            assert(config.mods.keys().to_set().contains(key@));
            assert(config.mods.contains(key@));
            assert(jar_keys(jars@).take(i + 1) =~= jar_keys(jars@).take(i as int).push(key@));
            jar_keys(jars@).take(i as int).lemma_push_to_set_commute(key@);
            assert(config.mods.keys().to_set() == cfg_before.mods.keys().to_set().insert(key@));
            assert(config.mods.keys().to_set() =~= cbase.mods.keys().to_set().union(
                jar_keys(jars@).take(i + 1).to_set()));
            assert(all[n] == jars@[i as int]);
            assert(jar_keys(all)[n] == key@);
            assert(jar_keys(all).take(n + 1) =~= jar_keys(all).take(n).push(key@));
            jar_keys(all).take(n).lemma_push_to_set_commute(key@);
            assert(jar_keys(jars@)[i as int] == key@);
            assert(jar_keys(jars@).take(i + 1) =~= jar_keys(jars@).take(i as int).push(key@));
            jar_keys(jars@).take(i as int).lemma_push_to_set_commute(key@);
            assert forall|k: Seq<char>| #![trigger lock.locked_mods.get_spec(k)]
                last_index(jar_keys(all), k, n + 1) == -1 implies lock.locked_mods.get_spec(k) == base.locked_mods.get_spec(k) by {
            }
            assert forall|k: Seq<char>| #![trigger lock.locked_mods.get_spec(k)]
                last_index(jar_keys(all), k, n + 1) >= 0 implies (lock.locked_mods.get_spec(k) matches Some(m) && m@ == jar_record(
                    all[last_index(jar_keys(all), k, n + 1)],
                    if last_index(jar_keys(all), k, n + 1) < nd { Seq::empty() } else { jar_keys(explicit_deps@) },
                    explicit_side,
                )) by {
                if k != key@ {
                    assert(last_index(jar_keys(all), k, n + 1) == last_index(jar_keys(all), k, n));
                    assert(before.locked_mods.get_spec(k) == lock.locked_mods.get_spec(k));
                }
            }
            assert forall|k: Seq<char>| #![trigger config.mods.get_spec(k)]
                !jar_keys(jars@).take(i + 1).contains(k) implies config.mods.get_spec(k) == cbase.mods.get_spec(k) by {
                assert(k != key@) by {
                    assert(jar_keys(jars@).take(i + 1)[i as int] == key@);
                }
                if jar_keys(jars@).take(i as int).contains(k) {
                    let t = choose|t: int| 0 <= t < i && #[trigger] jar_keys(jars@).take(i as int)[t] == k;
                    assert(jar_keys(jars@).take(i + 1)[t] == k);
                }
            }
            assert forall|k: Seq<char>| #![trigger config.mods.get_spec(k)]
                jar_keys(jars@).take(i + 1).contains(k) implies (config.mods.get_spec(k) matches Some(v) && v@ == "local"@) by {
                if k != key@ {
                    let t = choose|t: int| 0 <= t < i + 1 && #[trigger] jar_keys(jars@).take(i + 1)[t] == k;
                    assert(t != i);
                    assert(jar_keys(jars@).take(i as int)[t] == k);
                    assert(cfg_before.mods.get_spec(k) == config.mods.get_spec(k));
                }
            }
        }
        let ghost prev_added = added@;
        added.push(AddedLocalMod { key, filename });
        proof {
            assert(added@[i as int].key@ == jar_key(jars@[i as int]));
            assert(added@[i as int].filename@ == jars@[i as int].filename@);
            assert forall|t: int| 0 <= t < i + 1 implies #[trigger] added@[t].key@ == jar_key(jars@[t]) by {
                if t < i {
                    assert(added@[t] == prev_added[t]);
                    assert(prev_added[t].key@ == jar_key(jars@[t]));
                }
            }
            assert forall|t: int| 0 <= t < i + 1 implies #[trigger] added@[t].filename@ == jars@[t].filename@ by {
                if t < i {
                    assert(added@[t] == prev_added[t]);
                    assert(prev_added[t].filename@ == jars@[t].filename@);
                }
            }
        }
    }
    proof {
        assert(jar_keys(jars@).take(jars@.len() as int) =~= jar_keys(jars@));
    }
    AddLocalModsReport { added }
}

} // verus!

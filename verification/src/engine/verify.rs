//! Checking the files in the mods folder against the hashes in the lock.
use vstd::prelude::*;
use crate::lock::{ConduitLock, LockEntries, LockedMod};
use crate::engine::io::hash::{sha1_file, sha256_file, sha1_digest, sha256_digest, hex_lower};
use crate::text::{str_eq, str_eq_ignore_ascii_case, eq_ignore_ascii_case};

verus! {

#[derive(Clone, Copy, Debug, PartialEq, Eq, Structural)]
pub enum VerifyScope {
    Modrinth,
    Local,
}

pub struct VerifyMismatch {
    pub key: String,
    pub filename: String,
    pub expected: String,
    pub actual: String,
}

pub struct VerifyMissing {
    pub key: String,
    pub filename: String,
}

pub struct VerifyReport {
    pub ok: usize,
    pub mismatch: Vec<VerifyMismatch>,
    pub missing: Vec<VerifyMissing>,
}

pub open spec fn is_local_mod(m: LockedMod) -> bool {
    m.url@ == "local"@
}

/// Whether a check in `scope` looks at mod `m`: `Modrinth` looks at the
/// downloaded mods, `Local` at the local ones.
pub open spec fn in_scope(scope: VerifyScope, m: LockedMod) -> bool {
    match scope {
        VerifyScope::Modrinth => !is_local_mod(m),
        VerifyScope::Local => is_local_mod(m),
    }
}

/// The contents given for the file named `name` (the first pair with it).
pub open spec fn file_of(files: Seq<(String, Vec<u8>)>, name: Seq<char>) -> Option<Seq<u8>>
    decreases files.len(),
{
    if files.len() == 0 {
        None
    } else if files[0].0@ == name {
        Some(files[0].1@)
    } else {
        file_of(files.drop_first(), name)
    }
}

/// The hash of a mod's file as the check computes it: SHA-256 for local
/// mods, SHA-1 for the others, in lower-case hexadecimal.
pub open spec fn actual_hash(m: LockedMod, contents: Seq<u8>) -> Seq<char> {
    if is_local_mod(m) { hex_lower(sha256_digest(contents)) } else { hex_lower(sha1_digest(contents)) }
}

pub open spec fn is_missing(scope: VerifyScope, files: Seq<(String, Vec<u8>)>, p: (Seq<char>, LockedMod)) -> bool {
    in_scope(scope, p.1) && file_of(files, p.1.filename@) is None
}

pub open spec fn is_ok(scope: VerifyScope, files: Seq<(String, Vec<u8>)>, p: (Seq<char>, LockedMod)) -> bool {
    in_scope(scope, p.1) && file_of(files, p.1.filename@) is Some
        && eq_ignore_ascii_case(actual_hash(p.1, file_of(files, p.1.filename@)->0), p.1.hash@)
}

pub open spec fn is_mismatch(scope: VerifyScope, files: Seq<(String, Vec<u8>)>, p: (Seq<char>, LockedMod)) -> bool {
    in_scope(scope, p.1) && file_of(files, p.1.filename@) is Some
        && !eq_ignore_ascii_case(actual_hash(p.1, file_of(files, p.1.filename@)->0), p.1.hash@)
}

pub open spec fn missing_view(m: VerifyMissing) -> (Seq<char>, Seq<char>) {
    (m.key@, m.filename@)
}

pub open spec fn mismatch_view(m: VerifyMismatch) -> (Seq<char>, Seq<char>, Seq<char>, Seq<char>) {
    (m.key@, m.filename@, m.expected@, m.actual@)
}

pub open spec fn expected_missing(scope: VerifyScope, files: Seq<(String, Vec<u8>)>, e: LockEntries) -> Seq<(Seq<char>, Seq<char>)> {
    e.filter(|p: (Seq<char>, LockedMod)| is_missing(scope, files, p)).map_values(
        |p: (Seq<char>, LockedMod)| (p.0, p.1.filename@))
}

pub open spec fn expected_mismatch(scope: VerifyScope, files: Seq<(String, Vec<u8>)>, e: LockEntries)
    -> Seq<(Seq<char>, Seq<char>, Seq<char>, Seq<char>)> {
    e.filter(|p: (Seq<char>, LockedMod)| is_mismatch(scope, files, p)).map_values(
        |p: (Seq<char>, LockedMod)| (p.0, p.1.filename@, p.1.hash@, actual_hash(p.1, file_of(files, p.1.filename@)->0)))
}

fn find_file(files: &Vec<(String, Vec<u8>)>, name: &str) -> (r: Option<usize>)
    ensures
        r matches Some(i) ==> i < files@.len() && file_of(files@, name@) == Some(files@[i as int].1@),
        r is None ==> file_of(files@, name@) is None,
{
    let ghost f = files@;
    assert(f.skip(0) =~= f);
    for i in 0..files.len()
        invariant
            f == files@,
            file_of(f, name@) == file_of(f.skip(i as int), name@),
    {
        if str_eq(files[i].0.as_str(), name) {
            assert(f.skip(i as int)[0] == f[i as int]);
            return Some(i);
        }
        assert(f.skip(i as int).drop_first() =~= f.skip(i + 1));
    }
    assert(f.skip(files@.len() as int) =~= Seq::<(String, Vec<u8>)>::empty());
    None
}

/// Checks each locked mod in `scope` against the file of its name in
/// `files` (the files found in the mods folder with their contents): a mod
/// whose file is absent is missing; one whose file hashes (SHA-256 for local
/// mods, SHA-1 otherwise) to its locked hash, ignoring ASCII case, is
/// counted as ok; any other is a mismatch. Mods are taken in lock order.
pub fn verify_project(lock: &ConduitLock, scope: VerifyScope, files: &Vec<(String, Vec<u8>)>) -> (r: VerifyReport)
    requires
        lock.wf(),
    ensures
        r.ok == lock.entries().filter(|p: (Seq<char>, LockedMod)| is_ok(scope, files@, p)).len(),
        r.missing@.map_values(|m: VerifyMissing| missing_view(m)) == expected_missing(scope, files@, lock.entries()),
        r.mismatch@.map_values(|m: VerifyMismatch| mismatch_view(m)) == expected_mismatch(scope, files@, lock.entries()),
{
    let ghost e = lock.entries();
    let ghost fs = files@;
    let ghost pok = |p: (Seq<char>, LockedMod)| is_ok(scope, fs, p);
    let ghost pmiss = |p: (Seq<char>, LockedMod)| is_missing(scope, fs, p);
    let ghost pbad = |p: (Seq<char>, LockedMod)| is_mismatch(scope, fs, p);
    let ghost fmiss = |p: (Seq<char>, LockedMod)| (p.0, p.1.filename@);
    let ghost fbad = |p: (Seq<char>, LockedMod)| (p.0, p.1.filename@, p.1.hash@, actual_hash(p.1, file_of(fs, p.1.filename@)->0));
    let mut ok: usize = 0;
    let mut mismatch: Vec<VerifyMismatch> = Vec::new();
    let mut missing: Vec<VerifyMissing> = Vec::new();
    proof { reveal_strlit("local"); }
    assert(e.take(0) =~= Seq::<(Seq<char>, LockedMod)>::empty());
    assert(missing@.map_values(|m: VerifyMissing| missing_view(m)) =~= e.take(0).filter(pmiss).map_values(fmiss));
    assert(mismatch@.map_values(|m: VerifyMismatch| mismatch_view(m)) =~= e.take(0).filter(pbad).map_values(fbad));
    let n = lock.locked_mods.len();
    for i in 0..n
        invariant
            n == e.len(),
            e == lock.entries(),
            fs == files@,
            pok == (|p: (Seq<char>, LockedMod)| is_ok(scope, fs, p)),
            pmiss == (|p: (Seq<char>, LockedMod)| is_missing(scope, fs, p)),
            pbad == (|p: (Seq<char>, LockedMod)| is_mismatch(scope, fs, p)),
            fmiss == (|p: (Seq<char>, LockedMod)| (p.0, p.1.filename@)),
            fbad == (|p: (Seq<char>, LockedMod)| (p.0, p.1.filename@, p.1.hash@, actual_hash(p.1, file_of(fs, p.1.filename@)->0))),
            ok == e.take(i as int).filter(pok).len(),
            missing@.map_values(|m: VerifyMissing| missing_view(m)) == e.take(i as int).filter(pmiss).map_values(fmiss),
            mismatch@.map_values(|m: VerifyMismatch| mismatch_view(m)) == e.take(i as int).filter(pbad).map_values(fbad),
    {
        proof {
            assert(e.take(i + 1).drop_last() =~= e.take(i as int));
            reveal_with_fuel(Seq::filter, 1);
            e.take(i as int).lemma_filter_len(pok);
        }
        let key = lock.locked_mods.key_at(i);
        let m = lock.locked_mods.value_at(i);
        let ghost p = e[i as int];
        assert(e.take(i + 1).last() == p);
        assert(p.0 == key@ && p.1 == *m);
        let is_local = str_eq(m.url.as_str(), "local");
        let wanted = match scope {
            VerifyScope::Modrinth => !is_local,
            VerifyScope::Local => is_local,
        };
        let ghost before_miss = missing@.map_values(|m: VerifyMissing| missing_view(m));
        let ghost before_bad = mismatch@.map_values(|m: VerifyMismatch| mismatch_view(m));
        if !wanted {
            assert(!pok(p) && !pmiss(p) && !pbad(p));
            assert(e.take(i + 1).filter(pok) =~= e.take(i as int).filter(pok));
            assert(e.take(i + 1).filter(pmiss) =~= e.take(i as int).filter(pmiss));
            assert(e.take(i + 1).filter(pbad) =~= e.take(i as int).filter(pbad));
        } else {
            match find_file(files, m.filename.as_str()) {
                None => {
                    missing.push(VerifyMissing { key: key.clone(), filename: m.filename.clone() });
                    assert(pmiss(p) && !pok(p) && !pbad(p));
                    assert(missing@.map_values(|m: VerifyMissing| missing_view(m)) =~= before_miss.push(fmiss(p)));
                    assert(e.take(i + 1).filter(pmiss) =~= e.take(i as int).filter(pmiss).push(p));
                    assert(e.take(i + 1).filter(pmiss).map_values(fmiss) =~= e.take(i as int).filter(pmiss).map_values(fmiss).push(fmiss(p)));
                    assert(e.take(i + 1).filter(pok) =~= e.take(i as int).filter(pok));
                    assert(e.take(i + 1).filter(pbad) =~= e.take(i as int).filter(pbad));
                },
                Some(fi) => {
                    let contents = files[fi].1.as_slice();
                    let actual = if is_local { sha256_file(contents) } else { sha1_file(contents) };
                    assert(actual@ == actual_hash(*m, file_of(fs, m.filename@)->0));
                    if str_eq_ignore_ascii_case(actual.as_str(), m.hash.as_str()) {
                        ok = ok + 1;
                        assert(pok(p) && !pmiss(p) && !pbad(p));
                        assert(e.take(i + 1).filter(pok) =~= e.take(i as int).filter(pok).push(p));
                        assert(e.take(i + 1).filter(pmiss) =~= e.take(i as int).filter(pmiss));
                        assert(e.take(i + 1).filter(pbad) =~= e.take(i as int).filter(pbad));
                    } else {
                        mismatch.push(VerifyMismatch {
                            key: key.clone(),
                            filename: m.filename.clone(),
                            expected: m.hash.clone(),
                            actual,
                        });
                        assert(pbad(p) && !pmiss(p) && !pok(p));
                        assert(mismatch@.map_values(|m: VerifyMismatch| mismatch_view(m)) =~= before_bad.push(fbad(p)));
                        assert(e.take(i + 1).filter(pbad) =~= e.take(i as int).filter(pbad).push(p));
                        assert(e.take(i + 1).filter(pbad).map_values(fbad) =~= e.take(i as int).filter(pbad).map_values(fbad).push(fbad(p)));
                        assert(e.take(i + 1).filter(pok) =~= e.take(i as int).filter(pok));
                        assert(e.take(i + 1).filter(pmiss) =~= e.take(i as int).filter(pmiss));
                    }
                },
            }
        }
    }
    assert(e.take(n as int) =~= e);
    VerifyReport { ok, mismatch, missing }
}

} // verus!

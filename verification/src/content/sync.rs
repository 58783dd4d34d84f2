//! How the files found on disk are brought together with those recorded: which
//! keep their record, which inherit one from a file that is gone, and which are
//! new.
use vstd::prelude::*;

use crate::decimal::{numeral, print_u64};
use crate::names::{NameMap, NameSet};
use crate::text::{chars_of, concat3, ends_with, first_segment, str_eq, string_of};

use super::file::{
    identity_changed, physical_file_identity_changed, project_type_from_relative_path, type_of_path,
    InstanceFile,
};

verus! {

/// A file found on disk.
#[derive(Clone, Debug, PartialEq, Eq)]
pub struct ScannedFile {
    pub relative_path: String,
    pub file_name: String,
    pub enabled: bool,
    pub size: u64,
    /// The name under which its hash is cached.
    pub hash_cache_key: String,
}

/// A file found on disk, with what it is recorded by.
#[derive(Clone, Debug, PartialEq, Eq)]
pub struct FoundFile {
    pub file: ScannedFile,
    /// The hash of what is on disk, taken where the file is recorded.
    pub disk_hash: Option<String>,
    /// The name that the file gets if it is new.
    pub fresh_id: String,
}

/// A cached hash.
#[derive(Clone, Debug, PartialEq, Eq)]
pub struct CachedFileHash {
    pub path: String,
    pub size: u64,
    pub hash: String,
}

/// A path without the endings that mark a file as disabled.
pub open spec fn without_disabled(s: Seq<char>) -> Seq<char>
    decreases s.len(),
{
    if ".disabled"@.len() > 0 && ".disabled"@.is_suffix_of(s) {
        without_disabled(s.take(s.len() - ".disabled"@.len()))
    } else {
        s
    }
}

/// `s` without the endings that mark a file as disabled.
pub fn trim_disabled(s: &str) -> (r: String)
    ensures
        r@ == without_disabled(s@),
{
    proof {
        reveal_strlit(".disabled");
    }
    let mut rest = s.to_owned();
    while ends_with(rest.as_str(), ".disabled")
        invariant
            ".disabled"@.len() == 9,
            without_disabled(rest@) == without_disabled(s@),
        decreases rest@.len(),
    {
        let chars = chars_of(rest.as_str());
        let shorter = string_of(&chars, 0, chars.len() - 9);
        assert(shorter@ =~= rest@.take(rest@.len() - 9));
        rest = shorter;
    }
    rest
}

/// The name under which a hash is found again.
pub open spec fn hash_key(hash: CachedFileHash) -> Seq<char> {
    numeral(hash.size as nat) + "-"@ + without_disabled(hash.path@)
}

/// The last of `hashes` that is found under `key`.
pub open spec fn last_hash(hashes: Seq<CachedFileHash>, key: Seq<char>) -> Option<CachedFileHash>
    decreases hashes.len(),
{
    if hashes.len() == 0 {
        None
    } else if hash_key(hashes.last()) == key {
        Some(hashes.last())
    } else {
        last_hash(hashes.drop_last(), key)
    }
}

fn find_hash<'a>(hashes: &'a Vec<CachedFileHash>, key: &str) -> (r: Option<&'a CachedFileHash>)
    ensures
        match r {
            Some(hash) => last_hash(hashes@, key@) == Some(*hash),
            None => last_hash(hashes@, key@) is None,
        },
{
    let mut n: usize = hashes.len();
    assert(hashes@.take(n as int) =~= hashes@);
    while n > 0
        invariant
            n <= hashes@.len(),
            last_hash(hashes@.take(n as int), key@) == last_hash(hashes@, key@),
        decreases n,
    {
        let hash = &hashes[n - 1];
        let size = print_u64(hash.size);
        let path = trim_disabled(hash.path.as_str());
        let found = concat3(size.as_str(), "-", path.as_str());
        proof {
            let now = hashes@.take(n as int);
            assert(now.drop_last() =~= hashes@.take(n - 1));
            assert(now.last() == hashes@[n - 1]);
        }
        if str_eq(found.as_str(), key) {
            return Some(hash);
        }
        n = n - 1;
    }
    None
}

/// The last of `existing` that is recorded under `path`.
pub open spec fn row_at(existing: Seq<InstanceFile>, path: Seq<char>) -> Option<InstanceFile>
    decreases existing.len(),
{
    if existing.len() == 0 {
        None
    } else if existing.last().relative_path@ == path {
        Some(existing.last())
    } else {
        row_at(existing.drop_last(), path)
    }
}

/// The record of the file at `path`.
pub fn find_row<'a>(existing: &'a Vec<InstanceFile>, path: &str) -> (r: Option<&'a InstanceFile>)
    ensures
        match r {
            Some(row) => row_at(existing@, path@) == Some(*row),
            None => row_at(existing@, path@) is None,
        },
{
    let mut n: usize = existing.len();
    assert(existing@.take(n as int) =~= existing@);
    while n > 0
        invariant
            n <= existing@.len(),
            row_at(existing@.take(n as int), path@) == row_at(existing@, path@),
        decreases n,
    {
        let row = &existing[n - 1];
        proof {
            let now = existing@.take(n as int);
            assert(now.drop_last() =~= existing@.take(n - 1));
            assert(now.last() == existing@[n - 1]);
        }
        if str_eq(row.relative_path.as_str(), path) {
            return Some(row);
        }
        n = n - 1;
    }
    None
}

/// Whether what is recorded for `row` may pass to a file at `path`: its own file
/// is gone, nothing else has it yet, and both lie where the same known kind of
/// content does.
pub open spec fn may_pass(
    row: InstanceFile,
    path: Seq<char>,
    scanned: Set<Seq<char>>,
    claimed: Set<Seq<char>>,
) -> bool {
    &&& !scanned.contains(row.relative_path@)
    &&& !claimed.contains(row.id@)
    &&& type_of_path(path) is Some
    &&& type_of_path(path) == type_of_path(row.relative_path@)
}

/// The only member of `rows`, if it may pass to a file at `path`.
pub open spec fn only_passing(
    rows: Seq<InstanceFile>,
    path: Seq<char>,
    scanned: Set<Seq<char>>,
    claimed: Set<Seq<char>>,
) -> Option<InstanceFile> {
    if rows.len() == 1 && may_pass(rows[0], path, scanned, claimed) {
        Some(rows[0])
    } else {
        None
    }
}

/// The records of files with this hash.
pub open spec fn rows_with_hash(existing: Seq<InstanceFile>, sha1: Seq<char>) -> Seq<
    InstanceFile,
> {
    existing.filter(|f: InstanceFile| f.sha1@ == sha1)
}

/// The record that a new file at `path` with this hash inherits: the only one
/// with the hash, if it may pass to the file.
pub open spec fn reclaimed(
    sha1: Seq<char>,
    path: Seq<char>,
    existing: Seq<InstanceFile>,
    scanned: Set<Seq<char>>,
    claimed: Set<Seq<char>>,
) -> Option<InstanceFile> {
    only_passing(rows_with_hash(existing, sha1), path, scanned, claimed)
}

/// The records of files with this hash, other than `id`, that content entries
/// speak of.
pub open spec fn tracked_rows(
    existing: Seq<InstanceFile>,
    sha1: Seq<char>,
    entries: Set<Seq<char>>,
    id: Seq<char>,
) -> Seq<InstanceFile> {
    existing.filter(
        |f: InstanceFile| f.sha1@ == sha1 && entries.contains(f.id@) && f.id@ != id,
    )
}

/// The record that hands what it has over to the record `id`, of which no
/// content entry speaks, of a file at `path` with this hash.
pub open spec fn merged(
    sha1: Seq<char>,
    path: Seq<char>,
    id: Seq<char>,
    existing: Seq<InstanceFile>,
    entries: Set<Seq<char>>,
    scanned: Set<Seq<char>>,
    claimed: Set<Seq<char>>,
) -> Option<InstanceFile> {
    only_passing(tracked_rows(existing, sha1, entries, id), path, scanned, claimed)
}

fn passes(row: &InstanceFile, path: &str, scanned: &NameSet, claimed: &NameSet) -> (r: bool)
    ensures
        r == may_pass(*row, path@, scanned@, claimed@),
{
    if scanned.contains(row.relative_path.as_str()) || claimed.contains(row.id.as_str()) {
        return false;
    }
    let new_type = project_type_from_relative_path(path);
    let old_type = project_type_from_relative_path(row.relative_path.as_str());
    match (new_type, old_type) {
        (Some(new_type), Some(old_type)) => new_type == old_type,
        _ => false,
    }
}

/// The only record that a new file at `new_relative_path` with this hash can
/// safely inherit.
pub fn reclaimable_existing_file<'a>(
    sha1: &str,
    new_relative_path: &str,
    existing: &'a Vec<InstanceFile>,
    scanned_paths: &NameSet,
    claimed_ids: &NameSet,
) -> (r: Option<&'a InstanceFile>)
    ensures
        match r {
            Some(row) => reclaimed(
                sha1@,
                new_relative_path@,
                existing@,
                scanned_paths@,
                claimed_ids@,
            ) == Some(*row),
            None => reclaimed(
                sha1@,
                new_relative_path@,
                existing@,
                scanned_paths@,
                claimed_ids@,
            ) is None,
        },
{
    let mut candidate: Option<&'a InstanceFile> = None;
    let mut n: usize = 0;
    while n < existing.len()
        invariant
            n <= existing@.len(),
            ({
                let rows = rows_with_hash(existing@.take(n as int), sha1@);
                match candidate {
                    Some(row) => rows.len() == 1 && rows[0] == *row,
                    None => rows.len() == 0,
                }
            }),
        decreases existing@.len() - n,
    {
        let same = str_eq(existing[n].sha1.as_str(), sha1);
        proof {
            lemma_filter_step(existing@, n as int, |f: InstanceFile| f.sha1@ == sha1@);
        }
        if same {
            if candidate.is_some() {
                proof {
                    lemma_filter_grows(
                        existing@,
                        n + 1,
                        |f: InstanceFile| f.sha1@ == sha1@,
                    );
                }
                return None;
            }
            candidate = Some(&existing[n]);
        }
        n = n + 1;
    }
    assert(existing@.take(n as int) =~= existing@);
    match candidate {
        Some(row) => if passes(row, new_relative_path, scanned_paths, claimed_ids) {
            Some(row)
        } else {
            None
        },
        None => None,
    }
}

/// The only record of which content entries speak that should hand what it has
/// over to the record `untracked_file_id`, of a file at `new_relative_path` with
/// this hash.
pub fn mergeable_tracked_file<'a>(
    sha1: &str,
    new_relative_path: &str,
    untracked_file_id: &str,
    existing: &'a Vec<InstanceFile>,
    entry_file_ids: &NameSet,
    scanned_paths: &NameSet,
    claimed_ids: &NameSet,
) -> (r: Option<&'a InstanceFile>)
    ensures
        match r {
            Some(row) => merged(
                sha1@,
                new_relative_path@,
                untracked_file_id@,
                existing@,
                entry_file_ids@,
                scanned_paths@,
                claimed_ids@,
            ) == Some(*row),
            None => merged(
                sha1@,
                new_relative_path@,
                untracked_file_id@,
                existing@,
                entry_file_ids@,
                scanned_paths@,
                claimed_ids@,
            ) is None,
        },
{
    let ghost entries = entry_file_ids@;
    let ghost keep = |f: InstanceFile|
        f.sha1@ == sha1@ && entries.contains(f.id@) && f.id@ != untracked_file_id@;
    let mut candidate: Option<&'a InstanceFile> = None;
    let mut n: usize = 0;
    while n < existing.len()
        invariant
            n <= existing@.len(),
            entries == entry_file_ids@,
            keep == (|f: InstanceFile|
                f.sha1@ == sha1@ && entries.contains(f.id@) && f.id@ != untracked_file_id@),
            ({
                let rows = existing@.take(n as int).filter(keep);
                match candidate {
                    Some(row) => rows.len() == 1 && rows[0] == *row,
                    None => rows.len() == 0,
                }
            }),
        decreases existing@.len() - n,
    {
        let row = &existing[n];
        let same = str_eq(row.sha1.as_str(), sha1) && entry_file_ids.contains(row.id.as_str())
            && !str_eq(row.id.as_str(), untracked_file_id);
        proof {
            lemma_filter_step(existing@, n as int, keep);
        }
        if same {
            if candidate.is_some() {
                proof {
                    lemma_filter_grows(existing@, n + 1, keep);
                }
                return None;
            }
            candidate = Some(row);
        }
        n = n + 1;
    }
    assert(existing@.take(n as int) =~= existing@);
    match candidate {
        Some(row) => if passes(row, new_relative_path, scanned_paths, claimed_ids) {
            Some(row)
        } else {
            None
        },
        None => None,
    }
}

proof fn lemma_filter_step<A>(s: Seq<A>, n: int, keep: spec_fn(A) -> bool)
    requires
        0 <= n < s.len(),
    ensures
        s.take(n + 1).filter(keep) == if keep(s[n]) {
            s.take(n).filter(keep).push(s[n])
        } else {
            s.take(n).filter(keep)
        },
{
    reveal(Seq::filter);
    let longer = s.take(n + 1);
    assert(longer.drop_last() =~= s.take(n));
    assert(longer.last() == s[n]);
}

proof fn lemma_filter_grows<A>(s: Seq<A>, n: int, keep: spec_fn(A) -> bool)
    requires
        0 <= n <= s.len(),
    ensures
        s.take(n).filter(keep).len() <= s.filter(keep).len(),
    decreases s.len() - n,
{
    if n == s.len() {
        assert(s.take(n) =~= s);
    } else {
        lemma_filter_step(s, n, keep);
        lemma_filter_grows(s, n + 1, keep);
    }
}

/// What a synchronization starts from.
pub struct SyncInputs {
    pub instance_id: String,
    /// The files found on disk.
    pub found: Seq<FoundFile>,
    /// The hashes that are cached.
    pub hashes: Seq<CachedFileHash>,
    /// The recorded files.
    pub existing: Seq<InstanceFile>,
    /// The recorded files that content entries speak of.
    pub entries: Set<Seq<char>>,
    pub now: i64,
}

/// What a synchronization has decided so far.
pub struct SyncModel {
    pub files: Seq<InstanceFile>,
    /// The records that were handed on.
    pub claimed: Set<Seq<char>>,
    /// For the path of a file that inherits a record, the path of that record.
    pub reclaims: Map<Seq<char>, String>,
    /// For the path of a file whose record takes another over, the latter's name.
    pub merges: Map<Seq<char>, String>,
    /// The records whose files were changed from outside.
    pub changed: Set<Seq<char>>,
}

/// The paths of the files found.
pub open spec fn found_paths(found: Seq<FoundFile>) -> Set<Seq<char>> {
    found.map_values(|f: FoundFile| f.file.relative_path@).to_set()
}

/// The hash and the size of the `i`th file. A recorded file was hashed on disk; a
/// new one has a cached hash. Without one the file is passed over.
pub open spec fn content_of(inputs: SyncInputs, i: int) -> Option<(String, u64)> {
    let file = inputs.found[i].file;
    if row_at(inputs.existing, file.relative_path@) is Some {
        match inputs.found[i].disk_hash {
            Some(sha1) => Some((sha1, file.size)),
            None => None,
        }
    } else {
        match last_hash(inputs.hashes, without_disabled(file.hash_cache_key@)) {
            Some(hash) => Some((hash.hash, hash.size)),
            None => None,
        }
    }
}

/// The record that the `i`th file inherits.
pub open spec fn reclaim_at(inputs: SyncInputs, i: int, claimed: Set<Seq<char>>) -> Option<
    InstanceFile,
> {
    let path = inputs.found[i].file.relative_path@;
    if row_at(inputs.existing, path) is Some || content_of(inputs, i) is None {
        None
    } else {
        reclaimed(
            (content_of(inputs, i)->0).0@,
            path,
            inputs.existing,
            found_paths(inputs.found),
            claimed,
        )
    }
}

/// The record that is merged into that of the `i`th file.
pub open spec fn merge_at(inputs: SyncInputs, i: int, claimed: Set<Seq<char>>) -> Option<
    InstanceFile,
> {
    let path = inputs.found[i].file.relative_path@;
    match row_at(inputs.existing, path) {
        Some(row) => if inputs.entries.contains(row.id@) || content_of(inputs, i) is None {
            None
        } else {
            merged(
                (content_of(inputs, i)->0).0@,
                row.relative_path@,
                row.id@,
                inputs.existing,
                inputs.entries,
                found_paths(inputs.found),
                claimed,
            )
        },
        None => None,
    }
}

/// The record that the `i`th file starts from.
pub open spec fn source_at(inputs: SyncInputs, i: int, claimed: Set<Seq<char>>) -> Option<
    InstanceFile,
> {
    match row_at(inputs.existing, inputs.found[i].file.relative_path@) {
        Some(row) => Some(row),
        None => reclaim_at(inputs, i, claimed),
    }
}

/// What is recorded of the `i`th file.
pub open spec fn record_at(inputs: SyncInputs, i: int, claimed: Set<Seq<char>>) -> InstanceFile {
    let file = inputs.found[i].file;
    let (sha1, size) = content_of(inputs, i)->0;
    let source = source_at(inputs, i, claimed);
    InstanceFile {
        id: match source {
            Some(row) => row.id,
            None => inputs.found[i].fresh_id,
        },
        instance_id: inputs.instance_id,
        relative_path: file.relative_path,
        file_name: file.file_name,
        enabled: file.enabled,
        sha1,
        size,
        missing: false,
        added_at: match source {
            Some(row) => row.added_at,
            None => inputs.now,
        },
        modified_at: inputs.now,
        local_mod_data: match source {
            Some(row) => row.local_mod_data,
            None => None,
        },
        icon_path: match source {
            Some(row) => row.icon_path,
            None => None,
        },
    }
}

/// `claimed` with the record `row`, if there is one.
pub open spec fn with_claim(claimed: Set<Seq<char>>, row: Option<InstanceFile>) -> Set<Seq<char>> {
    match row {
        Some(row) => claimed.insert(row.id@),
        None => claimed,
    }
}

/// What is decided once the first `n` files have been looked at.
pub open spec fn decided(inputs: SyncInputs, n: int) -> SyncModel
    decreases n,
{
    if n <= 0 {
        SyncModel {
            files: seq![],
            claimed: Set::empty(),
            reclaims: Map::empty(),
            merges: Map::empty(),
            changed: Set::empty(),
        }
    } else {
        let i = n - 1;
        let before = decided(inputs, i);
        let path = inputs.found[i].file.relative_path@;
        match content_of(inputs, i) {
            None => before,
            Some((sha1, size)) => {
                let reclaim = reclaim_at(inputs, i, before.claimed);
                let merge = merge_at(inputs, i, before.claimed);
                SyncModel {
                    files: before.files.push(record_at(inputs, i, before.claimed)),
                    claimed: with_claim(with_claim(before.claimed, reclaim), merge),
                    reclaims: match reclaim {
                        Some(row) => before.reclaims.insert(path, row.relative_path),
                        None => before.reclaims,
                    },
                    merges: match merge {
                        Some(row) => before.merges.insert(path, row.id),
                        None => before.merges,
                    },
                    changed: match row_at(inputs.existing, path) {
                        Some(row) => if identity_changed(row, sha1@, size) {
                            before.changed.insert(row.id@)
                        } else {
                            before.changed
                        },
                        None => before.changed,
                    },
                }
            },
        }
    }
}

/// What is to be written down for the files found on disk.
pub struct SyncPlan {
    pub files: Vec<InstanceFile>,
    pub reclaims: NameMap<String>,
    pub merges: NameMap<String>,
    /// The records whose files were changed from outside.
    pub changed: NameSet,
}

/// Whether the file at `relative_path` is recorded, so that it has to be hashed.
pub fn needs_disk_hash(existing: &Vec<InstanceFile>, relative_path: &str) -> (r: bool)
    ensures
        r == row_at(existing@, relative_path@) is Some,
{
    find_row(existing, relative_path).is_some()
}

fn collect_paths(found: &Vec<FoundFile>) -> (r: NameSet)
    ensures
        r@ == found_paths(found@),
{
    let mut paths = NameSet::new();
    let mut n: usize = 0;
    assert(found@.take(0).map_values(|f: FoundFile| f.file.relative_path@).to_set()
        =~= Set::empty());
    while n < found.len()
        invariant
            n <= found@.len(),
            paths@ == found_paths(found@.take(n as int)),
        decreases found@.len() - n,
    {
        let _ = paths.insert(found[n].file.relative_path.as_str());
        proof {
            let path = |f: FoundFile| f.file.relative_path@;
            let now = found@.take(n as int).map_values(path);
            let longer = found@.take(n + 1).map_values(path);
            assert(longer =~= now.push(found@[n as int].file.relative_path@));
            crate::names::lemma_push_to_set(now, found@[n as int].file.relative_path@);
        }
        n = n + 1;
    }
    assert(found@.take(n as int) =~= found@);
    paths
}

/// Decides what is to be written down for the files found on disk.
pub fn plan_sync(
    instance_id: &String,
    found: &Vec<FoundFile>,
    hashes: &Vec<CachedFileHash>,
    existing: &Vec<InstanceFile>,
    entry_file_ids: &NameSet,
    now: i64,
) -> (r: SyncPlan)
    ensures
        ({
            let inputs = SyncInputs {
                instance_id: *instance_id,
                found: found@,
                hashes: hashes@,
                existing: existing@,
                entries: entry_file_ids@,
                now,
            };
            let model = decided(inputs, found@.len() as int);
            &&& r.files@ == model.files
            &&& r.reclaims@ == model.reclaims
            &&& r.merges@ == model.merges
            &&& r.changed@ == model.changed
        }),
{
    let ghost inputs = SyncInputs {
        instance_id: *instance_id,
        found: found@,
        hashes: hashes@,
        existing: existing@,
        entries: entry_file_ids@,
        now,
    };
    let paths = collect_paths(found);
    let mut files: Vec<InstanceFile> = Vec::new();
    let mut reclaims: NameMap<String> = NameMap::new();
    let mut merges: NameMap<String> = NameMap::new();
    let mut claimed = NameSet::new();
    let mut changed = NameSet::new();
    let mut n: usize = 0;
    while n < found.len()
        invariant
            n <= found@.len(),
            inputs == (SyncInputs {
                instance_id: *instance_id,
                found: found@,
                hashes: hashes@,
                existing: existing@,
                entries: entry_file_ids@,
                now,
            }),
            paths@ == found_paths(found@),
            files@ == decided(inputs, n as int).files,
            claimed@ == decided(inputs, n as int).claimed,
            reclaims@ == decided(inputs, n as int).reclaims,
            merges@ == decided(inputs, n as int).merges,
            changed@ == decided(inputs, n as int).changed,
        decreases found@.len() - n,
    {
        let entry = &found[n];
        let file = &entry.file;
        let ghost i = n as int;
        let ghost before = claimed@;
        n = n + 1;
        let row = find_row(existing, file.relative_path.as_str());
        let (sha1, size) = match row {
            Some(_) => match &entry.disk_hash {
                Some(sha1) => (sha1.clone(), file.size),
                None => {
                    continue;
                },
            },
            None => {
                let key = trim_disabled(file.hash_cache_key.as_str());
                match find_hash(hashes, key.as_str()) {
                    Some(hash) => (hash.hash.clone(), hash.size),
                    None => {
                        continue;
                    },
                }
            },
        };
        assert(content_of(inputs, i) == Some((sha1, size)));
        let reclaim = match row {
            Some(_) => None,
            None => reclaimable_existing_file(
                sha1.as_str(),
                file.relative_path.as_str(),
                existing,
                &paths,
                &claimed,
            ),
        };
        let merge = match row {
            Some(row) => if entry_file_ids.contains(row.id.as_str()) {
                None
            } else {
                mergeable_tracked_file(
                    sha1.as_str(),
                    row.relative_path.as_str(),
                    row.id.as_str(),
                    existing,
                    entry_file_ids,
                    &paths,
                    &claimed,
                )
            },
            None => None,
        };
        assert(match reclaim {
            Some(taken) => reclaim_at(inputs, i, before) == Some(*taken),
            None => reclaim_at(inputs, i, before) is None,
        });
        assert(match merge {
            Some(taken) => merge_at(inputs, i, before) == Some(*taken),
            None => merge_at(inputs, i, before) is None,
        });
        if let Some(row) = row {
            if physical_file_identity_changed(row, sha1.as_str(), size) {
                let _ = changed.insert(row.id.as_str());
            }
        }
        if let Some(taken) = reclaim {
            let _ = claimed.insert(taken.id.as_str());
            let _ = reclaims.insert(file.relative_path.as_str(), taken.relative_path.clone());
        }
        if let Some(taken) = merge {
            let _ = claimed.insert(taken.id.as_str());
            let _ = merges.insert(file.relative_path.as_str(), taken.id.clone());
        }
        let source = match row {
            Some(row) => Some(row),
            None => reclaim,
        };
        let (id, added_at, local_mod_data, icon_path) = match source {
            Some(row) => (
                row.id.clone(),
                row.added_at,
                row.local_mod_data.clone(),
                row.icon_path.clone(),
            ),
            None => (entry.fresh_id.clone(), now, None, None),
        };
        let record = InstanceFile {
            id,
            instance_id: instance_id.clone(),
            relative_path: file.relative_path.clone(),
            file_name: file.file_name.clone(),
            enabled: file.enabled,
            sha1,
            size,
            missing: false,
            added_at,
            modified_at: now,
            local_mod_data,
            icon_path,
        };
        assert(record == record_at(inputs, i, before));
        files.push(record);
    }
    SyncPlan { files, reclaims, merges, changed }
}

/// One thing that is done to write the record of a file.
#[derive(Clone, Debug, PartialEq, Eq)]
pub enum FileWrite {
    /// The record of this name is taken over by the one at the path.
    Adopt { tracked_file_id: String },
    /// The record is moved here from another path; `after_move` takes whether it
    /// was still there.
    Move { old_relative_path: String },
    /// The record at the path is written anew.
    Upsert,
}

/// How the record of the file at `path` is written: after another is taken over,
/// by moving one, or as it is.
pub open spec fn writes_at(
    merges: Map<Seq<char>, String>,
    reclaims: Map<Seq<char>, String>,
    path: Seq<char>,
) -> Seq<FileWrite> {
    if merges.dom().contains(path) {
        seq![FileWrite::Adopt { tracked_file_id: merges[path] }, FileWrite::Upsert]
    } else if reclaims.dom().contains(path) {
        seq![FileWrite::Move { old_relative_path: reclaims[path] }]
    } else {
        seq![FileWrite::Upsert]
    }
}

/// How the record of the file at `relative_path` is written.
pub fn writes_for(plan: &SyncPlan, relative_path: &str) -> (r: Vec<FileWrite>)
    ensures
        r@ == writes_at(plan.merges@, plan.reclaims@, relative_path@),
{
    let mut writes: Vec<FileWrite> = Vec::new();
    if let Some(tracked_file_id) = plan.merges.get(relative_path) {
        writes.push(FileWrite::Adopt { tracked_file_id: tracked_file_id.clone() });
        writes.push(FileWrite::Upsert);
        return writes;
    }
    if let Some(old_relative_path) = plan.reclaims.get(relative_path) {
        writes.push(FileWrite::Move { old_relative_path: old_relative_path.clone() });
        return writes;
    }
    writes.push(FileWrite::Upsert);
    writes
}

/// What follows the attempt to move a record: one that was no longer there is
/// written anew.
pub fn after_move(moved: bool) -> (r: Option<FileWrite>)
    ensures
        r == if moved {
            None
        } else {
            Some(FileWrite::Upsert)
        },
{
    if moved {
        None
    } else {
        Some(FileWrite::Upsert)
    }
}

proof fn lemma_reclaims_and_merges_are_apart(inputs: SyncInputs, n: int)
    requires
        0 <= n <= inputs.found.len(),
    ensures
        forall|path: Seq<char>| #[trigger]
            decided(inputs, n).reclaims.dom().contains(path) ==> row_at(inputs.existing, path)
                is None,
        forall|path: Seq<char>| #[trigger]
            decided(inputs, n).merges.dom().contains(path) ==> row_at(inputs.existing, path)
                is Some,
    decreases n,
{
    if n > 0 {
        lemma_reclaims_and_merges_are_apart(inputs, n - 1);
        let before = decided(inputs, n - 1);
        let at = inputs.found[n - 1].file.relative_path@;
        assert forall|path: Seq<char>| #[trigger]
            decided(inputs, n).reclaims.dom().contains(path) implies row_at(inputs.existing, path)
            is None by {
            if path != at {
                assert(before.reclaims.dom().contains(path));
            } else if reclaim_at(inputs, n - 1, before.claimed) is None {
                assert(before.reclaims.dom().contains(path));
            }
        }
        assert forall|path: Seq<char>| #[trigger]
            decided(inputs, n).merges.dom().contains(path) implies row_at(inputs.existing, path)
            is Some by {
            if path != at {
                assert(before.merges.dom().contains(path));
            } else if merge_at(inputs, n - 1, before.claimed) is None {
                assert(before.merges.dom().contains(path));
            }
        }
    }
}

/// A record is moved only to a path that has none, and another is taken over only
/// where the path has one: no file asks for both.
pub proof fn law_records_are_moved_or_taken_over(inputs: SyncInputs, path: Seq<char>)
    ensures
        ({
            let model = decided(inputs, inputs.found.len() as int);
            let writes = writes_at(model.merges, model.reclaims, path);
            &&& writes[0] is Move <==> model.reclaims.dom().contains(path)
            &&& writes[0] is Adopt <==> model.merges.dom().contains(path)
            &&& writes[0] is Move ==> row_at(inputs.existing, path) is None
            &&& writes[0] is Adopt ==> row_at(inputs.existing, path) is Some
        }),
{
    lemma_reclaims_and_merges_are_apart(inputs, inputs.found.len() as int);
}

/// Whether the content of an instance gets a new revision: it has content, and
/// what a provider knew of a file no longer holds.
pub fn bumps_revision(has_content_set: bool, invalidated: bool) -> (r: bool)
    ensures
        r == (has_content_set && invalidated),
{
    invalidated && has_content_set
}

/// The records whose references to providers are dropped, where there is content
/// that could have any.
pub fn records_to_invalidate<'a>(plan: &'a SyncPlan, has_content_set: bool) -> (r: Option<
    &'a Vec<String>,
>)
    ensures
        match r {
            Some(ids) => {
                &&& has_content_set
                &&& forall|id: Seq<char>| #[trigger]
                    crate::text::views(ids@).contains(id) <==> plan.changed@.contains(id)
            },
            None => !has_content_set,
        },
{
    if has_content_set {
        let names = plan.changed.names();
        assert forall|id: Seq<char>| #[trigger] crate::text::views(names@).contains(id)
            <==> plan.changed@.contains(id) by {
            assert(crate::text::views(names@) == plan.changed.list());
        }
        Some(names)
    } else {
        None
    }
}

/// The record that the `i`th file takes from another.
pub open spec fn claim_at(inputs: SyncInputs, i: int) -> Option<InstanceFile> {
    let claimed = decided(inputs, i).claimed;
    match reclaim_at(inputs, i, claimed) {
        Some(row) => Some(row),
        None => merge_at(inputs, i, claimed),
    }
}

proof fn lemma_claims_stay(inputs: SyncInputs, i: int, n: int)
    requires
        0 <= i < n,
        claim_at(inputs, i) is Some,
    ensures
        decided(inputs, n).claimed.contains(claim_at(inputs, i)->0.id@),
    decreases n - i,
{
    if n > i + 1 {
        lemma_claims_stay(inputs, i, n - 1);
    }
}

/// No record is handed on to two files.
pub proof fn law_no_record_is_claimed_twice(inputs: SyncInputs, i: int, j: int)
    requires
        0 <= i < j,
        claim_at(inputs, i) is Some,
        claim_at(inputs, j) is Some,
    ensures
        claim_at(inputs, i)->0.id@ != claim_at(inputs, j)->0.id@,
{
    lemma_claims_stay(inputs, i, j);
}

/// A record is handed on only if its own file is gone and the new file lies
/// where the same kind of content does.
pub proof fn law_only_records_of_missing_files_are_claimed(inputs: SyncInputs, i: int)
    requires
        0 <= i < inputs.found.len(),
        claim_at(inputs, i) is Some,
    ensures
        !found_paths(inputs.found).contains(claim_at(inputs, i)->0.relative_path@),
        type_of_path(claim_at(inputs, i)->0.relative_path@) is Some,
        type_of_path(claim_at(inputs, i)->0.relative_path@) == type_of_path(
            inputs.found[i].file.relative_path@,
        ),
{
    let path = inputs.found[i].file.relative_path@;
    if row_at(inputs.existing, path) is Some {
        lemma_row_path(inputs.existing, path);
    }
}

proof fn lemma_row_path(existing: Seq<InstanceFile>, path: Seq<char>)
    requires
        row_at(existing, path) is Some,
    ensures
        row_at(existing, path)->0.relative_path@ == path,
    decreases existing.len(),
{
    if existing.last().relative_path@ != path {
        lemma_row_path(existing.drop_last(), path);
    }
}

/// A recorded file that is still there keeps its record: its name and the time at
/// which it was added.
pub proof fn law_recorded_files_keep_their_record(
    inputs: SyncInputs,
    i: int,
    claimed: Set<Seq<char>>,
)
    requires
        0 <= i < inputs.found.len(),
        row_at(inputs.existing, inputs.found[i].file.relative_path@) is Some,
    ensures
        record_at(inputs, i, claimed).id == row_at(
            inputs.existing,
            inputs.found[i].file.relative_path@,
        )->0.id,
        record_at(inputs, i, claimed).added_at == row_at(
            inputs.existing,
            inputs.found[i].file.relative_path@,
        )->0.added_at,
{
}

/// Every record written belongs to the instance and to a file found on disk, and
/// is not missing; there are no more records than files.
pub proof fn law_records_are_of_found_files(inputs: SyncInputs, n: int)
    requires
        0 <= n <= inputs.found.len(),
    ensures
        decided(inputs, n).files.len() <= n,
        forall|k: int|
            0 <= k < decided(inputs, n).files.len() ==> {
                let file = #[trigger] decided(inputs, n).files[k];
                &&& !file.missing
                &&& file.instance_id == inputs.instance_id
                &&& found_paths(inputs.found).contains(file.relative_path@)
            },
    decreases n,
{
    if n > 0 {
        law_records_are_of_found_files(inputs, n - 1);
        let before = decided(inputs, n - 1);
        let after = decided(inputs, n);
        let paths = inputs.found.map_values(|f: FoundFile| f.file.relative_path@);
        assert(paths[n - 1] == inputs.found[n - 1].file.relative_path@);
        assert(paths.to_set().contains(paths[n - 1]));
        assert forall|k: int| 0 <= k < after.files.len() implies {
            let file = #[trigger] after.files[k];
            &&& !file.missing
            &&& file.instance_id == inputs.instance_id
            &&& found_paths(inputs.found).contains(file.relative_path@)
        } by {
            if k < before.files.len() {
                assert(after.files[k] == before.files[k]);
            }
        }
    }
}

/// A file that was only moved, within the folder of its kind of content, keeps
/// its record: its name, the time at which it was added and what was read from it.
pub proof fn law_moved_files_keep_their_record(inputs: SyncInputs, i: int, claimed: Set<Seq<char>>)
    requires
        0 <= i < inputs.found.len(),
        row_at(inputs.existing, inputs.found[i].file.relative_path@) is None,
        content_of(inputs, i) is Some,
        ({
            let rows = rows_with_hash(inputs.existing, (content_of(inputs, i)->0).0@);
            &&& rows.len() == 1
            &&& may_pass(
                rows[0],
                inputs.found[i].file.relative_path@,
                found_paths(inputs.found),
                claimed,
            )
        }),
    ensures
        ({
            let row = rows_with_hash(inputs.existing, (content_of(inputs, i)->0).0@)[0];
            let record = record_at(inputs, i, claimed);
            &&& record.id == row.id
            &&& record.added_at == row.added_at
            &&& record.local_mod_data == row.local_mod_data
            &&& record.icon_path == row.icon_path
        }),
{
}

/// A new file inherits nothing if several records, or none, have its hash, or if
/// the only one may not pass to it.
pub proof fn law_ambiguous_files_are_new(inputs: SyncInputs, i: int, claimed: Set<Seq<char>>)
    requires
        0 <= i < inputs.found.len(),
        row_at(inputs.existing, inputs.found[i].file.relative_path@) is None,
        content_of(inputs, i) is Some,
        ({
            let rows = rows_with_hash(inputs.existing, (content_of(inputs, i)->0).0@);
            rows.len() == 1 ==> !may_pass(
                rows[0],
                inputs.found[i].file.relative_path@,
                found_paths(inputs.found),
                claimed,
            )
        }),
    ensures
        ({
            let record = record_at(inputs, i, claimed);
            &&& record.id == inputs.found[i].fresh_id
            &&& record.added_at == inputs.now
            &&& record.local_mod_data is None
            &&& record.icon_path is None
        }),
{
}

proof fn lemma_every_file_is_recorded(inputs: SyncInputs, n: int)
    requires
        0 <= n <= inputs.found.len(),
        forall|i: int| 0 <= i < inputs.found.len() ==> #[trigger] content_of(inputs, i) is Some,
    ensures
        decided(inputs, n).files.len() == n,
        forall|i: int|
            0 <= i < n ==> #[trigger] decided(inputs, n).files[i] == record_at(
                inputs,
                i,
                decided(inputs, i).claimed,
            ),
    decreases n,
{
    if n > 0 {
        lemma_every_file_is_recorded(inputs, n - 1);
        assert(content_of(inputs, n - 1) is Some);
    }
}

proof fn lemma_row_of_distinct(rows: Seq<InstanceFile>, i: int)
    requires
        0 <= i < rows.len(),
        forall|j: int, k: int|
            0 <= j < k < rows.len() ==> (#[trigger] rows[j]).relative_path@ != (
            #[trigger] rows[k]).relative_path@,
    ensures
        row_at(rows, rows[i].relative_path@) == Some(rows[i]),
    decreases rows.len(),
{
    if i < rows.len() - 1 {
        let init = rows.drop_last();
        assert(rows[i].relative_path@ != rows[rows.len() - 1].relative_path@);
        assert(init[i] == rows[i]);
        lemma_row_of_distinct(init, i);
    }
}

proof fn lemma_tracked_rows_exist(
    existing: Seq<InstanceFile>,
    sha1: Seq<char>,
    entries: Set<Seq<char>>,
    id: Seq<char>,
    k: int,
)
    requires
        0 <= k < tracked_rows(existing, sha1, entries, id).len(),
    ensures
        existing.contains(tracked_rows(existing, sha1, entries, id)[k]),
    decreases existing.len(),
{
    reveal(Seq::filter);
    let init = existing.drop_last();
    let before = tracked_rows(init, sha1, entries, id);
    if k < before.len() {
        lemma_tracked_rows_exist(init, sha1, entries, id, k);
        let i = choose|i: int| 0 <= i < init.len() && init[i] == before[k];
        assert(existing[i] == before[k]);
    } else {
        assert(existing[existing.len() - 1] == tracked_rows(existing, sha1, entries, id)[k]);
    }
}

/// Whether `again` looks at the same files as `inputs` once what was decided then
/// is recorded: none was moved, and none has changed.
pub open spec fn nothing_happened(inputs: SyncInputs, again: SyncInputs) -> bool {
    let recorded = decided(inputs, inputs.found.len() as int).files;
    &&& again.existing == recorded
    &&& again.found.len() == inputs.found.len()
    &&& forall|i: int|
        0 <= i < inputs.found.len() ==> {
            let file = #[trigger] again.found[i];
            &&& file.file.relative_path@ == inputs.found[i].file.relative_path@
            &&& file.file.size == recorded[i].size
            &&& file.disk_hash is Some
            &&& file.disk_hash->0@ == recorded[i].sha1@
        }
}

proof fn lemma_again(inputs: SyncInputs, again: SyncInputs, n: int)
    requires
        0 <= n <= inputs.found.len(),
        forall|i: int| 0 <= i < inputs.found.len() ==> #[trigger] content_of(inputs, i) is Some,
        forall|i: int, j: int|
            0 <= i < j < inputs.found.len() ==> (#[trigger] inputs.found[i]).file.relative_path@ != (
            #[trigger] inputs.found[j]).file.relative_path@,
        nothing_happened(inputs, again),
    ensures
        ({
            let before = decided(inputs, inputs.found.len() as int).files;
            let after = decided(again, n);
            &&& after.files.len() == n
            &&& after.changed == Set::<Seq<char>>::empty()
            &&& after.claimed == Set::<Seq<char>>::empty()
            &&& after.reclaims == Map::<Seq<char>, String>::empty()
            &&& after.merges == Map::<Seq<char>, String>::empty()
            &&& forall|i: int|
                0 <= i < n ==> {
                    let file = #[trigger] after.files[i];
                    &&& file.id == before[i].id
                    &&& file.added_at == before[i].added_at
                    &&& file.local_mod_data == before[i].local_mod_data
                    &&& file.icon_path == before[i].icon_path
                    &&& file.sha1@ == before[i].sha1@
                    &&& file.size == before[i].size
                }
        }),
    decreases n,
{
    if n > 0 {
        lemma_again(inputs, again, n - 1);
        let i = n - 1;
        let rows = again.existing;
        lemma_every_file_is_recorded(inputs, inputs.found.len() as int);
        assert forall|j: int, k: int| 0 <= j < k < rows.len() implies (
        #[trigger] rows[j]).relative_path@ != (#[trigger] rows[k]).relative_path@ by {
            assert(inputs.found[j].file.relative_path@ != inputs.found[k].file.relative_path@);
        }
        lemma_row_of_distinct(rows, i);
        let path = again.found[i].file.relative_path@;
        assert(rows[i].relative_path@ == path);
        assert(row_at(rows, path) == Some(rows[i]));
        assert(content_of(again, i) is Some);
        let claimed = decided(again, i).claimed;
        assert(reclaim_at(again, i, claimed) is None);
        assert(merge_at(again, i, claimed) is None) by {
            let sha1 = (content_of(again, i)->0).0@;
            let entries = again.entries;
            let id = rows[i].id@;
            let candidates = tracked_rows(rows, sha1, entries, id);
            if candidates.len() == 1 {
                lemma_tracked_rows_exist(rows, sha1, entries, id, 0);
                let k = choose|k: int| 0 <= k < rows.len() && rows[k] == candidates[0];
                let paths = again.found.map_values(|f: FoundFile| f.file.relative_path@);
                assert(paths[k] == again.found[k].file.relative_path@);
                assert(rows[k].relative_path@ == paths[k]);
                assert(paths.to_set().contains(paths[k]));
            }
        }
    }
}

/// Bringing the files together a second time, with nothing moved or changed
/// since, changes nothing: every file keeps its record, nothing is handed on, and
/// no file counts as changed from outside.
pub proof fn law_a_second_synchronization_changes_nothing(inputs: SyncInputs, again: SyncInputs)
    requires
        forall|i: int| 0 <= i < inputs.found.len() ==> #[trigger] content_of(inputs, i) is Some,
        forall|i: int, j: int|
            0 <= i < j < inputs.found.len() ==> (#[trigger] inputs.found[i]).file.relative_path@ != (
            #[trigger] inputs.found[j]).file.relative_path@,
        nothing_happened(inputs, again),
    ensures
        ({
            let before = decided(inputs, inputs.found.len() as int).files;
            let after = decided(again, again.found.len() as int);
            &&& after.files.len() == before.len()
            &&& after.changed == Set::<Seq<char>>::empty()
            &&& after.reclaims == Map::<Seq<char>, String>::empty()
            &&& after.merges == Map::<Seq<char>, String>::empty()
            &&& forall|i: int|
                0 <= i < before.len() ==> {
                    let file = #[trigger] after.files[i];
                    &&& file.id == before[i].id
                    &&& file.added_at == before[i].added_at
                    &&& file.local_mod_data == before[i].local_mod_data
                    &&& file.icon_path == before[i].icon_path
                    &&& file.sha1@ == before[i].sha1@
                    &&& file.size == before[i].size
                }
        }),
{
    lemma_every_file_is_recorded(inputs, inputs.found.len() as int);
    lemma_again(inputs, again, inputs.found.len() as int);
}

/// The record of a path is the last one that names it, and there is none only if
/// no record names it.
pub proof fn law_the_last_record_of_a_path_counts(existing: Seq<InstanceFile>, path: Seq<char>)
    ensures
        match row_at(existing, path) {
            Some(row) => exists|j: int|
                {
                    &&& 0 <= j < existing.len()
                    &&& #[trigger] existing[j] == row
                    &&& existing[j].relative_path@ == path
                    &&& forall|k: int|
                        j < k < existing.len() ==> (#[trigger] existing[k]).relative_path@ != path
                },
            None => forall|j: int|
                0 <= j < existing.len() ==> (#[trigger] existing[j]).relative_path@ != path,
        },
    decreases existing.len(),
{
    if existing.len() > 0 {
        let init = existing.drop_last();
        let last = existing.len() - 1;
        if existing.last().relative_path@ == path {
            assert(existing[last] == existing.last());
        } else {
            law_the_last_record_of_a_path_counts(init, path);
            if row_at(existing, path) is Some {
                let j = choose|j: int|
                    {
                        &&& 0 <= j < init.len()
                        &&& #[trigger] init[j] == row_at(init, path)->0
                        &&& init[j].relative_path@ == path
                        &&& forall|k: int|
                            j < k < init.len() ==> (#[trigger] init[k]).relative_path@ != path
                    };
                assert(existing[j] == init[j]);
                assert forall|k: int| j < k < existing.len() implies (
                #[trigger] existing[k]).relative_path@ != path by {
                    if k < last {
                        assert(init[k] == existing[k]);
                    }
                }
            } else {
                assert forall|j: int| 0 <= j < existing.len() implies (
                #[trigger] existing[j]).relative_path@ != path by {
                    if j < last {
                        assert(init[j] == existing[j]);
                    }
                }
            }
        }
    }
}

/// A file is told apart from others without its endings `.disabled`: what is left
/// is the front of its path, has no such ending, and is the same however often the
/// file is disabled. A path without the ending is left as it is.
pub proof fn law_disabling_keeps_the_hash(s: Seq<char>)
    ensures
        without_disabled(s + ".disabled"@) == without_disabled(s),
        without_disabled(s).is_prefix_of(s),
        !".disabled"@.is_suffix_of(without_disabled(s)),
        !".disabled"@.is_suffix_of(s) ==> without_disabled(s) == s,
    decreases s.len(),
{
    reveal_strlit(".disabled");
    let ending = ".disabled"@;
    let longer = s + ending;
    assert(longer.subrange(longer.len() - ending.len(), longer.len() as int) =~= ending);
    assert(longer.take(longer.len() - ending.len()) =~= s);
    if ending.is_suffix_of(s) {
        let rest = s.take(s.len() - ending.len());
        law_disabling_keeps_the_hash(rest);
        let left = without_disabled(rest);
        assert(left =~= s.take(left.len() as int));
    } else {
        assert(s =~= s.take(s.len() as int));
    }
}

/// A cached hash is found by its size and by its path, whether or not the file is
/// disabled. The last one counts.
pub proof fn law_hashes_are_found_by_size_and_path(hashes: Seq<CachedFileHash>, key: Seq<char>)
    ensures
        match last_hash(hashes, key) {
            Some(hash) => exists|j: int|
                {
                    &&& 0 <= j < hashes.len()
                    &&& #[trigger] hashes[j] == hash
                    &&& numeral(hash.size as nat) + "-"@ + without_disabled(hash.path@) == key
                    &&& forall|k: int|
                        j < k < hashes.len() ==> numeral((#[trigger] hashes[k]).size as nat) + "-"@
                            + without_disabled(hashes[k].path@) != key
                },
            None => forall|j: int|
                0 <= j < hashes.len() ==> numeral((#[trigger] hashes[j]).size as nat) + "-"@
                    + without_disabled(hashes[j].path@) != key,
        },
    decreases hashes.len(),
{
    if hashes.len() > 0 {
        let init = hashes.drop_last();
        let last = hashes.len() - 1;
        assert(hashes[last] == hashes.last());
        if hash_key(hashes.last()) != key {
            law_hashes_are_found_by_size_and_path(init, key);
            if last_hash(hashes, key) is Some {
                let j = choose|j: int|
                    {
                        &&& 0 <= j < init.len()
                        &&& #[trigger] init[j] == last_hash(init, key)->0
                        &&& numeral(last_hash(init, key)->0.size as nat) + "-"@ + without_disabled(
                            last_hash(init, key)->0.path@,
                        ) == key
                        &&& forall|k: int|
                            j < k < init.len() ==> numeral((#[trigger] init[k]).size as nat) + "-"@
                                + without_disabled(init[k].path@) != key
                    };
                assert(hashes[j] == init[j]);
                assert forall|k: int| j < k < hashes.len() implies numeral(
                    (#[trigger] hashes[k]).size as nat,
                ) + "-"@ + without_disabled(hashes[k].path@) != key by {
                    if k < last {
                        assert(init[k] == hashes[k]);
                    }
                }
            } else {
                assert forall|j: int| 0 <= j < hashes.len() implies numeral(
                    (#[trigger] hashes[j]).size as nat,
                ) + "-"@ + without_disabled(hashes[j].path@) != key by {
                    if j < last {
                        assert(init[j] == hashes[j]);
                    }
                }
            }
        }
    }
}

/// A recorded file counts with the hash of what is on disk, and is passed over
/// without one; any other counts with the size and the hash that are cached for
/// it, and is passed over if none are. A disabled file has the hash that it had
/// while it was enabled.
pub proof fn law_files_count_with_their_hash(inputs: SyncInputs, i: int)
    requires
        0 <= i < inputs.found.len(),
    ensures
        ({
            let entry = inputs.found[i];
            let recorded = exists|j: int|
                0 <= j < inputs.existing.len() && (#[trigger] inputs.existing[j]).relative_path@
                    == entry.file.relative_path@;
            &&& recorded && entry.disk_hash is None ==> content_of(inputs, i) is None
            &&& recorded && entry.disk_hash is Some ==> content_of(inputs, i) == Some(
                (entry.disk_hash->0, entry.file.size),
            )
            &&& !recorded && content_of(inputs, i) is Some ==> exists|j: int|
                {
                    &&& 0 <= j < inputs.hashes.len()
                    &&& (#[trigger] inputs.hashes[j]).hash == (content_of(inputs, i)->0).0
                    &&& inputs.hashes[j].size == (content_of(inputs, i)->0).1
                    &&& numeral(inputs.hashes[j].size as nat) + "-"@ + without_disabled(
                        inputs.hashes[j].path@,
                    ) == without_disabled(entry.file.hash_cache_key@)
                }
            &&& !recorded && content_of(inputs, i) is None ==> forall|j: int|
                0 <= j < inputs.hashes.len() ==> numeral((#[trigger] inputs.hashes[j]).size as nat)
                    + "-"@ + without_disabled(inputs.hashes[j].path@) != without_disabled(
                    entry.file.hash_cache_key@,
                )
        }),
{
    let entry = inputs.found[i];
    law_the_last_record_of_a_path_counts(inputs.existing, entry.file.relative_path@);
    law_hashes_are_found_by_size_and_path(
        inputs.hashes,
        without_disabled(entry.file.hash_cache_key@),
    );
}

/// Name, place and flag of a record are always those of the file on disk, whether
/// the record is kept, inherited or new; it is written down now, for this
/// instance, with the hash and the size of the file. Every file with a hash has
/// such a record.
pub proof fn law_records_describe_the_files_on_disk(inputs: SyncInputs, n: int)
    requires
        0 <= n <= inputs.found.len(),
    ensures
        forall|k: int|
            0 <= k < decided(inputs, n).files.len() ==> exists|i: int|
                {
                    let record = #[trigger] decided(inputs, n).files[k];
                    let file = (#[trigger] inputs.found[i]).file;
                    &&& 0 <= i < n
                    &&& content_of(inputs, i) == Some((record.sha1, record.size))
                    &&& record.relative_path == file.relative_path
                    &&& record.file_name == file.file_name
                    &&& record.enabled == file.enabled
                    &&& record.instance_id == inputs.instance_id
                    &&& record.modified_at == inputs.now
                    &&& !record.missing
                },
        forall|i: int|
            0 <= i < n && content_of(inputs, i) is Some ==> exists|k: int|
                {
                    let record = #[trigger] decided(inputs, n).files[k];
                    let file = (#[trigger] inputs.found[i]).file;
                    &&& 0 <= k < decided(inputs, n).files.len()
                    &&& content_of(inputs, i) == Some((record.sha1, record.size))
                    &&& record.relative_path == file.relative_path
                    &&& record.file_name == file.file_name
                    &&& record.enabled == file.enabled
                },
        decided(inputs, n).files.len() <= n,
    decreases n,
{
    if n > 0 {
        law_records_describe_the_files_on_disk(inputs, n - 1);
        let before = decided(inputs, n - 1).files;
        let after = decided(inputs, n).files;
        assert forall|k: int| 0 <= k < after.len() implies exists|i: int|
            {
                let record = #[trigger] after[k];
                let file = (#[trigger] inputs.found[i]).file;
                &&& 0 <= i < n
                &&& content_of(inputs, i) == Some((record.sha1, record.size))
                &&& record.relative_path == file.relative_path
                &&& record.file_name == file.file_name
                &&& record.enabled == file.enabled
                &&& record.instance_id == inputs.instance_id
                &&& record.modified_at == inputs.now
                &&& !record.missing
            } by {
            if k < before.len() {
                assert(after[k] == before[k]);
                let i = choose|i: int|
                    {
                        let record = before[k];
                        let file = (#[trigger] inputs.found[i]).file;
                        &&& 0 <= i < n - 1
                        &&& content_of(inputs, i) == Some((record.sha1, record.size))
                        &&& record.relative_path == file.relative_path
                        &&& record.file_name == file.file_name
                        &&& record.enabled == file.enabled
                        &&& record.instance_id == inputs.instance_id
                        &&& record.modified_at == inputs.now
                        &&& !record.missing
                    };
                assert(0 <= i < n);
                assert(inputs.found[i].file.relative_path == after[k].relative_path);
            } else {
                assert(inputs.found[n - 1].file.relative_path == after[k].relative_path);
            }
        }
        assert forall|i: int| 0 <= i < n && content_of(inputs, i) is Some implies exists|k: int|
            {
                let record = #[trigger] after[k];
                let file = (#[trigger] inputs.found[i]).file;
                &&& 0 <= k < after.len()
                &&& content_of(inputs, i) == Some((record.sha1, record.size))
                &&& record.relative_path == file.relative_path
                &&& record.file_name == file.file_name
                &&& record.enabled == file.enabled
            } by {
            if i < n - 1 {
                let k = choose|k: int|
                    {
                        let record = #[trigger] before[k];
                        let file = inputs.found[i].file;
                        &&& 0 <= k < before.len()
                        &&& content_of(inputs, i) == Some((record.sha1, record.size))
                        &&& record.relative_path == file.relative_path
                        &&& record.file_name == file.file_name
                        &&& record.enabled == file.enabled
                    };
                assert(after[k] == before[k]);
            } else {
                assert(after[after.len() - 1].relative_path == inputs.found[i].file.relative_path);
            }
        }
    }
}

/// Whether `row` is the only one of `rows` that satisfies `wanted`.
spec fn is_only(rows: Seq<InstanceFile>, j: int, wanted: spec_fn(InstanceFile) -> bool) -> bool {
    &&& 0 <= j < rows.len() && wanted(rows[j])
    &&& forall|k: int| 0 <= k < rows.len() && wanted(#[trigger] rows[k]) ==> k == j
}

proof fn lemma_only_of_filter(rows: Seq<InstanceFile>, wanted: spec_fn(InstanceFile) -> bool)
    ensures
        rows.filter(wanted).len() == 0 <==> forall|k: int|
            0 <= k < rows.len() ==> !wanted(#[trigger] rows[k]),
        rows.filter(wanted).len() == 1 <==> exists|j: int| #[trigger] is_only(rows, j, wanted),
        forall|j: int| #[trigger]
            is_only(rows, j, wanted) ==> rows.filter(wanted) == seq![rows[j]],
    decreases rows.len(),
{
    reveal(Seq::filter);
    if rows.len() > 0 {
        let init = rows.drop_last();
        let last = rows.len() - 1;
        lemma_only_of_filter(init, wanted);
        assert(rows.last() == rows[last]);
        assert(forall|k: int| 0 <= k < last ==> init[k] == rows[k]);
        let before = init.filter(wanted);
        if wanted(rows[last]) {
            if before.len() == 0 {
                assert forall|k: int| 0 <= k < rows.len() && wanted(#[trigger] rows[k]) implies k
                    == last by {
                    if k < last {
                        assert(wanted(init[k]));
                    }
                }
                assert(is_only(rows, last, wanted));
                assert(rows.filter(wanted) =~= seq![rows[last]]);
            } else {
                let k = choose|k: int| 0 <= k < init.len() && wanted(#[trigger] init[k]);
                assert(wanted(rows[k]));
                assert forall|j: int| !#[trigger] is_only(rows, j, wanted) by {
                    assert(wanted(rows[k]) && wanted(rows[last]));
                }
            }
            assert(rows.filter(wanted).len() > 0);
            assert(wanted(rows[last]));
        } else {
            assert forall|j: int| #[trigger] is_only(init, j, wanted) == is_only(rows, j, wanted) by {
                if is_only(init, j, wanted) {
                    assert forall|k: int| 0 <= k < rows.len() && wanted(
                        #[trigger] rows[k],
                    ) implies k == j by {
                        assert(wanted(init[k]));
                    }
                }
                if is_only(rows, j, wanted) {
                    assert(wanted(init[j]));
                    assert forall|k: int| 0 <= k < init.len() && wanted(
                        #[trigger] init[k],
                    ) implies k == j by {
                        assert(wanted(rows[k]));
                    }
                }
            }
            if before.len() == 1 {
                let j = choose|j: int| #[trigger] is_only(init, j, wanted);
                assert(is_only(rows, j, wanted));
            }
            assert forall|j: int| #[trigger]
                is_only(rows, j, wanted) implies rows.filter(wanted) == seq![rows[j]] by {
                assert(is_only(init, j, wanted));
            }
            if rows.filter(wanted).len() == 0 {
                assert forall|k: int| 0 <= k < rows.len() implies !wanted(#[trigger] rows[k]) by {
                    if k < last {
                        assert(!wanted(init[k]));
                    }
                }
            } else {
                let k = choose|k: int| 0 <= k < init.len() && wanted(#[trigger] init[k]);
                assert(wanted(rows[k]));
            }
        }
    }
}

proof fn lemma_hash_filter(
    existing: Seq<InstanceFile>,
    sha1: Seq<char>,
    wanted: spec_fn(InstanceFile) -> bool,
)
    requires
        forall|f: InstanceFile| #[trigger] wanted(f) == (f.sha1@ == sha1),
    ensures
        rows_with_hash(existing, sha1) == existing.filter(wanted),
    decreases existing.len(),
{
    reveal(Seq::filter);
    if existing.len() > 0 {
        lemma_hash_filter(existing.drop_last(), sha1, wanted);
        assert(wanted(existing.last()) == (existing.last().sha1@ == sha1));
    }
}

proof fn lemma_tracked_filter(
    existing: Seq<InstanceFile>,
    sha1: Seq<char>,
    entries: Set<Seq<char>>,
    id: Seq<char>,
    wanted: spec_fn(InstanceFile) -> bool,
)
    requires
        forall|f: InstanceFile| #[trigger]
            wanted(f) == (f.sha1@ == sha1 && entries.contains(f.id@) && f.id@ != id),
    ensures
        tracked_rows(existing, sha1, entries, id) == existing.filter(wanted),
    decreases existing.len(),
{
    reveal(Seq::filter);
    if existing.len() > 0 {
        let last = existing.last();
        lemma_tracked_filter(existing.drop_last(), sha1, entries, id, wanted);
        assert(wanted(last) == (last.sha1@ == sha1 && entries.contains(last.id@) && last.id@ != id));
    }
}

proof fn lemma_rows_with_hash(existing: Seq<InstanceFile>, sha1: Seq<char>, j: int)
    requires
        0 <= j < existing.len(),
        existing[j].sha1@ == sha1,
        forall|k: int|
            0 <= k < existing.len() && (#[trigger] existing[k]).sha1@ == sha1 ==> k == j,
    ensures
        rows_with_hash(existing, sha1) == seq![existing[j]],
{
    let wanted = |f: InstanceFile| f.sha1@ == sha1;
    lemma_only_of_filter(existing, wanted);
    assert(is_only(existing, j, wanted));
    lemma_hash_filter(existing, sha1, wanted);
}

proof fn lemma_only_hash(existing: Seq<InstanceFile>, sha1: Seq<char>) -> (j: int)
    requires
        rows_with_hash(existing, sha1).len() == 1,
    ensures
        0 <= j < existing.len(),
        existing[j].sha1@ == sha1,
        forall|k: int|
            0 <= k < existing.len() && (#[trigger] existing[k]).sha1@ == sha1 ==> k == j,
        rows_with_hash(existing, sha1)[0] == existing[j],
{
    let wanted = |f: InstanceFile| f.sha1@ == sha1;
    lemma_only_of_filter(existing, wanted);
    lemma_hash_filter(existing, sha1, wanted);
    let j = choose|j: int| #[trigger] is_only(existing, j, wanted);
    assert forall|k: int| 0 <= k < existing.len() && (#[trigger] existing[k]).sha1@
        == sha1 implies k == j by {
        assert(wanted(existing[k]));
    }
    j
}

proof fn lemma_tracked_rows(
    existing: Seq<InstanceFile>,
    sha1: Seq<char>,
    entries: Set<Seq<char>>,
    id: Seq<char>,
    j: int,
)
    requires
        0 <= j < existing.len(),
        existing[j].sha1@ == sha1,
        entries.contains(existing[j].id@),
        !entries.contains(id),
        forall|k: int|
            0 <= k < existing.len() && (#[trigger] existing[k]).sha1@ == sha1 && entries.contains(
                existing[k].id@,
            ) ==> k == j,
    ensures
        tracked_rows(existing, sha1, entries, id) == seq![existing[j]],
{
    let wanted = |f: InstanceFile| f.sha1@ == sha1 && entries.contains(f.id@) && f.id@ != id;
    lemma_only_of_filter(existing, wanted);
    assert(is_only(existing, j, wanted));
    lemma_tracked_filter(existing, sha1, entries, id, wanted);
}

proof fn lemma_only_tracked(
    existing: Seq<InstanceFile>,
    sha1: Seq<char>,
    entries: Set<Seq<char>>,
    id: Seq<char>,
) -> (j: int)
    requires
        tracked_rows(existing, sha1, entries, id).len() == 1,
        !entries.contains(id),
    ensures
        0 <= j < existing.len(),
        existing[j].sha1@ == sha1,
        entries.contains(existing[j].id@),
        forall|k: int|
            0 <= k < existing.len() && (#[trigger] existing[k]).sha1@ == sha1 && entries.contains(
                existing[k].id@,
            ) ==> k == j,
        tracked_rows(existing, sha1, entries, id)[0] == existing[j],
{
    let wanted = |f: InstanceFile| f.sha1@ == sha1 && entries.contains(f.id@) && f.id@ != id;
    lemma_only_of_filter(existing, wanted);
    lemma_tracked_filter(existing, sha1, entries, id, wanted);
    let j = choose|j: int| #[trigger] is_only(existing, j, wanted);
    assert forall|k: int| 0 <= k < existing.len() && (#[trigger] existing[k]).sha1@ == sha1
        && entries.contains(existing[k].id@) implies k == j by {
        assert(wanted(existing[k]));
    }
    j
}

/// A new file inherits the record of a file that is gone: the only one with its
/// hash, of which no file found on disk has the path, and which lies in the same
/// folder of content. It then keeps the record's name, the time at which it was
/// added, and what was read from it.
pub proof fn law_renamed_files_inherit(inputs: SyncInputs, i: int, j: int, claimed: Set<Seq<char>>)
    requires
        0 <= i < inputs.found.len(),
        0 <= j < inputs.existing.len(),
        content_of(inputs, i) is Some,
        forall|k: int|
            0 <= k < inputs.existing.len() ==> (#[trigger] inputs.existing[k]).relative_path@
                != inputs.found[i].file.relative_path@,
        inputs.existing[j].sha1@ == (content_of(inputs, i)->0).0@,
        forall|k: int|
            0 <= k < inputs.existing.len() && (#[trigger] inputs.existing[k]).sha1@ == (content_of(
                inputs,
                i,
            )->0).0@ ==> k == j,
        forall|k: int|
            0 <= k < inputs.found.len() ==> (#[trigger] inputs.found[k]).file.relative_path@
                != inputs.existing[j].relative_path@,
        !claimed.contains(inputs.existing[j].id@),
        first_segment(inputs.found[i].file.relative_path@, '/') == first_segment(
            inputs.existing[j].relative_path@,
            '/',
        ),
        ({
            let folder = first_segment(inputs.existing[j].relative_path@, '/');
            ||| folder == "mods"@
            ||| folder == "datapacks"@
            ||| folder == "resourcepacks"@
            ||| folder == "shaderpacks"@
            ||| folder == "saves"@
        }),
    ensures
        reclaim_at(inputs, i, claimed) == Some(inputs.existing[j]),
        record_at(inputs, i, claimed).id == inputs.existing[j].id,
        record_at(inputs, i, claimed).added_at == inputs.existing[j].added_at,
        record_at(inputs, i, claimed).local_mod_data == inputs.existing[j].local_mod_data,
        record_at(inputs, i, claimed).icon_path == inputs.existing[j].icon_path,
        record_at(inputs, i, claimed).file_name == inputs.found[i].file.file_name,
        record_at(inputs, i, claimed).relative_path == inputs.found[i].file.relative_path,
{
    law_the_last_record_of_a_path_counts(inputs.existing, inputs.found[i].file.relative_path@);
    lemma_rows_with_hash(inputs.existing, (content_of(inputs, i)->0).0@, j);
    lemma_not_found(inputs.found, inputs.existing[j].relative_path@);
}

proof fn lemma_not_found(found: Seq<FoundFile>, path: Seq<char>)
    ensures
        found_paths(found).contains(path) <==> exists|k: int|
            0 <= k < found.len() && (#[trigger] found[k]).file.relative_path@ == path,
{
    let paths = found.map_values(|f: FoundFile| f.file.relative_path@);
    if found_paths(found).contains(path) {
        let k = choose|k: int| 0 <= k < paths.len() && paths[k] == path;
        assert(found[k].file.relative_path@ == path);
    }
    if exists|k: int| 0 <= k < found.len() && (#[trigger] found[k]).file.relative_path@ == path {
        let k = choose|k: int|
            0 <= k < found.len() && (#[trigger] found[k]).file.relative_path@ == path;
        assert(paths[k] == path);
        assert(paths.to_set().contains(paths[k]));
    }
}

/// A file inherits from no record but one with its hash, of a file that is gone
/// from the same folder of content, and that no other record shares its hash
/// with. A record that another file has taken already is not handed on, and
/// neither is any to a file that has its own.
pub proof fn law_nothing_else_is_inherited(inputs: SyncInputs, i: int, claimed: Set<Seq<char>>)
    requires
        0 <= i < inputs.found.len(),
        reclaim_at(inputs, i, claimed) is Some,
    ensures
        ({
            let row = reclaim_at(inputs, i, claimed)->0;
            &&& content_of(inputs, i) is Some
            &&& row.sha1@ == (content_of(inputs, i)->0).0@
            &&& !claimed.contains(row.id@)
            &&& exists|j: int|
                {
                    &&& 0 <= j < inputs.existing.len()
                    &&& #[trigger] inputs.existing[j] == row
                    &&& forall|k: int|
                        0 <= k < inputs.existing.len() && (#[trigger] inputs.existing[k]).sha1@
                            == row.sha1@ ==> k == j
                }
            &&& forall|k: int|
                0 <= k < inputs.found.len() ==> (#[trigger] inputs.found[k]).file.relative_path@
                    != row.relative_path@
            &&& forall|k: int|
                0 <= k < inputs.existing.len() ==> (#[trigger] inputs.existing[k]).relative_path@
                    != inputs.found[i].file.relative_path@
            &&& first_segment(row.relative_path@, '/') == first_segment(
                inputs.found[i].file.relative_path@,
                '/',
            )
            &&& record_at(inputs, i, claimed).id == row.id
        }),
{
    let row = reclaim_at(inputs, i, claimed)->0;
    law_the_last_record_of_a_path_counts(inputs.existing, inputs.found[i].file.relative_path@);
    let j = lemma_only_hash(inputs.existing, (content_of(inputs, i)->0).0@);
    assert(inputs.existing[j] == row);
    lemma_not_found(inputs.found, row.relative_path@);
}

/// A file that has a record keeps all that the record says of it besides what is
/// read from the disk.
pub proof fn law_recorded_files_stay_themselves(
    inputs: SyncInputs,
    i: int,
    j: int,
    claimed: Set<Seq<char>>,
)
    requires
        0 <= i < inputs.found.len(),
        0 <= j < inputs.existing.len(),
        inputs.existing[j].relative_path@ == inputs.found[i].file.relative_path@,
        forall|k: int|
            j < k < inputs.existing.len() ==> (#[trigger] inputs.existing[k]).relative_path@
                != inputs.found[i].file.relative_path@,
    ensures
        record_at(inputs, i, claimed).id == inputs.existing[j].id,
        record_at(inputs, i, claimed).added_at == inputs.existing[j].added_at,
        record_at(inputs, i, claimed).local_mod_data == inputs.existing[j].local_mod_data,
        record_at(inputs, i, claimed).icon_path == inputs.existing[j].icon_path,
        reclaim_at(inputs, i, claimed) is None,
{
    law_the_last_record_of_a_path_counts(inputs.existing, inputs.found[i].file.relative_path@);
}

/// A file without a record that inherits none is new: it gets the name made for
/// it, is added now, and nothing is known of its content.
pub proof fn law_other_files_are_new(inputs: SyncInputs, i: int, claimed: Set<Seq<char>>)
    requires
        0 <= i < inputs.found.len(),
        forall|k: int|
            0 <= k < inputs.existing.len() ==> (#[trigger] inputs.existing[k]).relative_path@
                != inputs.found[i].file.relative_path@,
        reclaim_at(inputs, i, claimed) is None,
    ensures
        record_at(inputs, i, claimed).id == inputs.found[i].fresh_id,
        record_at(inputs, i, claimed).added_at == inputs.now,
        record_at(inputs, i, claimed).local_mod_data is None,
        record_at(inputs, i, claimed).icon_path is None,
{
    law_the_last_record_of_a_path_counts(inputs.existing, inputs.found[i].file.relative_path@);
}

/// A file that content entries do not speak of takes over the record of one that
/// is gone and that they do speak of: the only such record with its hash, in the
/// same folder of content.
pub proof fn law_tracked_records_are_merged(
    inputs: SyncInputs,
    i: int,
    own: int,
    j: int,
    claimed: Set<Seq<char>>,
)
    requires
        0 <= i < inputs.found.len(),
        0 <= own < inputs.existing.len(),
        0 <= j < inputs.existing.len(),
        content_of(inputs, i) is Some,
        inputs.existing[own].relative_path@ == inputs.found[i].file.relative_path@,
        forall|k: int|
            own < k < inputs.existing.len() ==> (#[trigger] inputs.existing[k]).relative_path@
                != inputs.found[i].file.relative_path@,
        !inputs.entries.contains(inputs.existing[own].id@),
        inputs.entries.contains(inputs.existing[j].id@),
        inputs.existing[j].sha1@ == (content_of(inputs, i)->0).0@,
        forall|k: int|
            0 <= k < inputs.existing.len() && (#[trigger] inputs.existing[k]).sha1@ == (content_of(
                inputs,
                i,
            )->0).0@ && inputs.entries.contains(inputs.existing[k].id@) ==> k == j,
        forall|k: int|
            0 <= k < inputs.found.len() ==> (#[trigger] inputs.found[k]).file.relative_path@
                != inputs.existing[j].relative_path@,
        !claimed.contains(inputs.existing[j].id@),
        first_segment(inputs.found[i].file.relative_path@, '/') == first_segment(
            inputs.existing[j].relative_path@,
            '/',
        ),
        ({
            let folder = first_segment(inputs.existing[j].relative_path@, '/');
            ||| folder == "mods"@
            ||| folder == "datapacks"@
            ||| folder == "resourcepacks"@
            ||| folder == "shaderpacks"@
            ||| folder == "saves"@
        }),
    ensures
        merge_at(inputs, i, claimed) == Some(inputs.existing[j]),
{
    law_the_last_record_of_a_path_counts(inputs.existing, inputs.found[i].file.relative_path@);
    lemma_tracked_rows(
        inputs.existing,
        (content_of(inputs, i)->0).0@,
        inputs.entries,
        inputs.existing[own].id@,
        j,
    );
    lemma_not_found(inputs.found, inputs.existing[j].relative_path@);
}

/// A record is taken over only by a file that content entries do not speak of,
/// from a file that is gone, that they do speak of, and that has the same hash
/// and lay in the same folder of content.
pub proof fn law_nothing_else_is_merged(inputs: SyncInputs, i: int, claimed: Set<Seq<char>>)
    requires
        0 <= i < inputs.found.len(),
        merge_at(inputs, i, claimed) is Some,
    ensures
        ({
            let row = merge_at(inputs, i, claimed)->0;
            &&& content_of(inputs, i) is Some
            &&& row.sha1@ == (content_of(inputs, i)->0).0@
            &&& inputs.entries.contains(row.id@)
            &&& !claimed.contains(row.id@)
            &&& exists|j: int|
                {
                    &&& 0 <= j < inputs.existing.len()
                    &&& #[trigger] inputs.existing[j] == row
                    &&& forall|k: int|
                        0 <= k < inputs.existing.len() && (#[trigger] inputs.existing[k]).sha1@
                            == row.sha1@ && inputs.entries.contains(inputs.existing[k].id@) ==> k
                            == j
                }
            &&& exists|own: int|
                {
                    &&& 0 <= own < inputs.existing.len()
                    &&& (#[trigger] inputs.existing[own]).relative_path@
                        == inputs.found[i].file.relative_path@
                    &&& !inputs.entries.contains(inputs.existing[own].id@)
                    &&& record_at(inputs, i, claimed).id == inputs.existing[own].id
                }
            &&& forall|k: int|
                0 <= k < inputs.found.len() ==> (#[trigger] inputs.found[k]).file.relative_path@
                    != row.relative_path@
            &&& first_segment(row.relative_path@, '/') == first_segment(
                inputs.found[i].file.relative_path@,
                '/',
            )
        }),
{
    let row = merge_at(inputs, i, claimed)->0;
    law_the_last_record_of_a_path_counts(inputs.existing, inputs.found[i].file.relative_path@);
    let own = row_at(inputs.existing, inputs.found[i].file.relative_path@)->0;
    let j = lemma_only_tracked(
        inputs.existing,
        (content_of(inputs, i)->0).0@,
        inputs.entries,
        own.id@,
    );
    assert(inputs.existing[j] == row);
    lemma_not_found(inputs.found, row.relative_path@);
}

/// A record counts as changed from outside exactly if its file has another hash or
/// another size than the record says.
pub proof fn law_changed_records_differ_from_their_files(inputs: SyncInputs, n: int, id: Seq<char>)
    requires
        0 <= n <= inputs.found.len(),
    ensures
        decided(inputs, n).changed.contains(id) <==> exists|i: int|
            {
                let row = row_at(inputs.existing, (#[trigger] inputs.found[i]).file.relative_path@);
                &&& 0 <= i < n
                &&& row is Some && row->0.id@ == id
                &&& content_of(inputs, i) is Some
                &&& row->0.sha1@ != (content_of(inputs, i)->0).0@ || row->0.size != (content_of(
                    inputs,
                    i,
                )->0).1
            },
    decreases n,
{
    if n > 0 {
        law_changed_records_differ_from_their_files(inputs, n - 1, id);
        let last = n - 1;
        let row = row_at(inputs.existing, inputs.found[last].file.relative_path@);
        let differs = row is Some && row->0.id@ == id && content_of(inputs, last) is Some && (
        row->0.sha1@ != (content_of(inputs, last)->0).0@ || row->0.size != (content_of(
            inputs,
            last,
        )->0).1);
        assert(decided(inputs, n).changed.contains(id) <==> decided(inputs, last).changed.contains(
            id,
        ) || differs);
        if decided(inputs, last).changed.contains(id) {
            let i = choose|i: int|
                {
                    let row = row_at(
                        inputs.existing,
                        (#[trigger] inputs.found[i]).file.relative_path@,
                    );
                    &&& 0 <= i < last
                    &&& row is Some && row->0.id@ == id
                    &&& content_of(inputs, i) is Some
                    &&& row->0.sha1@ != (content_of(inputs, i)->0).0@ || row->0.size != (content_of(
                        inputs,
                        i,
                    )->0).1
                };
            assert(0 <= i < n && inputs.found[i].file == inputs.found[i].file);
        }
        if differs {
            assert(inputs.found[last].file == inputs.found[last].file);
        }
    }
}

/// What a plan says of a path is what was found for the file there: where its
/// record is moved from, or which record it takes over. A record that was handed
/// on is not handed on again.
pub proof fn law_plans_name_what_is_handed_on(inputs: SyncInputs, n: int, i: int)
    requires
        0 <= i < n <= inputs.found.len(),
        forall|a: int, b: int|
            0 <= a < b < inputs.found.len() ==> (#[trigger] inputs.found[a]).file.relative_path@ != (
            #[trigger] inputs.found[b]).file.relative_path@,
        content_of(inputs, i) is Some,
    ensures
        ({
            let plan = decided(inputs, n);
            let path = inputs.found[i].file.relative_path@;
            let reclaim = reclaim_at(inputs, i, decided(inputs, i).claimed);
            let merge = merge_at(inputs, i, decided(inputs, i).claimed);
            &&& plan.reclaims.dom().contains(path) == reclaim is Some
            &&& reclaim is Some ==> plan.reclaims[path] == reclaim->0.relative_path
                && plan.claimed.contains(reclaim->0.id@)
            &&& plan.merges.dom().contains(path) == merge is Some
            &&& merge is Some ==> plan.merges[path] == merge->0.id && plan.claimed.contains(
                merge->0.id@,
            )
        }),
    decreases n,
{
    let path = inputs.found[i].file.relative_path@;
    if n == i + 1 {
        lemma_plans_speak_of_found_paths(inputs, i, path);
    } else {
        law_plans_name_what_is_handed_on(inputs, n - 1, i);
        assert(inputs.found[i].file.relative_path@ != inputs.found[n - 1].file.relative_path@);
    }
}

proof fn lemma_plans_speak_of_found_paths(inputs: SyncInputs, n: int, path: Seq<char>)
    requires
        0 <= n <= inputs.found.len(),
        forall|a: int| 0 <= a < n ==> (#[trigger] inputs.found[a]).file.relative_path@ != path,
    ensures
        !decided(inputs, n).reclaims.dom().contains(path),
        !decided(inputs, n).merges.dom().contains(path),
    decreases n,
{
    if n > 0 {
        lemma_plans_speak_of_found_paths(inputs, n - 1, path);
        assert(inputs.found[n - 1].file.relative_path@ != path);
    }
}

/// However a record is written, it is written once, at the end: after the record
/// that it takes over was adopted by name, or in the place of the one that is
/// moved from its old path.
pub proof fn law_every_record_is_written_once(
    merges: Map<Seq<char>, String>,
    reclaims: Map<Seq<char>, String>,
    path: Seq<char>,
)
    ensures
        ({
            let writes = writes_at(merges, reclaims, path);
            &&& writes.len() > 0
            &&& forall|i: int| 0 <= i < writes.len() - 1 ==> (#[trigger] writes[i]) is Adopt
            &&& !(writes.last() is Adopt)
            &&& merges.dom().contains(path) ==> writes.contains(
                FileWrite::Adopt { tracked_file_id: merges[path] },
            ) && writes.last() == FileWrite::Upsert
            &&& !merges.dom().contains(path) && reclaims.dom().contains(path) ==> writes == seq![
                FileWrite::Move { old_relative_path: reclaims[path] },
            ]
            &&& !merges.dom().contains(path) && !reclaims.dom().contains(path) ==> writes == seq![
                FileWrite::Upsert,
            ]
        }),
{
    let writes = writes_at(merges, reclaims, path);
    if merges.dom().contains(path) {
        assert(writes[0] == FileWrite::Adopt { tracked_file_id: merges[path] });
    }
}

} // verus!

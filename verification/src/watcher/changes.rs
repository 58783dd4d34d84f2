//! What has changed in the content of an instance since someone began to look.
use vstd::prelude::*;

use crate::content::file::{
    law_content_lies_in_the_folder_of_its_type, law_types_are_told_by_the_first_folder,
    type_of_path, ProjectType,
};
use crate::names::{NameMap, NameSet};
use crate::text::{
    first_segment, law_replacing_touches_nothing_else, replace_char, replaced, segment_before,
    str_eq, views,
};

verus! {

/// What has changed in the content of an instance.
pub struct InstanceContentChangeState {
    /// Which registration of the instance this belongs to.
    pub epoch: u64,
    /// How often the content has changed since.
    pub generation: u64,
    pub dirty_paths: NameSet,
    pub directory_dirty: bool,
    /// The paths that count as content besides the folders of content.
    pub tracked_paths: NameSet,
}

/// What a snapshot tells of the changes.
pub struct InstanceContentWatchSnapshot {
    pub epoch: u64,
    pub generation: u64,
    pub dirty_paths: NameSet,
    pub directory_dirty: bool,
}

/// The changes, with their paths as sets.
pub struct ChangeView {
    pub epoch: u64,
    pub generation: u64,
    pub dirty_paths: Set<Seq<char>>,
    pub directory_dirty: bool,
    pub tracked_paths: Set<Seq<char>>,
}

impl View for InstanceContentChangeState {
    type V = ChangeView;

    open spec fn view(&self) -> ChangeView {
        ChangeView {
            epoch: self.epoch,
            generation: self.generation,
            dirty_paths: self.dirty_paths@,
            directory_dirty: self.directory_dirty,
            tracked_paths: self.tracked_paths@,
        }
    }
}

impl InstanceContentChangeState {
    /// What the changes are now.
    pub fn snapshot(&self) -> (r: InstanceContentWatchSnapshot)
        ensures
            r.epoch == self.epoch,
            r.generation == self.generation,
            r.dirty_paths@ == self.dirty_paths@,
            r.directory_dirty == self.directory_dirty,
    {
        InstanceContentWatchSnapshot {
            epoch: self.epoch,
            generation: self.generation,
            dirty_paths: self.dirty_paths.copy(),
            directory_dirty: self.directory_dirty,
        }
    }
}

/// The changes of an instance that was just registered: none, in an epoch of
/// their own.
pub open spec fn fresh_changes(epoch: u64) -> ChangeView {
    ChangeView {
        epoch,
        generation: 0,
        dirty_paths: Set::empty(),
        directory_dirty: false,
        tracked_paths: Set::empty(),
    }
}

/// The changes of an instance that was just registered. Each registration takes
/// the next epoch.
pub fn new_instance_content_change_state(next_epoch: &mut u64) -> (r: InstanceContentChangeState)
    ensures
        r@ == fresh_changes(*old(next_epoch)),
        *final(next_epoch) == old(next_epoch).wrapping_add(1),
{
    let epoch = *next_epoch;
    *next_epoch = epoch.wrapping_add(1);
    let r = InstanceContentChangeState {
        epoch,
        generation: 0,
        dirty_paths: NameSet::new(),
        directory_dirty: false,
        tracked_paths: NameSet::new(),
    };
    r
}

/// The epoch of the `n`th registration from the one with the epoch `first` on.
pub open spec fn epoch_of(first: u64, n: nat) -> u64
    decreases n,
{
    if n == 0 {
        first
    } else {
        epoch_of(first, (n - 1) as nat).wrapping_add(1)
    }
}

proof fn lemma_epoch_counts(first: u64, n: nat)
    ensures
        epoch_of(first, n) == (first + n) % 0x1_0000_0000_0000_0000,
    decreases n,
{
    if n > 0 {
        lemma_epoch_counts(first, (n - 1) as nat);
    }
}

/// Two registrations have different epochs, whichever registries they are in, as
/// long as the numbers last.
pub proof fn law_registrations_have_epochs_of_their_own(first: u64, i: nat, j: nat)
    requires
        i < j,
        j - i <= u64::MAX,
    ensures
        fresh_changes(epoch_of(first, i)).epoch != fresh_changes(epoch_of(first, j)).epoch,
{
    lemma_epoch_counts(first, i);
    lemma_epoch_counts(first, j);
}

/// Whether a folder holds content.
pub open spec fn is_content_folder(name: Seq<char>) -> bool {
    ||| name == "mods"@
    ||| name == "resourcepacks"@
    ||| name == "shaderpacks"@
    ||| name == "datapacks"@
}

/// A path with slashes only.
pub open spec fn slashed(path: Seq<char>) -> Seq<char> {
    replaced(path, '\\', '/')
}

/// Whether an event at a path changes the content: it lies in a folder of
/// content, or it is one of the tracked paths.
pub open spec fn changes_content(path: Seq<char>, followed: Set<Seq<char>>) -> bool {
    is_content_folder(first_segment(slashed(path), '/')) || followed.contains(slashed(path))
}

/// Whether an event at `relative_path` changes the content.
pub fn is_upgrade_content_change(relative_path: &str, tracked_paths: &NameSet) -> (r: bool)
    ensures
        r == changes_content(relative_path@, tracked_paths@),
{
    let normalized = replace_char(relative_path, '\\', '/');
    let top_level = segment_before(normalized.as_str(), '/');
    let in_folder = str_eq(top_level.as_str(), "mods") || str_eq(
        top_level.as_str(),
        "resourcepacks",
    ) || str_eq(top_level.as_str(), "shaderpacks") || str_eq(top_level.as_str(), "datapacks");
    in_folder || tracked_paths.contains(normalized.as_str())
}

/// The changes after an event at `path`.
pub open spec fn after_change(change: ChangeView, path: Seq<char>) -> ChangeView {
    if changes_content(path, change.tracked_paths) {
        ChangeView {
            generation: change.generation.wrapping_add(1),
            dirty_paths: change.dirty_paths.insert(slashed(path)),
            directory_dirty: true,
            ..change
        }
    } else {
        change
    }
}

/// The changes of every instance, with their paths as sets.
pub open spec fn change_views(changes: Map<Seq<char>, InstanceContentChangeState>) -> Map<
    Seq<char>,
    ChangeView,
> {
    changes.map_values(|c: InstanceContentChangeState| c@)
}

/// The changes of every instance after an event at `path` of one of them.
pub open spec fn recorded(
    changes: Map<Seq<char>, ChangeView>,
    instance_id: Seq<char>,
    path: Seq<char>,
) -> Map<Seq<char>, ChangeView> {
    if changes.dom().contains(instance_id) {
        changes.insert(instance_id, after_change(changes[instance_id], path))
    } else {
        changes
    }
}

/// Records an event at `relative_path` of an instance, if it is registered and
/// the event changes its content.
pub fn record_upgrade_content_change(
    changes: &mut NameMap<InstanceContentChangeState>,
    instance_id: &str,
    relative_path: &str,
)
    ensures
        change_views(final(changes)@) == recorded(
            change_views(old(changes)@),
            instance_id@,
            relative_path@,
        ),
{
    let ghost before = changes@;
    match changes.remove(instance_id) {
        Some(change) => {
            let ghost was = change@;
            let mut change = change;
            if is_upgrade_content_change(relative_path, &change.tracked_paths) {
                change.generation = change.generation.wrapping_add(1);
                let path = replace_char(relative_path, '\\', '/');
                let mut dirty = change.dirty_paths;
                let _ = dirty.insert(path.as_str());
                change.dirty_paths = dirty;
                change.directory_dirty = true;
            }
            assert(change@ == after_change(was, relative_path@));
            let ghost now = change;
            let _ = changes.insert(instance_id, change);
            proof {
                assert(changes@ == before.remove(instance_id@).insert(instance_id@, now));
                assert(change_views(changes@) =~= recorded(
                    change_views(before),
                    instance_id@,
                    relative_path@,
                ));
            }
        },
        None => {
            assert(before.remove(instance_id@) =~= before);
        },
    }
}

/// Adds paths that count as content of an instance, and gives a snapshot of its
/// changes, if it is registered.
pub fn track_upgrade_source(
    changes: &mut NameMap<InstanceContentChangeState>,
    instance_id: &str,
    paths: &Vec<String>,
) -> (r: Option<InstanceContentWatchSnapshot>)
    ensures
        r is Some == old(changes)@.dom().contains(instance_id@),
        match r {
            Some(snapshot) => {
                let change = old(changes)@[instance_id@]@;
                &&& snapshot.epoch == change.epoch
                &&& snapshot.generation == change.generation
                &&& snapshot.dirty_paths@ == change.dirty_paths
                &&& snapshot.directory_dirty == change.directory_dirty
                &&& change_views(final(changes)@) == change_views(old(changes)@).insert(
                    instance_id@,
                    ChangeView {
                        tracked_paths: change.tracked_paths.union(views(paths@).to_set()),
                        ..change
                    },
                )
            },
            None => change_views(final(changes)@) == change_views(old(changes)@),
        },
{
    let ghost before = changes@;
    match changes.remove(instance_id) {
        Some(change) => {
            let ghost was = change@;
            let mut change = change;
            let mut followed = change.tracked_paths;
            followed.extend(paths);
            change.tracked_paths = followed;
            let snapshot = change.snapshot();
            let ghost now = change;
            let _ = changes.insert(instance_id, change);
            proof {
                assert(changes@ == before.remove(instance_id@).insert(instance_id@, now));
                assert(change_views(changes@) =~= change_views(before).insert(instance_id@, now@));
            }
            Some(snapshot)
        },
        None => {
            assert(before.remove(instance_id@) =~= before);
            None
        },
    }
}

/// A snapshot of the changes of an instance, if it is registered.
pub fn content_watch_snapshot(
    changes: &NameMap<InstanceContentChangeState>,
    instance_id: &str,
) -> (r: Option<InstanceContentWatchSnapshot>)
    ensures
        r is Some == changes@.dom().contains(instance_id@),
        match r {
            Some(snapshot) => {
                let change = changes@[instance_id@]@;
                &&& snapshot.epoch == change.epoch
                &&& snapshot.generation == change.generation
                &&& snapshot.dirty_paths@ == change.dirty_paths
                &&& snapshot.directory_dirty == change.directory_dirty
            },
            None => true,
        },
{
    match changes.get(instance_id) {
        Some(change) => Some(change.snapshot()),
        None => None,
    }
}

/// Changes are never forgotten: an event keeps every path that was dirty and the
/// epoch, and either changes the generation by one or changes nothing.
pub proof fn law_changes_are_never_forgotten(change: ChangeView, path: Seq<char>)
    ensures
        forall|p: Seq<char>| #[trigger] change.dirty_paths.contains(p) ==> after_change(
            change,
            path,
        ).dirty_paths.contains(p),
        after_change(change, path).epoch == change.epoch,
        after_change(change, path).tracked_paths == change.tracked_paths,
        change.directory_dirty ==> after_change(change, path).directory_dirty,
        after_change(change, path) == change || after_change(change, path).generation
            == change.generation.wrapping_add(1),
{
}

/// The changes after events at `paths`.
pub open spec fn after_changes(change: ChangeView, paths: Seq<Seq<char>>) -> ChangeView
    decreases paths.len(),
{
    if paths.len() == 0 {
        change
    } else {
        after_change(after_changes(change, paths.drop_last()), paths.last())
    }
}

/// No event is lost: after as many events that change the content as can be
/// counted, the generation has gone up by just as many, and each path is dirty.
pub proof fn law_no_change_is_lost(change: ChangeView, paths: Seq<Seq<char>>)
    requires
        forall|i: int|
            0 <= i < paths.len() ==> changes_content(#[trigger] paths[i], change.tracked_paths),
        change.generation + paths.len() <= u64::MAX,
    ensures
        after_changes(change, paths).generation == change.generation + paths.len(),
        after_changes(change, paths).tracked_paths == change.tracked_paths,
        forall|i: int|
            0 <= i < paths.len() ==> after_changes(change, paths).dirty_paths.contains(
                slashed(#[trigger] paths[i]),
            ),
    decreases paths.len(),
{
    if paths.len() > 0 {
        let init = paths.drop_last();
        assert forall|i: int| 0 <= i < init.len() implies changes_content(
            #[trigger] init[i],
            change.tracked_paths,
        ) by {
            assert(init[i] == paths[i]);
        }
        law_no_change_is_lost(change, init);
        assert(changes_content(paths[paths.len() - 1], change.tracked_paths));
        assert forall|i: int| 0 <= i < paths.len() implies after_changes(
            change,
            paths,
        ).dirty_paths.contains(slashed(#[trigger] paths[i])) by {
            if i < init.len() {
                assert(init[i] == paths[i]);
            }
        }
    }
}

/// Whatever happens below `mods`, `resourcepacks`, `shaderpacks` or `datapacks`
/// changes the content: the path is dirty afterwards, and the change is counted.
pub proof fn law_content_folders_are_followed(change: ChangeView, name: Seq<char>)
    requires
        !name.contains('\\'),
    ensures
        after_change(change, "mods/"@ + name).dirty_paths == change.dirty_paths.insert(
            "mods/"@ + name,
        ),
        after_change(change, "resourcepacks/"@ + name).dirty_paths == change.dirty_paths.insert(
            "resourcepacks/"@ + name,
        ),
        after_change(change, "shaderpacks/"@ + name).dirty_paths == change.dirty_paths.insert(
            "shaderpacks/"@ + name,
        ),
        after_change(change, "datapacks/"@ + name).dirty_paths == change.dirty_paths.insert(
            "datapacks/"@ + name,
        ),
        ({
            let paths = seq![
                "mods/"@ + name,
                "resourcepacks/"@ + name,
                "shaderpacks/"@ + name,
                "datapacks/"@ + name,
            ];
            forall|i: int|
                0 <= i < 4 ==> {
                    let after = after_change(change, #[trigger] paths[i]);
                    &&& changes_content(paths[i], change.tracked_paths)
                    &&& after.directory_dirty
                    &&& after.generation == change.generation.wrapping_add(1)
                    &&& after.epoch == change.epoch
                    &&& after.tracked_paths == change.tracked_paths
                }
        }),
{
    law_content_lies_in_the_folder_of_its_type(name);
    reveal_strlit("mods/");
    reveal_strlit("resourcepacks/");
    reveal_strlit("shaderpacks/");
    reveal_strlit("datapacks/");
    let paths = seq![
        "mods/"@ + name,
        "resourcepacks/"@ + name,
        "shaderpacks/"@ + name,
        "datapacks/"@ + name,
    ];
    assert forall|i: int| 0 <= i < 4 implies slashed(#[trigger] paths[i]) == paths[i]
        && is_content_folder(first_segment(paths[i], '/')) by {
        let path = paths[i];
        let n = path.len() - name.len();
        assert forall|k: int| 0 <= k < path.len() implies path[k] != '\\' by {
            if k >= n {
                assert(path[k] == name[k - n]);
                assert(name.contains(name[k - n]));
            }
        }
        law_replacing_touches_nothing_else(path, '\\', '/');
        law_types_are_told_by_the_first_folder(path);
    }
    assert(paths[0] == "mods/"@ + name);
    assert(paths[1] == "resourcepacks/"@ + name);
    assert(paths[2] == "shaderpacks/"@ + name);
    assert(paths[3] == "datapacks/"@ + name);
}

/// Content changes exactly where mods, resource packs, shader packs and data packs
/// lie, and at the paths that are followed besides. Elsewhere nothing is recorded.
pub proof fn law_only_content_counts(change: ChangeView, path: Seq<char>)
    requires
        !path.contains('\\'),
    ensures
        ({
            let kind = type_of_path(path);
            let counts = kind == Some(ProjectType::Mod) || kind == Some(ProjectType::ResourcePack)
                || kind == Some(ProjectType::ShaderPack) || kind == Some(ProjectType::DataPack)
                || change.tracked_paths.contains(path);
            &&& changes_content(path, change.tracked_paths) == counts
            &&& counts ==> after_change(change, path).dirty_paths == change.dirty_paths.insert(path)
            &&& counts ==> after_change(change, path).directory_dirty
            &&& counts ==> after_change(change, path).generation == change.generation.wrapping_add(
                1,
            )
            &&& !counts ==> after_change(change, path) == change
        }),
{
    law_replacing_touches_nothing_else(path, '\\', '/');
    law_types_are_told_by_the_first_folder(path);
}

/// It does not count with which slashes a path is written.
pub proof fn law_slashes_do_not_count(change: ChangeView, path: Seq<char>, other: Seq<char>)
    requires
        path.len() == other.len(),
        forall|i: int|
            0 <= i < path.len() ==> #[trigger] other[i] == path[i] || path[i] == '\\' && other[i]
                == '/',
        !other.contains('\\'),
    ensures
        after_change(change, path) == after_change(change, other),
        changes_content(path, change.tracked_paths) == changes_content(other, change.tracked_paths),
{
    law_replacing_touches_nothing_else(path, '\\', '/');
    law_replacing_touches_nothing_else(other, '\\', '/');
    assert forall|i: int| 0 <= i < path.len() implies slashed(path)[i] == other[i] by {
        assert(other.contains(other[i]));
    }
    assert(slashed(path) =~= other);
}

/// A change is recorded for its instance and for no other, and for none that is
/// not registered.
pub proof fn law_changes_are_recorded_for_their_instance(
    changes: Map<Seq<char>, ChangeView>,
    instance_id: Seq<char>,
    path: Seq<char>,
    other: Seq<char>,
)
    ensures
        recorded(changes, instance_id, path).dom() == changes.dom(),
        changes.dom().contains(instance_id) ==> recorded(changes, instance_id, path)[instance_id]
            == after_change(changes[instance_id], path),
        other != instance_id ==> recorded(changes, instance_id, path)[other] == changes[other],
{
    assert(recorded(changes, instance_id, path).dom() =~= changes.dom());
}

/// A new registration has seen no change and follows no path.
pub proof fn law_registrations_start_clean(epoch: u64)
    ensures
        fresh_changes(epoch).epoch == epoch,
        fresh_changes(epoch).generation == 0,
        !fresh_changes(epoch).directory_dirty,
        forall|path: Seq<char>|
            !(#[trigger] fresh_changes(epoch).dirty_paths.contains(path))
                && !fresh_changes(epoch).tracked_paths.contains(path),
{
}

} // verus!

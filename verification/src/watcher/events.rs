//! Whom an event of the file system concerns, and what follows from it.
use vstd::prelude::*;

use crate::install::model::InstanceInstallStage;
use crate::names::{NameMap, NameSet};
use crate::paths::{
    components, extension, file_name, has_component_prefix, keys, parent_name, path_components,
    path_extension, path_file_name, path_keys, path_parent_name, under, write_parts,
    written,
};
use crate::text::{
    first_segment, join_from, joined, segment_before, starts_with, str_eq, views,
};

use super::changes::{
    change_views, changes_content, record_upgrade_content_change, recorded, slashed, ChangeView,
    InstanceContentChangeState,
};
use super::registry::WatchRegistry;

verus! {

/// What follows from an event for an instance.
#[derive(Clone, Debug, PartialEq, Eq)]
pub enum InstanceEvent {
    /// A crash was reported: the user is warned if the instance is installed.
    CrashReported,
    ServersUpdated,
    WorldUpdated { world: String },
    Synced,
}

/// What follows from an event, with the name of the world as a text.
pub enum EventView {
    CrashReported,
    ServersUpdated,
    WorldUpdated { world: Seq<char> },
    Synced,
}

impl View for InstanceEvent {
    type V = EventView;

    open spec fn view(&self) -> EventView {
        match self {
            InstanceEvent::CrashReported => EventView::CrashReported,
            InstanceEvent::ServersUpdated => EventView::ServersUpdated,
            InstanceEvent::WorldUpdated { world } => EventView::WorldUpdated { world: world@ },
            InstanceEvent::Synced => EventView::Synced,
        }
    }
}

/// Whether a file holds the settings that are written beside the content of an
/// instance.
pub open spec fn is_config_file(name: Seq<char>) -> bool {
    name == "axolotl_config.json"@ || name == "axolotl_config.json.tmp"@
}

/// Whether a file holds the settings that are written beside the content of an
/// instance.
pub fn is_config_sync_file_name(name: &str) -> (r: bool)
    ensures
        r == is_config_file(name@),
{
    str_eq(name, "axolotl_config.json") || str_eq(name, "axolotl_config.json.tmp")
}

/// Whether a file reports a crash of the game or of the Java runtime.
pub open spec fn is_crash_file(relative_path: Seq<char>, windows: bool) -> bool {
    let first = first_segment(relative_path, '/');
    ||| first == "crash-reports"@ && extension(relative_path, windows) == Some("txt"@)
    ||| "hs_err_pid"@.is_prefix_of(first) && extension(relative_path, windows) == Some("log"@)
}

/// The world that a path belongs to.
pub open spec fn world_of(relative_path: Seq<char>, windows: bool) -> Seq<char> {
    match parent_name(relative_path, windows) {
        Some(name) => name,
        None => seq![],
    }
}

/// What follows from an event at `relative_path` of an instance. All but crashes
/// are told once for each instance in a batch.
pub open spec fn event_at(relative_path: Seq<char>, visited: bool, windows: bool) -> Option<
    EventView,
> {
    let first = first_segment(relative_path, '/');
    if is_config_file(first) {
        None
    } else if is_crash_file(relative_path, windows) {
        Some(EventView::CrashReported)
    } else if visited {
        None
    } else if first == "servers.dat"@ {
        Some(EventView::ServersUpdated)
    } else if first == "saves"@ {
        if file_name(relative_path, windows) == Some("level.dat"@) {
            Some(EventView::WorldUpdated { world: world_of(relative_path, windows) })
        } else {
            None
        }
    } else {
        Some(EventView::Synced)
    }
}

fn has_extension(path: &str, wanted: &str, windows: bool) -> (r: bool)
    ensures
        r == (extension(path@, windows) == Some(wanted@)),
{
    match path_extension(path, windows) {
        Some(found) => str_eq(found.as_str(), wanted),
        None => false,
    }
}

/// What follows from an event at `relative_path` of an instance.
pub fn instance_event(relative_path: &str, visited: bool, windows: bool) -> (r: Option<
    InstanceEvent,
>)
    ensures
        match r {
            Some(event) => event_at(relative_path@, visited, windows) == Some(event@),
            None => event_at(relative_path@, visited, windows) is None,
        },
{
    let first = segment_before(relative_path, '/');
    if is_config_sync_file_name(first.as_str()) {
        return None;
    }
    let is_crash_report = str_eq(first.as_str(), "crash-reports") && has_extension(
        relative_path,
        "txt",
        windows,
    );
    let is_jvm_crash = starts_with(first.as_str(), "hs_err_pid") && has_extension(
        relative_path,
        "log",
        windows,
    );
    if is_crash_report || is_jvm_crash {
        return Some(InstanceEvent::CrashReported);
    }
    if visited {
        return None;
    }
    if str_eq(first.as_str(), "servers.dat") {
        return Some(InstanceEvent::ServersUpdated);
    }
    if str_eq(first.as_str(), "saves") {
        let is_level = match path_file_name(relative_path, windows) {
            Some(name) => str_eq(name.as_str(), "level.dat"),
            None => false,
        };
        if !is_level {
            return None;
        }
        let world = match path_parent_name(relative_path, windows) {
            Some(name) => name,
            None => String::new(),
        };
        assert(world@ =~= world_of(relative_path@, windows));
        return Some(InstanceEvent::WorldUpdated { world });
    }
    Some(InstanceEvent::Synced)
}

/// Whether the user is warned of a crash of an instance.
pub fn warns_of_crash(stage: InstanceInstallStage) -> (r: bool)
    ensures
        r == (stage == InstanceInstallStage::Installed),
{
    stage == InstanceInstallStage::Installed
}

/// The index of the first component that is `name`, or their number.
pub open spec fn first_at(parts: Seq<Seq<char>>, name: Seq<char>) -> int
    decreases parts.len(),
{
    if parts.len() == 0 || parts[0] == name {
        0
    } else {
        1 + first_at(parts.drop_first(), name)
    }
}

/// The component behind the first that is `folder`.
pub open spec fn behind(parts: Seq<Seq<char>>, folder: Seq<char>) -> Option<Seq<char>> {
    let i = first_at(parts, folder);
    if 0 <= i && i + 1 < parts.len() {
        Some(parts[i + 1])
    } else {
        None
    }
}

/// The path below the first component that is `name`.
pub open spec fn path_below(parts: Seq<Seq<char>>, name: Seq<char>) -> Seq<char> {
    let i = first_at(parts, name);
    if 0 <= i < parts.len() {
        joined(parts.skip(i + 1), "/"@)
    } else {
        joined(seq![], "/"@)
    }
}

proof fn lemma_first_at(parts: Seq<Seq<char>>, name: Seq<char>, n: int)
    requires
        0 <= n <= parts.len(),
        forall|j: int| 0 <= j < n ==> #[trigger] parts[j] != name,
        n < parts.len() ==> parts[n] == name,
    ensures
        first_at(parts, name) == n,
    decreases parts.len(),
{
    if parts.len() > 0 && n > 0 {
        assert(parts[0] != name);
        let rest = parts.drop_first();
        assert forall|j: int| 0 <= j < n - 1 implies #[trigger] rest[j] != name by {
            assert(rest[j] == parts[j + 1]);
        }
        lemma_first_at(rest, name, n - 1);
    }
}

fn position_of(parts: &Vec<String>, name: &str) -> (r: usize)
    ensures
        r == first_at(views(parts@), name@),
        r <= parts@.len(),
{
    let mut i: usize = 0;
    while i < parts.len()
        invariant
            i <= parts@.len(),
            forall|j: int| 0 <= j < i ==> #[trigger] views(parts@)[j] != name@,
        decreases parts@.len() - i,
    {
        assert(views(parts@)[i as int] == parts@[i as int]@);
        if str_eq(parts[i].as_str(), name) {
            proof {
                lemma_first_at(views(parts@), name@, i as int);
            }
            return i;
        }
        i = i + 1;
    }
    proof {
        lemma_first_at(views(parts@), name@, i as int);
    }
    i
}

/// The path below `root` of something at `path`, with `/` between its components.
/// On Windows what is left of a path is taken apart as a path of its own.
pub open spec fn path_under(path: Seq<char>, root: Seq<char>, windows: bool) -> Seq<char> {
    let n = components(root, windows).len();
    let left = components(path, windows).skip(n as int);
    if windows && n > 0 {
        joined(components(written(left, true), true), "/"@)
    } else {
        joined(left, "/"@)
    }
}

fn join_left(parts: &Vec<String>, n: usize, windows: bool) -> (r: String)
    requires
        n <= parts@.len(),
    ensures
        ({
            let left = views(parts@).skip(n as int);
            r@ == if windows && n > 0 {
                joined(components(written(left, true), true), "/"@)
            } else {
                joined(left, "/"@)
            }
        }),
{
    if !windows || n == 0 {
        return join_from(parts, n, "/");
    }
    let mut left: Vec<String> = Vec::new();
    let mut i: usize = n;
    while i < parts.len()
        invariant
            n <= i <= parts@.len(),
            left@ == parts@.subrange(n as int, i as int),
        decreases parts@.len() - i,
    {
        left.push(parts[i].clone());
        i = i + 1;
        assert(left@ =~= parts@.subrange(n as int, i as int));
    }
    assert(views(left@) =~= views(parts@).skip(n as int));
    let text = write_parts(&left, true);
    let parts = path_components(text.as_str(), true);
    let ghost all = views(parts@);
    assert(all.skip(0) =~= all);
    join_from(&parts, 0, "/")
}

/// The instances under one external root that an event concerns, each with the
/// path below the root.
pub open spec fn root_targets(root: (String, NameSet), path: Seq<char>, windows: bool) -> Seq<
    (Seq<char>, Seq<char>),
> {
    if under(path, root.0@, windows) {
        let relative = path_under(path, root.0@, windows);
        root.1.list().map_values(|id: Seq<char>| (id, relative))
    } else {
        seq![]
    }
}

/// The instances that an event concerns through their external roots.
pub open spec fn external_targets(
    roots: Seq<(String, NameSet)>,
    path: Seq<char>,
    windows: bool,
) -> Seq<(Seq<char>, Seq<char>)>
    decreases roots.len(),
{
    if roots.len() == 0 {
        seq![]
    } else {
        external_targets(roots.drop_last(), path, windows) + root_targets(
            roots.last(),
            path,
            windows,
        )
    }
}

/// The texts of pairs.
pub open spec fn pair_views(pairs: Seq<(String, String)>) -> Seq<(Seq<char>, Seq<char>)> {
    pairs.map_values(|p: (String, String)| (p.0@, p.1@))
}

/// The instances that an event concerns through their external roots, each with
/// the path below its root. Every instance under a root is concerned.
pub fn external_root_event_targets(
    event_path: &str,
    external_roots: &NameMap<NameSet>,
    windows: bool,
) -> (r: Vec<(String, String)>)
    ensures
        pair_views(r@) == external_targets(external_roots.list(), event_path@, windows),
{
    let parts = path_components(event_path, windows);
    let keyed = path_keys(event_path, windows);
    let entries = external_roots.entries();
    let ghost all = entries@;
    let mut targets: Vec<(String, String)> = Vec::new();
    let mut n: usize = 0;
    assert(pair_views(targets@) =~= external_targets(all.take(0), event_path@, windows));
    while n < entries.len()
        invariant
            n <= entries@.len(),
            all == entries@,
            views(parts@) == components(event_path@, windows),
            views(keyed@) == keys(event_path@, windows),
            pair_views(targets@) == external_targets(all.take(n as int), event_path@, windows),
        decreases entries@.len() - n,
    {
        let ghost before = pair_views(targets@);
        let root = path_keys(entries[n].0.as_str(), windows);
        assert(views(root@).len() == root@.len());
        assert(views(parts@).len() == parts@.len());
        assert(views(keyed@).len() == keyed@.len());
        if has_component_prefix(&keyed, &root) {
            let relative = join_left(&parts, root.len(), windows);
            let ids = entries[n].1.names();
            let ghost wanted = root_targets(all[n as int], event_path@, windows);
            assert(wanted.len() == ids@.len());
            assert(before =~= before + wanted.take(0));
            let mut k: usize = 0;
            while k < ids.len()
                invariant
                    k <= ids@.len(),
                    views(ids@) == all[n as int].1.list(),
                    under(event_path@, all[n as int].0@, windows),
                    relative@ == path_under(event_path@, all[n as int].0@, windows),
                    wanted == root_targets(all[n as int], event_path@, windows),
                    wanted.len() == ids@.len(),
                    pair_views(targets@) == before + wanted.take(k as int),
                decreases ids@.len() - k,
            {
                let ghost so_far = targets@;
                targets.push((ids[k].clone(), relative.clone()));
                proof {
                    assert(views(ids@)[k as int] == ids@[k as int]@);
                    assert(wanted[k as int] == (ids@[k as int]@, relative@));
                    assert(pair_views(targets@) =~= pair_views(so_far).push(wanted[k as int]));
                    assert(wanted.take(k + 1) =~= wanted.take(k as int).push(wanted[k as int]));
                }
                k = k + 1;
            }
            assert(wanted.take(k as int) =~= wanted);
        } else {
            assert(before =~= before + root_targets(all[n as int], event_path@, windows));
        }
        proof {
            let longer = all.take(n + 1);
            assert(longer.drop_last() =~= all.take(n as int));
            assert(longer.last() == all[n as int]);
        }
        n = n + 1;
    }
    assert(all.take(n as int) =~= all);
    targets
}

/// The instances that an event concerns, each with the path below its folder. An
/// event in the folder of all instances concerns the one it names, if it is
/// known; any other goes by the external roots.
pub open spec fn targets_of(
    instance_ids: Map<Seq<char>, String>,
    roots: Seq<(String, NameSet)>,
    instances_folder: Seq<char>,
    path: Seq<char>,
    windows: bool,
) -> Seq<(Seq<char>, Seq<char>)> {
    let parts = components(path, windows);
    match behind(parts, instances_folder) {
        Some(name) => if instance_ids.dom().contains(name) {
            seq![(instance_ids[name]@, path_below(parts, name))]
        } else {
            external_targets(roots, path, windows)
        },
        None => external_targets(roots, path, windows),
    }
}

impl WatchRegistry {
    /// The instances that an event at `event_path` concerns.
    pub fn event_targets(&self, event_path: &str, instances_folder: &str, windows: bool) -> (r: Vec<
        (String, String),
    >)
        ensures
            pair_views(r@) == targets_of(
                self.instance_ids@,
                self.external_roots.list(),
                instances_folder@,
                event_path@,
                windows,
            ),
    {
        let parts = path_components(event_path, windows);
        assert(views(parts@).len() == parts@.len());
        let at = position_of(&parts, instances_folder);
        if at < parts.len() && at + 1 < parts.len() {
            assert(views(parts@)[at + 1] == parts@[at + 1]@);
            let name = &parts[at + 1];
            if let Some(instance_id) = self.instance_ids.get(name.as_str()) {
                let from = position_of(&parts, name.as_str());
                proof {
                    // The name itself is a component, so the search for it ends
                    // before the last one.
                    lemma_first_at_bound(views(parts@), name@, at + 1);
                }
                let relative = join_from(&parts, from + 1, "/");
                let mut targets: Vec<(String, String)> = Vec::new();
                targets.push((instance_id.clone(), relative));
                assert(pair_views(targets@) =~= seq![(instance_id@, relative@)]);
                return targets;
            }
        }
        external_root_event_targets(event_path, &self.external_roots, windows)
    }
}

proof fn lemma_first_at_bound(parts: Seq<Seq<char>>, name: Seq<char>, n: int)
    requires
        0 <= n < parts.len(),
        parts[n] == name,
    ensures
        0 <= first_at(parts, name) <= n,
    decreases parts.len(),
{
    if parts[0] != name {
        assert(parts.drop_first()[n - 1] == name);
        lemma_first_at_bound(parts.drop_first(), name, n - 1);
    }
}

/// What is told of an instance after an event at a path.
#[derive(Clone, Debug, PartialEq, Eq)]
pub struct Emission {
    pub instance_id: String,
    pub event: InstanceEvent,
    pub event_path: String,
}

impl View for Emission {
    type V = (Seq<char>, EventView, Seq<char>);

    open spec fn view(&self) -> (Seq<char>, EventView, Seq<char>) {
        (self.instance_id@, self.event@, self.event_path@)
    }
}

/// The texts of what is told.
pub open spec fn emission_views(emissions: Seq<Emission>) -> Seq<
    (Seq<char>, EventView, Seq<char>),
> {
    emissions.map_values(|e: Emission| e@)
}

/// What has followed from the events of a batch so far.
pub struct BatchModel {
    pub changes: Map<Seq<char>, ChangeView>,
    pub visited: Set<Seq<char>>,
    pub emissions: Seq<(Seq<char>, EventView, Seq<char>)>,
    pub scan_manual_downloads: bool,
}

/// The batch after an event at `path` was told to one instance.
pub open spec fn told(
    model: BatchModel,
    path: Seq<char>,
    target: (Seq<char>, Seq<char>),
    windows: bool,
) -> BatchModel {
    let (id, relative) = target;
    let event = event_at(relative, model.visited.contains(id), windows);
    BatchModel {
        changes: if relative.len() == 0 {
            model.changes
        } else {
            recorded(model.changes, id, relative)
        },
        visited: match event {
            Some(EventView::CrashReported) => model.visited,
            Some(_) => model.visited.insert(id),
            None => model.visited,
        },
        emissions: match event {
            Some(event) => model.emissions.push((id, event, path)),
            None => model.emissions,
        },
        ..model
    }
}

/// The batch after an event at `path` was told to all of `targets`.
pub open spec fn told_all(
    model: BatchModel,
    path: Seq<char>,
    targets: Seq<(Seq<char>, Seq<char>)>,
    windows: bool,
) -> BatchModel
    decreases targets.len(),
{
    if targets.len() == 0 {
        model
    } else {
        told(told_all(model, path, targets.drop_last(), windows), path, targets.last(), windows)
    }
}

/// What the events of a batch are held against.
pub struct BatchContext {
    pub instance_ids: Map<Seq<char>, String>,
    pub roots: Seq<(String, NameSet)>,
    pub instances_folder: Seq<char>,
    pub manual_import_directory: Option<Seq<char>>,
    /// Whether the paths are those of Windows.
    pub windows: bool,
}

/// The instances that an event at `path` concerns.
pub open spec fn targets_in(context: BatchContext, path: Seq<char>) -> Seq<(Seq<char>, Seq<char>)> {
    targets_of(
        context.instance_ids,
        context.roots,
        context.instances_folder,
        path,
        context.windows,
    )
}

/// The batch after an event at `path`. One that concerns no instance may be a
/// manual download.
pub open spec fn batch_step(context: BatchContext, model: BatchModel, path: Seq<char>) ->
    BatchModel {
    let targets = targets_in(context, path);
    let after = told_all(model, path, targets, context.windows);
    BatchModel {
        scan_manual_downloads: model.scan_manual_downloads || (targets.len() == 0
            && context.manual_import_directory is Some && under(
            path,
            context.manual_import_directory->0,
            context.windows,
        )),
        ..after
    }
}

/// The batch after the first events, those at `paths`.
pub open spec fn batch(
    context: BatchContext,
    changes: Map<Seq<char>, ChangeView>,
    paths: Seq<Seq<char>>,
) -> BatchModel
    decreases paths.len(),
{
    if paths.len() == 0 {
        BatchModel {
            changes,
            visited: Set::empty(),
            emissions: seq![],
            scan_manual_downloads: false,
        }
    } else {
        batch_step(context, batch(context, changes, paths.drop_last()), paths.last())
    }
}

/// What follows from a batch of events.
pub struct EventBatch {
    pub emissions: Vec<Emission>,
    /// Whether the folder for manual downloads has to be looked through.
    pub scan_manual_downloads: bool,
}

/// Records and tells an event at `event_path` for one instance that it concerns,
/// which `target` gives with the path below its folder.
pub fn process_instance_event(
    changes: &mut NameMap<InstanceContentChangeState>,
    visited_instances: &mut NameSet,
    emissions: &mut Vec<Emission>,
    target: &(String, String),
    event_path: &String,
    windows: bool,
)
    ensures
        ({
            let before = BatchModel {
                changes: change_views(old(changes)@),
                visited: old(visited_instances)@,
                emissions: emission_views(old(emissions)@),
                scan_manual_downloads: false,
            };
            let after = told(before, event_path@, (target.0@, target.1@), windows);
            &&& change_views(final(changes)@) == after.changes
            &&& final(visited_instances)@ == after.visited
            &&& emission_views(final(emissions)@) == after.emissions
        }),
{
    let instance_id = &target.0;
    let relative_path = &target.1;
    if !relative_path.as_str().is_empty() {
        record_upgrade_content_change(changes, instance_id.as_str(), relative_path.as_str());
    }
    let visited = visited_instances.contains(instance_id.as_str());
    if let Some(event) = instance_event(relative_path.as_str(), visited, windows) {
        let crash = match &event {
            InstanceEvent::CrashReported => true,
            _ => false,
        };
        let ghost before = emissions@;
        let emission = Emission {
            instance_id: instance_id.clone(),
            event,
            event_path: event_path.clone(),
        };
        let ghost said = emission@;
        emissions.push(emission);
        assert(emission_views(emissions@) =~= emission_views(before).push(said));
        if !crash {
            let _ = visited_instances.insert(instance_id.as_str());
        }
    }
}

impl WatchRegistry {
    /// What the events of a batch are held against.
    pub open spec fn batch_context(&self, instances_folder: Seq<char>, windows: bool) ->
        BatchContext {
        BatchContext {
            instance_ids: self.instance_ids@,
            roots: self.external_roots.list(),
            instances_folder,
            manual_import_directory: self@.manual_import_directory,
            windows,
        }
    }

    /// Records the changes that a batch of events brings, and tells what follows
    /// from it. `instances_folder` is the name of the folder of all instances.
    pub fn process_events(
        &mut self,
        events: &Vec<String>,
        instances_folder: &str,
        windows: bool,
    ) -> (r: EventBatch)
        ensures
            ({
                let after = batch(
                    old(self).batch_context(instances_folder@, windows),
                    old(self)@.content_changes,
                    views(events@),
                );
                &&& final(self)@.content_changes == after.changes
                &&& emission_views(r.emissions@) == after.emissions
                &&& r.scan_manual_downloads == after.scan_manual_downloads
            }),
            final(self).instance_ids == old(self).instance_ids,
            final(self).external_roots == old(self).external_roots,
            final(self).pending_ancestors == old(self).pending_ancestors,
            final(self).manual_import_directory == old(self).manual_import_directory,
            final(self).manual_import_generation == old(self).manual_import_generation,
    {
        let ghost context = self.batch_context(instances_folder@, windows);
        let ghost first = self@.content_changes;
        let ghost paths = views(events@);
        let mut changes: NameMap<InstanceContentChangeState> = NameMap::new();
        std::mem::swap(&mut changes, &mut self.content_changes);
        let mut visited = NameSet::new();
        let mut emissions: Vec<Emission> = Vec::new();
        let mut scan_manual_downloads = false;
        let directory = match &self.manual_import_directory {
            Some(directory) => Some(path_keys(directory.as_str(), windows)),
            None => None,
        };
        let mut n: usize = 0;
        assert(paths.take(0) =~= Seq::<Seq<char>>::empty());
        assert(emission_views(emissions@) =~= Seq::<(Seq<char>, EventView, Seq<char>)>::empty());
        while n < events.len()
            invariant
                n <= events@.len(),
                paths == views(events@),
                context == self.batch_context(instances_folder@, windows),
                match directory {
                    Some(parts) => context.manual_import_directory is Some && views(parts@)
                        == keys(context.manual_import_directory->0, windows),
                    None => context.manual_import_directory is None,
                },
                change_views(changes@) == batch(context, first, paths.take(n as int)).changes,
                visited@ == batch(context, first, paths.take(n as int)).visited,
                emission_views(emissions@) == batch(
                    context,
                    first,
                    paths.take(n as int),
                ).emissions,
                scan_manual_downloads == batch(
                    context,
                    first,
                    paths.take(n as int),
                ).scan_manual_downloads,
            decreases events@.len() - n,
        {
            let event_path = &events[n];
            assert(paths[n as int] == event_path@);
            let ghost model = batch(context, first, paths.take(n as int));
            let targets = self.event_targets(event_path.as_str(), instances_folder, windows);
            let ghost wanted = pair_views(targets@);
            let mut k: usize = 0;
            assert(told_all(model, event_path@, wanted.take(0), windows) == model);
            while k < targets.len()
                invariant
                    k <= targets@.len(),
                    wanted == pair_views(targets@),
                    change_views(changes@) == told_all(
                        model,
                        event_path@,
                        wanted.take(k as int),
                        windows,
                    ).changes,
                    visited@ == told_all(
                        model,
                        event_path@,
                        wanted.take(k as int),
                        windows,
                    ).visited,
                    emission_views(emissions@) == told_all(
                        model,
                        event_path@,
                        wanted.take(k as int),
                        windows,
                    ).emissions,
                decreases targets@.len() - k,
            {
                process_instance_event(
                    &mut changes,
                    &mut visited,
                    &mut emissions,
                    &targets[k],
                    event_path,
                    windows,
                );
                proof {
                    let longer = wanted.take(k + 1);
                    assert(longer.drop_last() =~= wanted.take(k as int));
                    assert(longer.last() == (targets@[k as int].0@, targets@[k as int].1@));
                }
                k = k + 1;
            }
            assert(wanted.take(k as int) =~= wanted);
            if targets.len() == 0 {
                if let Some(parts) = &directory {
                    let at = path_keys(event_path.as_str(), windows);
                    if has_component_prefix(&at, parts) {
                        scan_manual_downloads = true;
                    }
                }
            }
            proof {
                let longer = paths.take(n + 1);
                assert(longer.drop_last() =~= paths.take(n as int));
                assert(longer.last() == event_path@);
                assert(wanted.len() == targets@.len());
            }
            n = n + 1;
        }
        assert(paths.take(n as int) =~= paths);
        self.content_changes = changes;
        EventBatch { emissions, scan_manual_downloads }
    }
}

/// An event under an external root is told to every instance that shares it.
pub proof fn law_shared_roots_share_their_events(
    roots: Seq<(String, NameSet)>,
    path: Seq<char>,
    i: int,
    id: Seq<char>,
    windows: bool,
)
    requires
        0 <= i < roots.len(),
        under(path, roots[i].0@, windows),
        roots[i].1.list().contains(id),
    ensures
        external_targets(roots, path, windows).contains(
            (id, path_under(path, roots[i].0@, windows)),
        ),
    decreases roots.len(),
{
    let relative = path_under(path, roots[i].0@, windows);
    let here = root_targets(roots.last(), path, windows);
    let before = external_targets(roots.drop_last(), path, windows);
    let all = external_targets(roots, path, windows);
    if i == roots.len() - 1 {
        let list = roots[i].1.list();
        let k = choose|k: int| 0 <= k < list.len() && list[k] == id;
        assert(here[k] == (id, relative));
        assert(all[before.len() + k] == (id, relative));
    } else {
        assert(roots.drop_last()[i] == roots[i]);
        law_shared_roots_share_their_events(roots.drop_last(), path, i, id, windows);
        let k = choose|k: int| 0 <= k < before.len() && before[k] == (id, relative);
        assert(all[k] == (id, relative));
    }
}

/// An event outside every external root concerns no instance through them.
pub proof fn law_events_outside_the_roots_are_ignored(
    roots: Seq<(String, NameSet)>,
    path: Seq<char>,
    windows: bool,
)
    requires
        forall|i: int| 0 <= i < roots.len() ==> !under(path, (#[trigger] roots[i]).0@, windows),
    ensures
        external_targets(roots, path, windows).len() == 0,
    decreases roots.len(),
{
    if roots.len() > 0 {
        assert forall|i: int| 0 <= i < roots.drop_last().len() implies !under(
            path,
            (#[trigger] roots.drop_last()[i]).0@,
            windows,
        ) by {
            assert(roots.drop_last()[i] == roots[i]);
        }
        law_events_outside_the_roots_are_ignored(roots.drop_last(), path, windows);
        assert(!under(path, roots[roots.len() - 1].0@, windows));
    }
}

/// A crash is always told, whatever was told of the instance before; the settings
/// of an instance never are.
pub proof fn law_crashes_are_always_told(relative_path: Seq<char>, visited: bool, windows: bool)
    ensures
        is_config_file(first_segment(relative_path, '/')) ==> event_at(
            relative_path,
            visited,
            windows,
        ) is None,
        is_crash_file(relative_path, windows) && !is_config_file(first_segment(relative_path, '/'))
            ==> event_at(relative_path, visited, windows) == Some(EventView::CrashReported),
        visited && !is_crash_file(relative_path, windows) ==> event_at(
            relative_path,
            visited,
            windows,
        ) is None,
{
}

/// Whether an instance was told something other than a crash.
pub open spec fn is_told(
    emissions: Seq<(Seq<char>, EventView, Seq<char>)>,
    i: int,
    id: Seq<char>,
) -> bool {
    0 <= i < emissions.len() && emissions[i].0 == id && !(emissions[i].1 is CrashReported)
}

/// Whether the instances that were told something other than a crash are those
/// that were visited, and none was told so twice.
pub open spec fn told_once(model: BatchModel) -> bool {
    &&& forall|i: int, id: Seq<char>| #[trigger]
        is_told(model.emissions, i, id) ==> model.visited.contains(id)
    &&& forall|i: int, j: int, id: Seq<char>|
        i != j ==> !(#[trigger] is_told(model.emissions, i, id) && #[trigger] is_told(
            model.emissions,
            j,
            id,
        ))
}

proof fn lemma_told_once(
    model: BatchModel,
    path: Seq<char>,
    target: (Seq<char>, Seq<char>),
    windows: bool,
)
    requires
        told_once(model),
    ensures
        told_once(told(model, path, target, windows)),
{
    let after = told(model, path, target, windows);
    let n = model.emissions.len() as int;
    assert forall|i: int, id: Seq<char>| #[trigger]
        is_told(after.emissions, i, id) implies after.visited.contains(id) by {
        if i < n {
            assert(is_told(model.emissions, i, id));
        }
    }
    assert forall|i: int, j: int, id: Seq<char>| i != j implies !(#[trigger] is_told(
        after.emissions,
        i,
        id,
    ) && #[trigger] is_told(after.emissions, j, id)) by {
        if is_told(after.emissions, i, id) && is_told(after.emissions, j, id) {
            if i < n {
                assert(is_told(model.emissions, i, id));
            }
            if j < n {
                assert(is_told(model.emissions, j, id));
            }
        }
    }
}

proof fn lemma_all_told_once(
    model: BatchModel,
    path: Seq<char>,
    targets: Seq<(Seq<char>, Seq<char>)>,
    windows: bool,
)
    requires
        told_once(model),
    ensures
        told_once(told_all(model, path, targets, windows)),
    decreases targets.len(),
{
    if targets.len() > 0 {
        lemma_all_told_once(model, path, targets.drop_last(), windows);
        lemma_told_once(
            told_all(model, path, targets.drop_last(), windows),
            path,
            targets.last(),
            windows,
        );
    }
}

/// In one batch of events, however many there are, no instance is told anything
/// but crashes more than once.
pub proof fn law_a_batch_tells_each_instance_once(
    context: BatchContext,
    changes: Map<Seq<char>, ChangeView>,
    paths: Seq<Seq<char>>,
)
    ensures
        told_once(batch(context, changes, paths)),
    decreases paths.len(),
{
    if paths.len() > 0 {
        let init = paths.drop_last();
        law_a_batch_tells_each_instance_once(context, changes, init);
        let targets = targets_in(context, paths.last());
        lemma_all_told_once(
            batch(context, changes, init),
            paths.last(),
            targets,
            context.windows,
        );
    }
}

/// Whether the changes of the instance `id` are still there, with all the paths
/// that were dirty before.
pub open spec fn keeps_changes(
    before: Map<Seq<char>, ChangeView>,
    after: Map<Seq<char>, ChangeView>,
    id: Seq<char>,
) -> bool {
    before.dom().contains(id) ==> {
        &&& after.dom().contains(id)
        &&& after[id].epoch == before[id].epoch
        &&& after[id].tracked_paths == before[id].tracked_paths
        &&& before[id].dirty_paths.subset_of(after[id].dirty_paths)
    }
}

proof fn lemma_told_all_keeps(
    model: BatchModel,
    path: Seq<char>,
    targets: Seq<(Seq<char>, Seq<char>)>,
    id: Seq<char>,
    windows: bool,
)
    ensures
        keeps_changes(model.changes, told_all(model, path, targets, windows).changes, id),
    decreases targets.len(),
{
    if targets.len() > 0 {
        lemma_told_all_keeps(model, path, targets.drop_last(), id, windows);
    }
}

proof fn lemma_told_all_records(
    model: BatchModel,
    path: Seq<char>,
    targets: Seq<(Seq<char>, Seq<char>)>,
    k: int,
    windows: bool,
)
    requires
        0 <= k < targets.len(),
        targets[k].1.len() > 0,
        model.changes.dom().contains(targets[k].0),
        changes_content(targets[k].1, model.changes[targets[k].0].tracked_paths),
    ensures
        told_all(model, path, targets, windows).changes[targets[k].0].dirty_paths.contains(
            slashed(targets[k].1),
        ),
    decreases targets.len(),
{
    let init = targets.drop_last();
    lemma_told_all_keeps(model, path, init, targets[k].0, windows);
    if k < init.len() {
        assert(init[k] == targets[k]);
        lemma_told_all_records(model, path, init, k, windows);
    }
}

/// A batch of events forgets nothing: the changes of every instance stay, with
/// their epoch and all the paths that were dirty before.
pub proof fn law_a_batch_forgets_no_change(
    context: BatchContext,
    changes: Map<Seq<char>, ChangeView>,
    paths: Seq<Seq<char>>,
    id: Seq<char>,
)
    ensures
        keeps_changes(changes, batch(context, changes, paths).changes, id),
    decreases paths.len(),
{
    if paths.len() > 0 {
        let init = paths.drop_last();
        law_a_batch_forgets_no_change(context, changes, init, id);
        let targets = targets_in(context, paths.last());
        lemma_told_all_keeps(
            batch(context, changes, init),
            paths.last(),
            targets,
            id,
            context.windows,
        );
    }
}

/// An event that changes the content of a registered instance is recorded for
/// every instance that it concerns, wherever it stands in its batch.
pub proof fn law_content_events_are_recorded(
    context: BatchContext,
    changes: Map<Seq<char>, ChangeView>,
    paths: Seq<Seq<char>>,
    k: int,
    target: (Seq<char>, Seq<char>),
)
    requires
        0 <= k < paths.len(),
        targets_in(context, paths[k]).contains(target),
        target.1.len() > 0,
        changes.dom().contains(target.0),
        changes_content(target.1, changes[target.0].tracked_paths),
    ensures
        batch(context, changes, paths).changes[target.0].dirty_paths.contains(slashed(target.1)),
    decreases paths.len(),
{
    let init = paths.drop_last();
    let before = batch(context, changes, init);
    let targets = targets_in(context, paths.last());
    law_a_batch_forgets_no_change(context, changes, init, target.0);
    if k < init.len() {
        assert(init[k] == paths[k]);
        law_content_events_are_recorded(context, changes, init, k, target);
        lemma_told_all_keeps(before, paths.last(), targets, target.0, context.windows);
    } else {
        let i = choose|i: int| 0 <= i < targets.len() && targets[i] == target;
        lemma_told_all_records(before, paths.last(), targets, i, context.windows);
    }
}

/// A change tells of a crash if it is a report among the crash reports or a log of the
/// virtual machine; of the servers if it is their list; of a world if it is its main
/// file, by the name of the folder that the file lies in; and of the instance itself
/// otherwise. Other changes among the worlds tell of nothing, and neither does a settings
/// file of the launcher. What an instance was told once it is not told again in one go,
/// except of crashes.
pub proof fn law_what_a_change_tells_of(relative: Seq<char>, visited: bool, windows: bool)
    ensures
        ({
            let told = event_at(relative, visited, windows);
            let first = first_segment(relative, '/');
            let settings = first == "axolotl_config.json"@ || first == "axolotl_config.json.tmp"@;
            let crash = first == "crash-reports"@ && extension(relative, windows) == Some("txt"@)
                || "hs_err_pid"@.is_prefix_of(first) && extension(relative, windows) == Some(
                "log"@,
            );
            let world = file_name(relative, windows) == Some("level.dat"@);
            &&& settings ==> told is None
            &&& told == Some(EventView::CrashReported) <==> crash && !settings
            &&& told == Some(EventView::ServersUpdated) <==> first == "servers.dat"@ && !crash
                && !visited
            &&& first == "saves"@ && !crash && !visited ==> {
                &&& told is Some <==> world
                &&& world && parent_name(relative, windows) is Some ==> told == Some(
                    EventView::WorldUpdated { world: parent_name(relative, windows)->0 },
                )
                &&& world && parent_name(relative, windows) is None ==> told == Some(
                    EventView::WorldUpdated { world: seq![] },
                )
            }
            &&& told == Some(EventView::Synced) <==> !settings && !crash && !visited && first
                != "servers.dat"@ && first != "saves"@
            &&& visited && !crash ==> told is None
        }),
{
    reveal_strlit("servers.dat");
    reveal_strlit("saves");
    reveal_strlit("axolotl_config.json");
    reveal_strlit("axolotl_config.json.tmp");
    assert("servers.dat"@.len() == 11 && "saves"@.len() == 5);
    assert("axolotl_config.json"@.len() == 19 && "axolotl_config.json.tmp"@.len() == 23);
}

/// A name is found where it first stands.
pub proof fn law_where_a_name_first_stands(parts: Seq<Seq<char>>, name: Seq<char>)
    ensures
        0 <= first_at(parts, name) <= parts.len(),
        first_at(parts, name) < parts.len() ==> parts[first_at(parts, name)] == name,
        forall|j: int| 0 <= j < first_at(parts, name) ==> #[trigger] parts[j] != name,
    decreases parts.len(),
{
    if parts.len() > 0 && parts[0] != name {
        let rest = parts.drop_first();
        law_where_a_name_first_stands(rest, name);
        assert forall|j: int| 0 <= j < first_at(parts, name) implies #[trigger] parts[j]
            != name by {
            if j > 0 {
                assert(rest[j - 1] == parts[j]);
            }
        }
    }
}

/// The folder of an instance is the one right behind the first folder of the instances,
/// and what lies in it is named by all that follows its own name.
pub proof fn law_instances_are_told_by_their_folder(
    above: Seq<Seq<char>>,
    folder: Seq<char>,
    name: Seq<char>,
    below: Seq<Seq<char>>,
)
    requires
        !above.contains(folder),
        !above.contains(name),
        folder != name,
    ensures
        behind(above.push(folder).push(name) + below, folder) == Some(name),
        path_below(above.push(folder).push(name) + below, name) == joined(below, "/"@),
        behind(above.push(folder), folder) is None,
        behind(above, folder) is None,
{
    let parts = above.push(folder).push(name) + below;
    let n = above.len() as int;
    law_where_a_name_first_stands(parts, folder);
    assert(parts[n] == folder);
    assert(first_at(parts, folder) == n) by {
        let i = first_at(parts, folder);
        if i < n {
            assert(above[i] == folder);
        }
        if i > n {
            assert(parts[n] != folder);
        }
    }
    law_where_a_name_first_stands(parts, name);
    assert(parts[n + 1] == name);
    assert(first_at(parts, name) == n + 1) by {
        let i = first_at(parts, name);
        if i < n {
            assert(above[i] == name);
        }
        if i > n + 1 {
            assert(parts[n + 1] != name);
        }
    }
    assert(parts.skip(n + 2) =~= below);
    let shorter = above.push(folder);
    law_where_a_name_first_stands(shorter, folder);
    assert(shorter[n] == folder);
    assert(first_at(shorter, folder) == n) by {
        let i = first_at(shorter, folder);
        if i < n {
            assert(above[i] == folder);
        }
    }
    law_where_a_name_first_stands(above, folder);
    let i = first_at(above, folder);
    if i < n {
        assert(above[i] == folder);
    }
}

/// Below an external root a path is named by what follows the root, part by part.
pub proof fn law_paths_below_a_root(path: Seq<char>, root: Seq<char>, rest: Seq<Seq<char>>)
    requires
        components(path, false) == components(root, false) + rest,
    ensures
        path_under(path, root, false) == joined(rest, "/"@),
{
    let n = components(root, false).len() as int;
    assert(components(path, false).skip(n) =~= rest);
}

/// A change below an external root concerns exactly the instances of the root, all by the
/// same path; a change elsewhere concerns none of them.
pub proof fn law_who_a_root_concerns(
    root: (String, NameSet),
    path: Seq<char>,
    windows: bool,
    target: (Seq<char>, Seq<char>),
)
    ensures
        root_targets(root, path, windows).contains(target) <==> under(path, root.0@, windows)
            && root.1.list().contains(target.0) && target.1 == path_under(path, root.0@, windows),
{
    let targets = root_targets(root, path, windows);
    let ids = root.1.list();
    if under(path, root.0@, windows) {
        if targets.contains(target) {
            let k = choose|k: int| 0 <= k < targets.len() && targets[k] == target;
            assert(ids[k] == target.0);
            assert(ids.contains(ids[k]));
        }
        if ids.contains(target.0) && target.1 == path_under(path, root.0@, windows) {
            let k = choose|k: int| 0 <= k < ids.len() && ids[k] == target.0;
            assert(targets[k] == target);
        }
    }
}

/// A change inside the folder of a known instance concerns that instance alone; any other
/// change concerns the instances of the external roots that it lies below.
pub proof fn law_who_a_change_concerns(
    instance_ids: Map<Seq<char>, String>,
    roots: Seq<(String, NameSet)>,
    instances_folder: Seq<char>,
    path: Seq<char>,
    windows: bool,
)
    ensures
        ({
            let parts = components(path, windows);
            let targets = targets_of(instance_ids, roots, instances_folder, path, windows);
            let name = behind(parts, instances_folder);
            &&& name is Some && instance_ids.dom().contains(name->0) ==> {
                &&& targets.len() == 1
                &&& targets[0].0 == instance_ids[name->0]@
                &&& targets[0].1 == path_below(parts, name->0)
            }
            &&& name is None || !instance_ids.dom().contains(name->0) ==> targets
                == external_targets(roots, path, windows)
        }),
{
}

/// An instance is told what a change tells of, by the path of the change; that it was told
/// is kept in mind, unless it was a crash. The change is recorded for the instance, unless
/// it is one of the folder as a whole.
pub proof fn law_how_an_instance_is_told(
    model: BatchModel,
    path: Seq<char>,
    id: Seq<char>,
    relative: Seq<char>,
    windows: bool,
)
    ensures
        ({
            let after = told(model, path, (id, relative), windows);
            let event = event_at(relative, model.visited.contains(id), windows);
            &&& event is None ==> after.emissions == model.emissions && after.visited
                == model.visited
            &&& event is Some ==> {
                &&& after.emissions.len() == model.emissions.len() + 1
                &&& after.emissions.take(model.emissions.len() as int) == model.emissions
                &&& after.emissions.last().0 == id
                &&& after.emissions.last().1 == event->0
                &&& after.emissions.last().2 == path
                &&& event->0 is CrashReported ==> after.visited == model.visited
                &&& !(event->0 is CrashReported) ==> forall|other: Seq<char>| #[trigger]
                    after.visited.contains(other) <==> other == id || model.visited.contains(other)
            }
            &&& relative.len() > 0 ==> after.changes == recorded(model.changes, id, relative)
            &&& relative.len() == 0 ==> after.changes == model.changes
            &&& after.scan_manual_downloads == model.scan_manual_downloads
        }),
{
    let after = told(model, path, (id, relative), windows);
    assert(after.emissions.take(model.emissions.len() as int) =~= model.emissions);
}

/// The folder of manual downloads is looked through exactly if something changed in it
/// that concerns no instance.
pub proof fn law_when_downloads_are_looked_for(
    context: BatchContext,
    changes: Map<Seq<char>, ChangeView>,
    paths: Seq<Seq<char>>,
)
    ensures
        batch(context, changes, paths).scan_manual_downloads <==> exists|k: int|
            {
                &&& 0 <= k < paths.len()
                &&& targets_in(context, #[trigger] paths[k]).len() == 0
                &&& context.manual_import_directory is Some
                &&& under(paths[k], context.manual_import_directory->0, context.windows)
            },
    decreases paths.len(),
{
    if paths.len() > 0 {
        let init = paths.drop_last();
        let last = paths.len() - 1;
        law_when_downloads_are_looked_for(context, changes, init);
        assert(paths[last] == paths.last());
        if batch(context, changes, init).scan_manual_downloads {
            let k = choose|k: int|
                {
                    &&& 0 <= k < init.len()
                    &&& targets_in(context, #[trigger] init[k]).len() == 0
                    &&& context.manual_import_directory is Some
                    &&& under(init[k], context.manual_import_directory->0, context.windows)
                };
            assert(paths[k] == init[k]);
        }
        if exists|k: int|
            {
                &&& 0 <= k < paths.len()
                &&& targets_in(context, #[trigger] paths[k]).len() == 0
                &&& context.manual_import_directory is Some
                &&& under(paths[k], context.manual_import_directory->0, context.windows)
            } {
            let k = choose|k: int|
                {
                    &&& 0 <= k < paths.len()
                    &&& targets_in(context, #[trigger] paths[k]).len() == 0
                    &&& context.manual_import_directory is Some
                    &&& under(paths[k], context.manual_import_directory->0, context.windows)
                };
            if k < last {
                assert(init[k] == paths[k]);
            }
        }
    }
}

proof fn lemma_told_of_targets(
    model: BatchModel,
    path: Seq<char>,
    targets: Seq<(Seq<char>, Seq<char>)>,
    windows: bool,
    e: int,
)
    requires
        0 <= e < told_all(model, path, targets, windows).emissions.len(),
    ensures
        ({
            let emissions = told_all(model, path, targets, windows).emissions;
            ||| e < model.emissions.len() && emissions[e] == model.emissions[e]
            ||| exists|t: int, visited: bool|
                {
                    &&& 0 <= t < targets.len()
                    &&& emissions[e].0 == targets[t].0
                    &&& emissions[e].2 == path
                    &&& Some(emissions[e].1) == #[trigger] event_at(
                        targets[t].1,
                        visited,
                        windows,
                    )
                }
        }),
    decreases targets.len(),
{
    if targets.len() > 0 {
        let init = targets.drop_last();
        let last = targets.len() - 1;
        let before = told_all(model, path, init, windows);
        let after = told_all(model, path, targets, windows);
        assert(targets[last] == targets.last());
        if e < before.emissions.len() {
            assert(after.emissions[e] == before.emissions[e]);
            lemma_told_of_targets(model, path, init, windows, e);
            if !(e < model.emissions.len() && before.emissions[e] == model.emissions[e]) {
                let (t, visited) = choose|t: int, visited: bool|
                    {
                        &&& 0 <= t < init.len()
                        &&& before.emissions[e].0 == init[t].0
                        &&& before.emissions[e].2 == path
                        &&& Some(before.emissions[e].1) == #[trigger] event_at(
                            init[t].1,
                            visited,
                            windows,
                        )
                    };
                assert(targets[t] == init[t]);
                assert(Some(after.emissions[e].1) == event_at(targets[t].1, visited, windows));
            }
        } else {
            let visited = before.visited.contains(targets[last].0);
            assert(Some(after.emissions[e].1) == event_at(targets[last].1, visited, windows));
        }
    }
}

/// Whatever an instance is told comes from a change in the batch that concerns it, and is
/// what that change tells of.
pub proof fn law_nothing_is_told_without_a_change(
    context: BatchContext,
    changes: Map<Seq<char>, ChangeView>,
    paths: Seq<Seq<char>>,
    e: int,
)
    requires
        0 <= e < batch(context, changes, paths).emissions.len(),
    ensures
        exists|k: int, t: int, visited: bool|
            {
                let told = batch(context, changes, paths).emissions[e];
                &&& 0 <= k < paths.len()
                &&& 0 <= t < targets_in(context, paths[k]).len()
                &&& told.0 == targets_in(context, paths[k])[t].0
                &&& told.2 == paths[k]
                &&& Some(told.1) == #[trigger] event_at(
                    targets_in(context, paths[k])[t].1,
                    visited,
                    context.windows,
                )
            },
    decreases paths.len(),
{
    if paths.len() > 0 {
        let init = paths.drop_last();
        let last = paths.len() - 1;
        let before = batch(context, changes, init);
        let after = batch(context, changes, paths);
        let path = paths.last();
        let targets = targets_in(context, path);
        assert(paths[last] == path);
        lemma_told_of_targets(before, path, targets, context.windows, e);
        if e < before.emissions.len() && after.emissions[e] == before.emissions[e] {
            law_nothing_is_told_without_a_change(context, changes, init, e);
            let (k, t, visited) = choose|k: int, t: int, visited: bool|
                {
                    let told = before.emissions[e];
                    &&& 0 <= k < init.len()
                    &&& 0 <= t < targets_in(context, init[k]).len()
                    &&& told.0 == targets_in(context, init[k])[t].0
                    &&& told.2 == init[k]
                    &&& Some(told.1) == #[trigger] event_at(
                        targets_in(context, init[k])[t].1,
                        visited,
                        context.windows,
                    )
                };
            assert(paths[k] == init[k]);
            assert(Some(after.emissions[e].1) == event_at(
                targets_in(context, paths[k])[t].1,
                visited,
                context.windows,
            ));
        } else {
            let (t, visited) = choose|t: int, visited: bool|
                {
                    &&& 0 <= t < targets.len()
                    &&& after.emissions[e].0 == targets[t].0
                    &&& after.emissions[e].2 == path
                    &&& Some(after.emissions[e].1) == #[trigger] event_at(
                        targets[t].1,
                        visited,
                        context.windows,
                    )
                };
            assert(Some(after.emissions[e].1) == event_at(
                targets_in(context, paths[last])[t].1,
                visited,
                context.windows,
            ));
        }
    }
}

/// Whether an instance was told something other than a crash.
pub open spec fn told_to(model: BatchModel, id: Seq<char>) -> bool {
    exists|e: int| #[trigger] is_told(model.emissions, e, id)
}

proof fn lemma_telling_adds(
    model: BatchModel,
    path: Seq<char>,
    targets: Seq<(Seq<char>, Seq<char>)>,
    windows: bool,
    id: Seq<char>,
)
    requires
        model.visited.contains(id) ==> told_to(model, id),
    ensures
        ({
            let after = told_all(model, path, targets, windows);
            &&& model.emissions.is_prefix_of(after.emissions)
            &&& after.visited.contains(id) ==> told_to(after, id)
            &&& model.visited.contains(id) ==> after.visited.contains(id)
        }),
    decreases targets.len(),
{
    if targets.len() > 0 {
        let init = targets.drop_last();
        lemma_telling_adds(model, path, init, windows, id);
        let before = told_all(model, path, init, windows);
        let after = told_all(model, path, targets, windows);
        assert(before.emissions.is_prefix_of(after.emissions));
        if before.visited.contains(id) {
            let e = choose|e: int| #[trigger] is_told(before.emissions, e, id);
            assert(after.emissions[e] == before.emissions[e]);
            assert(is_told(after.emissions, e, id));
        } else if after.visited.contains(id) {
            assert(is_told(after.emissions, before.emissions.len() as int, id));
        }
    }
}

proof fn lemma_target_is_told(
    model: BatchModel,
    path: Seq<char>,
    targets: Seq<(Seq<char>, Seq<char>)>,
    windows: bool,
    t: int,
)
    requires
        0 <= t < targets.len(),
        model.visited.contains(targets[t].0) ==> told_to(model, targets[t].0),
    ensures
        ({
            let after = told_all(model, path, targets, windows);
            let (id, relative) = targets[t];
            &&& event_at(relative, true, windows) is Some ==> after.emissions.contains(
                (id, EventView::CrashReported, path),
            )
            &&& event_at(relative, true, windows) is None && event_at(relative, false, windows)
                is Some ==> after.visited.contains(id)
        }),
    decreases targets.len(),
{
    let init = targets.drop_last();
    let last = targets.len() - 1;
    let (id, relative) = targets[t];
    let before = told_all(model, path, init, windows);
    let after = told_all(model, path, targets, windows);
    assert(targets[last] == targets.last());
    lemma_telling_adds(model, path, init, windows, id);
    if t < last {
        assert(init[t] == targets[t]);
        lemma_target_is_told(model, path, init, windows, t);
        if event_at(relative, true, windows) is Some {
            let told = (id, EventView::CrashReported, path);
            let k = choose|k: int| 0 <= k < before.emissions.len() && before.emissions[k] == told;
            assert(after.emissions[k] == told);
        }
    } else if event_at(relative, true, windows) is Some {
        assert(after.emissions[before.emissions.len() as int] == (
            id,
            EventView::CrashReported,
            path,
        ));
    }
}

proof fn lemma_batch_adds(
    context: BatchContext,
    changes: Map<Seq<char>, ChangeView>,
    paths: Seq<Seq<char>>,
    id: Seq<char>,
)
    ensures
        batch(context, changes, paths).visited.contains(id) ==> told_to(
            batch(context, changes, paths),
            id,
        ),
    decreases paths.len(),
{
    if paths.len() > 0 {
        let init = paths.drop_last();
        lemma_batch_adds(context, changes, init, id);
        let before = batch(context, changes, init);
        let targets = targets_in(context, paths.last());
        lemma_telling_adds(before, paths.last(), targets, context.windows, id);
        let after = told_all(before, paths.last(), targets, context.windows);
        let all = batch(context, changes, paths);
        assert(all.emissions == after.emissions && all.visited == after.visited);
        if all.visited.contains(id) {
            let e = choose|e: int| #[trigger] is_told(after.emissions, e, id);
            assert(is_told(all.emissions, e, id));
        }
    }
}

/// No change is passed over: every crash is told to every instance that it concerns, by
/// the path of its report, and an instance that any other telling change concerns is told
/// something in the batch.
pub proof fn law_no_change_is_passed_over(
    context: BatchContext,
    changes: Map<Seq<char>, ChangeView>,
    paths: Seq<Seq<char>>,
    k: int,
    t: int,
)
    requires
        0 <= k < paths.len(),
        0 <= t < targets_in(context, paths[k]).len(),
    ensures
        ({
            let (id, relative) = targets_in(context, paths[k])[t];
            let emissions = batch(context, changes, paths).emissions;
            &&& event_at(relative, false, context.windows) == Some(EventView::CrashReported)
                ==> emissions.contains((id, EventView::CrashReported, paths[k]))
            &&& event_at(relative, false, context.windows) is Some && !(event_at(
                relative,
                false,
                context.windows,
            )->0 is CrashReported) ==> exists|e: int|
                {
                    &&& 0 <= e < emissions.len()
                    &&& (#[trigger] emissions[e]).0 == id
                    &&& !(emissions[e].1 is CrashReported)
                }
        }),
{
    let (id, relative) = targets_in(context, paths[k])[t];
    lemma_passed_on(context, changes, paths, k, t);
    lemma_batch_adds(context, changes, paths, id);
    let all = batch(context, changes, paths);
    if all.visited.contains(id) {
        let e = choose|e: int| #[trigger] is_told(all.emissions, e, id);
        assert(all.emissions[e].0 == id);
    }
}

proof fn lemma_passed_on(
    context: BatchContext,
    changes: Map<Seq<char>, ChangeView>,
    paths: Seq<Seq<char>>,
    k: int,
    t: int,
)
    requires
        0 <= k < paths.len(),
        0 <= t < targets_in(context, paths[k]).len(),
    ensures
        ({
            let (id, relative) = targets_in(context, paths[k])[t];
            let all = batch(context, changes, paths);
            &&& event_at(relative, true, context.windows) is Some ==> all.emissions.contains(
                (id, EventView::CrashReported, paths[k]),
            )
            &&& event_at(relative, true, context.windows) is None && event_at(
                relative,
                false,
                context.windows,
            ) is Some ==> all.visited.contains(id)
        }),
    decreases paths.len(),
{
    let (id, relative) = targets_in(context, paths[k])[t];
    let init = paths.drop_last();
    let last = paths.len() - 1;
    let before = batch(context, changes, init);
    let targets = targets_in(context, paths.last());
    let after = told_all(before, paths.last(), targets, context.windows);
    let all = batch(context, changes, paths);
    assert(all.emissions == after.emissions && all.visited == after.visited);
    assert(paths[last] == paths.last());
    lemma_batch_adds(context, changes, init, id);
    if k < last {
        assert(init[k] == paths[k]);
        lemma_passed_on(context, changes, init, k, t);
        lemma_telling_adds(before, paths.last(), targets, context.windows, id);
        if event_at(relative, true, context.windows) is Some {
            let told = (id, EventView::CrashReported, paths[k]);
            let e = choose|e: int| 0 <= e < before.emissions.len() && before.emissions[e] == told;
            assert(after.emissions[e] == told);
        }
    } else {
        lemma_target_is_told(before, paths.last(), targets, context.windows, t);
    }
}

} // verus!

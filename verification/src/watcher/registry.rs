//! Which instances are watched, and through which folders.
//!
//! The content of an instance that is directly associated with an external
//! launcher lies under an external root, which several instances may share.
use vstd::prelude::*;

use crate::names::{NameMap, NameSet};
use crate::paths::{paths_equal, same_path};
use crate::text::views;

use super::changes::{
    change_views, fresh_changes, new_instance_content_change_state, ChangeView,
    InstanceContentChangeState,
};
use super::folders::{instance_watch_paths, watch_paths};

verus! {

/// Which instances are watched, and through which folders.
pub struct WatchRegistry {
    /// For the path of an instance, its name.
    pub instance_ids: NameMap<String>,
    /// For each external root, the instances whose content lies under it.
    pub external_roots: NameMap<NameSet>,
    /// For each folder that is watched in the stead of roots that do not exist
    /// yet, those roots.
    pub pending_ancestors: NameMap<NameSet>,
    /// For each instance, the changes of its content.
    pub content_changes: NameMap<InstanceContentChangeState>,
    /// The folder that manual downloads are taken from.
    pub manual_import_directory: Option<String>,
    /// How often that folder was changed.
    pub manual_import_generation: u64,
}

/// A registry, with its names as texts and sets.
pub struct RegistryView {
    pub instance_ids: Map<Seq<char>, Seq<char>>,
    pub external_roots: Map<Seq<char>, Set<Seq<char>>>,
    pub pending_ancestors: Map<Seq<char>, Set<Seq<char>>>,
    pub content_changes: Map<Seq<char>, ChangeView>,
    pub manual_import_directory: Option<Seq<char>>,
    pub manual_import_generation: u64,
}

/// The sets of a map.
pub open spec fn set_views(sets: Map<Seq<char>, NameSet>) -> Map<Seq<char>, Set<Seq<char>>> {
    sets.map_values(|s: NameSet| s@)
}

/// The texts of a map.
pub open spec fn text_views(texts: Map<Seq<char>, String>) -> Map<Seq<char>, Seq<char>> {
    texts.map_values(|s: String| s@)
}

impl View for WatchRegistry {
    type V = RegistryView;

    open spec fn view(&self) -> RegistryView {
        RegistryView {
            instance_ids: text_views(self.instance_ids@),
            external_roots: set_views(self.external_roots@),
            pending_ancestors: set_views(self.pending_ancestors@),
            content_changes: change_views(self.content_changes@),
            manual_import_directory: match self.manual_import_directory {
                Some(directory) => Some(directory@),
                None => None,
            },
            manual_import_generation: self.manual_import_generation,
        }
    }
}

/// The sets once `name` is in that of `key`.
pub open spec fn with_name(
    sets: Map<Seq<char>, Set<Seq<char>>>,
    key: Seq<char>,
    name: Seq<char>,
) -> Map<Seq<char>, Set<Seq<char>>> {
    if sets.dom().contains(key) {
        sets.insert(key, sets[key].insert(name))
    } else {
        sets.insert(key, Set::empty().insert(name))
    }
}

fn add_name(sets: &mut NameMap<NameSet>, key: &str, name: &str)
    ensures
        set_views(final(sets)@) == with_name(set_views(old(sets)@), key@, name@),
{
    let ghost before = sets@;
    let mut names = match sets.remove(key) {
        Some(names) => names,
        None => NameSet::new(),
    };
    let _ = names.insert(name);
    let ghost now = names;
    let _ = sets.insert(key, names);
    proof {
        assert(sets@ == before.remove(key@).insert(key@, now));
        assert(set_views(sets@) =~= with_name(set_views(before), key@, name@));
    }
}

/// The roots once `instance_id` is no longer under `root`: a root without
/// instances goes.
pub open spec fn without_instance(
    roots: Map<Seq<char>, Set<Seq<char>>>,
    root: Seq<char>,
    instance_id: Seq<char>,
) -> Map<Seq<char>, Set<Seq<char>>> {
    if !roots.dom().contains(root) {
        roots
    } else if roots[root].remove(instance_id) == Set::<Seq<char>>::empty() {
        roots.remove(root)
    } else {
        roots.insert(root, roots[root].remove(instance_id))
    }
}

/// Takes an instance away from an external root, and tells whether the watch on
/// the root has to be released: no instance is left under it.
pub fn deregister_external_root(
    external_roots: &mut NameMap<NameSet>,
    root_key: &str,
    instance_id: &str,
) -> (r: bool)
    ensures
        set_views(final(external_roots)@) == without_instance(
            set_views(old(external_roots)@),
            root_key@,
            instance_id@,
        ),
        r == !set_views(final(external_roots)@).dom().contains(root_key@),
{
    let ghost before = external_roots@;
    match external_roots.remove(root_key) {
        Some(names) => {
            let mut names = names;
            let _ = names.remove(instance_id);
            if names.is_empty() {
                assert(set_views(external_roots@) =~= set_views(before).remove(root_key@));
                true
            } else {
                let ghost now = names;
                let _ = external_roots.insert(root_key, names);
                proof {
                    assert(external_roots@ == before.remove(root_key@).insert(root_key@, now));
                    assert(set_views(external_roots@) =~= without_instance(
                        set_views(before),
                        root_key@,
                        instance_id@,
                    ));
                }
                false
            }
        },
        None => {
            assert(before.remove(root_key@) =~= before);
            true
        },
    }
}

/// The folders watched in the stead of roots, once `root` is none of them: a
/// folder that stands for none goes.
pub open spec fn without_root(
    pending: Map<Seq<char>, Set<Seq<char>>>,
    root: Seq<char>,
) -> Map<Seq<char>, Set<Seq<char>>> {
    Map::new(
        |k: Seq<char>|
            pending.dom().contains(k) && pending[k].remove(root) != Set::<Seq<char>>::empty(),
        |k: Seq<char>| pending[k].remove(root),
    )
}

/// Whether a folder is watched in the stead of `root` alone.
pub open spec fn stands_for_only(entry: (String, NameSet), root: Seq<char>) -> bool {
    entry.1@.contains(root) && entry.1@.remove(root) == Set::<Seq<char>>::empty()
}

/// The folders that are watched in the stead of `root` alone, in their order.
pub open spec fn only_for(entries: Seq<(String, NameSet)>, root: Seq<char>) -> Seq<Seq<char>> {
    entries.filter(|e: (String, NameSet)| stands_for_only(e, root)).map_values(
        |e: (String, NameSet)| e.0@,
    )
}

fn drop_root(pending: &mut NameMap<NameSet>, root: &str) -> (r: Vec<String>)
    ensures
        set_views(final(pending)@) == without_root(set_views(old(pending)@), root@),
        views(r@) == only_for(old(pending).list(), root@),
{
    let ghost before = set_views(pending@);
    let mut kept: NameMap<NameSet> = NameMap::new();
    let mut released: Vec<String> = Vec::new();
    let entries = pending.entries();
    let ghost all = entries@;
    let ghost keys = crate::names::entry_keys(all);
    let mut n: usize = 0;
    assert(all.take(0).filter(|e: (String, NameSet)| stands_for_only(e, root@))
        =~= Seq::<(String, NameSet)>::empty()) by {
        reveal(Seq::filter);
    }
    assert(views(released@) =~= only_for(all.take(0), root@));
    assert(set_views(kept@) =~= Map::<Seq<char>, Set<Seq<char>>>::empty());
    while n < entries.len()
        invariant
            n <= entries@.len(),
            all == entries@,
            keys == crate::names::entry_keys(all),
            keys.no_duplicates(),
            before == set_views(old(pending)@),
            forall|i: int|
                0 <= i < all.len() ==> before.dom().contains((#[trigger] all[i]).0@)
                    && before[all[i].0@] == all[i].1@,
            forall|k: Seq<char>| #[trigger]
                set_views(kept@).dom().contains(k) <==> exists|i: int|
                    0 <= i < n && (#[trigger] all[i]).0@ == k && all[i].1@.remove(root@)
                        != Set::<Seq<char>>::empty(),
            forall|k: Seq<char>| #[trigger]
                set_views(kept@).dom().contains(k) ==> set_views(kept@)[k] == before[k].remove(
                    root@,
                ),
            views(released@) == only_for(all.take(n as int), root@),
        decreases entries@.len() - n,
    {
        let ghost seen = set_views(kept@);
        let ghost gone = released@;
        let mut roots = entries[n].1.copy();
        let had = roots.remove(root);
        let ghost left = roots@;
        if roots.is_empty() {
            if had {
                released.push(entries[n].0.clone());
                assert(views(released@) =~= views(gone).push(all[n as int].0@));
            }
        } else {
            let ghost now = roots;
            let ghost held = kept@;
            let _ = kept.insert(entries[n].0.as_str(), roots);
            assert(kept@ == held.insert(all[n as int].0@, now));
            assert(set_views(kept@) =~= seen.insert(all[n as int].0@, left));
        }
        proof {
            reveal(Seq::filter);
            let longer = all.take(n + 1);
            assert(longer.drop_last() =~= all.take(n as int));
            assert(longer.last() == all[n as int]);
            assert(only_for(longer, root@) =~= views(released@));
            assert forall|k: Seq<char>| #[trigger] set_views(kept@).dom().contains(k)
                <==> exists|i: int|
                0 <= i < n + 1 && (#[trigger] all[i]).0@ == k && all[i].1@.remove(root@)
                    != Set::<Seq<char>>::empty() by {
                if seen.dom().contains(k) {
                    let i = choose|i: int|
                        0 <= i < n && (#[trigger] all[i]).0@ == k && all[i].1@.remove(root@)
                            != Set::<Seq<char>>::empty();
                    assert(0 <= i < n + 1 && all[i].0@ == k);
                }
                if set_views(kept@).dom().contains(k) && !seen.dom().contains(k) {
                    assert(all[n as int].0@ == k);
                }
                if exists|i: int|
                    0 <= i < n + 1 && (#[trigger] all[i]).0@ == k && all[i].1@.remove(root@)
                        != Set::<Seq<char>>::empty() {
                    let i = choose|i: int|
                        0 <= i < n + 1 && (#[trigger] all[i]).0@ == k && all[i].1@.remove(root@)
                            != Set::<Seq<char>>::empty();
                    if i < n {
                        assert(seen.dom().contains(k));
                    }
                }
            }
            assert forall|k: Seq<char>| #[trigger] set_views(kept@).dom().contains(k) implies
                set_views(kept@)[k] == before[k].remove(root@) by {
                if k == all[n as int].0@ && left != Set::<Seq<char>>::empty() {
                    assert(before[k] == all[n as int].1@);
                } else {
                    assert(seen.dom().contains(k));
                }
            }
        }
        n = n + 1;
    }
    proof {
        assert(all.take(n as int) =~= all);
        let want = without_root(before, root@);
        assert forall|k: Seq<char>| set_views(kept@).dom().contains(k) <==> want.dom().contains(
            k,
        ) by {
            if want.dom().contains(k) {
                assert(before.dom().contains(k));
                assert(pending@.dom().contains(k));
                let i = choose|i: int| 0 <= i < all.len() && (#[trigger] all[i]).0@ == k;
                assert(before[all[i].0@] == all[i].1@);
                assert(set_views(kept@).dom().contains(k));
            }
            if set_views(kept@).dom().contains(k) {
                let i = choose|i: int|
                    0 <= i < n && (#[trigger] all[i]).0@ == k && all[i].1@.remove(root@)
                        != Set::<Seq<char>>::empty();
                assert(before.dom().contains(all[i].0@));
            }
        }
        assert(set_views(kept@) =~= want);
    }
    *pending = kept;
    released
}

/// Whether a path receives events already: it is an external root of some
/// instance, or it is watched in the stead of a root.
pub open spec fn covered(view: RegistryView, path: Seq<char>) -> bool {
    ||| view.external_roots.dom().contains(path) && view.external_roots[path] != Set::<
        Seq<char>,
    >::empty()
    ||| view.pending_ancestors.dom().contains(path) && view.pending_ancestors[path] != Set::<
        Seq<char>,
    >::empty()
}

/// The registry once an instance is in it.
pub open spec fn registered(
    view: RegistryView,
    instance_path: Seq<char>,
    instance_id: Seq<char>,
    root: Seq<char>,
    direct_link: bool,
    epoch: u64,
) -> RegistryView {
    RegistryView {
        instance_ids: view.instance_ids.insert(instance_path, instance_id),
        content_changes: view.content_changes.insert(instance_id, fresh_changes(epoch)),
        external_roots: if direct_link {
            with_name(view.external_roots, root, instance_id)
        } else {
            view.external_roots
        },
        ..view
    }
}

/// The registry once `ancestor` is watched in the stead of `root`.
pub open spec fn pending(
    view: RegistryView,
    root: Seq<char>,
    ancestor: Seq<char>,
) -> RegistryView {
    RegistryView {
        pending_ancestors: with_name(view.pending_ancestors, ancestor, root),
        ..view
    }
}

/// The registry once an instance is no longer in it. What stands in for its root
/// goes only with the last instance under the root.
pub open spec fn unwatched(
    view: RegistryView,
    instance_path: Seq<char>,
    root: Seq<char>,
) -> RegistryView {
    let known = view.instance_ids.dom().contains(instance_path);
    let roots = if known {
        without_instance(view.external_roots, root, view.instance_ids[instance_path])
    } else {
        view.external_roots
    };
    RegistryView {
        instance_ids: view.instance_ids.remove(instance_path),
        external_roots: roots,
        pending_ancestors: if roots.dom().contains(root) {
            view.pending_ancestors
        } else {
            without_root(view.pending_ancestors, root)
        },
        content_changes: if known {
            view.content_changes.remove(view.instance_ids[instance_path])
        } else {
            view.content_changes
        },
        ..view
    }
}

/// Those of `paths` that receive no events from another watch.
pub open spec fn uncovered(view: RegistryView, paths: Seq<Seq<char>>) -> Seq<Seq<char>> {
    paths.filter(|p: Seq<char>| !covered(view, p))
}

/// The paths that are no longer watched once an instance is out of the registry,
/// which `after` then is: nothing while its root has other instances, and
/// nothing that another watch needs.
pub open spec fn released_paths(
    after: RegistryView,
    root: Seq<char>,
    stand_ins: Seq<Seq<char>>,
    windows: bool,
) -> Seq<Seq<char>> {
    if after.external_roots.dom().contains(root) {
        seq![]
    } else {
        uncovered(after, watch_paths(root, windows)) + uncovered(after, stand_ins)
    }
}

impl WatchRegistry {
    /// An empty registry.
    pub fn new() -> (r: WatchRegistry)
        ensures
            r@ == (RegistryView {
                instance_ids: Map::empty(),
                external_roots: Map::empty(),
                pending_ancestors: Map::empty(),
                content_changes: Map::empty(),
                manual_import_directory: None,
                manual_import_generation: 0,
            }),
    {
        let r = WatchRegistry {
            instance_ids: NameMap::new(),
            external_roots: NameMap::new(),
            pending_ancestors: NameMap::new(),
            content_changes: NameMap::new(),
            manual_import_directory: None,
            manual_import_generation: 0,
        };
        proof {
            assert(r@.instance_ids =~= Map::empty());
            assert(r@.external_roots =~= Map::empty());
            assert(r@.pending_ancestors =~= Map::empty());
            assert(r@.content_changes =~= Map::empty());
        }
        r
    }

    /// Whether `path` receives events already.
    pub fn path_watch_covered(&self, path: &str) -> (r: bool)
        ensures
            r == covered(self@, path@),
    {
        if let Some(ids) = self.external_roots.get(path) {
            if !ids.is_empty() {
                return true;
            }
        }
        match self.pending_ancestors.get(path) {
            Some(roots) => !roots.is_empty(),
            None => false,
        }
    }

    /// Puts an instance into the registry. `direct_link` says whether its content
    /// lies under the external root `full_instance_path`. The registration takes
    /// the next epoch, which all registries share.
    pub fn register_watched_instance(
        &mut self,
        instance_path: &str,
        instance_id: &str,
        full_instance_path: &str,
        direct_link: bool,
        next_epoch: &mut u64,
    )
        ensures
            final(self)@ == registered(
                old(self)@,
                instance_path@,
                instance_id@,
                full_instance_path@,
                direct_link,
                *old(next_epoch),
            ),
            *final(next_epoch) == old(next_epoch).wrapping_add(1),
    {
        let ghost ids = self.instance_ids@;
        let ghost changes = self.content_changes@;
        let name = instance_id.to_owned();
        let _ = self.instance_ids.insert(instance_path, name);
        let change = new_instance_content_change_state(next_epoch);
        let ghost fresh = change;
        let _ = self.content_changes.insert(instance_id, change);
        proof {
            assert(text_views(self.instance_ids@) =~= text_views(ids).insert(
                instance_path@,
                instance_id@,
            ));
            assert(change_views(self.content_changes@) =~= change_views(changes).insert(
                instance_id@,
                fresh@,
            ));
        }
        if direct_link {
            add_name(&mut self.external_roots, full_instance_path, instance_id);
        }
    }

    /// Lets `ancestor` stand in for a root that does not exist yet, and tells
    /// whether a watch on it has to be added.
    pub fn watch_pending_external_root(&mut self, full_instance_path: &str, ancestor: &str) -> (r:
        bool)
        ensures
            r == !covered(old(self)@, ancestor@),
            final(self)@ == pending(old(self)@, full_instance_path@, ancestor@),
    {
        let add_watch = !self.path_watch_covered(ancestor);
        add_name(&mut self.pending_ancestors, ancestor, full_instance_path);
        add_watch
    }

    fn keep_uncovered(&self, paths: &Vec<String>) -> (r: Vec<String>)
        ensures
            views(r@) == uncovered(self@, views(paths@)),
    {
        let ghost keep = |p: Seq<char>| !covered(self@, p);
        let ghost all = views(paths@);
        let mut kept: Vec<String> = Vec::new();
        let mut n: usize = 0;
        assert(all.take(0).filter(keep) =~= Seq::<Seq<char>>::empty()) by {
            reveal(Seq::filter);
        }
        assert(views(kept@) =~= all.take(0).filter(keep));
        while n < paths.len()
            invariant
                n <= paths@.len(),
                all == views(paths@),
                keep == (|p: Seq<char>| !covered(self@, p)),
                views(kept@) == all.take(n as int).filter(keep),
            decreases paths@.len() - n,
        {
            let ghost before = kept@;
            let path = &paths[n];
            if !self.path_watch_covered(path.as_str()) {
                kept.push(path.clone());
                assert(views(kept@) =~= views(before).push(path@));
            }
            proof {
                reveal(Seq::filter);
                let longer = all.take(n + 1);
                assert(longer.drop_last() =~= all.take(n as int));
                assert(longer.last() == paths@[n as int]@);
            }
            n = n + 1;
        }
        assert(all.take(n as int) =~= all);
        kept
    }

    /// Takes an instance out of the registry, and gives the paths that are no
    /// longer watched.
    pub fn unwatch_instance_folder(
        &mut self,
        instance_path: &str,
        full_instance_path: &str,
        windows: bool,
    ) -> (r: Vec<String>)
        ensures
            final(self)@ == unwatched(old(self)@, instance_path@, full_instance_path@),
            views(r@) == released_paths(
                final(self)@,
                full_instance_path@,
                only_for(old(self).pending_ancestors.list(), full_instance_path@),
                windows,
            ),
    {
        let ghost before = self@;
        let ghost ids = self.instance_ids@;
        let instance_id = self.instance_ids.remove(instance_path);
        assert(text_views(self.instance_ids@) =~= text_views(ids).remove(instance_path@));
        if let Some(instance_id) = &instance_id {
            let _ = deregister_external_root(
                &mut self.external_roots,
                full_instance_path,
                instance_id.as_str(),
            );
        }
        let release_watch = !self.external_roots.contains_key(full_instance_path);
        let mut released: Vec<String> = Vec::new();
        if release_watch {
            released = drop_root(&mut self.pending_ancestors, full_instance_path);
        }
        if let Some(instance_id) = &instance_id {
            let ghost changes = self.content_changes@;
            let _ = self.content_changes.remove(instance_id.as_str());
            assert(change_views(self.content_changes@) =~= change_views(changes).remove(
                instance_id@,
            ));
        }
        assert(self@ == unwatched(before, instance_path@, full_instance_path@));
        let mut paths: Vec<String> = Vec::new();
        if release_watch {
            let own = instance_watch_paths(full_instance_path, windows);
            paths = self.keep_uncovered(&own);
            let stand_ins = self.keep_uncovered(&released);
            let ghost first = views(paths@);
            let mut n: usize = 0;
            while n < stand_ins.len()
                invariant
                    n <= stand_ins@.len(),
                    views(paths@) == first + views(stand_ins@).take(n as int),
                decreases stand_ins@.len() - n,
            {
                let ghost so_far = paths@;
                paths.push(stand_ins[n].clone());
                proof {
                    assert(views(paths@) =~= views(so_far).push(stand_ins@[n as int]@));
                    assert(views(stand_ins@).take(n + 1) =~= views(stand_ins@).take(
                        n as int,
                    ).push(stand_ins@[n as int]@));
                }
                n = n + 1;
            }
            assert(views(stand_ins@).take(n as int) =~= views(stand_ins@));
        } else {
            assert(views(paths@) =~= Seq::<Seq<char>>::empty());
        }
        paths
    }

    /// Whether the folder that manual downloads are taken from would change.
    pub fn changes_manual_import(&self, directory: &Option<String>, windows: bool) -> (r: bool)
        ensures
            r == match (self@.manual_import_directory, *directory) {
                (Some(current), Some(new)) => !same_path(current, new@, windows),
                (None, None) => false,
                _ => true,
            },
    {
        match (&self.manual_import_directory, directory) {
            (Some(current), Some(new)) => !paths_equal(current.as_str(), new.as_str(), windows),
            (None, None) => false,
            _ => true,
        }
    }

    /// Sets the folder that manual downloads are taken from. The result is the
    /// generation for which it is looked through again and again.
    pub fn set_manual_import(&mut self, directory: Option<String>) -> (r: u64)
        ensures
            final(self)@ == (RegistryView {
                manual_import_directory: match directory {
                    Some(directory) => Some(directory@),
                    None => None,
                },
                manual_import_generation: old(self)@.manual_import_generation.wrapping_add(1),
                ..old(self)@
            }),
            r == final(self)@.manual_import_generation,
    {
        self.manual_import_directory = directory;
        self.manual_import_generation = self.manual_import_generation.wrapping_add(1);
        self.manual_import_generation
    }

    /// Whether the folder of this generation is still the one to be looked
    /// through.
    pub fn polls_generation(&self, generation: u64) -> (r: bool)
        ensures
            r == (self@.manual_import_generation == generation),
    {
        self.manual_import_generation == generation
    }
}

/// Whether no set of the registry is empty.
pub open spec fn no_empty_sets(view: RegistryView) -> bool {
    &&& forall|k: Seq<char>| #[trigger]
        view.external_roots.dom().contains(k) ==> view.external_roots[k] != Set::<
            Seq<char>,
        >::empty()
    &&& forall|k: Seq<char>| #[trigger]
        view.pending_ancestors.dom().contains(k) ==> view.pending_ancestors[k] != Set::<
            Seq<char>,
        >::empty()
}

/// An external root without instances, or a folder that stands in for no root,
/// is never kept.
pub proof fn law_empty_sets_are_not_kept(
    view: RegistryView,
    instance_path: Seq<char>,
    instance_id: Seq<char>,
    root: Seq<char>,
    ancestor: Seq<char>,
    direct_link: bool,
    epoch: u64,
)
    requires
        no_empty_sets(view),
    ensures
        no_empty_sets(registered(view, instance_path, instance_id, root, direct_link, epoch)),
        no_empty_sets(pending(view, root, ancestor)),
        no_empty_sets(unwatched(view, instance_path, root)),
{
    lemma_with_name_nonempty(view.external_roots, root, instance_id);
    lemma_with_name_nonempty(view.pending_ancestors, ancestor, root);
}

proof fn lemma_with_name_nonempty(
    sets: Map<Seq<char>, Set<Seq<char>>>,
    key: Seq<char>,
    name: Seq<char>,
)
    ensures
        with_name(sets, key, name)[key].contains(name),
        with_name(sets, key, name)[key] != Set::<Seq<char>>::empty(),
{
    assert(with_name(sets, key, name)[key].contains(name));
    assert(!Set::<Seq<char>>::empty().contains(name));
}

/// The watch on an external root is released only with its last instance: while
/// another is left under it, the root stays, what stands in for it stays, and no
/// path at all is released.
pub proof fn law_shared_root_outlives_its_first_instance(
    view: RegistryView,
    instance_path: Seq<char>,
    root: Seq<char>,
    other: Seq<char>,
    stand_ins: Seq<Seq<char>>,
    windows: bool,
)
    requires
        view.external_roots.dom().contains(root),
        view.external_roots[root].contains(other),
        view.instance_ids.dom().contains(instance_path) ==> view.instance_ids[instance_path]
            != other,
    ensures
        ({
            let after = unwatched(view, instance_path, root);
            &&& after.external_roots.dom().contains(root)
            &&& after.external_roots[root].contains(other)
            &&& after.pending_ancestors == view.pending_ancestors
            &&& released_paths(after, root, stand_ins, windows) == Seq::<Seq<char>>::empty()
        }),
{
    if view.instance_ids.dom().contains(instance_path) {
        let id = view.instance_ids[instance_path];
        assert(view.external_roots[root].remove(id).contains(other));
        assert(!Set::<Seq<char>>::empty().contains(other));
    }
}

/// A path that another watch needs is never released.
pub proof fn law_covered_paths_are_not_released(
    after: RegistryView,
    root: Seq<char>,
    stand_ins: Seq<Seq<char>>,
    path: Seq<char>,
    windows: bool,
)
    requires
        released_paths(after, root, stand_ins, windows).contains(path),
    ensures
        !covered(after, path),
{
    let keep = |p: Seq<char>| !covered(after, p);
    let all = released_paths(after, root, stand_ins, windows);
    let own = watch_paths(root, windows).filter(keep);
    let others = stand_ins.filter(keep);
    let i = choose|i: int| 0 <= i < all.len() && all[i] == path;
    if i < own.len() {
        watch_paths(root, windows).lemma_filter_pred(keep, i);
        assert(own[i] == path);
    } else {
        stand_ins.lemma_filter_pred(keep, i - own.len());
        assert(others[i - own.len()] == path);
    }
}

/// Taking an instance out of the registry undoes putting it in, with the folder
/// that stood in for its root.
pub proof fn law_unwatching_undoes_watching(
    view: RegistryView,
    instance_path: Seq<char>,
    instance_id: Seq<char>,
    root: Seq<char>,
    ancestor: Seq<char>,
    epoch: u64,
)
    requires
        no_empty_sets(view),
        !view.instance_ids.dom().contains(instance_path),
        !view.content_changes.dom().contains(instance_id),
        !view.external_roots.dom().contains(root),
        forall|k: Seq<char>| #[trigger]
            view.pending_ancestors.dom().contains(k) ==> !view.pending_ancestors[k].contains(root),
    ensures
        unwatched(
            pending(
                registered(view, instance_path, instance_id, root, true, epoch),
                root,
                ancestor,
            ),
            instance_path,
            root,
        ) == view,
{
    let added = registered(view, instance_path, instance_id, root, true, epoch);
    let waiting = pending(added, root, ancestor);
    let after = unwatched(waiting, instance_path, root);
    assert(added.external_roots[root] =~= Set::empty().insert(instance_id));
    assert(added.external_roots[root].remove(instance_id) =~= Set::<Seq<char>>::empty());
    assert(after.external_roots =~= view.external_roots);
    assert(after.instance_ids =~= view.instance_ids);
    assert(after.content_changes =~= view.content_changes);
    assert forall|k: Seq<char>| view.pending_ancestors.dom().contains(k)
        <==> after.pending_ancestors.dom().contains(k) by {
        if k == ancestor {
            if view.pending_ancestors.dom().contains(k) {
                assert(waiting.pending_ancestors[k].remove(root) =~= view.pending_ancestors[k]);
            } else {
                assert(waiting.pending_ancestors[k].remove(root) =~= Set::<Seq<char>>::empty());
            }
        } else if view.pending_ancestors.dom().contains(k) {
            assert(waiting.pending_ancestors[k].remove(root) =~= view.pending_ancestors[k]);
        }
    }
    assert forall|k: Seq<char>| #[trigger] view.pending_ancestors.dom().contains(k) implies
        after.pending_ancestors[k] == view.pending_ancestors[k] by {
        assert(waiting.pending_ancestors[k].remove(root) =~= view.pending_ancestors[k]);
    }
    assert(after.pending_ancestors =~= view.pending_ancestors);
}

/// A folder stands in for several roots until the last of them is gone.
pub proof fn law_stand_in_outlives_its_first_root(
    view: RegistryView,
    instance_path: Seq<char>,
    root: Seq<char>,
    ancestor: Seq<char>,
    other_root: Seq<char>,
)
    requires
        view.pending_ancestors.dom().contains(ancestor),
        view.pending_ancestors[ancestor].contains(other_root),
        other_root != root,
    ensures
        unwatched(view, instance_path, root).pending_ancestors.dom().contains(ancestor),
        unwatched(view, instance_path, root).pending_ancestors[ancestor].contains(other_root),
        covered(unwatched(view, instance_path, root), ancestor),
{
    assert(view.pending_ancestors[ancestor].remove(root).contains(other_root));
    assert(!Set::<Seq<char>>::empty().contains(other_root));
    assert(view.pending_ancestors[ancestor] != Set::<Seq<char>>::empty());
}

/// A name that is added to the set under a key is in it beside what was there, and the
/// other sets are as they were.
pub proof fn law_names_are_added(
    sets: Map<Seq<char>, Set<Seq<char>>>,
    key: Seq<char>,
    name: Seq<char>,
)
    ensures
        ({
            let after = with_name(sets, key, name);
            &&& after.dom().contains(key)
            &&& forall|n: Seq<char>| #[trigger]
                after[key].contains(n) <==> n == name || sets.dom().contains(key)
                    && sets[key].contains(n)
            &&& forall|k: Seq<char>|
                k != key ==> (#[trigger] after.dom().contains(k) <==> sets.dom().contains(k))
            &&& forall|k: Seq<char>|
                k != key && sets.dom().contains(k) ==> #[trigger] after[k] == sets[k]
        }),
{
}

/// An instance that leaves a root is no longer among those of the root, and the others
/// stay. A root stays known exactly as long as an instance is left; other roots are as
/// they were.
pub proof fn law_instances_leave_their_root(
    roots: Map<Seq<char>, Set<Seq<char>>>,
    root: Seq<char>,
    instance_id: Seq<char>,
)
    ensures
        ({
            let after = without_instance(roots, root, instance_id);
            &&& after.dom().contains(root) <==> roots.dom().contains(root) && exists|id: Seq<char>|
                id != instance_id && #[trigger] roots[root].contains(id)
            &&& after.dom().contains(root) ==> forall|id: Seq<char>| #[trigger]
                after[root].contains(id) <==> id != instance_id && roots[root].contains(id)
            &&& forall|k: Seq<char>|
                k != root ==> (#[trigger] after.dom().contains(k) <==> roots.dom().contains(k))
            &&& forall|k: Seq<char>|
                k != root && roots.dom().contains(k) ==> #[trigger] after[k] == roots[k]
        }),
{
    if roots.dom().contains(root) {
        let left = roots[root].remove(instance_id);
        if left == Set::<Seq<char>>::empty() {
            assert forall|id: Seq<char>| id != instance_id implies !#[trigger] roots[root].contains(
                id,
            ) by {
                assert(!left.contains(id));
            }
        } else {
            assert(exists|id: Seq<char>| left.contains(id)) by {
                if forall|id: Seq<char>| !left.contains(id) {
                    assert(left =~= Set::<Seq<char>>::empty());
                }
            }
            let id = choose|id: Seq<char>| left.contains(id);
            assert(roots[root].contains(id));
        }
    }
}

/// A root that is given up is waited for nowhere. A folder that stands in for other roots
/// goes on standing in for them, and one that stood in for none but this is dropped.
pub proof fn law_stand_ins_give_up_a_root(
    pending: Map<Seq<char>, Set<Seq<char>>>,
    root: Seq<char>,
    folder: Seq<char>,
)
    ensures
        ({
            let after = without_root(pending, root);
            &&& after.dom().contains(folder) <==> pending.dom().contains(folder)
                && exists|other: Seq<char>| other != root && #[trigger] pending[folder].contains(
                other,
            )
            &&& after.dom().contains(folder) ==> forall|other: Seq<char>| #[trigger]
                after[folder].contains(other) <==> other != root && pending[folder].contains(other)
        }),
{
    if pending.dom().contains(folder) {
        let left = pending[folder].remove(root);
        if left == Set::<Seq<char>>::empty() {
            assert forall|other: Seq<char>| other != root implies !#[trigger] pending[
                folder
            ].contains(other) by {
                assert(!left.contains(other));
            }
        } else {
            assert(exists|other: Seq<char>| left.contains(other)) by {
                if forall|other: Seq<char>| !left.contains(other) {
                    assert(left =~= Set::<Seq<char>>::empty());
                }
            }
            let other = choose|other: Seq<char>| left.contains(other);
            assert(pending[folder].contains(other));
        }
    }
}

/// A folder stands in for one root only if that root is in its set and no other is.
pub proof fn law_who_stands_in_for_one_root(entry: (String, NameSet), root: Seq<char>)
    ensures
        stands_for_only(entry, root) <==> forall|other: Seq<char>| #[trigger]
            entry.1@.contains(other) <==> other == root,
{
    if stands_for_only(entry, root) {
        assert forall|other: Seq<char>| #[trigger] entry.1@.contains(other) <==> other == root by {
            assert(!entry.1@.remove(root).contains(other));
        }
    }
    if forall|other: Seq<char>| #[trigger] entry.1@.contains(other) <==> other == root {
        assert(entry.1@.contains(root));
        assert(entry.1@.remove(root) =~= Set::<Seq<char>>::empty());
    }
}

proof fn lemma_only_for_last(entries: Seq<(String, NameSet)>, root: Seq<char>)
    requires
        entries.len() > 0,
    ensures
        only_for(entries, root) == if stands_for_only(entries.last(), root) {
            only_for(entries.drop_last(), root).push(entries.last().0@)
        } else {
            only_for(entries.drop_last(), root)
        },
{
    reveal(Seq::filter);
    let before = only_for(entries.drop_last(), root);
    assert(only_for(entries, root) =~= if stands_for_only(entries.last(), root) {
        before.push(entries.last().0@)
    } else {
        before
    });
}

/// The folders that are given up with a root are those that stand in for it alone.
pub proof fn law_which_stand_ins_are_given_up(
    entries: Seq<(String, NameSet)>,
    root: Seq<char>,
    folder: Seq<char>,
)
    ensures
        only_for(entries, root).contains(folder) <==> exists|i: int|
            {
                &&& 0 <= i < entries.len()
                &&& (#[trigger] entries[i]).0@ == folder
                &&& stands_for_only(entries[i], root)
            },
    decreases entries.len(),
{
    let all = only_for(entries, root);
    if entries.len() > 0 {
        let init = entries.drop_last();
        let last = entries.len() - 1;
        law_which_stand_ins_are_given_up(init, root, folder);
        lemma_only_for_last(entries, root);
        let before = only_for(init, root);
        assert(entries[last] == entries.last());
        if all.contains(folder) {
            let k = choose|k: int| 0 <= k < all.len() && all[k] == folder;
            if k < before.len() {
                assert(before[k] == folder);
                assert(before.contains(folder));
                let i = choose|i: int|
                    {
                        &&& 0 <= i < init.len()
                        &&& (#[trigger] init[i]).0@ == folder
                        &&& stands_for_only(init[i], root)
                    };
                assert(entries[i] == init[i]);
            }
        }
        if exists|i: int|
            {
                &&& 0 <= i < entries.len()
                &&& (#[trigger] entries[i]).0@ == folder
                &&& stands_for_only(entries[i], root)
            } {
            let i = choose|i: int|
                {
                    &&& 0 <= i < entries.len()
                    &&& (#[trigger] entries[i]).0@ == folder
                    &&& stands_for_only(entries[i], root)
                };
            if i < last {
                assert(init[i] == entries[i]);
                let k = choose|k: int| 0 <= k < before.len() && before[k] == folder;
                assert(all[k] == folder);
            } else {
                assert(all[all.len() - 1] == folder);
            }
        }
    } else {
        reveal(Seq::filter);
        assert(all.len() == 0);
    }
}

/// A path is watched for someone exactly if an instance has its content there or a root is
/// waited for there.
pub proof fn law_what_is_covered(view: RegistryView, path: Seq<char>)
    ensures
        covered(view, path) <==> (view.external_roots.dom().contains(path) && exists|
            id: Seq<char>,
        |
            #[trigger] view.external_roots[path].contains(id)) || (
        view.pending_ancestors.dom().contains(path) && exists|root: Seq<char>| #[trigger]
            view.pending_ancestors[path].contains(root)),
{
    if view.external_roots.dom().contains(path) {
        let ids = view.external_roots[path];
        if ids != Set::<Seq<char>>::empty() && forall|id: Seq<char>| !ids.contains(id) {
            assert(ids =~= Set::<Seq<char>>::empty());
        }
    }
    if view.pending_ancestors.dom().contains(path) {
        let roots = view.pending_ancestors[path];
        if roots != Set::<Seq<char>>::empty() && forall|root: Seq<char>| !roots.contains(root) {
            assert(roots =~= Set::<Seq<char>>::empty());
        }
    }
}

/// A registered instance is known by its path, its changes are followed from the start,
/// and a linked one is among the instances of its root; a managed one has no external
/// root. Nothing else changes.
pub proof fn law_what_registering_does(
    view: RegistryView,
    instance_path: Seq<char>,
    instance_id: Seq<char>,
    root: Seq<char>,
    direct_link: bool,
    epoch: u64,
)
    ensures
        ({
            let after = registered(view, instance_path, instance_id, root, direct_link, epoch);
            &&& after.instance_ids.dom().contains(instance_path)
            &&& after.instance_ids[instance_path] == instance_id
            &&& forall|p: Seq<char>|
                p != instance_path && view.instance_ids.dom().contains(p) ==> (
                #[trigger] after.instance_ids[p]) == view.instance_ids[p]
                    && after.instance_ids.dom().contains(p)
            &&& after.content_changes.dom().contains(instance_id)
            &&& after.content_changes[instance_id] == fresh_changes(epoch)
            &&& forall|id: Seq<char>|
                id != instance_id && view.content_changes.dom().contains(id) ==> (
                #[trigger] after.content_changes[id]) == view.content_changes[id]
                    && after.content_changes.dom().contains(id)
            &&& direct_link ==> after.external_roots.dom().contains(root)
                && after.external_roots[root].contains(instance_id)
            &&& !direct_link ==> after.external_roots == view.external_roots
            &&& after.pending_ancestors == view.pending_ancestors
            &&& after.manual_import_directory == view.manual_import_directory
            &&& after.manual_import_generation == view.manual_import_generation
        }),
{
}

/// A root that is not there yet is waited for at the folder that stands in for it, and
/// nothing else changes.
pub proof fn law_roots_are_waited_for(view: RegistryView, root: Seq<char>, ancestor: Seq<char>)
    ensures
        ({
            let after = pending(view, root, ancestor);
            &&& after.pending_ancestors.dom().contains(ancestor)
            &&& after.pending_ancestors[ancestor].contains(root)
            &&& covered(after, ancestor)
            &&& after.instance_ids == view.instance_ids
            &&& after.external_roots == view.external_roots
            &&& after.content_changes == view.content_changes
            &&& after.manual_import_directory == view.manual_import_directory
            &&& after.manual_import_generation == view.manual_import_generation
        }),
{
}

/// An instance that is no longer watched is forgotten with its changes and leaves its
/// root; only when no instance is left there, the root is given up where it was waited
/// for. An instance that was not known takes nothing with it.
pub proof fn law_what_unwatching_does(
    view: RegistryView,
    instance_path: Seq<char>,
    root: Seq<char>,
)
    ensures
        ({
            let after = unwatched(view, instance_path, root);
            &&& !after.instance_ids.dom().contains(instance_path)
            &&& forall|p: Seq<char>|
                p != instance_path && view.instance_ids.dom().contains(p) ==> (
                #[trigger] after.instance_ids[p]) == view.instance_ids[p]
                    && after.instance_ids.dom().contains(p)
            &&& view.instance_ids.dom().contains(instance_path) ==> {
                let id = view.instance_ids[instance_path];
                &&& !after.content_changes.dom().contains(id)
                &&& forall|other: Seq<char>|
                    other != id && view.content_changes.dom().contains(other) ==> (
                    #[trigger] after.content_changes[other]) == view.content_changes[other]
                        && after.content_changes.dom().contains(other)
                &&& after.external_roots == without_instance(view.external_roots, root, id)
            }
            &&& !view.instance_ids.dom().contains(instance_path) ==> after.content_changes
                == view.content_changes && after.external_roots == view.external_roots
            &&& after.external_roots.dom().contains(root) ==> after.pending_ancestors
                == view.pending_ancestors
            &&& !after.external_roots.dom().contains(root) ==> after.pending_ancestors
                == without_root(view.pending_ancestors, root)
            &&& after.manual_import_directory == view.manual_import_directory
            &&& after.manual_import_generation == view.manual_import_generation
        }),
{
}

proof fn lemma_uncovered(view: RegistryView, paths: Seq<Seq<char>>, path: Seq<char>)
    ensures
        uncovered(view, paths).contains(path) <==> paths.contains(path) && !covered(view, path),
    decreases paths.len(),
{
    reveal(Seq::filter);
    let all = uncovered(view, paths);
    if paths.len() > 0 {
        let init = paths.drop_last();
        let last = paths.last();
        lemma_uncovered(view, init, path);
        let before = uncovered(view, init);
        assert(all == if covered(view, last) {
            before
        } else {
            before.push(last)
        });
        if all.contains(path) {
            let k = choose|k: int| 0 <= k < all.len() && all[k] == path;
            if k < before.len() {
                assert(before[k] == path);
                assert(before.contains(path));
                let i = choose|i: int| 0 <= i < init.len() && init[i] == path;
                assert(paths[i] == path);
            } else {
                assert(paths[paths.len() - 1] == path);
            }
        }
        if paths.contains(path) && !covered(view, path) {
            let i = choose|i: int| 0 <= i < paths.len() && paths[i] == path;
            if i < init.len() {
                assert(init[i] == path);
                assert(init.contains(path));
                let k = choose|k: int| 0 <= k < before.len() && before[k] == path;
                assert(all[k] == path);
            } else {
                assert(all[all.len() - 1] == path);
            }
        }
    }
}

/// What is no longer watched are the folders of a root that was given up and the folders
/// that stood in for it alone, without those that are watched for someone else. As long
/// as the root has an instance, nothing is released.
pub proof fn law_what_is_released(
    after: RegistryView,
    root: Seq<char>,
    stand_ins: Seq<Seq<char>>,
    windows: bool,
    path: Seq<char>,
)
    ensures
        released_paths(after, root, stand_ins, windows).contains(path) <==> !(
        after.external_roots.dom().contains(root)) && !covered(after, path) && (watch_paths(
            root,
            windows,
        ).contains(path) || stand_ins.contains(path)),
{
    if !after.external_roots.dom().contains(root) {
        lemma_uncovered(after, watch_paths(root, windows), path);
        lemma_uncovered(after, stand_ins, path);
        let a = uncovered(after, watch_paths(root, windows));
        let b = uncovered(after, stand_ins);
        let all = a + b;
        if all.contains(path) {
            let k = choose|k: int| 0 <= k < all.len() && all[k] == path;
            if k < a.len() {
                assert(a[k] == path);
                assert(a.contains(path));
            } else {
                assert(b[k - a.len()] == path);
                assert(b.contains(path));
            }
        }
        if a.contains(path) {
            let k = choose|k: int| 0 <= k < a.len() && a[k] == path;
            assert(all[k] == path);
        }
        if b.contains(path) {
            let k = choose|k: int| 0 <= k < b.len() && b[k] == path;
            assert(all[a.len() + k] == path);
        }
    }
}

} // verus!

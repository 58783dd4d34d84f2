use std::sync::{Arc, Mutex};
use theseus::names::{NameMap, NameSet};
use theseus::watcher::changes::{
    content_watch_snapshot, new_instance_content_change_state, record_upgrade_content_change,
    track_upgrade_source, InstanceContentChangeState,
};
use theseus::watcher::events::{external_root_event_targets, is_config_sync_file_name};
use theseus::watcher::folders::{
    managed_subfolders, nearest_existing_ancestor, watch_route, RootProbe, WatchRoute,
};
use theseus::watcher::registry::{deregister_external_root, WatchRegistry};

fn set_of(names: &[&str]) -> NameSet {
    let mut set = NameSet::new();
    for name in names {
        set.insert(name);
    }
    set
}

fn sorted(set: Option<&NameSet>) -> Option<Vec<String>> {
    set.map(|set| {
        let mut names = set.names().clone();
        names.sort();
        names
    })
}

fn watched(id: &str) -> NameMap<InstanceContentChangeState> {
    let mut next_epoch: u64 = 1;
    let mut changes = NameMap::new();
    changes.insert(id, new_instance_content_change_state(&mut next_epoch));
    changes
}

#[test]
fn recognizes_sync_config_files_but_not_other_instance_events() {
    assert!(is_config_sync_file_name("axolotl_config.json"));
    assert!(is_config_sync_file_name("axolotl_config.json.tmp"));
    assert!(!is_config_sync_file_name("mods"));
    assert!(!is_config_sync_file_name("servers.dat"));
}

#[test]
fn content_change_tracking_ignores_unrelated_paths() {
    let mut changes = watched("instance");
    track_upgrade_source(&mut changes, "instance", &vec!["schematics/existing.schem".to_string()]);

    record_upgrade_content_change(&mut changes, "instance", "config/options.txt");
    record_upgrade_content_change(&mut changes, "instance", "schematics/existing.schem");
    record_upgrade_content_change(&mut changes, "instance", "mods/new.jar");

    let snapshot = content_watch_snapshot(&changes, "instance").unwrap();
    assert_eq!(snapshot.generation, 2);
    assert!(snapshot.dirty_paths.contains("mods/new.jar"));
    assert!(snapshot.dirty_paths.contains("schematics/existing.schem"));
    assert!(!snapshot.dirty_paths.contains("config/options.txt"));
}

#[test]
fn concurrent_content_notifications_do_not_lose_generation() {
    let changes = Arc::new(Mutex::new(watched("instance")));
    let runtime = tokio::runtime::Builder::new_multi_thread().build().unwrap();
    runtime.block_on(async {
        let mut tasks = Vec::new();
        for index in 0..32 {
            let changes = Arc::clone(&changes);
            tasks.push(tokio::spawn(async move {
                record_upgrade_content_change(
                    &mut changes.lock().unwrap(),
                    "instance",
                    &format!("mods/{index}.jar"),
                );
            }));
        }
        for task in tasks {
            task.await.unwrap();
        }
    });

    let snapshot = content_watch_snapshot(&changes.lock().unwrap(), "instance").unwrap();
    assert_eq!(snapshot.generation, 32);
    assert_eq!(snapshot.dirty_paths.names().len(), 32);
}

#[test]
fn watcher_reinitialization_changes_content_epoch() {
    let mut next_epoch: u64 = 1;
    let mut first = WatchRegistry::new();
    first.register_watched_instance("path", "instance", "/path", false, &mut next_epoch);
    let mut second = WatchRegistry::new();
    second.register_watched_instance("path", "instance", "/path", false, &mut next_epoch);
    assert_ne!(
        content_watch_snapshot(&first.content_changes, "instance").unwrap().epoch,
        content_watch_snapshot(&second.content_changes, "instance").unwrap().epoch
    );
}

#[test]
fn external_root_events_notify_every_instance_sharing_the_root() {
    let mut roots = NameMap::new();
    roots.insert("/minecraft", set_of(&["hmcl-a", "hmcl-b"]));
    let mut targets = external_root_event_targets("/minecraft/mods/new.jar", &roots, false);
    targets.sort();
    assert_eq!(
        targets,
        vec![
            ("hmcl-a".to_string(), "mods/new.jar".to_string()),
            ("hmcl-b".to_string(), "mods/new.jar".to_string()),
        ]
    );
}

#[test]
fn external_root_events_use_each_roots_own_relative_path() {
    let mut roots = NameMap::new();
    roots.insert("/minecraft", set_of(&["shared"]));
    roots.insert("/minecraft/versions/isolated", set_of(&["isolated"]));
    let mut targets =
        external_root_event_targets("/minecraft/versions/isolated/mods/x.jar", &roots, false);
    targets.sort();
    assert_eq!(
        targets,
        vec![
            ("isolated".to_string(), "mods/x.jar".to_string()),
            ("shared".to_string(), "versions/isolated/mods/x.jar".to_string()),
        ]
    );
}

#[test]
fn external_root_events_ignore_unrelated_and_managed_paths() {
    let mut roots = NameMap::new();
    roots.insert("/minecraft", set_of(&["instance"]));
    assert!(
        external_root_event_targets("/profiles/my-instance/mods/x.jar", &roots, false).is_empty(),
        "managed profile events must not be attributed to external roots"
    );
    assert!(external_root_event_targets("/elsewhere/mods/x.jar", &roots, false).is_empty());
    assert_eq!(
        external_root_event_targets("/minecraft", &roots, false),
        vec![("instance".to_string(), String::new())],
        "an event on the root path itself maps to an empty relative path"
    );
}

#[test]
fn external_root_watch_is_released_only_by_its_last_instance() {
    let mut roots = NameMap::new();
    roots.insert("/minecraft", set_of(&["hmcl-a", "hmcl-b"]));

    // The remaining instance still needs the events of the root.
    assert!(!deregister_external_root(&mut roots, "/minecraft", "hmcl-a"));
    assert_eq!(sorted(roots.get("/minecraft")), Some(vec!["hmcl-b".to_string()]));

    assert!(deregister_external_root(&mut roots, "/minecraft", "hmcl-b"));
    assert!(roots.is_empty());

    // A root that is not registered is released.
    assert!(deregister_external_root(&mut roots, "/minecraft", "ghost"));
}

#[test]
fn direct_link_root_watch_never_creates_directories_and_registers_the_root() {
    // The linked route has no folders of its own to create.
    assert_eq!(watch_route(RootProbe::Directory, false), WatchRoute::Linked);

    let mut next_epoch: u64 = 1;
    let mut registry = WatchRegistry::new();
    registry.register_watched_instance(
        "virtual-profile-path",
        "instance-1",
        "/minecraft",
        true,
        &mut next_epoch,
    );
    registry.register_watched_instance(
        "virtual-profile-path-2",
        "instance-2",
        "/minecraft",
        true,
        &mut next_epoch,
    );
    assert_eq!(
        sorted(registry.external_roots.get("/minecraft")),
        Some(vec!["instance-1".to_string(), "instance-2".to_string()])
    );

    // Unwatching one instance keeps the root for the other.
    let released = registry.unwatch_instance_folder("virtual-profile-path", "/minecraft", false);
    assert!(released.is_empty());
    assert_eq!(
        sorted(registry.external_roots.get("/minecraft")),
        Some(vec!["instance-2".to_string()])
    );

    // Unwatching the last instance drops the root.
    let released = registry.unwatch_instance_folder("virtual-profile-path-2", "/minecraft", false);
    assert!(released.contains(&"/minecraft".to_string()));
    assert!(registry.external_roots.is_empty());
}

#[test]
fn managed_instance_watch_creates_missing_directories() {
    assert_eq!(watch_route(RootProbe::Directory, true), WatchRoute::Managed);
    assert!(managed_subfolders("/profiles/managed", false).contains(&"/profiles/managed/mods".to_string()));

    let mut next_epoch: u64 = 1;
    let mut registry = WatchRegistry::new();
    registry.register_watched_instance(
        "managed",
        "instance-1",
        "/profiles/managed",
        false,
        &mut next_epoch,
    );
    assert!(registry.instance_ids.contains_key("managed"));
    assert!(
        registry.external_roots.is_empty(),
        "managed instances never register an external root"
    );
}

#[test]
fn direct_link_missing_root_keeps_bookkeeping_and_delivers_events_once_created() {
    assert_eq!(watch_route(RootProbe::Missing, false), WatchRoute::Pending);
    let mut next_epoch: u64 = 1;
    let mut registry = WatchRegistry::new();
    registry.register_watched_instance(
        "virtual-profile-path",
        "instance-1",
        "/temp/minecraft",
        true,
        &mut next_epoch,
    );
    assert!(registry.watch_pending_external_root("/temp/minecraft", "/temp"));

    assert_eq!(
        registry.instance_ids.get("virtual-profile-path").map(String::as_str),
        Some("instance-1")
    );
    assert!(registry.content_changes.contains_key("instance-1"));
    assert_eq!(
        sorted(registry.external_roots.get("/temp/minecraft")),
        Some(vec!["instance-1".to_string()])
    );
    assert_eq!(
        sorted(registry.pending_ancestors.get("/temp")),
        Some(vec!["/temp/minecraft".to_string()])
    );

    registry.process_events(
        &vec![
            "/temp/minecraft".to_string(),
            "/temp/minecraft/mods".to_string(),
            "/temp/minecraft/mods/new.jar".to_string(),
        ],
        "profiles",
        false,
    );
    let snapshot = content_watch_snapshot(&registry.content_changes, "instance-1").unwrap();
    assert!(snapshot.dirty_paths.contains("mods/new.jar"));

    registry.unwatch_instance_folder("virtual-profile-path", "/temp/minecraft", false);
    assert!(registry.pending_ancestors.is_empty());
    assert!(registry.external_roots.is_empty());
    assert!(registry.content_changes.is_empty());
    assert!(registry.instance_ids.is_empty());
}

#[test]
fn pending_direct_link_ancestor_watch_is_released_only_with_its_last_root() {
    let mut next_epoch: u64 = 1;
    let mut registry = WatchRegistry::new();
    registry.register_watched_instance(
        "virtual-a",
        "instance-1",
        "/temp/minecraft-a",
        true,
        &mut next_epoch,
    );
    assert!(registry.watch_pending_external_root("/temp/minecraft-a", "/temp"));
    registry.register_watched_instance(
        "virtual-b",
        "instance-2",
        "/temp/minecraft-b",
        true,
        &mut next_epoch,
    );
    assert!(!registry.watch_pending_external_root("/temp/minecraft-b", "/temp"));
    assert_eq!(
        sorted(registry.pending_ancestors.get("/temp")),
        Some(vec!["/temp/minecraft-a".to_string(), "/temp/minecraft-b".to_string()])
    );

    let released = registry.unwatch_instance_folder("virtual-a", "/temp/minecraft-a", false);
    assert!(!released.contains(&"/temp".to_string()));
    assert_eq!(
        sorted(registry.pending_ancestors.get("/temp")),
        Some(vec!["/temp/minecraft-b".to_string()])
    );
    assert!(registry.content_changes.contains_key("instance-2"));
    assert!(!registry.content_changes.contains_key("instance-1"));

    let released = registry.unwatch_instance_folder("virtual-b", "/temp/minecraft-b", false);
    assert!(released.contains(&"/temp".to_string()));
    assert!(registry.pending_ancestors.is_empty());
    assert!(registry.external_roots.is_empty());
    assert!(registry.instance_ids.is_empty());
}

#[test]
fn removing_one_of_two_instances_sharing_a_missing_root_keeps_the_ancestor_watch() {
    let mut next_epoch: u64 = 1;
    let mut registry = WatchRegistry::new();
    registry.register_watched_instance(
        "virtual-a",
        "instance-1",
        "/temp/minecraft",
        true,
        &mut next_epoch,
    );
    registry.watch_pending_external_root("/temp/minecraft", "/temp");
    registry.register_watched_instance(
        "virtual-b",
        "instance-2",
        "/temp/minecraft",
        true,
        &mut next_epoch,
    );
    registry.watch_pending_external_root("/temp/minecraft", "/temp");
    assert_eq!(
        sorted(registry.external_roots.get("/temp/minecraft")),
        Some(vec!["instance-1".to_string(), "instance-2".to_string()])
    );
    assert_eq!(
        sorted(registry.pending_ancestors.get("/temp")),
        Some(vec!["/temp/minecraft".to_string()])
    );

    registry.unwatch_instance_folder("virtual-a", "/temp/minecraft", false);
    assert_eq!(
        sorted(registry.external_roots.get("/temp/minecraft")),
        Some(vec!["instance-2".to_string()])
    );
    assert_eq!(
        sorted(registry.pending_ancestors.get("/temp")),
        Some(vec!["/temp/minecraft".to_string()]),
        "the stand-in must survive while another instance still backs the missing root"
    );

    registry.process_events(&vec!["/temp/minecraft/mods/new.jar".to_string()], "profiles", false);
    let snapshot = content_watch_snapshot(&registry.content_changes, "instance-2").unwrap();
    assert!(snapshot.dirty_paths.contains("mods/new.jar"));

    registry.unwatch_instance_folder("virtual-b", "/temp/minecraft", false);
    assert!(registry.pending_ancestors.is_empty());
    assert!(registry.external_roots.is_empty());
    assert!(registry.content_changes.is_empty());
    assert!(registry.instance_ids.is_empty());
}

#[test]
fn direct_link_root_watch_delivers_content_in_late_created_subfolders() {
    let mut next_epoch: u64 = 1;
    let mut registry = WatchRegistry::new();
    registry.register_watched_instance(
        "virtual-profile-path",
        "instance-1",
        "/minecraft",
        true,
        &mut next_epoch,
    );
    registry.process_events(
        &vec!["/minecraft/mods".to_string(), "/minecraft/mods/late.jar".to_string()],
        "profiles",
        false,
    );
    let snapshot = content_watch_snapshot(&registry.content_changes, "instance-1").unwrap();
    assert!(snapshot.dirty_paths.contains("mods/late.jar"));
}

#[test]
fn nearest_existing_ancestor_walks_up_to_the_closest_directory() {
    let deep = "/temp/a/b/minecraft";
    assert_eq!(
        nearest_existing_ancestor(deep, &set_of(&["/", "/temp"]), false).as_deref(),
        Some("/temp")
    );
    assert_eq!(
        nearest_existing_ancestor(deep, &set_of(&["/", "/temp", "/temp/a", "/temp/a/b"]), false),
        Some("/temp/a/b".to_string())
    );
    // The root of the file system is never watched.
    assert!(nearest_existing_ancestor("/", &set_of(&["/"]), false).is_none());
    assert!(nearest_existing_ancestor("/minecraft", &set_of(&["/"]), false).is_none());
}

#[test]
fn windows_drive_root_is_never_a_recursive_watch_ancestor() {
    let roots = set_of(&["C:\\", "C:", "C:/", "\\\\?\\C:\\", "\\\\server\\share\\"]);
    let missing = "C:\\axolotl-pending-root-test\\minecraft";
    assert!(
        nearest_existing_ancestor(missing, &roots, true).is_none(),
        "the Windows drive root C:\\ must never be chosen as a recursive watch ancestor"
    );

    // The drive root is not watchable even as the direct parent of the missing root.
    assert!(nearest_existing_ancestor("C:\\minecraft", &roots, true).is_none());
    assert!(nearest_existing_ancestor("C:/minecraft", &roots, true).is_none());
    assert!(nearest_existing_ancestor("C:minecraft", &roots, true).is_none());
    assert!(nearest_existing_ancestor("\\\\?\\C:\\minecraft", &roots, true).is_none());
    assert!(nearest_existing_ancestor("\\\\server\\share\\minecraft", &roots, true).is_none());

    let folders = set_of(&["C:\\games", "C:\\", "\\\\server\\share\\games"]);
    assert_eq!(
        nearest_existing_ancestor("C:\\games\\a\\minecraft", &folders, true).as_deref(),
        Some("C:\\games")
    );
    assert_eq!(
        nearest_existing_ancestor("\\\\server\\share\\games\\mc", &folders, true).as_deref(),
        Some("\\\\server\\share\\games")
    );
    // Elsewhere a drive is a name like any other.
    assert_eq!(
        nearest_existing_ancestor("C:/minecraft", &set_of(&["C:"]), false).as_deref(),
        Some("C:")
    );
}

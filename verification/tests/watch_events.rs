use theseus::install::model::InstanceInstallStage;
use theseus::names::{NameMap, NameSet};
use theseus::watcher::changes::{
    content_watch_snapshot, is_upgrade_content_change, new_instance_content_change_state,
    record_upgrade_content_change, track_upgrade_source,
};
use theseus::watcher::events::{instance_event, warns_of_crash, InstanceEvent};
use theseus::watcher::folders::{
    instance_watch_paths, makes_folder, managed_subfolders, path_parent, registers_despite,
    watch_route, watchable_ancestors, RootProbe, WatchFailure, WatchRoute,
};
use theseus::watcher::registry::WatchRegistry;

fn text(s: &str) -> String {
    s.to_string()
}

fn set_of(names: &[&str]) -> NameSet {
    let mut set = NameSet::new();
    for name in names {
        set.insert(name);
    }
    set
}

fn registry() -> WatchRegistry {
    let mut next_epoch: u64 = 1;
    let mut registry = WatchRegistry::new();
    registry.register_watched_instance(
        "profile",
        "managed",
        "/data/profiles/profile",
        false,
        &mut next_epoch,
    );
    registry.register_watched_instance("linked-a", "a", "/mc", true, &mut next_epoch);
    registry.register_watched_instance("linked-b", "b", "/mc", true, &mut next_epoch);
    registry
}

#[test]
fn events_follow_from_paths() {
    let world = |world: &str| Some(InstanceEvent::WorldUpdated { world: text(world) });
    for (path, visited, expected) in [
        ("axolotl_config.json", false, None),
        ("axolotl_config.json.tmp", false, None),
        ("crash-reports/crash.txt", false, Some(InstanceEvent::CrashReported)),
        ("crash-reports/crash.txt", true, Some(InstanceEvent::CrashReported)),
        ("crash-reports/crash.log", false, Some(InstanceEvent::Synced)),
        ("hs_err_pid12.log", true, Some(InstanceEvent::CrashReported)),
        ("hs_err_pid12.txt", true, None),
        ("servers.dat", false, Some(InstanceEvent::ServersUpdated)),
        ("servers.dat", true, None),
        ("saves/My World/level.dat", false, world("My World")),
        ("saves/level.dat", false, world("saves")),
        ("saves/My World/region/r.mca", false, None),
        ("saves", false, None),
        ("mods/a.jar", false, Some(InstanceEvent::Synced)),
        ("", false, Some(InstanceEvent::Synced)),
    ] {
        assert_eq!(instance_event(path, visited, false), expected, "{path}");
    }
    assert!(warns_of_crash(InstanceInstallStage::Installed));
    assert!(!warns_of_crash(InstanceInstallStage::PackInstalling));
}

#[test]
fn changes_of_content_are_recorded_with_forward_slashes() {
    let known = set_of(&["config/a.toml"]);
    assert!(is_upgrade_content_change("mods\\a.jar", &known));
    assert!(is_upgrade_content_change("config\\a.toml", &known));
    assert!(!is_upgrade_content_change("config/b.toml", &known));
    assert!(!is_upgrade_content_change("saves/world", &known));
    let mut next_epoch: u64 = 7;
    let mut changes = NameMap::new();
    changes.insert("id", new_instance_content_change_state(&mut next_epoch));
    assert_eq!(next_epoch, 8);
    record_upgrade_content_change(&mut changes, "id", "mods\\a.jar");
    record_upgrade_content_change(&mut changes, "other", "mods\\a.jar");
    let snapshot = content_watch_snapshot(&changes, "id").unwrap();
    assert_eq!(snapshot.epoch, 7);
    assert_eq!(snapshot.generation, 1);
    assert!(snapshot.directory_dirty);
    assert!(snapshot.dirty_paths.contains("mods/a.jar"));
    assert!(content_watch_snapshot(&changes, "other").is_none());
    assert!(track_upgrade_source(&mut changes, "other", &vec![]).is_none());
    let snapshot = track_upgrade_source(&mut changes, "id", &vec![text("x")]).unwrap();
    assert_eq!(snapshot.generation, 1);
}

#[test]
fn epochs_and_generations_wrap_around() {
    let mut next_epoch: u64 = u64::MAX;
    let mut state = new_instance_content_change_state(&mut next_epoch);
    assert_eq!(state.epoch, u64::MAX);
    assert_eq!(next_epoch, 0);
    state.generation = u64::MAX;
    let mut changes = NameMap::new();
    changes.insert("id", state);
    record_upgrade_content_change(&mut changes, "id", "mods/a.jar");
    assert_eq!(content_watch_snapshot(&changes, "id").unwrap().generation, 0);
}

#[test]
fn batches_concern_managed_and_linked_instances() {
    let mut registry = registry();
    let batch = registry.process_events(
        &vec![
            text("/data/profiles/profile/mods/a.jar"),
            text("/data/profiles/profile/servers.dat"),
            text("/data/profiles/profile/crash-reports/c.txt"),
            text("/mc/servers.dat"),
            text("/mc/hs_err_pid1.log"),
            text("/elsewhere/x"),
        ],
        "profiles",
        false,
    );
    let mut told: Vec<(String, InstanceEvent)> = batch
        .emissions
        .iter()
        .map(|emission| (emission.instance_id.clone(), emission.event.clone()))
        .collect();
    assert_eq!(told.remove(0), (text("managed"), InstanceEvent::Synced));
    assert_eq!(told.remove(0), (text("managed"), InstanceEvent::CrashReported));
    told.sort_by_key(|(id, event)| (id.clone(), format!("{event:?}")));
    assert_eq!(
        told,
        vec![
            (text("a"), InstanceEvent::CrashReported),
            (text("a"), InstanceEvent::ServersUpdated),
            (text("b"), InstanceEvent::CrashReported),
            (text("b"), InstanceEvent::ServersUpdated),
        ]
    );
    assert!(!batch.scan_manual_downloads);
    let snapshot = content_watch_snapshot(&registry.content_changes, "managed").unwrap();
    assert!(snapshot.dirty_paths.contains("mods/a.jar"));
    assert_eq!(batch.emissions[0].event_path, "/data/profiles/profile/mods/a.jar");
}

#[test]
fn manual_downloads_are_looked_for_where_no_instance_is_concerned() {
    let mut registry = registry();
    let directory = Some(text("/mc"));
    assert!(registry.changes_manual_import(&directory, false));
    let generation = registry.set_manual_import(directory.clone());
    assert_eq!(generation, 1);
    assert!(!registry.changes_manual_import(&directory, false));
    // The same folder, written otherwise, is no change.
    assert!(!registry.changes_manual_import(&Some(text("/mc//")), false));
    assert!(registry.changes_manual_import(&Some(text("/mc/sub")), false));
    assert!(registry.polls_generation(generation));
    assert!(!registry.process_events(&vec![text("/mc/file.zip")], "profiles", false).scan_manual_downloads);
    let second = registry.set_manual_import(Some(text("/downloads")));
    assert!(!registry.polls_generation(generation));
    assert!(registry.polls_generation(second));
    assert!(
        registry.process_events(&vec![text("/downloads/file.zip")], "profiles", false).scan_manual_downloads
    );
    assert!(
        !registry.process_events(&vec![text("/downloadsx/file.zip")], "profiles", false).scan_manual_downloads
    );
    registry.set_manual_import(None);
    assert!(
        !registry.process_events(&vec![text("/downloads/file.zip")], "profiles", false).scan_manual_downloads
    );
}

#[test]
fn unknown_folders_beside_the_instances_concern_linked_roots() {
    let mut next_epoch: u64 = 1;
    let mut registry = WatchRegistry::new();
    registry.register_watched_instance(
        "linked",
        "a",
        "/data/profiles/extra",
        true,
        &mut next_epoch,
    );
    assert_eq!(
        registry.event_targets("/data/profiles/extra/mods/a.jar", "profiles", false),
        vec![(text("a"), text("mods/a.jar"))]
    );
    assert!(registry.event_targets("/data/profiles", "profiles", false).is_empty());
}

#[test]
fn watched_folders_are_distinct() {
    let paths = instance_watch_paths("/p", false);
    assert_eq!(
        paths,
        vec![
            "/p/mods",
            "/p/datapacks",
            "/p/resourcepacks",
            "/p/shaderpacks",
            "/p/saves",
            "/p/crash-reports",
            "/p",
        ]
    );
    assert_eq!(managed_subfolders("/p", false).len(), 6);
    assert_eq!(watch_route(RootProbe::Missing, true), WatchRoute::Nothing);
    assert_eq!(watch_route(RootProbe::NotADirectory, false), WatchRoute::Nothing);
    assert!(!registers_despite(WatchFailure::FolderNotMade));
    assert!(!registers_despite(WatchFailure::FolderNotWatched));
    assert!(registers_despite(WatchFailure::RootNotWatched));
    assert!(registers_despite(WatchFailure::LinkedRootNotWatched));
    assert!(makes_folder("/p/mods", false, false, false));
    assert!(!makes_folder("/p/mods", true, false, false));
    assert!(!makes_folder("/p/mods", false, true, false));
    assert!(!makes_folder("/p/a.txt", false, false, false));
}

#[test]
fn folders_above_stop_at_the_root() {
    assert_eq!(path_parent("/a/b", false).as_deref(), Some("/a"));
    assert_eq!(path_parent("/a//b/", false).as_deref(), Some("/a"));
    assert_eq!(path_parent("/a", false).as_deref(), Some("/"));
    assert_eq!(path_parent("/", false), None);
    assert_eq!(path_parent("a", false).as_deref(), Some(""));
    assert_eq!(path_parent("", false), None);
    for path in ["", "/", "a", "/a/b", "a//b/", "./a", "a/./b", "../a", "a/..", ".", "//a/b/."] {
        assert_eq!(
            path_parent(path, false),
            std::path::Path::new(path).parent().map(|above| above.to_string_lossy().to_string()),
            "{path}"
        );
    }
    assert_eq!(watchable_ancestors("/a/b/c", false), vec!["/a/b", "/a"]);
    assert_eq!(watchable_ancestors("a/b", false), vec!["a"]);
    assert!(watchable_ancestors("/a", false).is_empty());
}

#[test]
fn covered_paths_stay_watched() {
    let mut next_epoch: u64 = 1;
    let mut registry = WatchRegistry::new();
    registry.register_watched_instance("a", "a", "/mc", true, &mut next_epoch);
    registry.register_watched_instance("b", "b", "/mc/versions/new", true, &mut next_epoch);
    assert!(registry.path_watch_covered("/mc"));
    assert!(!registry.watch_pending_external_root("/mc/versions/new", "/mc"));
    assert!(!registry.path_watch_covered("/other"));
    let released = registry.unwatch_instance_folder("a", "/mc", false);
    assert!(!released.contains(&text("/mc")));
    assert!(released.contains(&text("/mc/mods")));
    let released = registry.unwatch_instance_folder("b", "/mc/versions/new", false);
    assert!(released.contains(&text("/mc")));
    assert!(!registry.path_watch_covered("/mc"));
}

#[test]
fn managed_instances_are_always_released() {
    let mut registry = registry();
    let released = registry.unwatch_instance_folder("profile", "/data/profiles/profile", false);
    assert_eq!(released, instance_watch_paths("/data/profiles/profile", false));
    assert!(!registry.instance_ids.contains_key("profile"));
    assert!(!registry.content_changes.contains_key("managed"));
    assert!(registry.external_roots.contains_key("/mc"));
}

#[test]
fn batches_tell_each_instance_once_and_record_every_change() {
    let mut registry = registry();
    let mut events: Vec<String> = Vec::new();
    for n in 0..5 {
        events.push(format!("/mc/mods/{n}.jar"));
        events.push(format!("/mc/crash-reports/{n}.txt"));
    }
    let batch = registry.process_events(&events, "profiles", false);
    for id in ["a", "b"] {
        let told = |crash: bool| {
            batch
                .emissions
                .iter()
                .filter(|emission| {
                    emission.instance_id == id
                        && (emission.event == InstanceEvent::CrashReported) == crash
                })
                .count()
        };
        assert_eq!(told(false), 1);
        assert_eq!(told(true), 5);
        let before = content_watch_snapshot(&registry.content_changes, id).unwrap();
        assert_eq!(before.generation, 5);
        assert!(before.dirty_paths.contains("mods/4.jar"));
    }
    registry.process_events(&vec![text("/mc/mods/late.jar")], "profiles", false);
    let after = content_watch_snapshot(&registry.content_changes, "a").unwrap();
    assert!(after.dirty_paths.contains("mods/0.jar"));
    assert!(after.dirty_paths.contains("mods/late.jar"));
    assert_eq!(after.generation, 6);
}

#[test]
fn events_of_windows_find_their_instances() {
    let mut registry = WatchRegistry::new();
    let mut epoch: u64 = 1;
    let managed = "C:\\data\\profiles\\mine";
    registry.register_watched_instance("mine", "managed", managed, false, &mut epoch);
    registry.register_watched_instance("link", "linked", "D:\\games\\mc", true, &mut epoch);
    registry.set_manual_import(Some(text("C:\\Downloads")));
    assert_eq!(
        registry.event_targets("C:\\data\\profiles\\mine\\mods\\a.jar", "profiles", true),
        vec![(text("managed"), text("mods/a.jar"))]
    );
    assert_eq!(
        registry.event_targets("d:/games/mc/saves/w/level.dat", "profiles", true),
        vec![(text("linked"), text("saves/w/level.dat"))]
    );
    registry.register_watched_instance("long", "long", "\\\\?\\E:\\mc", true, &mut epoch);
    assert_eq!(
        registry.event_targets("\\\\?\\E:\\mc\\mods\\.\\a.jar", "profiles", true),
        vec![(text("long"), text("mods/a.jar"))]
    );
    // A share is no component of its own.
    assert!(registry
        .event_targets("\\\\nas\\profiles\\mine\\mods\\a.jar", "profiles", true)
        .is_empty());
    let batch = registry.process_events(
        &vec![text("D:\\games\\mc\\saves\\w\\level.dat"), text("C:\\Downloads\\x.zip")],
        "profiles",
        true,
    );
    assert!(batch.scan_manual_downloads);
    assert_eq!(batch.emissions.len(), 1);
    assert_eq!(batch.emissions[0].event, InstanceEvent::WorldUpdated { world: text("w") });
    assert_eq!(
        instance_watch_paths("C:\\mc", true).first().map(String::as_str),
        Some("C:\\mc\\mods")
    );
    assert_eq!(path_parent("C:\\a", true).as_deref(), Some("C:\\"));
    assert_eq!(path_parent("C:\\", true), None);
    assert_eq!(path_parent("\\\\server\\share\\a", true).as_deref(), Some("\\\\server\\share\\"));
    assert_eq!(watchable_ancestors("C:\\a\\b\\c", true), vec!["C:\\a\\b", "C:\\a"]);
}

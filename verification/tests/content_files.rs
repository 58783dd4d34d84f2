use theseus::content::file::{
    apply_extraction, cached_icon, extraction_for, icon_cache_name, icon_extension,
    physical_file_identity_changed, project_type_for_file, project_type_from_relative_path,
    Extraction, InstanceFile, ProjectType,
};
use theseus::content::ids::instance_file_id;
use theseus::content::provider::{
    installed_modrinth_version_id, modrinth_update_enabled, ContentProvider, ContentProviderRef,
};
use theseus::content::removal::{remove_instance, RemovalStep};
use theseus::content::roots::{
    content_game_dir, content_scan_cache_key_path, instance_content_root,
};
use theseus::content::sync::{
    after_move, bumps_revision, find_row, mergeable_tracked_file, needs_disk_hash, plan_sync,
    reclaimable_existing_file, records_to_invalidate, trim_disabled, writes_for, CachedFileHash,
    FileWrite, FoundFile, ScannedFile,
};
use theseus::content::updates::{after_lookup, update_behaviour, CacheBehaviour, UpdateLookup};
use theseus::error::{ErrorKind, Refusal};
use theseus::install::model::{Instance, InstanceInstallStage};
use theseus::names::NameSet;

fn modrinth_ref() -> ContentProviderRef {
    ContentProviderRef::Modrinth {
        project_id: "project".to_string(),
        version_id: Some("version".to_string()),
    }
}

fn curseforge_ref() -> ContentProviderRef {
    ContentProviderRef::CurseForge { project_id: 42, file_id: Some(7) }
}

#[test]
fn untracked_files_qualify_for_modrinth_updates() {
    assert!(modrinth_update_enabled(None, &vec![]));
    assert!(modrinth_update_enabled(None, &vec![modrinth_ref()]));
}

#[test]
fn curseforge_tracked_files_do_not_qualify_for_modrinth_updates() {
    assert!(!modrinth_update_enabled(
        Some(ContentProvider::CurseForge),
        &vec![curseforge_ref()],
    ));
    assert!(!modrinth_update_enabled(None, &vec![curseforge_ref()]));
}

#[test]
fn modrinth_origin_always_qualifies() {
    assert!(modrinth_update_enabled(
        Some(ContentProvider::Modrinth),
        &vec![curseforge_ref(), modrinth_ref()],
    ));
}

#[test]
fn external_hash_or_size_change_invalidates_physical_identity() {
    let now: i64 = 1_700_000_000_000;
    let file = InstanceFile {
        id: "file".to_string(),
        instance_id: "instance".to_string(),
        relative_path: "mods/lithium.jar".to_string(),
        file_name: "lithium.jar".to_string(),
        enabled: true,
        sha1: "official".to_string(),
        size: 10,
        missing: false,
        added_at: now,
        modified_at: now,
        local_mod_data: None,
        icon_path: None,
    };

    assert!(!physical_file_identity_changed(&file, "official", 10));
    assert!(physical_file_identity_changed(&file, "external", 10));
    assert!(physical_file_identity_changed(&file, "official", 11));
}

fn row(id: &str, path: &str, sha1: &str) -> InstanceFile {
    InstanceFile {
        id: id.to_string(),
        instance_id: "instance".to_string(),
        relative_path: path.to_string(),
        file_name: path.rsplit('/').next().unwrap().to_string(),
        enabled: true,
        sha1: sha1.to_string(),
        size: 10,
        missing: false,
        added_at: 5,
        modified_at: 6,
        local_mod_data: Some("{}".to_string()),
        icon_path: None,
    }
}

fn set_of(names: &[&str]) -> NameSet {
    let mut set = NameSet::new();
    for name in names {
        set.insert(name);
    }
    set
}

fn found(path: &str, disk_hash: Option<&str>, fresh_id: &str) -> FoundFile {
    FoundFile {
        file: ScannedFile {
            relative_path: path.to_string(),
            file_name: path.rsplit('/').next().unwrap().to_string(),
            enabled: !path.ends_with(".disabled"),
            size: 10,
            hash_cache_key: format!("10-instance/{path}"),
        },
        disk_hash: disk_hash.map(str::to_string),
        fresh_id: fresh_id.to_string(),
    }
}

fn hash(path: &str, sha1: &str) -> CachedFileHash {
    CachedFileHash { path: format!("instance/{path}"), size: 10, hash: sha1.to_string() }
}

#[test]
fn references_name_the_installed_version() {
    assert_eq!(installed_modrinth_version_id(&vec![]), None);
    let unversioned =
        ContentProviderRef::Modrinth { project_id: "project".to_string(), version_id: None };
    assert_eq!(
        installed_modrinth_version_id(&vec![curseforge_ref(), unversioned, modrinth_ref()]),
        Some("version".to_string())
    );
}

#[test]
fn archived_mods_without_an_origin_qualify_for_updates() {
    let archived = || ContentProviderRef::McArchive { project_id: "a".to_string() };
    assert!(modrinth_update_enabled(None, &vec![archived()]));
    assert!(!modrinth_update_enabled(None, &vec![archived(), curseforge_ref()]));
    assert!(!modrinth_update_enabled(Some(ContentProvider::McArchive), &vec![]));
    assert!(!modrinth_update_enabled(Some(ContentProvider::Local), &vec![]));
}

#[test]
fn content_kinds_follow_the_topmost_folder() {
    for (path, expected) in [
        ("mods/a.jar", Some(ProjectType::Mod)),
        ("datapacks/a.zip", Some(ProjectType::DataPack)),
        ("resourcepacks/a.zip", Some(ProjectType::ResourcePack)),
        ("shaderpacks/a.zip", Some(ProjectType::ShaderPack)),
        ("saves/world", Some(ProjectType::World)),
        ("config/mods/a.jar", None),
        ("", None),
    ] {
        assert_eq!(project_type_from_relative_path(path), expected);
        assert_eq!(project_type_for_file(&row("id", path, "h")), expected);
    }
    assert_eq!(ProjectType::World.get_folder(), "saves");
}

#[test]
fn icons_keep_their_ending_if_it_is_that_of_an_image() {
    assert_eq!(icon_extension("assets/icon.PNG", false), "PNG");
    assert_eq!(icon_extension("icon.jpeg", false), "jpeg");
    assert_eq!(icon_extension("icon.gif", false), "png");
    assert_eq!(icon_extension("icon", false), "png");
    assert_eq!(icon_extension(".png", false), "png");
    assert_eq!(icon_extension("icon.", false), "png");
    assert_eq!(icon_cache_name("abc", "logo.jpg", false), "abc.jpg");
    let path = || "cache/abc.png".to_string();
    assert_eq!(cached_icon(path(), Some(true), Some("/cache/abc.png".to_string())), "/cache/abc.png");
    assert_eq!(cached_icon(path(), Some(true), None), "cache/abc.png");
    assert_eq!(cached_icon(path(), Some(false), None), "");
    assert_eq!(cached_icon(path(), None, None), "");
}

#[test]
fn only_missing_details_are_read_from_files() {
    let mut file = row("id", "mods/a.jar", "h");
    assert_eq!(
        extraction_for(&file, false),
        Extraction::Mod { metadata: true, icon: true }
    );
    file.icon_path = Some(String::new());
    assert_eq!(extraction_for(&file, true), Extraction::Nothing);
    let pack = row("id", "resourcepacks/a.zip", "h");
    assert_eq!(extraction_for(&pack, false), Extraction::PackIcon);
    assert_eq!(extraction_for(&row("id", "saves/a", "h"), false), Extraction::Nothing);
    apply_extraction(&mut file, None, Some("icon".to_string()));
    assert_eq!(file.local_mod_data.as_deref(), Some("{}"));
    assert_eq!(file.icon_path.as_deref(), Some("icon"));
    apply_extraction(&mut file, Some("new".to_string()), None);
    assert_eq!(file.local_mod_data.as_deref(), Some("new"));
}

#[test]
fn renamed_files_inherit_the_only_record_that_fits() {
    let existing = vec![row("old", "mods/old.jar", "h")];
    let none = NameSet::new();
    let scanned = set_of(&["mods/new.jar"]);
    let take = |path: &str, existing: &Vec<InstanceFile>, scanned: &NameSet, claimed: &NameSet| {
        reclaimable_existing_file("h", path, existing, scanned, claimed).map(|row| row.id.clone())
    };
    assert_eq!(take("mods/new.jar", &existing, &scanned, &none), Some("old".to_string()));
    assert_eq!(take("saves/new", &existing, &scanned, &none), None);
    assert_eq!(take("config/new", &existing, &scanned, &none), None);
    assert_eq!(take("mods/new.jar", &existing, &scanned, &set_of(&["old"])), None);
    assert_eq!(
        take("mods/new.jar", &existing, &set_of(&["mods/new.jar", "mods/old.jar"]), &none),
        None
    );
    let twice = vec![row("old", "mods/old.jar", "h"), row("older", "mods/older.jar", "h")];
    assert_eq!(take("mods/new.jar", &twice, &scanned, &none), None);
    assert!(reclaimable_existing_file("x", "mods/new.jar", &existing, &scanned, &none).is_none());
}

#[test]
fn broken_renames_are_merged_with_the_record_that_entries_speak_of() {
    let existing = vec![row("old", "mods/old.jar", "h"), row("new", "mods/new.jar", "h")];
    let entries = set_of(&["old"]);
    let scanned = set_of(&["mods/new.jar"]);
    let none = NameSet::new();
    let merge = |entries: &NameSet, scanned: &NameSet, claimed: &NameSet| {
        mergeable_tracked_file("h", "mods/new.jar", "new", &existing, entries, scanned, claimed)
            .map(|row| row.id.clone())
    };
    assert_eq!(merge(&entries, &scanned, &none), Some("old".to_string()));
    assert_eq!(merge(&none, &scanned, &none), None);
    assert_eq!(merge(&entries, &set_of(&["mods/new.jar", "mods/old.jar"]), &none), None);
    assert_eq!(merge(&entries, &scanned, &set_of(&["old"])), None);
}

#[test]
fn disabled_endings_are_dropped_from_keys() {
    assert_eq!(trim_disabled("a.jar.disabled"), "a.jar");
    assert_eq!(trim_disabled("a.jar.disabled.disabled"), "a.jar");
    assert_eq!(trim_disabled("a.disabled.jar"), "a.disabled.jar");
    assert_eq!(trim_disabled(".disabled"), "");
}

#[test]
fn found_files_are_brought_together_with_the_recorded_ones() {
    let existing = vec![
        row("kept", "mods/kept.jar", "kept-hash"),
        row("gone", "mods/gone.jar", "moved-hash"),
    ];
    let files = vec![
        found("mods/kept.jar", Some("changed"), "f1"),
        found("mods/moved.jar.disabled", None, "f2"),
        found("mods/fresh.jar", None, "f3"),
        found("mods/unknown.jar", None, "f4"),
    ];
    let hashes = vec![hash("mods/moved.jar", "moved-hash"), hash("mods/fresh.jar", "fresh-hash")];
    let plan = plan_sync(
        &"instance".to_string(),
        &files,
        &hashes,
        &existing,
        &set_of(&["kept", "gone"]),
        100,
    );
    assert_eq!(
        plan.files
            .iter()
            .map(|file| (file.id.as_str(), file.sha1.as_str(), file.added_at, file.modified_at))
            .collect::<Vec<_>>(),
        vec![
            ("kept", "changed", 5, 100),
            ("gone", "moved-hash", 5, 100),
            ("f3", "fresh-hash", 100, 100),
        ]
    );
    assert!(!plan.files[1].enabled);
    assert_eq!(plan.files[1].local_mod_data.as_deref(), Some("{}"));
    assert_eq!(plan.files[2].local_mod_data, None);
    assert_eq!(plan.changed.names(), &vec!["kept".to_string()]);
    assert_eq!(
        writes_for(&plan, "mods/moved.jar.disabled"),
        vec![FileWrite::Move { old_relative_path: "mods/gone.jar".to_string() }]
    );
    assert_eq!(writes_for(&plan, "mods/kept.jar"), vec![FileWrite::Upsert]);
    assert_eq!(after_move(true), None);
    assert_eq!(after_move(false), Some(FileWrite::Upsert));
    assert_eq!(records_to_invalidate(&plan, true), Some(&vec!["kept".to_string()]));
    assert_eq!(records_to_invalidate(&plan, false), None);
    assert!(needs_disk_hash(&existing, "mods/kept.jar"));
    assert!(!needs_disk_hash(&existing, "mods/fresh.jar"));
    assert_eq!(find_row(&existing, "mods/gone.jar").map(|row| row.id.as_str()), Some("gone"));
    assert!(bumps_revision(true, true));
    assert!(!bumps_revision(false, true));
    assert!(!bumps_revision(true, false));
}

#[test]
fn records_are_handed_on_once() {
    let existing = vec![row("gone", "mods/gone.jar", "h")];
    let files = vec![found("mods/a.jar", None, "f1"), found("mods/b.jar", None, "f2")];
    let hashes = vec![hash("mods/a.jar", "h"), hash("mods/b.jar", "h")];
    let none = NameSet::new();
    let plan = plan_sync(&"instance".to_string(), &files, &hashes, &existing, &none, 100);
    assert_eq!(plan.files[0].id, "gone");
    assert_eq!(plan.files[1].id, "f2");

    let existing = vec![row("old", "mods/old.jar", "h"), row("new", "mods/new.jar", "h")];
    let files = vec![found("mods/new.jar", Some("h"), "f1")];
    let plan =
        plan_sync(&"instance".to_string(), &files, &vec![], &existing, &set_of(&["old"]), 100);
    assert_eq!(
        writes_for(&plan, "mods/new.jar"),
        vec![FileWrite::Adopt { tracked_file_id: "old".to_string() }, FileWrite::Upsert]
    );
}

#[test]
fn a_second_synchronization_changes_nothing() {
    let id = "instance".to_string();
    let existing = vec![row("gone", "mods/gone.jar", "moved")];
    let hashes = vec![hash("mods/moved.jar", "moved"), hash("mods/fresh.jar", "fresh")];
    let files =
        vec![found("mods/moved.jar", None, "f1"), found("mods/fresh.jar", None, "f2")];
    let entries = set_of(&["gone", "f2"]);
    let first = plan_sync(&id, &files, &hashes, &existing, &entries, 100);
    let files = vec![
        found("mods/moved.jar", Some("moved"), "f3"),
        found("mods/fresh.jar", Some("fresh"), "f4"),
    ];
    let second = plan_sync(&id, &files, &hashes, &first.files, &entries, 200);
    let kept = |file: &InstanceFile| (file.id.clone(), file.added_at, file.sha1.clone());
    assert_eq!(
        second.files.iter().map(kept).collect::<Vec<_>>(),
        first.files.iter().map(kept).collect::<Vec<_>>()
    );
    assert_eq!(second.files[0].id, "gone");
    assert!(second.changed.is_empty());
    assert!(second.reclaims.is_empty());
    assert!(second.merges.is_empty());
}

#[test]
fn ambiguous_files_are_new() {
    let existing = vec![row("one", "mods/one.jar", "h"), row("two", "mods/two.jar", "h")];
    let files = vec![found("mods/new.jar", None, "f1")];
    let hashes = vec![hash("mods/new.jar", "h")];
    let none = NameSet::new();
    let plan = plan_sync(&"instance".to_string(), &files, &hashes, &existing, &none, 100);
    assert_eq!(plan.files[0].id, "f1");
    assert_eq!(plan.files[0].added_at, 100);
    assert_eq!(plan.files[0].local_mod_data, None);
}

#[test]
fn new_file_names_are_random_uuids() {
    let first = instance_file_id();
    let second = instance_file_id();
    assert_ne!(first, second);
    let uuid = uuid::Uuid::parse_str(first.strip_prefix("instance-file:").unwrap()).unwrap();
    assert_eq!(uuid.get_version_num(), 4);
    assert_eq!(first, format!("instance-file:{uuid}"));
}

fn instance(linked: Option<&str>, direct_linked: bool) -> Instance {
    Instance {
        id: "id".to_string(),
        path: "profile".to_string(),
        name: "name".to_string(),
        icon_path: None,
        install_stage: InstanceInstallStage::Installed,
        linked_dot_minecraft: linked.map(str::to_string),
        direct_linked,
    }
}

#[test]
fn content_lies_where_the_linked_launcher_has_it() {
    let managed = || "/profiles/profile".to_string();
    let dialect = || Some("/mc/versions/1".to_string());
    assert_eq!(content_game_dir(dialect(), &instance(Some("/mc"), true), managed()), "/mc/versions/1");
    assert_eq!(content_game_dir(None, &instance(Some(" /mc\t"), true), managed()), "/mc");
    assert_eq!(content_game_dir(None, &instance(Some(" \n"), true), managed()), managed());
    assert_eq!(content_game_dir(None, &instance(None, false), managed()), managed());
    assert_eq!(
        content_scan_cache_key_path(&instance(None, false), Err("gone".to_string())),
        Ok("profile".to_string())
    );
    assert_eq!(
        content_scan_cache_key_path(&instance(None, true), Ok("/mc".to_string())),
        Ok("/mc".to_string())
    );
    let refusal = content_scan_cache_key_path(&instance(None, true), Err("gone".to_string()))
        .unwrap_err();
    assert_eq!(refusal, Refusal::ContentRootUnavailable("gone".to_string()));
    assert_eq!(refusal.to_kind(), ErrorKind::IOError("gone".to_string()));
    assert_eq!(instance_content_root(Ok("/a".to_string())), Ok("/a".to_string()));
}

#[test]
fn removal_deletes_only_the_launchers_own_folder() {
    let linked = instance(Some("/mc"), true);
    let steps = remove_instance(Some(&linked), "/mc".to_string(), "/profiles", false).unwrap();
    assert_eq!(
        steps,
        vec![
            RemovalStep::Unwatch {
                instance_path: "profile".to_string(),
                content_root: "/mc".to_string(),
            },
            RemovalStep::DeleteFolder { path: "/profiles/profile".to_string() },
            RemovalStep::MarkJobs { instance_id: "id".to_string() },
            RemovalStep::DeleteRecord { instance_id: "id".to_string() },
            RemovalStep::DeleteConfig { instance_path: "profile".to_string() },
            RemovalStep::AnnounceJobs,
        ]
    );
    assert_eq!(
        remove_instance(None, "/mc".to_string(), "/profiles", false),
        Err(Refusal::UnknownInstance)
    );
}

#[test]
fn failed_refreshes_fall_back_to_the_cache() {
    assert_eq!(
        update_behaviour(Some(CacheBehaviour::MustRevalidate), true),
        Some(CacheBehaviour::Bypass)
    );
    assert_eq!(
        update_behaviour(Some(CacheBehaviour::MustRevalidate), false),
        Some(CacheBehaviour::MustRevalidate)
    );
    assert_eq!(update_behaviour(None, false), None);
    assert!(matches!(
        after_lookup::<u8, u8>(Err(1), true),
        UpdateLookup::Fallback(CacheBehaviour::CacheOnly)
    ));
    assert!(matches!(after_lookup::<u8, u8>(Err(1), false), UpdateLookup::Done(Err(1))));
    assert!(matches!(after_lookup::<u8, u8>(Ok(2), true), UpdateLookup::Done(Ok(2))));
}

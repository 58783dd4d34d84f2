use theseus::content::provider::ContentProviderRef;
use theseus::error::{ErrorKind, Refusal};
use theseus::install::curseforge::{
    curseforge_manual_download_pause, curseforge_project, curseforge_world_was_imported_manually,
    installed_dependencies, world_manual_download,
};
use theseus::install::loader_kind::{LoaderComponentKind, LoaderComponentRole, ModLoader};
use theseus::install::loaders::{
    adjunct_install, check_adjunct_pairings, check_optifabric_file, liteloader_version_id,
    needs_lookup, needs_optifabric, optifabric_file_id, optifabric_install_request,
    optifabric_installed, resolve_optifabric_version, resolve_required_adjuncts,
    set_component_version, set_installed_versions, validate_loader_components, AdjunctInstall,
    OPTIFABRIC_CURSEFORGE_PROJECT_ID,
};
use theseus::install::local_pack::PackOutcome;
use theseus::install::model::{
    AppliedContentSet, ContentOwnershipKind, CreatePackLocation, CurseForgeFailedDownload,
    CurseForgeFile, CurseForgeInstallRequest, CurseForgeInstallResult, CurseForgeInstalledFile,
    CurseForgeManualDownload, CurseForgeModpackInstallResult, CurseForgeWorldInstallRequest,
    InstallCleanup, InstallContinuationState, InstallJavaStep, InstallJobEventKind,
    InstallJobState, InstallPauseReason, InstallPhaseDetails, InstallPhaseId,
    InstallPostInstallEdit, InstallProgress, InstallRequest, Instance, InstanceInstallStage,
    InstanceLink, InstanceMetadata, LoaderComponent, ManualDownloadOperationKind,
};
use theseus::install::pack::{
    disabled_project_ids, effective_edit, existing_pack, files_to_disable, local_pack_route,
    modpack_details, pack_context, ExistingPack, LocalPackRoute, ProjectFile,
};
use theseus::install::prepare::{
    after_adjuncts, after_target, check_content_target, duplicate_of, finish_prepared,
    modpack_instance, new_components, prepare_existing_rollback, prepare_initial_instance,
    ModpackTarget, NewInstance, PackPreview, PrepareStep,
};
use theseus::install::request::{
    after_content_plan, after_context, after_curseforge_content, after_modpack, after_pack,
    after_removal, after_update, after_world, run_facts, run_request, ContextRest, CreateRest,
    PackRest, RequestAction, RequestEnd, RunFacts,
};
use theseus::install::requests::{
    create_instance, create_instance_with_adjuncts, create_modpack_instance, download_java,
    duplicate_instance, import_instance, import_instance_with_path, import_instance_with_plan,
    install_content, install_curseforge_content, install_curseforge_world,
    install_existing_instance, install_pack_to_existing_instance,
    update_managed_curseforge_modpack,
};
use theseus::names::NameSet;

fn text(s: &str) -> String {
    s.to_string()
}

fn adjunct(kind: LoaderComponentKind, version: Option<&str>) -> LoaderComponent {
    LoaderComponent {
        instance_id: text("before"),
        kind,
        version: version.map(str::to_string),
        role: LoaderComponentRole::Primary,
        provider_metadata: None,
    }
}

fn file(id: u32, versions: &[&str]) -> CurseForgeFile {
    CurseForgeFile {
        id,
        mod_id: OPTIFABRIC_CURSEFORGE_PROJECT_ID,
        is_available: true,
        game_versions: versions.iter().map(|version| version.to_string()).collect(),
    }
}

fn manual(file_name: &str, website_url: Option<&str>) -> CurseForgeManualDownload {
    CurseForgeManualDownload {
        project_id: 12,
        file_id: 34,
        file_name: text(file_name),
        ownership_kind: ContentOwnershipKind::UserAdded,
        operation_kind: ManualDownloadOperationKind::ContentInstall,
        website_url: website_url.map(str::to_string),
        project_type: text("world"),
        project_slug: text("island"),
        target_folder: text("saves"),
        hashes: vec![],
        file_length: 1,
        file_fingerprint: 2,
    }
}

fn content(downloads: Vec<CurseForgeManualDownload>, failed: usize) -> CurseForgeInstallResult {
    CurseForgeInstallResult {
        installed: vec![],
        manual_downloads: downloads,
        failed_downloads: (0..failed)
            .map(|_| CurseForgeFailedDownload { project_id: 1, file_id: 2, reason: text("gone") })
            .collect(),
    }
}

fn instance(name: &str) -> Instance {
    Instance {
        id: text("id"),
        path: text("path"),
        name: text(name),
        icon_path: Some(text("icon")),
        install_stage: InstanceInstallStage::Installed,
        linked_dot_minecraft: None,
        direct_linked: false,
    }
}

fn metadata(name: &str) -> InstanceMetadata {
    InstanceMetadata {
        instance: instance(name),
        link: InstanceLink::Unmanaged,
        applied_content_set: AppliedContentSet {
            id: text("set"),
            game_version: text("1.20.1"),
            loader: ModLoader::Fabric,
            loader_version: Some(text("0.15")),
        },
        loader_components: vec![LoaderComponent::new_primary("id", ModLoader::Fabric, None)],
    }
}

fn creation(link: InstanceLink, adjuncts: Vec<LoaderComponent>) -> InstallRequest {
    create_instance_with_adjuncts(
        text("name"),
        text("1.20.1"),
        ModLoader::Fabric,
        Some(text("0.15")),
        adjuncts,
        None,
        link,
    )
}

fn facts(instance_id: Option<&str>) -> RunFacts {
    RunFacts {
        instance_id: instance_id.map(str::to_string),
        continuation: None,
        world_imported: false,
    }
}

fn moved(phase: InstallPhaseId) -> RequestAction {
    RequestAction::UpdateProgress { phase, details: InstallPhaseDetails::Empty }
}

#[test]
fn requests_hold_what_was_asked_for() {
    assert_eq!(
        create_instance(
            text("n"),
            text("1.20.1"),
            ModLoader::Forge,
            None,
            None,
            InstanceLink::Unmanaged
        ),
        InstallRequest::CreateInstance {
            name: text("n"),
            game_version: text("1.20.1"),
            loader: ModLoader::Forge,
            loader_version: None,
            adjuncts: vec![],
            icon_path: None,
            link: InstanceLink::Unmanaged,
        }
    );
    assert_eq!(
        import_instance(text("t"), text("b"), text("f"), true),
        import_instance_with_plan(text("t"), text("b"), text("f"), None, true, None, None, None)
    );
    assert!(matches!(
        import_instance_with_path(text("t"), text("b"), text("f"), Some(text("p")), false),
        InstallRequest::ImportInstance { instance_path: Some(path), symlink: false, .. }
            if path == "p"
    ));
    assert_eq!(
        duplicate_instance(text("id"), Some(&instance("a"))),
        Ok(InstallRequest::DuplicateInstance { source_instance_id: text("id") })
    );
    assert!(duplicate_instance(text("id"), None).is_ok());
    assert!(matches!(
        install_existing_instance(text("id"), true),
        InstallRequest::InstallExistingInstance { force: true, .. }
    ));
    assert!(matches!(
        download_java(text("zulu"), 17),
        InstallRequest::DownloadJava { version: 17, .. }
    ));
    assert!(matches!(
        update_managed_curseforge_modpack(text("id"), 9),
        InstallRequest::UpdateManagedCurseForgeModpack { file_id: 9, .. }
    ));
    let location = CreatePackLocation::FromFile { path: text("p") };
    assert!(matches!(
        create_modpack_instance(location.clone(), None),
        InstallRequest::CreateModpackInstance { .. }
    ));
    assert!(matches!(
        install_pack_to_existing_instance(text("id"), location, None),
        InstallRequest::InstallPackToExistingInstance { .. }
    ));
}

#[test]
fn loader_selections_name_each_refusal() {
    let select = |primary: ModLoader, kinds: &[LoaderComponentKind]| {
        let mut components = vec![LoaderComponent::new_primary("", primary, None)];
        for kind in kinds {
            let mut component = adjunct(*kind, None);
            component.role = LoaderComponentRole::Adjunct;
            components.push(component);
        }
        validate_loader_components(&components)
    };
    assert_eq!(validate_loader_components(&vec![]), Err(Refusal::NoPrimaryLoader));
    let refusal =
        select(ModLoader::Quilt, &[LoaderComponentKind::OptiFine]).unwrap_err();
    assert_eq!(refusal, Refusal::OptiFineUnsupported(LoaderComponentKind::Quilt));
    assert_eq!(refusal.message(), "OptiFine is not supported with quilt");
    assert_eq!(
        select(ModLoader::Fabric, &[LoaderComponentKind::OptiFabric]),
        Err(Refusal::OptiFabricWithoutOptiFine)
    );
    assert_eq!(
        select(
            ModLoader::Forge,
            &[LoaderComponentKind::OptiFine, LoaderComponentKind::OptiFabric]
        ),
        Err(Refusal::OptiFabricUnsupported(LoaderComponentKind::Forge))
    );
    assert_eq!(
        select(ModLoader::Fabric, &[LoaderComponentKind::LiteLoader]),
        Err(Refusal::LiteLoaderUnsupported(LoaderComponentKind::Fabric))
    );
    assert_eq!(
        select(ModLoader::Forge, &[LoaderComponentKind::Fabric]),
        Err(Refusal::AdjunctNotAllowed)
    );
    assert_eq!(select(ModLoader::Cleanroom, &[]), Ok(()));
}

#[test]
fn pairings_for_new_instances_are_narrower() {
    let optifine = vec![adjunct(LoaderComponentKind::OptiFine, None)];
    assert_eq!(
        check_adjunct_pairings(&optifine, ModLoader::Vanilla),
        Err(Refusal::OptiFineUnsupported(LoaderComponentKind::Vanilla))
    );
    assert_eq!(check_adjunct_pairings(&optifine, ModLoader::LegacyFabric), Ok(()));
    let lite = vec![adjunct(LoaderComponentKind::LiteLoader, None)];
    assert_eq!(
        check_adjunct_pairings(&lite, ModLoader::Vanilla),
        Err(Refusal::LiteLoaderUnsupported(LoaderComponentKind::Vanilla))
    );
    assert_eq!(check_adjunct_pairings(&lite, ModLoader::Forge), Ok(()));
    assert!(needs_lookup(LoaderComponentKind::OptiFine));
    assert!(needs_lookup(LoaderComponentKind::LiteLoader));
    assert!(!needs_lookup(LoaderComponentKind::OptiFabric));
    assert!(needs_optifabric(&optifine, ModLoader::Fabric));
    assert!(!needs_optifabric(&optifine, ModLoader::Forge));
    assert!(!needs_optifabric(&lite, ModLoader::Fabric));
}

#[test]
fn optifabric_is_added_where_optifine_needs_it() {
    let asked = vec![adjunct(LoaderComponentKind::OptiFine, Some("old"))];
    let versions = vec![Some(text("HD_U"))];
    let files = vec![file(7, &["1.19.2"]), file(8, &["1.20.1"])];
    let resolved = resolve_required_adjuncts(
        &text("1.20.1"),
        ModLoader::Fabric,
        &asked,
        &versions,
        &files,
    )
    .unwrap();
    assert_eq!(resolved.len(), 2);
    assert_eq!(resolved[0].version.as_deref(), Some("HD_U"));
    assert_eq!(resolved[0].role, LoaderComponentRole::Adjunct);
    assert_eq!(resolved[0].instance_id, "");
    assert_eq!(resolved[1].kind, LoaderComponentKind::OptiFabric);
    assert_eq!(resolved[1].version.as_deref(), Some("8"));
    assert_eq!(
        resolved[1].provider_metadata.as_deref(),
        Some(r#"{"projectId":322385,"provider":"curseforge"}"#)
    );
    let refused = |files: &Vec<CurseForgeFile>, versions: &Vec<Option<String>>| {
        resolve_required_adjuncts(&text("1.20.1"), ModLoader::Fabric, &asked, versions, files)
            .unwrap_err()
    };
    assert_eq!(refused(&vec![], &versions), Refusal::NoOptiFabricVersion(text("1.20.1")));
    assert_eq!(refused(&files, &vec![None]), Refusal::NoOptiFineVersion(text("1.20.1")));
    let lite = vec![adjunct(LoaderComponentKind::LiteLoader, None)];
    assert_eq!(
        resolve_required_adjuncts(&text("1.12"), ModLoader::Forge, &lite, &vec![], &vec![]),
        Err(Refusal::NoLiteLoaderVersion(text("1.12")))
    );
    assert_eq!(
        resolve_optifabric_version(&files, &text("1.20.1")),
        Ok(text("8"))
    );
    assert!(resolve_optifabric_version(&files, &text("1.21")).is_err());
}

#[test]
fn optifabric_is_installed_as_the_file_that_was_asked_for() {
    assert_eq!(optifabric_file_id("42"), Ok(42));
    assert_eq!(optifabric_file_id("+42"), Ok(42));
    assert_eq!(optifabric_file_id("4294967296"), Err(Refusal::InvalidOptiFabricFile));
    assert_eq!(optifabric_file_id(""), Err(Refusal::InvalidOptiFabricFile));
    assert_eq!(optifabric_file_id("-1"), Err(Refusal::InvalidOptiFabricFile));
    assert_eq!(check_optifabric_file(&file(8, &["1.20.1"]), 8, &text("1.20.1")), Ok(()));
    let refusal = check_optifabric_file(&file(8, &["1.20"]), 8, &text("1.20.1")).unwrap_err();
    assert_eq!(refusal.message(), "OptiFabric file 8 does not support Minecraft 1.20.1");
    let mut other = file(8, &["1.20.1"]);
    other.mod_id = 1;
    assert!(check_optifabric_file(&other, 8, &text("1.20.1")).is_err());

    let request = optifabric_install_request(&text("id"), &text("1.20.1"), 8);
    assert_eq!(request.project_id, 322_385);
    assert_eq!(request.file_id, 8);
    assert_eq!(request.project_type, "mod");
    assert_eq!(request.mod_loader_type, Some(4));
    assert_eq!(request.game_version.as_deref(), Some("1.20.1"));
    assert!(!request.install_dependencies);

    let mut result = content(vec![], 0);
    assert_eq!(optifabric_installed(&result, 8), Err(Refusal::OptiFabricNotInstalled));
    result.installed = vec![CurseForgeInstalledFile {
        project_id: 322_385,
        file_id: 8,
        dependency: false,
    }];
    assert_eq!(optifabric_installed(&result, 8), Ok(text("8")));
    result.installed[0].dependency = true;
    assert_eq!(optifabric_installed(&result, 8), Err(Refusal::OptiFabricNotInstalled));
    let refusal = optifabric_installed(&content(vec![], 1), 8).unwrap_err();
    assert_eq!(refusal.message(), "Failed to install OptiFabric: gone");
    assert_eq!(
        optifabric_installed(&content(vec![manual("a", None)], 1), 8),
        Err(Refusal::OptiFabricManualDownload)
    );
}

#[test]
fn installed_versions_touch_one_component_each() {
    let version = |component: &LoaderComponent| component.version.clone();
    let mut components = vec![
        adjunct(LoaderComponentKind::OptiFine, None),
        adjunct(LoaderComponentKind::OptiFine, Some("b")),
        adjunct(LoaderComponentKind::OptiFabric, None),
    ];
    set_component_version(&mut components, LoaderComponentKind::OptiFine, text("a"));
    assert_eq!(
        components.iter().map(version).collect::<Vec<_>>(),
        vec![Some(text("a")), Some(text("b")), None]
    );
    set_component_version(&mut components, LoaderComponentKind::LiteLoader, text("x"));
    set_installed_versions(
        &mut components,
        &vec![
            (LoaderComponentKind::OptiFabric, text("c")),
            (LoaderComponentKind::OptiFine, text("d")),
        ],
    );
    assert_eq!(
        components.iter().map(version).collect::<Vec<_>>(),
        vec![Some(text("d")), Some(text("b")), Some(text("c"))]
    );
    assert_eq!(
        adjunct_install(&adjunct(LoaderComponentKind::LiteLoader, Some("1"))),
        AdjunctInstall::LiteLoader { version: Some(text("1")) }
    );
    assert_eq!(
        adjunct_install(&adjunct(LoaderComponentKind::Forge, Some("1"))),
        AdjunctInstall::Skip
    );
    assert_eq!(
        liteloader_version_id(&text("1.12.2"), ModLoader::Forge, &Some(text("14.23"))),
        Ok(text("1.12.2-14.23"))
    );
    let refusal = liteloader_version_id(&text("1.12.2"), ModLoader::Forge, &None).unwrap_err();
    assert_eq!(
        refusal.message(),
        "forge adjunct installation requires a pinned primary version"
    );
}

#[test]
fn new_instances_are_prepared_step_by_step() {
    let link = InstanceLink::CurseForgeModpack { project_id: text("12"), version_id: text("34") };
    let mut state =
        InstallJobState::new(creation(link, vec![adjunct(LoaderComponentKind::OptiFine, None)]));
    assert_eq!(
        prepare_initial_instance(&mut state),
        Ok(PrepareStep::FindTarget { project_id: 12, file_id: 34 })
    );
    after_target(
        &mut state,
        ModpackTarget {
            game_version: text("1.16.5"),
            loader: ModLoader::Forge,
            loader_version: Some(text("36")),
        },
    );
    let resolved = vec![adjunct(LoaderComponentKind::LiteLoader, Some("1"))];
    match &state.request {
        InstallRequest::CreateInstance { game_version, loader, adjuncts, .. } => {
            assert_eq!(game_version, "1.16.5");
            assert_eq!(*loader, ModLoader::Forge);
            assert!(adjuncts.is_empty());
        }
        request => panic!("unexpected request {request:?}"),
    }
    match after_adjuncts(&mut state, resolved.clone()) {
        PrepareStep::Create { instance } => {
            assert_eq!(instance.game_version, "1.16.5");
            assert_eq!(instance.loader_version.as_deref(), Some("36"));
        }
        step => panic!("unexpected step {step:?}"),
    }
    let mut created = metadata("Made");
    created.loader_components = vec![LoaderComponent::new_primary("id", ModLoader::Forge, None)];
    let components = new_components(&state, &created).unwrap().unwrap();
    assert_eq!(components.len(), 2);
    assert_eq!(components[1].instance_id, "id");
    assert_eq!(components[1].role, LoaderComponentRole::Adjunct);
    created.loader_components = vec![LoaderComponent::new_primary("id", ModLoader::Quilt, None)];
    assert_eq!(
        new_components(&state, &created),
        Err(Refusal::LiteLoaderUnsupported(LoaderComponentKind::Quilt))
    );
    finish_prepared(&mut state, &created);
    assert_eq!(state.display.clone().unwrap().title, "Made");
    assert_eq!(
        state.cleanup,
        InstallCleanup::DeleteNewInstance { instance_id: Some(text("id")) }
    );
}

#[test]
fn invalid_numbers_of_curseforge_are_refused() {
    for (project, version, refusal) in [
        ("x", "34", Refusal::InvalidCurseForgeProject),
        ("12", "", Refusal::InvalidCurseForgeFile),
    ] {
        let link = || InstanceLink::CurseForgeModpack {
            project_id: text(project),
            version_id: text(version),
        };
        let mut state = InstallJobState::new(creation(link(), vec![]));
        assert_eq!(prepare_initial_instance(&mut state).unwrap_err(), refusal);
        let plan = run_request(creation(link(), vec![]), facts(Some("id")));
        assert_eq!(plan.actions.len(), 1);
        assert_eq!(plan.end, RequestEnd::Refused { refusal });
    }
}

#[test]
fn other_jobs_are_prepared_by_their_request() {
    let mut state = InstallJobState::new(download_java(text("zulu"), 17));
    assert_eq!(prepare_initial_instance(&mut state), Ok(PrepareStep::Done));
    assert_eq!(state.display.clone().unwrap().title, "Java 17 (zulu)");

    let mut state =
        InstallJobState::new(import_instance(text("t"), text("b"), text("folder"), false));
    assert_eq!(
        prepare_initial_instance(&mut state),
        Ok(PrepareStep::Create {
            instance: NewInstance {
                name: text("folder"),
                game_version: text("unknown"),
                loader: ModLoader::Vanilla,
                loader_version: None,
                icon_path: None,
                link: InstanceLink::Unmanaged,
            }
        })
    );
    let mut state = InstallJobState::new(duplicate_instance(text("src"), None).unwrap());
    assert_eq!(
        prepare_initial_instance(&mut state),
        Ok(PrepareStep::LoadSource { instance_id: text("src") })
    );
    let mut state = InstallJobState::new(install_content(
        text("id"),
        text("p"),
        None,
        text("mod"),
        text("{}"),
        vec![],
        text("Shown"),
        None,
    ));
    assert_eq!(
        prepare_initial_instance(&mut state),
        Ok(PrepareStep::FindInstance { instance_id: text("id") })
    );
    let refusal = check_content_target(&mut state, &text("id"), false).unwrap_err();
    assert_eq!(refusal.message(), "Unknown instance id");
    assert_eq!(check_content_target(&mut state, &text("id"), true), Ok(()));
    assert_eq!(state.display.unwrap().title, "Shown");
    assert_eq!(duplicate_of(None), Err(Refusal::UnknownInstance));
    assert_eq!(duplicate_of(Some(metadata("Src"))).unwrap().name, "Src");
}

#[test]
fn choices_of_the_user_go_before_those_of_the_pack() {
    let preview = || PackPreview {
        name: text("Pack"),
        game_version: text("1.20.1"),
        modloader: ModLoader::Fabric,
        loader_version: None,
        icon: None,
        icon_url: Some(text("https://icon")),
        link: None,
    };
    let plain = modpack_instance(preview(), &None);
    assert_eq!(plain.name, "Pack");
    assert_eq!(plain.icon_path.as_deref(), Some("https://icon"));
    assert_eq!(plain.link, InstanceLink::Unmanaged);
    let edit = InstallPostInstallEdit {
        name: Some(text("Mine")),
        icon_path: Some(None),
        link: Some(InstanceLink::ImportedModpack { name: None }),
    };
    let chosen = modpack_instance(preview(), &Some(edit));
    assert_eq!(chosen.name, "Mine");
    assert_eq!(chosen.icon_path, None);
    assert_eq!(chosen.link, InstanceLink::ImportedModpack { name: None });
}

#[test]
fn existing_instances_are_kept_once() {
    let mut state = InstallJobState::new(install_existing_instance(text("id"), false));
    assert_eq!(
        prepare_existing_rollback(&mut state, &text("id"), None),
        Err(Refusal::UnknownInstanceId(text("id")))
    );
    assert_eq!(
        prepare_existing_rollback(&mut state, &text("id"), Some(metadata("First"))),
        Ok(true)
    );
    let kept = state.rollback.clone().unwrap();
    assert_eq!(kept.install_stage, InstanceInstallStage::Installed);
    assert_eq!(
        prepare_existing_rollback(&mut state, &text("id"), Some(metadata("Second"))),
        Ok(false)
    );
    assert_eq!(state.rollback.unwrap().instance.instance.name, "First");
}

#[test]
fn jobs_without_their_instance_are_refused() {
    for request in [
        creation(InstanceLink::Unmanaged, vec![]),
        create_modpack_instance(CreatePackLocation::FromFile { path: text("p") }, None),
        import_instance(text("t"), text("b"), text("f"), false),
        InstallRequest::DuplicateInstance { source_instance_id: text("src") },
    ] {
        let plan = run_request(request, facts(None));
        assert!(plan.actions.is_empty());
        assert_eq!(plan.end, RequestEnd::Refused { refusal: Refusal::MissingInstanceId });
    }
    assert_eq!(
        Refusal::MissingInstanceId.message(),
        "Install job is missing its instance id"
    );
}

#[test]
fn new_instances_get_their_game_and_components() {
    let adjuncts = vec![adjunct(LoaderComponentKind::OptiFine, Some("1"))];
    let plan = run_request(creation(InstanceLink::Unmanaged, adjuncts.clone()), facts(Some("id")));
    assert_eq!(
        plan.actions,
        vec![
            RequestAction::UpdateProgress {
                phase: InstallPhaseId::PreparingInstance,
                details: InstallPhaseDetails::Instance { name: text("name") },
            },
            RequestAction::Report {
                phase: InstallPhaseId::DownloadingMinecraft,
                progress: None,
                details: InstallPhaseDetails::Minecraft {
                    game_version: text("1.20.1"),
                    loader: ModLoader::Fabric,
                },
            },
        ]
    );
    let RequestEnd::LoadContext { rest, .. } = plan.end else { panic!("no context") };
    let plan = after_context(rest, true);
    assert_eq!(plan.actions.len(), 2);
    assert_eq!(
        plan.actions[0],
        RequestAction::InstallMinecraft { instance_id: text("id"), force: false }
    );
    assert!(matches!(&plan.actions[1], RequestAction::InstallAdjuncts { adjuncts: a, .. }
        if a == &adjuncts));
    assert_eq!(plan.end, RequestEnd::Completed { instance_id: Some(text("id")) });
    let rest = ContextRest::Install { instance_id: text("id"), force: true };
    assert_eq!(
        after_context(rest, false).end,
        RequestEnd::Refused { refusal: Refusal::UnknownInstance }
    );
}

#[test]
fn modpacks_of_new_instances_can_pause() {
    let link = InstanceLink::CurseForgeModpack { project_id: text("12"), version_id: text("34") };
    let plan = run_request(creation(link, vec![]), facts(Some("id")));
    assert_eq!(plan.actions.len(), 3);
    assert_eq!(
        plan.actions[1],
        RequestAction::SetInstallStage {
            instance_id: text("id"),
            stage: InstanceInstallStage::PackInstalling,
        }
    );
    let RequestEnd::InstallModpack { project_id: 12, file_id: 34, rest, .. } = plan.end else {
        panic!("no modpack")
    };
    let rest_again = CreateRest {
        instance_id: rest.instance_id.clone(),
        game_version: rest.game_version.clone(),
        loader: rest.loader,
        adjuncts: vec![],
    };
    let result = CurseForgeModpackInstallResult { content: content(vec![manual("a", None)], 0) };
    let plan = after_modpack(rest, &result, &vec![]);
    assert!(matches!(plan.end, RequestEnd::WaitingForUser { .. }));
    let plan = after_modpack(rest_again, &result, &vec![text("a")]);
    assert!(matches!(plan.end, RequestEnd::LoadContext { .. }));
}

#[test]
fn checkpoints_skip_the_removal_of_the_old_pack() {
    let request = || {
        install_pack_to_existing_instance(
            text("id"),
            CreatePackLocation::FromFile { path: text("p") },
            Some(InstallPostInstallEdit { name: None, icon_path: None, link: None }),
        )
    };
    let plan = run_request(request(), facts(None));
    assert_eq!(plan.actions, vec![RequestAction::PrepareRollback { instance_id: text("id") }]);
    let RequestEnd::RemovePackContent { rest, .. } = plan.end else { panic!("no removal") };
    let mut disabled = NameSet::new();
    disabled.insert("z");
    disabled.insert("a");
    let plan = after_removal(rest, &disabled);
    let saved = InstallContinuationState::InstallingPackToExistingInstance {
        disabled_project_ids: vec![text("a"), text("z")],
    };
    assert_eq!(
        plan.actions,
        vec![RequestAction::SaveContinuation { continuation: Some(saved.clone()) }]
    );
    let RequestEnd::InstallPack { rest, .. } = plan.end else { panic!("no pack") };
    let plan = after_pack(rest, PackOutcome::Completed);
    assert_eq!(
        plan.actions,
        vec![
            RequestAction::RestoreDisabled {
                instance_id: text("id"),
                project_ids: vec![text("a"), text("z")],
            },
            RequestAction::SaveContinuation { continuation: None },
        ]
    );
    let mut state = InstallJobState::new(request());
    state.continuation = Some(saved);
    let plan = run_request(request(), run_facts(&state));
    assert!(matches!(plan.end, RequestEnd::InstallPack { rest: PackRest::Existing { .. }, .. }));
}

#[test]
fn packs_apply_their_edit_or_wait() {
    let edit = InstallPostInstallEdit { name: Some(text("x")), icon_path: None, link: None };
    let rest = PackRest::New { instance_id: text("id"), edit: Some(edit.clone()) };
    let plan = after_pack(rest, PackOutcome::Completed);
    assert_eq!(
        plan.actions,
        vec![RequestAction::ApplyEdit { instance_id: text("id"), edit: edit.clone() }]
    );
    let reason =
        InstallPauseReason::MissingRequiredContent { failed_files: 1, paths: vec![text("a")] };
    let rest = PackRest::New { instance_id: text("id"), edit: None };
    let plan = after_pack(rest, PackOutcome::WaitingForUser(reason.clone()));
    assert!(plan.actions.is_empty());
    assert_eq!(plan.end, RequestEnd::WaitingForUser { reason });
    assert_eq!(effective_edit(Some(edit.clone())), Some(edit));
    assert_eq!(effective_edit(None), None);
}

#[test]
fn content_is_counted_and_announced() {
    let plan = after_content_plan(text("id"), text("main"), vec![text("b"), text("c")]);
    let counts = |current: u64| RequestAction::Report {
        phase: InstallPhaseId::DownloadingContent,
        progress: Some(InstallProgress { current, total: 3, secondary: None }),
        details: InstallPhaseDetails::Empty,
    };
    assert_eq!(
        plan.actions,
        vec![
            counts(0),
            RequestAction::InstallContentPlan { instance_id: text("id") },
            counts(3),
            RequestAction::EmitContentChanged { instance_id: text("id") },
            RequestAction::EmitContentInstallFinished {
                instance_id: text("id"),
                project_ids: vec![text("main"), text("b"), text("c")],
                dependency_project_ids: vec![text("b"), text("c")],
            },
        ]
    );
    let mut result = content(vec![], 0);
    result.installed = vec![
        CurseForgeInstalledFile { project_id: 5, file_id: 1, dependency: false },
        CurseForgeInstalledFile { project_id: 6, file_id: 2, dependency: true },
    ];
    let plan = after_curseforge_content(text("id"), 5, &result);
    assert_eq!(
        plan.actions[1],
        RequestAction::EmitContentInstallFinished {
            instance_id: text("id"),
            project_ids: vec![text("curseforge:5"), text("curseforge:6")],
            dependency_project_ids: vec![text("curseforge:6")],
        }
    );
    assert_eq!(curseforge_project(0), "curseforge:0");
    assert_eq!(installed_dependencies(&result), vec![text("curseforge:6")]);
}

#[test]
fn remaining_requests_start_as_asked() {
    let plan = run_request(install_existing_instance(text("id"), true), facts(None));
    assert_eq!(
        plan.actions,
        vec![
            RequestAction::PrepareRollback { instance_id: text("id") },
            moved(InstallPhaseId::DownloadingMinecraft),
        ]
    );
    let plan = run_request(update_managed_curseforge_modpack(text("id"), 9), facts(None));
    assert_eq!(plan.actions.len(), 4);
    assert_eq!(
        plan.end,
        RequestEnd::UpdateModpack { instance_id: text("id"), file_id: 9 }
    );
    let plan = run_request(download_java(text("zulu"), 21), facts(None));
    assert_eq!(
        plan.actions[0],
        RequestAction::UpdateProgress {
            phase: InstallPhaseId::PreparingJava,
            details: InstallPhaseDetails::Java {
                major_version: 21,
                step: InstallJavaStep::FetchingMetadata,
            },
        }
    );
    assert_eq!(plan.end, RequestEnd::Completed { instance_id: None });
    let plan = run_request(
        InstallRequest::DuplicateInstance { source_instance_id: text("src") },
        facts(Some("id")),
    );
    assert_eq!(
        plan.actions[1],
        RequestAction::CopyInstance { instance_id: text("id"), source_instance_id: text("src") }
    );
    let asked = CurseForgeInstallRequest {
        instance_id: text("id"),
        project_id: 5,
        file_id: 6,
        project_type: text("mod"),
        ownership_kind: ContentOwnershipKind::UserAdded,
        manual_operation_kind: ManualDownloadOperationKind::ContentInstall,
        game_version: None,
        mod_loader_type: None,
        world_name: None,
        install_dependencies: true,
        excluded_dependency_project_ids: vec![],
        force_dependency_project_ids: vec![],
        dependency_plan_id: None,
    };
    let plan =
        run_request(install_curseforge_content(asked.clone(), text("t"), None), facts(None));
    assert_eq!(plan.actions, vec![moved(InstallPhaseId::DownloadingContent)]);
    assert_eq!(plan.end, RequestEnd::InstallCurseForgeContent { request: asked });
    let plan = run_request(
        import_instance(text("multimc"), text("/base"), text("folder"), true),
        facts(Some("id")),
    );
    assert!(matches!(&plan.actions[1], RequestAction::ImportInstance { symlink: true, .. }));
}

#[test]
fn worlds_are_downloaded_unless_they_were_imported() {
    let request =
        CurseForgeWorldInstallRequest { instance_id: text("id"), project_id: 12, file_id: 34 };
    let asked = || install_curseforge_world(request.clone(), text("World"), None);
    let mut state = InstallJobState::new(asked());
    assert!(!curseforge_world_was_imported_manually(&state, &request));
    let plan = run_request(asked(), run_facts(&state));
    assert_eq!(plan.end, RequestEnd::InstallWorld { request: request.clone() });

    let (skipped, reason) = world_manual_download(&manual("world.zip", None));
    assert_eq!(
        skipped,
        InstallJobEventKind::ContentFileSkipped {
            path: text("saves/world.zip"),
            reason: text("CurseForge requires a manual download"),
            project_id: Some(text("12")),
            version_id: Some(text("34")),
            manual_url: Some(text("https://www.curseforge.com/minecraft/worlds/island/download/34")),
        }
    );
    assert_eq!(
        reason,
        InstallPauseReason::MissingRequiredContent {
            failed_files: 1,
            paths: vec![text("saves/world.zip")],
        }
    );
    let plan = after_world(text("id"), &Some(manual("world.zip", Some("https://site"))));
    assert!(matches!(
        &plan.actions[0],
        RequestAction::RecordEvent {
            kind: InstallJobEventKind::ContentFileSkipped { manual_url: Some(url), .. }
        } if url == "https://site"
    ));
    assert_eq!(
        after_world(text("id"), &None).end,
        RequestEnd::Completed { instance_id: Some(text("id")) }
    );

    state.record_event(skipped);
    state.record_event(InstallJobEventKind::ContentFileRecovered {
        path: text("saves/world.zip"),
        bytes: 3,
    });
    let plan = run_request(asked(), run_facts(&state));
    assert!(plan.actions.is_empty());
    assert_eq!(plan.end, RequestEnd::Completed { instance_id: Some(text("id")) });
}

#[test]
fn updates_fail_before_they_pause() {
    let failed = CurseForgeModpackInstallResult { content: content(vec![manual("a", None)], 2) };
    let plan = after_update(text("id"), &failed, &vec![]);
    let RequestEnd::Refused { refusal } = plan.end else { panic!("not refused") };
    assert_eq!(
        refusal.to_kind(),
        ErrorKind::NetworkError(text(
            "2 CurseForge files could not be downloaded automatically"
        ))
    );
    let manual_only = CurseForgeModpackInstallResult {
        content: content(vec![manual("a", None), manual("b", None)], 0),
    };
    assert_eq!(
        curseforge_manual_download_pause(&manual_only, &vec![text("a")]),
        Some(InstallPauseReason::MissingRequiredContent {
            failed_files: 1,
            paths: vec![text("b")],
        })
    );
    let plan = after_update(text("id"), &manual_only, &vec![]);
    assert!(matches!(plan.end, RequestEnd::WaitingForUser { .. }));
    let plan = after_update(text("id"), &manual_only, &vec![text("b"), text("a")]);
    assert_eq!(plan.end, RequestEnd::Completed { instance_id: Some(text("id")) });
}

#[test]
fn packs_are_told_apart() {
    let version = CreatePackLocation::FromVersionId {
        project_id: text("p"),
        version_id: text("v"),
        title: text("t"),
        icon_url: None,
    };
    assert_eq!(
        modpack_details(&version),
        InstallPhaseDetails::Modpack {
            project_id: Some(text("p")),
            version_id: Some(text("v")),
            title: Some(text("t")),
        }
    );
    assert_eq!(pack_context(&version).operation, "download modpack file");
    let local = CreatePackLocation::FromFile { path: text("/p.zip") };
    assert_eq!(pack_context(&local).operation, "read local modpack file");
    assert_eq!(pack_context(&local).source_path.as_deref(), Some("/p.zip"));
    assert_eq!(local_pack_route(None), LocalPackRoute::Search);
    assert_eq!(
        existing_pack(&InstanceLink::ServerProjectModpack {
            server_project_id: text("s"),
            content_project_id: text("p"),
            content_version_id: text("v"),
        }),
        ExistingPack::Version { project_id: text("p"), version_id: text("v") }
    );
    assert_eq!(
        existing_pack(&InstanceLink::ImportedModpack { name: None }),
        ExistingPack::Imported
    );
    assert_eq!(existing_pack(&InstanceLink::Unmanaged), ExistingPack::Absent);
}

#[test]
fn disabled_projects_are_disabled_again() {
    let modrinth = |id: &str| ContentProviderRef::Modrinth { project_id: text(id), version_id: None };
    let curseforge = || ContentProviderRef::CurseForge { project_id: 1, file_id: None };
    let file = |path: &str, enabled: bool, provider_refs: Vec<ContentProviderRef>| ProjectFile {
        relative_path: text(path),
        enabled,
        provider_refs,
    };
    let files = vec![
        file("a", false, vec![curseforge(), modrinth("one"), modrinth("two")]),
        file("b", false, vec![curseforge()]),
        file("c", true, vec![modrinth("three")]),
    ];
    let ids = disabled_project_ids(&files);
    assert_eq!(ids.names(), &vec![text("one")]);
    let now = vec![
        file("x", true, vec![curseforge(), modrinth("one")]),
        file("y", false, vec![modrinth("one")]),
        file("z", true, vec![modrinth("three")]),
    ];
    assert_eq!(files_to_disable(&now, ids.names()), vec![text("x")]);
}

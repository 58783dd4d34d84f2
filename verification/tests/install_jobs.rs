use theseus::error::{Error, ErrorKind};
use theseus::install::commands::{validated_cache_repair_types_for, CacheValueType};
use theseus::install::curseforge::{
    curseforge_manual_download_pause, curseforge_world_was_imported_manually,
};
use theseus::install::errors::{install_error_code, install_error_view};
use theseus::install::lifecycle::{
    begin_canceling_job, begin_failed_job_rollback, begin_waiting_for_user, prepare_resumed_job,
};
use theseus::install::loader_kind::{LoaderComponentKind, LoaderComponentRole, ModLoader};
use theseus::install::loaders::{
    select_optifabric_file_id, validate_loader_components, OPTIFABRIC_CURSEFORGE_PROJECT_ID,
};
use theseus::install::model::{
    ContentOwnershipKind, CurseForgeFile, CurseForgeInstallResult, CurseForgeManualDownload,
    CurseForgeModpackInstallResult, CurseForgeWorldInstallRequest, InstallCleanup,
    InstallContinuationState, InstallErrorContext, InstallErrorView, InstallJobEventKind,
    InstallJobState, InstallJobStatus, InstallPauseReason, InstallPhaseId, InstallRequest,
    InstallTarget, Instance, InstanceInstallStage, LoaderComponent, ManualDownloadOperationKind,
};
use theseus::install::requests::duplicate_instance;

fn components(primary: ModLoader, adjuncts: &[LoaderComponentKind]) -> Vec<LoaderComponent> {
    std::iter::once(LoaderComponent::new_primary("", primary, None))
        .chain(adjuncts.iter().map(|kind| LoaderComponent {
            instance_id: String::new(),
            kind: *kind,
            version: None,
            role: LoaderComponentRole::Adjunct,
            provider_metadata: None,
        }))
        .collect()
}

fn curseforge_file(id: u32, is_available: bool, game_versions: &[&str]) -> CurseForgeFile {
    CurseForgeFile {
        id,
        mod_id: OPTIFABRIC_CURSEFORGE_PROJECT_ID,
        is_available,
        game_versions: game_versions.iter().map(ToString::to_string).collect(),
    }
}

fn error(raw: ErrorKind) -> Error {
    Error { raw, text: String::new(), api: None }
}

fn repairable() -> Vec<String> {
    vec!["curseforge_project".to_string(), "curseforge_file".to_string()]
}

fn java_job() -> InstallJobState {
    InstallJobState::new(InstallRequest::DownloadJava { vendor: "test".to_string(), version: 21 })
}

#[test]
fn loader_component_preflight_accepts_verified_combinations() {
    for components in [
        components(ModLoader::Vanilla, &[LoaderComponentKind::OptiFine]),
        components(ModLoader::Vanilla, &[LoaderComponentKind::LiteLoader]),
        components(ModLoader::Forge, &[LoaderComponentKind::OptiFine]),
        components(ModLoader::NeoForge, &[LoaderComponentKind::OptiFine]),
        components(ModLoader::Forge, &[LoaderComponentKind::LiteLoader]),
        components(
            ModLoader::Fabric,
            &[LoaderComponentKind::OptiFine, LoaderComponentKind::OptiFabric],
        ),
    ] {
        validate_loader_components(&components).unwrap();
    }
}

#[test]
fn loader_component_preflight_rejects_unverified_combinations() {
    for components in [
        components(ModLoader::Quilt, &[LoaderComponentKind::OptiFine]),
        components(ModLoader::Cleanroom, &[LoaderComponentKind::OptiFine]),
        components(ModLoader::LegacyFabric, &[LoaderComponentKind::LiteLoader]),
        components(ModLoader::Fabric, &[LoaderComponentKind::LiteLoader]),
        components(ModLoader::Fabric, &[LoaderComponentKind::OptiFine]),
        components(
            ModLoader::Forge,
            &[LoaderComponentKind::OptiFine, LoaderComponentKind::OptiFabric],
        ),
    ] {
        assert!(validate_loader_components(&components).is_err());
    }
}

#[test]
fn optifabric_selection_requires_an_available_exact_game_version() {
    let files = vec![
        curseforge_file(1, true, &["1.19.2"]),
        curseforge_file(2, false, &["1.20.1"]),
        curseforge_file(3, true, &["1.20.1"]),
    ];

    assert_eq!(select_optifabric_file_id(&files, "1.20.1"), Some(3));
    assert_eq!(select_optifabric_file_id(&files, "1.20.2"), None);
}

#[test]
fn stalled_downloads_are_reported_as_network_errors() {
    let error = error(ErrorKind::NetworkError("no data received for 60 seconds".to_string()));

    assert_eq!(
        install_error_code(InstallPhaseId::DownloadingMinecraft, &error),
        "network_error"
    );
}

#[test]
fn cache_read_errors_have_repair_context_but_generic_sqlx_does_not() {
    let cache_error = error(ErrorKind::CacheReadError {
        cache_type: "curseforge_project".to_string(),
        message: "malformed cache row".to_string(),
        sqlite_code: Some("11".to_string()),
    });
    let view = install_error_view(InstallPhaseId::ResolvingPack, &cache_error, None);
    assert_eq!(view.code, "cache_repair_required");
    let context = view.context.unwrap();
    assert_eq!(context.cache_types, vec!["curseforge_project"]);
    assert_eq!(context.sqlite_code.as_deref(), Some("11"));

    let database_error = error(ErrorKind::Sqlx("no rows returned".to_string()));
    assert_eq!(
        install_error_code(InstallPhaseId::ResolvingPack, &database_error),
        "database_error"
    );
}

#[test]
fn cache_repair_validation_rejects_old_or_unknown_context() {
    let old_context = InstallErrorContext::new("read cache").build();
    let old_error = InstallErrorView::from_message(
        "cache_repair_required",
        InstallPhaseId::ResolvingPack,
        "cache failed",
    );
    assert!(validated_cache_repair_types_for(
        InstallJobStatus::Failed,
        Some(&InstallErrorView { context: Some(old_context), ..old_error.clone() }),
        &repairable(),
    )
    .is_err());

    let mut unknown_context = InstallErrorContext::new("read cache").build();
    unknown_context.cache_types = vec!["install_jobs".to_string()];
    assert!(validated_cache_repair_types_for(
        InstallJobStatus::Failed,
        Some(&InstallErrorView { context: Some(unknown_context), ..old_error }),
        &repairable(),
    )
    .is_err());
}

#[test]
fn cache_repair_validation_accepts_only_whitelisted_terminal_jobs() {
    let mut context = InstallErrorContext::new("read cache").build();
    context.cache_types =
        vec!["curseforge_project".to_string(), "curseforge_project".to_string()];
    let error = InstallErrorView {
        code: "cache_repair_required".to_string(),
        phase: Some(InstallPhaseId::ResolvingPack),
        message: "cache failed".to_string(),
        api: None,
        context: Some(context),
    };
    assert_eq!(
        validated_cache_repair_types_for(
            InstallJobStatus::Interrupted,
            Some(&error),
            &repairable(),
        )
        .unwrap(),
        vec![CacheValueType { name: "curseforge_project".to_string() }]
    );
    assert!(validated_cache_repair_types_for(
        InstallJobStatus::Running,
        Some(&error),
        &repairable(),
    )
    .is_err());
}

#[test]
fn missing_required_content_pauses_without_starting_rollback() {
    let mut job_state = java_job();
    job_state.progress.phase = InstallPhaseId::DownloadingContent;
    job_state.cleanup =
        InstallCleanup::DeleteNewInstance { instance_id: Some("same-instance".to_string()) };
    let cleanup = job_state.cleanup.clone();
    let reason = InstallPauseReason::MissingRequiredContent {
        failed_files: 2,
        paths: vec!["mods/a.jar".to_string(), "mods/b.jar".to_string()],
    };

    begin_waiting_for_user(&mut job_state, reason.clone());

    assert_eq!(job_state.progress.phase, InstallPhaseId::DownloadingContent);
    assert_eq!(job_state.pause_reason, Some(reason));
    assert_eq!(job_state.cleanup, cleanup);
    assert!(job_state.error.is_none());
    assert!(job_state.rollback.is_none());
    assert!(job_state
        .events
        .iter()
        .any(|event| matches!(&event.kind, InstallJobEventKind::WaitingForUser { .. })));
    assert!(!job_state
        .events
        .iter()
        .any(|event| matches!(&event.kind, InstallJobEventKind::RollbackStarted { .. })));
}

#[test]
fn curseforge_manual_downloads_create_a_recoverable_pause() {
    let manual_download = CurseForgeManualDownload {
        project_id: 123,
        file_id: 456,
        file_name: "mods/manual.jar".to_string(),
        ownership_kind: ContentOwnershipKind::PackManaged,
        operation_kind: ManualDownloadOperationKind::PackInstall,
        website_url: Some(
            "https://www.curseforge.com/minecraft/mc-mods/example/download/456".to_string(),
        ),
        project_type: "mod".to_string(),
        project_slug: "example".to_string(),
        target_folder: "mods".to_string(),
        hashes: Vec::new(),
        file_length: 12,
        file_fingerprint: 34,
    };
    let result = CurseForgeModpackInstallResult {
        content: CurseForgeInstallResult {
            installed: Vec::new(),
            manual_downloads: vec![manual_download],
            failed_downloads: Vec::new(),
        },
    };

    assert_eq!(
        curseforge_manual_download_pause(&result, &vec![]),
        Some(InstallPauseReason::MissingRequiredContent {
            failed_files: 1,
            paths: vec!["mods/manual.jar".to_string()],
        })
    );
    assert_eq!(
        curseforge_manual_download_pause(&result, &vec!["mods/manual.jar".to_string()]),
        None
    );
}

#[test]
fn recovered_manual_world_download_does_not_run_again() {
    let request = CurseForgeWorldInstallRequest {
        instance_id: "instance".to_string(),
        project_id: 123,
        file_id: 456,
    };
    let mut job_state = InstallJobState::new(InstallRequest::InstallCurseForgeWorld {
        request: request.clone(),
        display_title: "World".to_string(),
        display_icon: None,
    });
    job_state.record_event(InstallJobEventKind::ContentFileSkipped {
        path: "saves/world.zip".to_string(),
        reason: "manual download required".to_string(),
        project_id: Some(request.project_id.to_string()),
        version_id: Some(request.file_id.to_string()),
        manual_url: Some("https://www.curseforge.com/download".to_string()),
    });
    job_state.record_event(InstallJobEventKind::ContentFileRecovered {
        path: "saves/world.zip".to_string(),
        bytes: 42,
    });

    assert!(curseforge_world_was_imported_manually(&job_state, &request));
}

#[test]
fn resume_preserves_instance_cleanup_and_existing_pack_checkpoint() {
    let mut job_state = java_job();
    job_state.target =
        InstallTarget::NewInstance { instance_id: Some("same-instance".to_string()) };
    job_state.cleanup =
        InstallCleanup::DeleteNewInstance { instance_id: Some("same-instance".to_string()) };
    job_state.continuation = Some(InstallContinuationState::InstallingPackToExistingInstance {
        disabled_project_ids: vec!["project-a".to_string()],
    });
    job_state.pause_reason = Some(InstallPauseReason::MissingRequiredContent {
        failed_files: 1,
        paths: vec!["mods/a.jar".to_string()],
    });
    let target = job_state.target.clone();
    let cleanup = job_state.cleanup.clone();
    let continuation = job_state.continuation.clone();

    prepare_resumed_job(&mut job_state);

    assert_eq!(job_state.target, target);
    assert_eq!(job_state.cleanup, cleanup);
    assert_eq!(job_state.continuation, continuation);
    assert!(job_state.pause_reason.is_none());
    assert!(job_state
        .events
        .iter()
        .any(|event| matches!(&event.kind, InstallJobEventKind::JobQueued { .. })));
}

#[test]
fn resumed_job_can_pause_again_without_rollback() {
    let mut job_state = java_job();
    job_state.pause_reason = Some(InstallPauseReason::MissingRequiredContent {
        failed_files: 1,
        paths: vec!["mods/first.jar".to_string()],
    });
    prepare_resumed_job(&mut job_state);
    begin_waiting_for_user(
        &mut job_state,
        InstallPauseReason::MissingRequiredContent {
            failed_files: 1,
            paths: vec!["mods/still-missing.jar".to_string()],
        },
    );

    assert!(matches!(
        job_state.pause_reason,
        Some(InstallPauseReason::MissingRequiredContent { failed_files: 1, .. })
    ));
    assert!(!job_state
        .events
        .iter()
        .any(|event| matches!(&event.kind, InstallJobEventKind::RollbackStarted { .. })));
}

#[test]
fn canceling_waiting_jobs_keeps_the_original_cleanup_plan() {
    for cleanup in [
        InstallCleanup::DeleteNewInstance { instance_id: Some("new-instance".to_string()) },
        InstallCleanup::RestoreExistingInstance { instance_id: "existing-instance".to_string() },
    ] {
        let mut job_state = java_job();
        job_state.cleanup = cleanup.clone();
        job_state.pause_reason = Some(InstallPauseReason::MissingRequiredContent {
            failed_files: 1,
            paths: vec!["mods/missing.jar".to_string()],
        });

        begin_canceling_job(&mut job_state);

        assert_eq!(job_state.cleanup, cleanup);
        assert!(job_state.pause_reason.is_none());
        assert_eq!(job_state.progress.phase, InstallPhaseId::RollingBack);
        assert!(job_state.events.iter().any(|event| matches!(
            &event.kind,
            InstallJobEventKind::RollbackStarted { cleanup: event_cleanup }
                if event_cleanup == &cleanup
        )));
    }
}

#[test]
fn manifest_and_override_errors_remain_fatal() {
    for (phase, message) in [
        (InstallPhaseId::ReadingPackManifest, "No pack manifest found in mrpack"),
        (InstallPhaseId::ExtractingOverrides, "Invalid override path"),
    ] {
        let mut job_state = java_job();
        job_state.progress.phase = phase;
        let error = error(ErrorKind::InputError(message.to_string()));

        begin_failed_job_rollback(&mut job_state, &error);

        assert!(job_state.pause_reason.is_none());
        assert_eq!(job_state.progress.phase, InstallPhaseId::RollingBack);
        assert!(job_state.events.iter().any(|event| matches!(
            &event.kind,
            InstallJobEventKind::Failed { phase: failed_phase, .. } if *failed_phase == phase
        )));
        assert!(job_state
            .events
            .iter()
            .any(|event| matches!(&event.kind, InstallJobEventKind::RollbackStarted { .. })));
    }
}

#[test]
fn direct_link_instances_cannot_be_duplicated() {
    let instance = Instance {
        id: "id".to_string(),
        path: "duplicate-demo".to_string(),
        name: "duplicate-demo".to_string(),
        icon_path: None,
        install_stage: InstanceInstallStage::Installed,
        linked_dot_minecraft: Some("/minecraft".to_string()),
        direct_linked: true,
    };

    let error = duplicate_instance(instance.id.clone(), Some(&instance))
        .expect_err("directly associated instances must be rejected");

    assert!(
        error.message().contains("directly associated"),
        "expected a friendly rejection, got: {}",
        error.message()
    );
}

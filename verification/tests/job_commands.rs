use theseus::error::{Error, ErrorKind, Refusal};
use theseus::install::commands::{
    after_swap, begin_cache_repair, begin_cancel, begin_resume, begin_retry, check_duplicable,
    check_retry_as_new, finish_cancel, finish_purge, finish_resume, skip_missing_content,
    validated_cache_repair_types, CacheRepair, CacheValueType, CancelAction, CancelFollowUp,
};
use theseus::install::errors::{install_error_code, install_error_view, InstallErrorCode};
use theseus::install::lifecycle::{
    begin_canceling_run, clear_deleted_new_instance_id, complete_rollback, current_instance_id,
    fail_rollback, finish_cleanup, finish_succeeded_job, record_queued, reset_for_retry,
    set_display, set_instance_id, RollbackReport,
};
use theseus::install::model::{
    CreatePackLocation, DownloadItem, DownloadItemStatus, InstallCleanup,
    InstallContinuationState, InstallErrorContext, InstallErrorView, InstallJobEventKind,
    InstallJobKind, InstallJobRecord, InstallJobState, InstallJobStatus, InstallPauseReason,
    InstallPhaseDetails, InstallPhaseId, InstallProgress, InstallRequest, InstallTarget,
};
use theseus::install::run::{begin_run, may_run, JobRun, RunEnd, RunOutcome, RunStage};

fn java_request() -> InstallRequest {
    InstallRequest::DownloadJava { vendor: "test".to_string(), version: 21 }
}

fn existing_request() -> InstallRequest {
    InstallRequest::InstallExistingInstance { instance_id: "old".to_string(), force: false }
}

fn new_request() -> InstallRequest {
    InstallRequest::CreateModpackInstance {
        location: CreatePackLocation::FromFile { path: "/packs/a.mrpack".to_string() },
        post_install_edit: None,
    }
}

fn record(status: InstallJobStatus, request: InstallRequest) -> InstallJobRecord {
    InstallJobRecord { status, state: InstallJobState::new(request) }
}

fn failure(text: &str) -> Error {
    Error {
        raw: ErrorKind::NetworkError(text.to_string()),
        text: text.to_string(),
        api: Some("answer".to_string()),
    }
}

fn missing(paths: &[&str]) -> InstallPauseReason {
    InstallPauseReason::MissingRequiredContent {
        failed_files: paths.len() as u64,
        paths: paths.iter().map(|path| path.to_string()).collect(),
    }
}

fn kinds(state: &InstallJobState) -> Vec<InstallJobEventKind> {
    state.events.iter().map(|event| event.kind.clone()).collect()
}

fn counter() -> Option<InstallProgress> {
    Some(InstallProgress { current: 1, total: 2, secondary: None })
}

fn item(id: &str, status: DownloadItemStatus, manual_url: Option<&str>) -> DownloadItem {
    DownloadItem {
        id: id.to_string(),
        status,
        project_id: None,
        version_id: None,
        manual_url: manual_url.map(str::to_string),
    }
}

#[test]
fn new_jobs_start_from_their_request() {
    let state = InstallJobState::new(existing_request());
    assert_eq!(state.target, InstallTarget::ExistingInstance { instance_id: "old".to_string() });
    assert_eq!(
        state.cleanup,
        InstallCleanup::RestoreExistingInstance { instance_id: "old".to_string() }
    );
    assert_eq!(
        kinds(&state),
        vec![InstallJobEventKind::JobQueued { kind: InstallJobKind::InstallExistingInstance }]
    );
    let state = InstallJobState::new(new_request());
    assert_eq!(state.target, InstallTarget::NewInstance { instance_id: None });
    assert_eq!(state.cleanup, InstallCleanup::DeleteNewInstance { instance_id: None });
    assert_eq!(InstallJobState::new(java_request()).cleanup, InstallCleanup::NoCleanup);
}

#[test]
fn history_tells_what_became_of_each_file() {
    let mut state = InstallJobState::new(java_request());
    state.record_event(InstallJobEventKind::ContentFileSkipped {
        path: "a".to_string(),
        reason: "manual".to_string(),
        project_id: Some("1".to_string()),
        version_id: Some("2".to_string()),
        manual_url: Some("url".to_string()),
    });
    state.record_event(InstallJobEventKind::ContentFileRecovered {
        path: "b".to_string(),
        bytes: 1,
    });
    state.record_event(InstallJobEventKind::ContentFileRecovered {
        path: "a".to_string(),
        bytes: 2,
    });
    let items = state.download_items();
    assert_eq!(items.len(), 2);
    assert_eq!(items[0].id, "a");
    assert_eq!(items[0].status, DownloadItemStatus::Completed);
    assert_eq!(items[0].project_id.as_deref(), Some("1"));
    assert_eq!(items[0].manual_url.as_deref(), Some("url"));
    assert_eq!(items[1], item("b", DownloadItemStatus::Completed, None));
}

#[test]
fn failure_deletes_the_instance_that_the_job_made() {
    let mut state = InstallJobState::new(new_request());
    assert_eq!(current_instance_id(&state), None);
    set_instance_id(&mut state, "new".to_string());
    assert_eq!(current_instance_id(&state).as_deref(), Some("new"));
    assert_eq!(
        state.cleanup,
        InstallCleanup::DeleteNewInstance { instance_id: Some("new".to_string()) }
    );
    clear_deleted_new_instance_id(&mut state);
    assert_eq!(current_instance_id(&state), None);
    assert_eq!(state.cleanup, InstallCleanup::DeleteNewInstance { instance_id: None });

    let mut state = InstallJobState::new(existing_request());
    set_instance_id(&mut state, "other".to_string());
    assert_eq!(
        state.cleanup,
        InstallCleanup::RestoreExistingInstance { instance_id: "other".to_string() }
    );
    clear_deleted_new_instance_id(&mut state);
    assert_eq!(current_instance_id(&state).as_deref(), Some("other"));
}

#[test]
fn display_is_replaced() {
    let mut state = InstallJobState::new(java_request());
    set_display(&mut state, "Title".to_string(), Some("icon".to_string()));
    let display = state.display.unwrap();
    assert_eq!(display.title, "Title");
    assert_eq!(display.icon.as_deref(), Some("icon"));
}

#[test]
fn retry_needs_a_failed_job() {
    for status in [
        InstallJobStatus::Queued,
        InstallJobStatus::Running,
        InstallJobStatus::WaitingForUser,
        InstallJobStatus::Canceling,
        InstallJobStatus::Canceled,
        InstallJobStatus::Succeeded,
    ] {
        let mut job = record(status, java_request());
        let before = job.clone();
        assert_eq!(begin_retry(&mut job), Err(Refusal::RetryNeedsFailedJob));
        assert_eq!(job, before);
    }
    for status in [InstallJobStatus::Failed, InstallJobStatus::Interrupted] {
        let mut job = record(status, new_request());
        set_instance_id(&mut job.state, "new".to_string());
        job.state.pause_reason = Some(missing(&["a"]));
        job.state.progress.phase = InstallPhaseId::RollingBack;
        job.state.progress.parallel = counter();
        job.state.active_downloads = vec!["kept".to_string()];
        assert_eq!(begin_retry(&mut job), Ok(()));
        assert_eq!(job.state.target, InstallTarget::NewInstance { instance_id: None });
        assert_eq!(job.state.pause_reason, None);
        assert_eq!(job.state.progress.phase, InstallPhaseId::PreparingInstance);
        assert_eq!(job.state.progress.parallel, None);
        assert_eq!(job.state.active_downloads, vec!["kept".to_string()]);
    }
    assert_eq!(
        Refusal::RetryNeedsFailedJob.message(),
        "Only failed or interrupted install jobs can be retried"
    );
}

#[test]
fn retry_forgets_the_checkpoint() {
    let mut state = InstallJobState::new(existing_request());
    state.continuation = Some(InstallContinuationState::InstallingPackToExistingInstance {
        disabled_project_ids: vec![],
    });
    let events = state.events.len();
    reset_for_retry(&mut state);
    assert_eq!(state.continuation, None);
    assert_eq!(state.events.len(), events);
    record_queued(&mut state);
    assert_eq!(
        kinds(&state)[events],
        InstallJobEventKind::JobQueued { kind: InstallJobKind::InstallExistingInstance }
    );
}

#[test]
fn finished_jobs_can_be_started_anew() {
    for (status, expected) in [
        (InstallJobStatus::Failed, true),
        (InstallJobStatus::Interrupted, true),
        (InstallJobStatus::Canceled, true),
        (InstallJobStatus::Succeeded, false),
        (InstallJobStatus::Running, false),
    ] {
        let checked = check_retry_as_new(&record(status, java_request()));
        if expected {
            assert_eq!(checked, Ok(()));
        } else {
            assert_eq!(checked, Err(Refusal::NewRetryNeedsFinishedJob));
        }
    }
    assert_eq!(check_duplicable(None), Ok(()));
}

fn broken_cache(types: &[&str]) -> InstallErrorView {
    let mut context = InstallErrorContext::new("read cache").build();
    context.cache_types = types.iter().map(|name| name.to_string()).collect();
    InstallErrorView {
        code: "cache_repair_required".to_string(),
        phase: Some(InstallPhaseId::ResolvingPack),
        message: "cache failed".to_string(),
        api: None,
        context: Some(context),
    }
}

#[test]
fn cache_repair_names_each_refusal() {
    let known = vec!["project".to_string(), "version".to_string()];
    let mut job = record(InstallJobStatus::Running, java_request());
    assert_eq!(
        validated_cache_repair_types(&job, &known),
        Err(Refusal::CacheRepairNeedsFailedJob)
    );
    job.status = InstallJobStatus::Failed;
    assert_eq!(validated_cache_repair_types(&job, &known), Err(Refusal::NoCacheRepairError));
    let mut view = broken_cache(&[]);
    view.code = "network_error".to_string();
    job.state.error = Some(view);
    assert_eq!(validated_cache_repair_types(&job, &known), Err(Refusal::CacheRepairNotRequired));
    job.state.error = Some(broken_cache(&[]));
    assert_eq!(validated_cache_repair_types(&job, &known), Err(Refusal::NoRepairableCacheTypes));
    let mut view = broken_cache(&[]);
    view.context = None;
    job.state.error = Some(view);
    assert_eq!(validated_cache_repair_types(&job, &known), Err(Refusal::NoRepairableCacheTypes));
    job.state.error = Some(broken_cache(&["project", "other", "third"]));
    let refusal = validated_cache_repair_types(&job, &known).unwrap_err();
    assert_eq!(refusal, Refusal::CacheTypeNotRepairable("other".to_string()));
    assert_eq!(refusal.message(), "Cache type is not repairable: other");
    assert_eq!(refusal.to_kind(), ErrorKind::InputError(refusal.message()));
    job.state.error = Some(broken_cache(&["version", "project", "version"]));
    assert_eq!(
        validated_cache_repair_types(&job, &known),
        Ok(vec![
            CacheValueType { name: "version".to_string() },
            CacheValueType { name: "project".to_string() },
        ])
    );
}

#[test]
fn cache_repair_starts_once() {
    let known = vec!["project".to_string()];
    let mut job = record(InstallJobStatus::Failed, java_request());
    let mut started = false;
    assert_eq!(
        begin_cache_repair(&job, &mut started, &known),
        Err(Refusal::NoCacheRepairError)
    );
    assert!(!started);
    job.state.error = Some(broken_cache(&["project"]));
    let types = vec![CacheValueType { name: "project".to_string() }];
    assert_eq!(
        begin_cache_repair(&job, &mut started, &known),
        Ok(CacheRepair::Purge(types))
    );
    assert!(started);
    assert_eq!(
        begin_cache_repair(&job, &mut started, &known),
        Ok(CacheRepair::AlreadyStarted)
    );
    assert_eq!(finish_purge(&mut started, None), Ok(()));
    assert!(started);
    let refusal = finish_purge(&mut started, Some("locked".to_string())).unwrap_err();
    assert!(!started);
    assert_eq!(
        refusal.message(),
        "Project cache cleanup failed; retry was not started: locked"
    );
    assert_eq!(refusal.to_kind(), ErrorKind::OtherError(refusal.message()));
    assert_eq!(
        Refusal::CacheRetryFailed("x".to_string()).message(),
        "Project cache was cleared, but retry could not be started: x"
    );
}

#[test]
fn only_waiting_jobs_are_resumed() {
    let mut job = record(InstallJobStatus::Failed, java_request());
    let before = job.clone();
    assert_eq!(begin_resume(&mut job), Err(Refusal::ResumeNeedsWaitingJob));
    assert_eq!(job, before);
    job.status = InstallJobStatus::WaitingForUser;
    job.state.active_downloads = vec!["a".to_string()];
    assert_eq!(begin_resume(&mut job), Ok(()));
    assert!(job.state.active_downloads.is_empty());
    assert_eq!(job.status, InstallJobStatus::WaitingForUser);
    assert_eq!(finish_resume(true), Ok(()));
    assert_eq!(finish_resume(false), Err(Refusal::NoLongerWaiting));
}

#[test]
fn skipping_adds_what_is_missing_in_order() {
    let mut job = record(InstallJobStatus::WaitingForUser, java_request());
    job.state.pause_reason = Some(missing(&["paused"]));
    job.state.skipped_missing_content_paths = vec!["m".to_string(), "c".to_string()];
    let items = vec![
        item("z", DownloadItemStatus::Failed, None),
        item("c", DownloadItemStatus::Skipped, Some("url")),
        item("ignored", DownloadItemStatus::Skipped, None),
        item("done", DownloadItemStatus::Completed, Some("url")),
        item("a", DownloadItemStatus::Failed, None),
    ];
    assert_eq!(skip_missing_content(&mut job, &items), Ok(()));
    assert_eq!(job.state.skipped_missing_content_paths, vec!["a", "c", "m", "z"]);
    assert_eq!(job.state.pause_reason, None);

    let mut job = record(InstallJobStatus::WaitingForUser, java_request());
    job.state.pause_reason = Some(missing(&["b", "a", "b"]));
    assert_eq!(skip_missing_content(&mut job, &vec![]), Ok(()));
    assert_eq!(job.state.skipped_missing_content_paths, vec!["a", "b"]);
}

#[test]
fn skipping_names_each_refusal() {
    let mut job = record(InstallJobStatus::Running, java_request());
    assert_eq!(skip_missing_content(&mut job, &vec![]), Err(Refusal::SkipNeedsWaitingJob));
    let mut job = record(
        InstallJobStatus::WaitingForUser,
        InstallRequest::UpdateManagedCurseForgeModpack {
            instance_id: "old".to_string(),
            file_id: 5,
        },
    );
    job.state.pause_reason = Some(missing(&["a"]));
    assert_eq!(skip_missing_content(&mut job, &vec![]), Err(Refusal::UpdateCannotSkip));
    let mut job = record(InstallJobStatus::WaitingForUser, java_request());
    let items = vec![item("a", DownloadItemStatus::Failed, None)];
    assert_eq!(skip_missing_content(&mut job, &items), Err(Refusal::NothingToSkip));
    job.state.pause_reason = Some(missing(&[]));
    let before = job.clone();
    assert_eq!(skip_missing_content(&mut job, &vec![]), Err(Refusal::NothingToSkip));
    assert_eq!(job, before);
}

#[test]
fn cancel_depends_on_the_status() {
    let mut job = record(InstallJobStatus::Running, java_request());
    let before = job.clone();
    assert_eq!(
        begin_cancel(&mut job),
        Ok(CancelAction::Swap { expected: InstallJobStatus::Running })
    );
    assert_eq!(job, before);
    job.status = InstallJobStatus::Canceling;
    assert_eq!(begin_cancel(&mut job), Ok(CancelAction::Report));
    for status in [InstallJobStatus::Queued, InstallJobStatus::WaitingForUser] {
        let mut job = record(status, java_request());
        assert_eq!(begin_cancel(&mut job), Ok(CancelAction::Swap { expected: status }));
        assert_eq!(job.state.progress.phase, InstallPhaseId::RollingBack);
        assert_eq!(job.state.error.unwrap().message, "Install was canceled");
    }
    let mut job = record(InstallJobStatus::Succeeded, java_request());
    assert_eq!(begin_cancel(&mut job), Err(Refusal::NotCancelable));
    assert_eq!(after_swap(InstallJobStatus::Running, false), CancelFollowUp::Reload);
    assert_eq!(after_swap(InstallJobStatus::Running, true), CancelFollowUp::SignalRun);
    assert_eq!(after_swap(InstallJobStatus::Queued, true), CancelFollowUp::CleanUp);
}

#[test]
fn canceled_jobs_report_their_cleanup_plainly() {
    let mut state = InstallJobState::new(new_request());
    set_instance_id(&mut state, "new".to_string());
    assert_eq!(
        finish_cancel(&mut state, &Some(failure("disk"))),
        InstallJobStatus::Canceled
    );
    let view = state.rollback_error.clone().unwrap();
    assert_eq!(view.code, "rollback_error");
    assert_eq!(view.message, "disk");
    assert_eq!(view.api.as_deref(), Some("answer"));
    assert_eq!(current_instance_id(&state).as_deref(), Some("new"));
    assert_eq!(
        kinds(&state).last(),
        Some(&InstallJobEventKind::RollbackFailed { message: "disk".to_string() })
    );
    assert_eq!(finish_cancel(&mut state, &None), InstallJobStatus::Canceled);
    assert_eq!(current_instance_id(&state), None);
    assert_eq!(kinds(&state).last(), Some(&InstallJobEventKind::RollbackCompleted));
}

#[test]
fn failed_rollbacks_of_a_run_are_classified() {
    let mut state = InstallJobState::new(java_request());
    fail_rollback(&mut state, &failure("down"), RollbackReport::Classified);
    assert_eq!(state.rollback_error.clone().unwrap().code, "network_error");
    finish_cleanup(&mut state, &Some(failure("down")), RollbackReport::Plain);
    assert_eq!(state.rollback_error.clone().unwrap().code, "rollback_error");
    complete_rollback(&mut state);
    assert_eq!(kinds(&state).last(), Some(&InstallJobEventKind::RollbackCompleted));
}

#[test]
fn canceled_runs_keep_their_parallel_counters() {
    let mut state = InstallJobState::new(java_request());
    state.progress.parallel = counter();
    state.progress.progress = counter();
    begin_canceling_run(&mut state);
    assert_eq!(state.progress.parallel, counter());
    assert_eq!(state.progress.progress, None);
    assert_eq!(state.progress.details, InstallPhaseDetails::Empty);
}

#[test]
fn succeeded_jobs_forget_what_was_in_their_way() {
    let mut state = InstallJobState::new(existing_request());
    state.skipped_missing_content_paths = vec!["a".to_string()];
    state.missing_content = Some(vec!["a".to_string()]);
    state.pause_reason = Some(missing(&["a"]));
    finish_succeeded_job(&mut state);
    assert!(state.skipped_missing_content_paths.is_empty());
    assert_eq!(state.missing_content, None);
    assert_eq!(state.pause_reason, None);
    assert_eq!(state.progress.phase, InstallPhaseId::Finalizing);
    assert_eq!(
        kinds(&state).last(),
        Some(&InstallJobEventKind::JobSucceeded { instance_id: Some("old".to_string()) })
    );
}

#[test]
fn only_queued_jobs_run() {
    assert!(may_run(InstallJobStatus::Queued));
    assert!(!may_run(InstallJobStatus::Running));
    let mut job = record(InstallJobStatus::Queued, java_request());
    assert!(begin_run(&mut job));
    assert_eq!(kinds(&job.state).last(), Some(&InstallJobEventKind::JobStarted));
    let mut job = record(InstallJobStatus::Canceling, java_request());
    let before = job.clone();
    assert!(!begin_run(&mut job));
    assert_eq!(job, before);
}

#[test]
fn completed_runs_are_stored_without_their_rollback_data() {
    let state = InstallJobState::new(new_request());
    let run = JobRun::begin(state, RunOutcome::Completed(Some("new".to_string())), false);
    assert!(matches!(&run.stage, RunStage::Completing { instance_id: Some(id), .. } if id == "new"));
    assert!(run.state.rollback.is_none());
    let run = run.stored(true, InstallJobStatus::Running);
    assert!(matches!(&run.stage, RunStage::Announcing { instance_id: Some(id) } if id == "new"));
}

#[test]
fn stopped_runs_are_never_completed() {
    let state = InstallJobState::new(new_request());
    let run = JobRun::begin(state, RunOutcome::Completed(Some("new".to_string())), true);
    assert!(matches!(run.stage, RunStage::CleaningUp { end: RunEnd::Canceled }));
    assert_eq!(
        run.state.cleanup,
        InstallCleanup::DeleteNewInstance { instance_id: Some("new".to_string()) }
    );

    let state = InstallJobState::new(java_request());
    let run = JobRun::begin(state, RunOutcome::Completed(None), false);
    let run = run.stored(false, InstallJobStatus::Canceling);
    assert!(matches!(run.stage, RunStage::CleaningUp { end: RunEnd::Canceled }));

    let state = InstallJobState::new(java_request());
    let run = JobRun::begin(state, RunOutcome::Completed(None), false);
    assert!(matches!(run.stored(false, InstallJobStatus::Queued).stage, RunStage::Done));
}

#[test]
fn refused_pauses_leave_no_trace() {
    let mut state = InstallJobState::new(java_request());
    state.progress.parallel = counter();
    let before = state.clone();
    let run = JobRun::begin(state, RunOutcome::WaitingForUser(missing(&["a"])), false);
    assert!(matches!(&run.stage, RunStage::Pausing { .. }));
    assert_eq!(run.state.pause_reason, Some(missing(&["a"])));
    assert_eq!(run.state.progress.parallel, None);
    let run = run.stored(false, InstallJobStatus::Queued);
    assert!(matches!(run.stage, RunStage::Done));
    assert_eq!(run.state, before);

    let run = JobRun::begin(before.clone(), RunOutcome::WaitingForUser(missing(&["a"])), false);
    let run = run.stored(false, InstallJobStatus::Canceling);
    assert!(!kinds(&run.state)
        .iter()
        .any(|kind| matches!(kind, InstallJobEventKind::WaitingForUser { .. })));
    assert_eq!(run.state.progress.parallel, counter());

    let run = JobRun::begin(before, RunOutcome::WaitingForUser(missing(&["a"])), false);
    assert!(matches!(run.stored(true, InstallJobStatus::Running).stage, RunStage::Waiting));
}

#[test]
fn failed_runs_are_cleaned_up_before_they_are_stored() {
    let state = InstallJobState::new(new_request());
    let run = JobRun::begin(state, RunOutcome::Failed(failure("down")), false);
    assert!(matches!(&run.stage, RunStage::CleaningUp { end: RunEnd::Failed(_) }));
    assert_eq!(run.state.error.clone().unwrap().code, "network_error");
    let run = run.cleaned(None);
    match &run.stage {
        RunStage::Storing { end } => assert_eq!(end.status(), InstallJobStatus::Failed),
        stage => panic!("unexpected stage {stage:?}"),
    }
    let state = InstallJobState::new(java_request());
    let run = JobRun::begin(state, RunOutcome::Canceled, false).cleaned(Some(failure("disk")));
    match &run.stage {
        RunStage::Storing { end } => assert_eq!(end.status(), InstallJobStatus::Canceled),
        stage => panic!("unexpected stage {stage:?}"),
    }
    assert_eq!(run.state.rollback_error.unwrap().code, "network_error");
}

fn code(phase: InstallPhaseId, raw: ErrorKind) -> &'static str {
    install_error_code(phase, &Error { raw, text: String::new(), api: None })
}

#[test]
fn error_codes_depend_on_the_phase() {
    let input = || ErrorKind::InputError("bad".to_string());
    for (phase, expected) in [
        (InstallPhaseId::PreparingInstance, "instance_error"),
        (InstallPhaseId::ResolvingPack, "pack_error"),
        (InstallPhaseId::DownloadingPackFile, "pack_error"),
        (InstallPhaseId::ReadingPackManifest, "pack_error"),
        (InstallPhaseId::DownloadingContent, "content_error"),
        (InstallPhaseId::ExtractingOverrides, "path_error"),
        (InstallPhaseId::ResolvingMinecraft, "launcher_error"),
        (InstallPhaseId::ResolvingLoader, "launcher_error"),
        (InstallPhaseId::PreparingJava, "java_error"),
        (InstallPhaseId::DownloadingMinecraft, "instance_error"),
        (InstallPhaseId::RunningLoaderProcessors, "launcher_error"),
        (InstallPhaseId::Finalizing, "instance_error"),
        (InstallPhaseId::RollingBack, "rollback_error"),
    ] {
        assert_eq!(code(phase, input()), expected);
    }
    let unknown = || ErrorKind::InputError("Unrecognized modpack format: x".to_string());
    assert_eq!(code(InstallPhaseId::ResolvingPack, unknown()), "unrecognized_format");
    assert_eq!(code(InstallPhaseId::DownloadingPackFile, unknown()), "pack_error");
    let launcher = || ErrorKind::LauncherError("x".to_string());
    assert_eq!(code(InstallPhaseId::RunningLoaderProcessors, launcher()), "processor_error");
    assert_eq!(code(InstallPhaseId::PreparingJava, launcher()), "java_error");
    assert_eq!(code(InstallPhaseId::ResolvingLoader, launcher()), "loader_error");
    assert_eq!(code(InstallPhaseId::Finalizing, launcher()), "launcher_error");
    let metadata = || ErrorKind::NoValueFor("x".to_string());
    assert_eq!(code(InstallPhaseId::ResolvingLoader, metadata()), "loader_error");
    assert_eq!(code(InstallPhaseId::PreparingJava, metadata()), "java_error");
    assert_eq!(code(InstallPhaseId::Finalizing, metadata()), "metadata_error");
    let any = || ErrorKind::Any("x".to_string());
    assert_eq!(code(InstallPhaseId::DownloadingContent, any()), "network_error");
    assert_eq!(code(InstallPhaseId::Finalizing, any()), "internal_error");
}

#[test]
fn error_codes_of_the_other_kinds() {
    let phase = InstallPhaseId::Finalizing;
    let x = || "x".to_string();
    for (raw, expected) in [
        (ErrorKind::JREError(x()), "java_error"),
        (ErrorKind::FetchError(x()), "network_error"),
        (ErrorKind::HttpError { status: 404, url: x() }, "network_error"),
        (ErrorKind::ApiIsDownError(x()), "network_error"),
        (ErrorKind::LabrinthError(x()), "api_error"),
        (ErrorKind::HashError(x(), x()), "hash_error"),
        (ErrorKind::ZipError(x()), "archive_error"),
        (ErrorKind::DeserializationError(x()), "path_error"),
        (ErrorKind::StripPrefixError(x()), "path_error"),
        (ErrorKind::FSError(x()), "filesystem_error"),
        (ErrorKind::IOError(x()), "filesystem_error"),
        (ErrorKind::StdIOError(x()), "filesystem_error"),
        (ErrorKind::UTFError(x()), "filesystem_error"),
        (ErrorKind::INIError(x()), "parse_error"),
        (ErrorKind::JSONError(x()), "parse_error"),
        (ErrorKind::SqlxMigrate(x()), "database_error"),
        (ErrorKind::JoinError(x()), "internal_error"),
        (ErrorKind::RecvError(x()), "internal_error"),
        (ErrorKind::AcquireError(x()), "internal_error"),
        (ErrorKind::EventError(x()), "internal_error"),
        (ErrorKind::OtherError(x()), "internal_error"),
        (ErrorKind::Unclassified(x()), "unknown_error"),
    ] {
        assert_eq!(code(phase, raw), expected);
    }
    assert_eq!(InstallErrorCode::CacheRepairRequired.as_str(), "cache_repair_required");
}

#[test]
fn failed_cache_reads_keep_the_context_of_the_job() {
    let error = Error {
        raw: ErrorKind::CacheReadError {
            cache_type: "project".to_string(),
            message: "bad row".to_string(),
            sqlite_code: None,
        },
        text: "bad row".to_string(),
        api: None,
    };
    let known = InstallErrorContext::new("download modpack file")
        .project_id("p".to_string())
        .version_id("v".to_string())
        .build();
    let view = install_error_view(InstallPhaseId::ResolvingPack, &error, Some(known));
    let context = view.context.unwrap();
    assert_eq!(context.operation, "download modpack file");
    assert_eq!(context.project_id.as_deref(), Some("p"));
    assert_eq!(context.cache_types, vec!["project"]);
    let view = install_error_view(InstallPhaseId::ResolvingPack, &error, None);
    assert_eq!(view.context.unwrap().operation, "read project metadata cache");
}

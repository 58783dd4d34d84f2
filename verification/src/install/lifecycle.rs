//! How the state of a job changes when it is resumed, paused, canceled,
//! completed or rolled back.
use vstd::prelude::*;

use crate::error::Error;

use super::errors::{install_error_view, is_error_view};
use super::model::{
    InstallCleanup, InstallErrorContext, InstallErrorView, InstallJobDisplay, InstallJobEvent,
    InstallJobEventKind, InstallJobState, InstallPauseReason, InstallPhaseDetails, InstallPhaseId,
    InstallProgressState, InstallRequest, InstallTarget,
};

verus! {

/// The event that stands for `kind` in a history.
pub open spec fn event(kind: InstallJobEventKind) -> InstallJobEvent {
    InstallJobEvent { kind }
}

/// Whether the history `after` is `before` and then no start of a rollback.
pub open spec fn adds_no_rollback(before: Seq<InstallJobEvent>, after: Seq<InstallJobEvent>) -> bool {
    &&& before.is_prefix_of(after)
    &&& forall|i: int|
        before.len() <= i < after.len() ==> !((#[trigger] after[i]).kind is RollbackStarted)
}

/// The target, once the instance is known.
pub open spec fn target_with(target: InstallTarget, instance_id: String) -> InstallTarget {
    match target {
        InstallTarget::ExistingInstance { .. } => InstallTarget::ExistingInstance { instance_id },
        InstallTarget::NewInstance { .. } => InstallTarget::NewInstance {
            instance_id: Some(instance_id),
        },
    }
}

/// The cleanup, once the instance is known.
pub open spec fn cleanup_with(cleanup: InstallCleanup, instance_id: String) -> InstallCleanup {
    match cleanup {
        InstallCleanup::RestoreExistingInstance { .. } => InstallCleanup::RestoreExistingInstance {
            instance_id,
        },
        InstallCleanup::DeleteNewInstance { .. } => InstallCleanup::DeleteNewInstance {
            instance_id: Some(instance_id),
        },
        InstallCleanup::NoCleanup => InstallCleanup::NoCleanup,
    }
}

/// Makes `instance_id` the instance that the job works on and, if it fails, undoes.
pub fn set_instance_id(job_state: &mut InstallJobState, instance_id: String)
    ensures
        *final(job_state) == (InstallJobState {
            target: target_with(old(job_state).target, instance_id),
            cleanup: cleanup_with(old(job_state).cleanup, instance_id),
            ..*old(job_state)
        }),
{
    let target = match &job_state.target {
        InstallTarget::ExistingInstance { .. } => InstallTarget::ExistingInstance {
            instance_id: instance_id.clone(),
        },
        InstallTarget::NewInstance { .. } => InstallTarget::NewInstance {
            instance_id: Some(instance_id.clone()),
        },
    };
    let cleanup = match &job_state.cleanup {
        InstallCleanup::RestoreExistingInstance { .. } => InstallCleanup::RestoreExistingInstance {
            instance_id,
        },
        InstallCleanup::DeleteNewInstance { .. } => InstallCleanup::DeleteNewInstance {
            instance_id: Some(instance_id),
        },
        InstallCleanup::NoCleanup => InstallCleanup::NoCleanup,
    };
    job_state.target = target;
    job_state.cleanup = cleanup;
}

/// The state without the instance that its cleanup has deleted.
pub open spec fn without_deleted_instance(state: InstallJobState) -> InstallJobState {
    if state.cleanup is DeleteNewInstance {
        InstallJobState {
            target: InstallTarget::NewInstance { instance_id: None },
            cleanup: InstallCleanup::DeleteNewInstance { instance_id: None },
            ..state
        }
    } else {
        state
    }
}

/// Forgets the new instance, once it is deleted.
pub fn clear_deleted_new_instance_id(job_state: &mut InstallJobState)
    ensures
        *final(job_state) == without_deleted_instance(*old(job_state)),
{
    if let InstallCleanup::DeleteNewInstance { .. } = &job_state.cleanup {
        job_state.target = InstallTarget::NewInstance { instance_id: None };
        job_state.cleanup = InstallCleanup::DeleteNewInstance { instance_id: None };
    }
}

/// Sets what the user sees of the job.
pub fn set_display(job_state: &mut InstallJobState, title: String, icon: Option<String>)
    ensures
        *final(job_state) == (InstallJobState {
            display: Some(InstallJobDisplay { title, icon }),
            ..*old(job_state)
        }),
{
    job_state.display = Some(InstallJobDisplay { title, icon });
}

/// The instance that a target names.
pub open spec fn target_instance(target: InstallTarget) -> Option<String> {
    match target {
        InstallTarget::NewInstance { instance_id } => instance_id,
        InstallTarget::ExistingInstance { instance_id } => Some(instance_id),
    }
}

/// The instance that the job works on, once it is known.
pub fn current_instance_id(job_state: &InstallJobState) -> (r: Option<String>)
    ensures
        r == target_instance(job_state.target),
{
    match &job_state.target {
        InstallTarget::NewInstance { instance_id } => instance_id.clone(),
        InstallTarget::ExistingInstance { instance_id } => Some(instance_id.clone()),
    }
}

/// How a waiting job goes back into the queue: what it knew of the pause and
/// of errors is gone, all else stays.
pub open spec fn resumed(before: InstallJobState, after: InstallJobState) -> bool {
    &&& after == (InstallJobState {
        pause_reason: None,
        error: None,
        rollback_error: None,
        context: None,
        active_downloads: after.active_downloads,
        events: after.events,
        ..before
    })
    &&& after.active_downloads@.len() == 0
    &&& after.events@ == before.events@.push(
        event(InstallJobEventKind::JobQueued { kind: before.request.job_kind() }),
    )
}

/// Puts a waiting job back into the queue.
pub fn prepare_resumed_job(job_state: &mut InstallJobState)
    ensures
        resumed(*old(job_state), *final(job_state)),
{
    job_state.pause_reason = None;
    job_state.error = None;
    job_state.rollback_error = None;
    job_state.context = None;
    job_state.active_downloads.clear();
    let kind = job_state.request.kind();
    job_state.record_event(InstallJobEventKind::JobQueued { kind });
}

/// How a job is reset before it runs once more from the start.
pub open spec fn reset(before: InstallJobState, after: InstallJobState) -> bool {
    after == (InstallJobState {
        target: before.request.first_target(),
        cleanup: before.request.first_cleanup(),
        rollback: None,
        error: None,
        rollback_error: None,
        pause_reason: None,
        continuation: None,
        context: None,
        progress: InstallProgressState {
            phase: InstallPhaseId::PreparingInstance,
            progress: None,
            details: InstallPhaseDetails::Empty,
            parallel: None,
        },
        ..before
    })
}

/// Resets a job that runs once more from the start.
pub fn reset_for_retry(job_state: &mut InstallJobState)
    ensures
        reset(*old(job_state), *final(job_state)),
{
    job_state.target = job_state.request.target();
    job_state.cleanup = job_state.request.cleanup();
    job_state.rollback = None;
    job_state.error = None;
    job_state.rollback_error = None;
    job_state.pause_reason = None;
    job_state.continuation = None;
    job_state.context = None;
    job_state.progress.phase = InstallPhaseId::PreparingInstance;
    job_state.progress.progress = None;
    job_state.progress.details = InstallPhaseDetails::Empty;
    job_state.progress.parallel = None;
}

/// Records that the job waits in the queue again.
pub fn record_queued(job_state: &mut InstallJobState)
    ensures
        *final(job_state) == (InstallJobState { events: final(job_state).events, ..*old(job_state) }),
        final(job_state).events@ == old(job_state).events@.push(
            event(InstallJobEventKind::JobQueued { kind: old(job_state).request.job_kind() }),
        ),
{
    let kind = job_state.request.kind();
    job_state.record_event(InstallJobEventKind::JobQueued { kind });
}

/// How a running job starts to wait for the user.
pub open spec fn paused(
    before: InstallJobState,
    reason: InstallPauseReason,
    after: InstallJobState,
) -> bool {
    &&& after == (InstallJobState {
        pause_reason: after.pause_reason,
        error: None,
        rollback_error: None,
        context: None,
        progress: InstallProgressState { parallel: None, ..before.progress },
        events: after.events,
        ..before
    })
    &&& after.pause_reason is Some
    &&& after.pause_reason->0@ == reason@
    &&& after.events@ == before.events@.push(event(InstallJobEventKind::WaitingForUser { reason }))
}

/// Makes a running job wait for the user.
pub fn begin_waiting_for_user(job_state: &mut InstallJobState, reason: InstallPauseReason)
    ensures
        paused(*old(job_state), reason, *final(job_state)),
{
    job_state.pause_reason = Some(reason.clone());
    job_state.error = None;
    job_state.rollback_error = None;
    job_state.context = None;
    job_state.progress.parallel = None;
    job_state.record_event(InstallJobEventKind::WaitingForUser { reason });
}

/// What the user is told of a cancellation in `phase`.
pub open spec fn is_canceled_view(view: InstallErrorView, phase: InstallPhaseId) -> bool {
    &&& view.code@ == "canceled"@
    &&& view.phase == Some(phase)
    &&& view.message@ == "Install was canceled"@
    &&& view.api is None
    &&& view.context is None
}

/// How a job is canceled: its rollback starts from the cleanup that it has.
/// Unless `clears_parallel`, the counters of parallel work stay.
pub open spec fn canceled(
    before: InstallJobState,
    clears_parallel: bool,
    after: InstallJobState,
) -> bool {
    &&& after == (InstallJobState {
        error: after.error,
        pause_reason: None,
        progress: InstallProgressState {
            phase: InstallPhaseId::RollingBack,
            progress: None,
            details: InstallPhaseDetails::Empty,
            parallel: if clears_parallel {
                None
            } else {
                before.progress.parallel
            },
        },
        events: after.events,
        ..before
    })
    &&& after.error is Some
    &&& is_canceled_view(after.error->0, before.progress.phase)
    &&& after.events@ == before.events@ + seq![
        event(InstallJobEventKind::JobCanceled { phase: before.progress.phase }),
        event(InstallJobEventKind::RollbackStarted { cleanup: before.cleanup }),
    ]
}

fn cancel_state(job_state: &mut InstallJobState, clears_parallel: bool)
    ensures
        canceled(*old(job_state), clears_parallel, *final(job_state)),
{
    let phase = job_state.progress.phase;
    job_state.error = Some(
        InstallErrorView::from_message("canceled", phase, "Install was canceled"),
    );
    job_state.pause_reason = None;
    job_state.record_event(InstallJobEventKind::JobCanceled { phase });
    job_state.progress.phase = InstallPhaseId::RollingBack;
    job_state.progress.progress = None;
    job_state.progress.details = InstallPhaseDetails::Empty;
    if clears_parallel {
        job_state.progress.parallel = None;
    }
    let cleanup = job_state.cleanup.clone();
    job_state.record_event(InstallJobEventKind::RollbackStarted { cleanup });
    assert(job_state.events@ =~= old(job_state).events@ + seq![
        event(InstallJobEventKind::JobCanceled { phase }),
        event(InstallJobEventKind::RollbackStarted { cleanup }),
    ]);
}

/// Starts to cancel a job that is queued or waits for the user.
pub fn begin_canceling_job(job_state: &mut InstallJobState)
    ensures
        canceled(*old(job_state), true, *final(job_state)),
{
    cancel_state(job_state, true)
}

/// Starts to cancel a job that has run.
pub fn begin_canceling_run(job_state: &mut InstallJobState)
    ensures
        canceled(*old(job_state), false, *final(job_state)),
{
    cancel_state(job_state, false)
}

/// How a job that failed with `error` starts to be rolled back.
pub open spec fn failed(before: InstallJobState, error: Error, after: InstallJobState) -> bool {
    &&& after == (InstallJobState {
        error: after.error,
        progress: InstallProgressState {
            phase: InstallPhaseId::RollingBack,
            progress: None,
            details: InstallPhaseDetails::Empty,
            parallel: None,
        },
        events: after.events,
        ..before
    })
    &&& after.error is Some
    &&& exists|context: Option<InstallErrorContext>|
        {
            &&& #[trigger] is_error_view(after.error->0, before.progress.phase, error, context)
            &&& same_context(context, before.context)
        }
    &&& after.events@ == before.events@ + seq![
        event(
            InstallJobEventKind::Failed {
                phase: before.progress.phase,
                code: after.error->0.code,
                message: after.error->0.message,
            },
        ),
        event(InstallJobEventKind::RollbackStarted { cleanup: before.cleanup }),
    ]
}

/// Whether two contexts, if there are any, say the same.
pub open spec fn same_context(
    a: Option<InstallErrorContext>,
    b: Option<InstallErrorContext>,
) -> bool {
    match (a, b) {
        (Some(x), Some(y)) => x.same(y),
        (None, None) => true,
        _ => false,
    }
}

/// Starts to roll back a job that failed with `error`.
pub fn begin_failed_job_rollback(job_state: &mut InstallJobState, error: &Error)
    ensures
        failed(*old(job_state), *error, *final(job_state)),
{
    let phase = job_state.progress.phase;
    let context = match &job_state.context {
        Some(context) => Some(context.clone()),
        None => None,
    };
    let ghost shown = context;
    let view = install_error_view(phase, error, context);
    assert(is_error_view(view, phase, *error, shown));
    let code = view.code.clone();
    let message = view.message.clone();
    let ghost told = event(InstallJobEventKind::Failed { phase, code, message });
    job_state.record_event(InstallJobEventKind::Failed { phase, code, message });
    job_state.error = Some(view);
    job_state.progress.phase = InstallPhaseId::RollingBack;
    job_state.progress.progress = None;
    job_state.progress.details = InstallPhaseDetails::Empty;
    job_state.progress.parallel = None;
    let cleanup = job_state.cleanup.clone();
    job_state.record_event(InstallJobEventKind::RollbackStarted { cleanup });
    assert(job_state.events@ =~= old(job_state).events@ + seq![
        told,
        event(InstallJobEventKind::RollbackStarted { cleanup }),
    ]);
}

/// How a rollback that worked ends.
pub open spec fn rolled_back(before: InstallJobState, after: InstallJobState) -> bool {
    &&& after == without_deleted_instance(InstallJobState { events: after.events, ..before })
    &&& after.events@ == before.events@.push(event(InstallJobEventKind::RollbackCompleted))
}

/// Ends a rollback that worked.
pub fn complete_rollback(job_state: &mut InstallJobState)
    ensures
        rolled_back(*old(job_state), *final(job_state)),
{
    job_state.record_event(InstallJobEventKind::RollbackCompleted);
    clear_deleted_new_instance_id(job_state);
}

/// How the error of a rollback is named to the user.
#[derive(Clone, Copy, Debug, PartialEq, Eq, Structural)]
pub enum RollbackReport {
    /// By its class, as any other error is.
    Classified,
    /// As a failed rollback, whatever the error is.
    Plain,
}

/// What the user is told of an error of the rollback.
pub open spec fn is_rollback_view(
    view: InstallErrorView,
    error: Error,
    report: RollbackReport,
) -> bool {
    match report {
        RollbackReport::Classified => is_error_view(
            view,
            InstallPhaseId::RollingBack,
            error,
            None,
        ),
        RollbackReport::Plain => {
            &&& view.code@ == "rollback_error"@
            &&& view.phase == Some(InstallPhaseId::RollingBack)
            &&& view.message == error.text
            &&& view.api == error.api
            &&& view.context is None
        },
    }
}

/// How a rollback that failed with `error` ends.
pub open spec fn rollback_failed(
    before: InstallJobState,
    error: Error,
    report: RollbackReport,
    after: InstallJobState,
) -> bool {
    &&& after == (InstallJobState {
        rollback_error: after.rollback_error,
        events: after.events,
        ..before
    })
    &&& after.rollback_error is Some
    &&& is_rollback_view(after.rollback_error->0, error, report)
    &&& after.events@ == before.events@.push(
        event(InstallJobEventKind::RollbackFailed { message: error.text }),
    )
}

/// Ends a rollback that failed with `error`.
pub fn fail_rollback(job_state: &mut InstallJobState, error: &Error, report: RollbackReport)
    ensures
        rollback_failed(*old(job_state), *error, report, *final(job_state)),
{
    let view = match report {
        RollbackReport::Classified => install_error_view(
            InstallPhaseId::RollingBack,
            error,
            None,
        ),
        RollbackReport::Plain => InstallErrorView::from_error(
            "rollback_error",
            InstallPhaseId::RollingBack,
            error,
            None,
        ),
    };
    job_state.rollback_error = Some(view);
    let message = error.text.clone();
    job_state.record_event(InstallJobEventKind::RollbackFailed { message });
}

/// How a rollback ends, with or without an error.
pub open spec fn cleanup_ended(
    before: InstallJobState,
    error: Option<Error>,
    report: RollbackReport,
    after: InstallJobState,
) -> bool {
    match error {
        Some(error) => rollback_failed(before, error, report, after),
        None => rolled_back(before, after),
    }
}

/// Ends a rollback, with or without an error.
pub fn finish_cleanup(
    job_state: &mut InstallJobState,
    error: &Option<Error>,
    report: RollbackReport,
)
    ensures
        cleanup_ended(*old(job_state), *error, report, *final(job_state)),
{
    match error {
        Some(error) => fail_rollback(job_state, error, report),
        None => complete_rollback(job_state),
    }
}

/// How a job that has done its work ends.
pub open spec fn succeeded(before: InstallJobState, after: InstallJobState) -> bool {
    &&& after == (InstallJobState {
        progress: InstallProgressState {
            phase: InstallPhaseId::Finalizing,
            progress: None,
            details: InstallPhaseDetails::Empty,
            parallel: None,
        },
        error: None,
        rollback_error: None,
        pause_reason: None,
        continuation: None,
        missing_content: None,
        skipped_missing_content_paths: after.skipped_missing_content_paths,
        context: None,
        events: after.events,
        ..before
    })
    &&& after.skipped_missing_content_paths@.len() == 0
    &&& after.events@ == before.events@.push(
        event(InstallJobEventKind::JobSucceeded { instance_id: target_instance(before.target) }),
    )
}

/// Ends a job that has done its work.
pub fn finish_succeeded_job(job_state: &mut InstallJobState)
    ensures
        succeeded(*old(job_state), *final(job_state)),
{
    let instance_id = current_instance_id(job_state);
    job_state.record_event(InstallJobEventKind::JobSucceeded { instance_id });
    job_state.progress.phase = InstallPhaseId::Finalizing;
    job_state.progress.progress = None;
    job_state.progress.details = InstallPhaseDetails::Empty;
    job_state.progress.parallel = None;
    job_state.error = None;
    job_state.rollback_error = None;
    job_state.pause_reason = None;
    job_state.continuation = None;
    job_state.missing_content = None;
    job_state.skipped_missing_content_paths.clear();
    job_state.context = None;
}

/// The instance that a job creates is the one that it works on, and the one that
/// is deleted if the job fails.
pub proof fn law_a_failure_deletes_the_new_instance(
    request: InstallRequest,
    instance_id: String,
)
    requires
        request.first_cleanup() is DeleteNewInstance,
    ensures
        target_instance(target_with(request.first_target(), instance_id)) == Some(instance_id),
        cleanup_with(request.first_cleanup(), instance_id) == (InstallCleanup::DeleteNewInstance {
            instance_id: Some(instance_id),
        }),
{
}

/// A job that runs once more from the start takes nothing over from its last run:
/// neither what undoes it nor its checkpoint, nor an instance that it created.
pub proof fn law_retry_forgets_the_last_run(before: InstallJobState, after: InstallJobState)
    requires
        reset(before, after),
    ensures
        after.request == before.request,
        after.rollback is None,
        after.continuation is None,
        after.error is None,
        after.pause_reason is None,
        after.cleanup is DeleteNewInstance ==> target_instance(after.target) is None,
{
}

/// Resuming a job keeps the instance that it works on, the plan for undoing
/// it, its checkpoint and its whole history, and starts no rollback.
pub proof fn law_resume_keeps_the_plan(before: InstallJobState, after: InstallJobState)
    requires
        resumed(before, after),
    ensures
        after.target == before.target,
        after.cleanup == before.cleanup,
        after.rollback == before.rollback,
        after.continuation == before.continuation,
        after.skipped_missing_content_paths == before.skipped_missing_content_paths,
        after.pause_reason is None,
        adds_no_rollback(before.events@, after.events@),
{
}

/// Pausing a job starts no rollback and keeps its phase, its instance, the
/// plan for undoing it and its checkpoint.
pub proof fn law_pause_starts_no_rollback(
    before: InstallJobState,
    reason: InstallPauseReason,
    after: InstallJobState,
)
    requires
        paused(before, reason, after),
    ensures
        after.progress.phase == before.progress.phase,
        after.target == before.target,
        after.cleanup == before.cleanup,
        after.rollback == before.rollback,
        after.continuation == before.continuation,
        after.error is None,
        adds_no_rollback(before.events@, after.events@),
{
}

/// A resumed job can pause again: the new reason replaces the old one, and
/// between the two no rollback starts.
pub proof fn law_resumed_job_can_pause_again(
    before: InstallJobState,
    queued: InstallJobState,
    reason: InstallPauseReason,
    after: InstallJobState,
)
    requires
        resumed(before, queued),
        paused(queued, reason, after),
    ensures
        after.pause_reason is Some,
        after.pause_reason->0@ == reason@,
        after.target == before.target,
        after.cleanup == before.cleanup,
        adds_no_rollback(before.events@, after.events@),
{
    assert(before.events@.is_prefix_of(after.events@));
}

/// Canceling a job keeps the plan for undoing it, and the rollback starts from
/// that plan.
pub proof fn law_cancel_keeps_the_cleanup_plan(
    before: InstallJobState,
    clears_parallel: bool,
    after: InstallJobState,
)
    requires
        canceled(before, clears_parallel, after),
    ensures
        after.cleanup == before.cleanup,
        after.rollback == before.rollback,
        after.pause_reason is None,
        after.progress.phase == InstallPhaseId::RollingBack,
        after.events@.last() == event(
            InstallJobEventKind::RollbackStarted { cleanup: before.cleanup },
        ),
{
}

/// A failure is never turned into a pause: the job rolls back from the plan it
/// has, and its history names the phase that failed.
pub proof fn law_failures_roll_back(before: InstallJobState, error: Error, after: InstallJobState)
    requires
        failed(before, error, after),
    ensures
        after.pause_reason == before.pause_reason,
        after.cleanup == before.cleanup,
        after.progress.phase == InstallPhaseId::RollingBack,
        after.events@.last() == event(
            InstallJobEventKind::RollbackStarted { cleanup: before.cleanup },
        ),
        after.events@[before.events@.len() as int].kind is Failed,
        after.events@[before.events@.len() as int].kind->Failed_phase == before.progress.phase,
{
}

/// A job that created an instance no longer names it once the rollback has
/// deleted it, so that a later run cannot take it for its own; a rollback that
/// failed leaves the instance named.
pub proof fn law_only_a_finished_rollback_forgets_the_instance(
    before: InstallJobState,
    error: Option<Error>,
    report: RollbackReport,
    after: InstallJobState,
)
    requires
        cleanup_ended(before, error, report, after),
        before.cleanup is DeleteNewInstance,
    ensures
        error is None ==> target_instance(after.target) is None,
        error is Some ==> after.target == before.target && after.cleanup == before.cleanup,
{
}

/// Once the instance of a job is known, the job is for that instance, and so is what
/// undoes it. Whether it is a new one, and what undoing does, stays as it was.
pub proof fn law_instances_are_noted(target: InstallTarget, cleanup: InstallCleanup, id: String)
    ensures
        target_instance(target_with(target, id)) == Some(id),
        target_with(target, id) is NewInstance <==> target is NewInstance,
        cleanup_with(cleanup, id) is DeleteNewInstance <==> cleanup is DeleteNewInstance,
        cleanup_with(cleanup, id) is RestoreExistingInstance <==> cleanup
            is RestoreExistingInstance,
        cleanup is DeleteNewInstance ==> cleanup_with(
            cleanup,
            id,
        )->DeleteNewInstance_instance_id == Some(id),
        cleanup is RestoreExistingInstance ==> cleanup_with(
            cleanup,
            id,
        )->RestoreExistingInstance_instance_id == id,
{
}

/// The instance of a job is the one that its target names.
pub proof fn law_the_target_names_the_instance(target: InstallTarget)
    ensures
        target is ExistingInstance ==> target_instance(target) == Some(
            target->ExistingInstance_instance_id,
        ),
        target is NewInstance ==> target_instance(target) == target->NewInstance_instance_id,
{
}

/// A new instance that was deleted is forgotten, and an instance that was there before
/// never is. Nothing else is touched.
pub proof fn law_deleted_instances_are_forgotten(state: InstallJobState)
    ensures
        ({
            let after = without_deleted_instance(state);
            &&& state.cleanup is DeleteNewInstance ==> {
                &&& after.target == (InstallTarget::NewInstance { instance_id: None })
                &&& after.cleanup == (InstallCleanup::DeleteNewInstance { instance_id: None })
            }
            &&& !(state.cleanup is DeleteNewInstance) ==> {
                &&& after.target == state.target
                &&& after.cleanup == state.cleanup
            }
            &&& after.request == state.request
            &&& after.rollback == state.rollback
            &&& after.error == state.error
            &&& after.rollback_error == state.rollback_error
            &&& after.pause_reason == state.pause_reason
            &&& after.continuation == state.continuation
            &&& after.context == state.context
            &&& after.progress == state.progress
            &&& after.display == state.display
            &&& after.events == state.events
            &&& after.active_downloads == state.active_downloads
            &&& after.missing_content == state.missing_content
            &&& after.skipped_missing_content_paths == state.skipped_missing_content_paths
        }),
{
}

/// A job that goes on is queued again: why it stopped and what was being downloaded is
/// forgotten, and everything else is as it was.
pub proof fn law_resumed_jobs_are_queued(before: InstallJobState, after: InstallJobState)
    requires
        resumed(before, after),
    ensures
        after.request == before.request,
        after.target == before.target,
        after.cleanup == before.cleanup,
        after.rollback == before.rollback,
        after.continuation == before.continuation,
        after.progress == before.progress,
        after.display == before.display,
        after.missing_content == before.missing_content,
        after.skipped_missing_content_paths == before.skipped_missing_content_paths,
        after.error is None,
        after.rollback_error is None,
        after.pause_reason is None,
        after.context is None,
        after.active_downloads@.len() == 0,
        after.events@.len() == before.events@.len() + 1,
        before.events@.is_prefix_of(after.events@),
        after.events@.last().kind == (InstallJobEventKind::JobQueued {
            kind: before.request.job_kind(),
        }),
{
}

/// A job that is tried again starts as a new job with its request would; what was told
/// of it so far, and what the user skipped, is kept.
pub proof fn law_retried_jobs_start_over(before: InstallJobState, after: InstallJobState)
    requires
        reset(before, after),
    ensures
        after.request == before.request,
        after.target == before.request.first_target(),
        after.cleanup == before.request.first_cleanup(),
        after.rollback is None,
        after.error is None,
        after.rollback_error is None,
        after.pause_reason is None,
        after.continuation is None,
        after.context is None,
        after.progress.phase == InstallPhaseId::PreparingInstance,
        after.progress.progress is None,
        after.progress.details == InstallPhaseDetails::Empty,
        after.progress.parallel is None,
        after.display == before.display,
        after.events == before.events,
        after.active_downloads == before.active_downloads,
        after.missing_content == before.missing_content,
        after.skipped_missing_content_paths == before.skipped_missing_content_paths,
{
}

/// A job that waits for the user says why, stays where it is and forgets earlier
/// errors.
pub proof fn law_waiting_jobs_say_why(
    before: InstallJobState,
    reason: InstallPauseReason,
    after: InstallJobState,
)
    requires
        paused(before, reason, after),
    ensures
        after.pause_reason is Some,
        after.pause_reason->0@ == reason@,
        after.events@.len() == before.events@.len() + 1,
        before.events@.is_prefix_of(after.events@),
        after.events@.last().kind == (InstallJobEventKind::WaitingForUser { reason }),
        after.error is None,
        after.rollback_error is None,
        after.context is None,
        after.progress.phase == before.progress.phase,
        after.progress.progress == before.progress.progress,
        after.progress.details == before.progress.details,
        after.progress.parallel is None,
        after.request == before.request,
        after.target == before.target,
        after.cleanup == before.cleanup,
        after.rollback == before.rollback,
        after.continuation == before.continuation,
        after.display == before.display,
        after.active_downloads == before.active_downloads,
        after.missing_content == before.missing_content,
        after.skipped_missing_content_paths == before.skipped_missing_content_paths,
{
}

/// A job that is canceled says where it was, and is then undone as planned.
pub proof fn law_canceled_jobs_are_undone(
    before: InstallJobState,
    clears_parallel: bool,
    after: InstallJobState,
)
    requires
        canceled(before, clears_parallel, after),
    ensures
        after.error is Some,
        after.error->0.code@ == "canceled"@,
        after.error->0.message@ == "Install was canceled"@,
        after.error->0.phase == Some(before.progress.phase),
        after.error->0.api is None,
        after.error->0.context is None,
        after.progress.phase == InstallPhaseId::RollingBack,
        after.progress.progress is None,
        after.progress.details == InstallPhaseDetails::Empty,
        clears_parallel ==> after.progress.parallel is None,
        !clears_parallel ==> after.progress.parallel == before.progress.parallel,
        after.pause_reason is None,
        after.events@.len() == before.events@.len() + 2,
        before.events@.is_prefix_of(after.events@),
        after.events@[before.events@.len() as int].kind == (InstallJobEventKind::JobCanceled {
            phase: before.progress.phase,
        }),
        after.events@.last().kind == (InstallJobEventKind::RollbackStarted {
            cleanup: before.cleanup,
        }),
        after.request == before.request,
        after.target == before.target,
        after.cleanup == before.cleanup,
        after.rollback == before.rollback,
        after.rollback_error == before.rollback_error,
        after.continuation == before.continuation,
        after.context == before.context,
        after.display == before.display,
        after.active_downloads == before.active_downloads,
        after.missing_content == before.missing_content,
        after.skipped_missing_content_paths == before.skipped_missing_content_paths,
{
}

/// A job that fails says where it was and what was wrong, and is then undone as
/// planned.
pub proof fn law_failed_jobs_are_undone(
    before: InstallJobState,
    error: Error,
    after: InstallJobState,
)
    requires
        failed(before, error, after),
    ensures
        after.error is Some,
        after.error->0.phase == Some(before.progress.phase),
        after.progress.phase == InstallPhaseId::RollingBack,
        after.progress.progress is None,
        after.progress.details == InstallPhaseDetails::Empty,
        after.progress.parallel is None,
        after.events@.len() == before.events@.len() + 2,
        before.events@.is_prefix_of(after.events@),
        after.events@[before.events@.len() as int].kind == (InstallJobEventKind::Failed {
            phase: before.progress.phase,
            code: after.error->0.code,
            message: after.error->0.message,
        }),
        after.events@.last().kind == (InstallJobEventKind::RollbackStarted {
            cleanup: before.cleanup,
        }),
        after.request == before.request,
        after.target == before.target,
        after.cleanup == before.cleanup,
        after.rollback == before.rollback,
        after.rollback_error == before.rollback_error,
        after.pause_reason == before.pause_reason,
        after.continuation == before.continuation,
        after.context == before.context,
        after.display == before.display,
        after.active_downloads == before.active_downloads,
        after.missing_content == before.missing_content,
        after.skipped_missing_content_paths == before.skipped_missing_content_paths,
{
}

/// The end of what undoes a job is told: that it is done, or why it is not. Why the job
/// was undone stays known either way, and the error of the undoing is kept beside it.
pub proof fn law_the_end_of_a_rollback_is_told(
    before: InstallJobState,
    error: Option<Error>,
    report: RollbackReport,
    after: InstallJobState,
)
    requires
        cleanup_ended(before, error, report, after),
    ensures
        after.events@.len() == before.events@.len() + 1,
        before.events@.is_prefix_of(after.events@),
        error is None ==> after.events@.last().kind == InstallJobEventKind::RollbackCompleted
            && after.rollback_error == before.rollback_error,
        error matches Some(e) ==> {
            &&& after.events@.last().kind == (InstallJobEventKind::RollbackFailed {
                message: e.text,
            })
            &&& after.rollback_error is Some
            &&& after.rollback_error->0.phase == Some(InstallPhaseId::RollingBack)
            &&& report is Plain ==> {
                &&& after.rollback_error->0.code@ == "rollback_error"@
                &&& after.rollback_error->0.message == e.text
                &&& after.rollback_error->0.api == e.api
                &&& after.rollback_error->0.context is None
            }
            &&& after.target == before.target
            &&& after.cleanup == before.cleanup
        },
        !(before.cleanup is DeleteNewInstance) ==> after.target == before.target && after.cleanup
            == before.cleanup,
        after.request == before.request,
        after.rollback == before.rollback,
        after.error == before.error,
        after.pause_reason == before.pause_reason,
        after.continuation == before.continuation,
        after.context == before.context,
        after.progress == before.progress,
        after.display == before.display,
        after.active_downloads == before.active_downloads,
        after.missing_content == before.missing_content,
        after.skipped_missing_content_paths == before.skipped_missing_content_paths,
{
}

/// A job that succeeded tells for which instance, and forgets what went wrong and what
/// was skipped on the way.
pub proof fn law_finished_jobs_tell_their_instance(before: InstallJobState, after: InstallJobState)
    requires
        succeeded(before, after),
    ensures
        after.events@.len() == before.events@.len() + 1,
        before.events@.is_prefix_of(after.events@),
        after.events@.last().kind is JobSucceeded,
        before.target matches InstallTarget::ExistingInstance { instance_id }
            ==> after.events@.last().kind->JobSucceeded_instance_id == Some(instance_id),
        before.target matches InstallTarget::NewInstance { instance_id }
            ==> after.events@.last().kind->JobSucceeded_instance_id == instance_id,
        after.progress.phase == InstallPhaseId::Finalizing,
        after.progress.progress is None,
        after.progress.details == InstallPhaseDetails::Empty,
        after.progress.parallel is None,
        after.error is None,
        after.rollback_error is None,
        after.pause_reason is None,
        after.continuation is None,
        after.missing_content is None,
        after.skipped_missing_content_paths@.len() == 0,
        after.context is None,
        after.request == before.request,
        after.target == before.target,
        after.cleanup == before.cleanup,
        after.rollback == before.rollback,
        after.display == before.display,
        after.active_downloads == before.active_downloads,
{
}

/// What is known of where an error came from is kept whole.
pub proof fn law_contexts_are_kept(
    a: Option<InstallErrorContext>,
    b: Option<InstallErrorContext>,
)
    requires
        same_context(a, b),
    ensures
        a is Some <==> b is Some,
        a is Some ==> {
            &&& a->0.operation == b->0.operation
            &&& a->0.project_id == b->0.project_id
            &&& a->0.version_id == b->0.version_id
            &&& a->0.source_path == b->0.source_path
            &&& a->0.cache_types@ == b->0.cache_types@
            &&& a->0.sqlite_code == b->0.sqlite_code
        },
{
}

} // verus!

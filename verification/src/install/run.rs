//! What happens to a job once its request has run: it is completed, it waits
//! for the user, or it is rolled back.
use vstd::prelude::*;

use crate::error::Error;

use super::lifecycle::{
    begin_canceling_run, begin_failed_job_rollback, begin_waiting_for_user, canceled, cleanup_ended,
    cleanup_with, event, failed, finish_cleanup, finish_succeeded_job, paused, set_instance_id,
    succeeded, target_instance, target_with, RollbackReport,
};
use super::model::{
    InstallErrorContext, InstallErrorView, InstallJobEventKind, InstallJobRecord, InstallJobState,
    InstallJobStatus, InstallPauseReason, InstallPhaseId, InstallProgress, InstallProgressState,
    InstallRollbackState,
};

verus! {

/// Whether a job in `status` may start to run.
pub fn may_run(status: InstallJobStatus) -> (r: bool)
    ensures
        r == (status == InstallJobStatus::Queued),
{
    status == InstallJobStatus::Queued
}

/// Starts a queued job. Its status goes from `Queued` to `Running` if it still
/// has it; a job that is not queued is left as it is.
pub fn begin_run(job: &mut InstallJobRecord) -> (r: bool)
    ensures
        r == (old(job).status == InstallJobStatus::Queued),
        final(job).status == old(job).status,
        r ==> final(job).state == (InstallJobState {
            events: final(job).state.events,
            ..old(job).state
        }),
        r ==> final(job).state.events@ == old(job).state.events@.push(
            event(InstallJobEventKind::JobStarted),
        ),
        !r ==> *final(job) == *old(job),
{
    if !may_run(job.status) {
        return false;
    }
    job.state.record_event(InstallJobEventKind::JobStarted);
    true
}

/// How the run of a request ended.
#[derive(Debug)]
pub enum RunOutcome {
    /// The work is done, for the instance that it names.
    Completed(Option<String>),
    /// The user has to act.
    WaitingForUser(InstallPauseReason),
    /// The run was told to stop.
    Canceled,
    /// The run failed.
    Failed(Error),
}

/// What a pause overwrites.
#[derive(Debug)]
pub struct PauseUndo {
    pub pause_reason: Option<InstallPauseReason>,
    pub error: Option<InstallErrorView>,
    pub rollback_error: Option<InstallErrorView>,
    pub context: Option<InstallErrorContext>,
    pub parallel: Option<InstallProgress>,
}

/// How a job that is rolled back ends.
#[derive(Debug)]
pub enum RunEnd {
    Canceled,
    Failed(Error),
}

impl RunEnd {
    /// The status that the job gets.
    pub open spec fn job_status(self) -> InstallJobStatus {
        match self {
            RunEnd::Canceled => InstallJobStatus::Canceled,
            RunEnd::Failed(_) => InstallJobStatus::Failed,
        }
    }

    /// The status that the job gets.
    pub fn status(&self) -> (r: InstallJobStatus)
        ensures
            r == self.job_status(),
    {
        match self {
            RunEnd::Canceled => InstallJobStatus::Canceled,
            RunEnd::Failed(_) => InstallJobStatus::Failed,
        }
    }
}

/// What is to be done for a job whose request has run.
#[derive(Debug)]
pub enum RunStage {
    /// The state is stored and the job is completed, if it still runs. What was
    /// kept for undoing it is held back from what is stored.
    Completing { instance_id: Option<String>, rollback: Option<InstallRollbackState> },
    /// The state is stored and the job waits for the user, if it still runs.
    Pausing { undo: PauseUndo },
    /// The cleanup is applied.
    CleaningUp { end: RunEnd },
    /// The state is stored with the status of `end`.
    Storing { end: RunEnd },
    /// The job is completed: what was kept for undoing it is discarded, and the
    /// instance is announced.
    Announcing { instance_id: Option<String> },
    /// The job waits for the user.
    Waiting,
    /// Someone else has taken over the job.
    Done,
}

/// A job whose request has run.
#[derive(Debug)]
pub struct JobRun {
    pub state: InstallJobState,
    pub stage: RunStage,
}

/// The state once the instance is known, if the run names one.
pub open spec fn with_instance(state: InstallJobState, instance_id: Option<String>) ->
    InstallJobState {
    match instance_id {
        Some(id) => InstallJobState {
            target: target_with(state.target, id),
            cleanup: cleanup_with(state.cleanup, id),
            ..state
        },
        None => state,
    }
}

/// Where a job stands after its request has run.
pub open spec fn begun(
    state: InstallJobState,
    outcome: RunOutcome,
    stop_requested: bool,
    run: JobRun,
) -> bool {
    match outcome {
        RunOutcome::Completed(instance_id) => if stop_requested {
            &&& run.stage == (RunStage::CleaningUp { end: RunEnd::Canceled })
            &&& canceled(with_instance(state, instance_id), false, run.state)
        } else {
            &&& run.stage == (RunStage::Completing { instance_id, rollback: state.rollback })
            &&& run.state.rollback is None
            &&& succeeded(
                with_instance(state, instance_id),
                InstallJobState { rollback: state.rollback, ..run.state },
            )
        },
        RunOutcome::WaitingForUser(reason) => {
            &&& run.stage == (RunStage::Pausing {
                undo: PauseUndo {
                    pause_reason: state.pause_reason,
                    error: state.error,
                    rollback_error: state.rollback_error,
                    context: state.context,
                    parallel: state.progress.parallel,
                },
            })
            &&& paused(state, reason, run.state)
        },
        RunOutcome::Canceled => {
            &&& run.stage == (RunStage::CleaningUp { end: RunEnd::Canceled })
            &&& canceled(state, false, run.state)
        },
        RunOutcome::Failed(error) => {
            &&& run.stage == (RunStage::CleaningUp { end: RunEnd::Failed(error) })
            &&& failed(state, error, run.state)
        },
    }
}

/// `events` without the last one.
pub open spec fn without_last<A>(events: Seq<A>) -> Seq<A> {
    if events.len() == 0 {
        events
    } else {
        events.drop_last()
    }
}

/// The state as it was before the pause that `undo` undoes.
pub open spec fn unpaused(
    state: InstallJobState,
    undo: PauseUndo,
    after: InstallJobState,
) -> bool {
    &&& after == (InstallJobState {
        pause_reason: undo.pause_reason,
        error: undo.error,
        rollback_error: undo.rollback_error,
        context: undo.context,
        progress: InstallProgressState { parallel: undo.parallel, ..state.progress },
        events: after.events,
        ..state
    })
    &&& after.events@ == without_last(state.events@)
}

/// Where a job stands after the attempt to complete or to pause it. `status` is
/// the status that it has if it no longer runs.
pub open spec fn stored_next(
    run: JobRun,
    stored: bool,
    status: InstallJobStatus,
    next: JobRun,
) -> bool {
    match run.stage {
        RunStage::Completing { instance_id, rollback } => {
            let kept = InstallJobState { rollback, ..run.state };
            if stored {
                next == (JobRun { state: kept, stage: RunStage::Announcing { instance_id } })
            } else if status == InstallJobStatus::Canceling {
                &&& next.stage == (RunStage::CleaningUp { end: RunEnd::Canceled })
                &&& canceled(kept, false, next.state)
            } else {
                next == (JobRun { state: kept, stage: RunStage::Done })
            }
        },
        RunStage::Pausing { undo } => if stored {
            next == (JobRun { state: run.state, stage: RunStage::Waiting })
        } else if status == InstallJobStatus::Canceling {
            &&& next.stage == (RunStage::CleaningUp { end: RunEnd::Canceled })
            &&& exists|back: InstallJobState|
                {
                    &&& #[trigger] unpaused(run.state, undo, back)
                    &&& canceled(back, false, next.state)
                }
        } else {
            next.stage is Done && unpaused(run.state, undo, next.state)
        },
        _ => next == run,
    }
}

/// Where a job stands after its cleanup.
pub open spec fn cleaned_next(run: JobRun, error: Option<Error>, next: JobRun) -> bool {
    match run.stage {
        RunStage::CleaningUp { end } => {
            &&& next.stage == (RunStage::Storing { end })
            &&& cleanup_ended(run.state, error, RollbackReport::Classified, next.state)
        },
        _ => next == run,
    }
}

impl JobRun {
    /// Takes up a job whose request has run with `outcome`.
    pub fn begin(state: InstallJobState, outcome: RunOutcome, stop_requested: bool) -> (r: JobRun)
        ensures
            begun(state, outcome, stop_requested, r),
    {
        let mut state = state;
        match outcome {
            RunOutcome::Completed(instance_id) => {
                if let Some(id) = &instance_id {
                    set_instance_id(&mut state, id.clone());
                }
                if stop_requested {
                    begin_canceling_run(&mut state);
                    return JobRun { state, stage: RunStage::CleaningUp { end: RunEnd::Canceled } };
                }
                finish_succeeded_job(&mut state);
                let rollback = state.rollback.take();
                JobRun { state, stage: RunStage::Completing { instance_id, rollback } }
            },
            RunOutcome::WaitingForUser(reason) => {
                let undo = PauseUndo {
                    pause_reason: state.pause_reason.take(),
                    error: state.error.take(),
                    rollback_error: state.rollback_error.take(),
                    context: state.context.take(),
                    parallel: state.progress.parallel,
                };
                begin_waiting_for_user(&mut state, reason);
                JobRun { state, stage: RunStage::Pausing { undo } }
            },
            RunOutcome::Canceled => {
                begin_canceling_run(&mut state);
                JobRun { state, stage: RunStage::CleaningUp { end: RunEnd::Canceled } }
            },
            RunOutcome::Failed(error) => {
                begin_failed_job_rollback(&mut state, &error);
                JobRun { state, stage: RunStage::CleaningUp { end: RunEnd::Failed(error) } }
            },
        }
    }

    /// Takes the outcome of the attempt to complete or to pause the job, and its
    /// status if it no longer ran.
    pub fn stored(self, stored: bool, status: InstallJobStatus) -> (r: JobRun)
        ensures
            stored_next(self, stored, status, r),
    {
        let mut state = self.state;
        match self.stage {
            RunStage::Completing { instance_id, rollback } => {
                state.rollback = rollback;
                if stored {
                    return JobRun { state, stage: RunStage::Announcing { instance_id } };
                }
                if status == InstallJobStatus::Canceling {
                    begin_canceling_run(&mut state);
                    return JobRun { state, stage: RunStage::CleaningUp { end: RunEnd::Canceled } };
                }
                JobRun { state, stage: RunStage::Done }
            },
            RunStage::Pausing { undo } => {
                if stored {
                    return JobRun { state, stage: RunStage::Waiting };
                }
                let ghost was = undo;
                state.pause_reason = undo.pause_reason;
                state.error = undo.error;
                state.rollback_error = undo.rollback_error;
                state.context = undo.context;
                state.progress.parallel = undo.parallel;
                let _ = state.events.pop();
                assert(unpaused(self.state, was, state));
                if status == InstallJobStatus::Canceling {
                    begin_canceling_run(&mut state);
                    return JobRun { state, stage: RunStage::CleaningUp { end: RunEnd::Canceled } };
                }
                JobRun { state, stage: RunStage::Done }
            },
            stage => JobRun { state, stage },
        }
    }

    /// Takes the outcome of the cleanup.
    pub fn cleaned(self, error: Option<Error>) -> (r: JobRun)
        ensures
            cleaned_next(self, error, r),
    {
        let mut state = self.state;
        match self.stage {
            RunStage::CleaningUp { end } => {
                finish_cleanup(&mut state, &error, RollbackReport::Classified);
                JobRun { state, stage: RunStage::Storing { end } }
            },
            stage => JobRun { state, stage },
        }
    }
}

/// A job whose run was told to stop is never completed, even if its work was
/// done by then: it is rolled back.
pub proof fn law_no_completion_after_a_stop(
    state: InstallJobState,
    instance_id: Option<String>,
    run: JobRun,
)
    requires
        begun(state, RunOutcome::Completed(instance_id), true, run),
    ensures
        run.stage == (RunStage::CleaningUp { end: RunEnd::Canceled }),
{
}

/// A job is stored as failed or canceled only after its cleanup was applied:
/// neither the end of a run nor an attempt to store leads there.
pub proof fn law_cleanup_comes_before_the_final_status(
    state: InstallJobState,
    outcome: RunOutcome,
    stop_requested: bool,
    run: JobRun,
    stored: bool,
    status: InstallJobStatus,
    next: JobRun,
)
    requires
        begun(state, outcome, stop_requested, run),
        stored_next(run, stored, status, next),
    ensures
        !(run.stage is Storing),
        !(next.stage is Storing),
{
}

/// An attempt to pause a job that is being canceled leaves no trace of the
/// pause in what is rolled back.
pub proof fn law_refused_pause_leaves_no_trace(
    state: InstallJobState,
    reason: InstallPauseReason,
    run: JobRun,
    next: JobRun,
)
    requires
        begun(state, RunOutcome::WaitingForUser(reason), false, run),
        stored_next(run, false, InstallJobStatus::Canceling, next),
    ensures
        next.stage == (RunStage::CleaningUp { end: RunEnd::Canceled }),
        next.state.target == state.target,
        next.state.cleanup == state.cleanup,
        next.state.rollback_error == state.rollback_error,
        next.state.context == state.context,
        next.state.progress.parallel == state.progress.parallel,
        next.state.events@ == state.events@ + seq![
            event(InstallJobEventKind::JobCanceled { phase: state.progress.phase }),
            event(InstallJobEventKind::RollbackStarted { cleanup: state.cleanup }),
        ],
{
    let undo = run.stage->Pausing_undo;
    let back = choose|back: InstallJobState|
        {
            &&& #[trigger] unpaused(run.state, undo, back)
            &&& canceled(back, false, next.state)
        };
    assert(back.events@ =~= state.events@);
}

/// A job that fails, is canceled or is taken over keeps what undoes it until
/// its cleanup; a completed one keeps it until it is discarded.
pub proof fn law_rollback_data_outlives_the_run(
    state: InstallJobState,
    outcome: RunOutcome,
    stop_requested: bool,
    run: JobRun,
    stored: bool,
    status: InstallJobStatus,
    next: JobRun,
)
    requires
        begun(state, outcome, stop_requested, run),
        stored_next(run, stored, status, next),
    ensures
        next.state.rollback == state.rollback,
{
}

/// How a run ended decides how the job goes on: a run that is done is completed, unless
/// it was told to stop; a run that waits is paused; and a run that was told to stop or
/// that failed is cleaned up after, with the status that says so.
pub proof fn law_runs_end_as_they_ended(
    state: InstallJobState,
    outcome: RunOutcome,
    stop_requested: bool,
    run: JobRun,
)
    requires
        begun(state, outcome, stop_requested, run),
    ensures
        run.stage is Completing <==> outcome is Completed && !stop_requested,
        run.stage is Pausing <==> outcome is WaitingForUser,
        run.stage is CleaningUp <==> outcome is Canceled || outcome is Failed || outcome
            is Completed && stop_requested,
        run.stage matches RunStage::CleaningUp { end } ==> {
            &&& run.state.progress.phase == InstallPhaseId::RollingBack
            &&& run.state.error is Some
            &&& run.state.rollback == state.rollback
            &&& end.job_status() == if outcome is Failed {
                InstallJobStatus::Failed
            } else {
                InstallJobStatus::Canceled
            }
        },
        outcome matches RunOutcome::Completed(Some(id)) ==> target_instance(run.state.target)
            == Some(id),
        !(outcome is Completed) ==> run.state.target == state.target && run.state.cleanup
            == state.cleanup,
        outcome matches RunOutcome::Completed(None) ==> run.state.target == state.target
            && run.state.cleanup == state.cleanup,
        run.stage matches RunStage::Completing { instance_id, rollback } ==> {
            &&& outcome == RunOutcome::Completed(instance_id)
            &&& rollback == state.rollback
            &&& run.state.rollback is None
            &&& run.state.progress.phase == InstallPhaseId::Finalizing
            &&& run.state.error is None
            &&& run.state.events@.last().kind == (InstallJobEventKind::JobSucceeded {
                instance_id: target_instance(run.state.target),
            })
        },
        run.stage is Pausing ==> {
            &&& run.state.pause_reason is Some
            &&& run.state.pause_reason->0@ == outcome->WaitingForUser_0@
            &&& run.state.progress.phase == state.progress.phase
        },
        run.state.request == state.request,
        state.events@.is_prefix_of(run.state.events@),
{
}

/// What is stored decides: a job that was completed is announced for its instance and a
/// job that was paused waits, with the state that was stored and what undoes it. If
/// someone else canceled the job meanwhile, it is cleaned up after, and if someone else
/// has taken it over, nothing more is done.
pub proof fn law_what_is_stored_decides(
    run: JobRun,
    stored: bool,
    status: InstallJobStatus,
    next: JobRun,
)
    requires
        stored_next(run, stored, status, next),
    ensures
        run.stage matches RunStage::Completing { instance_id, rollback } ==> {
            &&& next.state.rollback == rollback
            &&& stored ==> next.stage == (RunStage::Announcing { instance_id })
                && next.state.events == run.state.events
            &&& !stored && status == InstallJobStatus::Canceling ==> next.stage == (
            RunStage::CleaningUp { end: RunEnd::Canceled }) && next.state.progress.phase
                == InstallPhaseId::RollingBack
            &&& !stored && status != InstallJobStatus::Canceling ==> next.stage is Done
                && next.state.events == run.state.events
        },
        run.stage matches RunStage::Pausing { undo } ==> {
            &&& next.state.rollback == run.state.rollback
            &&& stored ==> next.stage is Waiting && next.state == run.state
            &&& !stored && status == InstallJobStatus::Canceling ==> next.stage == (
            RunStage::CleaningUp { end: RunEnd::Canceled }) && next.state.progress.phase
                == InstallPhaseId::RollingBack
            &&& !stored && status != InstallJobStatus::Canceling ==> {
                &&& next.stage is Done
                &&& next.state.pause_reason == undo.pause_reason
                &&& next.state.error == undo.error
                &&& next.state.rollback_error == undo.rollback_error
                &&& next.state.context == undo.context
                &&& next.state.progress.parallel == undo.parallel
                &&& next.state.progress.phase == run.state.progress.phase
            }
        },
        next.state.request == run.state.request,
        next.state.target == run.state.target,
        next.state.cleanup == run.state.cleanup,
        !(run.stage is Completing) && !(run.stage is Pausing) ==> next == run,
{
}

/// A pause that could not be stored is taken back as if it had not been.
pub proof fn law_a_pause_that_was_not_stored_is_undone(
    state: InstallJobState,
    reason: InstallPauseReason,
    run: JobRun,
    status: InstallJobStatus,
    next: JobRun,
)
    requires
        begun(state, RunOutcome::WaitingForUser(reason), false, run),
        status != InstallJobStatus::Canceling,
        stored_next(run, false, status, next),
    ensures
        next.stage is Done,
        next.state.pause_reason == state.pause_reason,
        next.state.error == state.error,
        next.state.rollback_error == state.rollback_error,
        next.state.context == state.context,
        next.state.progress == state.progress,
        next.state.events@ == state.events@,
        next.state.target == state.target,
        next.state.cleanup == state.cleanup,
        next.state.rollback == state.rollback,
        next.state.continuation == state.continuation,
        next.state.request == state.request,
        next.state.display == state.display,
        next.state.active_downloads == state.active_downloads,
        next.state.missing_content == state.missing_content,
        next.state.skipped_missing_content_paths == state.skipped_missing_content_paths,
{
    assert(next.state.events@ =~= state.events@);
}

/// After the cleanup the job is stored with the status that its run ended with, whether
/// or not the cleanup went well, and the end of the cleanup is told.
pub proof fn law_cleaned_jobs_are_stored(run: JobRun, error: Option<Error>, next: JobRun)
    requires
        cleaned_next(run, error, next),
    ensures
        run.stage matches RunStage::CleaningUp { end } ==> {
            &&& next.stage == (RunStage::Storing { end })
            &&& next.state.events@.len() == run.state.events@.len() + 1
            &&& error is None ==> next.state.events@.last().kind
                == InstallJobEventKind::RollbackCompleted
            &&& error matches Some(e) ==> next.state.events@.last().kind == (
            InstallJobEventKind::RollbackFailed { message: e.text })
            &&& next.state.error == run.state.error
        },
        !(run.stage is CleaningUp) ==> next == run,
{
}

} // verus!

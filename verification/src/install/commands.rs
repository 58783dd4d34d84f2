//! What the user can ask of a job: to retry it, to repair a cache and retry it,
//! to resume it, to leave out what is missing, and to cancel it.
use vstd::prelude::*;

use crate::error::{Error, Refusal};
use crate::order::{sorted_union, sorted_unique};
use crate::text::{clone_strings, contains_text, str_eq, views};

use super::lifecycle::{
    begin_canceling_job, canceled, cleanup_ended, finish_cleanup, prepare_resumed_job, reset,
    reset_for_retry, resumed, RollbackReport,
};
use super::model::{
    DownloadItem, DownloadItemStatus, InstallErrorView, InstallJobRecord, InstallJobState,
    InstallJobStatus, InstallPauseReason, InstallRequest, Instance,
};

verus! {

/// Whether a job in `status` ended without success and was not canceled.
pub open spec fn is_failed(status: InstallJobStatus) -> bool {
    status == InstallJobStatus::Failed || status == InstallJobStatus::Interrupted
}

fn failed_status(status: InstallJobStatus) -> (r: bool)
    ensures
        r == is_failed(status),
{
    match status {
        InstallJobStatus::Failed | InstallJobStatus::Interrupted => true,
        _ => false,
    }
}

/// Prepares a job that ended without success to run once more.
pub fn begin_retry(job: &mut InstallJobRecord) -> (r: Result<(), Refusal>)
    ensures
        final(job).status == old(job).status,
        match r {
            Ok(_) => is_failed(old(job).status) && reset(old(job).state, final(job).state),
            Err(refusal) => {
                &&& !is_failed(old(job).status)
                &&& refusal == Refusal::RetryNeedsFailedJob
                &&& *final(job) == *old(job)
            },
        },
{
    if !failed_status(job.status) {
        return Err(Refusal::RetryNeedsFailedJob);
    }
    reset_for_retry(&mut job.state);
    Ok(())
}

/// Whether a new job for the request of `job` may be started.
pub fn check_retry_as_new(job: &InstallJobRecord) -> (r: Result<(), Refusal>)
    ensures
        r == if is_failed(job.status) || job.status == InstallJobStatus::Canceled {
            Ok::<(), Refusal>(())
        } else {
            Err(Refusal::NewRetryNeedsFinishedJob)
        },
{
    if failed_status(job.status) || job.status == InstallJobStatus::Canceled {
        Ok(())
    } else {
        Err(Refusal::NewRetryNeedsFinishedJob)
    }
}

/// Whether an instance, if there is one, may be duplicated. The files of one
/// that is directly associated with an external launcher belong to that launcher.
pub fn check_duplicable(instance: Option<&Instance>) -> (r: Result<(), Refusal>)
    ensures
        r == match instance {
            Some(instance) if instance.direct_linked => Err(
                Refusal::DirectLinkDuplicate(instance.name),
            ),
            _ => Ok::<(), Refusal>(()),
        },
{
    if let Some(instance) = instance {
        if instance.is_direct_linked() {
            return Err(Refusal::DirectLinkDuplicate(instance.name.clone()));
        }
    }
    Ok(())
}

/// A cache that a repair may empty.
#[derive(Clone, Debug, PartialEq, Eq)]
pub struct CacheValueType {
    pub name: String,
}

/// The names of `types`.
pub open spec fn type_names(types: Seq<CacheValueType>) -> Seq<Seq<char>> {
    types.map_values(|t: CacheValueType| t.name@)
}

/// The members of `names`, each where it comes first.
pub open spec fn firsts(names: Seq<Seq<char>>) -> Seq<Seq<char>>
    decreases names.len(),
{
    if names.len() == 0 {
        seq![]
    } else {
        let before = firsts(names.drop_last());
        if before.contains(names.last()) {
            before
        } else {
            before.push(names.last())
        }
    }
}

/// The first of `names` that is not in `known`.
pub open spec fn first_unknown(names: Seq<String>, known: Seq<Seq<char>>) -> Option<String>
    decreases names.len(),
{
    if names.len() == 0 {
        None
    } else if !known.contains(names[0]@) {
        Some(names[0])
    } else {
        first_unknown(names.drop_first(), known)
    }
}

/// The caches that an error names.
pub open spec fn named_caches(error: InstallErrorView) -> Seq<String> {
    match error.context {
        Some(context) => context.cache_types@,
        None => seq![],
    }
}

/// Why the caches that a job's error names may not be emptied.
pub open spec fn repair_refusal(
    status: InstallJobStatus,
    error: Option<InstallErrorView>,
    repairable: Seq<Seq<char>>,
) -> Option<Refusal> {
    if !is_failed(status) {
        Some(Refusal::CacheRepairNeedsFailedJob)
    } else if error is None {
        Some(Refusal::NoCacheRepairError)
    } else if error->0.code@ != "cache_repair_required"@ {
        Some(Refusal::CacheRepairNotRequired)
    } else if named_caches(error->0).len() == 0 {
        Some(Refusal::NoRepairableCacheTypes)
    } else {
        match first_unknown(named_caches(error->0), repairable) {
            Some(name) => Some(Refusal::CacheTypeNotRepairable(name)),
            None => None,
        }
    }
}

/// Whether `r` names the caches to be emptied, each once and in the order in
/// which the error names them, or why none may be.
pub open spec fn is_repair(
    status: InstallJobStatus,
    error: Option<InstallErrorView>,
    repairable: Seq<Seq<char>>,
    r: Result<Vec<CacheValueType>, Refusal>,
) -> bool {
    match r {
        Ok(types) => {
            &&& repair_refusal(status, error, repairable) is None
            &&& type_names(types@) == firsts(views(named_caches(error->0)))
        },
        Err(refusal) => repair_refusal(status, error, repairable) == Some(refusal),
    }
}

proof fn lemma_first_unknown(names: Seq<String>, known: Seq<Seq<char>>, n: int)
    requires
        0 <= n <= names.len(),
        forall|j: int| 0 <= j < n ==> known.contains((#[trigger] names[j])@),
        n < names.len() ==> !known.contains(names[n]@),
    ensures
        first_unknown(names, known) == if n < names.len() {
            Some(names[n])
        } else {
            None
        },
    decreases names.len(),
{
    if names.len() > 0 && n > 0 {
        assert(known.contains(names[0]@));
        let rest = names.drop_first();
        assert forall|j: int| 0 <= j < n - 1 implies known.contains((#[trigger] rest[j])@) by {
            assert(rest[j] == names[j + 1]);
        }
        lemma_first_unknown(rest, known, n - 1);
    }
}

fn has_type(types: &Vec<CacheValueType>, name: &str) -> (r: bool)
    ensures
        r == type_names(types@).contains(name@),
{
    let mut k: usize = 0;
    while k < types.len()
        invariant
            k <= types@.len(),
            forall|j: int| 0 <= j < k ==> (#[trigger] types@[j]).name@ != name@,
        decreases types@.len() - k,
    {
        if str_eq(types[k].name.as_str(), name) {
            assert(type_names(types@)[k as int] == name@);
            return true;
        }
        k = k + 1;
    }
    assert forall|j: int| 0 <= j < types@.len() implies #[trigger] type_names(types@)[j]
        != name@ by {
        assert(types@[j].name@ != name@);
    }
    false
}

/// The caches that a repair for `job` empties. `repairable` names the caches
/// that may be emptied at all.
pub fn validated_cache_repair_types(job: &InstallJobRecord, repairable: &Vec<String>) -> (r: Result<
    Vec<CacheValueType>,
    Refusal,
>)
    ensures
        is_repair(job.status, job.state.error, views(repairable@), r),
{
    validated_cache_repair_types_for(job.status, job.state.error.as_ref(), repairable)
}

/// The caches that a repair for a job in `status` with `error` empties.
pub fn validated_cache_repair_types_for(
    status: InstallJobStatus,
    error: Option<&InstallErrorView>,
    repairable: &Vec<String>,
) -> (r: Result<Vec<CacheValueType>, Refusal>)
    ensures
        is_repair(
            status,
            match error {
                Some(error) => Some(*error),
                None => None,
            },
            views(repairable@),
            r,
        ),
{
    if !failed_status(status) {
        return Err(Refusal::CacheRepairNeedsFailedJob);
    }
    let view = match error {
        Some(view) => view,
        None => {
            return Err(Refusal::NoCacheRepairError);
        },
    };
    if !str_eq(view.code.as_str(), "cache_repair_required") {
        return Err(Refusal::CacheRepairNotRequired);
    }
    let context = match &view.context {
        Some(context) => context,
        None => {
            return Err(Refusal::NoRepairableCacheTypes);
        },
    };
    let names = &context.cache_types;
    if names.len() == 0 {
        return Err(Refusal::NoRepairableCacheTypes);
    }
    let mut validated: Vec<CacheValueType> = Vec::new();
    let mut n: usize = 0;
    while n < names.len()
        invariant
            n <= names@.len(),
            forall|j: int| 0 <= j < n ==> views(repairable@).contains((#[trigger] names@[j])@),
            type_names(validated@) == firsts(views(names@).take(n as int)),
            is_failed(status),
            error == Some(view),
            view.code@ == "cache_repair_required"@,
            names@ == named_caches(*view),
            names@.len() > 0,
        decreases names@.len() - n,
    {
        let name = names[n].as_str();
        if !contains_text(repairable, name) {
            proof {
                lemma_first_unknown(names@, views(repairable@), n as int);
            }
            return Err(Refusal::CacheTypeNotRepairable(names[n].clone()));
        }
        let ghost seen = type_names(validated@);
        if !has_type(&validated, name) {
            validated.push(CacheValueType { name: names[n].clone() });
            assert(type_names(validated@) =~= seen.push(names@[n as int]@));
        }
        proof {
            let longer = views(names@).take(n + 1);
            assert(longer.drop_last() =~= views(names@).take(n as int));
            assert(longer.last() == names@[n as int]@);
        }
        n = n + 1;
    }
    proof {
        lemma_first_unknown(names@, views(repairable@), n as int);
        assert(views(names@).take(n as int) =~= views(names@));
    }
    Ok(validated)
}

/// What is done next for a cache repair.
#[derive(Clone, Debug, PartialEq, Eq)]
pub enum CacheRepair {
    /// Another request has already started it.
    AlreadyStarted,
    /// The caches are emptied; `finish_purge` takes the outcome.
    Purge(Vec<CacheValueType>),
}

/// Starts a cache repair for `job`, unless `started` says that it has started.
pub fn begin_cache_repair(
    job: &InstallJobRecord,
    started: &mut bool,
    repairable: &Vec<String>,
) -> (r: Result<CacheRepair, Refusal>)
    ensures
        match r {
            Ok(CacheRepair::AlreadyStarted) => *old(started) && *final(started),
            Ok(CacheRepair::Purge(types)) => {
                &&& !*old(started)
                &&& *final(started)
                &&& is_repair(job.status, job.state.error, views(repairable@), Ok(types))
            },
            Err(refusal) => {
                &&& !*old(started)
                &&& !*final(started)
                &&& is_repair(job.status, job.state.error, views(repairable@), Err(refusal))
            },
        },
{
    if *started {
        return Ok(CacheRepair::AlreadyStarted);
    }
    match validated_cache_repair_types(job, repairable) {
        Ok(types) => {
            *started = true;
            Ok(CacheRepair::Purge(types))
        },
        Err(refusal) => Err(refusal),
    }
}

/// Takes the outcome of emptying the caches: after an error the repair may be
/// started again, and no retry follows.
pub fn finish_purge(started: &mut bool, error: Option<String>) -> (r: Result<(), Refusal>)
    ensures
        match error {
            Some(text) => r == Err::<(), Refusal>(Refusal::CacheCleanupFailed(text))
                && !*final(started),
            None => r == Ok::<(), Refusal>(()) && *final(started) == *old(started),
        },
{
    match error {
        Some(text) => {
            *started = false;
            Err(Refusal::CacheCleanupFailed(text))
        },
        None => Ok(()),
    }
}

/// A repair empties only caches that may be emptied, none of them twice.
pub proof fn law_repair_is_whitelisted_and_distinct(
    status: InstallJobStatus,
    error: Option<InstallErrorView>,
    repairable: Seq<Seq<char>>,
    types: Vec<CacheValueType>,
)
    requires
        is_repair(status, error, repairable, Ok(types)),
    ensures
        is_failed(status),
        type_names(types@).no_duplicates(),
        forall|name: Seq<char>| #[trigger]
            type_names(types@).contains(name) ==> repairable.contains(name),
        types@.len() > 0,
{
    let names = named_caches(error->0);
    lemma_firsts(views(names));
    lemma_all_known(names, repairable);
    assert forall|name: Seq<char>| #[trigger]
        type_names(types@).contains(name) implies repairable.contains(name) by {
        assert(views(names).contains(name));
        let i = choose|i: int| 0 <= i < views(names).len() && views(names)[i] == name;
        assert(names[i]@ == name);
    }
    assert(views(names).contains(views(names)[0]));
    assert(type_names(types@).contains(views(names)[0]));
}

proof fn lemma_firsts(names: Seq<Seq<char>>)
    ensures
        firsts(names).no_duplicates(),
        forall|name: Seq<char>| #[trigger] firsts(names).contains(name) <==> names.contains(name),
    decreases names.len(),
{
    if names.len() > 0 {
        let init = names.drop_last();
        lemma_firsts(init);
        let before = firsts(init);
        let all = firsts(names);
        assert forall|name: Seq<char>| #[trigger] all.contains(name) <==> names.contains(
            name,
        ) by {
            if names.contains(name) {
                let i = choose|i: int| 0 <= i < names.len() && names[i] == name;
                if i < names.len() - 1 {
                    assert(init[i] == name);
                    assert(before.contains(name));
                    let k = choose|k: int| 0 <= k < before.len() && before[k] == name;
                    assert(all[k] == name);
                } else if !before.contains(name) {
                    assert(all[before.len() as int] == name);
                }
            }
            if all.contains(name) {
                let k = choose|k: int| 0 <= k < all.len() && all[k] == name;
                if k < before.len() {
                    assert(before[k] == name);
                    assert(before.contains(name));
                    assert(init.contains(name));
                    let i = choose|i: int| 0 <= i < init.len() && init[i] == name;
                    assert(names[i] == name);
                } else {
                    assert(names[names.len() - 1] == name);
                }
            }
        }
    }
}

proof fn lemma_all_known(names: Seq<String>, known: Seq<Seq<char>>)
    requires
        first_unknown(names, known) is None,
    ensures
        forall|i: int| 0 <= i < names.len() ==> known.contains((#[trigger] names[i])@),
    decreases names.len(),
{
    if names.len() > 0 {
        let rest = names.drop_first();
        lemma_all_known(rest, known);
        assert forall|i: int| 0 <= i < names.len() implies known.contains(
            (#[trigger] names[i])@,
        ) by {
            if i > 0 {
                assert(rest[i - 1] == names[i]);
            }
        }
    }
}

/// Puts a job that waits for the user back into the queue.
pub fn begin_resume(job: &mut InstallJobRecord) -> (r: Result<(), Refusal>)
    ensures
        final(job).status == old(job).status,
        match r {
            Ok(_) => {
                &&& old(job).status == InstallJobStatus::WaitingForUser
                &&& resumed(old(job).state, final(job).state)
            },
            Err(refusal) => {
                &&& old(job).status != InstallJobStatus::WaitingForUser
                &&& refusal == Refusal::ResumeNeedsWaitingJob
                &&& *final(job) == *old(job)
            },
        },
{
    if job.status != InstallJobStatus::WaitingForUser {
        return Err(Refusal::ResumeNeedsWaitingJob);
    }
    prepare_resumed_job(&mut job.state);
    Ok(())
}

/// Takes whether a job was still waiting when it was put back into the queue.
pub fn finish_resume(still_waiting: bool) -> (r: Result<(), Refusal>)
    ensures
        r == if still_waiting {
            Ok::<(), Refusal>(())
        } else {
            Err(Refusal::NoLongerWaiting)
        },
{
    if still_waiting {
        Ok(())
    } else {
        Err(Refusal::NoLongerWaiting)
    }
}

/// Whether a file is missing: it failed, or it was left to the user.
pub open spec fn is_missing(item: DownloadItem) -> bool {
    ||| item.status == DownloadItemStatus::Failed
    ||| item.status == DownloadItemStatus::Skipped && item.manual_url is Some
}

/// The names of the missing files among `items`.
pub open spec fn missing_ids(items: Seq<DownloadItem>) -> Seq<Seq<char>> {
    items.filter(|i: DownloadItem| is_missing(i)).map_values(|i: DownloadItem| i.id@)
}

/// The files that a job is resumed without: those missing among `items`, or
/// else those that it paused for.
pub open spec fn paths_to_skip(items: Seq<DownloadItem>, reason: InstallPauseReason) -> Seq<
    Seq<char>,
> {
    if missing_ids(items).len() > 0 {
        missing_ids(items)
    } else {
        views(reason@.1)
    }
}

/// Why a job may not be resumed without its missing files.
pub open spec fn skip_refusal(job: InstallJobRecord, items: Seq<DownloadItem>) -> Option<Refusal> {
    if job.status != InstallJobStatus::WaitingForUser {
        Some(Refusal::SkipNeedsWaitingJob)
    } else if job.state.request is UpdateManagedCurseForgeModpack {
        Some(Refusal::UpdateCannotSkip)
    } else if job.state.pause_reason is None || paths_to_skip(
        items,
        job.state.pause_reason->0,
    ).len() == 0 {
        Some(Refusal::NothingToSkip)
    } else {
        None
    }
}

/// Whether `r` holds, in order and each once, what is in `a` or in `b`.
pub open spec fn is_sorted_union(r: Seq<Seq<char>>, a: Seq<Seq<char>>, b: Seq<Seq<char>>) -> bool {
    &&& sorted_unique(r)
    &&& forall|t: Seq<char>| #[trigger] r.contains(t) <==> (a.contains(t) || b.contains(t))
}

fn collect_missing(items: &Vec<DownloadItem>) -> (r: Vec<String>)
    ensures
        views(r@) == missing_ids(items@),
{
    let mut ids: Vec<String> = Vec::new();
    let mut n: usize = 0;
    while n < items.len()
        invariant
            n <= items@.len(),
            views(ids@) == missing_ids(items@.take(n as int)),
        decreases items@.len() - n,
    {
        let missing = match items[n].status {
            DownloadItemStatus::Failed => true,
            DownloadItemStatus::Skipped => items[n].manual_url.is_some(),
            _ => false,
        };
        let ghost seen = ids@;
        if missing {
            ids.push(items[n].id.clone());
            assert(views(ids@) =~= views(seen).push(items@[n as int].id@));
        }
        proof {
            reveal(Seq::filter);
            let longer = items@.take(n + 1);
            assert(longer.drop_last() =~= items@.take(n as int));
            assert(longer.last() == items@[n as int]);
            assert(missing_ids(longer) =~= if missing {
                missing_ids(items@.take(n as int)).push(items@[n as int].id@)
            } else {
                missing_ids(items@.take(n as int))
            });
        }
        n = n + 1;
    }
    assert(items@.take(n as int) =~= items@);
    ids
}

/// Puts a job that waits for the user back into the queue, to go on without the
/// files that are missing. `items` are the files of the job.
pub fn skip_missing_content(job: &mut InstallJobRecord, items: &Vec<DownloadItem>) -> (r: Result<
    (),
    Refusal,
>)
    ensures
        final(job).status == old(job).status,
        match r {
            Ok(_) => {
                &&& skip_refusal(*old(job), items@) is None
                &&& is_sorted_union(
                    views(final(job).state.skipped_missing_content_paths@),
                    views(old(job).state.skipped_missing_content_paths@),
                    paths_to_skip(items@, old(job).state.pause_reason->0),
                )
                &&& resumed(
                    InstallJobState {
                        skipped_missing_content_paths: final(job).state.skipped_missing_content_paths,
                        ..old(job).state
                    },
                    final(job).state,
                )
            },
            Err(refusal) => {
                &&& skip_refusal(*old(job), items@) == Some(refusal)
                &&& *final(job) == *old(job)
            },
        },
{
    if job.status != InstallJobStatus::WaitingForUser {
        return Err(Refusal::SkipNeedsWaitingJob);
    }
    if let InstallRequest::UpdateManagedCurseForgeModpack { .. } = &job.state.request {
        return Err(Refusal::UpdateCannotSkip);
    }
    let mut missing = collect_missing(items);
    let paths = match &job.state.pause_reason {
        Some(InstallPauseReason::MissingRequiredContent { failed_files: _, paths }) => paths,
        None => {
            return Err(Refusal::NothingToSkip);
        },
    };
    if missing.len() == 0 {
        missing = clone_strings(paths);
    }
    assert(views(missing@) == paths_to_skip(items@, old(job).state.pause_reason->0));
    if missing.len() == 0 {
        return Err(Refusal::NothingToSkip);
    }
    let skipped = sorted_union(&job.state.skipped_missing_content_paths, &missing);
    job.state.skipped_missing_content_paths = skipped;
    prepare_resumed_job(&mut job.state);
    Ok(())
}

/// Leaving out missing files never takes a file off the list of those left
/// out, puts every missing one on it, and lists none twice.
pub proof fn law_skipping_only_adds(
    before: Seq<Seq<char>>,
    missing: Seq<Seq<char>>,
    after: Seq<Seq<char>>,
)
    requires
        is_sorted_union(after, before, missing),
    ensures
        forall|t: Seq<char>| #[trigger] before.contains(t) ==> after.contains(t),
        forall|t: Seq<char>| #[trigger] missing.contains(t) ==> after.contains(t),
        after.no_duplicates(),
{
    assert forall|i: int, j: int| 0 <= i < after.len() && 0 <= j < after.len() && i
        != j implies after[i] != after[j] by {
        crate::order::lemma_before_irreflexive(after[i]);
        if i < j {
            assert(crate::order::before(after[i], after[j]));
        } else {
            assert(crate::order::before(after[j], after[i]));
        }
    }
}

/// What is done next for a cancellation.
#[derive(Clone, Copy, Debug, PartialEq, Eq, Structural)]
pub enum CancelAction {
    /// The job is being canceled already.
    Report,
    /// The status goes from `expected` to `Canceling` if the job still has it;
    /// `after_swap` takes the outcome.
    Swap { expected: InstallJobStatus },
}

/// What follows the attempt to change the status of a job that is canceled.
#[derive(Clone, Copy, Debug, PartialEq, Eq, Structural)]
pub enum CancelFollowUp {
    /// The job has moved on: it is loaded again and `begin_cancel` decides anew.
    Reload,
    /// The run is told to stop, and rolls the job back itself.
    SignalRun,
    /// The job is cleaned up here; `finish_cancel` takes the outcome.
    CleanUp,
}

/// Starts to cancel a job. A running job keeps its state: its run cancels it.
pub fn begin_cancel(job: &mut InstallJobRecord) -> (r: Result<CancelAction, Refusal>)
    ensures
        final(job).status == old(job).status,
        match old(job).status {
            InstallJobStatus::Running => {
                &&& r == Ok::<CancelAction, Refusal>(
                    CancelAction::Swap { expected: InstallJobStatus::Running },
                )
                &&& *final(job) == *old(job)
            },
            InstallJobStatus::Canceling => {
                &&& r == Ok::<CancelAction, Refusal>(CancelAction::Report)
                &&& *final(job) == *old(job)
            },
            InstallJobStatus::Queued | InstallJobStatus::WaitingForUser => {
                &&& r == Ok::<CancelAction, Refusal>(
                    CancelAction::Swap { expected: old(job).status },
                )
                &&& canceled(old(job).state, true, final(job).state)
            },
            _ => {
                &&& r == Err::<CancelAction, Refusal>(Refusal::NotCancelable)
                &&& *final(job) == *old(job)
            },
        },
{
    match job.status {
        InstallJobStatus::Running => Ok(CancelAction::Swap { expected: InstallJobStatus::Running }),
        InstallJobStatus::Canceling => Ok(CancelAction::Report),
        InstallJobStatus::Queued | InstallJobStatus::WaitingForUser => {
            begin_canceling_job(&mut job.state);
            Ok(CancelAction::Swap { expected: job.status })
        },
        _ => Err(Refusal::NotCancelable),
    }
}

/// What follows the attempt to go from `expected` to `Canceling`.
pub fn after_swap(expected: InstallJobStatus, swapped: bool) -> (r: CancelFollowUp)
    ensures
        r == if !swapped {
            CancelFollowUp::Reload
        } else if expected == InstallJobStatus::Running {
            CancelFollowUp::SignalRun
        } else {
            CancelFollowUp::CleanUp
        },
{
    if !swapped {
        CancelFollowUp::Reload
    } else if expected == InstallJobStatus::Running {
        CancelFollowUp::SignalRun
    } else {
        CancelFollowUp::CleanUp
    }
}

/// Ends the cancellation of a job whose cleanup ended with or without `error`.
/// The status to be stored is the result.
pub fn finish_cancel(job_state: &mut InstallJobState, error: &Option<Error>) -> (r:
    InstallJobStatus)
    ensures
        r == InstallJobStatus::Canceled,
        cleanup_ended(*old(job_state), *error, RollbackReport::Plain, *final(job_state)),
{
    finish_cleanup(job_state, error, RollbackReport::Plain);
    InstallJobStatus::Canceled
}

/// A job has failed if it failed or was interrupted, and in no other case.
pub proof fn law_when_a_job_has_failed(status: InstallJobStatus)
    ensures
        is_failed(status) <==> status == InstallJobStatus::Failed || status
            == InstallJobStatus::Interrupted,
{
}

/// Each name is kept once, where it first occurs.
pub proof fn law_first_occurrences_are_kept(names: Seq<Seq<char>>)
    ensures
        forall|name: Seq<char>| #[trigger] firsts(names).contains(name) <==> names.contains(name),
        firsts(names).no_duplicates(),
        names.no_duplicates() ==> firsts(names) == names,
    decreases names.len(),
{
    if names.len() > 0 {
        let init = names.drop_last();
        let before = firsts(init);
        let after = firsts(names);
        let last = names.last();
        law_first_occurrences_are_kept(init);
        assert forall|name: Seq<char>| #[trigger] after.contains(name) <==> names.contains(name) by {
            if after.contains(name) {
                let k = choose|k: int| 0 <= k < after.len() && after[k] == name;
                if k < before.len() {
                    assert(before[k] == name);
                    assert(before.contains(name));
                    let i = choose|i: int| 0 <= i < init.len() && init[i] == name;
                    assert(names[i] == name);
                } else {
                    assert(names[names.len() - 1] == name);
                }
            }
            if names.contains(name) {
                let i = choose|i: int| 0 <= i < names.len() && names[i] == name;
                if i < init.len() {
                    assert(init[i] == name);
                    assert(init.contains(name));
                    assert(before.contains(name));
                    let k = choose|k: int| 0 <= k < before.len() && before[k] == name;
                    assert(after[k] == name);
                } else if !before.contains(last) {
                    assert(after[after.len() - 1] == name);
                }
            }
        }
        if names.no_duplicates() {
            assert(init.no_duplicates());
            assert(!init.contains(last)) by {
                if init.contains(last) {
                    let i = choose|i: int| 0 <= i < init.len() && init[i] == last;
                    assert(names[i] == names[names.len() - 1]);
                }
            }
            assert(after =~= names);
        }
    }
}

/// Caches are repaired exactly for a failed job that asks for it and names caches, all of
/// which can be repaired. Any other job is told what is missing; a cache that cannot be
/// repaired is named, the first one that the job names.
pub proof fn law_when_caches_are_repaired(
    status: InstallJobStatus,
    error: Option<InstallErrorView>,
    repairable: Seq<Seq<char>>,
)
    ensures
        ({
            let refusal = repair_refusal(status, error, repairable);
            let asks = error is Some && error->0.code@ == "cache_repair_required"@;
            let names = error->0.context->0.cache_types@;
            let named = error is Some && error->0.context is Some && names.len() > 0;
            let failed = status == InstallJobStatus::Failed || status
                == InstallJobStatus::Interrupted;
            &&& refusal is None <==> failed && asks && named && forall|i: int|
                0 <= i < names.len() ==> repairable.contains((#[trigger] names[i])@)
            &&& refusal == Some(Refusal::CacheRepairNeedsFailedJob) <==> !failed
            &&& refusal == Some(Refusal::NoCacheRepairError) <==> failed && error is None
            &&& refusal == Some(Refusal::CacheRepairNotRequired) <==> failed && error is Some
                && !asks
            &&& refusal == Some(Refusal::NoRepairableCacheTypes) <==> failed && asks && !named
            &&& refusal matches Some(Refusal::CacheTypeNotRepairable(name)) ==> exists|i: int|
                {
                    &&& 0 <= i < names.len()
                    &&& #[trigger] names[i] == name
                    &&& !repairable.contains(name@)
                    &&& forall|j: int| 0 <= j < i ==> repairable.contains((#[trigger] names[j])@)
                }
        }),
{
    if error is Some {
        lemma_first_unknown_name(named_caches(error->0), repairable);
    }
}

proof fn lemma_first_unknown_name(names: Seq<String>, known: Seq<Seq<char>>)
    ensures
        first_unknown(names, known) is None <==> forall|i: int|
            0 <= i < names.len() ==> known.contains((#[trigger] names[i])@),
        first_unknown(names, known) is Some ==> exists|i: int|
            {
                &&& 0 <= i < names.len()
                &&& #[trigger] names[i] == first_unknown(names, known)->0
                &&& !known.contains(names[i]@)
                &&& forall|j: int| 0 <= j < i ==> known.contains((#[trigger] names[j])@)
            },
    decreases names.len(),
{
    if names.len() > 0 {
        if known.contains(names[0]@) {
            let rest = names.drop_first();
            lemma_first_unknown_name(rest, known);
            if first_unknown(rest, known) is None {
                assert forall|i: int| 0 <= i < names.len() implies known.contains(
                    (#[trigger] names[i])@,
                ) by {
                    if i > 0 {
                        assert(rest[i - 1] == names[i]);
                    }
                }
            } else {
                let i = choose|i: int|
                    {
                        &&& 0 <= i < rest.len()
                        &&& #[trigger] rest[i] == first_unknown(rest, known)->0
                        &&& !known.contains(rest[i]@)
                        &&& forall|j: int| 0 <= j < i ==> known.contains((#[trigger] rest[j])@)
                    };
                assert(names[i + 1] == rest[i]);
                assert forall|j: int| 0 <= j < i + 1 implies known.contains(
                    (#[trigger] names[j])@,
                ) by {
                    if j > 0 {
                        assert(rest[j - 1] == names[j]);
                    }
                }
            }
        } else {
            assert(!known.contains(names[0]@));
        }
    }
}

/// The caches that are repaired are those that the job names, each once.
pub proof fn law_the_named_caches_are_repaired(
    status: InstallJobStatus,
    error: Option<InstallErrorView>,
    repairable: Seq<Seq<char>>,
    types: Vec<CacheValueType>,
)
    requires
        is_repair(status, error, repairable, Ok(types)),
    ensures
        error is Some,
        error->0.context is Some,
        forall|i: int|
            0 <= i < error->0.context->0.cache_types@.len() ==> exists|k: int|
                {
                    &&& 0 <= k < types@.len()
                    &&& (#[trigger] types@[k]).name@ == (
                    #[trigger] error->0.context->0.cache_types@[i])@
                },
        forall|k: int|
            0 <= k < types@.len() ==> exists|i: int|
                {
                    &&& 0 <= i < error->0.context->0.cache_types@.len()
                    &&& (#[trigger] types@[k]).name@ == (
                    #[trigger] error->0.context->0.cache_types@[i])@
                },
        forall|j: int, k: int|
            0 <= j < k < types@.len() ==> (#[trigger] types@[j]).name@ != (
            #[trigger] types@[k]).name@,
{
    law_when_caches_are_repaired(status, error, repairable);
    let names = named_caches(error->0);
    let all = views(names);
    let shown = type_names(types@);
    law_first_occurrences_are_kept(all);
    assert(shown.len() == types@.len());
    assert forall|i: int| 0 <= i < names.len() implies exists|k: int|
        0 <= k < types@.len() && (#[trigger] types@[k]).name@ == (#[trigger] names[i])@ by {
        assert(all[i] == names[i]@);
        assert(all.contains(all[i]));
        assert(shown.contains(all[i]));
        let k = choose|k: int| 0 <= k < shown.len() && shown[k] == all[i];
        assert(types@[k].name@ == names[i]@);
    }
    assert forall|k: int| 0 <= k < types@.len() implies exists|i: int|
        0 <= i < names.len() && (#[trigger] types@[k]).name@ == (#[trigger] names[i])@ by {
        assert(shown[k] == types@[k].name@);
        assert(shown.contains(shown[k]));
        assert(all.contains(shown[k]));
        let i = choose|i: int| 0 <= i < all.len() && all[i] == shown[k];
        assert(types@[k].name@ == names[i]@);
    }
    assert forall|j: int, k: int| 0 <= j < k < types@.len() implies (#[trigger] types@[j]).name@
        != (#[trigger] types@[k]).name@ by {
        assert(shown[j] != shown[k]);
    }
}

proof fn lemma_missing_of_last(items: Seq<DownloadItem>)
    requires
        items.len() > 0,
    ensures
        missing_ids(items) == if is_missing(items.last()) {
            missing_ids(items.drop_last()).push(items.last().id@)
        } else {
            missing_ids(items.drop_last())
        },
{
    reveal(Seq::filter);
    let before = missing_ids(items.drop_last());
    assert(missing_ids(items) =~= if is_missing(items.last()) {
        before.push(items.last().id@)
    } else {
        before
    });
}

proof fn lemma_item_is_missing(items: Seq<DownloadItem>, i: int)
    requires
        0 <= i < items.len(),
        is_missing(items[i]),
    ensures
        missing_ids(items).contains(items[i].id@),
    decreases items.len(),
{
    lemma_missing_of_last(items);
    let all = missing_ids(items);
    let init = items.drop_last();
    if i < items.len() - 1 {
        lemma_item_is_missing(init, i);
        let before = missing_ids(init);
        let k = choose|k: int| 0 <= k < before.len() && before[k] == items[i].id@;
        assert(all[k] == items[i].id@);
    } else {
        assert(all[all.len() - 1] == items[i].id@);
    }
}

proof fn lemma_missing_item(items: Seq<DownloadItem>, k: int) -> (i: int)
    requires
        0 <= k < missing_ids(items).len(),
    ensures
        0 <= i < items.len(),
        items[i].id@ == missing_ids(items)[k],
        is_missing(items[i]),
    decreases items.len(),
{
    reveal(Seq::filter);
    if items.len() == 0 {
        assert(items.filter(|i: DownloadItem| is_missing(i)).len() == 0);
        0
    } else {
        lemma_missing_of_last(items);
        let init = items.drop_last();
        if k < missing_ids(init).len() {
            lemma_missing_item(init, k)
        } else {
            items.len() - 1
        }
    }
}

/// What is missing are the files that failed and those that were left for the user to
/// download, and nothing else.
pub proof fn law_what_is_missing(items: Seq<DownloadItem>, id: Seq<char>)
    ensures
        missing_ids(items).contains(id) <==> exists|i: int|
            {
                &&& 0 <= i < items.len()
                &&& (#[trigger] items[i]).id@ == id
                &&& items[i].status == DownloadItemStatus::Failed || items[i].status
                    == DownloadItemStatus::Skipped && items[i].manual_url is Some
            },
{
    let all = missing_ids(items);
    if all.contains(id) {
        let k = choose|k: int| 0 <= k < all.len() && all[k] == id;
        let i = lemma_missing_item(items, k);
        assert(items[i].id@ == id);
    }
    if exists|i: int|
        {
            &&& 0 <= i < items.len()
            &&& (#[trigger] items[i]).id@ == id
            &&& items[i].status == DownloadItemStatus::Failed || items[i].status
                == DownloadItemStatus::Skipped && items[i].manual_url is Some
        } {
        let i = choose|i: int|
            {
                &&& 0 <= i < items.len()
                &&& (#[trigger] items[i]).id@ == id
                &&& items[i].status == DownloadItemStatus::Failed || items[i].status
                    == DownloadItemStatus::Skipped && items[i].manual_url is Some
            };
        lemma_item_is_missing(items, i);
    }
}

/// What is skipped is what is missing; only where nothing is known to be missing, it is
/// what the job waits for.
pub proof fn law_what_is_skipped(items: Seq<DownloadItem>, reason: InstallPauseReason)
    ensures
        missing_ids(items).len() > 0 ==> paths_to_skip(items, reason) == missing_ids(items),
        missing_ids(items).len() == 0 ==> {
            &&& paths_to_skip(items, reason).len() == reason@.1.len()
            &&& forall|i: int|
                0 <= i < reason@.1.len() ==> #[trigger] paths_to_skip(items, reason)[i]
                    == reason@.1[i]@
        },
{
}

/// Content can be skipped exactly in a job that waits for the user and has something to
/// skip, unless the job updates a modpack. Any other job is told why not.
pub proof fn law_when_content_can_be_skipped(job: InstallJobRecord, items: Seq<DownloadItem>)
    ensures
        ({
            let refusal = skip_refusal(job, items);
            let waits = job.status == InstallJobStatus::WaitingForUser;
            let updates = job.state.request is UpdateManagedCurseForgeModpack;
            let any = job.state.pause_reason is Some && (missing_ids(items).len() > 0
                || job.state.pause_reason->0@.1.len() > 0);
            &&& refusal is None <==> waits && !updates && any
            &&& refusal == Some(Refusal::SkipNeedsWaitingJob) <==> !waits
            &&& refusal == Some(Refusal::UpdateCannotSkip) <==> waits && updates
            &&& refusal == Some(Refusal::NothingToSkip) <==> waits && !updates && !any
        }),
{
}

} // verus!

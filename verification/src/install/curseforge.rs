//! Files of CurseForge that the user has to download, and what a job makes of
//! them.
use vstd::prelude::*;

use crate::decimal::{numeral, print_u64};
use crate::text::{concat2, concat3, contains_text, opt_str_eq, views};

use super::model::{
    item_index, items_of, CurseForgeInstallResult, CurseForgeInstalledFile,
    CurseForgeManualDownload, CurseForgeModpackInstallResult, CurseForgeWorldInstallRequest,
    DownloadItem, DownloadItemStatus, InstallJobEvent, InstallJobEventKind, InstallJobState,
    InstallPauseReason,
};

verus! {

/// The manual downloads that are not among those to be left out.
pub open spec fn wanted_downloads(
    downloads: Seq<CurseForgeManualDownload>,
    skipped: Seq<Seq<char>>,
) -> Seq<CurseForgeManualDownload> {
    downloads.filter(|d: CurseForgeManualDownload| !skipped.contains(d.file_name@))
}

/// The pause that manual downloads ask for: one that names each of them, unless
/// there is none.
pub open spec fn is_manual_pause(
    downloads: Seq<CurseForgeManualDownload>,
    skipped: Seq<Seq<char>>,
    pause: Option<InstallPauseReason>,
) -> bool {
    let wanted = wanted_downloads(downloads, skipped);
    match pause {
        Some(reason) => {
            &&& wanted.len() > 0
            &&& reason@.0 == wanted.len()
            &&& reason@.1 == wanted.map_values(|d: CurseForgeManualDownload| d.file_name)
        },
        None => wanted.len() == 0,
    }
}

/// The pause that the installation of a modpack asks for.
pub fn curseforge_manual_download_pause(
    result: &CurseForgeModpackInstallResult,
    skipped_missing_content_paths: &Vec<String>,
) -> (r: Option<InstallPauseReason>)
    ensures
        is_manual_pause(
            result.content.manual_downloads@,
            views(skipped_missing_content_paths@),
            r,
        ),
{
    let downloads = &result.content.manual_downloads;
    let ghost skipped = views(skipped_missing_content_paths@);
    let ghost name = |d: CurseForgeManualDownload| d.file_name;
    let mut paths: Vec<String> = Vec::new();
    let mut n: usize = 0;
    while n < downloads.len()
        invariant
            n <= downloads@.len(),
            downloads@ == result.content.manual_downloads@,
            skipped == views(skipped_missing_content_paths@),
            name == (|d: CurseForgeManualDownload| d.file_name),
            paths@ == wanted_downloads(downloads@.take(n as int), skipped).map_values(name),
        decreases downloads@.len() - n,
    {
        let left_out = contains_text(
            skipped_missing_content_paths,
            downloads[n].file_name.as_str(),
        );
        if !left_out {
            paths.push(downloads[n].file_name.clone());
        }
        proof {
            reveal(Seq::filter);
            let longer = downloads@.take(n + 1);
            assert(longer.drop_last() =~= downloads@.take(n as int));
            assert(longer.last() == downloads@[n as int]);
            assert(wanted_downloads(longer, skipped).map_values(name) =~= paths@);
        }
        n = n + 1;
    }
    assert(downloads@.take(n as int) =~= downloads@);
    if paths.len() == 0 {
        return None;
    }
    let failed_files = paths.len() as u64;
    Some(InstallPauseReason::MissingRequiredContent { failed_files, paths })
}

/// A pause for manual downloads names none of the files to be left out, and
/// leaving out all that it names leaves nothing to pause for.
pub proof fn law_skipped_downloads_do_not_pause(
    downloads: Seq<CurseForgeManualDownload>,
    skipped: Seq<Seq<char>>,
    pause: Option<InstallPauseReason>,
    again: Seq<Seq<char>>,
)
    requires
        is_manual_pause(downloads, skipped, pause),
        forall|t: Seq<char>| #[trigger] skipped.contains(t) ==> again.contains(t),
        pause is Some ==> forall|i: int|
            0 <= i < pause->0@.1.len() ==> again.contains((#[trigger] pause->0@.1[i])@),
    ensures
        pause is Some ==> forall|i: int|
            0 <= i < pause->0@.1.len() ==> !skipped.contains((#[trigger] pause->0@.1[i])@),
        is_manual_pause(downloads, again, None),
{
    let wanted = |d: CurseForgeManualDownload| !skipped.contains(d.file_name@);
    let left = downloads.filter(wanted);
    if pause is Some {
        assert forall|i: int| 0 <= i < pause->0@.1.len() implies !skipped.contains(
            (#[trigger] pause->0@.1[i])@,
        ) by {
            downloads.lemma_filter_pred(wanted, i);
            assert(pause->0@.1[i] == left[i].file_name);
        }
    }
    let none = |d: CurseForgeManualDownload| !again.contains(d.file_name@);
    assert forall|k: int| 0 <= k < downloads.len() implies !none(#[trigger] downloads[k]) by {
        let d = downloads[k];
        if wanted(d) {
            downloads.lemma_filter_contains(wanted, k);
            let i = choose|i: int| 0 <= i < left.len() && left[i] == d;
            assert(pause is Some);
            assert(pause->0@.1[i] == d.file_name);
        }
    }
    lemma_filter_none(downloads, none);
}

proof fn lemma_filter_none<A>(s: Seq<A>, keep: spec_fn(A) -> bool)
    requires
        forall|k: int| 0 <= k < s.len() ==> !keep(#[trigger] s[k]),
    ensures
        s.filter(keep).len() == 0,
{
    if s.filter(keep).len() > 0 {
        s.lemma_filter_pred(keep, 0);
        s.lemma_filter_contains_rev(keep, s.filter(keep)[0]);
    }
}

/// Whether `item` is the world that was asked for, imported.
pub open spec fn is_imported_world(
    item: DownloadItem,
    request: CurseForgeWorldInstallRequest,
) -> bool {
    &&& item.status == DownloadItemStatus::Completed
    &&& item.project_id is Some
    &&& item.project_id->0@ == numeral(request.project_id as nat)
    &&& item.version_id is Some
    &&& item.version_id->0@ == numeral(request.file_id as nat)
}

/// Whether a history tells that the world was imported.
pub open spec fn world_imported(
    items: Seq<DownloadItem>,
    request: CurseForgeWorldInstallRequest,
) -> bool {
    exists|i: int| 0 <= i < items.len() && is_imported_world(#[trigger] items[i], request)
}

/// Whether the user has downloaded the world that was asked for, so that it was
/// imported.
pub fn curseforge_world_was_imported_manually(
    job_state: &InstallJobState,
    request: &CurseForgeWorldInstallRequest,
) -> (r: bool)
    ensures
        r == world_imported(items_of(job_state.events@), *request),
{
    let project_id = print_u64(request.project_id as u64);
    let file_id = print_u64(request.file_id as u64);
    let items = job_state.download_items();
    let mut i: usize = 0;
    while i < items.len()
        invariant
            i <= items@.len(),
            project_id@ == numeral(request.project_id as nat),
            file_id@ == numeral(request.file_id as nat),
            items@ == items_of(job_state.events@),
            forall|j: int| 0 <= j < i ==> !is_imported_world(#[trigger] items@[j], *request),
        decreases items@.len() - i,
    {
        let item = &items[i];
        if item.status == DownloadItemStatus::Completed && opt_str_eq(
            &item.project_id,
            project_id.as_str(),
        ) && opt_str_eq(&item.version_id, file_id.as_str()) {
            return true;
        }
        i = i + 1;
    }
    false
}

/// Where the user can download a file: the page that CurseForge names, or the
/// one made from the name of the project and the number of the file.
pub open spec fn is_manual_url(url: String, download: CurseForgeManualDownload) -> bool {
    match download.website_url {
        Some(given) => url == given,
        None => url@ == "https://www.curseforge.com/minecraft/worlds/"@ + download.project_slug@
            + "/download/"@ + numeral(download.file_id as nat),
    }
}

/// The path of the archive of a world.
pub open spec fn world_path(download: CurseForgeManualDownload) -> Seq<char> {
    "saves/"@ + download.file_name@
}

/// What is recorded of a world that the user has to download.
pub open spec fn is_world_event(
    kind: InstallJobEventKind,
    download: CurseForgeManualDownload,
) -> bool {
    &&& kind matches InstallJobEventKind::ContentFileSkipped {
        path,
        reason,
        project_id: Some(project_id),
        version_id: Some(version_id),
        manual_url: Some(manual_url),
    }
    &&& path@ == world_path(download)
    &&& reason@ == "CurseForge requires a manual download"@
    &&& project_id@ == numeral(download.project_id as nat)
    &&& version_id@ == numeral(download.file_id as nat)
    &&& is_manual_url(manual_url, download)
}

/// The pause for a world that the user has to download.
pub open spec fn is_world_pause(
    reason: InstallPauseReason,
    download: CurseForgeManualDownload,
) -> bool {
    &&& reason@.0 == 1
    &&& reason@.1.len() == 1
    &&& reason@.1[0]@ == world_path(download)
}

/// What is recorded of a world that the user has to download, and the pause for
/// it.
pub fn world_manual_download(download: &CurseForgeManualDownload) -> (r: (
    InstallJobEventKind,
    InstallPauseReason,
))
    ensures
        is_world_event(r.0, *download),
        is_world_pause(r.1, *download),
{
    let path = concat2("saves/", download.file_name.as_str());
    let version_id = print_u64(download.file_id as u64);
    let manual_url = match &download.website_url {
        Some(url) => url.clone(),
        None => {
            let page = concat3(
                "https://www.curseforge.com/minecraft/worlds/",
                download.project_slug.as_str(),
                "/download/",
            );
            concat2(page.as_str(), version_id.as_str())
        },
    };
    let kind = InstallJobEventKind::ContentFileSkipped {
        path: path.clone(),
        reason: "CurseForge requires a manual download".to_owned(),
        project_id: Some(print_u64(download.project_id as u64)),
        version_id: Some(version_id),
        manual_url: Some(manual_url),
    };
    let mut paths: Vec<String> = Vec::new();
    paths.push(path);
    (kind, InstallPauseReason::MissingRequiredContent { failed_files: 1, paths })
}

/// Whether no event speaks of a file.
pub open spec fn speaks_of_no_file(events: Seq<InstallJobEvent>) -> bool {
    forall|i: int|
        0 <= i < events.len() ==> !((#[trigger] events[i]).kind is ContentFileSkipped)
            && !(events[i].kind is ContentFileRecovered)
}

proof fn lemma_files_stay(before: Seq<InstallJobEvent>, after: Seq<InstallJobEvent>)
    requires
        speaks_of_no_file(after),
    ensures
        items_of(before + after) == items_of(before),
    decreases after.len(),
{
    if after.len() == 0 {
        assert(before + after =~= before);
    } else {
        let init = after.drop_last();
        assert forall|i: int| 0 <= i < init.len() implies !((#[trigger] init[i]).kind
            is ContentFileSkipped) && !(init[i].kind is ContentFileRecovered) by {
            assert(init[i] == after[i]);
        }
        lemma_files_stay(before, init);
        assert((before + after).drop_last() =~= before + init);
        assert((before + after).last() == after[after.len() - 1]);
    }
}

proof fn lemma_item_index_bound(items: Seq<DownloadItem>, id: Seq<char>)
    ensures
        0 <= item_index(items, id) <= items.len(),
        item_index(items, id) < items.len() ==> items[item_index(items, id)].id@ == id,
        forall|k: int| 0 <= k < item_index(items, id) ==> (#[trigger] items[k]).id@ != id,
    decreases items.len(),
{
    if items.len() > 0 && items[0].id@ != id {
        let rest = items.drop_first();
        lemma_item_index_bound(rest, id);
        assert forall|k: int| 0 <= k < item_index(items, id) implies (#[trigger] items[k]).id@
            != id by {
            if k > 0 {
                assert(rest[k - 1] == items[k]);
            }
        }
    }
}

/// A world that the job paused for and that the user has downloaded since counts
/// as imported, whatever happened to the job before, and however often it was
/// paused, queued or started between and after, as long as nothing else is told of
/// a file there.
pub proof fn law_recovered_worlds_are_imported(
    before: Seq<InstallJobEvent>,
    skipped: InstallJobEvent,
    between: Seq<InstallJobEvent>,
    recovered: InstallJobEvent,
    after: Seq<InstallJobEvent>,
    download: CurseForgeManualDownload,
    request: CurseForgeWorldInstallRequest,
)
    requires
        is_world_event(skipped.kind, download),
        download.project_id == request.project_id,
        download.file_id == request.file_id,
        speaks_of_no_file(between),
        recovered.kind is ContentFileRecovered,
        recovered.kind->ContentFileRecovered_path@ == world_path(download),
        speaks_of_no_file(after),
    ensures
        world_imported(
            items_of(before.push(skipped) + between.push(recovered) + after),
            request,
        ),
{
    let id = world_path(download);
    let first = before.push(skipped);
    let known = items_of(before);
    let asked = items_of(first);
    assert(first.drop_last() =~= before);
    lemma_item_index_bound(known, id);
    let k = item_index(known, id);
    assert(asked[k].id@ == id);
    lemma_files_stay(first, between);
    let waiting = first + between;
    let second = first + between.push(recovered);
    assert(second.drop_last() =~= waiting);
    assert(second.last() == recovered);
    lemma_item_index_bound(asked, id);
    let j = item_index(asked, id);
    if j < k {
        assert(asked[j] == known[j]);
    }
    assert(j == k);
    let done = items_of(second);
    assert(is_imported_world(done[k], request));
    lemma_files_stay(second, after);
}

/// How a project of CurseForge is named among projects of all providers.
pub open spec fn curseforge_name(project_id: u32) -> Seq<char> {
    "curseforge:"@ + numeral(project_id as nat)
}

/// How a project of CurseForge is named among projects of all providers.
pub fn curseforge_project(project_id: u32) -> (r: String)
    ensures
        r@ == curseforge_name(project_id),
{
    let number = print_u64(project_id as u64);
    concat2("curseforge:", number.as_str())
}

/// The names of the projects that were installed as dependencies.
pub open spec fn dependency_names(installed: Seq<CurseForgeInstalledFile>) -> Seq<Seq<char>> {
    installed.filter(|f: CurseForgeInstalledFile| f.dependency).map_values(
        |f: CurseForgeInstalledFile| curseforge_name(f.project_id),
    )
}

/// The names of the projects that were installed as dependencies.
pub fn installed_dependencies(result: &CurseForgeInstallResult) -> (r: Vec<String>)
    ensures
        views(r@) == dependency_names(result.installed@),
{
    let installed = &result.installed;
    let mut names: Vec<String> = Vec::new();
    let mut n: usize = 0;
    while n < installed.len()
        invariant
            n <= installed@.len(),
            installed@ == result.installed@,
            views(names@) == dependency_names(installed@.take(n as int)),
        decreases installed@.len() - n,
    {
        let ghost seen = names@;
        if installed[n].dependency {
            names.push(curseforge_project(installed[n].project_id));
            assert(views(names@) =~= views(seen).push(
                curseforge_name(installed@[n as int].project_id),
            ));
        }
        proof {
            reveal(Seq::filter);
            let longer = installed@.take(n + 1);
            assert(longer.drop_last() =~= installed@.take(n as int));
            assert(longer.last() == installed@[n as int]);
            assert(dependency_names(longer) =~= views(names@));
        }
        n = n + 1;
    }
    assert(installed@.take(n as int) =~= installed@);
    names
}

proof fn lemma_wanted_filter(
    downloads: Seq<CurseForgeManualDownload>,
    skipped: Seq<Seq<char>>,
)
    ensures
        wanted_downloads(downloads, skipped).len() > 0 <==> exists|i: int|
            0 <= i < downloads.len() && !skipped.contains((#[trigger] downloads[i]).file_name@),
        forall|i: int|
            0 <= i < downloads.len() && !skipped.contains((#[trigger] downloads[i]).file_name@)
                ==> wanted_downloads(downloads, skipped).contains(downloads[i]),
        forall|k: int|
            0 <= k < wanted_downloads(downloads, skipped).len() ==> downloads.contains(
                #[trigger] wanted_downloads(downloads, skipped)[k],
            ) && !skipped.contains(wanted_downloads(downloads, skipped)[k].file_name@),
    decreases downloads.len(),
{
    reveal(Seq::filter);
    if downloads.len() > 0 {
        let init = downloads.drop_last();
        let last = downloads.len() - 1;
        lemma_wanted_filter(init, skipped);
        let before = wanted_downloads(init, skipped);
        let after = wanted_downloads(downloads, skipped);
        assert(downloads.last() == downloads[last]);
        assert(after == if skipped.contains(downloads[last].file_name@) {
            before
        } else {
            before.push(downloads[last])
        });
        assert forall|i: int| 0 <= i < downloads.len() && !skipped.contains(
            (#[trigger] downloads[i]).file_name@,
        ) implies after.contains(downloads[i]) by {
            if i < last {
                assert(init[i] == downloads[i]);
                let k = choose|k: int| 0 <= k < before.len() && before[k] == init[i];
                assert(after[k] == before[k]);
            } else {
                assert(after[after.len() - 1] == downloads[last]);
            }
        }
        assert forall|k: int| 0 <= k < after.len() implies downloads.contains(
            #[trigger] after[k],
        ) && !skipped.contains(after[k].file_name@) by {
            if k < before.len() {
                assert(after[k] == before[k]);
                let i = choose|i: int| 0 <= i < init.len() && init[i] == before[k];
                assert(downloads[i] == after[k]);
            } else {
                assert(downloads[last] == after[k]);
            }
        }
        if after.len() > 0 {
            let i = choose|i: int| 0 <= i < downloads.len() && downloads[i] == after[0];
            assert(!skipped.contains(downloads[i].file_name@));
        }
    }
}

/// The user has to act exactly if a download that was not skipped has to be done by
/// hand. All such downloads are named and counted, and no others.
pub proof fn law_who_has_to_be_waited_for(
    downloads: Seq<CurseForgeManualDownload>,
    skipped: Seq<Seq<char>>,
    pause: Option<InstallPauseReason>,
)
    requires
        is_manual_pause(downloads, skipped, pause),
    ensures
        pause is Some <==> exists|i: int|
            0 <= i < downloads.len() && !skipped.contains((#[trigger] downloads[i]).file_name@),
        pause matches Some(reason) ==> {
            &&& reason@.0 == reason@.1.len()
            &&& forall|i: int|
                0 <= i < downloads.len() && !skipped.contains((#[trigger] downloads[i]).file_name@)
                    ==> reason@.1.contains(downloads[i].file_name)
            &&& forall|k: int|
                0 <= k < reason@.1.len() ==> exists|i: int|
                    {
                        &&& 0 <= i < downloads.len()
                        &&& (#[trigger] downloads[i]).file_name == #[trigger] reason@.1[k]
                        &&& !skipped.contains(downloads[i].file_name@)
                    }
        },
{
    lemma_wanted_filter(downloads, skipped);
    let wanted = wanted_downloads(downloads, skipped);
    if let Some(reason) = pause {
        let names = wanted.map_values(|d: CurseForgeManualDownload| d.file_name);
        assert forall|i: int| 0 <= i < downloads.len() && !skipped.contains(
            (#[trigger] downloads[i]).file_name@,
        ) implies reason@.1.contains(downloads[i].file_name) by {
            let k = choose|k: int| 0 <= k < wanted.len() && wanted[k] == downloads[i];
            assert(names[k] == downloads[i].file_name);
        }
        assert forall|k: int| 0 <= k < reason@.1.len() implies exists|i: int|
            {
                &&& 0 <= i < downloads.len()
                &&& (#[trigger] downloads[i]).file_name == #[trigger] reason@.1[k]
                &&& !skipped.contains(downloads[i].file_name@)
            } by {
            assert(names[k] == wanted[k].file_name);
            let i = choose|i: int| 0 <= i < downloads.len() && downloads[i] == wanted[k];
            assert(downloads[i].file_name == reason@.1[k]);
        }
    }
}

/// A world counts as imported exactly if the history has a finished file of its
/// project and its version.
pub proof fn law_when_a_world_is_imported(
    items: Seq<DownloadItem>,
    request: CurseForgeWorldInstallRequest,
)
    ensures
        world_imported(items, request) <==> exists|i: int|
            {
                &&& 0 <= i < items.len()
                &&& (#[trigger] items[i]).status == DownloadItemStatus::Completed
                &&& items[i].project_id matches Some(project) && project@ == numeral(
                    request.project_id as nat,
                )
                &&& items[i].version_id matches Some(version) && version@ == numeral(
                    request.file_id as nat,
                )
            },
{
    if world_imported(items, request) {
        let i = choose|i: int|
            0 <= i < items.len() && is_imported_world(#[trigger] items[i], request);
        assert(items[i].status == DownloadItemStatus::Completed);
    }
    if exists|i: int|
        {
            &&& 0 <= i < items.len()
            &&& (#[trigger] items[i]).status == DownloadItemStatus::Completed
            &&& items[i].project_id matches Some(project) && project@ == numeral(
                request.project_id as nat,
            )
            &&& items[i].version_id matches Some(version) && version@ == numeral(
                request.file_id as nat,
            )
        } {
        let i = choose|i: int|
            {
                &&& 0 <= i < items.len()
                &&& (#[trigger] items[i]).status == DownloadItemStatus::Completed
                &&& items[i].project_id matches Some(project) && project@ == numeral(
                    request.project_id as nat,
                )
                &&& items[i].version_id matches Some(version) && version@ == numeral(
                    request.file_id as nat,
                )
            };
        assert(is_imported_world(items[i], request));
    }
}

/// A world that the user has to download is put among the saves: the file that is
/// waited for is the one that is told of, with its project and its version, and
/// where it can be had.
pub proof fn law_manual_worlds_are_waited_for(
    kind: InstallJobEventKind,
    reason: InstallPauseReason,
    download: CurseForgeManualDownload,
)
    requires
        is_world_event(kind, download),
        is_world_pause(reason, download),
    ensures
        kind is ContentFileSkipped,
        kind->ContentFileSkipped_path@ == "saves/"@ + download.file_name@,
        kind->ContentFileSkipped_project_id is Some,
        kind->ContentFileSkipped_project_id->0@ == numeral(download.project_id as nat),
        kind->ContentFileSkipped_version_id is Some,
        kind->ContentFileSkipped_version_id->0@ == numeral(download.file_id as nat),
        kind->ContentFileSkipped_manual_url is Some,
        download.website_url is Some ==> kind->ContentFileSkipped_manual_url
            == download.website_url,
        download.website_url is None ==> kind->ContentFileSkipped_manual_url->0@
            == "https://www.curseforge.com/minecraft/worlds/"@ + download.project_slug@
            + "/download/"@ + numeral(download.file_id as nat),
        reason@.0 == 1,
        reason@.1.len() == 1,
        reason@.1[0]@ == kind->ContentFileSkipped_path@,
{
}

/// The projects that were needed besides are those that were installed as
/// dependencies, each named as one of CurseForge.
pub proof fn law_dependencies_are_named(installed: Seq<CurseForgeInstalledFile>, name: Seq<char>)
    ensures
        dependency_names(installed).contains(name) <==> exists|i: int|
            {
                &&& 0 <= i < installed.len()
                &&& (#[trigger] installed[i]).dependency
                &&& name == "curseforge:"@ + numeral(installed[i].project_id as nat)
            },
    decreases installed.len(),
{
    reveal(Seq::filter);
    let all = dependency_names(installed);
    if installed.len() > 0 {
        let init = installed.drop_last();
        let last = installed.len() - 1;
        law_dependencies_are_named(init, name);
        let before = dependency_names(init);
        assert(installed.last() == installed[last]);
        assert(all =~= if installed[last].dependency {
            before.push(curseforge_name(installed[last].project_id))
        } else {
            before
        });
        if all.contains(name) {
            let k = choose|k: int| 0 <= k < all.len() && all[k] == name;
            if k < before.len() {
                assert(before[k] == name);
                assert(before.contains(name));
                let i = choose|i: int|
                    {
                        &&& 0 <= i < init.len()
                        &&& (#[trigger] init[i]).dependency
                        &&& name == "curseforge:"@ + numeral(init[i].project_id as nat)
                    };
                assert(installed[i] == init[i]);
            } else {
                assert(installed[last].dependency);
            }
        }
        if exists|i: int|
            {
                &&& 0 <= i < installed.len()
                &&& (#[trigger] installed[i]).dependency
                &&& name == "curseforge:"@ + numeral(installed[i].project_id as nat)
            } {
            let i = choose|i: int|
                {
                    &&& 0 <= i < installed.len()
                    &&& (#[trigger] installed[i]).dependency
                    &&& name == "curseforge:"@ + numeral(installed[i].project_id as nat)
                };
            if i < last {
                assert(init[i] == installed[i]);
                let k = choose|k: int| 0 <= k < before.len() && before[k] == name;
                assert(all[k] == name);
            } else {
                assert(all[all.len() - 1] == name);
            }
        }
    } else {
        assert(all =~= seq![]);
    }
}

} // verus!

//! The installation of a modpack: where it is taken from, and what of the old
//! content of an instance is set aside and put back.
use vstd::prelude::*;

use crate::content::provider::ContentProviderRef;
use crate::names::NameSet;
use crate::text::{contains_text, views};

use super::local_pack::{DetectedLocalPack, LocalPackFormat};
use super::model::{
    CreatePackLocation, InstallErrorContext, InstallPhaseDetails, InstallPostInstallEdit,
    InstanceLink,
};

verus! {

/// What the user is told while a modpack is installed.
pub open spec fn pack_details(location: CreatePackLocation) -> InstallPhaseDetails {
    match location {
        CreatePackLocation::FromVersionId { project_id, version_id, title, icon_url: _ } =>
            InstallPhaseDetails::Modpack {
            project_id: Some(project_id),
            version_id: Some(version_id),
            title: Some(title),
        },
        CreatePackLocation::FromFile { .. } => InstallPhaseDetails::Modpack {
            project_id: None,
            version_id: None,
            title: None,
        },
    }
}

/// What the user is told while a modpack is installed.
pub fn modpack_details(location: &CreatePackLocation) -> (r: InstallPhaseDetails)
    ensures
        r == pack_details(*location),
{
    match location {
        CreatePackLocation::FromVersionId { project_id, version_id, title, icon_url: _ } =>
            InstallPhaseDetails::Modpack {
                project_id: Some(project_id.clone()),
                version_id: Some(version_id.clone()),
                title: Some(title.clone()),
            },
        CreatePackLocation::FromFile { .. } => InstallPhaseDetails::Modpack {
            project_id: None,
            version_id: None,
            title: None,
        },
    }
}

/// What a modpack installation is doing when it fails.
pub open spec fn is_pack_context(
    context: InstallErrorContext,
    location: CreatePackLocation,
) -> bool {
    &&& context.cache_types@.len() == 0
    &&& context.sqlite_code is None
    &&& match location {
        CreatePackLocation::FromVersionId { project_id, version_id, title: _, icon_url: _ } => {
            &&& context.operation@ == "download modpack file"@
            &&& context.project_id == Some(project_id)
            &&& context.version_id == Some(version_id)
            &&& context.source_path is None
        },
        CreatePackLocation::FromFile { path } => {
            &&& context.operation@ == "read local modpack file"@
            &&& context.project_id is None
            &&& context.version_id is None
            &&& context.source_path == Some(path)
        },
    }
}

/// What a modpack installation is doing when it fails.
pub fn pack_context(location: &CreatePackLocation) -> (r: InstallErrorContext)
    ensures
        is_pack_context(r, *location),
{
    match location {
        CreatePackLocation::FromVersionId { project_id, version_id, title: _, icon_url: _ } =>
            InstallErrorContext::new("download modpack file").project_id(
                project_id.clone(),
            ).version_id(version_id.clone()).build(),
        CreatePackLocation::FromFile { path } => InstallErrorContext::new(
            "read local modpack file",
        ).source_path(path.clone()).build(),
    }
}

/// What follows the look at a local modpack file.
#[derive(Clone, Debug, PartialEq, Eq)]
pub enum LocalPackRoute {
    /// It is a Modrinth pack and is installed as one.
    Mrpack,
    /// It is a pack of another format, which has its own installer.
    OtherFormat(DetectedLocalPack),
    /// It was not recognized: packs are searched for inside it.
    Search,
}

/// What follows the look at a local modpack file.
pub fn local_pack_route(detected: Option<DetectedLocalPack>) -> (r: LocalPackRoute)
    ensures
        r == match detected {
            Some(pack) => if pack.format == LocalPackFormat::Mrpack {
                LocalPackRoute::Mrpack
            } else {
                LocalPackRoute::OtherFormat(pack)
            },
            None => LocalPackRoute::Search,
        },
{
    match detected {
        Some(pack) => if pack.format == LocalPackFormat::Mrpack {
            LocalPackRoute::Mrpack
        } else {
            LocalPackRoute::OtherFormat(pack)
        },
        None => LocalPackRoute::Search,
    }
}

/// The modpack that an instance holds before another is installed into it.
#[derive(Clone, Debug, PartialEq, Eq)]
pub enum ExistingPack {
    /// A version at Modrinth: its files are known.
    Version { project_id: String, version_id: String },
    /// An imported one: which files it brought is not known.
    Imported,
    /// None that would have to be removed.
    Absent,
}

/// The modpack that an instance with `link` holds.
pub fn existing_pack(link: &InstanceLink) -> (r: ExistingPack)
    ensures
        r == match *link {
            InstanceLink::ModrinthModpack { project_id, version_id } => ExistingPack::Version {
                project_id,
                version_id,
            },
            InstanceLink::ServerProjectModpack {
                server_project_id: _,
                content_project_id,
                content_version_id,
            } => ExistingPack::Version {
                project_id: content_project_id,
                version_id: content_version_id,
            },
            InstanceLink::ImportedModpack { .. } => ExistingPack::Imported,
            _ => ExistingPack::Absent,
        },
{
    match link {
        InstanceLink::ModrinthModpack { project_id, version_id } => ExistingPack::Version {
            project_id: project_id.clone(),
            version_id: version_id.clone(),
        },
        InstanceLink::ServerProjectModpack {
            server_project_id: _,
            content_project_id,
            content_version_id,
        } => ExistingPack::Version {
            project_id: content_project_id.clone(),
            version_id: content_version_id.clone(),
        },
        InstanceLink::ImportedModpack { .. } => ExistingPack::Imported,
        _ => ExistingPack::Absent,
    }
}

/// A file of an instance, with what providers know it as.
#[derive(Clone, Debug, PartialEq, Eq)]
pub struct ProjectFile {
    pub relative_path: String,
    pub enabled: bool,
    pub provider_refs: Vec<ContentProviderRef>,
}

/// The project at Modrinth that the first reference to one names.
pub open spec fn modrinth_project(refs: Seq<ContentProviderRef>) -> Option<String>
    decreases refs.len(),
{
    if refs.len() == 0 {
        None
    } else {
        match refs[0] {
            ContentProviderRef::Modrinth { project_id, version_id: _ } => Some(project_id),
            _ => modrinth_project(refs.drop_first()),
        }
    }
}

proof fn lemma_modrinth_project(refs: Seq<ContentProviderRef>, n: int)
    requires
        0 <= n <= refs.len(),
        forall|j: int| 0 <= j < n ==> !(#[trigger] refs[j] is Modrinth),
        n < refs.len() ==> refs[n] is Modrinth,
    ensures
        modrinth_project(refs) == if n < refs.len() {
            Some(refs[n]->Modrinth_project_id)
        } else {
            None
        },
    decreases refs.len(),
{
    if refs.len() > 0 && n > 0 {
        assert(!(refs[0] is Modrinth));
        let rest = refs.drop_first();
        assert forall|j: int| 0 <= j < n - 1 implies !(#[trigger] rest[j] is Modrinth) by {
            assert(rest[j] == refs[j + 1]);
        }
        lemma_modrinth_project(rest, n - 1);
    }
}

fn first_modrinth_project(refs: &Vec<ContentProviderRef>) -> (r: Option<String>)
    ensures
        r == modrinth_project(refs@),
{
    let mut i: usize = 0;
    while i < refs.len()
        invariant
            i <= refs@.len(),
            forall|j: int| 0 <= j < i ==> !(#[trigger] refs@[j] is Modrinth),
        decreases refs@.len() - i,
    {
        if let ContentProviderRef::Modrinth { project_id, version_id: _ } = &refs[i] {
            proof {
                lemma_modrinth_project(refs@, i as int);
            }
            return Some(project_id.clone());
        }
        i = i + 1;
    }
    proof {
        lemma_modrinth_project(refs@, i as int);
    }
    None
}

/// Whether `file` is a disabled file of the project `id` at Modrinth.
pub open spec fn disables(file: ProjectFile, id: Seq<char>) -> bool {
    !file.enabled && modrinth_project(file.provider_refs@) is Some && modrinth_project(
        file.provider_refs@,
    )->0@ == id
}

/// The projects at Modrinth whose files are disabled.
pub fn disabled_project_ids(files: &Vec<ProjectFile>) -> (r: NameSet)
    ensures
        forall|id: Seq<char>| #[trigger]
            r@.contains(id) <==> exists|i: int|
                0 <= i < files@.len() && disables(#[trigger] files@[i], id),
{
    let mut ids = NameSet::new();
    let mut n: usize = 0;
    while n < files.len()
        invariant
            n <= files@.len(),
            forall|id: Seq<char>| #[trigger]
                ids@.contains(id) <==> exists|i: int|
                    0 <= i < n && disables(#[trigger] files@[i], id),
        decreases files@.len() - n,
    {
        let ghost seen = ids@;
        let file = &files[n];
        if !file.enabled {
            if let Some(project_id) = first_modrinth_project(&file.provider_refs) {
                let _ = ids.insert(project_id.as_str());
            }
        }
        proof {
            assert forall|id: Seq<char>| #[trigger] ids@.contains(id) <==> exists|i: int|
                0 <= i < n + 1 && disables(#[trigger] files@[i], id) by {
                if seen.contains(id) {
                    let i = choose|i: int| 0 <= i < n && disables(#[trigger] files@[i], id);
                    assert(0 <= i < n + 1 && disables(files@[i], id));
                }
                if ids@.contains(id) && !seen.contains(id) {
                    assert(disables(files@[n as int], id));
                }
                if exists|i: int| 0 <= i < n + 1 && disables(#[trigger] files@[i], id) {
                    let i = choose|i: int| 0 <= i < n + 1 && disables(#[trigger] files@[i], id);
                    if i < n {
                        assert(seen.contains(id));
                    }
                }
            }
        }
        n = n + 1;
    }
    ids
}

/// Whether one of `refs` names a project at Modrinth that is in `ids`.
pub open spec fn refers_to(refs: Seq<ContentProviderRef>, ids: Seq<Seq<char>>) -> bool {
    exists|i: int|
        0 <= i < refs.len() && (#[trigger] refs[i]) is Modrinth && ids.contains(
            refs[i]->Modrinth_project_id@,
        )
}

fn any_project_in(refs: &Vec<ContentProviderRef>, ids: &Vec<String>) -> (r: bool)
    ensures
        r == refers_to(refs@, views(ids@)),
{
    let mut i: usize = 0;
    while i < refs.len()
        invariant
            i <= refs@.len(),
            forall|j: int|
                0 <= j < i ==> !((#[trigger] refs@[j]) is Modrinth && views(ids@).contains(
                    refs@[j]->Modrinth_project_id@,
                )),
        decreases refs@.len() - i,
    {
        if let ContentProviderRef::Modrinth { project_id, version_id: _ } = &refs[i] {
            if contains_text(ids, project_id.as_str()) {
                assert(refs@[i as int] is Modrinth);
                return true;
            }
        }
        i = i + 1;
    }
    false
}

/// Whether `file` is switched off again: it was installed enabled, and its
/// project was disabled before.
pub open spec fn is_restored(file: ProjectFile, ids: Seq<Seq<char>>) -> bool {
    file.enabled && refers_to(file.provider_refs@, ids)
}

/// The files to be disabled again after a modpack was installed, in the order of
/// `files`. `disabled_project_ids` are the projects whose files were disabled.
pub fn files_to_disable(files: &Vec<ProjectFile>, disabled_project_ids: &Vec<String>) -> (r: Vec<
    String,
>)
    ensures
        r@ == files@.filter(
            |f: ProjectFile| is_restored(f, views(disabled_project_ids@)),
        ).map_values(|f: ProjectFile| f.relative_path),
{
    let ghost ids = views(disabled_project_ids@);
    let ghost wanted = |f: ProjectFile| is_restored(f, ids);
    let ghost path = |f: ProjectFile| f.relative_path;
    let mut paths: Vec<String> = Vec::new();
    let mut n: usize = 0;
    while n < files.len()
        invariant
            n <= files@.len(),
            ids == views(disabled_project_ids@),
            wanted == (|f: ProjectFile| is_restored(f, ids)),
            path == (|f: ProjectFile| f.relative_path),
            paths@ == files@.take(n as int).filter(wanted).map_values(path),
        decreases files@.len() - n,
    {
        let file = &files[n];
        let restored = file.enabled && any_project_in(&file.provider_refs, disabled_project_ids);
        if restored {
            paths.push(file.relative_path.clone());
        }
        proof {
            reveal(Seq::filter);
            let longer = files@.take(n + 1);
            assert(longer.drop_last() =~= files@.take(n as int));
            assert(longer.last() == files@[n as int]);
            assert(longer.filter(wanted).map_values(path) =~= paths@);
        }
        n = n + 1;
    }
    assert(files@.take(n as int) =~= files@);
    paths
}

/// Only enabled files of projects that were disabled are disabled again.
pub proof fn law_nothing_else_is_disabled(files: Seq<ProjectFile>, ids: Seq<Seq<char>>, path: String)
    requires
        files.filter(|f: ProjectFile| is_restored(f, ids)).map_values(
            |f: ProjectFile| f.relative_path,
        ).contains(path),
    ensures
        exists|i: int|
            0 <= i < files.len() && (#[trigger] files[i]).relative_path == path && is_restored(
                files[i],
                ids,
            ),
{
    let wanted = |f: ProjectFile| is_restored(f, ids);
    let kept = files.filter(wanted);
    let paths = kept.map_values(|f: ProjectFile| f.relative_path);
    let k = choose|k: int| 0 <= k < paths.len() && paths[k] == path;
    assert(kept[k].relative_path == path);
    files.lemma_filter_contains_rev(wanted, kept[k]);
    let i = choose|i: int| 0 <= i < files.len() && files[i] == kept[k];
    assert(wanted(kept[k])) by {
        files.lemma_filter_pred(wanted, k);
    }
    assert(files[i].relative_path == path);
}

/// The edit to be applied after the installation, if it changes anything.
pub fn effective_edit(edit: Option<InstallPostInstallEdit>) -> (r: Option<InstallPostInstallEdit>)
    ensures
        r == match edit {
            Some(e) => if e.name is None && e.icon_path is None && e.link is None {
                None
            } else {
                Some(e)
            },
            None => None,
        },
{
    match edit {
        Some(edit) => if edit.name.is_none() && edit.icon_path.is_none() && edit.link.is_none() {
            None
        } else {
            Some(edit)
        },
        None => None,
    }
}

/// A modpack that comes from a version is shown with its project, its version and its
/// title; of one that comes from a file nothing is known yet.
pub proof fn law_how_modpacks_are_shown(location: CreatePackLocation)
    ensures
        ({
            let shown = pack_details(location);
            &&& shown is Modpack
            &&& location matches CreatePackLocation::FromVersionId {
                project_id,
                version_id,
                title,
                ..
            } ==> {
                &&& shown->Modpack_project_id == Some(project_id)
                &&& shown->Modpack_version_id == Some(version_id)
                &&& shown->Modpack_title == Some(title)
            }
            &&& location is FromFile ==> {
                &&& shown->Modpack_project_id is None
                &&& shown->Modpack_version_id is None
                &&& shown->Modpack_title is None
            }
        }),
{
}

/// An error while a modpack is fetched says which one it is: by its project and its
/// version, or by the path of its file.
pub proof fn law_pack_errors_name_the_pack(
    context: InstallErrorContext,
    location: CreatePackLocation,
)
    requires
        is_pack_context(context, location),
    ensures
        context.cache_types@.len() == 0,
        context.sqlite_code is None,
        location matches CreatePackLocation::FromVersionId { project_id, version_id, .. } ==> {
            &&& context.operation@ == "download modpack file"@
            &&& context.project_id == Some(project_id)
            &&& context.version_id == Some(version_id)
            &&& context.source_path is None
        },
        location matches CreatePackLocation::FromFile { path } ==> {
            &&& context.operation@ == "read local modpack file"@
            &&& context.project_id is None
            &&& context.version_id is None
            &&& context.source_path == Some(path)
        },
{
}

/// A file belongs to the first project of Modrinth that it refers to.
pub proof fn law_the_first_modrinth_project_counts(refs: Seq<ContentProviderRef>)
    ensures
        modrinth_project(refs) is None <==> forall|i: int|
            0 <= i < refs.len() ==> !((#[trigger] refs[i]) is Modrinth),
        modrinth_project(refs) is Some ==> exists|i: int|
            {
                &&& 0 <= i < refs.len()
                &&& (#[trigger] refs[i]) is Modrinth
                &&& modrinth_project(refs)->0 == refs[i]->Modrinth_project_id
                &&& forall|j: int| 0 <= j < i ==> !((#[trigger] refs[j]) is Modrinth)
            },
    decreases refs.len(),
{
    if refs.len() > 0 && !(refs[0] is Modrinth) {
        let rest = refs.drop_first();
        law_the_first_modrinth_project_counts(rest);
        if modrinth_project(rest) is None {
            assert forall|i: int| 0 <= i < refs.len() implies !((#[trigger] refs[i])
                is Modrinth) by {
                if i > 0 {
                    assert(rest[i - 1] == refs[i]);
                }
            }
        } else {
            let i = choose|i: int|
                {
                    &&& 0 <= i < rest.len()
                    &&& (#[trigger] rest[i]) is Modrinth
                    &&& modrinth_project(rest)->0 == rest[i]->Modrinth_project_id
                    &&& forall|j: int| 0 <= j < i ==> !((#[trigger] rest[j]) is Modrinth)
                };
            assert(refs[i + 1] == rest[i]);
            assert forall|j: int| 0 <= j < i + 1 implies !((#[trigger] refs[j]) is Modrinth) by {
                if j > 0 {
                    assert(rest[j - 1] == refs[j]);
                }
            }
        }
    } else if refs.len() > 0 {
        assert(refs[0] is Modrinth);
    }
}

/// A project is kept as disabled exactly by a disabled file that belongs to it.
pub proof fn law_what_keeps_a_project_disabled(file: ProjectFile, id: Seq<char>)
    ensures
        disables(file, id) <==> !file.enabled && exists|i: int|
            {
                &&& 0 <= i < file.provider_refs@.len()
                &&& (#[trigger] file.provider_refs@[i]) is Modrinth
                &&& file.provider_refs@[i]->Modrinth_project_id@ == id
                &&& forall|j: int|
                    0 <= j < i ==> !((#[trigger] file.provider_refs@[j]) is Modrinth)
            },
{
    law_the_first_modrinth_project_counts(file.provider_refs@);
    let refs = file.provider_refs@;
    if exists|i: int|
        {
            &&& 0 <= i < refs.len()
            &&& (#[trigger] refs[i]) is Modrinth
            &&& refs[i]->Modrinth_project_id@ == id
            &&& forall|j: int| 0 <= j < i ==> !((#[trigger] refs[j]) is Modrinth)
        } {
        let i = choose|i: int|
            {
                &&& 0 <= i < refs.len()
                &&& (#[trigger] refs[i]) is Modrinth
                &&& refs[i]->Modrinth_project_id@ == id
                &&& forall|j: int| 0 <= j < i ==> !((#[trigger] refs[j]) is Modrinth)
            };
        let k = choose|k: int|
            {
                &&& 0 <= k < refs.len()
                &&& (#[trigger] refs[k]) is Modrinth
                &&& modrinth_project(refs)->0 == refs[k]->Modrinth_project_id
                &&& forall|j: int| 0 <= j < k ==> !((#[trigger] refs[j]) is Modrinth)
            };
        assert(i == k) by {
            if i < k {
                assert(!(refs[i] is Modrinth));
            }
            if k < i {
                assert(!(refs[k] is Modrinth));
            }
        }
    }
}

/// A file is disabled again exactly if it is enabled and refers to one of the projects
/// that were disabled before.
pub proof fn law_what_is_disabled_again(file: ProjectFile, ids: Seq<Seq<char>>)
    ensures
        is_restored(file, ids) <==> file.enabled && exists|i: int, k: int|
            {
                &&& 0 <= i < file.provider_refs@.len()
                &&& (#[trigger] file.provider_refs@[i]) is Modrinth
                &&& 0 <= k < ids.len()
                &&& file.provider_refs@[i]->Modrinth_project_id@ == #[trigger] ids[k]
            },
{
    let refs = file.provider_refs@;
    if refers_to(refs, ids) {
        let i = choose|i: int|
            0 <= i < refs.len() && (#[trigger] refs[i]) is Modrinth && ids.contains(
                refs[i]->Modrinth_project_id@,
            );
        let k = choose|k: int| 0 <= k < ids.len() && ids[k] == refs[i]->Modrinth_project_id@;
        assert(refs[i]->Modrinth_project_id@ == ids[k]);
    }
    if exists|i: int, k: int|
        {
            &&& 0 <= i < refs.len()
            &&& (#[trigger] refs[i]) is Modrinth
            &&& 0 <= k < ids.len()
            &&& refs[i]->Modrinth_project_id@ == #[trigger] ids[k]
        } {
        let (i, k) = choose|i: int, k: int|
            {
                &&& 0 <= i < refs.len()
                &&& (#[trigger] refs[i]) is Modrinth
                &&& 0 <= k < ids.len()
                &&& refs[i]->Modrinth_project_id@ == #[trigger] ids[k]
            };
        assert(ids.contains(refs[i]->Modrinth_project_id@));
    }
}

/// Every enabled file that refers to a project that was disabled is disabled again.
pub proof fn law_all_of_them_are_disabled(files: Seq<ProjectFile>, ids: Seq<Seq<char>>, i: int)
    requires
        0 <= i < files.len(),
        is_restored(files[i], ids),
    ensures
        files.filter(|f: ProjectFile| is_restored(f, ids)).map_values(
            |f: ProjectFile| f.relative_path,
        ).contains(files[i].relative_path),
{
    let kept = files.filter(|f: ProjectFile| is_restored(f, ids));
    files.lemma_filter_contains(|f: ProjectFile| is_restored(f, ids), i);
    let k = choose|k: int| 0 <= k < kept.len() && kept[k] == files[i];
    assert(kept.map_values(|f: ProjectFile| f.relative_path)[k] == files[i].relative_path);
}

} // verus!

//! How a job gets its instance before it is put into the queue.
use vstd::prelude::*;

use crate::decimal::{numeral, parse_u32, parsed, print_u64};
use crate::error::Refusal;
use crate::text::concat3;

use super::lifecycle::{cleanup_with, set_display, set_instance_id, target_with};
use super::loader_kind::{LoaderComponentRole, ModLoader};
use super::loaders::{selection_refusal, shape, validate_loader_components};
use super::model::{
    CreatePackLocation, InstallCleanup, InstallJobDisplay, InstallJobState, InstallPostInstallEdit,
    InstallRequest, InstallRollbackState, InstanceLink, InstanceMetadata, LoaderComponent,
};
use super::request::number;

verus! {

/// An instance to be created.
#[derive(Debug, PartialEq, Eq)]
pub struct NewInstance {
    pub name: String,
    pub game_version: String,
    pub loader: ModLoader,
    pub loader_version: Option<String>,
    pub icon_path: Option<String>,
    pub link: InstanceLink,
}

/// What is done next to prepare a job.
#[derive(Debug, PartialEq, Eq)]
pub enum PrepareStep {
    /// What a modpack of CurseForge needs is looked up; `after_target` takes it.
    FindTarget { project_id: u32, file_id: u32 },
    /// The components beside the loader are resolved; `after_adjuncts` takes them.
    ResolveAdjuncts,
    /// The modpack is looked at; `modpack_instance` takes what was found.
    PreviewPack { location: CreatePackLocation },
    /// The instance is created; `finish_prepared` takes it.
    Create { instance: NewInstance },
    /// The instance to be copied is loaded; `duplicate_of` takes it.
    LoadSource { instance_id: String },
    /// The instance is loaded, unless it is kept already; `prepare_existing_rollback`
    /// takes it.
    KeepExisting { instance_id: String },
    /// The instance is looked for; `check_content_target` takes whether it is there.
    FindInstance { instance_id: String },
    /// The job is prepared.
    Done,
}

/// Whether `instance` is the one that an import starts with.
pub open spec fn is_import_instance(instance: NewInstance, instance_folder: String) -> bool {
    &&& instance.name == instance_folder
    &&& instance.game_version@ == "unknown"@
    &&& instance.loader == ModLoader::Vanilla
    &&& instance.loader_version is None
    &&& instance.icon_path is None
    &&& instance.link == InstanceLink::Unmanaged
}

/// The title of a job that downloads a Java runtime.
pub open spec fn java_title(vendor: Seq<char>, version: u32) -> Seq<char> {
    "Java "@ + numeral(version as nat) + " ("@ + vendor + ")"@
}

/// How the preparation of a job starts.
pub open spec fn first_step(request: InstallRequest, r: Result<PrepareStep, Refusal>) -> bool {
    match request {
        InstallRequest::CreateInstance { link, .. } => match link {
            InstanceLink::CurseForgeModpack { project_id, version_id } => match (
                number(project_id),
                number(version_id),
            ) {
                (None, _) => r == Err::<PrepareStep, Refusal>(Refusal::InvalidCurseForgeProject),
                (Some(_), None) => r == Err::<PrepareStep, Refusal>(Refusal::InvalidCurseForgeFile),
                (Some(project), Some(file)) => r == Ok::<PrepareStep, Refusal>(
                    PrepareStep::FindTarget { project_id: project as u32, file_id: file as u32 },
                ),
            },
            _ => r == Ok::<PrepareStep, Refusal>(PrepareStep::ResolveAdjuncts),
        },
        InstallRequest::CreateModpackInstance { location, .. } => {
            &&& r matches Ok(PrepareStep::PreviewPack { location: shown })
            &&& shown == location
        },
        InstallRequest::ImportInstance { instance_folder, .. } => {
            &&& r matches Ok(PrepareStep::Create { instance })
            &&& is_import_instance(instance, instance_folder)
        },
        InstallRequest::DuplicateInstance { source_instance_id } => r == Ok::<PrepareStep, Refusal>(
            PrepareStep::LoadSource { instance_id: source_instance_id },
        ),
        InstallRequest::InstallExistingInstance { .. }
        | InstallRequest::InstallPackToExistingInstance { .. }
        | InstallRequest::UpdateManagedCurseForgeModpack { .. } => r == Ok::<PrepareStep, Refusal>(
            PrepareStep::KeepExisting { instance_id: request.named_instance()->0 },
        ),
        InstallRequest::InstallContent { .. }
        | InstallRequest::InstallCurseForgeContent { .. }
        | InstallRequest::InstallCurseForgeWorld { .. } => r == Ok::<PrepareStep, Refusal>(
            PrepareStep::FindInstance { instance_id: request.named_instance()->0 },
        ),
        InstallRequest::DownloadJava { .. } => r == Ok::<PrepareStep, Refusal>(PrepareStep::Done),
    }
}

fn copy_location(location: &CreatePackLocation) -> (r: CreatePackLocation)
    ensures
        r == *location,
{
    match location {
        CreatePackLocation::FromVersionId { project_id, version_id, title, icon_url } =>
            CreatePackLocation::FromVersionId {
                project_id: project_id.clone(),
                version_id: version_id.clone(),
                title: title.clone(),
                icon_url: icon_url.clone(),
            },
        CreatePackLocation::FromFile { path } => CreatePackLocation::FromFile {
            path: path.clone(),
        },
    }
}

/// Starts to prepare a job. A Java runtime needs no instance: the job gets its
/// title here. Any other job keeps its state.
pub fn prepare_initial_instance(job_state: &mut InstallJobState) -> (r: Result<
    PrepareStep,
    Refusal,
>)
    ensures
        first_step(old(job_state).request, r),
        match old(job_state).request {
            InstallRequest::DownloadJava { vendor, version } => {
                &&& *final(job_state) == (InstallJobState {
                    display: final(job_state).display,
                    ..*old(job_state)
                })
                &&& final(job_state).display is Some
                &&& final(job_state).display->0.title@ == java_title(vendor@, version)
                &&& final(job_state).display->0.icon is None
            },
            _ => *final(job_state) == *old(job_state),
        },
{
    let step = match &job_state.request {
        InstallRequest::CreateInstance { link, .. } => match link {
            InstanceLink::CurseForgeModpack { project_id, version_id } => {
                let project_id = match parse_u32(project_id.as_str()) {
                    Some(project_id) => project_id,
                    None => {
                        return Err(Refusal::InvalidCurseForgeProject);
                    },
                };
                let file_id = match parse_u32(version_id.as_str()) {
                    Some(file_id) => file_id,
                    None => {
                        return Err(Refusal::InvalidCurseForgeFile);
                    },
                };
                PrepareStep::FindTarget { project_id, file_id }
            },
            _ => PrepareStep::ResolveAdjuncts,
        },
        InstallRequest::CreateModpackInstance { location, .. } => PrepareStep::PreviewPack {
            location: copy_location(location),
        },
        InstallRequest::ImportInstance { instance_folder, .. } => PrepareStep::Create {
            instance: NewInstance {
                name: instance_folder.clone(),
                game_version: "unknown".to_owned(),
                loader: ModLoader::Vanilla,
                loader_version: None,
                icon_path: None,
                link: InstanceLink::Unmanaged,
            },
        },
        InstallRequest::DuplicateInstance { source_instance_id } => PrepareStep::LoadSource {
            instance_id: source_instance_id.clone(),
        },
        InstallRequest::InstallExistingInstance { instance_id, .. } => PrepareStep::KeepExisting {
            instance_id: instance_id.clone(),
        },
        InstallRequest::InstallPackToExistingInstance { instance_id, .. } =>
            PrepareStep::KeepExisting { instance_id: instance_id.clone() },
        InstallRequest::UpdateManagedCurseForgeModpack { instance_id, .. } =>
            PrepareStep::KeepExisting { instance_id: instance_id.clone() },
        InstallRequest::InstallContent { instance_id, .. } => PrepareStep::FindInstance {
            instance_id: instance_id.clone(),
        },
        InstallRequest::InstallCurseForgeContent { request, .. } => PrepareStep::FindInstance {
            instance_id: request.instance_id.clone(),
        },
        InstallRequest::InstallCurseForgeWorld { request, .. } => PrepareStep::FindInstance {
            instance_id: request.instance_id.clone(),
        },
        InstallRequest::DownloadJava { vendor, version } => {
            let number = print_u64(*version as u64);
            let start = concat3("Java ", number.as_str(), " (");
            let title = concat3(start.as_str(), vendor.as_str(), ")");
            job_state.display = Some(InstallJobDisplay { title, icon: None });
            return Ok(PrepareStep::Done);
        },
    };
    Ok(step)
}

/// What a modpack of CurseForge needs.
#[derive(Debug, PartialEq, Eq)]
pub struct ModpackTarget {
    pub game_version: String,
    pub loader: ModLoader,
    pub loader_version: Option<String>,
}

/// Makes the instance of the job what its modpack needs; nothing else stands
/// beside the loader then. The components are resolved next.
pub fn after_target(job_state: &mut InstallJobState, target: ModpackTarget)
    ensures
        *final(job_state) == (InstallJobState {
            request: final(job_state).request,
            ..*old(job_state)
        }),
        match old(job_state).request {
            InstallRequest::CreateInstance { name, icon_path, link, .. } => {
                &&& final(job_state).request matches InstallRequest::CreateInstance {
                    name: new_name,
                    game_version,
                    loader,
                    loader_version,
                    adjuncts,
                    icon_path: new_icon_path,
                    link: new_link,
                }
                &&& new_name == name && new_icon_path == icon_path && new_link == link
                &&& game_version == target.game_version
                &&& loader == target.loader
                &&& loader_version == target.loader_version
                &&& adjuncts@.len() == 0
            },
            request => final(job_state).request == request,
        },
{
    let request = match &job_state.request {
        InstallRequest::CreateInstance { name, icon_path, link, .. } =>
            InstallRequest::CreateInstance {
                name: name.clone(),
                game_version: target.game_version,
                loader: target.loader,
                loader_version: target.loader_version,
                adjuncts: Vec::new(),
                icon_path: icon_path.clone(),
                link: link.clone(),
            },
        _ => {
            return ;
        },
    };
    job_state.request = request;
}

/// Puts the resolved components into the request of the job, which then names
/// the instance to be created.
pub fn after_adjuncts(job_state: &mut InstallJobState, resolved: Vec<LoaderComponent>) -> (r:
    PrepareStep)
    ensures
        match old(job_state).request {
            InstallRequest::CreateInstance {
                name,
                game_version,
                loader,
                loader_version,
                adjuncts: _,
                icon_path,
                link,
            } => {
                &&& *final(job_state) == (InstallJobState {
                    request: InstallRequest::CreateInstance {
                        name,
                        game_version,
                        loader,
                        loader_version,
                        adjuncts: resolved,
                        icon_path,
                        link,
                    },
                    ..*old(job_state)
                })
                &&& r == (PrepareStep::Create {
                    instance: NewInstance {
                        name,
                        game_version,
                        loader,
                        loader_version,
                        icon_path,
                        link,
                    },
                })
            },
            _ => *final(job_state) == *old(job_state) && r == PrepareStep::Done,
        },
{
    let (request, instance) = match &job_state.request {
        InstallRequest::CreateInstance {
            name,
            game_version,
            loader,
            loader_version,
            adjuncts: _,
            icon_path,
            link,
        } => (
            InstallRequest::CreateInstance {
                name: name.clone(),
                game_version: game_version.clone(),
                loader: *loader,
                loader_version: loader_version.clone(),
                adjuncts: resolved,
                icon_path: icon_path.clone(),
                link: link.clone(),
            },
            NewInstance {
                name: name.clone(),
                game_version: game_version.clone(),
                loader: *loader,
                loader_version: loader_version.clone(),
                icon_path: icon_path.clone(),
                link: link.clone(),
            },
        ),
        _ => {
            return PrepareStep::Done;
        },
    };
    job_state.request = request;
    PrepareStep::Create { instance }
}

/// What a look at a modpack tells of the instance that it makes.
#[derive(Debug, PartialEq, Eq)]
pub struct PackPreview {
    pub name: String,
    pub game_version: String,
    pub modloader: ModLoader,
    pub loader_version: Option<String>,
    /// The path of an icon that was extracted.
    pub icon: Option<String>,
    pub icon_url: Option<String>,
    pub link: Option<InstanceLink>,
}

/// `a`, or else `b`.
pub open spec fn either<A>(a: Option<A>, b: Option<A>) -> Option<A> {
    match a {
        Some(_) => a,
        None => b,
    }
}

/// The instance that a modpack makes: what the user has chosen goes before what
/// the pack says.
pub open spec fn instance_of_pack(
    preview: PackPreview,
    edit: Option<InstallPostInstallEdit>,
) -> NewInstance {
    let name = match edit {
        Some(edit) => edit.name,
        None => None,
    };
    let icon = match edit {
        Some(edit) => edit.icon_path,
        None => None,
    };
    let link = match edit {
        Some(edit) => edit.link,
        None => None,
    };
    NewInstance {
        name: match name {
            Some(name) => name,
            None => preview.name,
        },
        game_version: preview.game_version,
        loader: preview.modloader,
        loader_version: preview.loader_version,
        icon_path: match icon {
            Some(icon) => icon,
            None => either(preview.icon, preview.icon_url),
        },
        link: match either(link, preview.link) {
            Some(link) => link,
            None => InstanceLink::Unmanaged,
        },
    }
}

/// The instance that a modpack makes.
pub fn modpack_instance(preview: PackPreview, edit: &Option<InstallPostInstallEdit>) -> (r:
    NewInstance)
    ensures
        r == instance_of_pack(preview, *edit),
        r.game_version == preview.game_version,
        r.loader == preview.modloader,
        r.loader_version == preview.loader_version,
        r.name == match *edit {
            Some(InstallPostInstallEdit { name: Some(name), .. }) => name,
            _ => preview.name,
        },
{
    let (name, icon, link) = match edit {
        Some(edit) => (edit.name.clone(), edit.icon_path.clone(), edit.link.clone()),
        None => (None, None, None),
    };
    let icon_path = match icon {
        Some(icon) => icon,
        None => match preview.icon {
            Some(icon) => Some(icon),
            None => preview.icon_url,
        },
    };
    let link = match link {
        Some(link) => link,
        None => match preview.link {
            Some(link) => link,
            None => InstanceLink::Unmanaged,
        },
    };
    NewInstance {
        name: match name {
            Some(name) => name,
            None => preview.name,
        },
        game_version: preview.game_version,
        loader: preview.modloader,
        loader_version: preview.loader_version,
        icon_path,
        link,
    }
}

/// The copy of an instance, if there is such an instance.
pub fn duplicate_of(source: Option<InstanceMetadata>) -> (r: Result<NewInstance, Refusal>)
    ensures
        match source {
            Some(source) => r == Ok::<NewInstance, Refusal>(
                NewInstance {
                    name: source.instance.name,
                    game_version: source.applied_content_set.game_version,
                    loader: source.applied_content_set.loader,
                    loader_version: source.applied_content_set.loader_version,
                    icon_path: source.instance.icon_path,
                    link: source.link,
                },
            ),
            None => r == Err::<NewInstance, Refusal>(Refusal::UnknownInstance),
        },
{
    match source {
        Some(source) => Ok(
            NewInstance {
                name: source.instance.name,
                game_version: source.applied_content_set.game_version,
                loader: source.applied_content_set.loader,
                loader_version: source.applied_content_set.loader_version,
                icon_path: source.instance.icon_path,
                link: source.link,
            },
        ),
        None => Err(Refusal::UnknownInstance),
    }
}

/// The components that a request asks for beside the loader.
pub open spec fn asked_adjuncts(request: InstallRequest) -> Seq<LoaderComponent> {
    match request {
        InstallRequest::CreateInstance { adjuncts, .. } => adjuncts@,
        _ => seq![],
    }
}

/// The components of an instance once `adjuncts` stand beside those it has.
pub open spec fn joined_components(
    existing: Seq<LoaderComponent>,
    adjuncts: Seq<LoaderComponent>,
    instance_id: String,
) -> Seq<LoaderComponent> {
    existing + adjuncts.map_values(
        |a: LoaderComponent|
            LoaderComponent { instance_id, role: LoaderComponentRole::Adjunct, ..a },
    )
}

/// The components that replace those of an instance that was just created, if
/// the request asks for any beside the loader.
pub fn new_components(job_state: &InstallJobState, created: &InstanceMetadata) -> (r: Result<
    Option<Vec<LoaderComponent>>,
    Refusal,
>)
    ensures
        ({
            let asked = asked_adjuncts(job_state.request);
            let all = joined_components(
                created.loader_components@,
                asked,
                created.instance.id,
            );
            match r {
                Ok(None) => asked.len() == 0,
                Ok(Some(components)) => {
                    &&& asked.len() > 0
                    &&& selection_refusal(shape(all)) is None
                    &&& components@ == all
                },
                Err(refusal) => asked.len() > 0 && selection_refusal(shape(all)) == Some(refusal),
            }
        }),
{
    let adjuncts = match &job_state.request {
        InstallRequest::CreateInstance { adjuncts, .. } => adjuncts,
        _ => {
            return Ok(None);
        },
    };
    if adjuncts.len() == 0 {
        return Ok(None);
    }
    let existing = &created.loader_components;
    let ghost id = created.instance.id;
    let mut components: Vec<LoaderComponent> = Vec::new();
    let mut i: usize = 0;
    while i < existing.len()
        invariant
            i <= existing@.len(),
            components@ == existing@.take(i as int),
        decreases existing@.len() - i,
    {
        components.push(existing[i].clone());
        assert(existing@.take(i + 1) =~= existing@.take(i as int).push(existing@[i as int]));
        i = i + 1;
    }
    assert(existing@.take(i as int) =~= existing@);
    let mut k: usize = 0;
    while k < adjuncts.len()
        invariant
            k <= adjuncts@.len(),
            id == created.instance.id,
            existing@ == created.loader_components@,
            components@ == joined_components(existing@, adjuncts@.take(k as int), id),
        decreases adjuncts@.len() - k,
    {
        let mut adjunct = adjuncts[k].clone();
        adjunct.instance_id = created.instance.id.clone();
        adjunct.role = LoaderComponentRole::Adjunct;
        components.push(adjunct);
        proof {
            assert(adjuncts@.take(k + 1) =~= adjuncts@.take(k as int).push(adjuncts@[k as int]));
            assert(components@ =~= joined_components(existing@, adjuncts@.take(k + 1), id));
        }
        k = k + 1;
    }
    assert(adjuncts@.take(k as int) =~= adjuncts@);
    match validate_loader_components(&components) {
        Ok(_) => Ok(Some(components)),
        Err(refusal) => Err(refusal),
    }
}

/// Makes the instance that was just created the one that the job works on.
pub fn finish_prepared(job_state: &mut InstallJobState, created: &InstanceMetadata)
    ensures
        *final(job_state) == (InstallJobState {
            display: Some(
                InstallJobDisplay {
                    title: created.instance.name,
                    icon: created.instance.icon_path,
                },
            ),
            target: target_with(old(job_state).target, created.instance.id),
            cleanup: cleanup_with(old(job_state).cleanup, created.instance.id),
            ..*old(job_state)
        }),
{
    set_display(job_state, created.instance.name.clone(), created.instance.icon_path.clone());
    set_instance_id(job_state, created.instance.id.clone());
}

/// What the user sees of a job that installs content, by its request.
pub open spec fn content_display(request: InstallRequest) -> Option<InstallJobDisplay> {
    match request {
        InstallRequest::InstallContent { display_title, display_icon, .. } => Some(
            InstallJobDisplay { title: display_title, icon: display_icon },
        ),
        InstallRequest::InstallCurseForgeContent { display_title, display_icon, .. } => Some(
            InstallJobDisplay { title: display_title, icon: display_icon },
        ),
        InstallRequest::InstallCurseForgeWorld { display_title, display_icon, .. } => Some(
            InstallJobDisplay { title: display_title, icon: display_icon },
        ),
        _ => None,
    }
}

/// Takes whether the instance that content is installed into is there.
pub fn check_content_target(
    job_state: &mut InstallJobState,
    instance_id: &String,
    found: bool,
) -> (r: Result<(), Refusal>)
    ensures
        match r {
            Ok(_) => {
                &&& found
                &&& *final(job_state) == (InstallJobState {
                    display: match content_display(old(job_state).request) {
                        Some(display) => Some(display),
                        None => old(job_state).display,
                    },
                    ..*old(job_state)
                })
            },
            Err(refusal) => {
                &&& !found
                &&& refusal == Refusal::UnknownInstanceId(*instance_id)
                &&& *final(job_state) == *old(job_state)
            },
        },
{
    if !found {
        return Err(Refusal::UnknownInstanceId(instance_id.clone()));
    }
    let (title, icon) = match &job_state.request {
        InstallRequest::InstallContent { display_title, display_icon, .. } => (
            display_title.clone(),
            display_icon.clone(),
        ),
        InstallRequest::InstallCurseForgeContent { display_title, display_icon, .. } => (
            display_title.clone(),
            display_icon.clone(),
        ),
        InstallRequest::InstallCurseForgeWorld { display_title, display_icon, .. } => (
            display_title.clone(),
            display_icon.clone(),
        ),
        _ => {
            return Ok(());
        },
    };
    set_display(job_state, title, icon);
    Ok(())
}

/// Keeps what puts an existing instance back as it is now, unless the job keeps
/// it already. If the result is `true`, the instance is then marked as being
/// installed and announced.
pub fn prepare_existing_rollback(
    job_state: &mut InstallJobState,
    instance_id: &String,
    found: Option<InstanceMetadata>,
) -> (r: Result<bool, Refusal>)
    ensures
        if old(job_state).rollback is Some {
            &&& r == Ok::<bool, Refusal>(false)
            &&& *final(job_state) == *old(job_state)
        } else {
            match found {
                Some(instance) => {
                    &&& r == Ok::<bool, Refusal>(true)
                    &&& *final(job_state) == (InstallJobState {
                        display: Some(
                            InstallJobDisplay {
                                title: instance.instance.name,
                                icon: instance.instance.icon_path,
                            },
                        ),
                        rollback: Some(
                            InstallRollbackState {
                                instance,
                                install_stage: instance.instance.install_stage,
                                content: None,
                            },
                        ),
                        cleanup: InstallCleanup::RestoreExistingInstance {
                            instance_id: *instance_id,
                        },
                        ..*old(job_state)
                    })
                },
                None => {
                    &&& r == Err::<bool, Refusal>(Refusal::UnknownInstanceId(*instance_id))
                    &&& *final(job_state) == *old(job_state)
                },
            }
        },
{
    if job_state.rollback.is_some() {
        return Ok(false);
    }
    match found {
        Some(instance) => {
            let install_stage = instance.instance.install_stage;
            set_display(
                job_state,
                instance.instance.name.clone(),
                instance.instance.icon_path.clone(),
            );
            job_state.rollback = Some(
                InstallRollbackState { instance, install_stage, content: None },
            );
            job_state.cleanup = InstallCleanup::RestoreExistingInstance {
                instance_id: instance_id.clone(),
            };
            Ok(true)
        },
        None => Err(Refusal::UnknownInstanceId(instance_id.clone())),
    }
}

/// An instance of a modpack is one of the game version, the loader and the loader
/// version that the modpack names, whatever the user changes about it. What the user
/// changes are its name, its icon and its link, each by itself; where the user has
/// nothing to say, it is what the modpack says.
pub proof fn law_modpacks_decide_what_is_played(
    preview: PackPreview,
    edit: Option<InstallPostInstallEdit>,
)
    ensures
        ({
            let made = instance_of_pack(preview, edit);
            &&& made.game_version == preview.game_version
            &&& made.loader == preview.modloader
            &&& made.loader_version == preview.loader_version
            &&& edit is Some && edit->0.name is Some ==> made.name == edit->0.name->0
            &&& edit is None || edit->0.name is None ==> made.name == preview.name
            &&& edit is Some && edit->0.icon_path is Some ==> made.icon_path
                == edit->0.icon_path->0
            &&& edit is None || edit->0.icon_path is None ==> {
                &&& preview.icon is Some ==> made.icon_path == preview.icon
                &&& preview.icon is None ==> made.icon_path == preview.icon_url
            }
            &&& edit is Some && edit->0.link is Some ==> made.link == edit->0.link->0
            &&& edit is None || edit->0.link is None ==> {
                &&& preview.link is Some ==> made.link == preview.link->0
                &&& preview.link is None ==> made.link == InstanceLink::Unmanaged
            }
        }),
{
}

/// What has to be found out first is found out about what the request names: the
/// modpack of its link or its location, the instance to be copied, the instance that
/// is installed into. An instance of another launcher is created under the name of
/// its folder, and nothing else is known of it yet. Only a download of Java needs
/// nothing.
pub proof fn law_requests_are_prepared_with_what_they_name(
    request: InstallRequest,
    r: Result<PrepareStep, Refusal>,
)
    requires
        first_step(request, r),
    ensures
        r == Ok::<PrepareStep, Refusal>(PrepareStep::Done) <==> request is DownloadJava,
        r is Err ==> request is CreateInstance,
        request matches InstallRequest::CreateInstance { link, .. } ==> match link {
            InstanceLink::CurseForgeModpack { project_id, version_id } => {
                let project = parsed(project_id@, u32::MAX as nat);
                let file = parsed(version_id@, u32::MAX as nat);
                &&& project is None ==> r == Err::<PrepareStep, Refusal>(
                    Refusal::InvalidCurseForgeProject,
                )
                &&& project is Some && file is None ==> r == Err::<PrepareStep, Refusal>(
                    Refusal::InvalidCurseForgeFile,
                )
                &&& project is Some && file is Some ==> {
                    &&& r matches Ok(PrepareStep::FindTarget { project_id: p, file_id: f })
                    &&& p == project->0
                    &&& f == file->0
                }
            },
            _ => r == Ok::<PrepareStep, Refusal>(PrepareStep::ResolveAdjuncts),
        },
        request matches InstallRequest::CreateModpackInstance { location, .. } ==> r == Ok::<
            PrepareStep,
            Refusal,
        >(PrepareStep::PreviewPack { location }),
        request matches InstallRequest::ImportInstance { instance_folder, .. } ==> {
            &&& r matches Ok(PrepareStep::Create { instance })
            &&& instance.name == instance_folder
            &&& instance.game_version@ == "unknown"@
            &&& instance.loader == ModLoader::Vanilla
            &&& instance.loader_version is None
            &&& instance.icon_path is None
            &&& instance.link == InstanceLink::Unmanaged
        },
        request matches InstallRequest::DuplicateInstance { source_instance_id } ==> r == Ok::<
            PrepareStep,
            Refusal,
        >(PrepareStep::LoadSource { instance_id: source_instance_id }),
        request matches InstallRequest::InstallExistingInstance { instance_id, .. } ==> r == Ok::<
            PrepareStep,
            Refusal,
        >(PrepareStep::KeepExisting { instance_id }),
        request matches InstallRequest::InstallPackToExistingInstance { instance_id, .. } ==> r
            == Ok::<PrepareStep, Refusal>(PrepareStep::KeepExisting { instance_id }),
        request matches InstallRequest::UpdateManagedCurseForgeModpack { instance_id, .. } ==> r
            == Ok::<PrepareStep, Refusal>(PrepareStep::KeepExisting { instance_id }),
        request matches InstallRequest::InstallContent { instance_id, .. } ==> r == Ok::<
            PrepareStep,
            Refusal,
        >(PrepareStep::FindInstance { instance_id }),
        request matches InstallRequest::InstallCurseForgeContent { request: content, .. } ==> r
            == Ok::<PrepareStep, Refusal>(
            PrepareStep::FindInstance { instance_id: content.instance_id },
        ),
        request matches InstallRequest::InstallCurseForgeWorld { request: world, .. } ==> r == Ok::<
            PrepareStep,
            Refusal,
        >(PrepareStep::FindInstance { instance_id: world.instance_id }),
{
}

/// A new instance has the components that it was created with, and behind them those
/// that were asked for, in order: each of the kind and the version that was asked
/// for, as something beside the loader, in the new instance.
pub proof fn law_components_are_joined(
    existing: Seq<LoaderComponent>,
    adjuncts: Seq<LoaderComponent>,
    instance_id: String,
)
    ensures
        ({
            let all = joined_components(existing, adjuncts, instance_id);
            &&& all.len() == existing.len() + adjuncts.len()
            &&& forall|i: int| 0 <= i < existing.len() ==> #[trigger] all[i] == existing[i]
            &&& forall|i: int|
                0 <= i < adjuncts.len() ==> {
                    let joined = #[trigger] all[existing.len() + i];
                    &&& joined.instance_id == instance_id
                    &&& joined.role == LoaderComponentRole::Adjunct
                    &&& joined == (LoaderComponent {
                        instance_id,
                        role: LoaderComponentRole::Adjunct,
                        ..adjuncts[i]
                    })
                }
        }),
{
}

/// Only a new instance can be asked to have components, and it is asked for those of
/// the request.
pub proof fn law_who_is_asked_for_components(request: InstallRequest)
    ensures
        asked_adjuncts(request).len() > 0 ==> request is CreateInstance,
        request matches InstallRequest::CreateInstance { adjuncts, .. } ==> asked_adjuncts(request)
            == adjuncts@,
{
}

/// Content is shown under the title and the icon that came with the request, and
/// nothing else is.
pub proof fn law_how_content_is_shown(request: InstallRequest)
    ensures
        ({
            let shown = content_display(request);
            &&& shown is Some <==> request is InstallContent || request is InstallCurseForgeContent
                || request is InstallCurseForgeWorld
            &&& request matches InstallRequest::InstallContent { display_title, display_icon, .. }
                ==> shown->0.title == display_title && shown->0.icon == display_icon
            &&& request matches InstallRequest::InstallCurseForgeContent {
                display_title,
                display_icon,
                ..
            } ==> shown->0.title == display_title && shown->0.icon == display_icon
            &&& request matches InstallRequest::InstallCurseForgeWorld {
                display_title,
                display_icon,
                ..
            } ==> shown->0.title == display_title && shown->0.icon == display_icon
        }),
{
}

/// A download of Java is shown with its version and its vendor.
pub proof fn law_how_java_is_shown(vendor: Seq<char>, version: u32)
    ensures
        ({
            let digits = numeral(version as nat);
            let shown = java_title(vendor, version);
            &&& shown.subrange(0, 5) == "Java "@
            &&& shown.subrange(5, 5 + digits.len() as int) == digits
            &&& shown.subrange(5 + digits.len() as int, shown.len() as int) == " ("@ + vendor + ")"@
        }),
{
    reveal_strlit("Java ");
    let digits = numeral(version as nat);
    let shown = java_title(vendor, version);
    assert(shown.subrange(0, 5) =~= "Java "@);
    assert(shown.subrange(5, 5 + digits.len() as int) =~= digits);
    assert(shown.subrange(5 + digits.len() as int, shown.len() as int) =~= " ("@ + vendor + ")"@);
}

} // verus!

//! What a job does for its request: the actions in their order, up to the point
//! where the job is done, waits for the user, is refused, or has to ask for
//! something that decides how it goes on.
use vstd::prelude::*;

use crate::decimal::{parse_u32, parsed};
use crate::error::Refusal;
use crate::names::NameSet;
use crate::order::{before, sorted_union, sorted_unique};
use crate::text::{clone_strings, views};

use super::curseforge::{
    curseforge_manual_download_pause, curseforge_name, curseforge_project,
    curseforge_world_was_imported_manually, dependency_names, installed_dependencies,
    is_manual_pause, is_world_event, law_who_has_to_be_waited_for, is_world_pause, world_imported, world_manual_download,
};
use super::lifecycle::{current_instance_id, target_instance};
use super::loader_kind::ModLoader;
use super::local_pack::PackOutcome;
use super::model::{
    items_of, CreatePackLocation, CurseForgeInstallRequest, CurseForgeInstallResult,
    CurseForgeManualDownload, CurseForgeModpackInstallResult, CurseForgeWorldInstallRequest,
    InstallContinuationState, InstallJavaStep, InstallJobEventKind, InstallJobState,
    InstallPauseReason, InstallPhaseDetails, InstallPhaseId, InstallPostInstallEdit,
    InstallProgress, InstallRequest, InstanceInstallStage, InstanceLink, LoaderComponent,
};
use super::pack::{effective_edit, modpack_details, pack_details};

verus! {

/// One thing that a job does.
#[derive(Debug, PartialEq, Eq)]
pub enum RequestAction {
    /// The job moves to `phase`; its state is stored and announced.
    UpdateProgress { phase: InstallPhaseId, details: InstallPhaseDetails },
    /// The reporter moves to `phase`.
    Report {
        phase: InstallPhaseId,
        progress: Option<InstallProgress>,
        details: InstallPhaseDetails,
    },
    SetInstallStage { instance_id: String, stage: InstanceInstallStage },
    EmitEdited { instance_id: String },
    /// What puts the instance back as it is now is kept, unless it is kept already.
    PrepareRollback { instance_id: String },
    /// The game is installed; the instance is finished by the job, not by this.
    InstallMinecraft { instance_id: String, force: bool },
    InstallAdjuncts {
        instance_id: String,
        adjuncts: Vec<LoaderComponent>,
        game_version: String,
        loader: ModLoader,
    },
    ImportInstance {
        instance_id: String,
        launcher_type: String,
        base_path: String,
        instance_folder: String,
        instance_path: Option<String>,
        symlink: bool,
        game_version: Option<String>,
        loader: Option<ModLoader>,
        loader_version: Option<String>,
    },
    CopyInstance { instance_id: String, source_instance_id: String },
    /// The checkpoint of the job is set and stored.
    SaveContinuation { continuation: Option<InstallContinuationState> },
    /// The files of these projects are disabled again.
    RestoreDisabled { instance_id: String, project_ids: Vec<String> },
    ApplyEdit { instance_id: String, edit: InstallPostInstallEdit },
    /// The content that was resolved is installed.
    InstallContentPlan { instance_id: String },
    EmitContentChanged { instance_id: String },
    EmitContentInstallFinished {
        instance_id: String,
        project_ids: Vec<String>,
        dependency_project_ids: Vec<String>,
    },
    RecordEvent { kind: InstallJobEventKind },
    DownloadJava { vendor: String, version: u32 },
}

/// What is left to do for a new instance.
#[derive(Debug, PartialEq, Eq)]
pub struct CreateRest {
    pub instance_id: String,
    pub game_version: String,
    pub loader: ModLoader,
    pub adjuncts: Vec<LoaderComponent>,
}

/// What is left to do once it is known whether the instance can be launched.
#[derive(Debug, PartialEq, Eq)]
pub enum ContextRest {
    Create { rest: CreateRest },
    Install { instance_id: String, force: bool },
}

/// What is left to do once a modpack is installed.
#[derive(Debug, PartialEq, Eq)]
pub enum PackRest {
    New { instance_id: String, edit: Option<InstallPostInstallEdit> },
    Existing {
        instance_id: String,
        project_ids: Vec<String>,
        edit: Option<InstallPostInstallEdit>,
    },
}

/// What is left to do once the content of the old modpack is removed.
#[derive(Debug, PartialEq, Eq)]
pub struct RemovalRest {
    pub instance_id: String,
    pub location: CreatePackLocation,
    pub edit: Option<InstallPostInstallEdit>,
}

/// How a row of actions ends.
#[derive(Debug, PartialEq, Eq)]
pub enum RequestEnd {
    /// The work is done, for this instance.
    Completed { instance_id: Option<String> },
    WaitingForUser { reason: InstallPauseReason },
    Refused { refusal: Refusal },
    /// A modpack of CurseForge is installed into a new instance; `after_modpack`
    /// takes what became of it.
    InstallModpack { instance_id: String, project_id: u32, file_id: u32, rest: CreateRest },
    /// What the instance is launched with is loaded; `after_context` takes whether
    /// there is any.
    LoadContext { instance_id: String, rest: ContextRest },
    /// A modpack is installed; `after_pack` takes the outcome.
    InstallPack { location: CreatePackLocation, instance_id: String, rest: PackRest },
    /// The content of the old modpack is removed; `after_removal` takes the
    /// projects whose files were disabled.
    RemovePackContent { instance_id: String, rest: RemovalRest },
    /// What has to be installed is resolved; `after_content_plan` takes the
    /// projects that are needed besides.
    ResolveContent {
        instance_id: String,
        project_id: String,
        version_id: Option<String>,
        content_type: String,
        selected: String,
        excluded_project_ids: Vec<String>,
    },
    /// A file of CurseForge is installed; `after_curseforge_content` takes the
    /// outcome.
    InstallCurseForgeContent { request: CurseForgeInstallRequest },
    /// A world of CurseForge is installed; `after_world` takes what the user has to
    /// download, if anything.
    InstallWorld { request: CurseForgeWorldInstallRequest },
    /// A modpack of CurseForge is brought to another version; `after_update` takes
    /// what became of it.
    UpdateModpack { instance_id: String, file_id: u32 },
}

/// A row of actions, and how it ends. A row is left at its first error.
#[derive(Debug, PartialEq, Eq)]
pub struct RequestPlan {
    pub actions: Vec<RequestAction>,
    pub end: RequestEnd,
}

/// What the start of a job depends on besides its request.
#[derive(Debug, PartialEq, Eq)]
pub struct RunFacts {
    /// The instance that the job works on.
    pub instance_id: Option<String>,
    /// Where the job takes up its work again.
    pub continuation: Option<InstallContinuationState>,
    /// Whether the world that was asked for was imported by hand.
    pub world_imported: bool,
}

/// What the start of a job depends on besides its request.
pub fn run_facts(job_state: &InstallJobState) -> (r: RunFacts)
    ensures
        r.instance_id == target_instance(job_state.target),
        match (r.continuation, job_state.continuation) {
            (
                Some(
                    InstallContinuationState::InstallingPackToExistingInstance {
                        disabled_project_ids: a,
                    },
                ),
                Some(
                    InstallContinuationState::InstallingPackToExistingInstance {
                        disabled_project_ids: b,
                    },
                ),
            ) => a@ == b@,
            (None, None) => true,
            _ => false,
        },
        r.world_imported == match job_state.request {
            InstallRequest::InstallCurseForgeWorld { request, .. } => world_imported(
                items_of(job_state.events@),
                request,
            ),
            _ => false,
        },
{
    let continuation = match &job_state.continuation {
        Some(
            InstallContinuationState::InstallingPackToExistingInstance { disabled_project_ids },
        ) => Some(
            InstallContinuationState::InstallingPackToExistingInstance {
                disabled_project_ids: clone_strings(disabled_project_ids),
            },
        ),
        None => None,
    };
    let world_imported = match &job_state.request {
        InstallRequest::InstallCurseForgeWorld { request, .. } =>
            curseforge_world_was_imported_manually(job_state, request),
        _ => false,
    };
    RunFacts { instance_id: current_instance_id(job_state), continuation, world_imported }
}

/// The refusal of a job that should have an instance.
pub open spec fn no_instance() -> RequestEnd {
    RequestEnd::Refused { refusal: Refusal::MissingInstanceId }
}

/// How a new instance gets its game.
pub open spec fn minecraft_report(rest: CreateRest) -> RequestAction {
    RequestAction::Report {
        phase: InstallPhaseId::DownloadingMinecraft,
        progress: None,
        details: InstallPhaseDetails::Minecraft {
            game_version: rest.game_version,
            loader: rest.loader,
        },
    }
}

/// The move to `phase`.
pub open spec fn moves_to(phase: InstallPhaseId, details: InstallPhaseDetails) -> RequestAction {
    RequestAction::UpdateProgress { phase, details }
}

/// The number that a text gives for a project or a file of CurseForge.
pub open spec fn number(text: String) -> Option<nat> {
    parsed(text@, u32::MAX as nat)
}

/// What a job does first.
pub open spec fn first_actions(request: InstallRequest, facts: RunFacts) -> Seq<RequestAction> {
    match request {
        InstallRequest::CreateInstance {
            name,
            game_version,
            loader,
            loader_version: _,
            adjuncts,
            icon_path: _,
            link,
        } => match facts.instance_id {
            None => seq![],
            Some(instance_id) => {
                let start = moves_to(
                    InstallPhaseId::PreparingInstance,
                    InstallPhaseDetails::Instance { name },
                );
                match link {
                    InstanceLink::CurseForgeModpack { project_id, version_id } => if number(
                        project_id,
                    ) is Some && number(version_id) is Some {
                        seq![
                            start,
                            RequestAction::SetInstallStage {
                                instance_id,
                                stage: InstanceInstallStage::PackInstalling,
                            },
                            RequestAction::EmitEdited { instance_id },
                        ]
                    } else {
                        seq![start]
                    },
                    _ => seq![
                        start,
                        minecraft_report(
                            CreateRest { instance_id, game_version, loader, adjuncts },
                        ),
                    ],
                }
            },
        },
        InstallRequest::CreateModpackInstance { location, post_install_edit: _ } =>
            match facts.instance_id {
            None => seq![],
            Some(_) => seq![moves_to(InstallPhaseId::ResolvingPack, pack_details(location))],
        },
        InstallRequest::ImportInstance {
            launcher_type,
            base_path,
            instance_folder,
            instance_path,
            symlink,
            game_version,
            loader,
            loader_version,
        } => match facts.instance_id {
            None => seq![],
            Some(instance_id) => seq![
                moves_to(
                    InstallPhaseId::PreparingInstance,
                    InstallPhaseDetails::Import { launcher_type, instance_folder },
                ),
                RequestAction::ImportInstance {
                    instance_id,
                    launcher_type,
                    base_path,
                    instance_folder,
                    instance_path,
                    symlink,
                    game_version,
                    loader,
                    loader_version,
                },
            ],
        },
        InstallRequest::DuplicateInstance { source_instance_id } => match facts.instance_id {
            None => seq![],
            Some(instance_id) => seq![
                moves_to(InstallPhaseId::PreparingInstance, InstallPhaseDetails::Empty),
                RequestAction::CopyInstance { instance_id, source_instance_id },
            ],
        },
        InstallRequest::InstallExistingInstance { instance_id, force: _ } => seq![
            RequestAction::PrepareRollback { instance_id },
            moves_to(InstallPhaseId::DownloadingMinecraft, InstallPhaseDetails::Empty),
        ],
        InstallRequest::InstallPackToExistingInstance { instance_id, .. } => seq![
            RequestAction::PrepareRollback { instance_id },
        ],
        InstallRequest::InstallContent { .. } => seq![
            moves_to(InstallPhaseId::DownloadingContent, InstallPhaseDetails::Empty),
        ],
        InstallRequest::InstallCurseForgeContent { .. } => seq![
            moves_to(InstallPhaseId::DownloadingContent, InstallPhaseDetails::Empty),
        ],
        InstallRequest::InstallCurseForgeWorld { .. } => if facts.world_imported {
            seq![]
        } else {
            seq![moves_to(InstallPhaseId::DownloadingContent, InstallPhaseDetails::Empty)]
        },
        InstallRequest::UpdateManagedCurseForgeModpack { instance_id, file_id: _ } => seq![
            RequestAction::PrepareRollback { instance_id },
            RequestAction::SetInstallStage {
                instance_id,
                stage: InstanceInstallStage::PackInstalling,
            },
            RequestAction::EmitEdited { instance_id },
            moves_to(InstallPhaseId::DownloadingContent, InstallPhaseDetails::Empty),
        ],
        InstallRequest::DownloadJava { vendor, version } => seq![
            moves_to(
                InstallPhaseId::PreparingJava,
                InstallPhaseDetails::Java {
                    major_version: version,
                    step: InstallJavaStep::FetchingMetadata,
                },
            ),
            RequestAction::DownloadJava { vendor, version },
        ],
    }
}

/// How what a job does first ends.
pub open spec fn first_end(request: InstallRequest, facts: RunFacts) -> RequestEnd {
    match request {
        InstallRequest::CreateInstance {
            name: _,
            game_version,
            loader,
            loader_version: _,
            adjuncts,
            icon_path: _,
            link,
        } => match facts.instance_id {
            None => no_instance(),
            Some(instance_id) => {
                let rest = CreateRest { instance_id, game_version, loader, adjuncts };
                match link {
                    InstanceLink::CurseForgeModpack { project_id, version_id } => match number(
                        project_id,
                    ) {
                        None => RequestEnd::Refused { refusal: Refusal::InvalidCurseForgeProject },
                        Some(project) => match number(version_id) {
                            None => RequestEnd::Refused { refusal: Refusal::InvalidCurseForgeFile },
                            Some(file) => RequestEnd::InstallModpack {
                                instance_id,
                                project_id: project as u32,
                                file_id: file as u32,
                                rest,
                            },
                        },
                    },
                    _ => RequestEnd::LoadContext {
                        instance_id,
                        rest: ContextRest::Create { rest },
                    },
                }
            },
        },
        InstallRequest::CreateModpackInstance { location, post_install_edit } =>
            match facts.instance_id {
            None => no_instance(),
            Some(instance_id) => RequestEnd::InstallPack {
                location,
                instance_id,
                rest: PackRest::New { instance_id, edit: post_install_edit },
            },
        },
        InstallRequest::ImportInstance { .. } | InstallRequest::DuplicateInstance { .. } =>
            match facts.instance_id {
            None => no_instance(),
            Some(instance_id) => RequestEnd::LoadContext {
                instance_id,
                rest: ContextRest::Install { instance_id, force: false },
            },
        },
        InstallRequest::InstallExistingInstance { instance_id, force } => RequestEnd::LoadContext {
            instance_id,
            rest: ContextRest::Install { instance_id, force },
        },
        InstallRequest::InstallPackToExistingInstance {
            instance_id,
            location,
            post_install_edit,
        } => match facts.continuation {
            Some(
                InstallContinuationState::InstallingPackToExistingInstance {
                    disabled_project_ids,
                },
            ) => RequestEnd::InstallPack {
                location,
                instance_id,
                rest: PackRest::Existing {
                    instance_id,
                    project_ids: disabled_project_ids,
                    edit: post_install_edit,
                },
            },
            None => RequestEnd::RemovePackContent {
                instance_id,
                rest: RemovalRest { instance_id, location, edit: post_install_edit },
            },
        },
        InstallRequest::InstallContent {
            instance_id,
            project_id,
            version_id,
            content_type,
            selected,
            excluded_project_ids,
            ..
        } => RequestEnd::ResolveContent {
            instance_id,
            project_id,
            version_id,
            content_type,
            selected,
            excluded_project_ids,
        },
        InstallRequest::InstallCurseForgeContent { request, .. } =>
            RequestEnd::InstallCurseForgeContent { request },
        InstallRequest::InstallCurseForgeWorld { request, .. } => if facts.world_imported {
            RequestEnd::Completed { instance_id: Some(request.instance_id) }
        } else {
            RequestEnd::InstallWorld { request }
        },
        InstallRequest::UpdateManagedCurseForgeModpack { instance_id, file_id } =>
            RequestEnd::UpdateModpack { instance_id, file_id },
        InstallRequest::DownloadJava { .. } => RequestEnd::Completed { instance_id: None },
    }
}

fn refused(actions: Vec<RequestAction>, refusal: Refusal) -> (r: RequestPlan)
    ensures
        r == (RequestPlan { actions, end: RequestEnd::Refused { refusal } }),
{
    RequestPlan { actions, end: RequestEnd::Refused { refusal } }
}

/// Starts a job for `request`.
pub fn run_request(request: InstallRequest, facts: RunFacts) -> (r: RequestPlan)
    ensures
        r.actions@ == first_actions(request, facts),
        r.end == first_end(request, facts),
{
    let mut actions: Vec<RequestAction> = Vec::new();
    match request {
        InstallRequest::CreateInstance {
            name,
            game_version,
            loader,
            loader_version: _,
            adjuncts,
            icon_path: _,
            link,
        } => {
            let instance_id = match facts.instance_id {
                Some(instance_id) => instance_id,
                None => {
                    return refused(actions, Refusal::MissingInstanceId);
                },
            };
            actions.push(
                RequestAction::UpdateProgress {
                    phase: InstallPhaseId::PreparingInstance,
                    details: InstallPhaseDetails::Instance { name },
                },
            );
            if let InstanceLink::CurseForgeModpack { project_id, version_id } = &link {
                let project_id = match parse_u32(project_id.as_str()) {
                    Some(project_id) => project_id,
                    None => {
                        return refused(actions, Refusal::InvalidCurseForgeProject);
                    },
                };
                let file_id = match parse_u32(version_id.as_str()) {
                    Some(file_id) => file_id,
                    None => {
                        return refused(actions, Refusal::InvalidCurseForgeFile);
                    },
                };
                actions.push(
                    RequestAction::SetInstallStage {
                        instance_id: instance_id.clone(),
                        stage: InstanceInstallStage::PackInstalling,
                    },
                );
                actions.push(RequestAction::EmitEdited { instance_id: instance_id.clone() });
                let rest = CreateRest {
                    instance_id: instance_id.clone(),
                    game_version,
                    loader,
                    adjuncts,
                };
                return RequestPlan {
                    actions,
                    end: RequestEnd::InstallModpack { instance_id, project_id, file_id, rest },
                };
            }
            actions.push(
                RequestAction::Report {
                    phase: InstallPhaseId::DownloadingMinecraft,
                    progress: None,
                    details: InstallPhaseDetails::Minecraft {
                        game_version: game_version.clone(),
                        loader,
                    },
                },
            );
            let rest = CreateRest {
                instance_id: instance_id.clone(),
                game_version,
                loader,
                adjuncts,
            };
            RequestPlan {
                actions,
                end: RequestEnd::LoadContext { instance_id, rest: ContextRest::Create { rest } },
            }
        },
        InstallRequest::CreateModpackInstance { location, post_install_edit } => {
            let instance_id = match facts.instance_id {
                Some(instance_id) => instance_id,
                None => {
                    return refused(actions, Refusal::MissingInstanceId);
                },
            };
            actions.push(
                RequestAction::UpdateProgress {
                    phase: InstallPhaseId::ResolvingPack,
                    details: modpack_details(&location),
                },
            );
            let rest = PackRest::New { instance_id: instance_id.clone(), edit: post_install_edit };
            RequestPlan { actions, end: RequestEnd::InstallPack { location, instance_id, rest } }
        },
        InstallRequest::ImportInstance {
            launcher_type,
            base_path,
            instance_folder,
            instance_path,
            symlink,
            game_version,
            loader,
            loader_version,
        } => {
            let instance_id = match facts.instance_id {
                Some(instance_id) => instance_id,
                None => {
                    return refused(actions, Refusal::MissingInstanceId);
                },
            };
            actions.push(
                RequestAction::UpdateProgress {
                    phase: InstallPhaseId::PreparingInstance,
                    details: InstallPhaseDetails::Import {
                        launcher_type: launcher_type.clone(),
                        instance_folder: instance_folder.clone(),
                    },
                },
            );
            actions.push(
                RequestAction::ImportInstance {
                    instance_id: instance_id.clone(),
                    launcher_type,
                    base_path,
                    instance_folder,
                    instance_path,
                    symlink,
                    game_version,
                    loader,
                    loader_version,
                },
            );
            let rest = ContextRest::Install { instance_id: instance_id.clone(), force: false };
            RequestPlan { actions, end: RequestEnd::LoadContext { instance_id, rest } }
        },
        InstallRequest::DuplicateInstance { source_instance_id } => {
            let instance_id = match facts.instance_id {
                Some(instance_id) => instance_id,
                None => {
                    return refused(actions, Refusal::MissingInstanceId);
                },
            };
            actions.push(
                RequestAction::UpdateProgress {
                    phase: InstallPhaseId::PreparingInstance,
                    details: InstallPhaseDetails::Empty,
                },
            );
            actions.push(
                RequestAction::CopyInstance {
                    instance_id: instance_id.clone(),
                    source_instance_id,
                },
            );
            let rest = ContextRest::Install { instance_id: instance_id.clone(), force: false };
            RequestPlan { actions, end: RequestEnd::LoadContext { instance_id, rest } }
        },
        InstallRequest::InstallExistingInstance { instance_id, force } => {
            actions.push(RequestAction::PrepareRollback { instance_id: instance_id.clone() });
            actions.push(
                RequestAction::UpdateProgress {
                    phase: InstallPhaseId::DownloadingMinecraft,
                    details: InstallPhaseDetails::Empty,
                },
            );
            let rest = ContextRest::Install { instance_id: instance_id.clone(), force };
            RequestPlan { actions, end: RequestEnd::LoadContext { instance_id, rest } }
        },
        InstallRequest::InstallPackToExistingInstance {
            instance_id,
            location,
            post_install_edit,
        } => {
            actions.push(RequestAction::PrepareRollback { instance_id: instance_id.clone() });
            match facts.continuation {
                Some(
                    InstallContinuationState::InstallingPackToExistingInstance {
                        disabled_project_ids,
                    },
                ) => {
                    let rest = PackRest::Existing {
                        instance_id: instance_id.clone(),
                        project_ids: disabled_project_ids,
                        edit: post_install_edit,
                    };
                    RequestPlan {
                        actions,
                        end: RequestEnd::InstallPack { location, instance_id, rest },
                    }
                },
                None => {
                    let rest = RemovalRest {
                        instance_id: instance_id.clone(),
                        location,
                        edit: post_install_edit,
                    };
                    RequestPlan { actions, end: RequestEnd::RemovePackContent { instance_id, rest } }
                },
            }
        },
        InstallRequest::InstallContent {
            instance_id,
            project_id,
            version_id,
            content_type,
            selected,
            excluded_project_ids,
            display_title: _,
            display_icon: _,
        } => {
            actions.push(
                RequestAction::UpdateProgress {
                    phase: InstallPhaseId::DownloadingContent,
                    details: InstallPhaseDetails::Empty,
                },
            );
            RequestPlan {
                actions,
                end: RequestEnd::ResolveContent {
                    instance_id,
                    project_id,
                    version_id,
                    content_type,
                    selected,
                    excluded_project_ids,
                },
            }
        },
        InstallRequest::InstallCurseForgeContent { request, display_title: _, display_icon: _ } => {
            actions.push(
                RequestAction::UpdateProgress {
                    phase: InstallPhaseId::DownloadingContent,
                    details: InstallPhaseDetails::Empty,
                },
            );
            RequestPlan { actions, end: RequestEnd::InstallCurseForgeContent { request } }
        },
        InstallRequest::InstallCurseForgeWorld { request, display_title: _, display_icon: _ } => {
            if facts.world_imported {
                return RequestPlan {
                    actions,
                    end: RequestEnd::Completed { instance_id: Some(request.instance_id) },
                };
            }
            actions.push(
                RequestAction::UpdateProgress {
                    phase: InstallPhaseId::DownloadingContent,
                    details: InstallPhaseDetails::Empty,
                },
            );
            RequestPlan { actions, end: RequestEnd::InstallWorld { request } }
        },
        InstallRequest::UpdateManagedCurseForgeModpack { instance_id, file_id } => {
            actions.push(RequestAction::PrepareRollback { instance_id: instance_id.clone() });
            actions.push(
                RequestAction::SetInstallStage {
                    instance_id: instance_id.clone(),
                    stage: InstanceInstallStage::PackInstalling,
                },
            );
            actions.push(RequestAction::EmitEdited { instance_id: instance_id.clone() });
            actions.push(
                RequestAction::UpdateProgress {
                    phase: InstallPhaseId::DownloadingContent,
                    details: InstallPhaseDetails::Empty,
                },
            );
            RequestPlan { actions, end: RequestEnd::UpdateModpack { instance_id, file_id } }
        },
        InstallRequest::DownloadJava { vendor, version } => {
            actions.push(
                RequestAction::UpdateProgress {
                    phase: InstallPhaseId::PreparingJava,
                    details: InstallPhaseDetails::Java {
                        major_version: version,
                        step: InstallJavaStep::FetchingMetadata,
                    },
                },
            );
            actions.push(RequestAction::DownloadJava { vendor, version });
            RequestPlan { actions, end: RequestEnd::Completed { instance_id: None } }
        },
    }
}

/// How a job that waits for the user is left: for the manual downloads that it
/// asks for, or with `otherwise` if there are none.
pub open spec fn pauses_or(
    downloads: Seq<CurseForgeManualDownload>,
    skipped: Seq<Seq<char>>,
    plan: RequestPlan,
    otherwise: bool,
) -> bool {
    match plan.end {
        RequestEnd::WaitingForUser { reason } => {
            &&& plan.actions@.len() == 0
            &&& is_manual_pause(downloads, skipped, Some(reason))
        },
        _ => is_manual_pause(downloads, skipped, None) && otherwise,
    }
}

/// Goes on with a new instance once its modpack is installed.
pub fn after_modpack(
    rest: CreateRest,
    result: &CurseForgeModpackInstallResult,
    skipped: &Vec<String>,
) -> (r: RequestPlan)
    ensures
        pauses_or(
            result.content.manual_downloads@,
            views(skipped@),
            r,
            r.actions@ == seq![minecraft_report(rest)] && r.end == (RequestEnd::LoadContext {
                instance_id: rest.instance_id,
                rest: ContextRest::Create { rest },
            }),
        ),
{
    let mut actions: Vec<RequestAction> = Vec::new();
    if let Some(reason) = curseforge_manual_download_pause(result, skipped) {
        return RequestPlan { actions, end: RequestEnd::WaitingForUser { reason } };
    }
    actions.push(
        RequestAction::Report {
            phase: InstallPhaseId::DownloadingMinecraft,
            progress: None,
            details: InstallPhaseDetails::Minecraft {
                game_version: rest.game_version.clone(),
                loader: rest.loader,
            },
        },
    );
    let instance_id = rest.instance_id.clone();
    RequestPlan {
        actions,
        end: RequestEnd::LoadContext { instance_id, rest: ContextRest::Create { rest } },
    }
}

/// What is done once it is known that the instance can be launched.
pub open spec fn context_actions(rest: ContextRest) -> Seq<RequestAction> {
    match rest {
        ContextRest::Create { rest } => seq![
            RequestAction::InstallMinecraft { instance_id: rest.instance_id, force: false },
            RequestAction::InstallAdjuncts {
                instance_id: rest.instance_id,
                adjuncts: rest.adjuncts,
                game_version: rest.game_version,
                loader: rest.loader,
            },
        ],
        ContextRest::Install { instance_id, force } => seq![
            RequestAction::InstallMinecraft { instance_id, force },
        ],
    }
}

/// The instance that is left to be finished.
pub open spec fn context_instance(rest: ContextRest) -> String {
    match rest {
        ContextRest::Create { rest } => rest.instance_id,
        ContextRest::Install { instance_id, force: _ } => instance_id,
    }
}

/// Goes on once it is known whether the instance can be launched.
pub fn after_context(rest: ContextRest, found: bool) -> (r: RequestPlan)
    ensures
        found ==> r.actions@ == context_actions(rest) && r.end == (RequestEnd::Completed {
            instance_id: Some(context_instance(rest)),
        }),
        found ==> match rest {
            ContextRest::Create { rest } => r.actions@.contains(
                RequestAction::InstallMinecraft { instance_id: rest.instance_id, force: false },
            ),
            ContextRest::Install { instance_id, force } => r.actions@.contains(
                RequestAction::InstallMinecraft { instance_id, force },
            ),
        },
        !found ==> r.actions@.len() == 0 && r.end == (RequestEnd::Refused {
            refusal: Refusal::UnknownInstance,
        }),
{
    let mut actions: Vec<RequestAction> = Vec::new();
    if !found {
        return refused(actions, Refusal::UnknownInstance);
    }
    proof {
        law_jobs_with_a_context_install_the_game(rest);
    }
    match rest {
        ContextRest::Create { rest } => {
            let instance_id = rest.instance_id.clone();
            actions.push(
                RequestAction::InstallMinecraft {
                    instance_id: rest.instance_id.clone(),
                    force: false,
                },
            );
            actions.push(
                RequestAction::InstallAdjuncts {
                    instance_id: rest.instance_id,
                    adjuncts: rest.adjuncts,
                    game_version: rest.game_version,
                    loader: rest.loader,
                },
            );
            RequestPlan {
                actions,
                end: RequestEnd::Completed { instance_id: Some(instance_id) },
            }
        },
        ContextRest::Install { instance_id, force } => {
            actions.push(
                RequestAction::InstallMinecraft { instance_id: instance_id.clone(), force },
            );
            RequestPlan {
                actions,
                end: RequestEnd::Completed { instance_id: Some(instance_id) },
            }
        },
    }
}

/// The edit of an instance, if it changes anything.
pub open spec fn edit_actions(
    instance_id: String,
    edit: Option<InstallPostInstallEdit>,
) -> Seq<RequestAction> {
    match edit {
        Some(edit) => if edit.name is None && edit.icon_path is None && edit.link is None {
            seq![]
        } else {
            seq![RequestAction::ApplyEdit { instance_id, edit }]
        },
        None => seq![],
    }
}

/// What is done once a modpack is installed.
pub open spec fn pack_actions(rest: PackRest) -> Seq<RequestAction> {
    match rest {
        PackRest::New { instance_id, edit } => edit_actions(instance_id, edit),
        PackRest::Existing { instance_id, project_ids, edit } => seq![
            RequestAction::RestoreDisabled { instance_id, project_ids },
            RequestAction::SaveContinuation { continuation: None },
        ] + edit_actions(instance_id, edit),
    }
}

/// The instance that a modpack was installed into.
pub open spec fn pack_instance(rest: PackRest) -> String {
    match rest {
        PackRest::New { instance_id, edit: _ } => instance_id,
        PackRest::Existing { instance_id, project_ids: _, edit: _ } => instance_id,
    }
}

/// Goes on once a modpack is installed, or waits for the user as it does.
pub fn after_pack(rest: PackRest, outcome: PackOutcome) -> (r: RequestPlan)
    ensures
        match outcome {
            PackOutcome::Completed => r.actions@ == pack_actions(rest) && r.end == (
            RequestEnd::Completed { instance_id: Some(pack_instance(rest)) }),
            PackOutcome::WaitingForUser(reason) => r.actions@.len() == 0 && r.end == (
            RequestEnd::WaitingForUser { reason }),
        },
{
    let mut actions: Vec<RequestAction> = Vec::new();
    if let PackOutcome::WaitingForUser(reason) = outcome {
        return RequestPlan { actions, end: RequestEnd::WaitingForUser { reason } };
    }
    let ghost given = rest;
    let (instance_id, edit) = match rest {
        PackRest::New { instance_id, edit } => (instance_id, edit),
        PackRest::Existing { instance_id, project_ids, edit } => {
            actions.push(
                RequestAction::RestoreDisabled { instance_id: instance_id.clone(), project_ids },
            );
            actions.push(RequestAction::SaveContinuation { continuation: None });
            (instance_id, edit)
        },
    };
    let ghost before = actions@;
    let ghost asked = edit;
    if let Some(edit) = effective_edit(edit) {
        actions.push(RequestAction::ApplyEdit { instance_id: instance_id.clone(), edit });
    }
    assert(actions@ =~= before + edit_actions(instance_id, asked));
    assert(actions@ =~= pack_actions(given));
    RequestPlan { actions, end: RequestEnd::Completed { instance_id: Some(instance_id) } }
}

/// Whether a checkpoint and what is left to do hold the projects in `disabled`.
pub open spec fn keeps_disabled(
    disabled: Set<Seq<char>>,
    saved: Seq<String>,
    kept: Seq<String>,
) -> bool {
    &&& saved == kept
    &&& sorted_unique(views(saved))
    &&& forall|id: Seq<char>| #[trigger] views(saved).contains(id) <==> disabled.contains(id)
}

/// Goes on once the content of the old modpack is removed: which projects were
/// disabled is written down before anything of the new one is installed.
pub fn after_removal(rest: RemovalRest, disabled: &NameSet) -> (r: RequestPlan)
    ensures
        r.actions@.len() == 1,
        ({
            &&& r.actions@[0] matches RequestAction::SaveContinuation {
                continuation: Some(
                    InstallContinuationState::InstallingPackToExistingInstance {
                        disabled_project_ids,
                    },
                ),
            }
            &&& r.end matches RequestEnd::InstallPack {
                location,
                instance_id,
                rest: PackRest::Existing { instance_id: kept_id, project_ids, edit },
            }
            &&& location == rest.location
            &&& instance_id == rest.instance_id
            &&& kept_id == rest.instance_id
            &&& edit == rest.edit
            &&& keeps_disabled(disabled@, disabled_project_ids@, project_ids@)
        }),
{
    let none: Vec<String> = Vec::new();
    let sorted = sorted_union(disabled.names(), &none);
    proof {
        assert forall|id: Seq<char>| #[trigger] views(sorted@).contains(id) <==> disabled@.contains(
            id,
        ) by {
            assert(!views(none@).contains(id));
        }
    }
    let kept = clone_strings(&sorted);
    let mut actions: Vec<RequestAction> = Vec::new();
    actions.push(
        RequestAction::SaveContinuation {
            continuation: Some(
                InstallContinuationState::InstallingPackToExistingInstance {
                    disabled_project_ids: sorted,
                },
            ),
        },
    );
    let instance_id = rest.instance_id.clone();
    RequestPlan {
        actions,
        end: RequestEnd::InstallPack {
            location: rest.location,
            instance_id,
            rest: PackRest::Existing {
                instance_id: rest.instance_id,
                project_ids: kept,
                edit: rest.edit,
            },
        },
    }
}

/// The report of `current` of `total` files.
pub open spec fn counts(current: u64, total: u64) -> RequestAction {
    RequestAction::Report {
        phase: InstallPhaseId::DownloadingContent,
        progress: Some(InstallProgress { current, total, secondary: None }),
        details: InstallPhaseDetails::Empty,
    }
}

/// Whether `action` announces that `primary` and `dependencies` are installed.
pub open spec fn announces(
    action: RequestAction,
    instance_id: String,
    primary: Seq<char>,
    dependencies: Seq<Seq<char>>,
) -> bool {
    &&& action matches RequestAction::EmitContentInstallFinished {
        instance_id: id,
        project_ids,
        dependency_project_ids,
    }
    &&& id == instance_id
    &&& views(project_ids@) == seq![primary] + dependencies
    &&& views(dependency_project_ids@) == dependencies
}

fn prepended(first: String, others: &Vec<String>) -> (r: Vec<String>)
    ensures
        views(r@) == seq![first@] + views(others@),
        r@.len() == others@.len() + 1,
{
    let mut all: Vec<String> = Vec::new();
    all.push(first);
    let mut i: usize = 0;
    while i < others.len()
        invariant
            i <= others@.len(),
            all@.len() == i + 1,
            views(all@) == seq![first@] + views(others@).take(i as int),
        decreases others@.len() - i,
    {
        let ghost before = all@;
        all.push(others[i].clone());
        proof {
            assert(views(all@) =~= views(before).push(others@[i as int]@));
            assert(views(others@).take(i + 1) =~= views(others@).take(i as int).push(
                others@[i as int]@,
            ));
        }
        i = i + 1;
    }
    assert(views(others@).take(i as int) =~= views(others@));
    all
}

/// Goes on once it is known which projects are needed besides the one that was
/// asked for.
pub fn after_content_plan(
    instance_id: String,
    project_id: String,
    dependency_project_ids: Vec<String>,
) -> (r: RequestPlan)
    ensures
        r.actions@.len() == 5,
        r.actions@[0] == counts(0, (dependency_project_ids@.len() + 1) as u64),
        r.actions@[1] == (RequestAction::InstallContentPlan { instance_id }),
        r.actions@[2] == counts(
            (dependency_project_ids@.len() + 1) as u64,
            (dependency_project_ids@.len() + 1) as u64,
        ),
        r.actions@[3] == (RequestAction::EmitContentChanged { instance_id }),
        announces(r.actions@[4], instance_id, project_id@, views(dependency_project_ids@)),
        r.end == (RequestEnd::Completed { instance_id: Some(instance_id) }),
{
    let project_ids = prepended(project_id, &dependency_project_ids);
    let total = project_ids.len() as u64;
    let mut actions: Vec<RequestAction> = Vec::new();
    actions.push(
        RequestAction::Report {
            phase: InstallPhaseId::DownloadingContent,
            progress: Some(InstallProgress { current: 0, total, secondary: None }),
            details: InstallPhaseDetails::Empty,
        },
    );
    actions.push(RequestAction::InstallContentPlan { instance_id: instance_id.clone() });
    actions.push(
        RequestAction::Report {
            phase: InstallPhaseId::DownloadingContent,
            progress: Some(InstallProgress { current: total, total, secondary: None }),
            details: InstallPhaseDetails::Empty,
        },
    );
    actions.push(RequestAction::EmitContentChanged { instance_id: instance_id.clone() });
    actions.push(
        RequestAction::EmitContentInstallFinished {
            instance_id: instance_id.clone(),
            project_ids,
            dependency_project_ids,
        },
    );
    RequestPlan { actions, end: RequestEnd::Completed { instance_id: Some(instance_id) } }
}

/// Goes on once the file `project_id` of CurseForge, and what it needs, is
/// installed.
pub fn after_curseforge_content(
    instance_id: String,
    project_id: u32,
    result: &CurseForgeInstallResult,
) -> (r: RequestPlan)
    ensures
        r.actions@.len() == 2,
        r.actions@[0] == (RequestAction::EmitContentChanged { instance_id }),
        announces(
            r.actions@[1],
            instance_id,
            curseforge_name(project_id),
            dependency_names(result.installed@),
        ),
        r.end == (RequestEnd::Completed { instance_id: Some(instance_id) }),
{
    let dependency_project_ids = installed_dependencies(result);
    let project_ids = prepended(curseforge_project(project_id), &dependency_project_ids);
    let mut actions: Vec<RequestAction> = Vec::new();
    actions.push(RequestAction::EmitContentChanged { instance_id: instance_id.clone() });
    actions.push(
        RequestAction::EmitContentInstallFinished {
            instance_id: instance_id.clone(),
            project_ids,
            dependency_project_ids,
        },
    );
    RequestPlan { actions, end: RequestEnd::Completed { instance_id: Some(instance_id) } }
}

/// Goes on once a world is installed, or waits until the user has downloaded it.
pub fn after_world(instance_id: String, manual_download: &Option<CurseForgeManualDownload>) -> (r:
    RequestPlan)
    ensures
        match *manual_download {
            Some(download) => {
                &&& r.actions@.len() == 1
                &&& r.actions@[0] matches RequestAction::RecordEvent { kind }
                &&& is_world_event(kind, download)
                &&& r.end matches RequestEnd::WaitingForUser { reason }
                &&& is_world_pause(reason, download)
            },
            None => r.actions@.len() == 0 && r.end == (RequestEnd::Completed {
                instance_id: Some(instance_id),
            }),
        },
{
    let mut actions: Vec<RequestAction> = Vec::new();
    match manual_download {
        Some(download) => {
            let (kind, reason) = world_manual_download(download);
            actions.push(RequestAction::RecordEvent { kind });
            RequestPlan { actions, end: RequestEnd::WaitingForUser { reason } }
        },
        None => RequestPlan {
            actions,
            end: RequestEnd::Completed { instance_id: Some(instance_id) },
        },
    }
}

/// Goes on once a modpack is brought to another version. What could not be
/// downloaded is an error here, and manual downloads are a pause.
pub fn after_update(
    instance_id: String,
    result: &CurseForgeModpackInstallResult,
    skipped: &Vec<String>,
) -> (r: RequestPlan)
    ensures
        if result.content.failed_downloads@.len() > 0 {
            &&& r.actions@.len() == 0
            &&& r.end == (RequestEnd::Refused {
                refusal: Refusal::CurseForgeDownloadsFailed(
                    result.content.failed_downloads@.len() as u64,
                ),
            })
        } else {
            pauses_or(
                result.content.manual_downloads@,
                views(skipped@),
                r,
                r.actions@.len() == 0 && r.end == (RequestEnd::Completed {
                    instance_id: Some(instance_id),
                }),
            )
        },
{
    let actions: Vec<RequestAction> = Vec::new();
    let failed = result.content.failed_downloads.len();
    if failed > 0 {
        return refused(actions, Refusal::CurseForgeDownloadsFailed(failed as u64));
    }
    if let Some(reason) = curseforge_manual_download_pause(result, skipped) {
        return RequestPlan { actions, end: RequestEnd::WaitingForUser { reason } };
    }
    RequestPlan { actions, end: RequestEnd::Completed { instance_id: Some(instance_id) } }
}

/// Whatever a job does to an instance that was there before, it first keeps what
/// puts the instance back.
pub proof fn law_existing_instances_can_be_put_back(request: InstallRequest, facts: RunFacts)
    requires
        request is InstallExistingInstance || request is InstallPackToExistingInstance
            || request is UpdateManagedCurseForgeModpack,
    ensures
        first_actions(request, facts).len() > 0,
        first_actions(request, facts)[0] is PrepareRollback,
        Some(first_actions(request, facts)[0]->PrepareRollback_instance_id)
            == request.named_instance(),
{
}

/// A world that the user has downloaded is not downloaded again.
pub proof fn law_imported_worlds_are_done(request: InstallRequest, facts: RunFacts)
    requires
        request is InstallCurseForgeWorld,
        facts.world_imported,
    ensures
        first_actions(request, facts).len() == 0,
        first_end(request, facts) is Completed,
{
}

/// A job that takes up its work at its checkpoint does not remove the content of
/// the old modpack again.
pub proof fn law_checkpoint_skips_the_removal(request: InstallRequest, facts: RunFacts)
    requires
        request is InstallPackToExistingInstance,
    ensures
        facts.continuation is Some <==> first_end(request, facts) is InstallPack,
        facts.continuation is None <==> first_end(request, facts) is RemovePackContent,
{
}

/// A job that goes on with what an instance is launched with installs the game in
/// the instance that it then reports as done, and forces that only if it was told
/// to. Where nothing was found, it installs nothing and reports nothing as done.
pub proof fn law_jobs_with_a_context_install_the_game(rest: ContextRest)
    ensures
        ({
            let id = context_instance(rest);
            let actions = context_actions(rest);
            &&& match rest {
                ContextRest::Create { rest } => id == rest.instance_id && actions.contains(
                    RequestAction::InstallMinecraft { instance_id: rest.instance_id, force: false },
                ),
                ContextRest::Install { instance_id, force } => id == instance_id
                    && actions.contains(RequestAction::InstallMinecraft { instance_id, force }),
            }
            &&& forall|i: int|
                0 <= i < actions.len() && (#[trigger] actions[i]) is InstallMinecraft
                    ==> actions[i]->InstallMinecraft_instance_id == id
        }),
{
    let actions = context_actions(rest);
    match rest {
        ContextRest::Create { rest } => {
            assert(actions[0] == (RequestAction::InstallMinecraft {
                instance_id: rest.instance_id,
                force: false,
            }));
        },
        ContextRest::Install { instance_id, force } => {
            assert(actions[0] == (RequestAction::InstallMinecraft { instance_id, force }));
        },
    }
}

/// What was asked for beside the loader is installed after the game, for the
/// version and the loader that were asked for.
pub proof fn law_components_are_installed_after_the_game(rest: CreateRest)
    ensures
        ({
            let actions = context_actions(ContextRest::Create { rest });
            exists|i: int, j: int|
                {
                    &&& 0 <= i < j < actions.len()
                    &&& #[trigger] actions[i] == (RequestAction::InstallMinecraft {
                        instance_id: rest.instance_id,
                        force: false,
                    })
                    &&& #[trigger] actions[j] == (RequestAction::InstallAdjuncts {
                        instance_id: rest.instance_id,
                        adjuncts: rest.adjuncts,
                        game_version: rest.game_version,
                        loader: rest.loader,
                    })
                }
        }),
{
    let actions = context_actions(ContextRest::Create { rest });
    assert(actions[0] == (RequestAction::InstallMinecraft {
        instance_id: rest.instance_id,
        force: false,
    }));
    assert(actions[1] == (RequestAction::InstallAdjuncts {
        instance_id: rest.instance_id,
        adjuncts: rest.adjuncts,
        game_version: rest.game_version,
        loader: rest.loader,
    }));
}

/// Whatever is created, imported, copied or repaired gets the game installed: the
/// job goes on with the context of its own instance, and what it does then
/// installs the game there. A repair is forced if that was asked for, and nothing
/// else ever is.
pub proof fn law_instances_get_the_game(request: InstallRequest, facts: RunFacts)
    requires
        request is InstallExistingInstance || facts.instance_id is Some && (
        request is ImportInstance || request is DuplicateInstance || request is CreateInstance
            && !(request->CreateInstance_link is CurseForgeModpack)),
    ensures
        ({
            let id = match request {
                InstallRequest::InstallExistingInstance { instance_id, force: _ } => instance_id,
                _ => facts.instance_id->0,
            };
            let force = match request {
                InstallRequest::InstallExistingInstance { instance_id: _, force } => force,
                _ => false,
            };
            &&& first_end(request, facts) matches RequestEnd::LoadContext { instance_id, rest }
            &&& instance_id == id
            &&& context_instance(rest) == id
            &&& context_actions(rest).contains(
                RequestAction::InstallMinecraft { instance_id: id, force },
            )
        }),
{
    law_jobs_with_a_context_install_the_game(first_end(request, facts)->LoadContext_rest);
}

/// No request is reported as done before anything was done, but for a world that
/// is there already and a download of Java, which is then among the first actions.
pub proof fn law_nothing_is_done_by_itself(request: InstallRequest, facts: RunFacts)
    requires
        first_end(request, facts) is Completed,
    ensures
        request is InstallCurseForgeWorld && facts.world_imported || request is DownloadJava,
        request matches InstallRequest::DownloadJava { vendor, version } ==> first_actions(
            request,
            facts,
        ).contains(RequestAction::DownloadJava { vendor, version }),
        request matches InstallRequest::InstallCurseForgeWorld { request: world, .. } ==> first_end(
            request,
            facts,
        ) == (RequestEnd::Completed { instance_id: Some(world.instance_id) }),
{
    if let InstallRequest::DownloadJava { vendor, version } = request {
        assert(first_actions(request, facts)[1] == (RequestAction::DownloadJava {
            vendor,
            version,
        }));
    }
}

/// A job for a new instance that has none is refused, whatever it asks for, and
/// does nothing.
pub proof fn law_jobs_need_their_instance(request: InstallRequest, facts: RunFacts)
    requires
        request is CreateInstance || request is CreateModpackInstance || request is ImportInstance
            || request is DuplicateInstance,
    ensures
        facts.instance_id is None ==> first_actions(request, facts).len() == 0 && first_end(
            request,
            facts,
        ) == (RequestEnd::Refused { refusal: Refusal::MissingInstanceId }),
        facts.instance_id is Some ==> first_end(request, facts) != (RequestEnd::Refused {
            refusal: Refusal::MissingInstanceId,
        }),
{
}

/// An instance is created with the version, the loader and the components that were
/// asked for, under the name that was asked for. One of a modpack of CurseForge is
/// marked as being installed and gets the file that its link names.
pub proof fn law_instances_are_created_as_asked(request: InstallRequest, facts: RunFacts)
    requires
        request is CreateInstance,
        facts.instance_id is Some,
    ensures
        ({
            &&& request matches InstallRequest::CreateInstance {
                name,
                game_version,
                loader,
                loader_version: _,
                adjuncts,
                icon_path: _,
                link,
            }
            &&& {
                let id = facts.instance_id->0;
                let rest = CreateRest { instance_id: id, game_version, loader, adjuncts };
                let actions = first_actions(request, facts);
                &&& actions[0] == (RequestAction::UpdateProgress {
                    phase: InstallPhaseId::PreparingInstance,
                    details: InstallPhaseDetails::Instance { name },
                })
                &&& match link {
                    InstanceLink::CurseForgeModpack { project_id, version_id } => {
                        let project = parsed(project_id@, u32::MAX as nat);
                        let file = parsed(version_id@, u32::MAX as nat);
                        &&& project is None ==> first_end(request, facts) == (RequestEnd::Refused {
                            refusal: Refusal::InvalidCurseForgeProject,
                        })
                        &&& project is Some && file is None ==> first_end(request, facts) == (
                        RequestEnd::Refused { refusal: Refusal::InvalidCurseForgeFile })
                        &&& project is Some && file is Some ==> {
                            &&& actions.contains(
                                RequestAction::SetInstallStage {
                                    instance_id: id,
                                    stage: InstanceInstallStage::PackInstalling,
                                },
                            )
                            &&& actions.contains(RequestAction::EmitEdited { instance_id: id })
                            &&& first_end(request, facts) == (RequestEnd::InstallModpack {
                                instance_id: id,
                                project_id: project->0 as u32,
                                file_id: file->0 as u32,
                                rest,
                            })
                        }
                    },
                    _ => {
                        &&& actions.contains(
                            RequestAction::Report {
                                phase: InstallPhaseId::DownloadingMinecraft,
                                progress: None,
                                details: InstallPhaseDetails::Minecraft { game_version, loader },
                            },
                        )
                        &&& first_end(request, facts) == (RequestEnd::LoadContext {
                            instance_id: id,
                            rest: ContextRest::Create { rest },
                        })
                    },
                }
            }
        }),
{
    let actions = first_actions(request, facts);
    if actions.len() > 1 {
        assert(actions.contains(actions[1]));
    }
    if actions.len() > 2 {
        assert(actions.contains(actions[2]));
    }
}

/// An instance of another launcher is imported as it was pointed out, and one that
/// is copied is copied from the one that was named, into the instance of the job.
pub proof fn law_instances_are_filled_from_their_source(request: InstallRequest, facts: RunFacts)
    requires
        facts.instance_id is Some,
    ensures
        request matches InstallRequest::ImportInstance {
            launcher_type,
            base_path,
            instance_folder,
            instance_path,
            symlink,
            game_version,
            loader,
            loader_version,
        } ==> first_actions(request, facts).contains(
            RequestAction::ImportInstance {
                instance_id: facts.instance_id->0,
                launcher_type,
                base_path,
                instance_folder,
                instance_path,
                symlink,
                game_version,
                loader,
                loader_version,
            },
        ),
        request matches InstallRequest::DuplicateInstance { source_instance_id }
            ==> first_actions(request, facts).contains(
            RequestAction::CopyInstance {
                instance_id: facts.instance_id->0,
                source_instance_id,
            },
        ),
{
    let actions = first_actions(request, facts);
    if request is ImportInstance || request is DuplicateInstance {
        assert(actions.contains(actions[1]));
    }
}

/// Content, worlds and modpacks are installed as they were asked for: what is
/// handed on is what the request names, for the instance that it names.
pub proof fn law_requests_are_handed_on_whole(request: InstallRequest, facts: RunFacts)
    ensures
        request matches InstallRequest::InstallContent {
            instance_id,
            project_id,
            version_id,
            content_type,
            selected,
            excluded_project_ids,
            display_title: _,
            display_icon: _,
        } ==> first_end(request, facts) == (RequestEnd::ResolveContent {
            instance_id,
            project_id,
            version_id,
            content_type,
            selected,
            excluded_project_ids,
        }),
        request matches InstallRequest::InstallCurseForgeContent {
            request: content,
            display_title: _,
            display_icon: _,
        } ==> first_end(request, facts) == (RequestEnd::InstallCurseForgeContent {
            request: content,
        }),
        request matches InstallRequest::InstallCurseForgeWorld {
            request: world,
            display_title: _,
            display_icon: _,
        } ==> !facts.world_imported ==> first_end(request, facts) == (RequestEnd::InstallWorld {
            request: world,
        }),
        request matches InstallRequest::UpdateManagedCurseForgeModpack { instance_id, file_id }
            ==> first_end(request, facts) == (RequestEnd::UpdateModpack { instance_id, file_id })
            && first_actions(request, facts).contains(
            RequestAction::SetInstallStage {
                instance_id,
                stage: InstanceInstallStage::PackInstalling,
            },
        ),
        request matches InstallRequest::CreateModpackInstance { location, post_install_edit }
            ==> facts.instance_id is Some ==> first_end(request, facts) == (
        RequestEnd::InstallPack {
            location,
            instance_id: facts.instance_id->0,
            rest: PackRest::New {
                instance_id: facts.instance_id->0,
                edit: post_install_edit,
            },
        }),
        request matches InstallRequest::InstallPackToExistingInstance {
            instance_id,
            location,
            post_install_edit,
        } ==> match facts.continuation {
            Some(
                InstallContinuationState::InstallingPackToExistingInstance {
                    disabled_project_ids,
                },
            ) => first_end(request, facts) == (RequestEnd::InstallPack {
                location,
                instance_id,
                rest: PackRest::Existing {
                    instance_id,
                    project_ids: disabled_project_ids,
                    edit: post_install_edit,
                },
            }),
            None => first_end(request, facts) == (RequestEnd::RemovePackContent {
                instance_id,
                rest: RemovalRest { instance_id, location, edit: post_install_edit },
            }),
        },
{
    let actions = first_actions(request, facts);
    if request is UpdateManagedCurseForgeModpack {
        assert(actions.contains(actions[1]));
    }
}

/// The user sees the job move to what it does.
pub proof fn law_jobs_show_what_they_do(request: InstallRequest, facts: RunFacts)
    ensures
        ({
            let actions = first_actions(request, facts);
            let phase = match request {
                InstallRequest::CreateInstance { .. }
                | InstallRequest::ImportInstance { .. }
                | InstallRequest::DuplicateInstance { .. } => InstallPhaseId::PreparingInstance,
                InstallRequest::CreateModpackInstance { .. } => InstallPhaseId::ResolvingPack,
                InstallRequest::InstallExistingInstance { .. } =>
                    InstallPhaseId::DownloadingMinecraft,
                InstallRequest::DownloadJava { .. } => InstallPhaseId::PreparingJava,
                _ => InstallPhaseId::DownloadingContent,
            };
            !(first_end(request, facts) is Refused) && !(request is InstallPackToExistingInstance)
                && !(request is InstallCurseForgeWorld && facts.world_imported) ==> exists|i: int|
                {
                    &&& 0 <= i < actions.len()
                    &&& (#[trigger] actions[i]) is UpdateProgress
                    &&& actions[i]->UpdateProgress_phase == phase
                }
        }),
{
    let actions = first_actions(request, facts);
    if actions.len() > 0 {
        assert(actions[0] == actions[0]);
    }
    if actions.len() > 1 {
        assert(actions[1] == actions[1]);
    }
    if actions.len() > 3 {
        assert(actions[3] == actions[3]);
    }
}

/// Once a modpack is in place, the projects whose files were disabled before are
/// disabled again and the checkpoint is dropped, and what the user wanted changed
/// is changed, all of it in the instance that is reported as done. A new instance
/// had nothing disabled, and an edit that changes nothing is left out.
pub proof fn law_packs_leave_the_instance_as_the_user_had_it(rest: PackRest)
    ensures
        ({
            let actions = pack_actions(rest);
            let (id, edit) = match rest {
                PackRest::New { instance_id, edit } => (instance_id, edit),
                PackRest::Existing { instance_id, project_ids: _, edit } => (instance_id, edit),
            };
            &&& pack_instance(rest) == id
            &&& rest matches PackRest::Existing { instance_id, project_ids, edit: _ } ==> {
                &&& actions.contains(RequestAction::RestoreDisabled { instance_id, project_ids })
                &&& actions.contains(RequestAction::SaveContinuation { continuation: None })
            }
            &&& match edit {
                Some(e) => if e.name is Some || e.icon_path is Some || e.link is Some {
                    actions.contains(RequestAction::ApplyEdit { instance_id: id, edit: e })
                } else {
                    forall|i: int| 0 <= i < actions.len() ==> !((#[trigger] actions[i]) is ApplyEdit)
                },
                None => forall|i: int|
                    0 <= i < actions.len() ==> !((#[trigger] actions[i]) is ApplyEdit),
            }
            &&& rest is New ==> forall|i: int|
                0 <= i < actions.len() ==> (#[trigger] actions[i]) is ApplyEdit
        }),
{
    let actions = pack_actions(rest);
    if actions.len() > 0 {
        assert(actions.contains(actions[0]));
    }
    if actions.len() > 1 {
        assert(actions.contains(actions[1]));
    }
    if actions.len() > 2 {
        assert(actions.contains(actions[2]));
    }
}

/// What is counted is content, up to all that there is.
pub proof fn law_content_is_counted(current: u64, total: u64)
    ensures
        counts(current, total) is Report,
        counts(current, total)->Report_phase == InstallPhaseId::DownloadingContent,
        counts(current, total)->Report_progress is Some,
        (counts(current, total)->Report_progress->0).current == current,
        (counts(current, total)->Report_progress->0).total == total,
{
}

/// Installed content is announced with the project that was asked for first and
/// those that it needs behind it, for the instance that it went into.
pub proof fn law_installed_content_is_announced(
    action: RequestAction,
    instance_id: String,
    primary: Seq<char>,
    dependencies: Seq<Seq<char>>,
)
    requires
        announces(action, instance_id, primary, dependencies),
    ensures
        action matches RequestAction::EmitContentInstallFinished {
            instance_id: id,
            project_ids,
            dependency_project_ids,
        } && {
            &&& id == instance_id
            &&& project_ids@.len() == dependencies.len() + 1
            &&& project_ids@[0]@ == primary
            &&& forall|i: int|
                0 <= i < dependencies.len() ==> (#[trigger] dependencies[i])
                    == project_ids@[i + 1]@ && dependencies[i] == dependency_project_ids@[i]@
            &&& dependency_project_ids@.len() == dependencies.len()
        },
{
    if let RequestAction::EmitContentInstallFinished {
        instance_id: id,
        project_ids,
        dependency_project_ids,
    } = action {
        let all = views(project_ids@);
        let some = views(dependency_project_ids@);
        assert(all.len() == project_ids@.len());
        assert(some.len() == dependency_project_ids@.len());
        assert(all[0] == project_ids@[0]@);
        assert(all[0] == primary);
        assert forall|i: int| 0 <= i < dependencies.len() implies (#[trigger] dependencies[i])
            == project_ids@[i + 1]@ && dependencies[i] == dependency_project_ids@[i]@ by {
            assert(all[i + 1] == project_ids@[i + 1]@);
            assert(some[i] == dependency_project_ids@[i]@);
        }
    }
}

/// A job waits for the user exactly if a download that was not skipped is left to
/// be done by hand, and then does nothing else; otherwise it goes on.
pub proof fn law_jobs_wait_for_downloads_that_are_left(
    downloads: Seq<CurseForgeManualDownload>,
    skipped: Seq<Seq<char>>,
    plan: RequestPlan,
    otherwise: bool,
)
    requires
        pauses_or(downloads, skipped, plan, otherwise),
    ensures
        plan.end is WaitingForUser <==> exists|i: int|
            0 <= i < downloads.len() && !skipped.contains((#[trigger] downloads[i]).file_name@),
        plan.end is WaitingForUser ==> plan.actions@.len() == 0,
        !(plan.end is WaitingForUser) ==> otherwise,
{
    law_who_has_to_be_waited_for(
        downloads,
        skipped,
        match plan.end {
            RequestEnd::WaitingForUser { reason } => Some(reason),
            _ => None,
        },
    );
}

/// What was disabled is kept in order, without repetition, and completely.
pub proof fn law_disabled_projects_are_kept(
    disabled: Set<Seq<char>>,
    saved: Seq<String>,
    kept: Seq<String>,
)
    requires
        keeps_disabled(disabled, saved, kept),
    ensures
        saved == kept,
        forall|id: Seq<char>|
            disabled.contains(id) <==> exists|i: int|
                0 <= i < kept.len() && (#[trigger] kept[i])@ == id,
        forall|i: int, j: int| 0 <= i < j < kept.len() ==> #[trigger] before(
            views(kept)[i],
            views(kept)[j],
        ),
{
    assert forall|id: Seq<char>|
        disabled.contains(id) <==> exists|i: int|
            0 <= i < kept.len() && (#[trigger] kept[i])@ == id by {
        if disabled.contains(id) {
            assert(views(saved).contains(id));
            let i = choose|i: int| 0 <= i < views(saved).len() && views(saved)[i] == id;
            assert(kept[i]@ == id);
        }
        if exists|i: int| 0 <= i < kept.len() && (#[trigger] kept[i])@ == id {
            let i = choose|i: int| 0 <= i < kept.len() && (#[trigger] kept[i])@ == id;
            assert(views(saved)[i] == id);
            assert(views(saved).contains(id));
        }
    }
}

} // verus!

//! What an install job holds: its request, its progress, its events, and what
//! is needed to resume it or to undo it.
use vstd::prelude::*;

use crate::text::{clone_strings, str_eq};

use super::loader_kind::{LoaderComponentKind, LoaderComponentRole, ModLoader};

verus! {

/// Where an install job stands.
#[derive(Clone, Copy, Debug, PartialEq, Eq, Structural)]
pub enum InstallJobStatus {
    Queued,
    Running,
    WaitingForUser,
    Canceling,
    Canceled,
    Failed,
    Interrupted,
    Succeeded,
}

/// What an install job is doing.
#[derive(Clone, Copy, Debug, PartialEq, Eq, Structural)]
pub enum InstallPhaseId {
    PreparingInstance,
    ResolvingPack,
    DownloadingPackFile,
    ReadingPackManifest,
    DownloadingContent,
    ExtractingOverrides,
    ResolvingMinecraft,
    ResolvingLoader,
    PreparingJava,
    DownloadingMinecraft,
    RunningLoaderProcessors,
    Finalizing,
    RollingBack,
}

/// A step of the preparation of a Java runtime.
#[derive(Clone, Copy, Debug, PartialEq, Eq, Structural)]
pub enum InstallJavaStep {
    FetchingMetadata,
    Downloading,
    Extracting,
}

/// What the user is told about a phase.
#[derive(Clone, Debug, PartialEq, Eq)]
pub enum InstallPhaseDetails {
    Empty,
    Instance { name: String },
    Minecraft { game_version: String, loader: ModLoader },
    Import { launcher_type: String, instance_folder: String },
    Modpack { project_id: Option<String>, version_id: Option<String>, title: Option<String> },
    Java { major_version: u32, step: InstallJavaStep },
}

/// A second counter beside the main one.
#[derive(Clone, Copy, Debug, PartialEq, Eq, Structural)]
pub struct InstallSecondaryProgress {
    pub current: u64,
    pub total: u64,
}

/// How far a phase has come.
#[derive(Clone, Copy, Debug, PartialEq, Eq)]
pub struct InstallProgress {
    pub current: u64,
    pub total: u64,
    pub secondary: Option<InstallSecondaryProgress>,
}

/// The phase of a job and how far it has come.
#[derive(Clone, Debug, PartialEq, Eq)]
pub struct InstallProgressState {
    pub phase: InstallPhaseId,
    pub progress: Option<InstallProgress>,
    pub details: InstallPhaseDetails,
    pub parallel: Option<InstallProgress>,
}

/// The instance that a job works on.
#[derive(Debug, PartialEq, Eq)]
pub enum InstallTarget {
    NewInstance { instance_id: Option<String> },
    ExistingInstance { instance_id: String },
}

/// What has to be undone when a job fails or is canceled.
#[derive(Debug, PartialEq, Eq)]
pub enum InstallCleanup {
    DeleteNewInstance { instance_id: Option<String> },
    RestoreExistingInstance { instance_id: String },
    NoCleanup,
}

/// Why a job waits for the user.
#[derive(Debug, PartialEq, Eq)]
pub enum InstallPauseReason {
    MissingRequiredContent { failed_files: u64, paths: Vec<String> },
}

/// Where a paused job takes up its work again.
#[derive(Clone, Debug, PartialEq, Eq)]
pub enum InstallContinuationState {
    InstallingPackToExistingInstance { disabled_project_ids: Vec<String> },
}

/// What the user sees of a job.
#[derive(Clone, Debug, PartialEq, Eq)]
pub struct InstallJobDisplay {
    pub title: String,
    pub icon: Option<String>,
}

/// What a job was doing when it failed.
#[derive(Debug, PartialEq, Eq)]
pub struct InstallErrorContext {
    pub operation: String,
    pub project_id: Option<String>,
    pub version_id: Option<String>,
    pub source_path: Option<String>,
    pub cache_types: Vec<String>,
    pub sqlite_code: Option<String>,
}

/// What the user is told about a failure.
#[derive(Clone, Debug, PartialEq, Eq)]
pub struct InstallErrorView {
    pub code: String,
    pub phase: Option<InstallPhaseId>,
    pub message: String,
    pub api: Option<String>,
    pub context: Option<InstallErrorContext>,
}

/// How far the installation of an instance has come.
#[derive(Clone, Copy, Debug, PartialEq, Eq, Structural)]
pub enum InstanceInstallStage {
    NotInstalled,
    PackInstalling,
    MinecraftInstalling,
    Installed,
}

/// Where the content of an instance comes from.
#[derive(Debug, PartialEq, Eq)]
pub enum InstanceLink {
    Unmanaged,
    ModrinthModpack { project_id: String, version_id: String },
    CurseForgeModpack { project_id: String, version_id: String },
    ServerProjectModpack {
        server_project_id: String,
        content_project_id: String,
        content_version_id: String,
    },
    ImportedModpack { name: Option<String> },
}

/// One component of a loader selection. `provider_metadata` is a JSON text.
#[derive(Debug, PartialEq, Eq)]
pub struct LoaderComponent {
    pub instance_id: String,
    pub kind: LoaderComponentKind,
    pub version: Option<String>,
    pub role: LoaderComponentRole,
    pub provider_metadata: Option<String>,
}

/// An instance.
#[derive(Clone, Debug, PartialEq, Eq)]
pub struct Instance {
    pub id: String,
    pub path: String,
    pub name: String,
    pub icon_path: Option<String>,
    pub install_stage: InstanceInstallStage,
    /// The root of the external installation that the instance is linked to.
    pub linked_dot_minecraft: Option<String>,
    /// Whether the instance is directly associated with an external launcher.
    pub direct_linked: bool,
}

/// The content that is applied to an instance.
#[derive(Clone, Debug, PartialEq, Eq)]
pub struct AppliedContentSet {
    pub id: String,
    pub game_version: String,
    pub loader: ModLoader,
    pub loader_version: Option<String>,
}

/// An instance with its link, its content and its loader selection.
#[derive(Clone, Debug, PartialEq, Eq)]
pub struct InstanceMetadata {
    pub instance: Instance,
    pub link: InstanceLink,
    pub applied_content_set: AppliedContentSet,
    pub loader_components: Vec<LoaderComponent>,
}

/// The files set aside before the content of an instance is replaced.
#[derive(Clone, Debug, PartialEq, Eq)]
pub struct ContentRollback {
    pub paths: Vec<String>,
}

/// What is needed to put an existing instance back as it was.
#[derive(Clone, Debug, PartialEq, Eq)]
pub struct InstallRollbackState {
    pub instance: InstanceMetadata,
    pub install_stage: InstanceInstallStage,
    pub content: Option<ContentRollback>,
}

/// Where a modpack is taken from.
#[derive(Clone, Debug, PartialEq, Eq)]
pub enum CreatePackLocation {
    FromVersionId {
        project_id: String,
        version_id: String,
        title: String,
        icon_url: Option<String>,
    },
    FromFile { path: String },
}

/// What is changed on an instance after its installation.
#[derive(Clone, Debug, PartialEq, Eq)]
pub struct InstallPostInstallEdit {
    pub name: Option<String>,
    pub icon_path: Option<Option<String>>,
    pub link: Option<InstanceLink>,
}

/// Who owns a file of an instance.
#[derive(Clone, Copy, Debug, PartialEq, Eq, Structural)]
pub enum ContentOwnershipKind {
    UserAdded,
    PackManaged,
}

/// What a manual download is part of.
#[derive(Clone, Copy, Debug, PartialEq, Eq, Structural)]
pub enum ManualDownloadOperationKind {
    ContentInstall,
    PackInstall,
}

/// A file of CurseForge to be installed.
#[derive(Clone, Debug, PartialEq, Eq)]
pub struct CurseForgeInstallRequest {
    pub instance_id: String,
    pub project_id: u32,
    pub file_id: u32,
    pub project_type: String,
    pub ownership_kind: ContentOwnershipKind,
    pub manual_operation_kind: ManualDownloadOperationKind,
    pub game_version: Option<String>,
    pub mod_loader_type: Option<u32>,
    pub world_name: Option<String>,
    pub install_dependencies: bool,
    pub excluded_dependency_project_ids: Vec<u32>,
    pub force_dependency_project_ids: Vec<u32>,
    pub dependency_plan_id: Option<String>,
}

/// A world of CurseForge to be installed.
#[derive(Debug, PartialEq, Eq)]
pub struct CurseForgeWorldInstallRequest {
    pub instance_id: String,
    pub project_id: u32,
    pub file_id: u32,
}

/// A file of CurseForge that the user has to download.
#[derive(Clone, Debug, PartialEq, Eq)]
pub struct CurseForgeManualDownload {
    pub project_id: u32,
    pub file_id: u32,
    pub file_name: String,
    pub ownership_kind: ContentOwnershipKind,
    pub operation_kind: ManualDownloadOperationKind,
    pub website_url: Option<String>,
    pub project_type: String,
    pub project_slug: String,
    pub target_folder: String,
    pub hashes: Vec<String>,
    pub file_length: u64,
    pub file_fingerprint: u64,
}

/// A file of CurseForge that was installed.
#[derive(Clone, Copy, Debug, PartialEq, Eq, Structural)]
pub struct CurseForgeInstalledFile {
    pub project_id: u32,
    pub file_id: u32,
    pub dependency: bool,
}

/// A file of CurseForge that could not be downloaded.
#[derive(Clone, Debug, PartialEq, Eq)]
pub struct CurseForgeFailedDownload {
    pub project_id: u32,
    pub file_id: u32,
    pub reason: String,
}

/// What became of the files of an installation from CurseForge.
#[derive(Clone, Debug, PartialEq, Eq)]
pub struct CurseForgeInstallResult {
    pub installed: Vec<CurseForgeInstalledFile>,
    pub manual_downloads: Vec<CurseForgeManualDownload>,
    pub failed_downloads: Vec<CurseForgeFailedDownload>,
}

/// What became of the installation of a modpack from CurseForge.
#[derive(Clone, Debug, PartialEq, Eq)]
pub struct CurseForgeModpackInstallResult {
    pub content: CurseForgeInstallResult,
}

/// A file that CurseForge offers.
#[derive(Clone, Debug, PartialEq, Eq)]
pub struct CurseForgeFile {
    pub id: u32,
    pub mod_id: u32,
    pub is_available: bool,
    pub game_versions: Vec<String>,
}

/// What an install job is asked to do. `content_type` and `selected` of
/// `InstallContent` are the JSON texts that the content resolver takes.
#[derive(Clone, Debug, PartialEq, Eq)]
pub enum InstallRequest {
    CreateInstance {
        name: String,
        game_version: String,
        loader: ModLoader,
        loader_version: Option<String>,
        adjuncts: Vec<LoaderComponent>,
        icon_path: Option<String>,
        link: InstanceLink,
    },
    CreateModpackInstance {
        location: CreatePackLocation,
        post_install_edit: Option<InstallPostInstallEdit>,
    },
    ImportInstance {
        launcher_type: String,
        base_path: String,
        instance_folder: String,
        instance_path: Option<String>,
        symlink: bool,
        game_version: Option<String>,
        loader: Option<ModLoader>,
        loader_version: Option<String>,
    },
    DuplicateInstance { source_instance_id: String },
    InstallExistingInstance { instance_id: String, force: bool },
    InstallContent {
        instance_id: String,
        project_id: String,
        version_id: Option<String>,
        content_type: String,
        selected: String,
        excluded_project_ids: Vec<String>,
        display_title: String,
        display_icon: Option<String>,
    },
    InstallCurseForgeContent {
        request: CurseForgeInstallRequest,
        display_title: String,
        display_icon: Option<String>,
    },
    InstallCurseForgeWorld {
        request: CurseForgeWorldInstallRequest,
        display_title: String,
        display_icon: Option<String>,
    },
    DownloadJava { vendor: String, version: u32 },
    InstallPackToExistingInstance {
        instance_id: String,
        location: CreatePackLocation,
        post_install_edit: Option<InstallPostInstallEdit>,
    },
    UpdateManagedCurseForgeModpack { instance_id: String, file_id: u32 },
}

/// The kind of a request.
#[derive(Clone, Copy, Debug, PartialEq, Eq, Structural)]
pub enum InstallJobKind {
    CreateInstance,
    CreateModpackInstance,
    ImportInstance,
    DuplicateInstance,
    InstallExistingInstance,
    InstallContent,
    InstallCurseForgeContent,
    InstallCurseForgeWorld,
    DownloadJava,
    InstallPackToExistingInstance,
    UpdateManagedCurseForgeModpack,
}

/// What happened to a job.
#[derive(Clone, Debug, PartialEq, Eq)]
pub enum InstallJobEventKind {
    JobQueued { kind: InstallJobKind },
    JobStarted,
    JobCanceled { phase: InstallPhaseId },
    JobSucceeded { instance_id: Option<String> },
    Failed { phase: InstallPhaseId, code: String, message: String },
    RollbackStarted { cleanup: InstallCleanup },
    RollbackCompleted,
    RollbackFailed { message: String },
    WaitingForUser { reason: InstallPauseReason },
    ContentFileSkipped {
        path: String,
        reason: String,
        project_id: Option<String>,
        version_id: Option<String>,
        manual_url: Option<String>,
    },
    ContentFileRecovered { path: String, bytes: u64 },
}

/// An entry of a job's history.
#[derive(Clone, Debug, PartialEq, Eq)]
pub struct InstallJobEvent {
    pub kind: InstallJobEventKind,
}

/// What became of a file of a job.
#[derive(Clone, Copy, Debug, PartialEq, Eq, Structural)]
pub enum DownloadItemStatus {
    Pending,
    Failed,
    Skipped,
    Completed,
}

/// A file of a job.
#[derive(Clone, Debug, PartialEq, Eq)]
pub struct DownloadItem {
    pub id: String,
    pub status: DownloadItemStatus,
    pub project_id: Option<String>,
    pub version_id: Option<String>,
    pub manual_url: Option<String>,
}

/// Everything that is stored of a job beside its status.
#[derive(Clone, Debug, PartialEq, Eq)]
pub struct InstallJobState {
    pub request: InstallRequest,
    pub target: InstallTarget,
    pub cleanup: InstallCleanup,
    pub rollback: Option<InstallRollbackState>,
    pub error: Option<InstallErrorView>,
    pub rollback_error: Option<InstallErrorView>,
    pub pause_reason: Option<InstallPauseReason>,
    pub continuation: Option<InstallContinuationState>,
    pub context: Option<InstallErrorContext>,
    pub progress: InstallProgressState,
    pub display: Option<InstallJobDisplay>,
    pub events: Vec<InstallJobEvent>,
    pub active_downloads: Vec<String>,
    pub missing_content: Option<Vec<String>>,
    pub skipped_missing_content_paths: Vec<String>,
}

/// A stored job.
#[derive(Clone, Debug, PartialEq, Eq)]
pub struct InstallJobRecord {
    pub status: InstallJobStatus,
    pub state: InstallJobState,
}

impl Clone for InstallTarget {
    fn clone(&self) -> (r: Self)
        ensures
            r == *self,
    {
        match self {
            InstallTarget::NewInstance { instance_id } => InstallTarget::NewInstance {
                instance_id: instance_id.clone(),
            },
            InstallTarget::ExistingInstance { instance_id } => InstallTarget::ExistingInstance {
                instance_id: instance_id.clone(),
            },
        }
    }
}

impl Clone for InstallCleanup {
    fn clone(&self) -> (r: Self)
        ensures
            r == *self,
    {
        match self {
            InstallCleanup::DeleteNewInstance { instance_id } =>
                InstallCleanup::DeleteNewInstance { instance_id: instance_id.clone() },
            InstallCleanup::RestoreExistingInstance { instance_id } =>
                InstallCleanup::RestoreExistingInstance { instance_id: instance_id.clone() },
            InstallCleanup::NoCleanup => InstallCleanup::NoCleanup,
        }
    }
}

impl Clone for InstanceLink {
    fn clone(&self) -> (r: Self)
        ensures
            r == *self,
    {
        match self {
            InstanceLink::Unmanaged => InstanceLink::Unmanaged,
            InstanceLink::ModrinthModpack { project_id, version_id } =>
                InstanceLink::ModrinthModpack {
                    project_id: project_id.clone(),
                    version_id: version_id.clone(),
                },
            InstanceLink::CurseForgeModpack { project_id, version_id } =>
                InstanceLink::CurseForgeModpack {
                    project_id: project_id.clone(),
                    version_id: version_id.clone(),
                },
            InstanceLink::ServerProjectModpack {
                server_project_id,
                content_project_id,
                content_version_id,
            } => InstanceLink::ServerProjectModpack {
                server_project_id: server_project_id.clone(),
                content_project_id: content_project_id.clone(),
                content_version_id: content_version_id.clone(),
            },
            InstanceLink::ImportedModpack { name } => InstanceLink::ImportedModpack {
                name: name.clone(),
            },
        }
    }
}

impl Clone for LoaderComponent {
    fn clone(&self) -> (r: Self)
        ensures
            r == *self,
    {
        LoaderComponent {
            instance_id: self.instance_id.clone(),
            kind: self.kind,
            version: self.version.clone(),
            role: self.role,
            provider_metadata: self.provider_metadata.clone(),
        }
    }
}

impl Clone for CurseForgeWorldInstallRequest {
    fn clone(&self) -> (r: Self)
        ensures
            r == *self,
    {
        CurseForgeWorldInstallRequest {
            instance_id: self.instance_id.clone(),
            project_id: self.project_id,
            file_id: self.file_id,
        }
    }
}

impl View for InstallPauseReason {
    type V = (u64, Seq<String>);

    /// How many files failed, and their paths.
    open spec fn view(&self) -> (u64, Seq<String>) {
        match self {
            InstallPauseReason::MissingRequiredContent { failed_files, paths } => (
                *failed_files,
                paths@,
            ),
        }
    }
}

impl Clone for InstallPauseReason {
    fn clone(&self) -> (r: Self)
        ensures
            r@ == self@,
    {
        match self {
            InstallPauseReason::MissingRequiredContent { failed_files, paths } =>
                InstallPauseReason::MissingRequiredContent {
                    failed_files: *failed_files,
                    paths: clone_strings(paths),
                },
        }
    }
}

impl InstallErrorContext {
    /// Whether two contexts say the same.
    pub open spec fn same(self, other: InstallErrorContext) -> bool {
        &&& self.operation == other.operation
        &&& self.project_id == other.project_id
        &&& self.version_id == other.version_id
        &&& self.source_path == other.source_path
        &&& self.cache_types@ == other.cache_types@
        &&& self.sqlite_code == other.sqlite_code
    }
}

impl Clone for InstallErrorContext {
    fn clone(&self) -> (r: Self)
        ensures
            r.same(*self),
    {
        InstallErrorContext {
            operation: self.operation.clone(),
            project_id: self.project_id.clone(),
            version_id: self.version_id.clone(),
            source_path: self.source_path.clone(),
            cache_types: clone_strings(&self.cache_types),
            sqlite_code: self.sqlite_code.clone(),
        }
    }
}

impl Instance {
    /// Whether the instance is directly associated with an external launcher.
    pub fn is_direct_linked(&self) -> (r: bool)
        ensures
            r == self.direct_linked,
    {
        self.direct_linked
    }
}

impl LoaderComponent {
    /// The primary component for `loader`.
    pub fn new_primary(instance_id: &str, loader: ModLoader, version: Option<String>) -> (r: Self)
        ensures
            r.instance_id@ == instance_id@,
            r.kind == loader.component(),
            r.version == version,
            r.role == LoaderComponentRole::Primary,
            r.provider_metadata is None,
    {
        LoaderComponent {
            instance_id: instance_id.to_owned(),
            kind: loader.component_kind(),
            version,
            role: LoaderComponentRole::Primary,
            provider_metadata: None,
        }
    }
}

impl InstallRequest {
    /// The kind of the request.
    pub open spec fn job_kind(self) -> InstallJobKind {
        match self {
            InstallRequest::CreateInstance { .. } => InstallJobKind::CreateInstance,
            InstallRequest::CreateModpackInstance { .. } => InstallJobKind::CreateModpackInstance,
            InstallRequest::ImportInstance { .. } => InstallJobKind::ImportInstance,
            InstallRequest::DuplicateInstance { .. } => InstallJobKind::DuplicateInstance,
            InstallRequest::InstallExistingInstance { .. } =>
                InstallJobKind::InstallExistingInstance,
            InstallRequest::InstallContent { .. } => InstallJobKind::InstallContent,
            InstallRequest::InstallCurseForgeContent { .. } =>
                InstallJobKind::InstallCurseForgeContent,
            InstallRequest::InstallCurseForgeWorld { .. } =>
                InstallJobKind::InstallCurseForgeWorld,
            InstallRequest::DownloadJava { .. } => InstallJobKind::DownloadJava,
            InstallRequest::InstallPackToExistingInstance { .. } =>
                InstallJobKind::InstallPackToExistingInstance,
            InstallRequest::UpdateManagedCurseForgeModpack { .. } =>
                InstallJobKind::UpdateManagedCurseForgeModpack,
        }
    }

    /// The instance that the request names, where it names one.
    pub open spec fn named_instance(self) -> Option<String> {
        match self {
            InstallRequest::InstallExistingInstance { instance_id, .. } => Some(instance_id),
            InstallRequest::InstallPackToExistingInstance { instance_id, .. } => Some(instance_id),
            InstallRequest::UpdateManagedCurseForgeModpack { instance_id, .. } => Some(instance_id),
            InstallRequest::InstallContent { instance_id, .. } => Some(instance_id),
            InstallRequest::InstallCurseForgeContent { request, .. } => Some(request.instance_id),
            InstallRequest::InstallCurseForgeWorld { request, .. } => Some(request.instance_id),
            _ => None,
        }
    }

    /// The target that a job for the request starts with.
    pub open spec fn first_target(self) -> InstallTarget {
        match self.named_instance() {
            Some(instance_id) => InstallTarget::ExistingInstance { instance_id },
            None => InstallTarget::NewInstance { instance_id: None },
        }
    }

    /// The cleanup that a job for the request starts with.
    pub open spec fn first_cleanup(self) -> InstallCleanup {
        match self {
            InstallRequest::CreateInstance { .. }
            | InstallRequest::CreateModpackInstance { .. }
            | InstallRequest::ImportInstance { .. }
            | InstallRequest::DuplicateInstance { .. } => InstallCleanup::DeleteNewInstance {
                instance_id: None,
            },
            InstallRequest::InstallExistingInstance { instance_id, .. } =>
                InstallCleanup::RestoreExistingInstance { instance_id },
            InstallRequest::InstallPackToExistingInstance { instance_id, .. } =>
                InstallCleanup::RestoreExistingInstance { instance_id },
            InstallRequest::UpdateManagedCurseForgeModpack { instance_id, .. } =>
                InstallCleanup::RestoreExistingInstance { instance_id },
            _ => InstallCleanup::NoCleanup,
        }
    }

    /// The kind of the request.
    pub fn kind(&self) -> (r: InstallJobKind)
        ensures
            r == self.job_kind(),
    {
        match self {
            InstallRequest::CreateInstance { .. } => InstallJobKind::CreateInstance,
            InstallRequest::CreateModpackInstance { .. } => InstallJobKind::CreateModpackInstance,
            InstallRequest::ImportInstance { .. } => InstallJobKind::ImportInstance,
            InstallRequest::DuplicateInstance { .. } => InstallJobKind::DuplicateInstance,
            InstallRequest::InstallExistingInstance { .. } =>
                InstallJobKind::InstallExistingInstance,
            InstallRequest::InstallContent { .. } => InstallJobKind::InstallContent,
            InstallRequest::InstallCurseForgeContent { .. } =>
                InstallJobKind::InstallCurseForgeContent,
            InstallRequest::InstallCurseForgeWorld { .. } =>
                InstallJobKind::InstallCurseForgeWorld,
            InstallRequest::DownloadJava { .. } => InstallJobKind::DownloadJava,
            InstallRequest::InstallPackToExistingInstance { .. } =>
                InstallJobKind::InstallPackToExistingInstance,
            InstallRequest::UpdateManagedCurseForgeModpack { .. } =>
                InstallJobKind::UpdateManagedCurseForgeModpack,
        }
    }

    /// The target that a job for the request starts with.
    pub fn target(&self) -> (r: InstallTarget)
        ensures
            r == self.first_target(),
    {
        let named = match self {
            InstallRequest::InstallExistingInstance { instance_id, .. } => instance_id,
            InstallRequest::InstallPackToExistingInstance { instance_id, .. } => instance_id,
            InstallRequest::UpdateManagedCurseForgeModpack { instance_id, .. } => instance_id,
            InstallRequest::InstallContent { instance_id, .. } => instance_id,
            InstallRequest::InstallCurseForgeContent { request, .. } => &request.instance_id,
            InstallRequest::InstallCurseForgeWorld { request, .. } => &request.instance_id,
            _ => {
                return InstallTarget::NewInstance { instance_id: None };
            },
        };
        InstallTarget::ExistingInstance { instance_id: named.clone() }
    }

    /// The cleanup that a job for the request starts with.
    pub fn cleanup(&self) -> (r: InstallCleanup)
        ensures
            r == self.first_cleanup(),
    {
        match self {
            InstallRequest::CreateInstance { .. }
            | InstallRequest::CreateModpackInstance { .. }
            | InstallRequest::ImportInstance { .. }
            | InstallRequest::DuplicateInstance { .. } => InstallCleanup::DeleteNewInstance {
                instance_id: None,
            },
            InstallRequest::InstallExistingInstance { instance_id, .. } =>
                InstallCleanup::RestoreExistingInstance { instance_id: instance_id.clone() },
            InstallRequest::InstallPackToExistingInstance { instance_id, .. } =>
                InstallCleanup::RestoreExistingInstance { instance_id: instance_id.clone() },
            InstallRequest::UpdateManagedCurseForgeModpack { instance_id, .. } =>
                InstallCleanup::RestoreExistingInstance { instance_id: instance_id.clone() },
            _ => InstallCleanup::NoCleanup,
        }
    }
}

/// The index of the first item named `id`, or the number of items.
pub open spec fn item_index(items: Seq<DownloadItem>, id: Seq<char>) -> int
    decreases items.len(),
{
    if items.len() == 0 || items[0].id@ == id {
        0
    } else {
        1 + item_index(items.drop_first(), id)
    }
}

/// `items` with `item` in the place of the one that has its name, or behind them.
pub open spec fn with_item(items: Seq<DownloadItem>, item: DownloadItem) -> Seq<DownloadItem> {
    let k = item_index(items, item.id@);
    if 0 <= k < items.len() {
        items.update(k, item)
    } else {
        items.push(item)
    }
}

/// The items after one more event.
pub open spec fn items_after(items: Seq<DownloadItem>, kind: InstallJobEventKind) -> Seq<
    DownloadItem,
> {
    match kind {
        InstallJobEventKind::ContentFileSkipped {
            path,
            reason: _,
            project_id,
            version_id,
            manual_url,
        } => with_item(
            items,
            DownloadItem {
                id: path,
                status: DownloadItemStatus::Skipped,
                project_id,
                version_id,
                manual_url,
            },
        ),
        InstallJobEventKind::ContentFileRecovered { path, bytes: _ } => {
            let k = item_index(items, path@);
            if 0 <= k < items.len() {
                items.update(
                    k,
                    DownloadItem { id: path, status: DownloadItemStatus::Completed, ..items[k] },
                )
            } else {
                items.push(
                    DownloadItem {
                        id: path,
                        status: DownloadItemStatus::Completed,
                        project_id: None,
                        version_id: None,
                        manual_url: None,
                    },
                )
            }
        },
        _ => items,
    }
}

/// The files that a history speaks of, each with what became of it last.
pub open spec fn items_of(events: Seq<InstallJobEvent>) -> Seq<DownloadItem>
    decreases events.len(),
{
    if events.len() == 0 {
        seq![]
    } else {
        items_after(items_of(events.drop_last()), events.last().kind)
    }
}

proof fn lemma_item_index(items: Seq<DownloadItem>, id: Seq<char>, n: int)
    requires
        0 <= n <= items.len(),
        forall|j: int| 0 <= j < n ==> (#[trigger] items[j]).id@ != id,
        n < items.len() ==> items[n].id@ == id,
    ensures
        item_index(items, id) == n,
    decreases items.len(),
{
    if items.len() > 0 && n > 0 {
        assert(items[0].id@ != id);
        let rest = items.drop_first();
        assert forall|j: int| 0 <= j < n - 1 implies (#[trigger] rest[j]).id@ != id by {
            assert(rest[j] == items[j + 1]);
        }
        lemma_item_index(rest, id, n - 1);
    }
}

fn find_item(items: &Vec<DownloadItem>, id: &str) -> (r: usize)
    ensures
        r == item_index(items@, id@),
        r <= items@.len(),
{
    let mut k: usize = 0;
    while k < items.len() && !str_eq(items[k].id.as_str(), id)
        invariant
            k <= items@.len(),
            forall|j: int| 0 <= j < k ==> (#[trigger] items@[j]).id@ != id@,
        decreases items@.len() - k,
    {
        k = k + 1;
    }
    proof {
        lemma_item_index(items@, id@, k as int);
    }
    k
}

impl InstallJobState {
    /// The state of a new job for `request`.
    pub fn new(request: InstallRequest) -> (r: Self)
        ensures
            r.request == request,
            r.target == request.first_target(),
            r.cleanup == request.first_cleanup(),
            r.rollback is None,
            r.error is None,
            r.rollback_error is None,
            r.pause_reason is None,
            r.continuation is None,
            r.context is None,
            r.progress == (InstallProgressState {
                phase: InstallPhaseId::PreparingInstance,
                progress: None,
                details: InstallPhaseDetails::Empty,
                parallel: None,
            }),
            r.display is None,
            r.events@ == seq![
                InstallJobEvent {
                    kind: InstallJobEventKind::JobQueued { kind: request.job_kind() },
                },
            ],
            r.active_downloads@.len() == 0,
            r.missing_content is None,
            r.skipped_missing_content_paths@.len() == 0,
    {
        let target = request.target();
        let cleanup = request.cleanup();
        let kind = request.kind();
        let mut events: Vec<InstallJobEvent> = Vec::new();
        events.push(InstallJobEvent { kind: InstallJobEventKind::JobQueued { kind } });
        InstallJobState {
            request,
            target,
            cleanup,
            rollback: None,
            error: None,
            rollback_error: None,
            pause_reason: None,
            continuation: None,
            context: None,
            progress: InstallProgressState {
                phase: InstallPhaseId::PreparingInstance,
                progress: None,
                details: InstallPhaseDetails::Empty,
                parallel: None,
            },
            display: None,
            events,
            active_downloads: Vec::new(),
            missing_content: None,
            skipped_missing_content_paths: Vec::new(),
        }
    }

    /// Adds an event to the history.
    pub fn record_event(&mut self, kind: InstallJobEventKind)
        ensures
            *final(self) == (InstallJobState { events: final(self).events, ..*old(self) }),
            final(self).events@ == old(self).events@.push(InstallJobEvent { kind }),
    {
        self.events.push(InstallJobEvent { kind });
    }

    /// Moves the job to `phase`.
    pub fn set_progress(
        &mut self,
        phase: InstallPhaseId,
        progress: Option<InstallProgress>,
        details: InstallPhaseDetails,
    )
        ensures
            *final(self) == (InstallJobState {
                progress: InstallProgressState {
                    phase,
                    progress,
                    details,
                    parallel: old(self).progress.parallel,
                },
                ..*old(self)
            }),
    {
        self.progress.phase = phase;
        self.progress.progress = progress;
        self.progress.details = details;
    }

    /// The files that the history speaks of, each with what became of it last.
    pub fn download_items(&self) -> (r: Vec<DownloadItem>)
        ensures
            r@ == items_of(self.events@),
    {
        let mut items: Vec<DownloadItem> = Vec::new();
        let mut n: usize = 0;
        while n < self.events.len()
            invariant
                n <= self.events@.len(),
                items@ == items_of(self.events@.take(n as int)),
            decreases self.events@.len() - n,
        {
            let ghost before = items@;
            match &self.events[n].kind {
                InstallJobEventKind::ContentFileSkipped {
                    path,
                    reason: _,
                    project_id,
                    version_id,
                    manual_url,
                } => {
                    let k = find_item(&items, path.as_str());
                    let item = DownloadItem {
                        id: path.clone(),
                        status: DownloadItemStatus::Skipped,
                        project_id: project_id.clone(),
                        version_id: version_id.clone(),
                        manual_url: manual_url.clone(),
                    };
                    if k < items.len() {
                        items.set(k, item);
                    } else {
                        items.push(item);
                    }
                },
                InstallJobEventKind::ContentFileRecovered { path, bytes: _ } => {
                    let k = find_item(&items, path.as_str());
                    if k < items.len() {
                        let item = DownloadItem {
                            id: path.clone(),
                            status: DownloadItemStatus::Completed,
                            project_id: items[k].project_id.clone(),
                            version_id: items[k].version_id.clone(),
                            manual_url: items[k].manual_url.clone(),
                        };
                        items.set(k, item);
                    } else {
                        items.push(
                            DownloadItem {
                                id: path.clone(),
                                status: DownloadItemStatus::Completed,
                                project_id: None,
                                version_id: None,
                                manual_url: None,
                            },
                        );
                    }
                },
                _ => {},
            }
            proof {
                let longer = self.events@.take(n + 1);
                assert(longer.drop_last() =~= self.events@.take(n as int));
                assert(longer.last() == self.events@[n as int]);
                assert(items@ =~= items_after(before, self.events@[n as int].kind));
            }
            n = n + 1;
        }
        assert(self.events@.take(n as int) =~= self.events@);
        items
    }
}

/// A job that names an instance is one for that instance, and any other job starts
/// with none. If a job fails, what it created is deleted, an instance that it changed
/// as a whole is put back, and content or a download of Java is left as it is.
pub proof fn law_jobs_start_with_what_they_name(request: InstallRequest)
    ensures
        ({
            let target = request.first_target();
            let cleanup = request.first_cleanup();
            match request {
                InstallRequest::CreateInstance { .. }
                | InstallRequest::CreateModpackInstance { .. }
                | InstallRequest::ImportInstance { .. }
                | InstallRequest::DuplicateInstance { .. } => {
                    &&& target == (InstallTarget::NewInstance { instance_id: None })
                    &&& cleanup == (InstallCleanup::DeleteNewInstance { instance_id: None })
                },
                InstallRequest::InstallExistingInstance { instance_id: id, force: _ } => {
                    &&& target == (InstallTarget::ExistingInstance { instance_id: id })
                    &&& cleanup == (InstallCleanup::RestoreExistingInstance { instance_id: id })
                },
                InstallRequest::InstallPackToExistingInstance { instance_id: id, .. } => {
                    &&& target == (InstallTarget::ExistingInstance { instance_id: id })
                    &&& cleanup == (InstallCleanup::RestoreExistingInstance { instance_id: id })
                },
                InstallRequest::UpdateManagedCurseForgeModpack { instance_id: id, .. } => {
                    &&& target == (InstallTarget::ExistingInstance { instance_id: id })
                    &&& cleanup == (InstallCleanup::RestoreExistingInstance { instance_id: id })
                },
                InstallRequest::InstallContent { instance_id: id, .. } => {
                    &&& target == (InstallTarget::ExistingInstance { instance_id: id })
                    &&& cleanup == InstallCleanup::NoCleanup
                },
                InstallRequest::InstallCurseForgeContent { request: content, .. } => {
                    &&& target == (InstallTarget::ExistingInstance {
                        instance_id: content.instance_id,
                    })
                    &&& cleanup == InstallCleanup::NoCleanup
                },
                InstallRequest::InstallCurseForgeWorld { request: world, .. } => {
                    &&& target == (InstallTarget::ExistingInstance {
                        instance_id: world.instance_id,
                    })
                    &&& cleanup == InstallCleanup::NoCleanup
                },
                InstallRequest::DownloadJava { .. } => {
                    &&& target == (InstallTarget::NewInstance { instance_id: None })
                    &&& cleanup == InstallCleanup::NoCleanup
                },
            }
        }),
{
}

/// The kind of a job tells what was asked for.
pub proof fn law_kinds_tell_requests_apart(request: InstallRequest)
    ensures
        request is CreateInstance <==> request.job_kind() == InstallJobKind::CreateInstance,
        request is CreateModpackInstance <==> request.job_kind()
            == InstallJobKind::CreateModpackInstance,
        request is ImportInstance <==> request.job_kind() == InstallJobKind::ImportInstance,
        request is DuplicateInstance <==> request.job_kind() == InstallJobKind::DuplicateInstance,
        request is InstallExistingInstance <==> request.job_kind()
            == InstallJobKind::InstallExistingInstance,
        request is InstallContent <==> request.job_kind() == InstallJobKind::InstallContent,
        request is InstallCurseForgeContent <==> request.job_kind()
            == InstallJobKind::InstallCurseForgeContent,
        request is InstallCurseForgeWorld <==> request.job_kind()
            == InstallJobKind::InstallCurseForgeWorld,
        request is DownloadJava <==> request.job_kind() == InstallJobKind::DownloadJava,
        request is InstallPackToExistingInstance <==> request.job_kind()
            == InstallJobKind::InstallPackToExistingInstance,
        request is UpdateManagedCurseForgeModpack <==> request.job_kind()
            == InstallJobKind::UpdateManagedCurseForgeModpack,
{
}

proof fn lemma_index_of_item(items: Seq<DownloadItem>, id: Seq<char>)
    ensures
        0 <= item_index(items, id) <= items.len(),
        item_index(items, id) < items.len() ==> items[item_index(items, id)].id@ == id,
        forall|i: int|
            0 <= i < items.len() && i < item_index(items, id) ==> (#[trigger] items[i]).id@ != id,
    decreases items.len(),
{
    if items.len() > 0 && items[0].id@ != id {
        let rest = items.drop_first();
        lemma_index_of_item(rest, id);
        let k = item_index(rest, id);
        if k < rest.len() {
            assert(rest[k] == items[k + 1]);
        }
        assert forall|i: int| 0 <= i < items.len() && i < item_index(items, id) implies (
        #[trigger] items[i]).id@ != id by {
            if i > 0 {
                assert(rest[i - 1] == items[i]);
            }
        }
    }
}

/// The file that an event speaks of.
pub open spec fn file_of(kind: InstallJobEventKind) -> Option<Seq<char>> {
    match kind {
        InstallJobEventKind::ContentFileSkipped { path, .. } => Some(path@),
        InstallJobEventKind::ContentFileRecovered { path, .. } => Some(path@),
        _ => None,
    }
}

/// What an event says of a file is in the list afterwards: a skipped file as skipped,
/// with its project, its version and where it can be had, and a recovered file as
/// completed, with what was known of it. The list grows only by a file that was not
/// in it, and everything else in it stays as it is.
pub proof fn law_files_are_listed_as_told(items: Seq<DownloadItem>, kind: InstallJobEventKind)
    ensures
        ({
            let after = items_after(items, kind);
            match kind {
                InstallJobEventKind::ContentFileSkipped {
                    path,
                    reason: _,
                    project_id,
                    version_id,
                    manual_url,
                } => {
                    &&& (exists|i: int| 0 <= i < items.len() && (#[trigger] items[i]).id@ == path@)
                        <==> after.len() == items.len()
                    &&& after.len() <= items.len() + 1
                    &&& exists|k: int|
                        {
                            &&& 0 <= k < after.len()
                            &&& (#[trigger] after[k]).id == path
                            &&& after[k].status == DownloadItemStatus::Skipped
                            &&& after[k].project_id == project_id
                            &&& after[k].version_id == version_id
                            &&& after[k].manual_url == manual_url
                        }
                    &&& forall|i: int|
                        0 <= i < items.len() && (#[trigger] items[i]).id@ != path@ ==> after[i]
                            == items[i]
                },
                InstallJobEventKind::ContentFileRecovered { path, bytes: _ } => {
                    &&& (exists|i: int| 0 <= i < items.len() && (#[trigger] items[i]).id@ == path@)
                        <==> after.len() == items.len()
                    &&& after.len() <= items.len() + 1
                    &&& exists|k: int|
                        {
                            &&& 0 <= k < after.len()
                            &&& (#[trigger] after[k]).id == path
                            &&& after[k].status == DownloadItemStatus::Completed
                            &&& if k < items.len() {
                                &&& items[k].id@ == path@
                                &&& after[k].project_id == items[k].project_id
                                &&& after[k].version_id == items[k].version_id
                                &&& after[k].manual_url == items[k].manual_url
                            } else {
                                &&& after[k].project_id is None
                                &&& after[k].version_id is None
                                &&& after[k].manual_url is None
                            }
                        }
                    &&& forall|i: int|
                        0 <= i < items.len() && (#[trigger] items[i]).id@ != path@ ==> after[i]
                            == items[i]
                },
                _ => after == items,
            }
        }),
{
    if let Some(id) = file_of(kind) {
        lemma_index_of_item(items, id);
        let k = item_index(items, id);
        let after = items_after(items, kind);
        if k < items.len() {
            assert(items[k].id@ == id);
        }
        assert(after[k].id@ == id);
        if exists|i: int| 0 <= i < items.len() && (#[trigger] items[i]).id@ == id {
            let i = choose|i: int| 0 <= i < items.len() && (#[trigger] items[i]).id@ == id;
            assert(k <= i);
        }
    }
}

proof fn lemma_told_item(items: Seq<DownloadItem>, kind: InstallJobEventKind)
    requires
        file_of(kind) is Some,
    ensures
        ({
            let k = item_index(items, file_of(kind)->0);
            let after = items_after(items, kind);
            &&& 0 <= k < after.len()
            &&& after.len() == if k < items.len() {
                items.len()
            } else {
                items.len() + 1
            }
            &&& after[k].id@ == file_of(kind)->0
            &&& forall|i: int| 0 <= i < items.len() && i != k ==> #[trigger] after[i] == items[i]
        }),
{
    lemma_index_of_item(items, file_of(kind)->0);
}

/// Whatever events there were, no file is in the list twice.
pub proof fn law_every_file_is_listed_once(events: Seq<InstallJobEvent>)
    ensures
        forall|i: int, j: int|
            0 <= i < j < items_of(events).len() ==> (#[trigger] items_of(events)[i]).id@ != (
            #[trigger] items_of(events)[j]).id@,
    decreases events.len(),
{
    if events.len() > 0 {
        let init = events.drop_last();
        law_every_file_is_listed_once(init);
        let items = items_of(init);
        let after = items_of(events);
        let kind = events.last().kind;
        assert(after == items_after(items, kind));
        if let Some(id) = file_of(kind) {
            lemma_index_of_item(items, id);
            lemma_told_item(items, kind);
            let k = item_index(items, id);
            assert forall|i: int, j: int| 0 <= i < j < after.len() implies (#[trigger] after[i]).id@
                != (#[trigger] after[j]).id@ by {
                if i == k {
                    assert(items[i].id@ != items[j].id@);
                } else if j == k {
                    assert(items[i].id@ != id);
                } else {
                    assert(items[i].id@ != items[j].id@);
                }
            }
        }
    }
}

/// A file that an event spoke of is in the list.
pub proof fn law_files_that_were_told_of_are_listed(events: Seq<InstallJobEvent>, n: int)
    requires
        0 <= n < events.len(),
        file_of(events[n].kind) is Some,
    ensures
        exists|i: int|
            {
                &&& 0 <= i < items_of(events).len()
                &&& file_of(events[n].kind) == Some((#[trigger] items_of(events)[i]).id@)
            },
    decreases events.len(),
{
    let init = events.drop_last();
    let items = items_of(init);
    let after = items_of(events);
    let kind = events.last().kind;
    assert(after == items_after(items, kind));
    if n == events.len() - 1 {
        lemma_told_item(items, kind);
        let k = item_index(items, file_of(kind)->0);
        assert(file_of(events[n].kind) == Some(after[k].id@));
    } else {
        assert(init[n] == events[n]);
        law_files_that_were_told_of_are_listed(init, n);
        let i = choose|i: int|
            {
                &&& 0 <= i < items.len()
                &&& file_of(init[n].kind) == Some((#[trigger] items[i]).id@)
            };
        if let Some(id) = file_of(kind) {
            lemma_index_of_item(items, id);
            lemma_told_item(items, kind);
        }
        assert(after[i].id@ == items[i].id@);
    }
}

/// A file that is in the list was spoken of by an event.
pub proof fn law_listed_files_were_told_of(events: Seq<InstallJobEvent>, i: int)
    requires
        0 <= i < items_of(events).len(),
    ensures
        exists|n: int|
            {
                &&& 0 <= n < events.len()
                &&& file_of((#[trigger] events[n]).kind) == Some(items_of(events)[i].id@)
            },
    decreases events.len(),
{
    let init = events.drop_last();
    let items = items_of(init);
    let after = items_of(events);
    let kind = events.last().kind;
    assert(after == items_after(items, kind));
    assert(events[events.len() - 1].kind == kind);
    if file_of(kind) is Some {
        lemma_index_of_item(items, file_of(kind)->0);
        lemma_told_item(items, kind);
    }
    if file_of(kind) != Some(after[i].id@) {
        assert(after[i] == items[i]);
        law_listed_files_were_told_of(init, i);
        let n = choose|n: int|
            {
                &&& 0 <= n < init.len()
                &&& file_of((#[trigger] init[n]).kind) == Some(items[i].id@)
            };
        assert(events[n] == init[n]);
    }
}

/// The last event that speaks of a file decides: after a skip the file is listed as
/// skipped, after a recovery as completed, whatever was told of other files since.
pub proof fn law_the_last_event_of_a_file_decides(events: Seq<InstallJobEvent>, n: int, i: int)
    requires
        0 <= n < events.len(),
        file_of(events[n].kind) is Some,
        forall|m: int|
            n < m < events.len() ==> file_of((#[trigger] events[m]).kind) != file_of(
                events[n].kind,
            ),
        0 <= i < items_of(events).len(),
        file_of(events[n].kind) == Some(items_of(events)[i].id@),
    ensures
        events[n].kind is ContentFileSkipped ==> {
            &&& items_of(events)[i].status == DownloadItemStatus::Skipped
            &&& items_of(events)[i].project_id == events[n].kind->ContentFileSkipped_project_id
            &&& items_of(events)[i].version_id == events[n].kind->ContentFileSkipped_version_id
            &&& items_of(events)[i].manual_url == events[n].kind->ContentFileSkipped_manual_url
        },
        events[n].kind is ContentFileRecovered ==> items_of(events)[i].status
            == DownloadItemStatus::Completed,
    decreases events.len(),
{
    let init = events.drop_last();
    let last = events.len() - 1;
    let items = items_of(init);
    let after = items_of(events);
    let kind = events.last().kind;
    assert(events[last].kind == kind);
    assert(after == items_after(items, kind));
    if n == last {
        let id = file_of(kind)->0;
        lemma_index_of_item(items, id);
        let k = item_index(items, id);
        assert(after[k].id@ == id);
        assert(i == k) by {
            law_every_file_is_listed_once(events);
            assert(after[i].id@ == after[k].id@);
        }
    } else {
        assert(init[n] == events[n]);
        assert forall|m: int| n < m < init.len() implies file_of((#[trigger] init[m]).kind)
            != file_of(init[n].kind) by {
            assert(init[m] == events[m]);
        }
        assert(file_of(events[last].kind) != file_of(events[n].kind));
        assert(i < items.len() && after[i] == items[i]) by {
            if let Some(id) = file_of(kind) {
                lemma_index_of_item(items, id);
            }
        }
        law_the_last_event_of_a_file_decides(init, n, i);
    }
}

} // verus!

//! What the user is told when a job fails.
use vstd::prelude::*;

use crate::error::{Error, ErrorKind};
use crate::text::starts_with;

use super::model::{InstallErrorContext, InstallErrorView, InstallPhaseId};

verus! {

/// The classes of failure that the user is told apart.
#[derive(Clone, Copy, Debug, PartialEq, Eq, Structural)]
pub enum InstallErrorCode {
    CacheRepairRequired,
    UnrecognizedFormat,
    InstanceError,
    PackError,
    ContentError,
    PathError,
    JavaError,
    RollbackError,
    LauncherError,
    ProcessorError,
    LoaderError,
    MetadataError,
    NetworkError,
    ApiError,
    HashError,
    ArchiveError,
    FilesystemError,
    ParseError,
    DatabaseError,
    InternalError,
    UnknownError,
}

impl InstallErrorCode {
    /// The text of the code.
    pub open spec fn text(self) -> Seq<char> {
        match self {
            InstallErrorCode::CacheRepairRequired => "cache_repair_required"@,
            InstallErrorCode::UnrecognizedFormat => "unrecognized_format"@,
            InstallErrorCode::InstanceError => "instance_error"@,
            InstallErrorCode::PackError => "pack_error"@,
            InstallErrorCode::ContentError => "content_error"@,
            InstallErrorCode::PathError => "path_error"@,
            InstallErrorCode::JavaError => "java_error"@,
            InstallErrorCode::RollbackError => "rollback_error"@,
            InstallErrorCode::LauncherError => "launcher_error"@,
            InstallErrorCode::ProcessorError => "processor_error"@,
            InstallErrorCode::LoaderError => "loader_error"@,
            InstallErrorCode::MetadataError => "metadata_error"@,
            InstallErrorCode::NetworkError => "network_error"@,
            InstallErrorCode::ApiError => "api_error"@,
            InstallErrorCode::HashError => "hash_error"@,
            InstallErrorCode::ArchiveError => "archive_error"@,
            InstallErrorCode::FilesystemError => "filesystem_error"@,
            InstallErrorCode::ParseError => "parse_error"@,
            InstallErrorCode::DatabaseError => "database_error"@,
            InstallErrorCode::InternalError => "internal_error"@,
            InstallErrorCode::UnknownError => "unknown_error"@,
        }
    }

    /// The text of the code.
    pub fn as_str(self) -> (r: &'static str)
        ensures
            r@ == self.text(),
    {
        match self {
            InstallErrorCode::CacheRepairRequired => "cache_repair_required",
            InstallErrorCode::UnrecognizedFormat => "unrecognized_format",
            InstallErrorCode::InstanceError => "instance_error",
            InstallErrorCode::PackError => "pack_error",
            InstallErrorCode::ContentError => "content_error",
            InstallErrorCode::PathError => "path_error",
            InstallErrorCode::JavaError => "java_error",
            InstallErrorCode::RollbackError => "rollback_error",
            InstallErrorCode::LauncherError => "launcher_error",
            InstallErrorCode::ProcessorError => "processor_error",
            InstallErrorCode::LoaderError => "loader_error",
            InstallErrorCode::MetadataError => "metadata_error",
            InstallErrorCode::NetworkError => "network_error",
            InstallErrorCode::ApiError => "api_error",
            InstallErrorCode::HashError => "hash_error",
            InstallErrorCode::ArchiveError => "archive_error",
            InstallErrorCode::FilesystemError => "filesystem_error",
            InstallErrorCode::ParseError => "parse_error",
            InstallErrorCode::DatabaseError => "database_error",
            InstallErrorCode::InternalError => "internal_error",
            InstallErrorCode::UnknownError => "unknown_error",
        }
    }
}

/// The class of a bad input that shows up in `phase`.
pub open spec fn input_error_code(phase: InstallPhaseId) -> InstallErrorCode {
    match phase {
        InstallPhaseId::PreparingInstance
        | InstallPhaseId::Finalizing
        | InstallPhaseId::DownloadingMinecraft => InstallErrorCode::InstanceError,
        InstallPhaseId::ResolvingPack
        | InstallPhaseId::DownloadingPackFile
        | InstallPhaseId::ReadingPackManifest => InstallErrorCode::PackError,
        InstallPhaseId::DownloadingContent => InstallErrorCode::ContentError,
        InstallPhaseId::ExtractingOverrides => InstallErrorCode::PathError,
        InstallPhaseId::PreparingJava => InstallErrorCode::JavaError,
        InstallPhaseId::RollingBack => InstallErrorCode::RollbackError,
        InstallPhaseId::ResolvingMinecraft
        | InstallPhaseId::ResolvingLoader
        | InstallPhaseId::RunningLoaderProcessors => InstallErrorCode::LauncherError,
    }
}

/// Whether `phase` waits for the network.
pub open spec fn is_network_phase(phase: InstallPhaseId) -> bool {
    ||| phase == InstallPhaseId::DownloadingPackFile
    ||| phase == InstallPhaseId::DownloadingContent
    ||| phase == InstallPhaseId::ResolvingMinecraft
    ||| phase == InstallPhaseId::ResolvingLoader
    ||| phase == InstallPhaseId::PreparingJava
    ||| phase == InstallPhaseId::DownloadingMinecraft
}

/// The class of an error that shows up in `phase`.
pub open spec fn error_code(phase: InstallPhaseId, kind: ErrorKind) -> InstallErrorCode {
    match kind {
        ErrorKind::CacheReadError { .. } => InstallErrorCode::CacheRepairRequired,
        ErrorKind::InputError(message) => if phase == InstallPhaseId::ResolvingPack
            && "Unrecognized modpack format"@.is_prefix_of(message@) {
            InstallErrorCode::UnrecognizedFormat
        } else {
            input_error_code(phase)
        },
        ErrorKind::LauncherError(_) => match phase {
            InstallPhaseId::RunningLoaderProcessors => InstallErrorCode::ProcessorError,
            InstallPhaseId::PreparingJava => InstallErrorCode::JavaError,
            InstallPhaseId::ResolvingLoader => InstallErrorCode::LoaderError,
            _ => InstallErrorCode::LauncherError,
        },
        ErrorKind::JREError(_) => InstallErrorCode::JavaError,
        ErrorKind::NoValueFor(_) | ErrorKind::MetadataError(_) => match phase {
            InstallPhaseId::ResolvingLoader => InstallErrorCode::LoaderError,
            InstallPhaseId::PreparingJava => InstallErrorCode::JavaError,
            _ => InstallErrorCode::MetadataError,
        },
        ErrorKind::FetchError(_)
        | ErrorKind::NetworkError(_)
        | ErrorKind::HttpError { .. }
        | ErrorKind::ApiIsDownError(_) => InstallErrorCode::NetworkError,
        ErrorKind::Any(_) => if is_network_phase(phase) {
            InstallErrorCode::NetworkError
        } else {
            InstallErrorCode::InternalError
        },
        ErrorKind::LabrinthError(_) => InstallErrorCode::ApiError,
        ErrorKind::HashError(_, _) => InstallErrorCode::HashError,
        ErrorKind::ZipError(_) => InstallErrorCode::ArchiveError,
        ErrorKind::DeserializationError(_)
        | ErrorKind::StripPrefixError(_) => InstallErrorCode::PathError,
        ErrorKind::FSError(_)
        | ErrorKind::IOError(_)
        | ErrorKind::StdIOError(_)
        | ErrorKind::UTFError(_) => InstallErrorCode::FilesystemError,
        ErrorKind::INIError(_) | ErrorKind::JSONError(_) => InstallErrorCode::ParseError,
        ErrorKind::Sqlx(_) | ErrorKind::SqlxMigrate(_) => InstallErrorCode::DatabaseError,
        ErrorKind::JoinError(_)
        | ErrorKind::RecvError(_)
        | ErrorKind::AcquireError(_)
        | ErrorKind::EventError(_)
        | ErrorKind::OtherError(_) => InstallErrorCode::InternalError,
        ErrorKind::Unclassified(_) => InstallErrorCode::UnknownError,
    }
}

/// The class of an error that shows up in `phase`.
fn classify(phase: InstallPhaseId, error: &Error) -> (r: InstallErrorCode)
    ensures
        r == error_code(phase, error.raw),
{
    match &error.raw {
        ErrorKind::CacheReadError { .. } => InstallErrorCode::CacheRepairRequired,
        ErrorKind::InputError(message) => {
            if phase == InstallPhaseId::ResolvingPack && starts_with(
                message.as_str(),
                "Unrecognized modpack format",
            ) {
                return InstallErrorCode::UnrecognizedFormat;
            }
            match phase {
                InstallPhaseId::PreparingInstance
                | InstallPhaseId::Finalizing
                | InstallPhaseId::DownloadingMinecraft => InstallErrorCode::InstanceError,
                InstallPhaseId::ResolvingPack
                | InstallPhaseId::DownloadingPackFile
                | InstallPhaseId::ReadingPackManifest => InstallErrorCode::PackError,
                InstallPhaseId::DownloadingContent => InstallErrorCode::ContentError,
                InstallPhaseId::ExtractingOverrides => InstallErrorCode::PathError,
                InstallPhaseId::PreparingJava => InstallErrorCode::JavaError,
                InstallPhaseId::RollingBack => InstallErrorCode::RollbackError,
                InstallPhaseId::ResolvingMinecraft
                | InstallPhaseId::ResolvingLoader
                | InstallPhaseId::RunningLoaderProcessors => InstallErrorCode::LauncherError,
            }
        },
        ErrorKind::LauncherError(_) => match phase {
            InstallPhaseId::RunningLoaderProcessors => InstallErrorCode::ProcessorError,
            InstallPhaseId::PreparingJava => InstallErrorCode::JavaError,
            InstallPhaseId::ResolvingLoader => InstallErrorCode::LoaderError,
            _ => InstallErrorCode::LauncherError,
        },
        ErrorKind::JREError(_) => InstallErrorCode::JavaError,
        ErrorKind::NoValueFor(_) | ErrorKind::MetadataError(_) => match phase {
            InstallPhaseId::ResolvingLoader => InstallErrorCode::LoaderError,
            InstallPhaseId::PreparingJava => InstallErrorCode::JavaError,
            _ => InstallErrorCode::MetadataError,
        },
        ErrorKind::FetchError(_)
        | ErrorKind::NetworkError(_)
        | ErrorKind::HttpError { .. }
        | ErrorKind::ApiIsDownError(_) => InstallErrorCode::NetworkError,
        ErrorKind::Any(_) => match phase {
            InstallPhaseId::DownloadingPackFile
            | InstallPhaseId::DownloadingContent
            | InstallPhaseId::ResolvingMinecraft
            | InstallPhaseId::ResolvingLoader
            | InstallPhaseId::PreparingJava
            | InstallPhaseId::DownloadingMinecraft => InstallErrorCode::NetworkError,
            _ => InstallErrorCode::InternalError,
        },
        ErrorKind::LabrinthError(_) => InstallErrorCode::ApiError,
        ErrorKind::HashError(_, _) => InstallErrorCode::HashError,
        ErrorKind::ZipError(_) => InstallErrorCode::ArchiveError,
        ErrorKind::DeserializationError(_) | ErrorKind::StripPrefixError(_) =>
            InstallErrorCode::PathError,
        ErrorKind::FSError(_)
        | ErrorKind::IOError(_)
        | ErrorKind::StdIOError(_)
        | ErrorKind::UTFError(_) => InstallErrorCode::FilesystemError,
        ErrorKind::INIError(_) | ErrorKind::JSONError(_) => InstallErrorCode::ParseError,
        ErrorKind::Sqlx(_) | ErrorKind::SqlxMigrate(_) => InstallErrorCode::DatabaseError,
        ErrorKind::JoinError(_)
        | ErrorKind::RecvError(_)
        | ErrorKind::AcquireError(_)
        | ErrorKind::EventError(_)
        | ErrorKind::OtherError(_) => InstallErrorCode::InternalError,
        ErrorKind::Unclassified(_) => InstallErrorCode::UnknownError,
    }
}

/// The code that the user is told for `error` in `phase`.
pub fn install_error_code(phase: InstallPhaseId, error: &Error) -> (r: &'static str)
    ensures
        r@ == error_code(phase, error.raw).text(),
{
    classify(phase, error).as_str()
}

/// An `InstallErrorContext` in the making.
#[derive(Debug)]
pub struct InstallErrorContextBuilder {
    pub context: InstallErrorContext,
}

impl InstallErrorContext {
    /// Whether nothing but the operation is known.
    pub open spec fn is_bare(self, operation: Seq<char>) -> bool {
        &&& self.operation@ == operation
        &&& self.project_id is None
        &&& self.version_id is None
        &&& self.source_path is None
        &&& self.cache_types@.len() == 0
        &&& self.sqlite_code is None
    }

    /// Starts a context for `operation`.
    pub fn new(operation: &str) -> (r: InstallErrorContextBuilder)
        ensures
            r.context.is_bare(operation@),
    {
        InstallErrorContextBuilder {
            context: InstallErrorContext {
                operation: operation.to_owned(),
                project_id: None,
                version_id: None,
                source_path: None,
                cache_types: Vec::new(),
                sqlite_code: None,
            },
        }
    }
}

impl InstallErrorContextBuilder {
    /// Sets the project.
    pub fn project_id(self, project_id: String) -> (r: Self)
        ensures
            r.context == (InstallErrorContext { project_id: Some(project_id), ..self.context }),
    {
        let mut context = self.context;
        context.project_id = Some(project_id);
        InstallErrorContextBuilder { context }
    }

    /// Sets the version.
    pub fn version_id(self, version_id: String) -> (r: Self)
        ensures
            r.context == (InstallErrorContext { version_id: Some(version_id), ..self.context }),
    {
        let mut context = self.context;
        context.version_id = Some(version_id);
        InstallErrorContextBuilder { context }
    }

    /// Sets the file that was read.
    pub fn source_path(self, source_path: String) -> (r: Self)
        ensures
            r.context == (InstallErrorContext { source_path: Some(source_path), ..self.context }),
    {
        let mut context = self.context;
        context.source_path = Some(source_path);
        InstallErrorContextBuilder { context }
    }

    /// The finished context.
    pub fn build(self) -> (r: InstallErrorContext)
        ensures
            r == self.context,
    {
        self.context
    }
}

impl InstallErrorView {
    /// What the user is told of `error`.
    pub fn from_error(
        code: &str,
        phase: InstallPhaseId,
        error: &Error,
        context: Option<InstallErrorContext>,
    ) -> (r: Self)
        ensures
            r.code@ == code@,
            r.phase == Some(phase),
            r.message == error.text,
            r.api == error.api,
            r.context == context,
    {
        InstallErrorView {
            code: code.to_owned(),
            phase: Some(phase),
            message: error.text.clone(),
            api: error.api.clone(),
            context,
        }
    }

    /// What the user is told where there is only a message.
    pub fn from_message(code: &str, phase: InstallPhaseId, message: &str) -> (r: Self)
        ensures
            r.code@ == code@,
            r.phase == Some(phase),
            r.message@ == message@,
            r.api is None,
            r.context is None,
    {
        InstallErrorView {
            code: code.to_owned(),
            phase: Some(phase),
            message: message.to_owned(),
            api: None,
            context: None,
        }
    }
}

/// The context shown for an error: a failed cache read names the cache, in the
/// job's context or in one of its own; any other error keeps the job's context.
pub open spec fn shows_context(
    kind: ErrorKind,
    context: Option<InstallErrorContext>,
    shown: Option<InstallErrorContext>,
) -> bool {
    match kind {
        ErrorKind::CacheReadError { cache_type, message: _, sqlite_code } => {
            &&& shown is Some
            &&& shown->0.cache_types@ == seq![cache_type]
            &&& shown->0.sqlite_code == sqlite_code
            &&& match context {
                Some(known) => shown->0 == (InstallErrorContext {
                    cache_types: shown->0.cache_types,
                    sqlite_code,
                    ..known
                }),
                None => {
                    &&& shown->0.operation@ == "read project metadata cache"@
                    &&& shown->0.project_id is None
                    &&& shown->0.version_id is None
                    &&& shown->0.source_path is None
                },
            }
        },
        _ => shown == context,
    }
}

/// What the user is told of an error in `phase`.
pub open spec fn is_error_view(
    view: InstallErrorView,
    phase: InstallPhaseId,
    error: Error,
    context: Option<InstallErrorContext>,
) -> bool {
    &&& view.code@ == error_code(phase, error.raw).text()
    &&& view.phase == Some(phase)
    &&& view.message == error.text
    &&& view.api == error.api
    &&& shows_context(error.raw, context, view.context)
}

/// What the user is told of `error` in `phase`.
pub fn install_error_view(
    phase: InstallPhaseId,
    error: &Error,
    context: Option<InstallErrorContext>,
) -> (r: InstallErrorView)
    ensures
        is_error_view(r, phase, *error, context),
{
    let ghost given = context;
    let shown = match &error.raw {
        ErrorKind::CacheReadError { cache_type, message: _, sqlite_code } => {
            let mut known = match context {
                Some(known) => known,
                None => InstallErrorContext::new("read project metadata cache").build(),
            };
            let mut types: Vec<String> = Vec::new();
            types.push(cache_type.clone());
            known.cache_types = types;
            known.sqlite_code = sqlite_code.clone();
            Some(known)
        },
        _ => context,
    };
    assert(shows_context(error.raw, given, shown));
    InstallErrorView::from_error(install_error_code(phase, error), phase, error, shown)
}

/// A failed cache read is always reported as one that a cache repair can mend,
/// with exactly the cache that could not be read; no other error is.
pub proof fn law_only_cache_reads_ask_for_repair(
    view: InstallErrorView,
    phase: InstallPhaseId,
    error: Error,
    context: Option<InstallErrorContext>,
)
    requires
        is_error_view(view, phase, error, context),
    ensures
        error.raw is CacheReadError <==> view.code@ == "cache_repair_required"@,
        error.raw is CacheReadError ==> (view.context is Some && view.context->0.cache_types@
            == seq![error.raw->CacheReadError_cache_type]),
{
    reveal_strlit("cache_repair_required");
    reveal_strlit("unrecognized_format");
    reveal_strlit("instance_error");
    reveal_strlit("pack_error");
    reveal_strlit("content_error");
    reveal_strlit("path_error");
    reveal_strlit("java_error");
    reveal_strlit("rollback_error");
    reveal_strlit("launcher_error");
    reveal_strlit("processor_error");
    reveal_strlit("loader_error");
    reveal_strlit("metadata_error");
    reveal_strlit("network_error");
    reveal_strlit("api_error");
    reveal_strlit("hash_error");
    reveal_strlit("archive_error");
    reveal_strlit("filesystem_error");
    reveal_strlit("parse_error");
    reveal_strlit("database_error");
    reveal_strlit("internal_error");
    reveal_strlit("unknown_error");
    assert("cache_repair_required"@.len() == 21);
    assert("cache_repair_required"@[0] == 'c');
}

/// An error is named after what failed where its kind says so, whatever the job was
/// doing.
pub proof fn law_most_errors_name_themselves(phase: InstallPhaseId, kind: ErrorKind)
    ensures
        ({
            let code = error_code(phase, kind).text();
            &&& kind is CacheReadError ==> code == "cache_repair_required"@
            &&& kind is JREError ==> code == "java_error"@
            &&& kind is FetchError || kind is NetworkError || kind is HttpError || kind
                is ApiIsDownError ==> code == "network_error"@
            &&& kind is LabrinthError ==> code == "api_error"@
            &&& kind is HashError ==> code == "hash_error"@
            &&& kind is ZipError ==> code == "archive_error"@
            &&& kind is DeserializationError || kind is StripPrefixError ==> code == "path_error"@
            &&& kind is FSError || kind is IOError || kind is StdIOError || kind is UTFError ==> code
                == "filesystem_error"@
            &&& kind is INIError || kind is JSONError ==> code == "parse_error"@
            &&& kind is Sqlx || kind is SqlxMigrate ==> code == "database_error"@
            &&& kind is JoinError || kind is RecvError || kind is AcquireError || kind is EventError
                || kind is OtherError ==> code == "internal_error"@
            &&& kind is Unclassified ==> code == "unknown_error"@
        }),
{
}

/// Where the kind of an error says little, what the job was doing names it.
pub proof fn law_the_phase_names_other_errors(phase: InstallPhaseId, kind: ErrorKind)
    ensures
        ({
            let code = error_code(phase, kind).text();
            &&& kind is LauncherError ==> {
                &&& phase == InstallPhaseId::RunningLoaderProcessors ==> code == "processor_error"@
                &&& phase == InstallPhaseId::PreparingJava ==> code == "java_error"@
                &&& phase == InstallPhaseId::ResolvingLoader ==> code == "loader_error"@
                &&& phase != InstallPhaseId::RunningLoaderProcessors && phase
                    != InstallPhaseId::PreparingJava && phase != InstallPhaseId::ResolvingLoader
                    ==> code == "launcher_error"@
            }
            &&& kind is NoValueFor || kind is MetadataError ==> {
                &&& phase == InstallPhaseId::PreparingJava ==> code == "java_error"@
                &&& phase == InstallPhaseId::ResolvingLoader ==> code == "loader_error"@
                &&& phase != InstallPhaseId::PreparingJava && phase
                    != InstallPhaseId::ResolvingLoader ==> code == "metadata_error"@
            }
            &&& kind is Any ==> code == match phase {
                InstallPhaseId::DownloadingPackFile
                | InstallPhaseId::DownloadingContent
                | InstallPhaseId::ResolvingMinecraft
                | InstallPhaseId::ResolvingLoader
                | InstallPhaseId::PreparingJava
                | InstallPhaseId::DownloadingMinecraft => "network_error"@,
                _ => "internal_error"@,
            }
            &&& kind matches ErrorKind::InputError(message) ==> if phase
                == InstallPhaseId::ResolvingPack && "Unrecognized modpack format"@.is_prefix_of(
                message@,
            ) {
                code == "unrecognized_format"@
            } else {
                code == match phase {
                    InstallPhaseId::PreparingInstance
                    | InstallPhaseId::Finalizing
                    | InstallPhaseId::DownloadingMinecraft => "instance_error"@,
                    InstallPhaseId::ResolvingPack
                    | InstallPhaseId::DownloadingPackFile
                    | InstallPhaseId::ReadingPackManifest => "pack_error"@,
                    InstallPhaseId::DownloadingContent => "content_error"@,
                    InstallPhaseId::ExtractingOverrides => "path_error"@,
                    InstallPhaseId::PreparingJava => "java_error"@,
                    InstallPhaseId::RollingBack => "rollback_error"@,
                    InstallPhaseId::ResolvingMinecraft
                    | InstallPhaseId::ResolvingLoader
                    | InstallPhaseId::RunningLoaderProcessors => "launcher_error"@,
                }
            }
        }),
{
}

/// The user sees where the error came from, what it says and what the service said, with
/// what is known of where it came from. Of a cache that could not be read, the cache is
/// named besides.
pub proof fn law_errors_are_shown_whole(
    view: InstallErrorView,
    phase: InstallPhaseId,
    error: Error,
    context: Option<InstallErrorContext>,
)
    requires
        is_error_view(view, phase, error, context),
    ensures
        view.phase == Some(phase),
        view.message == error.text,
        view.api == error.api,
        !(error.raw is CacheReadError) ==> view.context == context,
        error.raw matches ErrorKind::CacheReadError { cache_type, message: _, sqlite_code } ==> {
            &&& view.context is Some
            &&& view.context->0.cache_types@.len() == 1
            &&& view.context->0.cache_types@[0] == cache_type
            &&& view.context->0.sqlite_code == sqlite_code
            &&& context matches Some(known) ==> {
                &&& view.context->0.operation == known.operation
                &&& view.context->0.project_id == known.project_id
                &&& view.context->0.version_id == known.version_id
                &&& view.context->0.source_path == known.source_path
            }
            &&& context is None ==> {
                &&& view.context->0.operation@ == "read project metadata cache"@
                &&& view.context->0.project_id is None
                &&& view.context->0.version_id is None
                &&& view.context->0.source_path is None
            }
        },
{
}

} // verus!

//! Errors: what went wrong in the launcher, and every refusal that the library
//! itself pronounces, with the text shown for it.
use vstd::prelude::*;
use vstd::string::*;

use crate::decimal::{numeral, print_u64};
use crate::install::loader_kind::{LoaderComponentKind, ModLoader};
use crate::text::{concat2, concat3};

verus! {

/// The kinds of error that reach the install logic. Where an error wraps one of
/// another component, the variant holds its text.
#[derive(Debug, PartialEq, Eq)]
pub enum ErrorKind {
    CacheReadError { cache_type: String, message: String, sqlite_code: Option<String> },
    InputError(String),
    LauncherError(String),
    JREError(String),
    NoValueFor(String),
    MetadataError(String),
    FetchError(String),
    NetworkError(String),
    HttpError { status: u16, url: String },
    ApiIsDownError(String),
    LabrinthError(String),
    HashError(String, String),
    ZipError(String),
    DeserializationError(String),
    StripPrefixError(String),
    FSError(String),
    IOError(String),
    StdIOError(String),
    UTFError(String),
    INIError(String),
    JSONError(String),
    Sqlx(String),
    SqlxMigrate(String),
    JoinError(String),
    RecvError(String),
    AcquireError(String),
    EventError(String),
    OtherError(String),
    Any(String),
    Unclassified(String),
}

/// An error as the install logic sees it: its kind, the text shown for it, and
/// what the API answered, where the API answered with an error.
#[derive(Debug, PartialEq, Eq)]
pub struct Error {
    pub raw: ErrorKind,
    pub text: String,
    pub api: Option<String>,
}

/// What the library refuses to do, or finds to be wrong.
#[derive(Debug, PartialEq, Eq)]
pub enum Refusal {
    RetryNeedsFailedJob,
    CacheRepairNeedsFailedJob,
    NoCacheRepairError,
    CacheRepairNotRequired,
    NoRepairableCacheTypes,
    CacheTypeNotRepairable(String),
    CacheCleanupFailed(String),
    CacheRetryFailed(String),
    ResumeNeedsWaitingJob,
    SkipNeedsWaitingJob,
    UpdateCannotSkip,
    NothingToSkip,
    NoLongerWaiting,
    NewRetryNeedsFinishedJob,
    NotCancelable,
    InvalidCurseForgeProject,
    InvalidCurseForgeFile,
    CurseForgeDownloadsFailed(u64),
    UnknownInstance,
    UnknownInstanceId(String),
    UnresolvedInstance(String),
    MissingInstanceId,
    DirectLinkDuplicate(String),
    NoPrimaryLoader,
    OptiFineUnsupported(LoaderComponentKind),
    OptiFabricWithoutOptiFine,
    OptiFabricUnsupported(LoaderComponentKind),
    LiteLoaderUnsupported(LoaderComponentKind),
    AdjunctNotAllowed,
    NoOptiFineVersion(String),
    NoLiteLoaderVersion(String),
    NoOptiFabricVersion(String),
    InvalidOptiFabricFile,
    OptiFabricFileUnsupported(u32, String),
    OptiFabricManualDownload,
    OptiFabricFailed(String),
    OptiFabricNotInstalled,
    PrimaryVersionNotPinned(ModLoader),
    UnrecognizedPack,
    BundleWithoutInnerPack,
    ArchiveWithoutVersion,
    NoMinecraftVersions,
    NoLoaderVersions(String),
    NoCleanroomInstaller,
    InstallerNotOpened(String),
    InstallerEntryMissing(String),
    InstallerNotRead(String),
    InstallerEntryNotRead(String),
    UnknownUpdateChannel(String),
    UnsupportedPlatform(String, String),
    InvalidEndpoint(String),
    AptUnsupported,
    AptFailed(String),
    UpdateSizeFailed(String),
    ContentRootUnavailable(String),
}

impl Refusal {
    /// The text shown for the refusal.
    pub open spec fn text(self) -> Seq<char> {
        match self {
            Refusal::RetryNeedsFailedJob => "Only failed or interrupted install jobs can be retried"@,
            Refusal::CacheRepairNeedsFailedJob =>
                "Only failed or interrupted install jobs can repair cache"@,
            Refusal::NoCacheRepairError => "Install job has no cache repair error"@,
            Refusal::CacheRepairNotRequired => "Install job does not require cache repair"@,
            Refusal::NoRepairableCacheTypes => "Install job has no repairable cache types"@,
            Refusal::CacheTypeNotRepairable(name) => "Cache type is not repairable: "@ + name@,
            Refusal::CacheCleanupFailed(error) =>
                "Project cache cleanup failed; retry was not started: "@ + error@,
            Refusal::CacheRetryFailed(error) =>
                "Project cache was cleared, but retry could not be started: "@ + error@,
            Refusal::ResumeNeedsWaitingJob =>
                "Only install jobs waiting for user action can be resumed"@,
            Refusal::SkipNeedsWaitingJob =>
                "Only install jobs waiting for user action can skip missing content"@,
            Refusal::UpdateCannotSkip =>
                "CurseForge modpack version updates cannot skip required manual downloads"@,
            Refusal::NothingToSkip => "Install job has no missing content to skip"@,
            Refusal::NoLongerWaiting => "Install job is no longer waiting for user action"@,
            Refusal::NewRetryNeedsFinishedJob =>
                "Only failed, interrupted, or canceled downloads can be retried"@,
            Refusal::NotCancelable =>
                "Only queued, running, or waiting install jobs can be canceled"@,
            Refusal::InvalidCurseForgeProject => "CurseForge project ID is invalid"@,
            Refusal::InvalidCurseForgeFile => "CurseForge file ID is invalid"@,
            Refusal::CurseForgeDownloadsFailed(n) => numeral(n as nat)
                + " CurseForge files could not be downloaded automatically"@,
            Refusal::UnknownInstance => "Unknown instance"@,
            Refusal::UnknownInstanceId(id) => "Unknown instance "@ + id@,
            Refusal::UnresolvedInstance(id) => "Tried to resolve a nonexistent instance "@ + id@
                + "!"@,
            Refusal::MissingInstanceId => "Install job is missing its instance id"@,
            Refusal::DirectLinkDuplicate(name) => "\""@ + name@
                + "\" is directly associated with an external launcher and cannot be duplicated; its files are managed by that launcher"@,
            Refusal::NoPrimaryLoader => "Loader selection has no primary loader"@,
            Refusal::OptiFineUnsupported(kind) => "OptiFine is not supported with "@
                + kind.label(),
            Refusal::OptiFabricWithoutOptiFine => "OptiFabric can only be installed with OptiFine"@,
            Refusal::OptiFabricUnsupported(kind) => "OptiFabric is not supported with "@
                + kind.label(),
            Refusal::LiteLoaderUnsupported(kind) => "LiteLoader is not supported with "@
                + kind.label(),
            Refusal::AdjunctNotAllowed =>
                "Only OptiFine, LiteLoader, and OptiFabric can be adjunct loaders"@,
            Refusal::NoOptiFineVersion(version) => "No OptiFine version supports Minecraft "@
                + version@,
            Refusal::NoLiteLoaderVersion(version) => "No LiteLoader version supports Minecraft "@
                + version@,
            Refusal::NoOptiFabricVersion(version) =>
                "OptiFine requires OptiFabric, but no OptiFabric version supports Minecraft "@
                + version@,
            Refusal::InvalidOptiFabricFile => "OptiFabric CurseForge file ID is invalid"@,
            Refusal::OptiFabricFileUnsupported(file, version) => "OptiFabric file "@ + numeral(
                file as nat,
            ) + " does not support Minecraft "@ + version@,
            Refusal::OptiFabricManualDownload => "OptiFabric requires a manual CurseForge download"@,
            Refusal::OptiFabricFailed(reason) => "Failed to install OptiFabric: "@ + reason@,
            Refusal::OptiFabricNotInstalled => "OptiFabric was not installed"@,
            Refusal::PrimaryVersionNotPinned(loader) => loader.component().label()
                + " adjunct installation requires a pinned primary version"@,
            Refusal::UnrecognizedPack =>
                "Unrecognized modpack format: no known pack manifest was found in the archive"@,
            Refusal::BundleWithoutInnerPack => "Launcher bundle is missing its inner modpack file"@,
            Refusal::ArchiveWithoutVersion =>
                "Could not locate the instance version in the archive"@,
            Refusal::NoMinecraftVersions => "minecraft versions"@,
            Refusal::NoLoaderVersions(loader) => loader@ + " loader versions"@,
            Refusal::NoCleanroomInstaller => "Cleanroom's latest release has no installer JAR"@,
            Refusal::InstallerNotOpened(error) => "Failed to open Cleanroom installer archive: "@
                + error@,
            Refusal::InstallerEntryMissing(name) => "Cleanroom installer is missing "@ + name@,
            Refusal::InstallerNotRead(error) => "Failed to read Cleanroom installer archive: "@
                + error@,
            Refusal::InstallerEntryNotRead(error) => error@,
            Refusal::UnknownUpdateChannel(channel) => "Unknown update channel: "@ + channel@,
            Refusal::UnsupportedPlatform(os, arch) => "Unsupported updater platform: "@ + os@ + "-"@
                + arch@,
            Refusal::InvalidEndpoint(error) => error@,
            Refusal::AptUnsupported =>
                "apt updates are only supported on Debian-based Linux systems with pkexec"@,
            Refusal::AptFailed(output) => "apt update failed: "@ + output@,
            Refusal::UpdateSizeFailed(status) => "Download request failed with status: "@
                + status@,
            Refusal::ContentRootUnavailable(error) => error@,
        }
    }

    /// The text shown for the refusal.
    pub fn message(&self) -> (r: String)
        ensures
            r@ == self.text(),
    {
        match self {
            Refusal::RetryNeedsFailedJob =>
                "Only failed or interrupted install jobs can be retried".to_owned(),
            Refusal::CacheRepairNeedsFailedJob =>
                "Only failed or interrupted install jobs can repair cache".to_owned(),
            Refusal::NoCacheRepairError => "Install job has no cache repair error".to_owned(),
            Refusal::CacheRepairNotRequired =>
                "Install job does not require cache repair".to_owned(),
            Refusal::NoRepairableCacheTypes =>
                "Install job has no repairable cache types".to_owned(),
            Refusal::CacheTypeNotRepairable(name) => concat2(
                "Cache type is not repairable: ",
                name.as_str(),
            ),
            Refusal::CacheCleanupFailed(error) => concat2(
                "Project cache cleanup failed; retry was not started: ",
                error.as_str(),
            ),
            Refusal::CacheRetryFailed(error) => concat2(
                "Project cache was cleared, but retry could not be started: ",
                error.as_str(),
            ),
            Refusal::ResumeNeedsWaitingJob =>
                "Only install jobs waiting for user action can be resumed".to_owned(),
            Refusal::SkipNeedsWaitingJob =>
                "Only install jobs waiting for user action can skip missing content".to_owned(),
            Refusal::UpdateCannotSkip =>
                "CurseForge modpack version updates cannot skip required manual downloads".to_owned(),
            Refusal::NothingToSkip => "Install job has no missing content to skip".to_owned(),
            Refusal::NoLongerWaiting =>
                "Install job is no longer waiting for user action".to_owned(),
            Refusal::NewRetryNeedsFinishedJob =>
                "Only failed, interrupted, or canceled downloads can be retried".to_owned(),
            Refusal::NotCancelable =>
                "Only queued, running, or waiting install jobs can be canceled".to_owned(),
            Refusal::InvalidCurseForgeProject => "CurseForge project ID is invalid".to_owned(),
            Refusal::InvalidCurseForgeFile => "CurseForge file ID is invalid".to_owned(),
            Refusal::CurseForgeDownloadsFailed(n) => print_u64(*n).concat(
                " CurseForge files could not be downloaded automatically",
            ),
            Refusal::UnknownInstance => "Unknown instance".to_owned(),
            Refusal::UnknownInstanceId(id) => concat2("Unknown instance ", id.as_str()),
            Refusal::UnresolvedInstance(id) => concat3(
                "Tried to resolve a nonexistent instance ",
                id.as_str(),
                "!",
            ),
            Refusal::MissingInstanceId => "Install job is missing its instance id".to_owned(),
            Refusal::DirectLinkDuplicate(name) => concat3(
                "\"",
                name.as_str(),
                "\" is directly associated with an external launcher and cannot be duplicated; its files are managed by that launcher",
            ),
            Refusal::NoPrimaryLoader => "Loader selection has no primary loader".to_owned(),
            Refusal::OptiFineUnsupported(kind) => concat2(
                "OptiFine is not supported with ",
                kind.as_str(),
            ),
            Refusal::OptiFabricWithoutOptiFine =>
                "OptiFabric can only be installed with OptiFine".to_owned(),
            Refusal::OptiFabricUnsupported(kind) => concat2(
                "OptiFabric is not supported with ",
                kind.as_str(),
            ),
            Refusal::LiteLoaderUnsupported(kind) => concat2(
                "LiteLoader is not supported with ",
                kind.as_str(),
            ),
            Refusal::AdjunctNotAllowed =>
                "Only OptiFine, LiteLoader, and OptiFabric can be adjunct loaders".to_owned(),
            Refusal::NoOptiFineVersion(version) => concat2(
                "No OptiFine version supports Minecraft ",
                version.as_str(),
            ),
            Refusal::NoLiteLoaderVersion(version) => concat2(
                "No LiteLoader version supports Minecraft ",
                version.as_str(),
            ),
            Refusal::NoOptiFabricVersion(version) => concat2(
                "OptiFine requires OptiFabric, but no OptiFabric version supports Minecraft ",
                version.as_str(),
            ),
            Refusal::InvalidOptiFabricFile => "OptiFabric CurseForge file ID is invalid".to_owned(),
            Refusal::OptiFabricFileUnsupported(file, version) => concat3(
                "OptiFabric file ",
                print_u64(*file as u64).as_str(),
                " does not support Minecraft ",
            ).concat(version.as_str()),
            Refusal::OptiFabricManualDownload =>
                "OptiFabric requires a manual CurseForge download".to_owned(),
            Refusal::OptiFabricFailed(reason) => concat2(
                "Failed to install OptiFabric: ",
                reason.as_str(),
            ),
            Refusal::OptiFabricNotInstalled => "OptiFabric was not installed".to_owned(),
            Refusal::PrimaryVersionNotPinned(loader) => concat2(
                loader.as_str(),
                " adjunct installation requires a pinned primary version",
            ),
            Refusal::UnrecognizedPack =>
                "Unrecognized modpack format: no known pack manifest was found in the archive".to_owned(),
            Refusal::BundleWithoutInnerPack =>
                "Launcher bundle is missing its inner modpack file".to_owned(),
            Refusal::ArchiveWithoutVersion =>
                "Could not locate the instance version in the archive".to_owned(),
            Refusal::NoMinecraftVersions => "minecraft versions".to_owned(),
            Refusal::NoLoaderVersions(loader) => concat2(loader.as_str(), " loader versions"),
            Refusal::NoCleanroomInstaller =>
                "Cleanroom's latest release has no installer JAR".to_owned(),
            Refusal::InstallerNotOpened(error) => concat2(
                "Failed to open Cleanroom installer archive: ",
                error.as_str(),
            ),
            Refusal::InstallerEntryMissing(name) => concat2(
                "Cleanroom installer is missing ",
                name.as_str(),
            ),
            Refusal::InstallerNotRead(error) => concat2(
                "Failed to read Cleanroom installer archive: ",
                error.as_str(),
            ),
            Refusal::InstallerEntryNotRead(error) => error.clone(),
            Refusal::UnknownUpdateChannel(channel) => concat2(
                "Unknown update channel: ",
                channel.as_str(),
            ),
            Refusal::UnsupportedPlatform(os, arch) => concat3(
                "Unsupported updater platform: ",
                os.as_str(),
                "-",
            ).concat(arch.as_str()),
            Refusal::InvalidEndpoint(error) => error.clone(),
            Refusal::AptUnsupported =>
                "apt updates are only supported on Debian-based Linux systems with pkexec".to_owned(),
            Refusal::AptFailed(output) => concat2("apt update failed: ", output.as_str()),
            Refusal::UpdateSizeFailed(status) => concat2(
                "Download request failed with status: ",
                status.as_str(),
            ),
            Refusal::ContentRootUnavailable(error) => error.clone(),
        }
    }

    /// The error of the launcher that the refusal is, with `text` as its text.
    pub open spec fn kind(self, text: String) -> ErrorKind {
        match self {
            Refusal::CurseForgeDownloadsFailed(_) | Refusal::UpdateSizeFailed(
                _,
            ) => ErrorKind::NetworkError(text),
            Refusal::CacheCleanupFailed(_)
            | Refusal::CacheRetryFailed(_)
            | Refusal::UnresolvedInstance(_)
            | Refusal::UnknownUpdateChannel(_)
            | Refusal::UnsupportedPlatform(_, _)
            | Refusal::InvalidEndpoint(_)
            | Refusal::AptUnsupported
            | Refusal::AptFailed(_) => ErrorKind::OtherError(text),
            Refusal::NoMinecraftVersions | Refusal::NoLoaderVersions(_) => ErrorKind::NoValueFor(
                text,
            ),
            Refusal::NoCleanroomInstaller
            | Refusal::InstallerNotOpened(_)
            | Refusal::InstallerEntryMissing(_)
            | Refusal::InstallerNotRead(_) => ErrorKind::LauncherError(text),
            Refusal::InstallerEntryNotRead(_) => ErrorKind::StdIOError(text),
            Refusal::ContentRootUnavailable(_) => ErrorKind::IOError(text),
            _ => ErrorKind::InputError(text),
        }
    }

    /// The error of the launcher that the refusal is.
    pub fn to_kind(&self) -> (r: ErrorKind)
        ensures
            exists|text: String| #[trigger] self.kind(text) == r && text@ == self.text(),
    {
        let text = self.message();
        let ghost shown = text;
        let r = match self {
            Refusal::CurseForgeDownloadsFailed(_) | Refusal::UpdateSizeFailed(_) =>
                ErrorKind::NetworkError(text),
            Refusal::CacheCleanupFailed(_)
            | Refusal::CacheRetryFailed(_)
            | Refusal::UnresolvedInstance(_)
            | Refusal::UnknownUpdateChannel(_)
            | Refusal::UnsupportedPlatform(_, _)
            | Refusal::InvalidEndpoint(_)
            | Refusal::AptUnsupported
            | Refusal::AptFailed(_) => ErrorKind::OtherError(text),
            Refusal::NoMinecraftVersions | Refusal::NoLoaderVersions(_) => ErrorKind::NoValueFor(
                text,
            ),
            Refusal::NoCleanroomInstaller
            | Refusal::InstallerNotOpened(_)
            | Refusal::InstallerEntryMissing(_)
            | Refusal::InstallerNotRead(_) => ErrorKind::LauncherError(text),
            Refusal::InstallerEntryNotRead(_) => ErrorKind::StdIOError(text),
            Refusal::ContentRootUnavailable(_) => ErrorKind::IOError(text),
            _ => ErrorKind::InputError(text),
        };
        assert(self.kind(shown) == r);
        r
    }
}

/// What the user reads when a job cannot be retried, repaired, resumed, skipped or
/// canceled.
pub proof fn law_how_job_commands_are_refused()
    ensures
        Refusal::RetryNeedsFailedJob.text()
            == "Only failed or interrupted install jobs can be retried"@,
        Refusal::CacheRepairNeedsFailedJob.text()
            == "Only failed or interrupted install jobs can repair cache"@,
        Refusal::NoCacheRepairError.text() == "Install job has no cache repair error"@,
        Refusal::CacheRepairNotRequired.text() == "Install job does not require cache repair"@,
        Refusal::NoRepairableCacheTypes.text() == "Install job has no repairable cache types"@,
        Refusal::ResumeNeedsWaitingJob.text()
            == "Only install jobs waiting for user action can be resumed"@,
        Refusal::SkipNeedsWaitingJob.text()
            == "Only install jobs waiting for user action can skip missing content"@,
        Refusal::UpdateCannotSkip.text()
            == "CurseForge modpack version updates cannot skip required manual downloads"@,
        Refusal::NothingToSkip.text() == "Install job has no missing content to skip"@,
        Refusal::NoLongerWaiting.text() == "Install job is no longer waiting for user action"@,
        Refusal::NewRetryNeedsFinishedJob.text()
            == "Only failed, interrupted, or canceled downloads can be retried"@,
        Refusal::NotCancelable.text()
            == "Only queued, running, or waiting install jobs can be canceled"@,
        Refusal::InvalidCurseForgeProject.text() == "CurseForge project ID is invalid"@,
        Refusal::InvalidCurseForgeFile.text() == "CurseForge file ID is invalid"@,
        Refusal::UnknownInstance.text() == "Unknown instance"@,
        Refusal::MissingInstanceId.text() == "Install job is missing its instance id"@,
{
}

/// What the user reads when loaders, modpacks or updates cannot be had.
pub proof fn law_how_loaders_and_packs_are_refused()
    ensures
        Refusal::NoPrimaryLoader.text() == "Loader selection has no primary loader"@,
        Refusal::OptiFabricWithoutOptiFine.text()
            == "OptiFabric can only be installed with OptiFine"@,
        Refusal::AdjunctNotAllowed.text()
            == "Only OptiFine, LiteLoader, and OptiFabric can be adjunct loaders"@,
        Refusal::InvalidOptiFabricFile.text() == "OptiFabric CurseForge file ID is invalid"@,
        Refusal::OptiFabricManualDownload.text()
            == "OptiFabric requires a manual CurseForge download"@,
        Refusal::OptiFabricNotInstalled.text() == "OptiFabric was not installed"@,
        Refusal::UnrecognizedPack.text()
            == "Unrecognized modpack format: no known pack manifest was found in the archive"@,
        Refusal::BundleWithoutInnerPack.text()
            == "Launcher bundle is missing its inner modpack file"@,
        Refusal::ArchiveWithoutVersion.text()
            == "Could not locate the instance version in the archive"@,
        Refusal::NoMinecraftVersions.text() == "minecraft versions"@,
        Refusal::NoCleanroomInstaller.text() == "Cleanroom's latest release has no installer JAR"@,
        Refusal::AptUnsupported.text()
            == "apt updates are only supported on Debian-based Linux systems with pkexec"@,
{
}

/// A refusal that is about something says what it is about, in front of it or behind
/// it: the instance, the version, the loader, the file or the error that was met.
pub proof fn law_refusals_say_what_they_are_about(
    name: String,
    other: String,
    kind: LoaderComponentKind,
    loader: ModLoader,
    n: u64,
    file: u32,
)
    ensures
        Refusal::CacheTypeNotRepairable(name).text() == "Cache type is not repairable: "@ + name@,
        Refusal::CacheCleanupFailed(name).text()
            == "Project cache cleanup failed; retry was not started: "@ + name@,
        Refusal::CacheRetryFailed(name).text()
            == "Project cache was cleared, but retry could not be started: "@ + name@,
        Refusal::CurseForgeDownloadsFailed(n).text() == numeral(n as nat)
            + " CurseForge files could not be downloaded automatically"@,
        Refusal::UnknownInstanceId(name).text() == "Unknown instance "@ + name@,
        Refusal::UnresolvedInstance(name).text() == "Tried to resolve a nonexistent instance "@
            + name@ + "!"@,
        Refusal::DirectLinkDuplicate(name).text() == "\""@ + name@
            + "\" is directly associated with an external launcher and cannot be duplicated; its files are managed by that launcher"@,
        Refusal::OptiFineUnsupported(kind).text() == "OptiFine is not supported with "@
            + kind.label(),
        Refusal::OptiFabricUnsupported(kind).text() == "OptiFabric is not supported with "@
            + kind.label(),
        Refusal::LiteLoaderUnsupported(kind).text() == "LiteLoader is not supported with "@
            + kind.label(),
        Refusal::NoOptiFineVersion(name).text() == "No OptiFine version supports Minecraft "@
            + name@,
        Refusal::NoLiteLoaderVersion(name).text() == "No LiteLoader version supports Minecraft "@
            + name@,
        Refusal::NoOptiFabricVersion(name).text()
            == "OptiFine requires OptiFabric, but no OptiFabric version supports Minecraft "@
            + name@,
        Refusal::OptiFabricFileUnsupported(file, name).text() == "OptiFabric file "@ + numeral(
            file as nat,
        ) + " does not support Minecraft "@ + name@,
        Refusal::OptiFabricFailed(name).text() == "Failed to install OptiFabric: "@ + name@,
        Refusal::PrimaryVersionNotPinned(loader).text() == loader.component().label()
            + " adjunct installation requires a pinned primary version"@,
        Refusal::NoLoaderVersions(name).text() == name@ + " loader versions"@,
        Refusal::InstallerNotOpened(name).text()
            == "Failed to open Cleanroom installer archive: "@ + name@,
        Refusal::InstallerEntryMissing(name).text() == "Cleanroom installer is missing "@ + name@,
        Refusal::InstallerNotRead(name).text() == "Failed to read Cleanroom installer archive: "@
            + name@,
        Refusal::InstallerEntryNotRead(name).text() == name@,
        Refusal::UnknownUpdateChannel(name).text() == "Unknown update channel: "@ + name@,
        Refusal::UnsupportedPlatform(name, other).text() == "Unsupported updater platform: "@
            + name@ + "-"@ + other@,
        Refusal::InvalidEndpoint(name).text() == name@,
        Refusal::AptFailed(name).text() == "apt update failed: "@ + name@,
        Refusal::UpdateSizeFailed(name).text() == "Download request failed with status: "@ + name@,
        Refusal::ContentRootUnavailable(name).text() == name@,
{
}

/// A refusal counts as wrong input, except where a download, an update, the metadata, an
/// installer or the disk is to blame.
pub proof fn law_what_refusals_count_as(refusal: Refusal, text: String)
    ensures
        ({
            let kind = refusal.kind(text);
            &&& kind == ErrorKind::NetworkError(text) <==> refusal is CurseForgeDownloadsFailed
                || refusal is UpdateSizeFailed
            &&& kind == ErrorKind::NoValueFor(text) <==> refusal is NoMinecraftVersions || refusal
                is NoLoaderVersions
            &&& kind == ErrorKind::LauncherError(text) <==> refusal is NoCleanroomInstaller
                || refusal is InstallerNotOpened || refusal is InstallerEntryMissing || refusal
                is InstallerNotRead
            &&& kind == ErrorKind::StdIOError(text) <==> refusal is InstallerEntryNotRead
            &&& kind == ErrorKind::IOError(text) <==> refusal is ContentRootUnavailable
            &&& kind == ErrorKind::OtherError(text) <==> refusal is CacheCleanupFailed || refusal
                is CacheRetryFailed || refusal is UnresolvedInstance || refusal
                is UnknownUpdateChannel || refusal is UnsupportedPlatform || refusal
                is InvalidEndpoint || refusal is AptUnsupported || refusal is AptFailed
            &&& kind == ErrorKind::InputError(text) || kind == ErrorKind::NetworkError(text) || kind
                == ErrorKind::NoValueFor(text) || kind == ErrorKind::LauncherError(text) || kind
                == ErrorKind::StdIOError(text) || kind == ErrorKind::IOError(text) || kind
                == ErrorKind::OtherError(text)
        }),
{
}

} // verus!

//! The requests that jobs are started for.
use vstd::prelude::*;

use crate::error::Refusal;

use super::commands::check_duplicable;
use super::loader_kind::ModLoader;
use super::model::{
    CreatePackLocation, CurseForgeInstallRequest, CurseForgeWorldInstallRequest,
    InstallPostInstallEdit, InstallRequest, Instance, InstanceLink, LoaderComponent,
};

verus! {

/// The request for a new instance with a loader alone.
pub fn create_instance(
    name: String,
    game_version: String,
    loader: ModLoader,
    loader_version: Option<String>,
    icon_path: Option<String>,
    link: InstanceLink,
) -> (r: InstallRequest)
    ensures
        ({
            &&& r matches InstallRequest::CreateInstance {
                name: n,
                game_version: g,
                loader: l,
                loader_version: v,
                adjuncts,
                icon_path: i,
                link: k,
            }
            &&& n == name && g == game_version && l == loader && v == loader_version && i
                == icon_path && k == link
            &&& adjuncts@.len() == 0
        }),
{
    create_instance_with_adjuncts(
        name,
        game_version,
        loader,
        loader_version,
        Vec::new(),
        icon_path,
        link,
    )
}

/// The request for a new instance.
pub fn create_instance_with_adjuncts(
    name: String,
    game_version: String,
    loader: ModLoader,
    loader_version: Option<String>,
    adjuncts: Vec<LoaderComponent>,
    icon_path: Option<String>,
    link: InstanceLink,
) -> (r: InstallRequest)
    ensures
        r == (InstallRequest::CreateInstance {
            name,
            game_version,
            loader,
            loader_version,
            adjuncts,
            icon_path,
            link,
        }),
{
    InstallRequest::CreateInstance {
        name,
        game_version,
        loader,
        loader_version,
        adjuncts,
        icon_path,
        link,
    }
}

/// The request for a new instance from a modpack.
pub fn create_modpack_instance(
    location: CreatePackLocation,
    post_install_edit: Option<InstallPostInstallEdit>,
) -> (r: InstallRequest)
    ensures
        r == (InstallRequest::CreateModpackInstance { location, post_install_edit }),
{
    InstallRequest::CreateModpackInstance { location, post_install_edit }
}

/// The request for the import of an instance of another launcher.
pub fn import_instance(
    launcher_type: String,
    base_path: String,
    instance_folder: String,
    symlink: bool,
) -> (r: InstallRequest)
    ensures
        r == (InstallRequest::ImportInstance {
            launcher_type,
            base_path,
            instance_folder,
            instance_path: None,
            symlink,
            game_version: None,
            loader: None,
            loader_version: None,
        }),
{
    import_instance_with_path(launcher_type, base_path, instance_folder, None, symlink)
}

/// The request for the import of an instance whose path is known.
pub fn import_instance_with_path(
    launcher_type: String,
    base_path: String,
    instance_folder: String,
    instance_path: Option<String>,
    symlink: bool,
) -> (r: InstallRequest)
    ensures
        r == (InstallRequest::ImportInstance {
            launcher_type,
            base_path,
            instance_folder,
            instance_path,
            symlink,
            game_version: None,
            loader: None,
            loader_version: None,
        }),
{
    import_instance_with_plan(
        launcher_type,
        base_path,
        instance_folder,
        instance_path,
        symlink,
        None,
        None,
        None,
    )
}

/// The request for the import of an instance whose versions are known.
pub fn import_instance_with_plan(
    launcher_type: String,
    base_path: String,
    instance_folder: String,
    instance_path: Option<String>,
    symlink: bool,
    game_version: Option<String>,
    loader: Option<ModLoader>,
    loader_version: Option<String>,
) -> (r: InstallRequest)
    ensures
        r == (InstallRequest::ImportInstance {
            launcher_type,
            base_path,
            instance_folder,
            instance_path,
            symlink,
            game_version,
            loader,
            loader_version,
        }),
{
    InstallRequest::ImportInstance {
        launcher_type,
        base_path,
        instance_folder,
        instance_path,
        symlink,
        game_version,
        loader,
        loader_version,
    }
}

/// The request for the copy of an instance. `source` is that instance, if there
/// is one: what is directly associated with an external launcher is not copied.
pub fn duplicate_instance(source_instance_id: String, source: Option<&Instance>) -> (r: Result<
    InstallRequest,
    Refusal,
>)
    ensures
        r == match source {
            Some(instance) if instance.direct_linked => Err::<InstallRequest, Refusal>(
                Refusal::DirectLinkDuplicate(instance.name),
            ),
            _ => Ok::<InstallRequest, Refusal>(
                InstallRequest::DuplicateInstance { source_instance_id },
            ),
        },
{
    match check_duplicable(source) {
        Ok(_) => Ok(InstallRequest::DuplicateInstance { source_instance_id }),
        Err(refusal) => Err(refusal),
    }
}

/// The request to install what an instance needs.
pub fn install_existing_instance(instance_id: String, force: bool) -> (r: InstallRequest)
    ensures
        r == (InstallRequest::InstallExistingInstance { instance_id, force }),
{
    InstallRequest::InstallExistingInstance { instance_id, force }
}

/// The request to install content.
pub fn install_content(
    instance_id: String,
    project_id: String,
    version_id: Option<String>,
    content_type: String,
    selected: String,
    excluded_project_ids: Vec<String>,
    display_title: String,
    display_icon: Option<String>,
) -> (r: InstallRequest)
    ensures
        r == (InstallRequest::InstallContent {
            instance_id,
            project_id,
            version_id,
            content_type,
            selected,
            excluded_project_ids,
            display_title,
            display_icon,
        }),
{
    InstallRequest::InstallContent {
        instance_id,
        project_id,
        version_id,
        content_type,
        selected,
        excluded_project_ids,
        display_title,
        display_icon,
    }
}

/// The request to install content of CurseForge.
pub fn install_curseforge_content(
    request: CurseForgeInstallRequest,
    display_title: String,
    display_icon: Option<String>,
) -> (r: InstallRequest)
    ensures
        r == (InstallRequest::InstallCurseForgeContent { request, display_title, display_icon }),
{
    InstallRequest::InstallCurseForgeContent { request, display_title, display_icon }
}

/// The request to install a world of CurseForge.
pub fn install_curseforge_world(
    request: CurseForgeWorldInstallRequest,
    display_title: String,
    display_icon: Option<String>,
) -> (r: InstallRequest)
    ensures
        r == (InstallRequest::InstallCurseForgeWorld { request, display_title, display_icon }),
{
    InstallRequest::InstallCurseForgeWorld { request, display_title, display_icon }
}

/// The request to download a Java runtime.
pub fn download_java(vendor: String, version: u32) -> (r: InstallRequest)
    ensures
        r == (InstallRequest::DownloadJava { vendor, version }),
{
    InstallRequest::DownloadJava { vendor, version }
}

/// The request to install a modpack into an instance.
pub fn install_pack_to_existing_instance(
    instance_id: String,
    location: CreatePackLocation,
    post_install_edit: Option<InstallPostInstallEdit>,
) -> (r: InstallRequest)
    ensures
        r == (InstallRequest::InstallPackToExistingInstance {
            instance_id,
            location,
            post_install_edit,
        }),
{
    InstallRequest::InstallPackToExistingInstance { instance_id, location, post_install_edit }
}

/// The request to bring a modpack of CurseForge to another version.
pub fn update_managed_curseforge_modpack(instance_id: String, file_id: u32) -> (r: InstallRequest)
    ensures
        r == (InstallRequest::UpdateManagedCurseForgeModpack { instance_id, file_id }),
{
    InstallRequest::UpdateManagedCurseForgeModpack { instance_id, file_id }
}

} // verus!

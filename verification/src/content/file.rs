//! The recorded files of an instance, and the kinds of content.
use vstd::prelude::*;

use crate::paths::{extension, opt_view, path_extension};
use crate::text::{
    ascii_lower, concat3, first_segment, law_first_segment_of_path, segment_before, str_eq,
    to_ascii_lower,
};

verus! {

/// A recorded file of an instance. Times are milliseconds since the epoch.
#[derive(Debug, PartialEq, Eq)]
pub struct InstanceFile {
    pub id: String,
    pub instance_id: String,
    pub relative_path: String,
    pub file_name: String,
    pub enabled: bool,
    pub sha1: String,
    pub size: u64,
    pub missing: bool,
    pub added_at: i64,
    pub modified_at: i64,
    /// What was read from the file itself, as a JSON text.
    pub local_mod_data: Option<String>,
    /// The cached icon: absent if none was looked for, empty if there is none.
    pub icon_path: Option<String>,
}

impl Clone for InstanceFile {
    fn clone(&self) -> (r: Self)
        ensures
            r == *self,
    {
        InstanceFile {
            id: self.id.clone(),
            instance_id: self.instance_id.clone(),
            relative_path: self.relative_path.clone(),
            file_name: self.file_name.clone(),
            enabled: self.enabled,
            sha1: self.sha1.clone(),
            size: self.size,
            missing: self.missing,
            added_at: self.added_at,
            modified_at: self.modified_at,
            local_mod_data: self.local_mod_data.clone(),
            icon_path: self.icon_path.clone(),
        }
    }
}

/// The kinds of content, each with a folder of its own.
#[derive(Clone, Copy, Debug, PartialEq, Eq, Structural)]
pub enum ProjectType {
    Mod,
    DataPack,
    ResourcePack,
    ShaderPack,
    World,
}

impl ProjectType {
    /// The folder that holds content of this kind.
    pub open spec fn folder(self) -> Seq<char> {
        match self {
            ProjectType::Mod => "mods"@,
            ProjectType::DataPack => "datapacks"@,
            ProjectType::ResourcePack => "resourcepacks"@,
            ProjectType::ShaderPack => "shaderpacks"@,
            ProjectType::World => "saves"@,
        }
    }

    /// The folder that holds content of this kind.
    pub fn get_folder(self) -> (r: &'static str)
        ensures
            r@ == self.folder(),
    {
        match self {
            ProjectType::Mod => "mods",
            ProjectType::DataPack => "datapacks",
            ProjectType::ResourcePack => "resourcepacks",
            ProjectType::ShaderPack => "shaderpacks",
            ProjectType::World => "saves",
        }
    }
}

/// The kind of content that lies in a file, by its topmost folder.
pub open spec fn type_of_path(relative_path: Seq<char>) -> Option<ProjectType> {
    let top = first_segment(relative_path, '/');
    if top == ProjectType::Mod.folder() {
        Some(ProjectType::Mod)
    } else if top == ProjectType::DataPack.folder() {
        Some(ProjectType::DataPack)
    } else if top == ProjectType::ResourcePack.folder() {
        Some(ProjectType::ResourcePack)
    } else if top == ProjectType::ShaderPack.folder() {
        Some(ProjectType::ShaderPack)
    } else if top == ProjectType::World.folder() {
        Some(ProjectType::World)
    } else {
        None
    }
}

/// The kind of content that lies in a file, by its topmost folder.
pub fn project_type_from_relative_path(relative_path: &str) -> (r: Option<ProjectType>)
    ensures
        r == type_of_path(relative_path@),
{
    let top = segment_before(relative_path, '/');
    if str_eq(top.as_str(), "mods") {
        Some(ProjectType::Mod)
    } else if str_eq(top.as_str(), "datapacks") {
        Some(ProjectType::DataPack)
    } else if str_eq(top.as_str(), "resourcepacks") {
        Some(ProjectType::ResourcePack)
    } else if str_eq(top.as_str(), "shaderpacks") {
        Some(ProjectType::ShaderPack)
    } else if str_eq(top.as_str(), "saves") {
        Some(ProjectType::World)
    } else {
        None
    }
}

/// The kind of content that lies in a recorded file.
pub fn project_type_for_file(file: &InstanceFile) -> (r: Option<ProjectType>)
    ensures
        r == type_of_path(file.relative_path@),
{
    project_type_from_relative_path(file.relative_path.as_str())
}

/// Whether a file on disk is no longer the one that was recorded.
pub open spec fn identity_changed(existing: InstanceFile, sha1: Seq<char>, size: u64) -> bool {
    existing.sha1@ != sha1 || existing.size != size
}

/// Whether a file on disk, with this hash and size, is no longer the one that
/// was recorded.
pub fn physical_file_identity_changed(
    existing: &InstanceFile,
    scanned_sha1: &str,
    scanned_size: u64,
) -> (r: bool)
    ensures
        r == identity_changed(*existing, scanned_sha1@, scanned_size),
{
    !str_eq(existing.sha1.as_str(), scanned_sha1) || existing.size != scanned_size
}

/// Whether icons are kept under this ending.
pub open spec fn is_icon_ending(ending: Seq<char>) -> bool {
    ||| ascii_lower(ending) == "png"@
    ||| ascii_lower(ending) == "jpg"@
    ||| ascii_lower(ending) == "jpeg"@
}

/// The ending under which an icon is cached: its own if it is that of an image,
/// or else `png`.
pub open spec fn icon_ending(entry_name: Seq<char>, windows: bool) -> Seq<char> {
    match extension(entry_name, windows) {
        Some(ending) => if is_icon_ending(ending) {
            ending
        } else {
            "png"@
        },
        None => "png"@,
    }
}

/// The ending under which an icon is cached.
pub fn icon_extension(entry_name: &str, windows: bool) -> (r: String)
    ensures
        r@ == icon_ending(entry_name@, windows),
{
    let found = path_extension(entry_name, windows);
    assert(opt_view(found) == extension(entry_name@, windows));
    match found {
        Some(ending) => {
            let lower = to_ascii_lower(ending.as_str());
            if str_eq(lower.as_str(), "png") || str_eq(lower.as_str(), "jpg") || str_eq(
                lower.as_str(),
                "jpeg",
            ) {
                ending
            } else {
                "png".to_owned()
            }
        },
        None => "png".to_owned(),
    }
}

/// The name under which the icon of a file with this hash is cached.
pub fn icon_cache_name(sha1: &str, entry_name: &str, windows: bool) -> (r: String)
    ensures
        r@ == sha1@ + "."@ + icon_ending(entry_name@, windows),
{
    let ending = icon_extension(entry_name, windows);
    concat3(sha1, ".", ending.as_str())
}

/// What is recorded of an icon. `stored` is absent if the file has no icon, or
/// else says whether it was written to `path`, and how `path` is written out in
/// full if that could be found out.
pub fn cached_icon(path: String, stored: Option<bool>, full_path: Option<String>) -> (r: String)
    ensures
        match (stored, full_path) {
            (Some(true), Some(full)) => r == full,
            (Some(true), None) => r == path,
            _ => r@.len() == 0,
        },
{
    match stored {
        Some(true) => match full_path {
            Some(full) => full,
            None => path,
        },
        _ => String::new(),
    }
}

/// What is read from a file to complete what is recorded of it.
#[derive(Clone, Copy, Debug, PartialEq, Eq, Structural)]
pub enum Extraction {
    Nothing,
    /// The icon of a resource pack.
    PackIcon,
    /// What a mod tells of itself, its icon, or both.
    Mod { metadata: bool, icon: bool },
}

/// What is read from `file`. `dependencies_known` says whether what was read
/// from it before tells what it depends on.
pub fn extraction_for(file: &InstanceFile, dependencies_known: bool) -> (r: Extraction)
    ensures
        r == match type_of_path(file.relative_path@) {
            Some(ProjectType::Mod) => if dependencies_known && file.icon_path is Some {
                Extraction::Nothing
            } else {
                Extraction::Mod { metadata: !dependencies_known, icon: file.icon_path is None }
            },
            Some(ProjectType::ResourcePack) => if file.icon_path is None {
                Extraction::PackIcon
            } else {
                Extraction::Nothing
            },
            _ => Extraction::Nothing,
        },
{
    let icon = file.icon_path.is_none();
    match project_type_for_file(file) {
        Some(ProjectType::Mod) => if dependencies_known && !icon {
            Extraction::Nothing
        } else {
            Extraction::Mod { metadata: !dependencies_known, icon }
        },
        Some(ProjectType::ResourcePack) => if icon {
            Extraction::PackIcon
        } else {
            Extraction::Nothing
        },
        _ => Extraction::Nothing,
    }
}

/// Records what was read from a file.
pub fn apply_extraction(file: &mut InstanceFile, metadata: Option<String>, icon: Option<String>)
    ensures
        *final(file) == (InstanceFile {
            local_mod_data: match metadata {
                Some(text) => Some(text),
                None => old(file).local_mod_data,
            },
            icon_path: match icon {
                Some(path) => Some(path),
                None => old(file).icon_path,
            },
            ..*old(file)
        }),
{
    if metadata.is_some() {
        file.local_mod_data = metadata;
    }
    if icon.is_some() {
        file.icon_path = icon;
    }
}

/// Content lies in the folder of its type: `mods`, `datapacks`, `resourcepacks`,
/// `shaderpacks` and `saves`.
pub proof fn law_content_lies_in_the_folder_of_its_type(name: Seq<char>)
    ensures
        type_of_path("mods/"@ + name) == Some(ProjectType::Mod),
        type_of_path("datapacks/"@ + name) == Some(ProjectType::DataPack),
        type_of_path("resourcepacks/"@ + name) == Some(ProjectType::ResourcePack),
        type_of_path("shaderpacks/"@ + name) == Some(ProjectType::ShaderPack),
        type_of_path("saves/"@ + name) == Some(ProjectType::World),
{
    reveal_strlit("mods");
    reveal_strlit("mods/");
    reveal_strlit("datapacks");
    reveal_strlit("datapacks/");
    reveal_strlit("resourcepacks");
    reveal_strlit("resourcepacks/");
    reveal_strlit("shaderpacks");
    reveal_strlit("shaderpacks/");
    reveal_strlit("saves");
    reveal_strlit("saves/");
    assert("mods/"@ =~= "mods"@.push('/'));
    assert("datapacks/"@ =~= "datapacks"@.push('/'));
    assert("resourcepacks/"@ =~= "resourcepacks"@.push('/'));
    assert("shaderpacks/"@ =~= "shaderpacks"@.push('/'));
    assert("saves/"@ =~= "saves"@.push('/'));
    assert("mods"@[0] == 'm' && "datapacks"@[0] == 'd' && "resourcepacks"@[0] == 'r'
        && "shaderpacks"@[1] == 'h' && "saves"@[1] == 'a' && "shaderpacks"@[0] == 's'
        && "saves"@[0] == 's');
    law_first_segment_of_path("mods"@, '/', name);
    law_first_segment_of_path("datapacks"@, '/', name);
    law_first_segment_of_path("resourcepacks"@, '/', name);
    law_first_segment_of_path("shaderpacks"@, '/', name);
    law_first_segment_of_path("saves"@, '/', name);
}

/// A path has a type only if it lies in the folder of that type, and the folder
/// itself counts; a path in any other place has none.
pub proof fn law_types_are_told_by_the_first_folder(path: Seq<char>)
    ensures
        ({
            let folder = first_segment(path, '/');
            &&& type_of_path(path) == Some(ProjectType::Mod) <==> folder == "mods"@
            &&& type_of_path(path) == Some(ProjectType::DataPack) <==> folder == "datapacks"@
            &&& type_of_path(path) == Some(ProjectType::ResourcePack) <==> folder
                == "resourcepacks"@
            &&& type_of_path(path) == Some(ProjectType::ShaderPack) <==> folder == "shaderpacks"@
            &&& type_of_path(path) == Some(ProjectType::World) <==> folder == "saves"@
            &&& type_of_path(path) is Some ==> folder == (type_of_path(path)->0).folder()
        }),
{
    reveal_strlit("mods");
    reveal_strlit("datapacks");
    reveal_strlit("resourcepacks");
    reveal_strlit("shaderpacks");
    reveal_strlit("saves");
    assert("mods"@[0] == 'm' && "datapacks"@[0] == 'd' && "resourcepacks"@[0] == 'r'
        && "shaderpacks"@[1] == 'h' && "saves"@[1] == 'a' && "shaderpacks"@[0] == 's'
        && "saves"@[0] == 's');
}

/// A file is the recorded one only if both its hash and its size are those on
/// record.
pub proof fn law_a_file_is_told_by_hash_and_size(existing: InstanceFile, sha1: Seq<char>, size: u64)
    ensures
        !identity_changed(existing, existing.sha1@, existing.size),
        sha1 != existing.sha1@ ==> identity_changed(existing, sha1, size),
        size != existing.size ==> identity_changed(existing, sha1, size),
{
}

/// An icon is cached under an ending of images: its own if that is one, written as
/// it is, and `png` otherwise.
pub proof fn law_icons_are_cached_as_images(entry_name: Seq<char>, windows: bool)
    ensures
        ({
            let ending = icon_ending(entry_name, windows);
            let own = extension(entry_name, windows);
            &&& ascii_lower(ending) == "png"@ || ascii_lower(ending) == "jpg"@ || ascii_lower(
                ending,
            ) == "jpeg"@
            &&& own is Some && (ascii_lower(own->0) == "png"@ || ascii_lower(own->0) == "jpg"@
                || ascii_lower(own->0) == "jpeg"@) ==> ending == own->0
            &&& own is None ==> ending == "png"@
            &&& own is Some && ending != own->0 ==> ending == "png"@
        }),
{
    reveal_strlit("png");
    assert(ascii_lower("png"@) =~= "png"@);
}

} // verus!

//! The versions of the game and of its loaders.
use vstd::prelude::*;

use crate::error::Refusal;
use crate::text::str_eq;

verus! {

/// A version of a loader.
#[derive(Clone, Debug, PartialEq, Eq)]
pub struct LoaderVersion {
    pub id: String,
    pub url: String,
    pub stable: bool,
}

/// A version of the game, with the versions of a loader for it.
#[derive(Clone, Debug, PartialEq, Eq)]
pub struct GameVersion {
    pub id: String,
    pub stable: bool,
    pub version_group: Option<String>,
    pub loaders: Vec<LoaderVersion>,
}

/// The versions of a loader.
#[derive(Clone, Debug, PartialEq, Eq)]
pub struct Manifest {
    pub game_versions: Vec<GameVersion>,
    pub version_groups: Vec<String>,
}

/// Whether `manifest` is that of Cleanroom: its latest version, for one version of
/// the game.
pub open spec fn is_cleanroom_manifest(manifest: Manifest) -> bool {
    &&& manifest.version_groups@.len() == 0
    &&& manifest.game_versions@.len() == 1
    &&& manifest.game_versions@[0].id@ == "1.12.2"@
    &&& manifest.game_versions@[0].stable
    &&& manifest.game_versions@[0].version_group is None
    &&& manifest.game_versions@[0].loaders@.len() == 1
    &&& manifest.game_versions@[0].loaders@[0].id@ == "latest"@
    &&& manifest.game_versions@[0].loaders@[0].url@.len() == 0
    &&& manifest.game_versions@[0].loaders@[0].stable
}

/// The versions of a loader that are known without asking anyone: those of
/// Cleanroom.
pub fn known_loader_versions(loader: &str) -> (r: Option<Manifest>)
    ensures
        match r {
            Some(manifest) => loader@ == "cleanroom"@ && is_cleanroom_manifest(manifest),
            None => loader@ != "cleanroom"@,
        },
{
    if !str_eq(loader, "cleanroom") {
        return None;
    }
    let mut loaders: Vec<LoaderVersion> = Vec::new();
    loaders.push(LoaderVersion { id: "latest".to_owned(), url: String::new(), stable: true });
    let mut game_versions: Vec<GameVersion> = Vec::new();
    game_versions.push(
        GameVersion { id: "1.12.2".to_owned(), stable: true, version_group: None, loaders },
    );
    Some(Manifest { game_versions, version_groups: Vec::new() })
}

/// The versions of a loader. `cached` are those that the cache has, or has
/// fetched; for Cleanroom they are not asked for.
pub fn get_loader_versions_with_cache(loader: &String, cached: Option<Manifest>) -> (r: Result<
    Manifest,
    Refusal,
>)
    ensures
        if loader@ == "cleanroom"@ {
            r matches Ok(manifest) && is_cleanroom_manifest(manifest)
        } else {
            r == match cached {
                Some(manifest) => Ok::<Manifest, Refusal>(manifest),
                None => Err(Refusal::NoLoaderVersions(*loader)),
            }
        },
{
    if let Some(manifest) = known_loader_versions(loader.as_str()) {
        return Ok(manifest);
    }
    match cached {
        Some(manifest) => Ok(manifest),
        None => Err(Refusal::NoLoaderVersions(loader.clone())),
    }
}

/// The versions of the game. `cached` are those that the cache has, or has
/// fetched.
pub fn get_minecraft_versions_with_cache<M>(cached: Option<M>) -> (r: Result<M, Refusal>)
    ensures
        r == match cached {
            Some(versions) => Ok::<M, Refusal>(versions),
            None => Err(Refusal::NoMinecraftVersions),
        },
{
    match cached {
        Some(versions) => Ok(versions),
        None => Err(Refusal::NoMinecraftVersions),
    }
}

/// Cleanroom is there for one version of the game, as its latest release.
pub proof fn law_what_cleanroom_is_there_for(manifest: Manifest)
    requires
        is_cleanroom_manifest(manifest),
    ensures
        manifest.game_versions@.len() == 1,
        manifest.game_versions@[0].id@ == "1.12.2"@,
        manifest.game_versions@[0].stable,
        manifest.game_versions@[0].version_group is None,
        manifest.game_versions@[0].loaders@.len() == 1,
        manifest.game_versions@[0].loaders@[0].id@ == "latest"@,
        manifest.game_versions@[0].loaders@[0].url@ == ""@,
        manifest.game_versions@[0].loaders@[0].stable,
        manifest.version_groups@.len() == 0,
{
    reveal_strlit("");
    assert(manifest.game_versions@[0].loaders@[0].url@ =~= ""@);
}

} // verus!

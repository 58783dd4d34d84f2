//! Which loaders go together, and how the components beside a loader are
//! resolved and installed.
use vstd::prelude::*;

use crate::decimal::{numeral, parse_u32, parsed, print_u64};
use crate::error::Refusal;
use crate::text::{concat3, contains_text, views};

use super::loader_kind::{LoaderComponentKind, LoaderComponentRole, ModLoader};
use super::model::{
    ContentOwnershipKind, CurseForgeFile, CurseForgeInstallRequest, CurseForgeInstallResult,
    CurseForgeInstalledFile, LoaderComponent, ManualDownloadOperationKind,
};

verus! {

/// The project of OptiFabric at CurseForge.
pub const OPTIFABRIC_CURSEFORGE_PROJECT_ID: u32 = 322_385;

/// What decides whether a selection is allowed: the role and the kind of each
/// of its components.
pub open spec fn shape(components: Seq<LoaderComponent>) -> Seq<
    (LoaderComponentRole, LoaderComponentKind),
> {
    components.map_values(|c: LoaderComponent| (c.role, c.kind))
}

/// Whether a component of `kind` stands beside the primary one.
pub open spec fn has(
    selection: Seq<(LoaderComponentRole, LoaderComponentKind)>,
    kind: LoaderComponentKind,
) -> bool {
    selection.contains((LoaderComponentRole::Adjunct, kind))
}

/// The first primary component.
pub open spec fn primary_kind(
    selection: Seq<(LoaderComponentRole, LoaderComponentKind)>,
) -> Option<LoaderComponentKind>
    decreases selection.len(),
{
    if selection.len() == 0 {
        None
    } else if selection[0].0 == LoaderComponentRole::Primary {
        Some(selection[0].1)
    } else {
        primary_kind(selection.drop_first())
    }
}

/// Whether `kind` is Fabric for new or for old versions of the game.
pub open spec fn is_fabric(kind: LoaderComponentKind) -> bool {
    kind == LoaderComponentKind::Fabric || kind == LoaderComponentKind::LegacyFabric
}

/// Whether `kind` may stand beside a primary component at all.
pub open spec fn may_be_adjunct(kind: LoaderComponentKind) -> bool {
    ||| kind == LoaderComponentKind::OptiFine
    ||| kind == LoaderComponentKind::LiteLoader
    ||| kind == LoaderComponentKind::OptiFabric
}

/// Why a selection is not allowed.
pub open spec fn selection_refusal(
    selection: Seq<(LoaderComponentRole, LoaderComponentKind)>,
) -> Option<Refusal> {
    let optifine = has(selection, LoaderComponentKind::OptiFine);
    let optifabric = has(selection, LoaderComponentKind::OptiFabric);
    match primary_kind(selection) {
        None => Some(Refusal::NoPrimaryLoader),
        Some(primary) => if optifine && !(primary == LoaderComponentKind::Vanilla || primary
            == LoaderComponentKind::Forge || primary == LoaderComponentKind::NeoForge || (
        is_fabric(primary) && optifabric)) {
            Some(Refusal::OptiFineUnsupported(primary))
        } else if optifabric && !optifine {
            Some(Refusal::OptiFabricWithoutOptiFine)
        } else if optifabric && !is_fabric(primary) {
            Some(Refusal::OptiFabricUnsupported(primary))
        } else if has(selection, LoaderComponentKind::LiteLoader) && !(primary
            == LoaderComponentKind::Vanilla || primary == LoaderComponentKind::Forge) {
            Some(Refusal::LiteLoaderUnsupported(primary))
        } else if exists|i: int|
            0 <= i < selection.len() && (#[trigger] selection[i]).0 == LoaderComponentRole::Adjunct
                && !may_be_adjunct(selection[i].1) {
            Some(Refusal::AdjunctNotAllowed)
        } else {
            None
        },
    }
}

/// `Ok`, or the refusal if there is one.
pub open spec fn verdict(refusal: Option<Refusal>) -> Result<(), Refusal> {
    match refusal {
        Some(refusal) => Err(refusal),
        None => Ok(()),
    }
}

fn has_adjunct(components: &Vec<LoaderComponent>, kind: LoaderComponentKind) -> (r: bool)
    ensures
        r == has(shape(components@), kind),
{
    let mut i: usize = 0;
    while i < components.len()
        invariant
            i <= components@.len(),
            forall|j: int|
                0 <= j < i ==> #[trigger] shape(components@)[j] != (
                    LoaderComponentRole::Adjunct,
                    kind,
                ),
        decreases components@.len() - i,
    {
        assert(shape(components@)[i as int] == (
            components@[i as int].role,
            components@[i as int].kind,
        ));
        if components[i].role == LoaderComponentRole::Adjunct && components[i].kind == kind {
            return true;
        }
        i = i + 1;
    }
    false
}

proof fn lemma_primary_kind(selection: Seq<(LoaderComponentRole, LoaderComponentKind)>, n: int)
    requires
        0 <= n <= selection.len(),
        forall|j: int| 0 <= j < n ==> (#[trigger] selection[j]).0 != LoaderComponentRole::Primary,
        n < selection.len() ==> selection[n].0 == LoaderComponentRole::Primary,
    ensures
        primary_kind(selection) == if n < selection.len() {
            Some(selection[n].1)
        } else {
            None
        },
    decreases selection.len(),
{
    if selection.len() > 0 && n > 0 {
        assert(selection[0].0 != LoaderComponentRole::Primary);
        let rest = selection.drop_first();
        assert forall|j: int| 0 <= j < n - 1 implies (#[trigger] rest[j]).0
            != LoaderComponentRole::Primary by {
            assert(rest[j] == selection[j + 1]);
        }
        lemma_primary_kind(rest, n - 1);
    }
}

fn find_primary(components: &Vec<LoaderComponent>) -> (r: Option<LoaderComponentKind>)
    ensures
        r == primary_kind(shape(components@)),
{
    let mut i: usize = 0;
    while i < components.len()
        invariant
            i <= components@.len(),
            forall|j: int|
                0 <= j < i ==> (#[trigger] shape(components@)[j]).0 != LoaderComponentRole::Primary,
        decreases components@.len() - i,
    {
        assert(shape(components@)[i as int] == (
            components@[i as int].role,
            components@[i as int].kind,
        ));
        if components[i].role == LoaderComponentRole::Primary {
            proof {
                lemma_primary_kind(shape(components@), i as int);
            }
            return Some(components[i].kind);
        }
        i = i + 1;
    }
    proof {
        lemma_primary_kind(shape(components@), i as int);
    }
    None
}

fn has_foreign_adjunct(components: &Vec<LoaderComponent>) -> (r: bool)
    ensures
        r == exists|i: int|
            0 <= i < shape(components@).len() && (#[trigger] shape(components@)[i]).0
                == LoaderComponentRole::Adjunct && !may_be_adjunct(shape(components@)[i].1),
{
    let ghost selection = shape(components@);
    let mut i: usize = 0;
    while i < components.len()
        invariant
            i <= components@.len(),
            selection == shape(components@),
            forall|j: int|
                0 <= j < i ==> !((#[trigger] selection[j]).0 == LoaderComponentRole::Adjunct
                    && !may_be_adjunct(selection[j].1)),
        decreases components@.len() - i,
    {
        let allowed = match components[i].kind {
            LoaderComponentKind::OptiFine
            | LoaderComponentKind::LiteLoader
            | LoaderComponentKind::OptiFabric => true,
            _ => false,
        };
        assert(selection[i as int] == (components@[i as int].role, components@[i as int].kind));
        if components[i].role == LoaderComponentRole::Adjunct && !allowed {
            return true;
        }
        i = i + 1;
    }
    false
}

/// Whether the components go together.
pub fn validate_loader_components(components: &Vec<LoaderComponent>) -> (r: Result<(), Refusal>)
    ensures
        r == verdict(selection_refusal(shape(components@))),
{
    let primary = match find_primary(components) {
        Some(primary) => primary,
        None => {
            return Err(Refusal::NoPrimaryLoader);
        },
    };
    let optifine = has_adjunct(components, LoaderComponentKind::OptiFine);
    let optifabric = has_adjunct(components, LoaderComponentKind::OptiFabric);
    if optifine {
        let fits = match primary {
            LoaderComponentKind::Vanilla
            | LoaderComponentKind::Forge
            | LoaderComponentKind::NeoForge => true,
            LoaderComponentKind::Fabric | LoaderComponentKind::LegacyFabric => optifabric,
            _ => false,
        };
        if !fits {
            return Err(Refusal::OptiFineUnsupported(primary));
        }
    }
    if optifabric && !optifine {
        return Err(Refusal::OptiFabricWithoutOptiFine);
    }
    if optifabric {
        let fits = match primary {
            LoaderComponentKind::Fabric | LoaderComponentKind::LegacyFabric => true,
            _ => false,
        };
        if !fits {
            return Err(Refusal::OptiFabricUnsupported(primary));
        }
    }
    if has_adjunct(components, LoaderComponentKind::LiteLoader) {
        let fits = match primary {
            LoaderComponentKind::Vanilla | LoaderComponentKind::Forge => true,
            _ => false,
        };
        if !fits {
            return Err(Refusal::LiteLoaderUnsupported(primary));
        }
    }
    if has_foreign_adjunct(components) {
        return Err(Refusal::AdjunctNotAllowed);
    }
    Ok(())
}

/// Why a component of `kind` cannot stand beside `loader` in a new instance.
pub open spec fn pairing_refusal(kind: LoaderComponentKind, loader: ModLoader) -> Option<Refusal> {
    if kind == LoaderComponentKind::OptiFine && !(loader == ModLoader::Forge || loader
        == ModLoader::NeoForge || loader == ModLoader::Fabric || loader
        == ModLoader::LegacyFabric) {
        Some(Refusal::OptiFineUnsupported(loader.component()))
    } else if kind == LoaderComponentKind::LiteLoader && loader != ModLoader::Forge {
        Some(Refusal::LiteLoaderUnsupported(loader.component()))
    } else {
        None
    }
}

/// Why the first of `adjuncts` that does not go with `loader` does not.
pub open spec fn first_pairing_refusal(
    adjuncts: Seq<LoaderComponent>,
    loader: ModLoader,
) -> Option<Refusal>
    decreases adjuncts.len(),
{
    if adjuncts.len() == 0 {
        None
    } else if pairing_refusal(adjuncts[0].kind, loader) is Some {
        pairing_refusal(adjuncts[0].kind, loader)
    } else {
        first_pairing_refusal(adjuncts.drop_first(), loader)
    }
}

proof fn lemma_first_pairing_refusal(adjuncts: Seq<LoaderComponent>, loader: ModLoader, n: int)
    requires
        0 <= n <= adjuncts.len(),
        forall|j: int| 0 <= j < n ==> pairing_refusal((#[trigger] adjuncts[j]).kind, loader) is None,
        n < adjuncts.len() ==> pairing_refusal(adjuncts[n].kind, loader) is Some,
    ensures
        first_pairing_refusal(adjuncts, loader) == if n < adjuncts.len() {
            pairing_refusal(adjuncts[n].kind, loader)
        } else {
            None
        },
    decreases adjuncts.len(),
{
    if adjuncts.len() > 0 && n > 0 {
        assert(pairing_refusal(adjuncts[0].kind, loader) is None);
        let rest = adjuncts.drop_first();
        assert forall|j: int| 0 <= j < n - 1 implies pairing_refusal(
            (#[trigger] rest[j]).kind,
            loader,
        ) is None by {
            assert(rest[j] == adjuncts[j + 1]);
        }
        lemma_first_pairing_refusal(rest, loader, n - 1);
    }
}

/// Whether each of `adjuncts` goes with `loader` in a new instance. Nothing is
/// looked up for a selection that this refuses.
pub fn check_adjunct_pairings(adjuncts: &Vec<LoaderComponent>, loader: ModLoader) -> (r: Result<
    (),
    Refusal,
>)
    ensures
        r == verdict(first_pairing_refusal(adjuncts@, loader)),
{
    let mut i: usize = 0;
    while i < adjuncts.len()
        invariant
            i <= adjuncts@.len(),
            forall|j: int|
                0 <= j < i ==> pairing_refusal((#[trigger] adjuncts@[j]).kind, loader) is None,
        decreases adjuncts@.len() - i,
    {
        let refusal = match adjuncts[i].kind {
            LoaderComponentKind::OptiFine => match loader {
                ModLoader::Forge
                | ModLoader::NeoForge
                | ModLoader::Fabric
                | ModLoader::LegacyFabric => None,
                _ => Some(Refusal::OptiFineUnsupported(loader.component_kind())),
            },
            LoaderComponentKind::LiteLoader => if loader != ModLoader::Forge {
                Some(Refusal::LiteLoaderUnsupported(loader.component_kind()))
            } else {
                None
            },
            _ => None,
        };
        assert(refusal == pairing_refusal(adjuncts@[i as int].kind, loader));
        if let Some(refusal) = refusal {
            proof {
                lemma_first_pairing_refusal(adjuncts@, loader, i as int);
            }
            return Err(refusal);
        }
        i = i + 1;
    }
    proof {
        lemma_first_pairing_refusal(adjuncts@, loader, i as int);
    }
    Ok(())
}

/// Whether the version of a component of `kind` is looked up.
pub open spec fn is_looked_up(kind: LoaderComponentKind) -> bool {
    kind == LoaderComponentKind::OptiFine || kind == LoaderComponentKind::LiteLoader
}

/// Whether the version of a component of `kind` is looked up.
pub fn needs_lookup(kind: LoaderComponentKind) -> (r: bool)
    ensures
        r == is_looked_up(kind),
{
    match kind {
        LoaderComponentKind::OptiFine | LoaderComponentKind::LiteLoader => true,
        _ => false,
    }
}

/// What the lookup for the `i`th component gave.
pub open spec fn answer(versions: Seq<Option<String>>, i: int) -> Option<String> {
    if 0 <= i < versions.len() {
        versions[i]
    } else {
        None
    }
}

/// Why no version can be found for the first component, from the `i`th on, for
/// which the lookup gave none.
pub open spec fn lookup_refusal(
    game_version: String,
    adjuncts: Seq<LoaderComponent>,
    versions: Seq<Option<String>>,
    i: int,
) -> Option<Refusal>
    decreases adjuncts.len() - i,
{
    if i < 0 || i >= adjuncts.len() {
        None
    } else if adjuncts[i].kind == LoaderComponentKind::OptiFine && answer(versions, i) is None {
        Some(Refusal::NoOptiFineVersion(game_version))
    } else if adjuncts[i].kind == LoaderComponentKind::LiteLoader && answer(versions, i) is None {
        Some(Refusal::NoLiteLoaderVersion(game_version))
    } else {
        lookup_refusal(game_version, adjuncts, versions, i + 1)
    }
}

/// Whether one of `adjuncts` is of `kind`.
pub open spec fn some_kind(adjuncts: Seq<LoaderComponent>, kind: LoaderComponentKind) -> bool {
    exists|i: int| 0 <= i < adjuncts.len() && (#[trigger] adjuncts[i]).kind == kind
}

/// Whether OptiFabric has to be added: OptiFine runs on Fabric only through it.
pub open spec fn lacks_optifabric(adjuncts: Seq<LoaderComponent>, loader: ModLoader) -> bool {
    &&& some_kind(adjuncts, LoaderComponentKind::OptiFine)
    &&& loader == ModLoader::Fabric || loader == ModLoader::LegacyFabric
    &&& !some_kind(adjuncts, LoaderComponentKind::OptiFabric)
}

fn any_of_kind(adjuncts: &Vec<LoaderComponent>, kind: LoaderComponentKind) -> (r: bool)
    ensures
        r == some_kind(adjuncts@, kind),
{
    let mut i: usize = 0;
    while i < adjuncts.len()
        invariant
            i <= adjuncts@.len(),
            forall|j: int| 0 <= j < i ==> (#[trigger] adjuncts@[j]).kind != kind,
        decreases adjuncts@.len() - i,
    {
        if adjuncts[i].kind == kind {
            return true;
        }
        i = i + 1;
    }
    false
}

/// Whether OptiFabric has to be added.
pub fn needs_optifabric(adjuncts: &Vec<LoaderComponent>, loader: ModLoader) -> (r: bool)
    ensures
        r == lacks_optifabric(adjuncts@, loader),
{
    let on_fabric = match loader {
        ModLoader::Fabric | ModLoader::LegacyFabric => true,
        _ => false,
    };
    any_of_kind(adjuncts, LoaderComponentKind::OptiFine) && on_fabric && !any_of_kind(
        adjuncts,
        LoaderComponentKind::OptiFabric,
    )
}

/// Whether `file` can be had for exactly `game_version`.
pub open spec fn serves(file: CurseForgeFile, game_version: Seq<char>) -> bool {
    file.is_available && views(file.game_versions@).contains(game_version)
}

/// The first of `files` that serves `game_version`.
pub open spec fn first_serving(files: Seq<CurseForgeFile>, game_version: Seq<char>) -> Option<u32>
    decreases files.len(),
{
    if files.len() == 0 {
        None
    } else if serves(files[0], game_version) {
        Some(files[0].id)
    } else {
        first_serving(files.drop_first(), game_version)
    }
}

proof fn lemma_first_serving(files: Seq<CurseForgeFile>, game_version: Seq<char>, n: int)
    requires
        0 <= n <= files.len(),
        forall|j: int| 0 <= j < n ==> !serves(#[trigger] files[j], game_version),
        n < files.len() ==> serves(files[n], game_version),
    ensures
        first_serving(files, game_version) == if n < files.len() {
            Some(files[n].id)
        } else {
            None
        },
    decreases files.len(),
{
    if files.len() > 0 && n > 0 {
        assert(!serves(files[0], game_version));
        let rest = files.drop_first();
        assert forall|j: int| 0 <= j < n - 1 implies !serves(#[trigger] rest[j], game_version) by {
            assert(rest[j] == files[j + 1]);
        }
        lemma_first_serving(rest, game_version, n - 1);
    }
}

/// The first file of OptiFabric that is available for exactly `game_version`.
pub fn select_optifabric_file_id(files: &Vec<CurseForgeFile>, game_version: &str) -> (r: Option<
    u32,
>)
    ensures
        r == first_serving(files@, game_version@),
{
    let mut i: usize = 0;
    while i < files.len()
        invariant
            i <= files@.len(),
            forall|j: int| 0 <= j < i ==> !serves(#[trigger] files@[j], game_version@),
        decreases files@.len() - i,
    {
        if files[i].is_available && contains_text(&files[i].game_versions, game_version) {
            proof {
                lemma_first_serving(files@, game_version@, i as int);
            }
            return Some(files[i].id);
        }
        i = i + 1;
    }
    proof {
        lemma_first_serving(files@, game_version@, i as int);
    }
    None
}

/// The version of OptiFabric for `game_version` among `files`.
pub fn resolve_optifabric_version(files: &Vec<CurseForgeFile>, game_version: &String) -> (r: Result<
    String,
    Refusal,
>)
    ensures
        match (r, first_serving(files@, game_version@)) {
            (Ok(version), Some(id)) => version@ == numeral(id as nat),
            (Err(refusal), None) => refusal == Refusal::NoOptiFabricVersion(*game_version),
            _ => false,
        },
{
    match select_optifabric_file_id(files, game_version.as_str()) {
        Some(id) => Ok(print_u64(id as u64)),
        None => Err(Refusal::NoOptiFabricVersion(game_version.clone())),
    }
}

/// What a component becomes: it belongs to no instance yet, it stands beside
/// the loader, and its version is the one that was looked up.
pub open spec fn is_resolved(
    before: LoaderComponent,
    version: Option<String>,
    after: LoaderComponent,
) -> bool {
    &&& after.instance_id@.len() == 0
    &&& after.kind == before.kind
    &&& after.role == LoaderComponentRole::Adjunct
    &&& after.provider_metadata == before.provider_metadata
    &&& after.version == if is_looked_up(before.kind) {
        version
    } else {
        before.version
    }
}

/// The component that OptiFabric is added as.
pub open spec fn is_added_optifabric(component: LoaderComponent, file_id: u32) -> bool {
    &&& component.instance_id@.len() == 0
    &&& component.kind == LoaderComponentKind::OptiFabric
    &&& component.version is Some
    &&& component.version->0@ == numeral(file_id as nat)
    &&& component.role == LoaderComponentRole::Adjunct
    &&& component.provider_metadata is Some
    &&& component.provider_metadata->0@
        == "{\"projectId\":322385,\"provider\":\"curseforge\"}"@
}

/// The selection that `adjuncts` make with `loader`, with OptiFabric where it
/// has to be added.
pub open spec fn full_shape(adjuncts: Seq<LoaderComponent>, loader: ModLoader) -> Seq<
    (LoaderComponentRole, LoaderComponentKind),
> {
    let asked = adjuncts.map_values(
        |c: LoaderComponent| (LoaderComponentRole::Adjunct, c.kind),
    );
    let beside = if lacks_optifabric(adjuncts, loader) {
        asked.push((LoaderComponentRole::Adjunct, LoaderComponentKind::OptiFabric))
    } else {
        asked
    };
    seq![(LoaderComponentRole::Primary, loader.component())] + beside
}

/// Why `adjuncts` cannot be resolved for a new instance.
pub open spec fn adjuncts_refusal(
    game_version: String,
    loader: ModLoader,
    adjuncts: Seq<LoaderComponent>,
    versions: Seq<Option<String>>,
    files: Seq<CurseForgeFile>,
) -> Option<Refusal> {
    if first_pairing_refusal(adjuncts, loader) is Some {
        first_pairing_refusal(adjuncts, loader)
    } else if lookup_refusal(game_version, adjuncts, versions, 0) is Some {
        lookup_refusal(game_version, adjuncts, versions, 0)
    } else if lacks_optifabric(adjuncts, loader) && first_serving(files, game_version@) is None {
        Some(Refusal::NoOptiFabricVersion(game_version))
    } else {
        selection_refusal(full_shape(adjuncts, loader))
    }
}

/// What `adjuncts` become for a new instance.
pub open spec fn are_resolved(
    game_version: String,
    loader: ModLoader,
    adjuncts: Seq<LoaderComponent>,
    versions: Seq<Option<String>>,
    files: Seq<CurseForgeFile>,
    resolved: Seq<LoaderComponent>,
) -> bool {
    &&& resolved.len() == adjuncts.len() + if lacks_optifabric(adjuncts, loader) {
        1int
    } else {
        0int
    }
    &&& forall|i: int|
        0 <= i < adjuncts.len() ==> is_resolved(
            adjuncts[i],
            answer(versions, i),
            #[trigger] resolved[i],
        )
    &&& lacks_optifabric(adjuncts, loader) ==> {
        &&& first_serving(files, game_version@) is Some
        &&& is_added_optifabric(resolved.last(), first_serving(files, game_version@)->0)
    }
}

proof fn lemma_lookup_refusal(
    game_version: String,
    adjuncts: Seq<LoaderComponent>,
    versions: Seq<Option<String>>,
    from: int,
    n: int,
)
    requires
        0 <= from <= n <= adjuncts.len(),
        forall|j: int|
            from <= j < n && is_looked_up((#[trigger] adjuncts[j]).kind) ==> answer(
                versions,
                j,
            ) is Some,
    ensures
        lookup_refusal(game_version, adjuncts, versions, from) == lookup_refusal(
            game_version,
            adjuncts,
            versions,
            n,
        ),
    decreases n - from,
{
    if from < n {
        assert(is_looked_up(adjuncts[from].kind) ==> answer(versions, from) is Some);
        lemma_lookup_refusal(game_version, adjuncts, versions, from + 1, n);
    }
}

/// Resolves the components that stand beside `loader` in a new instance.
/// `versions` holds, for each component that needs a lookup, what the lookup
/// gave; `files` are the files of OptiFabric, where it has to be added.
pub fn resolve_required_adjuncts(
    game_version: &String,
    loader: ModLoader,
    adjuncts: &Vec<LoaderComponent>,
    versions: &Vec<Option<String>>,
    files: &Vec<CurseForgeFile>,
) -> (r: Result<Vec<LoaderComponent>, Refusal>)
    ensures
        match r {
            Ok(resolved) => {
                &&& adjuncts_refusal(*game_version, loader, adjuncts@, versions@, files@) is None
                &&& are_resolved(
                    *game_version,
                    loader,
                    adjuncts@,
                    versions@,
                    files@,
                    resolved@,
                )
            },
            Err(refusal) => adjuncts_refusal(
                *game_version,
                loader,
                adjuncts@,
                versions@,
                files@,
            ) == Some(refusal),
        },
{
    match check_adjunct_pairings(adjuncts, loader) {
        Ok(_) => {},
        Err(refusal) => {
            return Err(refusal);
        },
    }
    let mut resolved: Vec<LoaderComponent> = Vec::new();
    let mut i: usize = 0;
    while i < adjuncts.len()
        invariant
            i <= adjuncts@.len(),
            resolved@.len() == i,
            forall|j: int|
                0 <= j < i ==> is_resolved(
                    adjuncts@[j],
                    answer(versions@, j),
                    #[trigger] resolved@[j],
                ),
            forall|j: int|
                0 <= j < i && is_looked_up((#[trigger] adjuncts@[j]).kind) ==> answer(
                    versions@,
                    j,
                ) is Some,
            first_pairing_refusal(adjuncts@, loader) is None,
        decreases adjuncts@.len() - i,
    {
        let adjunct = &adjuncts[i];
        let version = if needs_lookup(adjunct.kind) {
            let found = if i < versions.len() {
                versions[i].clone()
            } else {
                None
            };
            assert(found == answer(versions@, i as int));
            if found.is_none() {
                proof {
                    lemma_lookup_refusal(*game_version, adjuncts@, versions@, 0, i as int);
                }
                return Err(
                    match adjunct.kind {
                        LoaderComponentKind::OptiFine => Refusal::NoOptiFineVersion(
                            game_version.clone(),
                        ),
                        _ => Refusal::NoLiteLoaderVersion(game_version.clone()),
                    },
                );
            }
            found
        } else {
            adjunct.version.clone()
        };
        let empty: String = String::new();
        let component = LoaderComponent {
            instance_id: empty,
            kind: adjunct.kind,
            version,
            role: LoaderComponentRole::Adjunct,
            provider_metadata: adjunct.provider_metadata.clone(),
        };
        assert(is_resolved(adjuncts@[i as int], answer(versions@, i as int), component));
        resolved.push(component);
        i = i + 1;
    }
    proof {
        lemma_lookup_refusal(*game_version, adjuncts@, versions@, 0, i as int);
    }
    let added = needs_optifabric(adjuncts, loader);
    if added {
        let file_id = match select_optifabric_file_id(files, game_version.as_str()) {
            Some(file_id) => file_id,
            None => {
                return Err(Refusal::NoOptiFabricVersion(game_version.clone()));
            },
        };
        let component = LoaderComponent {
            instance_id: String::new(),
            kind: LoaderComponentKind::OptiFabric,
            version: Some(print_u64(file_id as u64)),
            role: LoaderComponentRole::Adjunct,
            provider_metadata: Some(
                "{\"projectId\":322385,\"provider\":\"curseforge\"}".to_owned(),
            ),
        };
        assert(is_added_optifabric(component, file_id));
        resolved.push(component);
    }
    let mut components: Vec<LoaderComponent> = Vec::new();
    components.push(LoaderComponent::new_primary("", loader, None));
    let mut k: usize = 0;
    while k < resolved.len()
        invariant
            k <= resolved@.len(),
            components@.len() == k + 1,
            components@[0].role == LoaderComponentRole::Primary,
            components@[0].kind == loader.component(),
            forall|j: int| 0 <= j < k ==> components@[j + 1] == #[trigger] resolved@[j],
        decreases resolved@.len() - k,
    {
        components.push(resolved[k].clone());
        k = k + 1;
    }
    proof {
        let whole = full_shape(adjuncts@, loader);
        let made = shape(components@);
        assert(made.len() == whole.len());
        assert forall|j: int| 0 <= j < made.len() implies made[j] == whole[j] by {
            if j > 0 {
                assert(components@[j] == resolved@[j - 1]);
                if j - 1 < adjuncts@.len() {
                    assert(is_resolved(
                        adjuncts@[j - 1],
                        answer(versions@, j - 1),
                        resolved@[j - 1],
                    ));
                }
            }
        }
        assert(made =~= whole);
    }
    match validate_loader_components(&components) {
        Ok(_) => Ok(resolved),
        Err(refusal) => Err(refusal),
    }
}

/// What was resolved for a new instance passes the check of the selection as a
/// whole, and every component stands beside the loader.
pub proof fn law_resolved_adjuncts_are_valid(
    game_version: String,
    loader: ModLoader,
    adjuncts: Seq<LoaderComponent>,
    versions: Seq<Option<String>>,
    files: Seq<CurseForgeFile>,
    resolved: Seq<LoaderComponent>,
    primary: LoaderComponent,
)
    requires
        adjuncts_refusal(game_version, loader, adjuncts, versions, files) is None,
        are_resolved(game_version, loader, adjuncts, versions, files, resolved),
        primary.role == LoaderComponentRole::Primary,
        primary.kind == loader.component(),
    ensures
        selection_refusal(shape(seq![primary] + resolved)) is None,
        forall|i: int|
            0 <= i < resolved.len() ==> (#[trigger] resolved[i]).role
                == LoaderComponentRole::Adjunct && may_be_adjunct(resolved[i].kind),
{
    let components = seq![primary] + resolved;
    let whole = full_shape(adjuncts, loader);
    let made = shape(components);
    assert forall|i: int| 0 <= i < resolved.len() implies (#[trigger] resolved[i]).role
        == LoaderComponentRole::Adjunct by {
        if i < adjuncts.len() {
            assert(is_resolved(adjuncts[i], answer(versions, i), resolved[i]));
        } else {
            assert(resolved[i] == resolved.last());
        }
    }
    assert(made.len() == whole.len());
    assert forall|j: int| 0 <= j < made.len() implies made[j] == whole[j] by {
        if j > 0 {
            assert(components[j] == resolved[j - 1]);
            if j - 1 < adjuncts.len() {
                assert(is_resolved(adjuncts[j - 1], answer(versions, j - 1), resolved[j - 1]));
            } else {
                assert(resolved[j - 1] == resolved.last());
            }
        }
    }
    assert(made =~= whole);
    assert forall|i: int| 0 <= i < resolved.len() implies may_be_adjunct(
        (#[trigger] resolved[i]).kind,
    ) by {
        assert(made[i + 1] == (resolved[i].role, resolved[i].kind));
    }
}

/// Whether OptiFine may be in a selection depends on the loader alone, except
/// on Fabric, where it needs OptiFabric; OptiFabric is never allowed without it.
pub proof fn law_optifabric_goes_with_optifine(
    selection: Seq<(LoaderComponentRole, LoaderComponentKind)>,
)
    requires
        selection_refusal(selection) is None,
    ensures
        has(selection, LoaderComponentKind::OptiFabric) ==> has(
            selection,
            LoaderComponentKind::OptiFine,
        ) && is_fabric(primary_kind(selection)->0),
        has(selection, LoaderComponentKind::OptiFine) && is_fabric(primary_kind(selection)->0)
            ==> has(selection, LoaderComponentKind::OptiFabric),
{
}

/// Reads the version of OptiFabric as the number of a file.
pub fn optifabric_file_id(version: &str) -> (r: Result<u32, Refusal>)
    ensures
        match r {
            Ok(id) => parsed(version@, u32::MAX as nat) == Some(id as nat),
            Err(refusal) => parsed(version@, u32::MAX as nat) is None && refusal
                == Refusal::InvalidOptiFabricFile,
        },
{
    match parse_u32(version) {
        Some(id) => Ok(id),
        None => Err(Refusal::InvalidOptiFabricFile),
    }
}

/// Whether `file`, found under `file_id`, is a file of OptiFabric that serves
/// `game_version`.
pub fn check_optifabric_file(file: &CurseForgeFile, file_id: u32, game_version: &String) -> (r:
    Result<(), Refusal>)
    ensures
        r == if file.mod_id == OPTIFABRIC_CURSEFORGE_PROJECT_ID && serves(*file, game_version@) {
            Ok::<(), Refusal>(())
        } else {
            Err(Refusal::OptiFabricFileUnsupported(file_id, *game_version))
        },
{
    if file.mod_id != OPTIFABRIC_CURSEFORGE_PROJECT_ID || !file.is_available || !contains_text(
        &file.game_versions,
        game_version.as_str(),
    ) {
        return Err(Refusal::OptiFabricFileUnsupported(file_id, game_version.clone()));
    }
    Ok(())
}

/// The request that installs a file of OptiFabric.
pub fn optifabric_install_request(instance_id: &String, game_version: &String, file_id: u32) -> (r:
    CurseForgeInstallRequest)
    ensures
        r.instance_id == *instance_id,
        r.project_id == OPTIFABRIC_CURSEFORGE_PROJECT_ID,
        r.file_id == file_id,
        r.project_type@ == "mod"@,
        r.ownership_kind == ContentOwnershipKind::UserAdded,
        r.manual_operation_kind == ManualDownloadOperationKind::ContentInstall,
        r.game_version == Some(*game_version),
        r.mod_loader_type == Some(4u32),
        r.world_name is None,
        !r.install_dependencies,
        r.excluded_dependency_project_ids@.len() == 0,
        r.force_dependency_project_ids@.len() == 0,
        r.dependency_plan_id is None,
{
    CurseForgeInstallRequest {
        instance_id: instance_id.clone(),
        project_id: OPTIFABRIC_CURSEFORGE_PROJECT_ID,
        file_id,
        project_type: "mod".to_owned(),
        ownership_kind: ContentOwnershipKind::UserAdded,
        manual_operation_kind: ManualDownloadOperationKind::ContentInstall,
        game_version: Some(game_version.clone()),
        mod_loader_type: Some(4),
        world_name: None,
        install_dependencies: false,
        excluded_dependency_project_ids: Vec::new(),
        force_dependency_project_ids: Vec::new(),
        dependency_plan_id: None,
    }
}

/// Whether `file` is the file of OptiFabric that was asked for.
pub open spec fn is_asked_optifabric(file: CurseForgeInstalledFile, file_id: u32) -> bool {
    &&& !file.dependency
    &&& file.project_id == OPTIFABRIC_CURSEFORGE_PROJECT_ID
    &&& file.file_id == file_id
}

/// Why OptiFabric is not installed.
pub open spec fn optifabric_failure(result: CurseForgeInstallResult, file_id: u32) -> Option<
    Refusal,
> {
    if result.manual_downloads@.len() > 0 {
        Some(Refusal::OptiFabricManualDownload)
    } else if result.failed_downloads@.len() > 0 {
        Some(Refusal::OptiFabricFailed(result.failed_downloads@[0].reason))
    } else if !(exists|i: int|
        0 <= i < result.installed@.len() && is_asked_optifabric(
            #[trigger] result.installed@[i],
            file_id,
        )) {
        Some(Refusal::OptiFabricNotInstalled)
    } else {
        None
    }
}

/// The version of OptiFabric that was installed, given what became of its file.
pub fn optifabric_installed(result: &CurseForgeInstallResult, file_id: u32) -> (r: Result<
    String,
    Refusal,
>)
    ensures
        match r {
            Ok(version) => optifabric_failure(*result, file_id) is None && version@ == numeral(
                file_id as nat,
            ),
            Err(refusal) => optifabric_failure(*result, file_id) == Some(refusal),
        },
{
    if result.manual_downloads.len() > 0 {
        return Err(Refusal::OptiFabricManualDownload);
    }
    if result.failed_downloads.len() > 0 {
        return Err(Refusal::OptiFabricFailed(result.failed_downloads[0].reason.clone()));
    }
    let mut i: usize = 0;
    while i < result.installed.len()
        invariant
            i <= result.installed@.len(),
            forall|j: int|
                0 <= j < i ==> !is_asked_optifabric(#[trigger] result.installed@[j], file_id),
            result.manual_downloads@.len() == 0,
            result.failed_downloads@.len() == 0,
        decreases result.installed@.len() - i,
    {
        let file = result.installed[i];
        if !file.dependency && file.project_id == OPTIFABRIC_CURSEFORGE_PROJECT_ID && file.file_id
            == file_id {
            return Ok(print_u64(file_id as u64));
        }
        i = i + 1;
    }
    Err(Refusal::OptiFabricNotInstalled)
}

/// What is done to install a component that stands beside the loader.
#[derive(Clone, Debug, PartialEq, Eq)]
pub enum AdjunctInstall {
    /// The version is looked up and its file put among the mods.
    OptiFine { version: Option<String> },
    /// The file is installed; without a version it is looked up first.
    OptiFabric { version: Option<String> },
    /// The version is looked up and merged into the primary loader's.
    LiteLoader { version: Option<String> },
    /// Nothing.
    Skip,
}

/// What is done to install `adjunct`.
pub fn adjunct_install(adjunct: &LoaderComponent) -> (r: AdjunctInstall)
    ensures
        r == match adjunct.kind {
            LoaderComponentKind::OptiFine => AdjunctInstall::OptiFine { version: adjunct.version },
            LoaderComponentKind::OptiFabric => AdjunctInstall::OptiFabric {
                version: adjunct.version,
            },
            LoaderComponentKind::LiteLoader => AdjunctInstall::LiteLoader {
                version: adjunct.version,
            },
            _ => AdjunctInstall::Skip,
        },
{
    match adjunct.kind {
        LoaderComponentKind::OptiFine => AdjunctInstall::OptiFine {
            version: adjunct.version.clone(),
        },
        LoaderComponentKind::OptiFabric => AdjunctInstall::OptiFabric {
            version: adjunct.version.clone(),
        },
        LoaderComponentKind::LiteLoader => AdjunctInstall::LiteLoader {
            version: adjunct.version.clone(),
        },
        _ => AdjunctInstall::Skip,
    }
}

/// The index of the first component of `kind`, or their number.
pub open spec fn first_of_kind(
    components: Seq<LoaderComponent>,
    kind: LoaderComponentKind,
) -> int
    decreases components.len(),
{
    if components.len() == 0 || components[0].kind == kind {
        0
    } else {
        1 + first_of_kind(components.drop_first(), kind)
    }
}

/// The components once the first of `kind` has `version`.
pub open spec fn with_version(
    components: Seq<LoaderComponent>,
    kind: LoaderComponentKind,
    version: String,
) -> Seq<LoaderComponent> {
    let i = first_of_kind(components, kind);
    if 0 <= i < components.len() {
        components.update(i, LoaderComponent { version: Some(version), ..components[i] })
    } else {
        components
    }
}

proof fn lemma_first_of_kind(components: Seq<LoaderComponent>, kind: LoaderComponentKind, n: int)
    requires
        0 <= n <= components.len(),
        forall|j: int| 0 <= j < n ==> (#[trigger] components[j]).kind != kind,
        n < components.len() ==> components[n].kind == kind,
    ensures
        first_of_kind(components, kind) == n,
    decreases components.len(),
{
    if components.len() > 0 && n > 0 {
        assert(components[0].kind != kind);
        let rest = components.drop_first();
        assert forall|j: int| 0 <= j < n - 1 implies (#[trigger] rest[j]).kind != kind by {
            assert(rest[j] == components[j + 1]);
        }
        lemma_first_of_kind(rest, kind, n - 1);
    }
}

/// Sets the version of the first component of `kind`, if there is one.
pub fn set_component_version(
    components: &mut Vec<LoaderComponent>,
    kind: LoaderComponentKind,
    version: String,
)
    ensures
        final(components)@ == with_version(old(components)@, kind, version),
{
    let mut i: usize = 0;
    while i < components.len()
        invariant
            i <= components@.len(),
            components@ == old(components)@,
            forall|j: int| 0 <= j < i ==> (#[trigger] components@[j]).kind != kind,
        decreases components@.len() - i,
    {
        if components[i].kind == kind {
            proof {
                lemma_first_of_kind(components@, kind, i as int);
            }
            let mut component = components[i].clone();
            component.version = Some(version);
            components.set(i, component);
            return ;
        }
        i = i + 1;
    }
    proof {
        lemma_first_of_kind(components@, kind, i as int);
    }
}

/// The components once each of `installed` has the version that it names.
pub open spec fn with_versions(
    components: Seq<LoaderComponent>,
    installed: Seq<(LoaderComponentKind, String)>,
) -> Seq<LoaderComponent>
    decreases installed.len(),
{
    if installed.len() == 0 {
        components
    } else {
        with_version(
            with_versions(components, installed.drop_last()),
            installed.last().0,
            installed.last().1,
        )
    }
}

/// Sets the versions of the components that were installed, in their order.
pub fn set_installed_versions(
    components: &mut Vec<LoaderComponent>,
    installed: &Vec<(LoaderComponentKind, String)>,
)
    ensures
        final(components)@ == with_versions(old(components)@, installed@),
{
    let mut n: usize = 0;
    while n < installed.len()
        invariant
            n <= installed@.len(),
            components@ == with_versions(old(components)@, installed@.take(n as int)),
        decreases installed@.len() - n,
    {
        set_component_version(components, installed[n].0, installed[n].1.clone());
        proof {
            let longer = installed@.take(n + 1);
            assert(longer.drop_last() =~= installed@.take(n as int));
            assert(longer.last() == installed@[n as int]);
        }
        n = n + 1;
    }
    assert(installed@.take(n as int) =~= installed@);
}

/// Setting a version touches one component at most, and of it nothing but the
/// version.
pub proof fn law_set_version_touches_one_component(
    components: Seq<LoaderComponent>,
    kind: LoaderComponentKind,
    version: String,
)
    ensures
        with_version(components, kind, version).len() == components.len(),
        shape(with_version(components, kind, version)) == shape(components),
        forall|i: int|
            0 <= i < components.len() && i != first_of_kind(components, kind) ==> #[trigger]
            with_version(components, kind, version)[i] == components[i],
        some_kind(components, kind) ==> with_version(components, kind, version)[first_of_kind(
            components,
            kind,
        )].version == Some(version),
{
    lemma_first_of_kind_bound(components, kind);
    assert(shape(with_version(components, kind, version)) =~= shape(components));
}

proof fn lemma_first_of_kind_bound(components: Seq<LoaderComponent>, kind: LoaderComponentKind)
    ensures
        0 <= first_of_kind(components, kind) <= components.len(),
        some_kind(components, kind) ==> first_of_kind(components, kind) < components.len(),
    decreases components.len(),
{
    if components.len() > 0 && components[0].kind != kind {
        let rest = components.drop_first();
        lemma_first_of_kind_bound(rest, kind);
        if some_kind(components, kind) {
            let i = choose|i: int|
                0 <= i < components.len() && (#[trigger] components[i]).kind == kind;
            assert(rest[i - 1] == components[i]);
            assert(some_kind(rest, kind));
        }
    }
}

/// The version of the game and the loader that LiteLoader is merged into. It
/// needs the version of the primary loader.
pub fn liteloader_version_id(
    game_version: &String,
    primary_loader: ModLoader,
    primary_version: &Option<String>,
) -> (r: Result<String, Refusal>)
    ensures
        match (r, *primary_version) {
            (Ok(id), Some(version)) => id@ == game_version@ + "-"@ + version@,
            (Err(refusal), None) => refusal == Refusal::PrimaryVersionNotPinned(primary_loader),
            _ => false,
        },
{
    match primary_version {
        Some(version) => Ok(concat3(game_version.as_str(), "-", version.as_str())),
        None => Err(Refusal::PrimaryVersionNotPinned(primary_loader)),
    }
}

/// The first component that is marked as primary is the primary loader.
pub proof fn law_the_first_primary_counts(
    selection: Seq<(LoaderComponentRole, LoaderComponentKind)>,
)
    ensures
        match primary_kind(selection) {
            Some(kind) => exists|i: int|
                {
                    &&& 0 <= i < selection.len()
                    &&& #[trigger] selection[i] == (LoaderComponentRole::Primary, kind)
                    &&& forall|j: int|
                        0 <= j < i ==> (#[trigger] selection[j]).0 == LoaderComponentRole::Adjunct
                },
            None => forall|j: int|
                0 <= j < selection.len() ==> (#[trigger] selection[j]).0
                    == LoaderComponentRole::Adjunct,
        },
    decreases selection.len(),
{
    if selection.len() > 0 {
        if selection[0].0 == LoaderComponentRole::Primary {
            assert(selection[0] == (LoaderComponentRole::Primary, selection[0].1));
        } else {
            let rest = selection.drop_first();
            law_the_first_primary_counts(rest);
            if primary_kind(rest) is Some {
                let kind = primary_kind(rest)->0;
                let i = choose|i: int|
                    {
                        &&& 0 <= i < rest.len()
                        &&& #[trigger] rest[i] == (LoaderComponentRole::Primary, kind)
                        &&& forall|j: int|
                            0 <= j < i ==> (#[trigger] rest[j]).0 == LoaderComponentRole::Adjunct
                    };
                assert(selection[i + 1] == rest[i]);
                assert forall|j: int| 0 <= j < i + 1 implies (#[trigger] selection[j]).0
                    == LoaderComponentRole::Adjunct by {
                    if j > 0 {
                        assert(rest[j - 1] == selection[j]);
                    }
                }
            } else {
                assert forall|j: int| 0 <= j < selection.len() implies (#[trigger] selection[j]).0
                    == LoaderComponentRole::Adjunct by {
                    if j > 0 {
                        assert(rest[j - 1] == selection[j]);
                    }
                }
            }
        }
    }
}

/// OptiFine goes with the plain game, with Forge and NeoForge, and with the Fabrics
/// if OptiFabric is there; OptiFabric goes with OptiFine on the Fabrics alone;
/// LiteLoader goes with the plain game and with Forge; nothing else goes beside a
/// loader. A selection that keeps to that, with a primary loader, is accepted, and
/// no other is.
pub proof fn law_which_components_go_together(
    selection: Seq<(LoaderComponentRole, LoaderComponentKind)>,
    i: int,
)
    requires
        0 <= i < selection.len(),
        selection[i].0 == LoaderComponentRole::Primary,
        forall|j: int|
            0 <= j < i ==> (#[trigger] selection[j]).0 == LoaderComponentRole::Adjunct,
    ensures
        ({
            let primary = selection[i].1;
            let fabric = primary == LoaderComponentKind::Fabric || primary
                == LoaderComponentKind::LegacyFabric;
            let optifine = selection.contains(
                (LoaderComponentRole::Adjunct, LoaderComponentKind::OptiFine),
            );
            let optifabric = selection.contains(
                (LoaderComponentRole::Adjunct, LoaderComponentKind::OptiFabric),
            );
            let liteloader = selection.contains(
                (LoaderComponentRole::Adjunct, LoaderComponentKind::LiteLoader),
            );
            selection_refusal(selection) is None <==> {
                &&& optifine ==> {
                    ||| primary == LoaderComponentKind::Vanilla
                    ||| primary == LoaderComponentKind::Forge
                    ||| primary == LoaderComponentKind::NeoForge
                    ||| fabric && optifabric
                }
                &&& optifabric ==> optifine && fabric
                &&& liteloader ==> primary == LoaderComponentKind::Vanilla || primary
                    == LoaderComponentKind::Forge
                &&& forall|j: int|
                    0 <= j < selection.len() && (#[trigger] selection[j]).0
                        == LoaderComponentRole::Adjunct ==> {
                        ||| selection[j].1 == LoaderComponentKind::OptiFine
                        ||| selection[j].1 == LoaderComponentKind::OptiFabric
                        ||| selection[j].1 == LoaderComponentKind::LiteLoader
                    }
            }
        }),
{
    law_the_first_primary_counts(selection);
    let kind = primary_kind(selection)->0;
    let p = choose|p: int|
        {
            &&& 0 <= p < selection.len()
            &&& #[trigger] selection[p] == (LoaderComponentRole::Primary, kind)
            &&& forall|j: int|
                0 <= j < p ==> (#[trigger] selection[j]).0 == LoaderComponentRole::Adjunct
        };
    assert(selection[i].0 == LoaderComponentRole::Primary);
    assert(p == i);
}

/// A selection without a primary loader is always refused, and that is what the
/// user is told; what the user is told otherwise is about what is there.
pub proof fn law_selections_are_refused_for_what_they_hold(
    selection: Seq<(LoaderComponentRole, LoaderComponentKind)>,
)
    ensures
        selection_refusal(selection) == Some(Refusal::NoPrimaryLoader) <==> forall|j: int|
            0 <= j < selection.len() ==> (#[trigger] selection[j]).0
                == LoaderComponentRole::Adjunct,
        selection_refusal(selection) matches Some(Refusal::OptiFineUnsupported(kind)) ==> {
            &&& primary_kind(selection) == Some(kind)
            &&& selection.contains((LoaderComponentRole::Adjunct, LoaderComponentKind::OptiFine))
        },
        selection_refusal(selection) matches Some(Refusal::OptiFabricWithoutOptiFine) ==> {
            &&& selection.contains((LoaderComponentRole::Adjunct, LoaderComponentKind::OptiFabric))
            &&& !selection.contains((LoaderComponentRole::Adjunct, LoaderComponentKind::OptiFine))
        },
        selection_refusal(selection) matches Some(Refusal::OptiFabricUnsupported(kind)) ==> {
            &&& primary_kind(selection) == Some(kind)
            &&& selection.contains((LoaderComponentRole::Adjunct, LoaderComponentKind::OptiFabric))
        },
        selection_refusal(selection) matches Some(Refusal::LiteLoaderUnsupported(kind)) ==> {
            &&& primary_kind(selection) == Some(kind)
            &&& selection.contains((LoaderComponentRole::Adjunct, LoaderComponentKind::LiteLoader))
        },
{
    law_the_first_primary_counts(selection);
}

/// A component is refused in a new instance beside a loader, other than the plain
/// game, only if the two do not go together at all; OptiFabric is added where
/// OptiFine needs it.
pub proof fn law_what_goes_together_can_be_created(adjunct: LoaderComponent, loader: ModLoader)
    requires
        loader != ModLoader::Vanilla,
        selection_refusal(full_shape(seq![adjunct], loader)) is None,
    ensures
        pairing_refusal(adjunct.kind, loader) is None,
{
    let adjuncts = seq![adjunct];
    let all = full_shape(adjuncts, loader);
    assert(adjuncts[0].kind == adjunct.kind);
    assert(all[0] == (LoaderComponentRole::Primary, loader.component()));
    assert(all[1] == (LoaderComponentRole::Adjunct, adjunct.kind));
    assert(all.contains(all[1]));
    law_which_components_go_together(all, 0);
}

/// In a new instance OptiFine goes beside Forge, NeoForge, Fabric and
/// LegacyFabric, and LiteLoader beside Forge; beside others they are refused, and
/// the user is told beside which. No other component is refused for the loader.
pub proof fn law_which_components_a_new_instance_can_have(
    kind: LoaderComponentKind,
    loader: ModLoader,
)
    ensures
        pairing_refusal(LoaderComponentKind::OptiFine, ModLoader::Forge) is None,
        pairing_refusal(LoaderComponentKind::OptiFine, ModLoader::NeoForge) is None,
        pairing_refusal(LoaderComponentKind::OptiFine, ModLoader::Fabric) is None,
        pairing_refusal(LoaderComponentKind::OptiFine, ModLoader::LegacyFabric) is None,
        pairing_refusal(LoaderComponentKind::LiteLoader, ModLoader::Forge) is None,
        loader == ModLoader::Vanilla || loader == ModLoader::Quilt || loader == ModLoader::Cleanroom
            || loader == ModLoader::LiteLoader ==> pairing_refusal(
            LoaderComponentKind::OptiFine,
            loader,
        ) == Some(Refusal::OptiFineUnsupported(loader.component())),
        loader != ModLoader::Forge ==> pairing_refusal(LoaderComponentKind::LiteLoader, loader)
            == Some(Refusal::LiteLoaderUnsupported(loader.component())),
        kind != LoaderComponentKind::OptiFine && kind != LoaderComponentKind::LiteLoader
            ==> pairing_refusal(kind, loader) is None,
{
}

/// The components of a new instance are refused for the first of them that does
/// not go beside the loader, and only if there is one.
pub proof fn law_the_first_unfit_component_is_refused(
    adjuncts: Seq<LoaderComponent>,
    loader: ModLoader,
)
    ensures
        match first_pairing_refusal(adjuncts, loader) {
            Some(refusal) => exists|i: int|
                {
                    &&& 0 <= i < adjuncts.len()
                    &&& pairing_refusal((#[trigger] adjuncts[i]).kind, loader) == Some(refusal)
                    &&& forall|j: int|
                        0 <= j < i ==> pairing_refusal((#[trigger] adjuncts[j]).kind, loader)
                            is None
                },
            None => forall|i: int|
                0 <= i < adjuncts.len() ==> pairing_refusal((#[trigger] adjuncts[i]).kind, loader)
                    is None,
        },
    decreases adjuncts.len(),
{
    if adjuncts.len() > 0 {
        if pairing_refusal(adjuncts[0].kind, loader) is Some {
            let refusal = first_pairing_refusal(adjuncts, loader)->0;
            assert(pairing_refusal(adjuncts[0].kind, loader) == Some(refusal));
        } else {
            let rest = adjuncts.drop_first();
            law_the_first_unfit_component_is_refused(rest, loader);
            match first_pairing_refusal(rest, loader) {
                Some(refusal) => {
                    let i = choose|i: int|
                        {
                            &&& 0 <= i < rest.len()
                            &&& pairing_refusal((#[trigger] rest[i]).kind, loader) == Some(refusal)
                            &&& forall|j: int|
                                0 <= j < i ==> pairing_refusal((#[trigger] rest[j]).kind, loader)
                                    is None
                        };
                    assert(adjuncts[i + 1] == rest[i]);
                    assert forall|j: int| 0 <= j < i + 1 implies pairing_refusal(
                        (#[trigger] adjuncts[j]).kind,
                        loader,
                    ) is None by {
                        if j > 0 {
                            assert(rest[j - 1] == adjuncts[j]);
                        }
                    }
                },
                None => {
                    assert forall|i: int| 0 <= i < adjuncts.len() implies pairing_refusal(
                        (#[trigger] adjuncts[i]).kind,
                        loader,
                    ) is None by {
                        if i > 0 {
                            assert(rest[i - 1] == adjuncts[i]);
                        }
                    }
                },
            }
        }
    }
}

proof fn lemma_lookups(
    game_version: String,
    adjuncts: Seq<LoaderComponent>,
    versions: Seq<Option<String>>,
    from: int,
)
    requires
        0 <= from <= adjuncts.len(),
    ensures
        match lookup_refusal(game_version, adjuncts, versions, from) {
            Some(refusal) => exists|i: int|
                {
                    &&& from <= i < adjuncts.len()
                    &&& !(i < versions.len() && versions[i] is Some)
                    &&& (#[trigger] adjuncts[i]).kind == LoaderComponentKind::OptiFine && refusal
                        == Refusal::NoOptiFineVersion(game_version) || adjuncts[i].kind
                        == LoaderComponentKind::LiteLoader && refusal
                        == Refusal::NoLiteLoaderVersion(game_version)
                },
            None => forall|i: int|
                from <= i < adjuncts.len() && ((#[trigger] adjuncts[i]).kind
                    == LoaderComponentKind::OptiFine || adjuncts[i].kind
                    == LoaderComponentKind::LiteLoader) ==> i < versions.len() && versions[i]
                    is Some,
        },
    decreases adjuncts.len() - from,
{
    if from < adjuncts.len() {
        let first = adjuncts[from];
        let missing = answer(versions, from) is None && (first.kind == LoaderComponentKind::OptiFine
            || first.kind == LoaderComponentKind::LiteLoader);
        if missing {
            assert(adjuncts[from].kind == first.kind);
        } else {
            lemma_lookups(game_version, adjuncts, versions, from + 1);
        }
    }
}

/// Every component that a version was asked for has to have one: OptiFine and
/// LiteLoader are refused without, for the version of the game that was asked for.
pub proof fn law_components_without_a_version_are_refused(
    game_version: String,
    adjuncts: Seq<LoaderComponent>,
    versions: Seq<Option<String>>,
)
    ensures
        match lookup_refusal(game_version, adjuncts, versions, 0) {
            Some(refusal) => exists|i: int|
                {
                    &&& 0 <= i < adjuncts.len()
                    &&& !(i < versions.len() && versions[i] is Some)
                    &&& (#[trigger] adjuncts[i]).kind == LoaderComponentKind::OptiFine && refusal
                        == Refusal::NoOptiFineVersion(game_version) || adjuncts[i].kind
                        == LoaderComponentKind::LiteLoader && refusal
                        == Refusal::NoLiteLoaderVersion(game_version)
                },
            None => forall|i: int|
                0 <= i < adjuncts.len() && ((#[trigger] adjuncts[i]).kind
                    == LoaderComponentKind::OptiFine || adjuncts[i].kind
                    == LoaderComponentKind::LiteLoader) ==> i < versions.len() && versions[i]
                    is Some,
        },
{
    lemma_lookups(game_version, adjuncts, versions, 0);
}

/// The first file that can be downloaded and that names the version of the game is
/// taken, and there is none only if no file is such.
pub proof fn law_the_first_fitting_file_is_taken(files: Seq<CurseForgeFile>, game_version: Seq<char>)
    ensures
        match first_serving(files, game_version) {
            Some(id) => exists|i: int|
                {
                    &&& 0 <= i < files.len()
                    &&& (#[trigger] files[i]).id == id
                    &&& files[i].is_available
                    &&& views(files[i].game_versions@).contains(game_version)
                    &&& forall|j: int|
                        0 <= j < i ==> !((#[trigger] files[j]).is_available && views(
                            files[j].game_versions@,
                        ).contains(game_version))
                },
            None => forall|j: int|
                0 <= j < files.len() ==> !((#[trigger] files[j]).is_available && views(
                    files[j].game_versions@,
                ).contains(game_version)),
        },
    decreases files.len(),
{
    if files.len() > 0 {
        if serves(files[0], game_version) {
            assert(files[0].id == first_serving(files, game_version)->0);
        } else {
            let rest = files.drop_first();
            law_the_first_fitting_file_is_taken(rest, game_version);
            match first_serving(rest, game_version) {
                Some(id) => {
                    let i = choose|i: int|
                        {
                            &&& 0 <= i < rest.len()
                            &&& (#[trigger] rest[i]).id == id
                            &&& rest[i].is_available
                            &&& views(rest[i].game_versions@).contains(game_version)
                            &&& forall|j: int|
                                0 <= j < i ==> !((#[trigger] rest[j]).is_available && views(
                                    rest[j].game_versions@,
                                ).contains(game_version))
                        };
                    assert(files[i + 1] == rest[i]);
                    assert forall|j: int| 0 <= j < i + 1 implies !((
                    #[trigger] files[j]).is_available && views(files[j].game_versions@).contains(
                        game_version,
                    )) by {
                        if j > 0 {
                            assert(rest[j - 1] == files[j]);
                        }
                    }
                },
                None => {
                    assert forall|j: int| 0 <= j < files.len() implies !((
                    #[trigger] files[j]).is_available && views(files[j].game_versions@).contains(
                        game_version,
                    )) by {
                        if j > 0 {
                            assert(rest[j - 1] == files[j]);
                        }
                    }
                },
            }
        }
    }
}

/// OptiFabric is added exactly where OptiFine is asked for beside one of the
/// Fabrics and OptiFabric is not.
pub proof fn law_when_optifabric_is_added(adjuncts: Seq<LoaderComponent>, loader: ModLoader)
    ensures
        lacks_optifabric(adjuncts, loader) <==> {
            &&& loader == ModLoader::Fabric || loader == ModLoader::LegacyFabric
            &&& exists|i: int|
                0 <= i < adjuncts.len() && (#[trigger] adjuncts[i]).kind
                    == LoaderComponentKind::OptiFine
            &&& forall|i: int|
                0 <= i < adjuncts.len() ==> (#[trigger] adjuncts[i]).kind
                    != LoaderComponentKind::OptiFabric
        },
{
}

/// What is resolved is what was asked for, component by component: OptiFine and
/// LiteLoader have the version that was found, any other the one it had. An added
/// OptiFabric comes last, with the file that fits as its version, and names the
/// project that it is from.
pub proof fn law_components_are_resolved_as_asked(
    game_version: String,
    loader: ModLoader,
    adjuncts: Seq<LoaderComponent>,
    versions: Seq<Option<String>>,
    files: Seq<CurseForgeFile>,
    resolved: Seq<LoaderComponent>,
)
    requires
        adjuncts_refusal(game_version, loader, adjuncts, versions, files) is None,
        are_resolved(game_version, loader, adjuncts, versions, files, resolved),
    ensures
        resolved.len() == adjuncts.len() || resolved.len() == adjuncts.len() + 1,
        resolved.len() > adjuncts.len() <==> lacks_optifabric(adjuncts, loader),
        forall|i: int|
            0 <= i < adjuncts.len() ==> {
                let after = #[trigger] resolved[i];
                let asked = adjuncts[i];
                &&& after.kind == asked.kind
                &&& after.role == LoaderComponentRole::Adjunct
                &&& after.provider_metadata == asked.provider_metadata
                &&& asked.kind == LoaderComponentKind::OptiFine || asked.kind
                    == LoaderComponentKind::LiteLoader ==> after.version is Some && after.version
                    == versions[i]
                &&& asked.kind != LoaderComponentKind::OptiFine && asked.kind
                    != LoaderComponentKind::LiteLoader ==> after.version == asked.version
            },
        resolved.len() > adjuncts.len() ==> {
            let added = resolved.last();
            &&& added.kind == LoaderComponentKind::OptiFabric
            &&& added.role == LoaderComponentRole::Adjunct
            &&& first_serving(files, game_version@) is Some
            &&& added.version is Some && added.version->0@ == numeral(
                first_serving(files, game_version@)->0 as nat,
            )
            &&& added.provider_metadata is Some && added.provider_metadata->0@
                == "{\"projectId\":322385,\"provider\":\"curseforge\"}"@
        },
{
    law_components_without_a_version_are_refused(game_version, adjuncts, versions);
    assert forall|i: int| 0 <= i < adjuncts.len() implies {
        let after = #[trigger] resolved[i];
        let asked = adjuncts[i];
        &&& after.kind == asked.kind
        &&& after.role == LoaderComponentRole::Adjunct
        &&& after.provider_metadata == asked.provider_metadata
        &&& asked.kind == LoaderComponentKind::OptiFine || asked.kind
            == LoaderComponentKind::LiteLoader ==> after.version is Some && after.version
            == versions[i]
        &&& asked.kind != LoaderComponentKind::OptiFine && asked.kind
            != LoaderComponentKind::LiteLoader ==> after.version == asked.version
    } by {
        assert(is_resolved(adjuncts[i], answer(versions, i), resolved[i]));
    }
}

/// Components are resolved exactly if each goes beside the loader, each that needs
/// a version has one, an OptiFabric that has to be added has a file, and all go
/// together.
pub proof fn law_when_components_are_resolved(
    game_version: String,
    loader: ModLoader,
    adjuncts: Seq<LoaderComponent>,
    versions: Seq<Option<String>>,
    files: Seq<CurseForgeFile>,
)
    ensures
        adjuncts_refusal(game_version, loader, adjuncts, versions, files) is None <==> {
            &&& forall|i: int|
                0 <= i < adjuncts.len() ==> pairing_refusal((#[trigger] adjuncts[i]).kind, loader)
                    is None
            &&& forall|i: int|
                0 <= i < adjuncts.len() && ((#[trigger] adjuncts[i]).kind
                    == LoaderComponentKind::OptiFine || adjuncts[i].kind
                    == LoaderComponentKind::LiteLoader) ==> i < versions.len() && versions[i]
                    is Some
            &&& lacks_optifabric(adjuncts, loader) ==> first_serving(files, game_version@) is Some
            &&& selection_refusal(full_shape(adjuncts, loader)) is None
        },
{
    law_the_first_unfit_component_is_refused(adjuncts, loader);
    law_components_without_a_version_are_refused(game_version, adjuncts, versions);
}

/// A new Forge instance with OptiFine, for which there is a version, is never
/// refused, and neither is one with NeoForge; one with a Fabric is refused only
/// for want of a file of OptiFabric.
pub proof fn law_optifine_can_be_had(
    game_version: String,
    loader: ModLoader,
    adjunct: LoaderComponent,
    version: String,
    files: Seq<CurseForgeFile>,
)
    requires
        adjunct.kind == LoaderComponentKind::OptiFine,
        ({
            ||| loader == ModLoader::Forge
            ||| loader == ModLoader::NeoForge
            ||| loader == ModLoader::Fabric && first_serving(files, game_version@) is Some
            ||| loader == ModLoader::LegacyFabric && first_serving(files, game_version@) is Some
        }),
    ensures
        adjuncts_refusal(game_version, loader, seq![adjunct], seq![Some(version)], files) is None,
{
    let adjuncts = seq![adjunct];
    let all = full_shape(adjuncts, loader);
    assert(adjuncts[0].kind == LoaderComponentKind::OptiFine);
    assert(all[0] == (LoaderComponentRole::Primary, loader.component()));
    assert(all[1] == (LoaderComponentRole::Adjunct, LoaderComponentKind::OptiFine));
    if lacks_optifabric(adjuncts, loader) {
        assert(all[2] == (LoaderComponentRole::Adjunct, LoaderComponentKind::OptiFabric));
        assert(all.contains(all[2]));
    }
    law_which_components_go_together(all, 0);
    assert forall|i: int| 0 <= i < adjuncts.len() implies pairing_refusal(
        (#[trigger] adjuncts[i]).kind,
        loader,
    ) is None by {}
    law_when_components_are_resolved(game_version, loader, adjuncts, seq![Some(version)], files);
}

/// An installed OptiFabric is the file that was asked for, of the project of
/// OptiFabric and not as a dependency, with nothing left to download and nothing
/// failed.
pub proof fn law_when_optifabric_is_installed(result: CurseForgeInstallResult, file_id: u32)
    ensures
        optifabric_failure(result, file_id) is None <==> {
            &&& result.manual_downloads@.len() == 0
            &&& result.failed_downloads@.len() == 0
            &&& exists|i: int|
                {
                    &&& 0 <= i < result.installed@.len()
                    &&& (#[trigger] result.installed@[i]).file_id == file_id
                    &&& result.installed@[i].project_id == 322385
                    &&& !result.installed@[i].dependency
                }
        },
        result.manual_downloads@.len() > 0 ==> optifabric_failure(result, file_id) == Some(
            Refusal::OptiFabricManualDownload,
        ),
        result.manual_downloads@.len() == 0 && result.failed_downloads@.len() > 0
            ==> optifabric_failure(result, file_id) == Some(
            Refusal::OptiFabricFailed(result.failed_downloads@[0].reason),
        ),
{
    if exists|i: int|
        {
            &&& 0 <= i < result.installed@.len()
            &&& (#[trigger] result.installed@[i]).file_id == file_id
            &&& result.installed@[i].project_id == 322385
            &&& !result.installed@[i].dependency
        } {
        let i = choose|i: int|
            {
                &&& 0 <= i < result.installed@.len()
                &&& (#[trigger] result.installed@[i]).file_id == file_id
                &&& result.installed@[i].project_id == 322385
                &&& !result.installed@[i].dependency
            };
        assert(is_asked_optifabric(result.installed@[i], file_id));
    }
    if optifabric_failure(result, file_id) is None {
        let i = choose|i: int|
            0 <= i < result.installed@.len() && is_asked_optifabric(
                #[trigger] result.installed@[i],
                file_id,
            );
        assert(result.installed@[i].file_id == file_id);
    }
}

/// The version of a component is set at the first of its kind, and nothing else of
/// it or of the others changes.
pub proof fn law_versions_are_set_at_the_first_of_a_kind(
    components: Seq<LoaderComponent>,
    kind: LoaderComponentKind,
    version: String,
    i: int,
)
    requires
        0 <= i < components.len(),
        components[i].kind == kind,
        forall|j: int| 0 <= j < i ==> (#[trigger] components[j]).kind != kind,
    ensures
        with_version(components, kind, version) == components.update(
            i,
            LoaderComponent { version: Some(version), ..components[i] },
        ),
{
    lemma_first_of_kind(components, kind, i);
}

proof fn lemma_kind_at_first(components: Seq<LoaderComponent>, kind: LoaderComponentKind)
    ensures
        0 <= first_of_kind(components, kind) <= components.len(),
        first_of_kind(components, kind) < components.len() ==> components[first_of_kind(
            components,
            kind,
        )].kind == kind,
    decreases components.len(),
{
    if components.len() > 0 && components[0].kind != kind {
        lemma_kind_at_first(components.drop_first(), kind);
    }
}

/// Once several versions are set, a component that is the first of its kind has
/// the last version that was set for the kind, and is otherwise as it was.
pub proof fn law_the_last_installed_version_stays(
    components: Seq<LoaderComponent>,
    installed: Seq<(LoaderComponentKind, String)>,
    i: int,
    k: int,
)
    requires
        0 <= i < components.len(),
        forall|j: int|
            0 <= j < i ==> (#[trigger] components[j]).kind != components[i].kind,
        0 <= k < installed.len(),
        installed[k].0 == components[i].kind,
        forall|j: int|
            k < j < installed.len() ==> (#[trigger] installed[j]).0 != components[i].kind,
    ensures
        with_versions(components, installed).len() == components.len(),
        with_versions(components, installed)[i] == (LoaderComponent {
            version: Some(installed[k].1),
            ..components[i]
        }),
    decreases installed.len(),
{
    let init = installed.drop_last();
    let before = with_versions(components, init);
    lemma_versions_keep_the_rest(components, init);
    let last = installed.last();
    assert(installed[installed.len() - 1] == last);
    assert forall|j: int| 0 <= j < i implies (#[trigger] before[j]).kind != before[i].kind by {
        assert(components[j].kind != components[i].kind);
    }
    if k == installed.len() - 1 {
        lemma_first_of_kind(before, last.0, i);
    } else {
        assert(init[k] == installed[k]);
        assert forall|j: int| k < j < init.len() implies (#[trigger] init[j]).0
            != components[i].kind by {
            assert(init[j] == installed[j]);
        }
        law_the_last_installed_version_stays(components, init, i, k);
        law_set_version_touches_one_component(before, last.0, last.1);
        lemma_kind_at_first(before, last.0);
    }
}

proof fn lemma_versions_keep_the_rest(
    components: Seq<LoaderComponent>,
    installed: Seq<(LoaderComponentKind, String)>,
)
    ensures
        with_versions(components, installed).len() == components.len(),
        forall|i: int|
            0 <= i < components.len() ==> {
                let after = #[trigger] with_versions(components, installed)[i];
                &&& after == (LoaderComponent { version: after.version, ..components[i] })
            },
    decreases installed.len(),
{
    if installed.len() > 0 {
        let before = with_versions(components, installed.drop_last());
        lemma_versions_keep_the_rest(components, installed.drop_last());
        law_set_version_touches_one_component(before, installed.last().0, installed.last().1);
        assert forall|i: int| 0 <= i < components.len() implies {
            let after = #[trigger] with_versions(components, installed)[i];
            &&& after == (LoaderComponent { version: after.version, ..components[i] })
        } by {
            assert(before[i] == (LoaderComponent { version: before[i].version, ..components[i] }));
        }
    }
}

} // verus!

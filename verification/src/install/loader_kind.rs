//! The mod loaders, and the components that a loader selection is made of.
use vstd::prelude::*;

verus! {

/// A mod loader that an instance can run.
#[derive(Clone, Copy, Debug, PartialEq, Eq, Structural)]
pub enum ModLoader {
    Vanilla,
    Forge,
    NeoForge,
    Fabric,
    LegacyFabric,
    Quilt,
    Cleanroom,
    LiteLoader,
}

/// A component of a loader selection.
#[derive(Clone, Copy, Debug, PartialEq, Eq, Structural)]
pub enum LoaderComponentKind {
    Vanilla,
    Forge,
    NeoForge,
    Fabric,
    LegacyFabric,
    Quilt,
    Cleanroom,
    LiteLoader,
    OptiFine,
    OptiFabric,
}

/// Whether a component is the loader itself or stands beside it.
#[derive(Clone, Copy, Debug, PartialEq, Eq, Structural)]
pub enum LoaderComponentRole {
    Primary,
    Adjunct,
}

impl ModLoader {
    /// The component that this loader is when it is the primary one.
    pub open spec fn component(self) -> LoaderComponentKind {
        match self {
            ModLoader::Vanilla => LoaderComponentKind::Vanilla,
            ModLoader::Forge => LoaderComponentKind::Forge,
            ModLoader::NeoForge => LoaderComponentKind::NeoForge,
            ModLoader::Fabric => LoaderComponentKind::Fabric,
            ModLoader::LegacyFabric => LoaderComponentKind::LegacyFabric,
            ModLoader::Quilt => LoaderComponentKind::Quilt,
            ModLoader::Cleanroom => LoaderComponentKind::Cleanroom,
            ModLoader::LiteLoader => LoaderComponentKind::LiteLoader,
        }
    }

    /// The component that this loader is when it is the primary one.
    pub fn component_kind(self) -> (r: LoaderComponentKind)
        ensures
            r == self.component(),
    {
        match self {
            ModLoader::Vanilla => LoaderComponentKind::Vanilla,
            ModLoader::Forge => LoaderComponentKind::Forge,
            ModLoader::NeoForge => LoaderComponentKind::NeoForge,
            ModLoader::Fabric => LoaderComponentKind::Fabric,
            ModLoader::LegacyFabric => LoaderComponentKind::LegacyFabric,
            ModLoader::Quilt => LoaderComponentKind::Quilt,
            ModLoader::Cleanroom => LoaderComponentKind::Cleanroom,
            ModLoader::LiteLoader => LoaderComponentKind::LiteLoader,
        }
    }

    /// The name of the loader.
    pub fn as_str(self) -> (r: &'static str)
        ensures
            r@ == self.component().label(),
    {
        self.component_kind().as_str()
    }
}

impl LoaderComponentKind {
    /// The name of the component.
    pub open spec fn label(self) -> Seq<char> {
        match self {
            LoaderComponentKind::Vanilla => "vanilla"@,
            LoaderComponentKind::Forge => "forge"@,
            LoaderComponentKind::NeoForge => "neoforge"@,
            LoaderComponentKind::Fabric => "fabric"@,
            LoaderComponentKind::LegacyFabric => "legacy-fabric"@,
            LoaderComponentKind::Quilt => "quilt"@,
            LoaderComponentKind::Cleanroom => "cleanroom"@,
            LoaderComponentKind::LiteLoader => "liteloader"@,
            LoaderComponentKind::OptiFine => "optifine"@,
            LoaderComponentKind::OptiFabric => "optifabric"@,
        }
    }

    /// The name of the component.
    pub fn as_str(self) -> (r: &'static str)
        ensures
            r@ == self.label(),
    {
        match self {
            LoaderComponentKind::Vanilla => "vanilla",
            LoaderComponentKind::Forge => "forge",
            LoaderComponentKind::NeoForge => "neoforge",
            LoaderComponentKind::Fabric => "fabric",
            LoaderComponentKind::LegacyFabric => "legacy-fabric",
            LoaderComponentKind::Quilt => "quilt",
            LoaderComponentKind::Cleanroom => "cleanroom",
            LoaderComponentKind::LiteLoader => "liteloader",
            LoaderComponentKind::OptiFine => "optifine",
            LoaderComponentKind::OptiFabric => "optifabric",
        }
    }
}

/// A loader and the component that it is have one name; no two loaders share one.
pub proof fn law_loaders_have_names_of_their_own(a: ModLoader, b: ModLoader)
    ensures
        a != b ==> a.component() != b.component(),
        a != b ==> a.component().label() != b.component().label(),
        ModLoader::Vanilla.component().label() == "vanilla"@,
        ModLoader::Forge.component().label() == "forge"@,
        ModLoader::NeoForge.component().label() == "neoforge"@,
        ModLoader::Fabric.component().label() == "fabric"@,
        ModLoader::LegacyFabric.component().label() == "legacy-fabric"@,
        ModLoader::Quilt.component().label() == "quilt"@,
        ModLoader::Cleanroom.component().label() == "cleanroom"@,
        ModLoader::LiteLoader.component().label() == "liteloader"@,
{
    reveal_strlit("vanilla");
    reveal_strlit("forge");
    reveal_strlit("neoforge");
    reveal_strlit("fabric");
    reveal_strlit("legacy-fabric");
    reveal_strlit("quilt");
    reveal_strlit("cleanroom");
    reveal_strlit("liteloader");
    assert("vanilla"@[0] == 'v' && "forge"@[0] == 'f' && "forge"@[1] == 'o' && "neoforge"@[0] == 'n'
        && "fabric"@[0] == 'f' && "fabric"@[1] == 'a' && "legacy-fabric"@[0] == 'l'
        && "legacy-fabric"@[1] == 'e' && "quilt"@[0] == 'q' && "cleanroom"@[0] == 'c'
        && "liteloader"@[0] == 'l' && "liteloader"@[1] == 'i');
}

/// No two components share a name.
pub proof fn law_components_have_names_of_their_own(
    a: LoaderComponentKind,
    b: LoaderComponentKind,
)
    requires
        a.label() == b.label(),
    ensures
        a == b,
{
    reveal_strlit("vanilla");
    reveal_strlit("forge");
    reveal_strlit("neoforge");
    reveal_strlit("fabric");
    reveal_strlit("legacy-fabric");
    reveal_strlit("quilt");
    reveal_strlit("cleanroom");
    reveal_strlit("liteloader");
    reveal_strlit("optifine");
    reveal_strlit("optifabric");
    assert("vanilla"@[0] == 'v' && "forge"@[0] == 'f' && "forge"@[1] == 'o' && "neoforge"@[0] == 'n'
        && "fabric"@[0] == 'f' && "fabric"@[1] == 'a' && "legacy-fabric"@[0] == 'l'
        && "legacy-fabric"@[1] == 'e' && "quilt"@[0] == 'q' && "cleanroom"@[0] == 'c'
        && "liteloader"@[0] == 'l' && "liteloader"@[1] == 'i' && "optifine"@[0] == 'o'
        && "optifine"@.len() == 8 && "optifabric"@[0] == 'o' && "optifabric"@.len() == 10);
}

} // verus!

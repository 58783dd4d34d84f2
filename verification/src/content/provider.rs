//! The providers that files come from.
use vstd::prelude::*;

verus! {

/// Where a file was installed from.
#[derive(Clone, Copy, Debug, PartialEq, Eq, Structural)]
pub enum ContentProvider {
    Modrinth,
    CurseForge,
    McArchive,
    Local,
}

/// What a provider knows a file as.
#[derive(Clone, Debug, PartialEq, Eq)]
pub enum ContentProviderRef {
    Modrinth { project_id: String, version_id: Option<String> },
    CurseForge { project_id: u32, file_id: Option<u32> },
    McArchive { project_id: String },
}

/// The version that the first reference to a version at Modrinth names.
pub open spec fn modrinth_version(refs: Seq<ContentProviderRef>) -> Option<String>
    decreases refs.len(),
{
    if refs.len() == 0 {
        None
    } else {
        match refs[0] {
            ContentProviderRef::Modrinth { project_id: _, version_id: Some(version) } => Some(
                version,
            ),
            _ => modrinth_version(refs.drop_first()),
        }
    }
}

/// Whether `reference` names a version at Modrinth.
pub open spec fn names_version(reference: ContentProviderRef) -> bool {
    reference matches ContentProviderRef::Modrinth { project_id: _, version_id: Some(_) }
}

proof fn lemma_modrinth_version(refs: Seq<ContentProviderRef>, n: int)
    requires
        0 <= n <= refs.len(),
        forall|j: int| 0 <= j < n ==> !names_version(#[trigger] refs[j]),
        n < refs.len() ==> names_version(refs[n]),
    ensures
        modrinth_version(refs) == if n < refs.len() {
            refs[n]->Modrinth_version_id
        } else {
            None
        },
    decreases refs.len(),
{
    if refs.len() > 0 && n > 0 {
        assert(!names_version(refs[0]));
        let rest = refs.drop_first();
        assert forall|j: int| 0 <= j < n - 1 implies !names_version(#[trigger] rest[j]) by {
            assert(rest[j] == refs[j + 1]);
        }
        lemma_modrinth_version(rest, n - 1);
    }
}

/// The version at Modrinth that a file was installed from.
pub fn installed_modrinth_version_id(provider_refs: &Vec<ContentProviderRef>) -> (r: Option<String>)
    ensures
        r == modrinth_version(provider_refs@),
{
    let mut i: usize = 0;
    while i < provider_refs.len()
        invariant
            i <= provider_refs@.len(),
            forall|j: int| 0 <= j < i ==> !names_version(#[trigger] provider_refs@[j]),
        decreases provider_refs@.len() - i,
    {
        if let ContentProviderRef::Modrinth { project_id: _, version_id: Some(version) } =
            &provider_refs[i] {
            proof {
                lemma_modrinth_version(provider_refs@, i as int);
            }
            return Some(version.clone());
        }
        i = i + 1;
    }
    proof {
        lemma_modrinth_version(provider_refs@, i as int);
    }
    None
}

/// Whether one of `refs` ties a file to CurseForge.
pub open spec fn tied_to_curseforge(refs: Seq<ContentProviderRef>) -> bool {
    exists|i: int| 0 <= i < refs.len() && #[trigger] refs[i] is CurseForge
}

/// Whether a file may be offered updates from Modrinth. One that was installed
/// from Modrinth always may; one without an origin may unless a reference ties
/// it to CurseForge; any other origin rules it out.
pub fn modrinth_update_enabled(
    origin_provider: Option<ContentProvider>,
    provider_refs: &Vec<ContentProviderRef>,
) -> (r: bool)
    ensures
        r == match origin_provider {
            Some(ContentProvider::Modrinth) => true,
            Some(_) => false,
            None => !tied_to_curseforge(provider_refs@),
        },
{
    match origin_provider {
        Some(ContentProvider::Modrinth) => true,
        Some(_) => false,
        None => {
            let mut i: usize = 0;
            while i < provider_refs.len()
                invariant
                    i <= provider_refs@.len(),
                    forall|j: int| 0 <= j < i ==> !(#[trigger] provider_refs@[j] is CurseForge),
                    origin_provider is None,
                decreases provider_refs@.len() - i,
            {
                if let ContentProviderRef::CurseForge { .. } = &provider_refs[i] {
                    return false;
                }
                i = i + 1;
            }
            true
        },
    }
}

/// The version that a file was installed as is the first that a reference to Modrinth
/// names.
pub proof fn law_the_first_named_version_counts(refs: Seq<ContentProviderRef>)
    ensures
        modrinth_version(refs) is None <==> forall|i: int|
            0 <= i < refs.len() ==> !((#[trigger] refs[i]) is Modrinth
                && refs[i]->Modrinth_version_id is Some),
        modrinth_version(refs) is Some ==> exists|i: int|
            {
                &&& 0 <= i < refs.len()
                &&& (#[trigger] refs[i]) is Modrinth
                &&& refs[i]->Modrinth_version_id == modrinth_version(refs)
                &&& forall|j: int|
                    0 <= j < i ==> !((#[trigger] refs[j]) is Modrinth
                        && refs[j]->Modrinth_version_id is Some)
            },
    decreases refs.len(),
{
    if refs.len() > 0 {
        if refs[0] is Modrinth && refs[0]->Modrinth_version_id is Some {
            assert(refs[0]->Modrinth_version_id == modrinth_version(refs));
        } else {
            let rest = refs.drop_first();
            law_the_first_named_version_counts(rest);
            if modrinth_version(rest) is None {
                assert forall|i: int| 0 <= i < refs.len() implies !((#[trigger] refs[i]) is Modrinth
                    && refs[i]->Modrinth_version_id is Some) by {
                    if i > 0 {
                        assert(rest[i - 1] == refs[i]);
                    }
                }
            } else {
                let i = choose|i: int|
                    {
                        &&& 0 <= i < rest.len()
                        &&& (#[trigger] rest[i]) is Modrinth
                        &&& rest[i]->Modrinth_version_id == modrinth_version(rest)
                        &&& forall|j: int|
                            0 <= j < i ==> !((#[trigger] rest[j]) is Modrinth
                                && rest[j]->Modrinth_version_id is Some)
                    };
                assert(refs[i + 1] == rest[i]);
                assert forall|j: int| 0 <= j < i + 1 implies !((#[trigger] refs[j]) is Modrinth
                    && refs[j]->Modrinth_version_id is Some) by {
                    if j > 0 {
                        assert(rest[j - 1] == refs[j]);
                    }
                }
            }
        }
    }
}

/// A file is tied to CurseForge exactly if one of its references leads there.
pub proof fn law_what_ties_to_curseforge(refs: Seq<ContentProviderRef>, more: ContentProviderRef)
    ensures
        !tied_to_curseforge(seq![]),
        tied_to_curseforge(refs.push(more)) <==> tied_to_curseforge(refs) || more is CurseForge,
{
    let all = refs.push(more);
    assert(all[refs.len() as int] == more);
    if tied_to_curseforge(refs) {
        let i = choose|i: int| 0 <= i < refs.len() && #[trigger] refs[i] is CurseForge;
        assert(all[i] == refs[i]);
    }
    if tied_to_curseforge(all) && !(more is CurseForge) {
        let i = choose|i: int| 0 <= i < all.len() && #[trigger] all[i] is CurseForge;
        assert(refs[i] == all[i]);
    }
}

} // verus!

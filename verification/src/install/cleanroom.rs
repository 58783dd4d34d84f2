//! The installation of Cleanroom: what is downloaded for it, and what its
//! installer holds.
use vstd::prelude::*;

use crate::error::Refusal;
use crate::paths::{
    components, has_root, head, is_separator, path_components, path_front, prefix_len, separates,
};
use crate::text::{
    chars_of, concat2, contains_char, ends_with, starts_with, str_eq, string_of, views,
};

use super::archive::{
    archive_bytes, archive_error, archive_size, entry_contents, entry_count, entry_index,
    entry_name, find_entry, open_archive, open_entry, read_entry,
};

verus! {

pub const FUGUE_URL: &'static str =
    "https://github.com/CleanroomMC/Fugue/releases/download/0.23.8/%2BFugue-0.23.8-dev.jar";

pub const SCALAR_URL: &'static str =
    "https://github.com/CleanroomMC/Scalar/releases/download/2.11.1/scalar-1.12.2-2.11.1.jar";

pub const CLEANROOM_GITHUB_API: &'static str =
    "https://api.github.com/repos/CleanroomMC/Cleanroom/releases/latest";

pub const CLEANROOM_GITHUB_MIRROR: &'static str = "https://ghfast.top/";

/// What a download is part of.
#[derive(Clone, Copy, Debug, PartialEq, Eq, Structural)]
pub enum ResourceClass {
    Other,
}

/// A file to be downloaded: where from first, and where from else.
#[derive(Clone, Debug, PartialEq, Eq)]
pub struct DownloadRequest {
    pub url: String,
    pub class: ResourceClass,
    pub candidate_urls: Vec<String>,
}

/// The download of `url`: through the mirror first, and directly else.
pub fn cleanroom_download_request(url: &str) -> (r: DownloadRequest)
    ensures
        r.url@ == CLEANROOM_GITHUB_MIRROR@ + url@,
        r.url@ == "https://ghfast.top/"@ + url@,
        r.class == ResourceClass::Other,
        views(r.candidate_urls@) == seq![url@],
{
    let mut candidate_urls: Vec<String> = Vec::new();
    candidate_urls.push(url.to_owned());
    assert(views(candidate_urls@) =~= seq![url@]);
    DownloadRequest {
        url: concat2(CLEANROOM_GITHUB_MIRROR, url),
        class: ResourceClass::Other,
        candidate_urls,
    }
}

/// A file of a release.
#[derive(Clone, Debug, PartialEq, Eq)]
pub struct ReleaseAsset {
    pub name: String,
    pub browser_download_url: String,
}

/// Whether a file of a release is the installer.
pub open spec fn is_installer(asset: ReleaseAsset) -> bool {
    "-installer.jar"@.is_suffix_of(asset.name@)
}

/// The index of the first installer, or the number of files.
pub open spec fn first_installer(assets: Seq<ReleaseAsset>) -> int
    decreases assets.len(),
{
    if assets.len() == 0 || is_installer(assets[0]) {
        0
    } else {
        1 + first_installer(assets.drop_first())
    }
}

proof fn lemma_first_installer(assets: Seq<ReleaseAsset>, n: int)
    requires
        0 <= n <= assets.len(),
        forall|j: int| 0 <= j < n ==> !is_installer(#[trigger] assets[j]),
        n < assets.len() ==> is_installer(assets[n]),
    ensures
        first_installer(assets) == n,
    decreases assets.len(),
{
    if assets.len() > 0 && n > 0 {
        assert(!is_installer(assets[0]));
        let rest = assets.drop_first();
        assert forall|j: int| 0 <= j < n - 1 implies !is_installer(#[trigger] rest[j]) by {
            assert(rest[j] == assets[j + 1]);
        }
        lemma_first_installer(rest, n - 1);
    }
}

/// Where the first installer of a release is downloaded from.
pub fn installer_url(assets: &Vec<ReleaseAsset>) -> (r: Result<String, Refusal>)
    ensures
        ({
            let i = first_installer(assets@);
            r == if 0 <= i < assets@.len() {
                Ok::<String, Refusal>(assets@[i].browser_download_url)
            } else {
                Err(Refusal::NoCleanroomInstaller)
            }
        }),
{
    let mut i: usize = 0;
    while i < assets.len()
        invariant
            i <= assets@.len(),
            forall|j: int| 0 <= j < i ==> !is_installer(#[trigger] assets@[j]),
        decreases assets@.len() - i,
    {
        if ends_with(assets[i].name.as_str(), "-installer.jar") {
            proof {
                lemma_first_installer(assets@, i as int);
            }
            return Ok(assets[i].browser_download_url.clone());
        }
        i = i + 1;
    }
    proof {
        lemma_first_installer(assets@, i as int);
    }
    Err(Refusal::NoCleanroomInstaller)
}

/// The mods that every instance with Cleanroom gets: where each is downloaded
/// from, and the name of its file.
pub fn cleanroom_mods() -> (r: Vec<(&'static str, &'static str)>)
    ensures
        r@.len() == 2,
        r@[0].0@ == FUGUE_URL@,
        r@[0].0@
            == "https://github.com/CleanroomMC/Fugue/releases/download/0.23.8/%2BFugue-0.23.8-dev.jar"@,
        r@[0].1@ == "+Fugue-0.23.8-dev.jar"@,
        r@[1].0@ == SCALAR_URL@,
        r@[1].0@
            == "https://github.com/CleanroomMC/Scalar/releases/download/2.11.1/scalar-1.12.2-2.11.1.jar"@,
        r@[1].1@ == "scalar-1.12.2-2.11.1.jar"@,
{
    let mut mods: Vec<(&'static str, &'static str)> = Vec::new();
    mods.push((FUGUE_URL, "+Fugue-0.23.8-dev.jar"));
    mods.push((SCALAR_URL, "scalar-1.12.2-2.11.1.jar"));
    mods
}

/// The installer of Cleanroom, opened.
pub struct Installer {
    archive: zip::ZipArchive<std::io::Cursor<Vec<u8>>>,
}

/// How deep components that are neither a prefix nor a root lead, as long as they
/// never leave where they start.
pub open spec fn depth_of(parts: Seq<Seq<char>>) -> Option<nat>
    decreases parts.len(),
{
    if parts.len() == 0 {
        Some(0)
    } else {
        let last = parts.last();
        match depth_of(parts.drop_last()) {
            None => None,
            Some(depth) => if last == seq!['.', '.'] {
                if depth == 0 {
                    None
                } else {
                    Some((depth - 1) as nat)
                }
            } else if last == seq!['.'] {
                Some(depth)
            } else {
                Some(depth + 1)
            },
        }
    }
}

/// Whether the name of an entry is a path that stays inside the archive. On
/// Windows a drive leads out of it, and `\` separates components, too.
pub open spec fn is_enclosed(name: Seq<char>, windows: bool) -> bool {
    &&& !name.contains('\0')
    &&& head(name, windows).len() == 0
    &&& depth_of(components(name, windows)) is Some
}

/// Whether the name of an entry is that of a folder.
pub open spec fn names_folder(name: Seq<char>) -> bool {
    name.len() > 0 && (name.last() == '/' || name.last() == '\\')
}

/// Whether an entry lies in the folder of the libraries.
pub open spec fn is_in_maven(name: Seq<char>, windows: bool) -> bool {
    "maven"@.is_prefix_of(name) && (name.len() == 5 || is_separator(name[5], windows))
}

/// A path without the separators and the `.` pieces at its front.
pub open spec fn front_trimmed(path: Seq<char>, windows: bool) -> Seq<char>
    decreases path.len(),
{
    if path.len() > 0 && (is_separator(path[0], windows) || path[0] == '.' && (path.len() == 1
        || is_separator(path[1], windows))) {
        front_trimmed(path.skip(1), windows)
    } else {
        path
    }
}

/// A path without the separators and the `.` pieces at its end.
pub open spec fn end_trimmed(path: Seq<char>, windows: bool) -> Seq<char>
    decreases path.len(),
{
    if path.len() > 0 && (is_separator(path.last(), windows) || path.last() == '.' && (path.len()
        == 1 || is_separator(path[path.len() - 2], windows))) {
        end_trimmed(path.drop_last(), windows)
    } else {
        path
    }
}

/// The path of the library that an entry holds, if it holds one: its name from
/// below the folder of the libraries on.
pub open spec fn library_path(name: Seq<char>, windows: bool) -> Option<Seq<char>> {
    if is_enclosed(name, windows) && is_in_maven(name, windows) && !names_folder(name) {
        Some(end_trimmed(front_trimmed(name.skip(5), windows), windows))
    } else {
        None
    }
}

fn stays_inside(parts: &Vec<String>) -> (r: bool)
    ensures
        r == depth_of(views(parts@)) is Some,
{
    proof {
        reveal_strlit(".");
        reveal_strlit("..");
        assert("."@ =~= seq!['.']);
        assert(".."@ =~= seq!['.', '.']);
    }
    let ghost all = views(parts@);
    let mut depth: usize = 0;
    let mut i: usize = 0;
    while i < parts.len()
        invariant
            i <= parts@.len(),
            all == views(parts@),
            depth <= i,
            depth_of(all.take(i as int)) == Some(depth as nat),
            "."@ == seq!['.'],
            ".."@ == seq!['.', '.'],
        decreases parts@.len() - i,
    {
        let part = parts[i].as_str();
        proof {
            let longer = all.take(i + 1);
            assert(longer.drop_last() =~= all.take(i as int));
            assert(longer.last() == parts@[i as int]@);
        }
        if str_eq(part, "..") {
            if depth == 0 {
                proof {
                    lemma_depth_stays_none(all, i + 1);
                }
                return false;
            }
            depth = depth - 1;
        } else if !str_eq(part, ".") {
            depth = depth + 1;
        }
        i = i + 1;
    }
    assert(all.take(i as int) =~= all);
    true
}

proof fn lemma_depth_stays_none(parts: Seq<Seq<char>>, n: int)
    requires
        0 <= n <= parts.len(),
        depth_of(parts.take(n)) is None,
    ensures
        depth_of(parts) is None,
    decreases parts.len() - n,
{
    if n == parts.len() {
        assert(parts.take(n) =~= parts);
    } else {
        let longer = parts.take(n + 1);
        assert(longer.drop_last() =~= parts.take(n));
        lemma_depth_stays_none(parts, n + 1);
    }
}

fn ends_like_folder(name: &str) -> (r: bool)
    ensures
        r == names_folder(name@),
{
    proof {
        reveal_strlit("/");
        reveal_strlit("\\");
        assert("/"@ =~= seq!['/']);
        assert("\\"@ =~= seq!['\\']);
        if name@.len() > 0 {
            let end = name@.subrange(name@.len() - 1, name@.len() as int);
            assert(end =~= seq![name@.last()]);
            assert("/"@[0] == '/' && "\\"@[0] == '\\' && end[0] == name@.last());
        }
    }
    ends_with(name, "/") || ends_with(name, "\\")
}

/// The part of `text` from `from` on, trimmed at both ends.
fn trimmed_from(text: &Vec<char>, from: usize, windows: bool) -> (r: String)
    requires
        from <= text@.len(),
    ensures
        r@ == end_trimmed(front_trimmed(text@.skip(from as int), windows), windows),
{
    let ghost whole = text@.skip(from as int);
    let mut i: usize = from;
    while i < text.len() && (separates(text[i], windows) || text[i] == '.' && (i + 1 == text.len()
        || separates(text[i + 1], windows)))
        invariant
            from <= i <= text@.len(),
            front_trimmed(whole, windows) == front_trimmed(text@.skip(i as int), windows),
        decreases text@.len() - i,
    {
        assert(text@.skip(i as int).skip(1) =~= text@.skip(i + 1));
        i = i + 1;
    }
    let ghost rest = text@.skip(i as int);
    assert(front_trimmed(whole, windows) == rest);
    let mut end: usize = text.len();
    assert(text@.subrange(i as int, end as int) =~= rest);
    while i < end && (separates(text[end - 1], windows) || text[end - 1] == '.' && (end - 1 == i
        || separates(text[end - 2], windows)))
        invariant
            i <= end <= text@.len(),
            end_trimmed(rest, windows) == end_trimmed(
                text@.subrange(i as int, end as int),
                windows,
            ),
        decreases end,
    {
        assert(text@.subrange(i as int, end as int).drop_last() =~= text@.subrange(
            i as int,
            end - 1,
        ));
        end = end - 1;
    }
    string_of(text, i, end)
}

/// The path of the library that the entry `name` holds, if it holds one.
pub fn path_of_library(name: &str, windows: bool) -> (r: Option<String>)
    ensures
        match r {
            Some(path) => library_path(name@, windows) == Some(path@),
            None => library_path(name@, windows) is None,
        },
{
    if contains_char(name, '\0') || ends_like_folder(name) {
        return None;
    }
    let (_, front) = path_front(name, windows);
    let parts = path_components(name, windows);
    if front > 0 || !stays_inside(&parts) {
        return None;
    }
    let text = chars_of(name);
    proof {
        reveal_strlit("maven");
        assert("maven"@.len() == 5);
    }
    if !starts_with(name, "maven") || text.len() > 5 && !separates(text[5], windows) {
        return None;
    }
    Some(trimmed_from(&text, 5, windows))
}

/// A library of the installer, with its path as a text.
pub open spec fn library_view(library: (String, Vec<u8>)) -> (Seq<char>, Seq<u8>) {
    (library.0@, library.1@)
}

/// The libraries of the installer, with their paths as texts.
pub open spec fn library_views(libraries: Seq<(String, Vec<u8>)>) -> Seq<(Seq<char>, Seq<u8>)> {
    libraries.map_values(|l: (String, Vec<u8>)| library_view(l))
}

/// Whether the first `n` entries of an archive can be opened, and those that hold
/// libraries read.
pub open spec fn readable(bytes: Seq<u8>, n: nat, windows: bool) -> bool {
    forall|i: nat|
        i < n ==> {
            &&& #[trigger] entry_name(bytes, i) is Ok
            &&& library_path(entry_name(bytes, i)->Ok_0, windows) is Some ==> entry_contents(
                bytes,
                i,
            ) is Ok
        }
}

/// The libraries among the first `n` entries of an archive, in their order.
pub open spec fn libraries_in(bytes: Seq<u8>, n: nat, windows: bool) -> Seq<(Seq<char>, Seq<u8>)>
    decreases n,
{
    if n == 0 {
        seq![]
    } else {
        let i = (n - 1) as nat;
        let before = libraries_in(bytes, i, windows);
        match library_path(entry_name(bytes, i)->Ok_0, windows) {
            Some(path) => before.push((path, entry_contents(bytes, i)->Ok_0)),
            None => before,
        }
    }
}

/// Whether `refusal` is for the first entry that cannot be opened or read.
pub open spec fn is_entry_refusal(
    bytes: Seq<u8>,
    size: nat,
    refusal: Refusal,
    windows: bool,
) -> bool {
    exists|i: nat|
        {
            &&& i < size
            &&& #[trigger] readable(bytes, i, windows)
            &&& match entry_name(bytes, i) {
                Err(error) => refusal matches Refusal::InstallerNotRead(text) && text@ == error,
                Ok(name) => {
                    &&& library_path(name, windows) is Some
                    &&& entry_contents(bytes, i) is Err
                    &&& refusal matches Refusal::InstallerEntryNotRead(text)
                    &&& text@ == entry_contents(bytes, i)->Err_0
                },
            }
        }
}

impl Installer {
    /// The bytes that the installer was opened on.
    pub closed spec fn bytes(&self) -> Seq<u8> {
        archive_bytes(self.archive)
    }

    /// Opens the installer.
    pub fn open(installer: Vec<u8>) -> (r: Result<Installer, Refusal>)
        ensures
            match r {
                Ok(opened) => archive_error(installer@) is None && opened.bytes() == installer@,
                Err(refusal) => {
                    &&& archive_error(installer@) is Some
                    &&& refusal matches Refusal::InstallerNotOpened(text)
                    &&& text@ == archive_error(installer@)->0
                },
            },
    {
        match open_archive(installer) {
            Ok(archive) => Ok(Installer { archive }),
            Err(error) => Err(Refusal::InstallerNotOpened(error)),
        }
    }

    /// What the entry of this name holds.
    pub fn read(&mut self, name: &String) -> (r: Result<Vec<u8>, Refusal>)
        ensures
            final(self).bytes() == old(self).bytes(),
            ({
                let bytes = old(self).bytes();
                match entry_index(bytes, name@) {
                    None => r == Err::<Vec<u8>, Refusal>(Refusal::InstallerEntryMissing(*name)),
                    Some(i) => match (entry_name(bytes, i), entry_contents(bytes, i)) {
                        (Err(error), _) => {
                            &&& r matches Err(Refusal::InstallerNotRead(text))
                            &&& text@ == error
                        },
                        (Ok(_), Err(error)) => {
                            &&& r matches Err(Refusal::InstallerEntryNotRead(text))
                            &&& text@ == error
                        },
                        (Ok(_), Ok(contents)) => {
                            &&& r matches Ok(read)
                            &&& read@ == contents
                        },
                    },
                }
            }),
    {
        let index = match find_entry(&self.archive, name.as_str()) {
            Some(index) => index,
            None => {
                return Err(Refusal::InstallerEntryMissing(name.clone()));
            },
        };
        if let Err(error) = open_entry(&mut self.archive, index) {
            return Err(Refusal::InstallerNotRead(error));
        }
        match read_entry(&mut self.archive, index) {
            Ok(contents) => Ok(contents),
            Err(error) => Err(Refusal::InstallerEntryNotRead(error)),
        }
    }

    /// The libraries that the installer brings, each with the path it is put at.
    pub fn libraries(&mut self, windows: bool) -> (r: Result<Vec<(String, Vec<u8>)>, Refusal>)
        ensures
            final(self).bytes() == old(self).bytes(),
            ({
                let bytes = old(self).bytes();
                let size = archive_size(bytes);
                match r {
                    Ok(libraries) => {
                        &&& readable(bytes, size, windows)
                        &&& library_views(libraries@) == libraries_in(bytes, size, windows)
                    },
                    Err(refusal) => is_entry_refusal(bytes, size, refusal, windows),
                }
            }),
    {
        let ghost bytes = self.bytes();
        let size = entry_count(&self.archive);
        let mut libraries: Vec<(String, Vec<u8>)> = Vec::new();
        let mut i: usize = 0;
        assert(library_views(libraries@) =~= libraries_in(bytes, 0, windows));
        while i < size
            invariant
                i <= size,
                size == archive_size(bytes),
                archive_bytes(self.archive) == bytes,
                bytes == old(self).bytes(),
                readable(bytes, i as nat, windows),
                library_views(libraries@) == libraries_in(bytes, i as nat, windows),
            decreases size - i,
        {
            let name = match open_entry(&mut self.archive, i) {
                Ok(name) => name,
                Err(error) => {
                    assert(readable(bytes, i as nat, windows));
                    return Err(Refusal::InstallerNotRead(error));
                },
            };
            if let Some(path) = path_of_library(name.as_str(), windows) {
                let contents = match read_entry(&mut self.archive, i) {
                    Ok(contents) => contents,
                    Err(error) => {
                        assert(readable(bytes, i as nat, windows));
                        return Err(Refusal::InstallerEntryNotRead(error));
                    },
                };
                let ghost before = libraries@;
                let ghost added = (path@, contents@);
                libraries.push((path, contents));
                assert(library_views(libraries@) =~= library_views(before).push(added));
            }
            i = i + 1;
        }
        Ok(libraries)
    }
}

/// The file that the version of the game with Cleanroom is described in.
pub fn version_file_name(version_id: &str) -> (r: String)
    ensures
        r@ == version_id@ + ".json"@,
{
    concat2(version_id, ".json")
}

/// The installer of a release is the first of its files whose name ends like one.
pub proof fn law_the_first_installer_is_taken(assets: Seq<ReleaseAsset>)
    ensures
        ({
            let i = first_installer(assets);
            &&& 0 <= i <= assets.len()
            &&& i < assets.len() ==> "-installer.jar"@.is_suffix_of(assets[i].name@)
            &&& forall|j: int|
                0 <= j < i ==> !"-installer.jar"@.is_suffix_of((#[trigger] assets[j]).name@)
        }),
    decreases assets.len(),
{
    if assets.len() > 0 && !is_installer(assets[0]) {
        let rest = assets.drop_first();
        law_the_first_installer_is_taken(rest);
        let i = first_installer(assets);
        assert forall|j: int| 0 <= j < i implies !"-installer.jar"@.is_suffix_of(
            (#[trigger] assets[j]).name@,
        ) by {
            if j > 0 {
                assert(rest[j - 1] == assets[j]);
            }
        }
    }
}

/// A path stays inside as long as it does not step out of where it starts: stepping into
/// a folder and out again leads back, staying in place changes nothing, and once a path
/// has left, nothing brings it back.
pub proof fn law_paths_stay_inside(parts: Seq<Seq<char>>, name: Seq<char>)
    requires
        name != seq!['.', '.'],
        name != seq!['.'],
    ensures
        depth_of(seq![]) == Some(0nat),
        depth_of(parts.push(seq!['.'])) == depth_of(parts),
        depth_of(parts.push(name).push(seq!['.', '.'])) == depth_of(parts),
        depth_of(parts.push(name)) is Some <==> depth_of(parts) is Some,
        depth_of(parts) is Some ==> depth_of(parts.push(name))->0 == depth_of(parts)->0 + 1,
        depth_of(parts) == Some(0nat) ==> depth_of(parts.push(seq!['.', '.'])) is None,
        depth_of(parts) is None ==> depth_of(parts.push(seq!['.', '.'])) is None,
{
    let up = seq!['.', '.'];
    let dot = seq!['.'];
    assert(up.len() == 2 && dot.len() == 1);
    assert(parts.push(dot).drop_last() =~= parts);
    assert(parts.push(up).drop_last() =~= parts);
    assert(parts.push(name).drop_last() =~= parts);
    assert(parts.push(name).push(up).drop_last() =~= parts.push(name));
}

/// A path that only ever steps into folders stays inside.
pub proof fn law_plain_paths_stay_inside(parts: Seq<Seq<char>>)
    requires
        !parts.contains(seq!['.', '.']),
    ensures
        depth_of(parts) is Some,
    decreases parts.len(),
{
    if parts.len() > 0 {
        let before = parts.drop_last();
        assert(!before.contains(seq!['.', '.'])) by {
            if before.contains(seq!['.', '.']) {
                let i = choose|i: int| 0 <= i < before.len() && before[i] == seq!['.', '.'];
                assert(parts[i] == before[i]);
            }
        }
        law_plain_paths_stay_inside(before);
        assert(parts[parts.len() - 1] == parts.last());
        assert(parts.contains(parts.last()));
    }
}

proof fn lemma_front_trimmed(path: Seq<char>, windows: bool) -> (i: int)
    ensures
        0 <= i <= path.len(),
        front_trimmed(path, windows) == path.skip(i),
        i < path.len() ==> !is_separator(path[i], windows),
        forall|k: int|
            0 <= k < i ==> is_separator(#[trigger] path[k], windows) || path[k] == '.',
    decreases path.len(),
{
    if path.len() > 0 && (is_separator(path[0], windows) || path[0] == '.' && (path.len() == 1
        || is_separator(path[1], windows))) {
        let rest = path.skip(1);
        let i = lemma_front_trimmed(rest, windows);
        assert(rest.skip(i) =~= path.skip(i + 1));
        assert forall|k: int| 0 <= k < i + 1 implies is_separator(#[trigger] path[k], windows)
            || path[k] == '.' by {
            if k > 0 {
                assert(rest[k - 1] == path[k]);
            }
        }
        i + 1
    } else {
        assert(path.skip(0) =~= path);
        0
    }
}

proof fn lemma_end_trimmed(path: Seq<char>, windows: bool) -> (n: int)
    ensures
        0 <= n <= path.len(),
        end_trimmed(path, windows) == path.take(n),
        n > 0 ==> !is_separator(path[n - 1], windows),
        forall|k: int|
            n <= k < path.len() ==> is_separator(#[trigger] path[k], windows) || path[k] == '.',
    decreases path.len(),
{
    if path.len() > 0 && (is_separator(path.last(), windows) || path.last() == '.' && (path.len()
        == 1 || is_separator(path[path.len() - 2], windows))) {
        let rest = path.drop_last();
        let n = lemma_end_trimmed(rest, windows);
        assert(rest.take(n) =~= path.take(n));
        assert forall|k: int| n <= k < path.len() implies is_separator(#[trigger] path[k], windows)
            || path[k] == '.' by {
            if k < rest.len() {
                assert(rest[k] == path[k]);
            }
        }
        n
    } else {
        assert(path.take(path.len() as int) =~= path);
        path.len() as int
    }
}

/// A library is an entry of the folder `maven` that stays inside it and is no folder. It
/// goes where its name says below that folder: what is taken off in front and at the end
/// are separators and dots, and it neither starts nor ends with a separator.
pub proof fn law_where_libraries_go(name: Seq<char>, windows: bool)
    ensures
        library_path(name, windows) is Some ==> {
            let path = library_path(name, windows)->0;
            &&& name.len() >= 5
            &&& name.take(5) == "maven"@
            &&& name.len() > 5 ==> name[5] == '/' || windows && name[5] == '\\'
            &&& name.last() != '/'
            &&& name.last() != '\\'
            &&& !name.contains('\0')
            &&& depth_of(components(name, windows)) is Some
            &&& path.len() > 0 ==> path[0] != '/' && path.last() != '/'
            &&& exists|i: int, n: int|
                {
                    &&& 5 <= i <= n <= name.len()
                    &&& #[trigger] name.subrange(i, n) == path
                    &&& forall|k: int|
                        5 <= k < i || n <= k < name.len() ==> (#[trigger] name[k]) == '/' || name[k]
                            == '.' || windows && name[k] == '\\'
                }
        },
{
    reveal_strlit("maven");
    if library_path(name, windows) is Some {
        let rest = name.skip(5);
        let i = lemma_front_trimmed(rest, windows);
        let mid = rest.skip(i);
        let n = lemma_end_trimmed(mid, windows);
        let path = library_path(name, windows)->0;
        assert(path == mid.take(n));
        assert(name.subrange(5 + i, 5 + i + n) =~= path);
        assert(name.take(5) =~= "maven"@);
        assert forall|k: int| 5 <= k < 5 + i || 5 + i + n <= k < name.len() implies (
        #[trigger] name[k]) == '/' || name[k] == '.' || windows && name[k] == '\\' by {
            assert(rest[k - 5] == name[k]);
            if k >= 5 + i {
                assert(mid[k - 5 - i] == name[k]);
            }
        }
        if n > 0 {
            assert(path[0] == rest[i]);
            assert(path.last() == mid[n - 1]);
        }
    }
}

/// An entry of the folder `maven` that stays inside it and is no folder is a library.
pub proof fn law_what_counts_as_a_library(name: Seq<char>, windows: bool)
    requires
        name.len() > 5,
        name.take(5) == "maven"@,
        name[5] == '/' || windows && name[5] == '\\',
        name.last() != '/',
        name.last() != '\\',
        is_enclosed(name, windows),
    ensures
        library_path(name, windows) is Some,
{
    reveal_strlit("maven");
    assert("maven"@.is_prefix_of(name)) by {
        assert(name.subrange(0, 5) =~= name.take(5));
    }
}

/// A name is enclosed if it holds no zero character, starts at no root or drive, and
/// stays inside.
pub proof fn law_which_names_are_enclosed(name: Seq<char>, windows: bool)
    ensures
        is_enclosed(name, windows) <==> !name.contains('\0') && !(has_root(name, windows))
            && prefix_len(name, windows) <= 0 && depth_of(components(name, windows)) is Some,
{
}

/// The libraries of an installer are the entries that count as such, each with what it
/// holds, in the order of the archive.
pub proof fn law_all_libraries_are_read(bytes: Seq<u8>, n: nat, windows: bool, i: nat)
    requires
        i < n,
        library_path(entry_name(bytes, i)->Ok_0, windows) is Some,
    ensures
        libraries_in(bytes, n, windows).contains(
            (
                library_path(entry_name(bytes, i)->Ok_0, windows)->0,
                entry_contents(bytes, i)->Ok_0,
            ),
        ),
    decreases n,
{
    let all = libraries_in(bytes, n, windows);
    let last = (n - 1) as nat;
    let found = (
        library_path(entry_name(bytes, i)->Ok_0, windows)->0,
        entry_contents(bytes, i)->Ok_0,
    );
    if i == last {
        assert(all[all.len() - 1] == found);
    } else {
        law_all_libraries_are_read(bytes, last, windows, i);
        let before = libraries_in(bytes, last, windows);
        let k = choose|k: int| 0 <= k < before.len() && before[k] == found;
        assert(all[k] == found);
    }
}

/// Nothing but a library is read from an installer, and each comes from one entry.
pub proof fn law_only_libraries_are_read(bytes: Seq<u8>, n: nat, windows: bool, k: int)
    requires
        0 <= k < libraries_in(bytes, n, windows).len(),
    ensures
        libraries_in(bytes, n, windows).len() <= n,
        exists|i: nat|
            {
                &&& i < n
                &&& library_path(#[trigger] entry_name(bytes, i)->Ok_0, windows) == Some(
                    libraries_in(bytes, n, windows)[k].0,
                )
                &&& entry_contents(bytes, i)->Ok_0 == libraries_in(bytes, n, windows)[k].1
            },
    decreases n,
{
    if n > 0 {
        let last = (n - 1) as nat;
        let before = libraries_in(bytes, last, windows);
        let all = libraries_in(bytes, n, windows);
        if k < before.len() {
            law_only_libraries_are_read(bytes, last, windows, k);
            assert(all[k] == before[k]);
        } else {
            if before.len() > 0 {
                law_only_libraries_are_read(bytes, last, windows, 0);
            }
            assert(library_path(entry_name(bytes, last)->Ok_0, windows) == Some(all[k].0));
        }
    }
}

/// An installer is refused for its first entry that cannot be opened, or that is a library
/// and cannot be read; the text says what was met there. All entries before it are fine.
pub proof fn law_why_an_installer_is_refused(
    bytes: Seq<u8>,
    size: nat,
    refusal: Refusal,
    windows: bool,
)
    requires
        is_entry_refusal(bytes, size, refusal, windows),
    ensures
        !readable(bytes, size, windows),
        exists|i: nat|
            {
                &&& i < size
                &&& forall|j: nat|
                    j < i ==> {
                        &&& #[trigger] entry_name(bytes, j) is Ok
                        &&& library_path(entry_name(bytes, j)->Ok_0, windows) is Some
                            ==> entry_contents(bytes, j) is Ok
                    }
                &&& match #[trigger] entry_name(bytes, i) {
                    Err(error) => refusal is InstallerNotRead && refusal->InstallerNotRead_0@
                        == error,
                    Ok(name) => {
                        &&& library_path(name, windows) is Some
                        &&& entry_contents(bytes, i) is Err
                        &&& refusal is InstallerEntryNotRead
                        &&& refusal->InstallerEntryNotRead_0@ == entry_contents(bytes, i)->Err_0
                    },
                }
            },
{
    let i = choose|i: nat|
        {
            &&& i < size
            &&& #[trigger] readable(bytes, i, windows)
            &&& match entry_name(bytes, i) {
                Err(error) => refusal matches Refusal::InstallerNotRead(text) && text@ == error,
                Ok(name) => {
                    &&& library_path(name, windows) is Some
                    &&& entry_contents(bytes, i) is Err
                    &&& refusal matches Refusal::InstallerEntryNotRead(text)
                    &&& text@ == entry_contents(bytes, i)->Err_0
                },
            }
        };
    assert(entry_name(bytes, i) == entry_name(bytes, i));
}

} // verus!

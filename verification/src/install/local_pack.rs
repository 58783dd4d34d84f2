//! The installation of a local modpack file: which installer its format needs,
//! and the search for packs inside an archive that is not recognized.
use vstd::prelude::*;

use crate::decimal::{numeral, print_u64};
use crate::error::{Error, Refusal};
use crate::paths::{file_name, opt_view, path_file_name};
use crate::text::{
    concat2, concat3, ends_with, first_index, lemma_first_index, lowercase, segments, split, to_lower,
    views,
};

use super::model::InstallPauseReason;

verus! {

/// The formats of local modpack files.
#[derive(Clone, Copy, Debug, PartialEq, Eq, Structural)]
pub enum LocalPackFormat {
    Mrpack,
    CurseForge,
    Mcbbs,
    Hmcl,
    MmcExport,
    LauncherBundled,
    PlainArchive,
    InstanceFolder,
}

/// What a look at a local modpack file found.
#[derive(Clone, Debug, PartialEq, Eq)]
pub struct DetectedLocalPack {
    pub format: LocalPackFormat,
    /// The folder inside the archive that holds the pack.
    pub base_folder: String,
    /// The pack inside the bundle of a launcher.
    pub inner_pack_entry: Option<String>,
    /// The version that a plain archive of an instance holds.
    pub plain_version_id: Option<String>,
}

/// How the installation of a pack ended.
#[derive(Debug, PartialEq, Eq)]
pub enum PackOutcome {
    Completed,
    WaitingForUser(InstallPauseReason),
}

/// Why the installation of a pack failed.
#[derive(Debug, PartialEq, Eq)]
pub enum PackFailure {
    Refused(Refusal),
    Failed(Error),
}

/// The installer that a pack needs, with what it is told.
#[derive(Debug, PartialEq, Eq)]
pub enum LocalInstall {
    Mrpack { path: String },
    CurseForge { path: String, base_folder: String, source_filename: Option<String> },
    Mcbbs { path: String, base_folder: String, source_filename: Option<String> },
    Hmcl { path: String, base_folder: String, source_filename: Option<String> },
    MmcExport { path: String, base_folder: String, source_filename: Option<String> },
    /// The pack inside is extracted under `inner_name` and installed instead.
    Bundle { path: String, entry: String, inner_name: String },
    Plain {
        path: String,
        base_folder: String,
        version_id: String,
        source_filename: Option<String>,
    },
    /// The folder is extracted and imported as an instance.
    Folder { path: String, base_folder: String, title: Option<String> },
}

/// Why a pack that was found cannot be installed.
pub open spec fn local_refusal(detected: DetectedLocalPack) -> Option<Refusal> {
    if detected.format == LocalPackFormat::LauncherBundled && detected.inner_pack_entry is None {
        Some(Refusal::BundleWithoutInnerPack)
    } else if detected.format == LocalPackFormat::PlainArchive && detected.plain_version_id is None {
        Some(Refusal::ArchiveWithoutVersion)
    } else {
        None
    }
}

/// The installer that a pack found at `path` needs.
pub open spec fn is_local_install(
    install: LocalInstall,
    detected: DetectedLocalPack,
    path: String,
    windows: bool,
) -> bool {
    let base_folder = detected.base_folder;
    match detected.format {
        LocalPackFormat::Mrpack => install == (LocalInstall::Mrpack { path }),
        LocalPackFormat::CurseForge => {
            &&& install matches LocalInstall::CurseForge {
                path: p,
                base_folder: b,
                source_filename: s,
            }
            &&& p == path && b == base_folder && opt_view(s) == file_name(path@, windows)
        },
        LocalPackFormat::Mcbbs => {
            &&& install matches LocalInstall::Mcbbs {
                path: p,
                base_folder: b,
                source_filename: s,
            }
            &&& p == path && b == base_folder && opt_view(s) == file_name(path@, windows)
        },
        LocalPackFormat::Hmcl => {
            &&& install matches LocalInstall::Hmcl { path: p, base_folder: b, source_filename: s }
            &&& p == path && b == base_folder && opt_view(s) == file_name(path@, windows)
        },
        LocalPackFormat::MmcExport => {
            &&& install matches LocalInstall::MmcExport {
                path: p,
                base_folder: b,
                source_filename: s,
            }
            &&& p == path && b == base_folder && opt_view(s) == file_name(path@, windows)
        },
        LocalPackFormat::LauncherBundled => {
            &&& install matches LocalInstall::Bundle { path: p, entry: e, inner_name: n }
            &&& p == path && Some(e) == detected.inner_pack_entry
            &&& n@ == segments(e@, '/').last()
        },
        LocalPackFormat::PlainArchive => {
            &&& install matches LocalInstall::Plain {
                path: p,
                base_folder: b,
                version_id: v,
                source_filename: s,
            }
            &&& p == path && b == base_folder && Some(v) == detected.plain_version_id
            &&& opt_view(s) == file_name(path@, windows)
        },
        LocalPackFormat::InstanceFolder => {
            &&& install matches LocalInstall::Folder { path: p, base_folder: b, title: t }
            &&& p == path && b == base_folder && opt_view(t) == file_name(path@, windows)
        },
    }
}

proof fn lemma_segments_nonempty(s: Seq<char>, sep: char)
    ensures
        segments(s, sep).len() > 0,
{
}

/// The installer that a pack found at `path` needs.
pub fn local_install(detected: DetectedLocalPack, path: String, windows: bool) -> (r: Result<
    LocalInstall,
    Refusal,
>)
    ensures
        match r {
            Ok(install) => {
                &&& local_refusal(detected) is None
                &&& is_local_install(install, detected, path, windows)
            },
            Err(refusal) => local_refusal(detected) == Some(refusal),
        },
{
    let source_filename = path_file_name(path.as_str(), windows);
    let base_folder = detected.base_folder;
    match detected.format {
        LocalPackFormat::Mrpack => Ok(LocalInstall::Mrpack { path }),
        LocalPackFormat::CurseForge => Ok(
            LocalInstall::CurseForge { path, base_folder, source_filename },
        ),
        LocalPackFormat::Mcbbs => Ok(LocalInstall::Mcbbs { path, base_folder, source_filename }),
        LocalPackFormat::Hmcl => Ok(LocalInstall::Hmcl { path, base_folder, source_filename }),
        LocalPackFormat::MmcExport => Ok(
            LocalInstall::MmcExport { path, base_folder, source_filename },
        ),
        LocalPackFormat::LauncherBundled => match detected.inner_pack_entry {
            Some(entry) => {
                proof {
                    lemma_segments_nonempty(entry@, '/');
                }
                let pieces = split(entry.as_str(), '/');
                assert(views(pieces@).len() == pieces@.len());
                let last = pieces.len() - 1;
                let inner_name = pieces[last].clone();
                assert(views(pieces@).last() == inner_name@);
                Ok(LocalInstall::Bundle { path, entry, inner_name })
            },
            None => Err(Refusal::BundleWithoutInnerPack),
        },
        LocalPackFormat::PlainArchive => match detected.plain_version_id {
            Some(version_id) => Ok(
                LocalInstall::Plain { path, base_folder, version_id, source_filename },
            ),
            None => Err(Refusal::ArchiveWithoutVersion),
        },
        LocalPackFormat::InstanceFolder => Ok(
            LocalInstall::Folder { path, base_folder, title: source_filename },
        ),
    }
}

/// Whether an entry of an archive looks like an archive itself.
pub open spec fn is_sub_archive(name: Seq<char>) -> bool {
    ".zip"@.is_suffix_of(lowercase(name)) || ".mrpack"@.is_suffix_of(lowercase(name))
}

/// Whether an entry of an archive, named in lower case, looks like an archive.
pub fn has_archive_ending(lower_name: &str) -> (r: bool)
    ensures
        r == (".zip"@.is_suffix_of(lower_name@) || ".mrpack"@.is_suffix_of(lower_name@)),
{
    ends_with(lower_name, ".zip") || ends_with(lower_name, ".mrpack")
}

/// Which entries of an archive look like archives themselves, in their order.
pub fn sub_archives(names: &Vec<String>) -> (r: Vec<usize>)
    ensures
        forall|k: int| 0 <= k < r@.len() ==> (#[trigger] r@[k]) < names@.len(),
        forall|j: int, k: int| 0 <= j < k < r@.len() ==> r@[j] < r@[k],
        forall|i: int|
            #![trigger names@[i]]
            0 <= i < names@.len() ==> (is_sub_archive(names@[i]@) <==> exists|k: int|
                0 <= k < r@.len() && #[trigger] r@[k] == i),
{
    let mut found: Vec<usize> = Vec::new();
    let mut n: usize = 0;
    while n < names.len()
        invariant
            n <= names@.len(),
            forall|k: int| 0 <= k < found@.len() ==> (#[trigger] found@[k]) < n,
            forall|j: int, k: int| 0 <= j < k < found@.len() ==> found@[j] < found@[k],
            forall|i: int|
                #![trigger names@[i]]
                0 <= i < n ==> (is_sub_archive(names@[i]@) <==> exists|k: int|
                    0 <= k < found@.len() && #[trigger] found@[k] == i),
        decreases names@.len() - n,
    {
        let ghost seen = found@;
        let lower_name = to_lower(names[n].as_str());
        let matches = has_archive_ending(lower_name.as_str());
        if matches {
            found.push(n);
        }
        proof {
            assert forall|i: int|
                #![trigger names@[i]]
                0 <= i < n + 1 implies (is_sub_archive(names@[i]@) <==> exists|k: int|
                    0 <= k < found@.len() && #[trigger] found@[k] == i) by {
                if i < n {
                    if is_sub_archive(names@[i]@) {
                        let k = choose|k: int| 0 <= k < seen.len() && #[trigger] seen[k] == i;
                        assert(found@[k] == i);
                    }
                    if exists|k: int| 0 <= k < found@.len() && #[trigger] found@[k] == i {
                        let k = choose|k: int| 0 <= k < found@.len() && #[trigger] found@[k] == i;
                        assert(seen[k] == i);
                    }
                } else if matches {
                    assert(found@[seen.len() as int] == i);
                }
            }
        }
        n = n + 1;
    }
    found
}

/// How deep packs are searched for inside archives.
pub const MAX_SEARCH_DEPTH: usize = 3;

/// What the search is inside of. Each keeps a scratch directory.
#[derive(Debug)]
pub enum PackFrame {
    /// An archive of which the archives at `paths` were extracted; those from
    /// `next` on are still to be tried.
    Archive { paths: Vec<String>, next: usize, depth: usize },
    /// The bundle of a launcher.
    Bundle,
}

/// What the search does next.
#[derive(Debug, PartialEq, Eq)]
pub enum SearchStep {
    /// The file is looked at; `detected` takes what was found.
    Detect { path: String },
    /// A pack is installed; `extracted` takes the outcome for a bundle, and
    /// `installed` for any other.
    Install { install: LocalInstall },
    /// The archives inside are extracted, under `title`; `scanned` takes them.
    Scan { path: String, title: String },
    /// The search is over.
    Finish { result: Result<PackOutcome, PackFailure> },
}

/// What the search does next, after the `cleanups` scratch directories that were
/// made last are removed.
#[derive(Debug, PartialEq, Eq)]
pub struct SearchMove {
    pub cleanups: usize,
    pub step: SearchStep,
}

/// A search for a pack inside a local file.
#[derive(Debug)]
pub struct LocalPackSearch {
    frames: Vec<PackFrame>,
    path: String,
    depth: usize,
}

/// Where a search goes on after a failure: what it is inside of then, how many
/// scratch directories it leaves, the file that it tries next and its depth,
/// and the failure that it ends with if there is none.
pub open spec fn unwound(frames: Seq<PackFrame>, failure: PackFailure) -> (
    Seq<PackFrame>,
    nat,
    Option<(String, nat)>,
    PackFailure,
)
    decreases frames.len(),
{
    if frames.len() == 0 {
        (frames, 0, None, failure)
    } else {
        let outer = frames.drop_last();
        match frames.last() {
            PackFrame::Bundle => {
                let (f, n, t, e) = unwound(outer, failure);
                (f, n + 1, t, e)
            },
            PackFrame::Archive { paths, next, depth } => if next < paths@.len() {
                (
                    outer.push(
                        PackFrame::Archive { paths, next: (next + 1) as usize, depth },
                    ),
                    0,
                    Some((paths@[next as int], (depth + 1) as nat)),
                    failure,
                )
            } else {
                let (f, n, t, e) = unwound(outer, PackFailure::Refused(Refusal::UnrecognizedPack));
                (f, n + 1, t, e)
            },
        }
    }
}

/// Whether `next` and `m` are how a search inside `frames` goes on after `failure`.
pub open spec fn goes_on(
    frames: Seq<PackFrame>,
    failure: PackFailure,
    next: LocalPackSearch,
    m: SearchMove,
) -> bool {
    let (f, n, t, e) = unwound(frames, failure);
    &&& next.frames() == f
    &&& m.cleanups == n
    &&& match t {
        Some((path, depth)) => {
            &&& m.step == (SearchStep::Detect { path })
            &&& next.path() == path
            &&& next.depth() == depth
        },
        None => m.step == (SearchStep::Finish { result: Err(e) }),
    }
}

/// Whether `next` and `m` are how a search inside `frames` installs what was
/// found at `path`.
pub open spec fn installs(
    frames: Seq<PackFrame>,
    detected: DetectedLocalPack,
    path: String,
    next: LocalPackSearch,
    m: SearchMove,
    windows: bool,
) -> bool {
    match local_refusal(detected) {
        Some(refusal) => goes_on(frames, PackFailure::Refused(refusal), next, m),
        None => {
            &&& next.frames() == frames
            &&& m.cleanups == 0
            &&& m.step matches SearchStep::Install { install }
            &&& is_local_install(install, detected, path, windows)
        },
    }
}

/// The name of the file at `path`, as the user is told it.
pub open spec fn shown_name(path: Seq<char>, windows: bool) -> Seq<char> {
    match file_name(path, windows) {
        Some(name) => name,
        None => "archive"@,
    }
}

fn name_shown(path: &str, windows: bool) -> (r: String)
    ensures
        r@ == shown_name(path@, windows),
{
    match path_file_name(path, windows) {
        Some(name) => name,
        None => "archive".to_owned(),
    }
}

/// What the user is told while the archives inside `path` are extracted.
pub fn extracting_title(path: &str, windows: bool) -> (r: String)
    ensures
        r@ == "Extracting "@ + shown_name(path@, windows),
{
    let name = name_shown(path, windows);
    concat2("Extracting ", name.as_str())
}

/// What the user is told while packs are searched for inside a file.
pub open spec fn scanning_title(path: Seq<char>, depth: nat, windows: bool) -> Seq<char> {
    "Scanning "@ + shown_name(path, windows) + " (level "@ + numeral(depth) + "/"@ + numeral(
        MAX_SEARCH_DEPTH as nat,
    ) + ")"@
}

fn title_for_scan(path: &str, depth: usize, windows: bool) -> (r: String)
    ensures
        r@ == scanning_title(path@, depth as nat, windows),
{
    let name = name_shown(path, windows);
    let level = print_u64(depth as u64);
    let deepest = print_u64(MAX_SEARCH_DEPTH as u64);
    let start = concat3("Scanning ", name.as_str(), " (level ");
    let middle = concat3(start.as_str(), level.as_str(), "/");
    concat3(middle.as_str(), deepest.as_str(), ")")
}

impl LocalPackSearch {
    /// What the search is inside of, the innermost last.
    pub closed spec fn frames(&self) -> Seq<PackFrame> {
        self.frames@
    }

    /// The file that was looked at last.
    pub closed spec fn path(&self) -> String {
        self.path
    }

    /// How deep that file lies.
    pub closed spec fn depth(&self) -> nat {
        self.depth as nat
    }

    #[verifier::type_invariant]
    closed spec fn depths_bounded(&self) -> bool {
        &&& self.depth <= MAX_SEARCH_DEPTH
        &&& forall|i: int|
            0 <= i < self.frames@.len() ==> (#[trigger] self.frames@[i] matches PackFrame::Archive {
                paths: _,
                next: _,
                depth,
            } ==> depth < MAX_SEARCH_DEPTH)
    }

    fn fail(frames: Vec<PackFrame>, failure: PackFailure) -> (r: (LocalPackSearch, SearchMove))
        requires
            forall|i: int|
                0 <= i < frames@.len() ==> (#[trigger] frames@[i] matches PackFrame::Archive {
                    paths: _,
                    next: _,
                    depth,
                } ==> depth < MAX_SEARCH_DEPTH),
        ensures
            goes_on(frames@, failure, r.0, r.1),
    {
        let count = frames.len();
        let mut inside = frames;
        let mut cause = failure;
        let mut cleanups: usize = 0;
        loop
            invariant
                forall|i: int|
                    0 <= i < inside@.len() ==> (#[trigger] inside@[i] matches PackFrame::Archive {
                        paths: _,
                        next: _,
                        depth,
                    } ==> depth < MAX_SEARCH_DEPTH),
                cleanups + inside@.len() == count,
                ({
                    let (f, n, t, e) = unwound(frames@, failure);
                    let (f1, n1, t1, e1) = unwound(inside@, cause);
                    f == f1 && n == n1 + cleanups && t == t1 && e == e1
                }),
            decreases inside@.len(),
        {
            let ghost before = inside@;
            match inside.pop() {
                None => {
                    return (
                        LocalPackSearch { frames: inside, path: String::new(), depth: 0 },
                        SearchMove { cleanups, step: SearchStep::Finish { result: Err(cause) } },
                    );
                },
                Some(PackFrame::Bundle) => {
                    assert(inside@ == before.drop_last());
                    cleanups = cleanups + 1;
                },
                Some(PackFrame::Archive { paths, next, depth }) => {
                    assert(inside@ == before.drop_last());
                    assert(before.last() == (PackFrame::Archive { paths, next, depth }));
                    if next < paths.len() {
                        let path = paths[next].clone();
                        inside.push(PackFrame::Archive { paths, next: next + 1, depth });
                        return (
                            LocalPackSearch {
                                frames: inside,
                                path: path.clone(),
                                depth: depth + 1,
                            },
                            SearchMove { cleanups, step: SearchStep::Detect { path } },
                        );
                    }
                    cause = PackFailure::Refused(Refusal::UnrecognizedPack);
                    cleanups = cleanups + 1;
                },
            }
        }
    }

    fn install(
        frames: Vec<PackFrame>,
        depth: usize,
        detected: DetectedLocalPack,
        path: String,
        windows: bool,
    ) -> (r: (LocalPackSearch, SearchMove))
        requires
            depth <= MAX_SEARCH_DEPTH,
            forall|i: int|
                0 <= i < frames@.len() ==> (#[trigger] frames@[i] matches PackFrame::Archive {
                    paths: _,
                    next: _,
                    depth,
                } ==> depth < MAX_SEARCH_DEPTH),
        ensures
            installs(frames@, detected, path, r.0, r.1, windows),
    {
        let at = path.clone();
        match local_install(detected, path, windows) {
            Ok(install) => (
                LocalPackSearch { frames, path: at, depth },
                SearchMove { cleanups: 0, step: SearchStep::Install { install } },
            ),
            Err(refusal) => LocalPackSearch::fail(frames, PackFailure::Refused(refusal)),
        }
    }

    /// Starts with a pack that was found at `path`.
    pub fn from_detected(detected: DetectedLocalPack, path: String, windows: bool) -> (r: (
        LocalPackSearch,
        SearchMove,
    ))
        ensures
            installs(seq![], detected, path, r.0, r.1, windows),
    {
        LocalPackSearch::install(Vec::new(), 0, detected, path, windows)
    }

    /// Starts with a file that was not recognized.
    pub fn from_path(path: String) -> (r: (LocalPackSearch, SearchMove))
        ensures
            r.0.frames() == Seq::<PackFrame>::empty(),
            r.0.path() == path,
            r.0.depth() == 0,
            r.1 == (SearchMove { cleanups: 0, step: SearchStep::Detect { path } }),
    {
        let at = path.clone();
        (
            LocalPackSearch { frames: Vec::new(), path: at, depth: 0 },
            SearchMove { cleanups: 0, step: SearchStep::Detect { path } },
        )
    }

    /// Takes what the look at a file found. An unknown file is searched unless it
    /// lies too deep.
    pub fn detected(self, found: Option<DetectedLocalPack>, windows: bool) -> (r: (
        LocalPackSearch,
        SearchMove,
    ))
        ensures
            match found {
                Some(detected) => installs(self.frames(), detected, self.path(), r.0, r.1, windows),
                None => if self.depth() < MAX_SEARCH_DEPTH {
                    &&& r.0.frames() == self.frames()
                    &&& r.0.path() == self.path()
                    &&& r.0.depth() == self.depth()
                    &&& r.1.cleanups == 0
                    &&& r.1.step matches SearchStep::Scan { path, title }
                    &&& path == self.path()
                    &&& title@ == scanning_title(self.path()@, self.depth(), windows)
                } else {
                    goes_on(
                        self.frames(),
                        PackFailure::Refused(Refusal::UnrecognizedPack),
                        r.0,
                        r.1,
                    )
                },
            },
    {
        proof {
            use_type_invariant(&self);
        }
        match found {
            Some(detected) => LocalPackSearch::install(
                self.frames,
                self.depth,
                detected,
                self.path,
                windows,
            ),
            None => {
                if self.depth < MAX_SEARCH_DEPTH {
                    let title = title_for_scan(self.path.as_str(), self.depth, windows);
                    let path = self.path.clone();
                    return (
                        self,
                        SearchMove { cleanups: 0, step: SearchStep::Scan { path, title } },
                    );
                }
                LocalPackSearch::fail(
                    self.frames,
                    PackFailure::Refused(Refusal::UnrecognizedPack),
                )
            },
        }
    }

    /// Takes the archives that were extracted from the file that was looked at,
    /// or why they could not be. None are tried below the deepest level.
    pub fn scanned(self, result: Result<Vec<String>, PackFailure>) -> (r: (
        LocalPackSearch,
        SearchMove,
    ))
        ensures
            match result {
                Ok(paths) => goes_on(
                    if self.depth() < MAX_SEARCH_DEPTH {
                        self.frames().push(
                            PackFrame::Archive { paths, next: 0, depth: self.depth() as usize },
                        )
                    } else {
                        self.frames()
                    },
                    PackFailure::Refused(Refusal::UnrecognizedPack),
                    r.0,
                    r.1,
                ),
                Err(failure) => goes_on(self.frames(), failure, r.0, r.1),
            },
    {
        proof {
            use_type_invariant(&self);
        }
        let depth = self.depth;
        let mut frames = self.frames;
        match result {
            Ok(paths) => {
                if depth < MAX_SEARCH_DEPTH {
                    frames.push(PackFrame::Archive { paths, next: 0, depth });
                }
                LocalPackSearch::fail(
                    frames,
                    PackFailure::Refused(Refusal::UnrecognizedPack),
                )
            },
            Err(failure) => LocalPackSearch::fail(frames, failure),
        }
    }

    /// Takes where the pack inside a bundle was extracted to, or why it could not
    /// be. It counts as one level deep.
    pub fn extracted(self, result: Result<String, PackFailure>) -> (r: (
        LocalPackSearch,
        SearchMove,
    ))
        ensures
            match result {
                Ok(path) => {
                    &&& r.0.frames() == self.frames().push(PackFrame::Bundle)
                    &&& r.0.path() == path
                    &&& r.0.depth() == 1
                    &&& r.1 == (SearchMove { cleanups: 0, step: SearchStep::Detect { path } })
                },
                Err(failure) => goes_on(self.frames(), failure, r.0, r.1),
            },
    {
        proof {
            use_type_invariant(&self);
        }
        let mut frames = self.frames;
        match result {
            Ok(path) => {
                frames.push(PackFrame::Bundle);
                let at = path.clone();
                (
                    LocalPackSearch { frames, path: at, depth: 1 },
                    SearchMove { cleanups: 0, step: SearchStep::Detect { path } },
                )
            },
            Err(failure) => LocalPackSearch::fail(frames, failure),
        }
    }

    /// Takes the outcome of an installation. The first that works ends the search.
    pub fn installed(self, result: Result<PackOutcome, PackFailure>) -> (r: (
        LocalPackSearch,
        SearchMove,
    ))
        ensures
            match result {
                Ok(outcome) => {
                    &&& r.0.frames() == Seq::<PackFrame>::empty()
                    &&& r.1 == (SearchMove {
                        cleanups: self.frames().len() as usize,
                        step: SearchStep::Finish { result: Ok(outcome) },
                    })
                    &&& r.1.cleanups == self.frames().len()
                },
                Err(failure) => goes_on(self.frames(), failure, r.0, r.1),
            },
    {
        proof {
            use_type_invariant(&self);
        }
        match result {
            Ok(outcome) => {
                let cleanups = self.frames.len();
                (
                    LocalPackSearch { frames: Vec::new(), path: self.path, depth: 0 },
                    SearchMove { cleanups, step: SearchStep::Finish { result: Ok(outcome) } },
                )
            },
            Err(failure) => LocalPackSearch::fail(self.frames, failure),
        }
    }
}

/// A search that ends after a failure has removed every scratch directory; one
/// that goes on has left as many as it is still inside of.
pub proof fn law_search_removes_what_it_leaves(
    frames: Seq<PackFrame>,
    failure: PackFailure,
    next: LocalPackSearch,
    m: SearchMove,
)
    requires
        goes_on(frames, failure, next, m),
    ensures
        m.cleanups + next.frames().len() == frames.len(),
        m.step is Finish ==> m.cleanups == frames.len(),
{
    lemma_unwound_counts(frames, failure);
}

proof fn lemma_unwound_counts(frames: Seq<PackFrame>, failure: PackFailure)
    ensures
        unwound(frames, failure).1 + unwound(frames, failure).0.len() == frames.len(),
        unwound(frames, failure).2 is None ==> unwound(frames, failure).0.len() == 0,
    decreases frames.len(),
{
    if frames.len() > 0 {
        lemma_unwound_counts(frames.drop_last(), failure);
        lemma_unwound_counts(
            frames.drop_last(),
            PackFailure::Refused(Refusal::UnrecognizedPack),
        );
    }
}

/// A search of an archive in which nothing could be installed ends as one of an
/// unknown format, whatever went wrong inside it.
pub proof fn law_exhausted_search_is_unrecognized(
    paths: Vec<String>,
    depth: usize,
    failure: PackFailure,
    next: LocalPackSearch,
    m: SearchMove,
)
    requires
        goes_on(
            seq![PackFrame::Archive { paths, next: paths@.len() as usize, depth }],
            failure,
            next,
            m,
        ),
        paths@.len() <= usize::MAX,
    ensures
        m.step == (SearchStep::Finish {
            result: Err(PackFailure::Refused(Refusal::UnrecognizedPack)),
        }),
{
    let frames = seq![PackFrame::Archive { paths, next: paths@.len() as usize, depth }];
    assert(frames.drop_last() =~= Seq::<PackFrame>::empty());
    reveal_with_fuel(unwound, 2);
}

/// A file that was recognized is installed by the installer of its format, from where it
/// is and from the folder inside it that holds the pack. What the installer needs to
/// know of the file's name it is told. Only a bundle without a pack inside and an archive
/// without a version are refused, and those always are.
pub proof fn law_files_are_installed_by_their_format(
    install: LocalInstall,
    detected: DetectedLocalPack,
    path: String,
    windows: bool,
)
    requires
        is_local_install(install, detected, path, windows),
    ensures
        detected.format == LocalPackFormat::Mrpack <==> install is Mrpack,
        detected.format == LocalPackFormat::CurseForge <==> install is CurseForge,
        detected.format == LocalPackFormat::Mcbbs <==> install is Mcbbs,
        detected.format == LocalPackFormat::Hmcl <==> install is Hmcl,
        detected.format == LocalPackFormat::MmcExport <==> install is MmcExport,
        detected.format == LocalPackFormat::LauncherBundled <==> install is Bundle,
        detected.format == LocalPackFormat::PlainArchive <==> install is Plain,
        detected.format == LocalPackFormat::InstanceFolder <==> install is Folder,
        ({
            let folder = detected.base_folder;
            let name = file_name(path@, windows);
            match install {
                LocalInstall::Mrpack { path: p } => p == path,
                LocalInstall::CurseForge { path: p, base_folder: b, source_filename: s } => p
                    == path && b == folder && opt_view(s) == name,
                LocalInstall::Mcbbs { path: p, base_folder: b, source_filename: s } => p == path
                    && b == folder && opt_view(s) == name,
                LocalInstall::Hmcl { path: p, base_folder: b, source_filename: s } => p == path && b
                    == folder && opt_view(s) == name,
                LocalInstall::MmcExport { path: p, base_folder: b, source_filename: s } => p == path
                    && b == folder && opt_view(s) == name,
                LocalInstall::Bundle { path: p, entry, inner_name: _ } => p == path
                    && detected.inner_pack_entry == Some(entry),
                LocalInstall::Plain { path: p, base_folder: b, version_id, source_filename: s } => p
                    == path && b == folder && detected.plain_version_id == Some(version_id)
                    && opt_view(s) == name,
                LocalInstall::Folder { path: p, base_folder: b, title } => p == path && b == folder
                    && opt_view(title) == name,
            }
        }),
{
}

/// A bundle is refused exactly without a pack inside, an archive of an instance exactly
/// without a version, and nothing else ever is.
pub proof fn law_which_files_are_refused(detected: DetectedLocalPack)
    ensures
        local_refusal(detected) == Some(Refusal::BundleWithoutInnerPack) <==> detected.format
            == LocalPackFormat::LauncherBundled && detected.inner_pack_entry is None,
        local_refusal(detected) == Some(Refusal::ArchiveWithoutVersion) <==> detected.format
            == LocalPackFormat::PlainArchive && detected.plain_version_id is None,
        local_refusal(detected) is Some ==> local_refusal(detected) == Some(
            Refusal::BundleWithoutInnerPack,
        ) || local_refusal(detected) == Some(Refusal::ArchiveWithoutVersion),
{
}

/// The pack inside a bundle is extracted under its own name, without the folders that it
/// lies in.
pub proof fn law_inner_packs_keep_their_name(
    install: LocalInstall,
    detected: DetectedLocalPack,
    path: String,
    windows: bool,
)
    requires
        is_local_install(install, detected, path, windows),
        install is Bundle,
    ensures
        ({
            let entry = install->Bundle_entry@;
            let name = install->Bundle_inner_name@;
            &&& name.is_suffix_of(entry)
            &&& !name.contains('/')
            &&& name.len() < entry.len() ==> entry[entry.len() - name.len() - 1] == '/'
        }),
{
    let entry = install->Bundle_entry@;
    lemma_last_segment(entry);
}

proof fn lemma_last_segment(s: Seq<char>)
    ensures
        ({
            let name = segments(s, '/').last();
            &&& segments(s, '/').len() > 0
            &&& name.is_suffix_of(s)
            &&& !name.contains('/')
            &&& name.len() < s.len() ==> s[s.len() - name.len() - 1] == '/'
        }),
    decreases s.len(),
{
    let n = first_index(s, '/');
    lemma_first_index(s, '/');
    if n < s.len() {
        let rest = s.skip(n + 1);
        lemma_last_segment(rest);
        let inner = segments(rest, '/');
        assert(inner.len() > 0);
        let name = segments(s, '/').last();
        assert(name == inner.last());
        assert(rest.subrange(rest.len() - name.len(), rest.len() as int) == name);
        assert(s.subrange(s.len() - name.len(), s.len() as int) =~= name) by {
            assert forall|i: int| 0 <= i < name.len() implies s[s.len() - name.len() + i]
                == name[i] by {
                assert(rest.subrange(rest.len() - name.len(), rest.len() as int)[i] == name[i]);
            }
        }
        if name.len() < rest.len() {
            assert(rest[rest.len() - name.len() - 1] == s[s.len() - name.len() - 1]);
        }
    } else {
        assert(segments(s, '/').last() == s);
        assert(s.subrange(0, s.len() as int) =~= s);
        if s.contains('/') {
            let k = choose|k: int| 0 <= k < s.len() && s[k] == '/';
            assert(s[k] != '/');
        }
    }
}

/// The archives inside an archive are those whose names end in the endings of archives,
/// whatever the case of the letters.
pub proof fn law_archives_are_told_by_their_ending(name: Seq<char>)
    ensures
        ({
            let n = lowercase(name).len() as int;
            is_sub_archive(name) <==> (n >= 4 && lowercase(name).subrange(n - 4, n) == ".zip"@ || n
                >= 7 && lowercase(name).subrange(n - 7, n) == ".mrpack"@)
        }),
{
    reveal_strlit(".zip");
    reveal_strlit(".mrpack");
}

/// The search goes on with the next archive that was not tried yet, of those inside the
/// innermost archive that has any; what lies deeper is done with, and what lies further
/// out is kept. It is over once no archive has any left.
pub proof fn law_the_search_goes_on_with_the_next_archive(
    frames: Seq<PackFrame>,
    failure: PackFailure,
    next: LocalPackSearch,
    m: SearchMove,
)
    requires
        goes_on(frames, failure, next, m),
    ensures
        m.step is Finish || m.step is Detect,
        m.step is Finish <==> forall|i: int|
            0 <= i < frames.len() ==> ((#[trigger] frames[i]) matches PackFrame::Archive {
                paths,
                next,
                depth: _,
            } ==> next >= paths@.len()),
        m.step is Detect ==> exists|k: int|
            {
                &&& 0 <= k < frames.len()
                &&& (#[trigger] frames[k]) is Archive
                &&& frames[k]->Archive_next < frames[k]->Archive_paths@.len()
                &&& m.step->Detect_path
                    == frames[k]->Archive_paths@[frames[k]->Archive_next as int]
                &&& next.path() == m.step->Detect_path
                &&& next.depth() == frames[k]->Archive_depth + 1
                &&& m.cleanups == frames.len() - k - 1
                &&& next.frames().len() == k + 1
                &&& next.frames().take(k) == frames.take(k)
                &&& next.frames()[k] == (PackFrame::Archive {
                    paths: frames[k]->Archive_paths,
                    next: (frames[k]->Archive_next + 1) as usize,
                    depth: frames[k]->Archive_depth,
                })
                &&& forall|j: int|
                    k < j < frames.len() ==> ((#[trigger] frames[j]) matches PackFrame::Archive {
                        paths,
                        next,
                        depth: _,
                    } ==> next >= paths@.len())
            },
        m.step is Finish && (forall|i: int|
            0 <= i < frames.len() ==> (#[trigger] frames[i]) is Bundle) ==> m.step == (
        SearchStep::Finish { result: Err(failure) }),
        m.step is Finish && (exists|i: int|
            0 <= i < frames.len() && (#[trigger] frames[i]) is Archive) ==> m.step == (
        SearchStep::Finish { result: Err(PackFailure::Refused(Refusal::UnrecognizedPack)) }),
{
    let k = lemma_unwound(frames, failure);
    if k >= 0 {
        assert(frames[k] is Archive);
    }
}

proof fn lemma_unwound(frames: Seq<PackFrame>, failure: PackFailure) -> (k: int)
    ensures
        -1 <= k < frames.len(),
        forall|j: int|
            k < j < frames.len() ==> ((#[trigger] frames[j]) matches PackFrame::Archive {
                paths,
                next,
                depth: _,
            } ==> next >= paths@.len()),
        ({
            let (f, n, t, e) = unwound(frames, failure);
            &&& n == frames.len() - k - 1
            &&& if k >= 0 {
                &&& frames[k] matches PackFrame::Archive { paths, next, depth }
                &&& next < paths@.len()
                &&& t == Some((paths@[next as int], (depth + 1) as nat))
                &&& f == frames.take(k).push(
                    PackFrame::Archive { paths, next: (next + 1) as usize, depth },
                )
            } else {
                &&& t is None
                &&& (forall|i: int| 0 <= i < frames.len() ==> (#[trigger] frames[i]) is Bundle)
                    ==> e == failure
                &&& (exists|i: int| 0 <= i < frames.len() && (#[trigger] frames[i]) is Archive)
                    ==> e == PackFailure::Refused(Refusal::UnrecognizedPack)
            }
        }),
    decreases frames.len(),
{
    if frames.len() == 0 {
        -1
    } else {
        let outer = frames.drop_last();
        let last = frames.len() - 1;
        assert(frames[last] == frames.last());
        match frames.last() {
            PackFrame::Bundle => {
                let k = lemma_unwound(outer, failure);
                assert forall|j: int| k < j < frames.len() implies ((
                #[trigger] frames[j]) matches PackFrame::Archive { paths, next, depth: _ } ==> next
                    >= paths@.len()) by {
                    if j < last {
                        assert(outer[j] == frames[j]);
                    }
                }
                if k >= 0 {
                    assert(outer[k] == frames[k]);
                    assert(outer.take(k) =~= frames.take(k));
                } else {
                    if forall|i: int| 0 <= i < frames.len() ==> (#[trigger] frames[i]) is Bundle {
                        assert forall|i: int| 0 <= i < outer.len() implies (#[trigger] outer[i])
                            is Bundle by {
                            assert(outer[i] == frames[i]);
                        }
                    }
                    if exists|i: int| 0 <= i < frames.len() && (#[trigger] frames[i]) is Archive {
                        let i = choose|i: int|
                            0 <= i < frames.len() && (#[trigger] frames[i]) is Archive;
                        assert(outer[i] == frames[i]);
                    }
                }
                k
            },
            PackFrame::Archive { paths, next, depth } => if next < paths@.len() {
                assert(outer =~= frames.take(last));
                last
            } else {
                let unrecognized = PackFailure::Refused(Refusal::UnrecognizedPack);
                let k = lemma_unwound(outer, unrecognized);
                assert forall|j: int| k < j < frames.len() implies ((
                #[trigger] frames[j]) matches PackFrame::Archive { paths, next, depth: _ } ==> next
                    >= paths@.len()) by {
                    if j < last {
                        assert(outer[j] == frames[j]);
                    }
                }
                if k >= 0 {
                    assert(outer[k] == frames[k]);
                    assert(outer.take(k) =~= frames.take(k));
                } else if forall|i: int| 0 <= i < outer.len() ==> (#[trigger] outer[i]) is Bundle {
                } else {
                    let i = choose|i: int| 0 <= i < outer.len() && !((#[trigger] outer[i])
                        is Bundle);
                    assert(outer[i] is Archive);
                }
                k
            },
        }
    }
}

/// A pack that was found is installed from the file that was looked at. If it cannot be,
/// the search goes on as after any failure.
pub proof fn law_found_packs_are_installed(
    frames: Seq<PackFrame>,
    detected: DetectedLocalPack,
    path: String,
    next: LocalPackSearch,
    m: SearchMove,
    windows: bool,
)
    requires
        installs(frames, detected, path, next, m, windows),
    ensures
        local_refusal(detected) is None ==> {
            &&& m.cleanups == 0
            &&& next.frames() == frames
            &&& m.step is Install
            &&& is_local_install(m.step->Install_install, detected, path, windows)
        },
        local_refusal(detected) matches Some(refusal) ==> goes_on(
            frames,
            PackFailure::Refused(refusal),
            next,
            m,
        ) && !(m.step is Install),
{
}

/// What is being looked through is shown by its file's name, with how deep the search is
/// and how deep it goes at most.
pub proof fn law_how_a_search_is_shown(path: Seq<char>, depth: nat, windows: bool)
    ensures
        file_name(path, windows) is Some ==> shown_name(path, windows) == file_name(
            path,
            windows,
        )->0,
        file_name(path, windows) is None ==> shown_name(path, windows) == "archive"@,
        scanning_title(path, depth, windows) == "Scanning "@ + shown_name(path, windows)
            + " (level "@ + numeral(depth) + "/"@ + numeral(3) + ")"@,
{
}

} // verus!

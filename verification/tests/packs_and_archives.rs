use std::io::{Cursor, Write};
use theseus::error::{Error, ErrorKind, Refusal};
use theseus::install::cleanroom::{
    cleanroom_download_request, cleanroom_mods, installer_url, path_of_library,
    version_file_name, Installer, ReleaseAsset, ResourceClass, CLEANROOM_GITHUB_API,
};
use theseus::install::local_pack::{
    extracting_title, has_archive_ending, local_install, sub_archives, DetectedLocalPack,
    LocalInstall, LocalPackFormat, LocalPackSearch, PackFailure, PackOutcome, SearchStep,
};
use theseus::install::pack::{local_pack_route, LocalPackRoute};

fn text(s: &str) -> String {
    s.to_string()
}

fn pack(format: LocalPackFormat) -> DetectedLocalPack {
    DetectedLocalPack {
        format,
        base_folder: text("base"),
        inner_pack_entry: None,
        plain_version_id: None,
    }
}

fn bundle() -> DetectedLocalPack {
    DetectedLocalPack {
        inner_pack_entry: Some(text("inner/pack.mrpack")),
        ..pack(LocalPackFormat::LauncherBundled)
    }
}

fn broken() -> PackFailure {
    PackFailure::Failed(Error {
        raw: ErrorKind::ZipError(text("bad")),
        text: text("bad"),
        api: None,
    })
}

fn unrecognized() -> SearchStep {
    SearchStep::Finish { result: Err(PackFailure::Refused(Refusal::UnrecognizedPack)) }
}

#[test]
fn each_format_has_its_installer() {
    let path = || text("/packs/My Pack.zip");
    let name = || Some(text("My Pack.zip"));
    let base = || text("base");
    assert_eq!(
        local_install(pack(LocalPackFormat::Mrpack), path(), false),
        Ok(LocalInstall::Mrpack { path: path() })
    );
    assert_eq!(
        local_install(pack(LocalPackFormat::CurseForge), path(), false),
        Ok(LocalInstall::CurseForge { path: path(), base_folder: base(), source_filename: name() })
    );
    assert_eq!(
        local_install(pack(LocalPackFormat::Mcbbs), path(), false),
        Ok(LocalInstall::Mcbbs { path: path(), base_folder: base(), source_filename: name() })
    );
    assert_eq!(
        local_install(pack(LocalPackFormat::Hmcl), path(), false),
        Ok(LocalInstall::Hmcl { path: path(), base_folder: base(), source_filename: name() })
    );
    assert_eq!(
        local_install(pack(LocalPackFormat::MmcExport), path(), false),
        Ok(LocalInstall::MmcExport { path: path(), base_folder: base(), source_filename: name() })
    );
    assert_eq!(
        local_install(pack(LocalPackFormat::InstanceFolder), path(), false),
        Ok(LocalInstall::Folder { path: path(), base_folder: base(), title: name() })
    );
    assert_eq!(
        local_install(bundle(), path(), false),
        Ok(LocalInstall::Bundle {
            path: path(),
            entry: text("inner/pack.mrpack"),
            inner_name: text("pack.mrpack"),
        })
    );
    assert_eq!(
        local_install(pack(LocalPackFormat::LauncherBundled), path(), false),
        Err(Refusal::BundleWithoutInnerPack)
    );
    assert_eq!(
        local_install(pack(LocalPackFormat::PlainArchive), path(), false),
        Err(Refusal::ArchiveWithoutVersion)
    );
    let plain = DetectedLocalPack {
        plain_version_id: Some(text("1.20.1")),
        ..pack(LocalPackFormat::PlainArchive)
    };
    assert_eq!(
        local_install(plain, path(), false),
        Ok(LocalInstall::Plain {
            path: path(),
            base_folder: base(),
            version_id: text("1.20.1"),
            source_filename: name(),
        })
    );
    assert_eq!(local_pack_route(Some(pack(LocalPackFormat::Mrpack))), LocalPackRoute::Mrpack);
    assert_eq!(
        local_pack_route(Some(pack(LocalPackFormat::Hmcl))),
        LocalPackRoute::OtherFormat(pack(LocalPackFormat::Hmcl))
    );
}

#[test]
fn archives_inside_are_known_by_their_ending() {
    assert!(has_archive_ending("a.zip"));
    assert!(!has_archive_ending("a.ZIP"));
    let names = vec![text("a.txt"), text("B.ZIP"), text("c.mrpack/x"), text("d/E.MrPack")];
    assert_eq!(sub_archives(&names), vec![1, 3]);
    assert_eq!(extracting_title("/packs/a.zip", false), "Extracting a.zip");
    assert_eq!(extracting_title("/", false), "Extracting archive");
}

#[test]
fn search_tries_every_archive_inside() {
    let (search, step) = LocalPackSearch::from_path(text("/p/outer.zip"));
    assert_eq!(step.step, SearchStep::Detect { path: text("/p/outer.zip") });
    let (search, step) = search.detected(None, false);
    assert_eq!(
        step.step,
        SearchStep::Scan {
            path: text("/p/outer.zip"),
            title: text("Scanning outer.zip (level 0/3)"),
        }
    );
    let (search, step) = search.scanned(Ok(vec![text("/s/a.zip"), text("/s/b.zip")]));
    assert_eq!(step.step, SearchStep::Detect { path: text("/s/a.zip") });
    let (search, step) = search.detected(Some(pack(LocalPackFormat::Hmcl)), false);
    assert!(matches!(step.step, SearchStep::Install { install: LocalInstall::Hmcl { .. } }));
    let (search, step) = search.installed(Err(broken()));
    assert_eq!(step.cleanups, 0);
    assert_eq!(step.step, SearchStep::Detect { path: text("/s/b.zip") });
    let (search, step) = search.detected(None, false);
    assert!(matches!(&step.step, SearchStep::Scan { title, .. }
        if title == "Scanning b.zip (level 1/3)"));
    let (_, step) = search.scanned(Ok(vec![]));
    assert_eq!(step.cleanups, 2);
    assert_eq!(step.step, unrecognized());
}

#[test]
fn search_ends_with_the_first_pack_that_works() {
    let (search, _) = LocalPackSearch::from_path(text("/p/outer.zip"));
    let (search, _) = search.detected(None, false);
    let (search, _) = search.scanned(Ok(vec![text("/s/a.zip"), text("/s/b.zip")]));
    let (search, _) = search.detected(Some(pack(LocalPackFormat::Mrpack)), false);
    let (_, step) = search.installed(Ok(PackOutcome::Completed));
    assert_eq!(step.cleanups, 1);
    assert_eq!(step.step, SearchStep::Finish { result: Ok(PackOutcome::Completed) });
}

#[test]
fn search_stops_at_its_depth() {
    let (mut search, _) = LocalPackSearch::from_path(text("/0.zip"));
    for depth in 1..=3 {
        let (scanning, step) = search.detected(None, false);
        assert!(matches!(step.step, SearchStep::Scan { .. }));
        let (next, step) = scanning.scanned(Ok(vec![format!("/{depth}.zip")]));
        assert_eq!(step.step, SearchStep::Detect { path: format!("/{depth}.zip") });
        search = next;
    }
    let (_, step) = search.detected(None, false);
    assert_eq!(step.cleanups, 3);
    assert_eq!(step.step, unrecognized());
}

#[test]
fn bundles_count_as_one_level() {
    let (search, step) = LocalPackSearch::from_detected(bundle(), text("/p/bundle.zip"), false);
    assert!(matches!(step.step, SearchStep::Install { install: LocalInstall::Bundle { .. } }));
    let (search, step) = search.extracted(Ok(text("/s/pack.mrpack")));
    assert_eq!(step.step, SearchStep::Detect { path: text("/s/pack.mrpack") });
    let (search, step) = search.detected(None, false);
    assert!(matches!(&step.step, SearchStep::Scan { title, .. }
        if title == "Scanning pack.mrpack (level 1/3)"));
    let (_, step) = search.scanned(Err(broken()));
    assert_eq!(step.cleanups, 1);
    assert_eq!(step.step, SearchStep::Finish { result: Err(broken()) });

    let (search, _) = LocalPackSearch::from_detected(bundle(), text("/p/bundle.zip"), false);
    let (_, step) = search.extracted(Err(broken()));
    assert_eq!(step.cleanups, 0);
    assert_eq!(step.step, SearchStep::Finish { result: Err(broken()) });
    assert_eq!(
        Refusal::UnrecognizedPack.message(),
        "Unrecognized modpack format: no known pack manifest was found in the archive"
    );
}

#[test]
fn cleanroom_is_downloaded_through_the_mirror() {
    let request = cleanroom_download_request(CLEANROOM_GITHUB_API);
    assert_eq!(
        request.url,
        "https://ghfast.top/https://api.github.com/repos/CleanroomMC/Cleanroom/releases/latest"
    );
    assert_eq!(request.class, ResourceClass::Other);
    assert_eq!(request.candidate_urls, vec![CLEANROOM_GITHUB_API]);
    let asset = |name: &str| ReleaseAsset {
        name: text(name),
        browser_download_url: format!("https://host/{name}"),
    };
    assert_eq!(installer_url(&vec![asset("a.jar")]), Err(Refusal::NoCleanroomInstaller));
    assert_eq!(
        installer_url(&vec![asset("a.jar"), asset("b-installer.jar"), asset("c-installer.jar")]),
        Ok(text("https://host/b-installer.jar"))
    );
    assert_eq!(cleanroom_mods()[0].1, "+Fugue-0.23.8-dev.jar");
    assert_eq!(cleanroom_mods()[1].1, "scalar-1.12.2-2.11.1.jar");
    assert_eq!(version_file_name("cleanroom-0.1"), "cleanroom-0.1.json");
}

#[test]
fn libraries_are_the_enclosed_files_under_maven() {
    for (name, expected) in [
        ("maven/a/b.jar", Some("a/b.jar")),
        ("maven//a/./b.jar", Some("a/./b.jar")),
        ("maven/./a", Some("a")),
        ("maven/a/.", Some("a")),
        ("maven/a/../b.jar", Some("a/../b.jar")),
        ("maven", Some("")),
        ("maven/a/", None),
        ("maven/a\\", None),
        ("maven/../../b.jar", None),
        ("/maven/b.jar", None),
        ("mavens/b.jar", None),
        ("x/maven/b.jar", None),
        ("maven/a\0b", None),
    ] {
        assert_eq!(path_of_library(name, false).as_deref(), expected, "{name}");
    }
    // On Windows both slashes separate, and a drive leads out of the archive.
    for (name, here, elsewhere) in [
        ("maven/..\\..\\..\\x", None, Some("..\\..\\..\\x")),
        ("maven\\a\\b.jar", Some("a\\b.jar"), None),
        ("maven/a\\.", Some("a"), Some("a\\.")),
        ("maven/\\a.jar", Some("a.jar"), Some("\\a.jar")),
        ("C:maven/a.jar", None, None),
        ("\\maven\\a.jar", None, None),
        ("maven/a/b.jar", Some("a/b.jar"), Some("a/b.jar")),
    ] {
        assert_eq!(path_of_library(name, true).as_deref(), here, "{name}");
        assert_eq!(path_of_library(name, false).as_deref(), elsewhere, "{name}");
    }
}

fn archive(entries: &[(&str, &str)]) -> Vec<u8> {
    let mut writer = zip::ZipWriter::new(Cursor::new(Vec::new()));
    for (name, contents) in entries {
        writer.start_file(*name, zip::write::SimpleFileOptions::default()).unwrap();
        writer.write_all(contents.as_bytes()).unwrap();
    }
    writer.finish().unwrap().into_inner()
}

#[test]
fn installers_are_read_from_their_archive() {
    let bytes = archive(&[
        ("install_profile.json", "{\"libraries\":[]}"),
        ("maven/net/a.jar", "first"),
        ("other/b.jar", "second"),
        ("maven/c.jar", "third"),
    ]);
    let mut installer = match Installer::open(bytes) {
        Ok(installer) => installer,
        Err(refusal) => panic!("not opened: {refusal:?}"),
    };
    assert_eq!(
        installer.read(&text("install_profile.json")),
        Ok(b"{\"libraries\":[]}".to_vec())
    );
    let refusal = installer.read(&text("version.json")).unwrap_err();
    assert_eq!(refusal.message(), "Cleanroom installer is missing version.json");
    assert_eq!(refusal.to_kind(), ErrorKind::LauncherError(refusal.message()));
    assert_eq!(
        installer.libraries(false),
        Ok(vec![
            (text("net/a.jar"), b"first".to_vec()),
            (text("c.jar"), b"third".to_vec()),
        ])
    );
}

#[test]
fn broken_installers_are_refused() {
    match Installer::open(b"no archive".to_vec()) {
        Ok(_) => panic!("opened"),
        Err(refusal) => {
            assert!(matches!(&refusal, Refusal::InstallerNotOpened(_)));
            assert!(refusal
                .message()
                .starts_with("Failed to open Cleanroom installer archive: "));
        }
    }
    let mut bytes = archive(&[("maven/a.jar", "some contents of a library")]);
    let at = bytes.windows(4).position(|window| window == b"some").unwrap_or(50);
    bytes[at] ^= 0xff;
    bytes[at + 1] ^= 0xff;
    let mut installer = match Installer::open(bytes) {
        Ok(installer) => installer,
        Err(refusal) => panic!("not opened: {refusal:?}"),
    };
    assert!(matches!(installer.libraries(false), Err(Refusal::InstallerEntryNotRead(_))));
    assert!(matches!(
        installer.read(&text("maven/a.jar")),
        Err(Refusal::InstallerEntryNotRead(_))
    ));
}

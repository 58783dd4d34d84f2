use theseus::error::{ErrorKind, Refusal};
use theseus::install::model::{Instance, InstanceInstallStage};
use theseus::jre::{after_local, get_optimal_jre_key, required_java, JreStep};
use theseus::metadata::{
    get_loader_versions_with_cache, get_minecraft_versions_with_cache, known_loader_versions,
    Manifest,
};
use theseus::updater::{
    apt_outcome, apt_script, check_at, endpoint_of, is_apt_linux, metadata_with,
    size_request_headers, update_channel, update_endpoint, update_metadata, update_platform,
    update_size, AptProbe, PendingUpdateData,
};

fn text(s: &str) -> String {
    s.to_string()
}

fn probe() -> AptProbe {
    AptProbe {
        is_linux: true,
        has_debian_version: false,
        has_apt_directory: false,
        has_apt_get: true,
        has_usr_bin_pkexec: false,
        has_bin_pkexec: true,
    }
}

#[test]
fn updates_have_two_channels() {
    assert_eq!(update_channel(&text("release")), Ok(text("release")));
    assert_eq!(update_channel(&text("beta")), Ok(text("beta")));
    let refusal = update_channel(&text("Beta")).unwrap_err();
    assert_eq!(refusal.message(), "Unknown update channel: Beta");
    assert_eq!(refusal.to_kind(), ErrorKind::OtherError(refusal.message()));
}

#[test]
fn updates_are_published_for_five_platforms() {
    for (os, arch, expected) in [
        ("windows", "x86_64", "windows-x86_64"),
        ("linux", "x86_64", "linux-x86_64"),
        ("linux", "aarch64", "linux-aarch64"),
        ("macos", "x86_64", "darwin-x86_64"),
        ("macos", "aarch64", "darwin-aarch64"),
    ] {
        assert_eq!(update_platform(&text(os), &text(arch)), Ok(expected));
    }
    let refusal = update_platform(&text("windows"), &text("aarch64")).unwrap_err();
    assert_eq!(refusal.message(), "Unsupported updater platform: windows-aarch64");
}

#[test]
fn updates_are_looked_for_with_four_headers() {
    let endpoint = update_endpoint();
    assert_eq!(endpoint, Ok(text("https://update.axlmc.org/latest")));
    let check = check_at(
        &text("beta"),
        &text("linux"),
        &text("x86_64"),
        "1.2.3",
        &None,
        endpoint,
    )
    .unwrap();
    assert_eq!(check.endpoint, "https://update.axlmc.org/latest");
    assert_eq!(
        check.headers,
        vec![
            (text("Accept"), text("application/json")),
            (text("X-Axolotl-Channel"), text("beta")),
            (text("X-Axolotl-Platform"), text("linux-x86_64")),
            (text("X-Axolotl-Version"), text("1.2.3")),
        ]
    );
    assert_eq!(check.installer_arg, None);
    let check = check_at(
        &text("release"),
        &text("windows"),
        &text("x86_64"),
        "1.2.3",
        &Some(text("C:\\Axolotl")),
        Ok(text("https://host")),
    )
    .unwrap();
    assert_eq!(check.installer_arg.as_deref(), Some("/INSTALL_DIR=\"C:\\Axolotl\""));
    let refused = |channel: &str, os: &str, endpoint: Result<String, Refusal>| {
        check_at(&text(channel), &text(os), &text("x86_64"), "1", &None, endpoint).unwrap_err()
    };
    let bad = || Err(Refusal::InvalidEndpoint(text("bad")));
    assert_eq!(refused("x", "linux", bad()), Refusal::UnknownUpdateChannel(text("x")));
    assert_eq!(
        refused("beta", "plan9", bad()),
        Refusal::UnsupportedPlatform(text("plan9"), text("x86_64"))
    );
    assert_eq!(refused("beta", "linux", bad()), Refusal::InvalidEndpoint(text("bad")));
    assert_eq!(endpoint_of(Err(text("bad"))), bad());
}

#[test]
fn answers_tell_when_an_update_was_published() {
    let metadata = update_metadata(
        7,
        text("1.0"),
        text("2.0"),
        Some(text("notes")),
        text(r#"{"published_at":"2026-01-02","force_update":true}"#),
    );
    assert_eq!(metadata.rid, 7);
    assert_eq!(metadata.published_at.as_deref(), Some("2026-01-02"));
    assert!(metadata.force_update);
    assert_eq!(metadata.date, None);
    for answer in ["{}", "[]", "no json", r#"{"published_at":5,"force_update":"true"}"#] {
        let metadata = update_metadata(7, text("1.0"), text("2.0"), None, text(answer));
        assert_eq!(metadata.published_at, None);
        assert!(!metadata.force_update);
        assert_eq!(metadata.raw_json, answer);
    }
    let metadata =
        metadata_with(1, text("a"), text("b"), None, text("{}"), Some(text("x")), Some(false));
    assert_eq!(metadata.published_at.as_deref(), Some("x"));
    assert!(!metadata.force_update);
}

#[test]
fn sizes_are_asked_for_as_anything() {
    let header = |name: &str, value: &str| (text(name), text(value));
    assert_eq!(
        size_request_headers(vec![header("X-A", "b")]),
        vec![header("X-A", "b"), header("accept", "application/octet-stream")]
    );
    let given = vec![header("ACCEPT", "text/plain")];
    assert_eq!(size_request_headers(given.clone()), given);
    assert_eq!(update_size(true, text("200 OK"), &Some(text("123"))), Ok(Some(123)));
    assert_eq!(update_size(true, text("200 OK"), &Some(text("x"))), Ok(None));
    assert_eq!(update_size(true, text("200 OK"), &None), Ok(None));
    assert_eq!(
        update_size(true, text("200 OK"), &Some(text("18446744073709551616"))),
        Ok(None)
    );
    let refusal =
        update_size(false, text("404 Not Found"), &Some(text("123"))).unwrap_err();
    assert_eq!(refusal.message(), "Download request failed with status: 404 Not Found");
}

#[test]
fn one_update_is_pending_at_a_time() {
    let mut pending: PendingUpdateData<u8> = PendingUpdateData::empty();
    assert!(pending.remove().is_none());
    pending.enqueue(1, vec![1]);
    pending.enqueue(2, vec![2, 2]);
    assert_eq!(pending.remove(), Some((2, vec![2, 2])));
    assert!(pending.pending.is_none());
}

#[test]
fn apt_needs_debian_and_pkexec() {
    assert!(is_apt_linux(probe()));
    assert!(!is_apt_linux(AptProbe { is_linux: false, ..probe() }));
    assert!(!is_apt_linux(AptProbe { has_apt_get: false, ..probe() }));
    assert!(is_apt_linux(AptProbe { has_apt_get: false, has_debian_version: true, ..probe() }));
    assert!(!is_apt_linux(AptProbe { has_bin_pkexec: false, ..probe() }));
    assert_eq!(
        apt_script(probe()),
        Ok(text(
            "curl -fsSL https://ppa.axlmc.org/setup.sh | bash && apt-get update && apt-get install -y axolotl-launcher"
        ))
    );
    assert_eq!(
        apt_script(AptProbe { is_linux: false, ..probe() }),
        Err(Refusal::AptUnsupported)
    );
    assert_eq!(apt_outcome(true, "warning"), Ok(()));
    let refusal = apt_outcome(false, "\n denied \n").unwrap_err();
    assert_eq!(refusal.message(), "apt update failed: denied");
}

#[test]
fn cleanroom_versions_are_known() {
    let manifest = known_loader_versions("cleanroom").unwrap();
    assert_eq!(manifest.game_versions.len(), 1);
    assert_eq!(manifest.game_versions[0].id, "1.12.2");
    assert_eq!(manifest.game_versions[0].loaders[0].id, "latest");
    assert_eq!(manifest.game_versions[0].loaders[0].url, "");
    assert!(known_loader_versions("fabric").is_none());
    assert_eq!(get_loader_versions_with_cache(&text("cleanroom"), None), Ok(manifest));
    let other = Manifest { game_versions: vec![], version_groups: vec![text("g")] };
    assert_eq!(
        get_loader_versions_with_cache(&text("fabric"), Some(other.clone())),
        Ok(other)
    );
    let refusal = get_loader_versions_with_cache(&text("fabric"), None).unwrap_err();
    assert_eq!(refusal.to_kind(), ErrorKind::NoValueFor(text("fabric loader versions")));
    assert_eq!(get_minecraft_versions_with_cache(Some(3)), Ok(3));
    let refusal = get_minecraft_versions_with_cache::<u8>(None).unwrap_err();
    assert_eq!(refusal.to_kind(), ErrorKind::NoValueFor(text("minecraft versions")));
}

#[test]
fn runtimes_are_found_from_local_descriptions_first() {
    let instance = |direct_linked: bool| Instance {
        id: text("id"),
        path: text("path"),
        name: text("name"),
        icon_path: None,
        install_stage: InstanceInstallStage::Installed,
        linked_dot_minecraft: None,
        direct_linked,
    };
    assert_eq!(
        get_optimal_jre_key(&text("id"), Some(&instance(true))),
        Ok(JreStep::ReadLocal)
    );
    assert_eq!(
        get_optimal_jre_key(&text("id"), Some(&instance(false))),
        Ok(JreStep::Download)
    );
    let refusal = get_optimal_jre_key(&text("id"), None).unwrap_err();
    assert_eq!(refusal.message(), "Tried to resolve a nonexistent instance id!");
    assert_eq!(refusal.to_kind(), ErrorKind::OtherError(refusal.message()));
    assert_eq!(after_local(None), JreStep::Download);
    assert_eq!(after_local(Some(Some(17))), JreStep::Find { major_version: 17 });
    assert_eq!(after_local(Some(None)), JreStep::Find { major_version: 8 });
    assert_eq!(required_java(Some(21)), JreStep::Find { major_version: 21 });
}

//! Updates of the launcher itself: where they are looked for, what is asked and
//! what is made of the answer.
use vstd::prelude::*;

use crate::decimal::{parse_u64, parsed};
use crate::error::Refusal;
use crate::paths::opt_view;
use crate::text::{
    ascii_lower, concat2, concat3, str_eq, to_ascii_lower, trim, trimmed,
};

verus! {

pub const UPDATE_SERVER_LATEST_URL: &'static str = "https://update.axlmc.org/latest";

pub const AXOLOTL_APT_SETUP_URL: &'static str = "https://ppa.axlmc.org/setup.sh";

pub const AXOLOTL_APT_PACKAGE: &'static str = "axolotl-launcher";

/// How long the download of an update may take, in seconds.
pub const UPDATE_DOWNLOAD_TIMEOUT_SECS: u64 = 900;

/// Whether updates are published on a channel.
pub open spec fn is_channel(channel: Seq<char>) -> bool {
    channel == "release"@ || channel == "beta"@
}

/// The channel, if updates are published on it.
pub fn update_channel(channel: &String) -> (r: Result<String, Refusal>)
    ensures
        r == if is_channel(channel@) {
            Ok::<String, Refusal>(*channel)
        } else {
            Err(Refusal::UnknownUpdateChannel(*channel))
        },
{
    if str_eq(channel.as_str(), "release") || str_eq(channel.as_str(), "beta") {
        Ok(channel.clone())
    } else {
        Err(Refusal::UnknownUpdateChannel(channel.clone()))
    }
}

/// The platforms that updates are published for.
#[derive(Clone, Copy, Debug, PartialEq, Eq, Structural)]
pub enum Platform {
    WindowsX64,
    LinuxX64,
    LinuxArm64,
    MacX64,
    MacArm64,
}

impl Platform {
    /// The name of the platform at the update server.
    pub open spec fn label(self) -> Seq<char> {
        match self {
            Platform::WindowsX64 => "windows-x86_64"@,
            Platform::LinuxX64 => "linux-x86_64"@,
            Platform::LinuxArm64 => "linux-aarch64"@,
            Platform::MacX64 => "darwin-x86_64"@,
            Platform::MacArm64 => "darwin-aarch64"@,
        }
    }

    /// The name of the platform at the update server.
    pub fn as_str(self) -> (r: &'static str)
        ensures
            r@ == self.label(),
    {
        match self {
            Platform::WindowsX64 => "windows-x86_64",
            Platform::LinuxX64 => "linux-x86_64",
            Platform::LinuxArm64 => "linux-aarch64",
            Platform::MacX64 => "darwin-x86_64",
            Platform::MacArm64 => "darwin-aarch64",
        }
    }
}

/// The platform of an operating system on an architecture.
pub open spec fn platform_of(os: Seq<char>, arch: Seq<char>) -> Option<Platform> {
    if os == "windows"@ && arch == "x86_64"@ {
        Some(Platform::WindowsX64)
    } else if os == "linux"@ && arch == "x86_64"@ {
        Some(Platform::LinuxX64)
    } else if os == "linux"@ && arch == "aarch64"@ {
        Some(Platform::LinuxArm64)
    } else if os == "macos"@ && arch == "x86_64"@ {
        Some(Platform::MacX64)
    } else if os == "macos"@ && arch == "aarch64"@ {
        Some(Platform::MacArm64)
    } else {
        None
    }
}

/// The name of the platform at the update server, if updates are published for
/// it.
pub fn update_platform(os: &String, arch: &String) -> (r: Result<&'static str, Refusal>)
    ensures
        match r {
            Ok(name) => platform_of(os@, arch@) is Some && name@ == platform_of(
                os@,
                arch@,
            )->0.label(),
            Err(refusal) => platform_of(os@, arch@) is None && refusal
                == Refusal::UnsupportedPlatform(*os, *arch),
        },
{
    let (o, a) = (os.as_str(), arch.as_str());
    let platform = if str_eq(o, "windows") && str_eq(a, "x86_64") {
        Platform::WindowsX64
    } else if str_eq(o, "linux") && str_eq(a, "x86_64") {
        Platform::LinuxX64
    } else if str_eq(o, "linux") && str_eq(a, "aarch64") {
        Platform::LinuxArm64
    } else if str_eq(o, "macos") && str_eq(a, "x86_64") {
        Platform::MacX64
    } else if str_eq(o, "macos") && str_eq(a, "aarch64") {
        Platform::MacArm64
    } else {
        return Err(Refusal::UnsupportedPlatform(os.clone(), arch.clone()));
    };
    Ok(platform.as_str())
}

/// A URL written out in full, or why a text is no URL.
pub uninterp spec fn url_text(text: Seq<char>) -> Result<Seq<char>, Seq<char>>;

/// `url::Url::parse`: the URL that a text stands for, written out in full, or the
/// text of the error.
#[verifier::external_body]
fn parse_url(text: &str) -> (r: Result<String, String>)
    ensures
        match r {
            Ok(url) => url_text(text@) == Ok::<Seq<char>, Seq<char>>(url@),
            Err(error) => url_text(text@) == Err::<Seq<char>, Seq<char>>(error@),
        },
{
    match url::Url::parse(text) {
        Ok(url) => Ok(String::from(url)),
        Err(error) => Err(error.to_string()),
    }
}

/// Where updates are looked for, given what reading the address gave.
pub fn endpoint_of(parsed: Result<String, String>) -> (r: Result<String, Refusal>)
    ensures
        r == match parsed {
            Ok(url) => Ok::<String, Refusal>(url),
            Err(error) => Err(Refusal::InvalidEndpoint(error)),
        },
{
    match parsed {
        Ok(url) => Ok(url),
        Err(error) => Err(Refusal::InvalidEndpoint(error)),
    }
}

/// Where updates are looked for.
pub fn update_endpoint() -> (r: Result<String, Refusal>)
    ensures
        match (r, url_text(UPDATE_SERVER_LATEST_URL@)) {
            (Ok(url), Ok(text)) => url@ == text,
            (Err(Refusal::InvalidEndpoint(error)), Err(text)) => error@ == text,
            _ => false,
        },
        r matches Ok(url) ==> url_text("https://update.axlmc.org/latest"@) == Ok::<
            Seq<char>,
            Seq<char>,
        >(url@),
{
    endpoint_of(parse_url(UPDATE_SERVER_LATEST_URL))
}

/// The texts of pairs.
pub open spec fn header_views(headers: Seq<(String, String)>) -> Seq<(Seq<char>, Seq<char>)> {
    headers.map_values(|h: (String, String)| (h.0@, h.1@))
}

/// What is sent along when updates are looked for.
pub open spec fn check_headers(
    channel: Seq<char>,
    platform: Seq<char>,
    version: Seq<char>,
) -> Seq<(Seq<char>, Seq<char>)> {
    seq![
        ("Accept"@, "application/json"@),
        ("X-Axolotl-Channel"@, channel),
        ("X-Axolotl-Platform"@, platform),
        ("X-Axolotl-Version"@, version),
    ]
}

fn headers_for(channel: &str, platform: &str, version: &str) -> (r: Vec<(String, String)>)
    ensures
        header_views(r@) == check_headers(channel@, platform@, version@),
{
    let mut headers: Vec<(String, String)> = Vec::new();
    headers.push(("Accept".to_owned(), "application/json".to_owned()));
    headers.push(("X-Axolotl-Channel".to_owned(), channel.to_owned()));
    headers.push(("X-Axolotl-Platform".to_owned(), platform.to_owned()));
    headers.push(("X-Axolotl-Version".to_owned(), version.to_owned()));
    assert(header_views(headers@) =~= check_headers(channel@, platform@, version@));
    headers
}

/// A look for updates.
#[derive(Clone, Debug, PartialEq, Eq)]
pub struct UpdateCheck {
    pub endpoint: String,
    pub headers: Vec<(String, String)>,
    /// What the installer is told on Windows.
    pub installer_arg: Option<String>,
}

/// Why updates cannot be looked for.
pub open spec fn is_check_refusal(
    channel: String,
    os: String,
    arch: String,
    endpoint: Result<String, Refusal>,
    refusal: Refusal,
) -> bool {
    if !is_channel(channel@) {
        refusal == Refusal::UnknownUpdateChannel(channel)
    } else if platform_of(os@, arch@) is None {
        refusal == Refusal::UnsupportedPlatform(os, arch)
    } else {
        endpoint == Err::<String, Refusal>(refusal)
    }
}

/// A look for updates on a channel, for the version that runs on a platform.
/// `endpoint` is where they are looked for; `install_dir` is where the launcher is
/// installed, which counts on Windows alone.
pub fn check_at(
    channel: &String,
    os: &String,
    arch: &String,
    current_version: &str,
    install_dir: &Option<String>,
    endpoint: Result<String, Refusal>,
) -> (r: Result<UpdateCheck, Refusal>)
    ensures
        match r {
            Ok(check) => {
                &&& is_channel(channel@)
                &&& platform_of(os@, arch@) is Some
                &&& endpoint == Ok::<String, Refusal>(check.endpoint)
                &&& header_views(check.headers@) == check_headers(
                    channel@,
                    platform_of(os@, arch@)->0.label(),
                    current_version@,
                )
                &&& opt_view(check.installer_arg) == match *install_dir {
                    Some(dir) => Some("/INSTALL_DIR=\""@ + dir@ + "\""@),
                    None => None,
                }
            },
            Err(refusal) => is_check_refusal(*channel, *os, *arch, endpoint, refusal),
        },
{
    let channel = match update_channel(channel) {
        Ok(channel) => channel,
        Err(refusal) => {
            return Err(refusal);
        },
    };
    let platform = match update_platform(os, arch) {
        Ok(platform) => platform,
        Err(refusal) => {
            return Err(refusal);
        },
    };
    let endpoint = match endpoint {
        Ok(endpoint) => endpoint,
        Err(refusal) => {
            return Err(refusal);
        },
    };
    let headers = headers_for(channel.as_str(), platform, current_version);
    let installer_arg = match install_dir {
        Some(dir) => Some(concat3("/INSTALL_DIR=\"", dir.as_str(), "\"")),
        None => None,
    };
    Ok(UpdateCheck { endpoint, headers, installer_arg })
}

/// The string that a JSON text, if it is an object, holds under a key.
pub uninterp spec fn json_string_member(json: Seq<char>, key: Seq<char>) -> Option<Seq<char>>;

/// The truth value that a JSON text, if it is an object, holds under a key.
pub uninterp spec fn json_bool_member(json: Seq<char>, key: Seq<char>) -> Option<bool>;

/// `serde_json::Value::get` and `as_str` on the value that a JSON text stands for:
/// the string under a key, if there is one.
#[verifier::external_body]
fn string_member(json: &str, key: &str) -> (r: Option<String>)
    ensures
        opt_view(r) == json_string_member(json@, key@),
{
    let value: serde_json::Value = serde_json::from_str(json).ok()?;
    value.get(key).and_then(serde_json::Value::as_str).map(str::to_owned)
}

/// `serde_json::Value::get` and `as_bool` on the value that a JSON text stands
/// for: the truth value under a key, if there is one.
#[verifier::external_body]
fn bool_member(json: &str, key: &str) -> (r: Option<bool>)
    ensures
        r == json_bool_member(json@, key@),
{
    let value: serde_json::Value = serde_json::from_str(json).ok()?;
    value.get(key).and_then(serde_json::Value::as_bool)
}

/// What the user is told of an update.
#[derive(Clone, Debug, PartialEq, Eq)]
pub struct UpdateMetadata {
    /// The name of the update among the resources of the window.
    pub rid: u32,
    pub current_version: String,
    pub version: String,
    pub date: Option<String>,
    pub body: Option<String>,
    pub published_at: Option<String>,
    pub force_update: bool,
    /// What the update server answered, as a JSON text.
    pub raw_json: String,
}

/// What the user is told of an update, given what the answer of the server says
/// of when it was published and whether it has to be installed.
pub fn metadata_with(
    rid: u32,
    current_version: String,
    version: String,
    body: Option<String>,
    raw_json: String,
    published_at: Option<String>,
    force_update: Option<bool>,
) -> (r: UpdateMetadata)
    ensures
        r == (UpdateMetadata {
            rid,
            current_version,
            version,
            date: None,
            body,
            published_at,
            force_update: force_update == Some(true),
            raw_json,
        }),
{
    let force_update = match force_update {
        Some(force) => force,
        None => false,
    };
    UpdateMetadata {
        rid,
        current_version,
        version,
        date: None,
        body,
        published_at,
        force_update,
        raw_json,
    }
}

/// What the user is told of an update.
pub fn update_metadata(
    rid: u32,
    current_version: String,
    version: String,
    body: Option<String>,
    raw_json: String,
) -> (r: UpdateMetadata)
    ensures
        r == (UpdateMetadata {
            rid,
            current_version,
            version,
            date: None,
            body,
            published_at: r.published_at,
            force_update: json_bool_member(raw_json@, "force_update"@) == Some(true),
            raw_json,
        }),
        opt_view(r.published_at) == json_string_member(raw_json@, "published_at"@),
{
    let published_at = string_member(raw_json.as_str(), "published_at");
    let force_update = bool_member(raw_json.as_str(), "force_update");
    metadata_with(rid, current_version, version, body, raw_json, published_at, force_update)
}

/// Whether one of the headers says what is accepted.
pub open spec fn has_accept(headers: Seq<(String, String)>) -> bool {
    exists|i: int| 0 <= i < headers.len() && ascii_lower((#[trigger] headers[i]).0@) == "accept"@
}

/// The headers with which the size of an update is asked for: anything is
/// accepted unless they say what is.
pub fn size_request_headers(headers: Vec<(String, String)>) -> (r: Vec<(String, String)>)
    ensures
        has_accept(headers@) ==> r@ == headers@,
        !has_accept(headers@) ==> header_views(r@) == header_views(headers@).push(
            ("accept"@, "application/octet-stream"@),
        ),
{
    let mut i: usize = 0;
    while i < headers.len()
        invariant
            i <= headers@.len(),
            forall|j: int| 0 <= j < i ==> ascii_lower((#[trigger] headers@[j]).0@) != "accept"@,
        decreases headers@.len() - i,
    {
        let name = to_ascii_lower(headers[i].0.as_str());
        if str_eq(name.as_str(), "accept") {
            return headers;
        }
        i = i + 1;
    }
    let ghost before = headers@;
    let mut headers = headers;
    headers.push(("accept".to_owned(), "application/octet-stream".to_owned()));
    assert(header_views(headers@) =~= header_views(before).push(
        ("accept"@, "application/octet-stream"@),
    ));
    headers
}

/// The size of an update, given the answer of the server: whether it is one of
/// success, its status and the length that it tells.
pub fn update_size(success: bool, status: String, content_length: &Option<String>) -> (r: Result<
    Option<u64>,
    Refusal,
>)
    ensures
        match r {
            Ok(size) => {
                &&& success
                &&& match (size, *content_length) {
                    (Some(n), Some(text)) => parsed(text@, u64::MAX as nat) == Some(n as nat),
                    (None, Some(text)) => parsed(text@, u64::MAX as nat) is None,
                    (None, None) => true,
                    _ => false,
                }
            },
            Err(refusal) => !success && refusal == Refusal::UpdateSizeFailed(status),
        },
{
    if !success {
        return Err(Refusal::UpdateSizeFailed(status));
    }
    match content_length {
        Some(text) => Ok(parse_u64(text.as_str())),
        None => Ok(None),
    }
}

/// The update that is installed when the launcher is closed, with its data.
pub struct PendingUpdateData<U> {
    pub pending: Option<(U, Vec<u8>)>,
}

impl<U> PendingUpdateData<U> {
    /// No update.
    pub fn empty() -> (r: Self)
        ensures
            r.pending is None,
    {
        PendingUpdateData { pending: None }
    }

    /// Sets the update to be installed, in place of any other.
    pub fn enqueue(&mut self, update: U, data: Vec<u8>)
        ensures
            final(self).pending == Some((update, data)),
    {
        self.pending = Some((update, data));
    }

    /// Takes away the update to be installed.
    pub fn remove(&mut self) -> (r: Option<(U, Vec<u8>)>)
        ensures
            final(self).pending is None,
            r == old(self).pending,
    {
        self.pending.take()
    }
}

/// What is there of what an update through apt needs.
#[derive(Clone, Copy, Debug, PartialEq, Eq, Structural)]
pub struct AptProbe {
    pub is_linux: bool,
    pub has_debian_version: bool,
    pub has_apt_directory: bool,
    pub has_apt_get: bool,
    pub has_usr_bin_pkexec: bool,
    pub has_bin_pkexec: bool,
}

/// Whether the launcher is updated through apt: the system is Debian or one of
/// its kind, and can ask for the rights that it needs.
pub open spec fn updates_through_apt(probe: AptProbe) -> bool {
    &&& probe.is_linux
    &&& probe.has_debian_version || probe.has_apt_directory || probe.has_apt_get
    &&& probe.has_usr_bin_pkexec || probe.has_bin_pkexec
}

/// Whether the launcher is updated through apt.
pub fn is_apt_linux(probe: AptProbe) -> (r: bool)
    ensures
        r == updates_through_apt(probe),
{
    let debian_like = probe.has_debian_version || probe.has_apt_directory || probe.has_apt_get;
    let has_pkexec = probe.has_usr_bin_pkexec || probe.has_bin_pkexec;
    probe.is_linux && debian_like && has_pkexec
}

/// What is run to update the launcher through apt, in one go so that the user is
/// asked once.
pub open spec fn apt_command() -> Seq<char> {
    "curl -fsSL "@ + AXOLOTL_APT_SETUP_URL@ + " | bash && apt-get update && apt-get install -y "@
        + AXOLOTL_APT_PACKAGE@
}

/// What is run to update the launcher through apt, if it can be.
pub fn apt_script(probe: AptProbe) -> (r: Result<String, Refusal>)
    ensures
        match r {
            Ok(script) => updates_through_apt(probe) && script@ == apt_command(),
            Err(refusal) => !updates_through_apt(probe) && refusal == Refusal::AptUnsupported,
        },
{
    if !is_apt_linux(probe) {
        return Err(Refusal::AptUnsupported);
    }
    let start = concat3(
        "curl -fsSL ",
        AXOLOTL_APT_SETUP_URL,
        " | bash && apt-get update && apt-get install -y ",
    );
    Ok(concat2(start.as_str(), AXOLOTL_APT_PACKAGE))
}

/// The outcome of the update through apt.
pub fn apt_outcome(success: bool, stderr: &str) -> (r: Result<(), Refusal>)
    ensures
        match r {
            Ok(_) => success,
            Err(refusal) => {
                &&& !success
                &&& refusal matches Refusal::AptFailed(output)
                &&& output@ == trimmed(stderr@)
            },
        },
{
    if success {
        Ok(())
    } else {
        Err(Refusal::AptFailed(trim(stderr)))
    }
}

/// There are two channels, and no other text is one.
pub proof fn law_which_channels_there_are(channel: Seq<char>)
    ensures
        is_channel(channel) <==> channel == "release"@ || channel == "beta"@,
{
}

/// Updates are built for these systems and processors, each under a name of its own; a
/// Mac is named after its core. For anything else there are none.
pub proof fn law_which_platforms_there_are(os: Seq<char>, arch: Seq<char>)
    ensures
        ({
            let intel = arch == "x86_64"@;
            let arm = arch == "aarch64"@;
            let found = platform_of(os, arch);
            &&& found is Some <==> os == "windows"@ && intel || os == "linux"@ && (intel || arm)
                || os == "macos"@ && (intel || arm)
            &&& found is Some && os == "windows"@ ==> found->0.label() == "windows-x86_64"@
            &&& found is Some && os == "linux"@ && intel ==> found->0.label() == "linux-x86_64"@
            &&& found is Some && os == "linux"@ && arm ==> found->0.label() == "linux-aarch64"@
            &&& found is Some && os == "macos"@ && intel ==> found->0.label() == "darwin-x86_64"@
            &&& found is Some && os == "macos"@ && arm ==> found->0.label() == "darwin-aarch64"@
        }),
{
    reveal_strlit("windows");
    reveal_strlit("linux");
    reveal_strlit("macos");
    reveal_strlit("x86_64");
    reveal_strlit("aarch64");
    assert("windows"@.len() == 7 && "linux"@.len() == 5 && "macos"@.len() == 5);
    assert("x86_64"@.len() == 6 && "aarch64"@.len() == 7);
    assert("linux"@[0] == 'l' && "macos"@[0] == 'm');
}

/// The update server is told the channel, the platform and the version that runs, each
/// under a header of its own, and that JSON is wanted.
pub proof fn law_what_the_update_server_is_told(
    channel: Seq<char>,
    platform: Seq<char>,
    version: Seq<char>,
)
    ensures
        ({
            let headers = check_headers(channel, platform, version);
            &&& headers.len() == 4
            &&& headers.contains(("Accept"@, "application/json"@))
            &&& headers.contains(("X-Axolotl-Channel"@, channel))
            &&& headers.contains(("X-Axolotl-Platform"@, platform))
            &&& headers.contains(("X-Axolotl-Version"@, version))
        }),
{
    let headers = check_headers(channel, platform, version);
    assert(headers.contains(headers[0]));
    assert(headers.contains(headers[1]));
    assert(headers.contains(headers[2]));
    assert(headers.contains(headers[3]));
}

/// A check is refused for its channel first, then for the platform, and only then for the
/// address of the server.
pub proof fn law_why_a_check_is_refused(
    channel: String,
    os: String,
    arch: String,
    endpoint: Result<String, Refusal>,
    refusal: Refusal,
)
    requires
        is_check_refusal(channel, os, arch, endpoint, refusal),
        endpoint matches Err(e) ==> e is InvalidEndpoint,
    ensures
        refusal == Refusal::UnknownUpdateChannel(channel) <==> channel@ != "release"@ && channel@
            != "beta"@,
        refusal == Refusal::UnsupportedPlatform(os, arch) <==> (channel@ == "release"@ || channel@
            == "beta"@) && platform_of(os@, arch@) is None,
        refusal is InvalidEndpoint <==> (channel@ == "release"@ || channel@ == "beta"@)
            && platform_of(os@, arch@) is Some,
{
}

/// A header of this name is recognized whatever the case of its letters.
pub proof fn law_accept_is_told_without_case(headers: Seq<(String, String)>)
    ensures
        has_accept(headers) <==> exists|i: int|
            0 <= i < headers.len() && ascii_lower((#[trigger] headers[i]).0@) == "accept"@,
{
}

/// The launcher is updated through apt exactly on a Linux that is shown to be a Debian
/// and where the user can be asked for the rights, and then by this command.
pub proof fn law_when_apt_is_used(probe: AptProbe)
    ensures
        updates_through_apt(probe) ==> probe.is_linux,
        updates_through_apt(probe) ==> probe.has_debian_version || probe.has_apt_directory
            || probe.has_apt_get,
        updates_through_apt(probe) ==> probe.has_usr_bin_pkexec || probe.has_bin_pkexec,
        probe.is_linux && probe.has_debian_version && probe.has_usr_bin_pkexec
            ==> updates_through_apt(probe),
        probe.is_linux && probe.has_debian_version && probe.has_bin_pkexec ==> updates_through_apt(
            probe,
        ),
        probe.is_linux && probe.has_apt_directory && probe.has_usr_bin_pkexec
            ==> updates_through_apt(probe),
        probe.is_linux && probe.has_apt_directory && probe.has_bin_pkexec ==> updates_through_apt(
            probe,
        ),
        probe.is_linux && probe.has_apt_get && probe.has_usr_bin_pkexec ==> updates_through_apt(
            probe,
        ),
        probe.is_linux && probe.has_apt_get && probe.has_bin_pkexec ==> updates_through_apt(probe),
        apt_command() == "curl -fsSL "@ + "https://ppa.axlmc.org/setup.sh"@
            + " | bash && apt-get update && apt-get install -y "@ + "axolotl-launcher"@,
{
}

} // verus!

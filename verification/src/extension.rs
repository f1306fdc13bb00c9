//! The decisions of the Zed extension: which release asset fits a platform,
//! and how the language server binary is found, reused or installed.

use vstd::prelude::*;

verus! {

/// An operating system, as Zed reports it.
#[derive(Clone, Copy, Debug, PartialEq, Eq, Structural)]
pub enum Os {
    Mac,
    Linux,
    Windows,
}

/// A processor architecture, as Zed reports it.
#[derive(Clone, Copy, Debug, PartialEq, Eq, Structural)]
pub enum Architecture {
    Aarch64,
    X86,
    X8664,
}

/// How a downloaded file is unpacked.
#[derive(Clone, Copy, Debug, PartialEq, Eq, Structural)]
pub enum DownloadedFileType {
    Gzip,
    GzipTar,
    Zip,
    Uncompressed,
}

/// The release asset of genko-ls for one platform.
#[derive(Clone, Copy, Debug, PartialEq, Eq)]
pub struct AssetSpec {
    pub name: &'static str,
    pub file_type: DownloadedFileType,
    pub binary_name: &'static str,
}

/// The name of the language server and of its binary.
pub const LANGUAGE_SERVER_NAME: &'static str = "genko-ls";

/// The GitHub repository whose releases hold the binaries.
pub const RELEASE_REPOSITORY: &'static str = "necofuryai/genko-zed";

/// How Zed's API prints an operating system.
pub open spec fn os_debug_text(os: Os) -> Seq<char> {
    match os {
        Os::Mac => "Os::Mac"@,
        Os::Linux => "Os::Linux"@,
        Os::Windows => "Os::Windows"@,
    }
}

/// How Zed's API prints an architecture.
pub open spec fn architecture_debug_text(architecture: Architecture) -> Seq<char> {
    match architecture {
        Architecture::Aarch64 => "Architecture::Aarch64"@,
        Architecture::X86 => "Architecture::X86"@,
        Architecture::X8664 => "Architecture::X8664"@,
    }
}

/// The release asset for a platform, as its name, file type and the name
/// of the binary inside it; 32-bit x86 has none.
pub open spec fn release_asset(os: Os, architecture: Architecture) -> Option<
    (Seq<char>, DownloadedFileType, Seq<char>),
> {
    match (os, architecture) {
        (Os::Mac, Architecture::Aarch64) => Some(
            ("genko-ls-aarch64-apple-darwin.tar.gz"@, DownloadedFileType::GzipTar, "genko-ls"@),
        ),
        (Os::Mac, Architecture::X8664) => Some(
            ("genko-ls-x86_64-apple-darwin.tar.gz"@, DownloadedFileType::GzipTar, "genko-ls"@),
        ),
        (Os::Linux, Architecture::Aarch64) => Some(
            (
                "genko-ls-aarch64-unknown-linux-musl.tar.gz"@,
                DownloadedFileType::GzipTar,
                "genko-ls"@,
            ),
        ),
        (Os::Linux, Architecture::X8664) => Some(
            (
                "genko-ls-x86_64-unknown-linux-musl.tar.gz"@,
                DownloadedFileType::GzipTar,
                "genko-ls"@,
            ),
        ),
        (Os::Windows, Architecture::Aarch64) => Some(
            ("genko-ls-aarch64-pc-windows-msvc.zip"@, DownloadedFileType::Zip, "genko-ls.exe"@),
        ),
        (Os::Windows, Architecture::X8664) => Some(
            ("genko-ls-x86_64-pc-windows-msvc.zip"@, DownloadedFileType::Zip, "genko-ls.exe"@),
        ),
        _ => None,
    }
}

/// The message for a platform without a release asset.
pub open spec fn unsupported_platform_message(os: Os, architecture: Architecture) -> Seq<char> {
    "genko-ls does not provide a release asset for "@ + os_debug_text(os) + "/"@
        + architecture_debug_text(architecture)
}

fn os_debug(os: Os) -> (text: &'static str)
    ensures
        text@ == os_debug_text(os),
{
    match os {
        Os::Mac => "Os::Mac",
        Os::Linux => "Os::Linux",
        Os::Windows => "Os::Windows",
    }
}

fn architecture_debug(architecture: Architecture) -> (text: &'static str)
    ensures
        text@ == architecture_debug_text(architecture),
{
    match architecture {
        Architecture::Aarch64 => "Architecture::Aarch64",
        Architecture::X86 => "Architecture::X86",
        Architecture::X8664 => "Architecture::X8664",
    }
}

/// The release asset of genko-ls for a platform, or the message that there
/// is none.
pub fn asset_spec(os: Os, architecture: Architecture) -> (res: Result<AssetSpec, String>)
    ensures
        match res {
            Ok(spec) => release_asset(os, architecture) == Some(
                (spec.name@, spec.file_type, spec.binary_name@),
            ),
            Err(message) => release_asset(os, architecture) is None && message@
                == unsupported_platform_message(os, architecture),
        },
{
    let spec = match (os, architecture) {
        (Os::Mac, Architecture::Aarch64) => AssetSpec {
            name: "genko-ls-aarch64-apple-darwin.tar.gz",
            file_type: DownloadedFileType::GzipTar,
            binary_name: "genko-ls",
        },
        (Os::Mac, Architecture::X8664) => AssetSpec {
            name: "genko-ls-x86_64-apple-darwin.tar.gz",
            file_type: DownloadedFileType::GzipTar,
            binary_name: "genko-ls",
        },
        (Os::Linux, Architecture::Aarch64) => AssetSpec {
            name: "genko-ls-aarch64-unknown-linux-musl.tar.gz",
            file_type: DownloadedFileType::GzipTar,
            binary_name: "genko-ls",
        },
        (Os::Linux, Architecture::X8664) => AssetSpec {
            name: "genko-ls-x86_64-unknown-linux-musl.tar.gz",
            file_type: DownloadedFileType::GzipTar,
            binary_name: "genko-ls",
        },
        (Os::Windows, Architecture::Aarch64) => AssetSpec {
            name: "genko-ls-aarch64-pc-windows-msvc.zip",
            file_type: DownloadedFileType::Zip,
            binary_name: "genko-ls.exe",
        },
        (Os::Windows, Architecture::X8664) => AssetSpec {
            name: "genko-ls-x86_64-pc-windows-msvc.zip",
            file_type: DownloadedFileType::Zip,
            binary_name: "genko-ls.exe",
        },
        _ => {
            let mut message = "genko-ls does not provide a release asset for ".to_owned();
            message.append(os_debug(os));
            message.append("/");
            message.append(architecture_debug(architecture));
            return Err(message);
        },
    };
    Ok(spec)
}


/// How Zed starts the language server.
pub struct LanguageServerCommand {
    pub command: String,
    pub args: Vec<String>,
}

/// The command that starts the language server binary at `binary_path`
/// over standard input and output.
pub fn language_server_command(binary_path: String) -> (command: LanguageServerCommand)
    ensures
        command.command@ == binary_path@,
        command.args@.len() == 1,
        command.args@[0]@ == "--stdio"@,
{
    let mut args: Vec<String> = Vec::new();
    args.push("--stdio".to_owned());
    LanguageServerCommand { command: binary_path, args }
}

/// One asset of a GitHub release.
pub struct ReleaseAsset {
    pub name: String,
    pub download_url: String,
}

/// A GitHub release: its version and its assets.
pub struct Release {
    pub version: String,
    pub assets: Vec<ReleaseAsset>,
}

/// What to download, and where the binary will be.
pub struct DownloadPlan {
    pub asset_name: String,
    pub download_url: String,
    pub file_type: DownloadedFileType,
    pub version_dir: String,
    pub binary_path: String,
}

/// The directory that a release is unpacked into.
pub open spec fn version_dir_text(version: Seq<char>) -> Seq<char> {
    "genko-ls-"@ + version
}

/// The message for a release without the asset for this platform.
pub open spec fn missing_asset_message(version: Seq<char>, asset_name: Seq<char>) -> Seq<char> {
    "release "@ + version + " does not contain the expected asset "@ + asset_name
}

/// `i` is the first asset named `name`.
pub open spec fn is_first_asset_named(assets: Seq<ReleaseAsset>, name: Seq<char>, i: int) -> bool {
    &&& 0 <= i < assets.len()
    &&& assets[i].name@ == name
    &&& forall|j: int| 0 <= j < i ==> (#[trigger] assets[j]).name@ != name
}

/// What `plan_download` decides for a release and a platform: the plan
/// for the platform's asset, or the message why there is none.
pub open spec fn download_plan_is(
    release: &Release,
    os: Os,
    architecture: Architecture,
    res: Result<DownloadPlan, String>,
) -> bool {
    match release_asset(os, architecture) {
        None => res matches Err(message) && message@ == unsupported_platform_message(
            os,
            architecture,
        ),
        Some((name, file_type, binary_name)) => match res {
            Ok(plan) => exists|i: int|
                {
                    &&& is_first_asset_named(release.assets@, name, i)
                    &&& plan.download_url@ == (#[trigger] release.assets@[i]).download_url@
                    &&& plan.asset_name@ == name
                    &&& plan.file_type == file_type
                    &&& plan.version_dir@ == version_dir_text(release.version@)
                    &&& plan.binary_path@ == version_dir_text(release.version@) + "/"@
                        + binary_name
                },
            Err(message) => {
                &&& forall|i: int|
                    0 <= i < release.assets@.len() ==> (#[trigger] release.assets@[i]).name@
                        != name
                &&& message@ == missing_asset_message(release.version@, name)
            },
        },
    }
}

/// Plans the download of the platform's asset from `release`: the first
/// asset with the platform's asset name, unpacked into `genko-ls-VERSION`.
pub fn plan_download(release: &Release, os: Os, architecture: Architecture) -> (res: Result<
    DownloadPlan,
    String,
>)
    ensures
        download_plan_is(release, os, architecture, res),
{
    let spec = match asset_spec(os, architecture) {
        Ok(spec) => spec,
        Err(message) => return Err(message),
    };
    let wanted = spec.name.to_owned();
    let mut i: usize = 0;
    while i < release.assets.len()
        invariant
            i <= release.assets@.len(),
            wanted@ == spec.name@,
            forall|j: int| 0 <= j < i ==> (#[trigger] release.assets@[j]).name@ != wanted@,
        ensures
            i <= release.assets@.len(),
            forall|j: int| 0 <= j < i ==> (#[trigger] release.assets@[j]).name@ != wanted@,
            i < release.assets@.len() ==> release.assets@[i as int].name@ == wanted@,
        decreases release.assets@.len() - i,
    {
        if release.assets[i].name == wanted {
            break;
        }
        i += 1;
    }
    if i == release.assets.len() {
        let mut message = "release ".to_owned();
        message.append(release.version.as_str());
        message.append(" does not contain the expected asset ");
        message.append(spec.name);
        return Err(message);
    }
    let asset = &release.assets[i];
    let mut version_dir = "genko-ls-".to_owned();
    version_dir.append(release.version.as_str());
    let mut binary_path = version_dir.clone();
    binary_path.append("/");
    binary_path.append(spec.binary_name);
    let plan = DownloadPlan {
        asset_name: wanted,
        download_url: asset.download_url.clone(),
        file_type: spec.file_type,
        version_dir,
        binary_path,
    };
    assert(is_first_asset_named(release.assets@, spec.name@, i as int));
    Ok(plan)
}


/// A language server installation status that Zed shows.
#[derive(Clone, Copy, Debug, PartialEq, Eq, Structural)]
pub enum InstallationStatus {
    CheckingForUpdate,
    Downloading,
}

/// What the extension does next to find the language server binary.
pub enum BinaryAction {
    /// Look for `genko-ls` on the worktree's `PATH`.
    LookUpOnPath,
    /// Check whether a regular file exists at the path.
    CheckFile(String),
    /// Show an installation status.
    ReportStatus(InstallationStatus),
    /// Fetch the latest release (with assets, no pre-release) of
    /// `RELEASE_REPOSITORY`, and the current platform.
    FetchLatestRelease,
    /// Create the directory and its parents.
    CreateDirectory(String),
    /// Download and unpack a file into a directory.
    Download { url: String, directory: String, file_type: DownloadedFileType },
    /// Make the file executable.
    MakeExecutable(String),
    /// The search is over: the binary's path, or why there is none.
    Finish(Result<String, String>),
}

/// What came of the last action.
pub enum BinaryEvent {
    LookedUpOnPath(Option<String>),
    FileChecked(bool),
    StatusReported,
    ReleaseFetched(Result<(Release, Os, Architecture), String>),
    DirectoryCreated(Result<(), String>),
    Downloaded(Result<(), String>),
    MadeExecutable(Result<(), String>),
}

/// Which action's outcome the search waits for.
#[derive(Clone, Copy, Debug, PartialEq, Eq, Structural)]
pub enum Stage {
    LookingOnPath,
    CheckingCachedBinary,
    ReportingUpdateCheck,
    FetchingRelease,
    CheckingBinary,
    CreatingDirectory,
    ReportingDownload,
    Downloading,
    MakingExecutable,
    Finished,
}

/// Finds the language server binary: on `PATH`, else the binary installed
/// before if it is still there, else the one of the latest release, which
/// is downloaded when it is not there yet. The installed path is kept for
/// the next search.
pub struct BinaryResolver {
    cached_binary_path: Option<String>,
    stage: Stage,
    plan: Option<DownloadPlan>,
    outcome: Option<Result<String, String>>,
}

pub open spec fn string_result_view(r: Result<String, String>) -> Result<Seq<char>, Seq<char>> {
    match r {
        Ok(s) => Ok(s@),
        Err(e) => Err(e@),
    }
}

pub open spec fn option_string_view(o: Option<String>) -> Option<Seq<char>> {
    match o {
        Some(s) => Some(s@),
        None => None,
    }
}

impl BinaryResolver {
    /// The path of the binary that an earlier search installed or found.
    pub closed spec fn cached_path(&self) -> Option<Seq<char>> {
        option_string_view(self.cached_binary_path)
    }

    pub closed spec fn stage(&self) -> Stage {
        self.stage
    }

    /// The download plan of the search, once the release is known.
    pub closed spec fn plan(&self) -> Option<DownloadPlan> {
        self.plan
    }

    /// The outcome of the finished search.
    pub closed spec fn outcome(&self) -> Option<Result<Seq<char>, Seq<char>>> {
        match self.outcome {
            Some(r) => Some(string_result_view(r)),
            None => None,
        }
    }

    pub closed spec fn wf(&self) -> bool {
        &&& self.stage == Stage::CheckingCachedBinary ==> self.cached_binary_path is Some
        &&& (self.stage == Stage::CheckingBinary || self.stage == Stage::CreatingDirectory
            || self.stage == Stage::ReportingDownload || self.stage == Stage::Downloading
            || self.stage == Stage::MakingExecutable) ==> self.plan is Some
        &&& self.stage == Stage::Finished ==> self.outcome is Some
    }

    /// `action` is the one that the stage waits on.
    pub open spec fn awaits(&self, action: BinaryAction) -> bool {
        match self.stage() {
            Stage::LookingOnPath => action is LookUpOnPath,
            Stage::CheckingCachedBinary => action matches BinaryAction::CheckFile(p) && Some(p@)
                == self.cached_path(),
            Stage::ReportingUpdateCheck => action == BinaryAction::ReportStatus(
                InstallationStatus::CheckingForUpdate,
            ),
            Stage::FetchingRelease => action is FetchLatestRelease,
            Stage::CheckingBinary => action matches BinaryAction::CheckFile(p) && p@
                == self.plan()->0.binary_path@,
            Stage::CreatingDirectory => action matches BinaryAction::CreateDirectory(d) && d@
                == self.plan()->0.version_dir@,
            Stage::ReportingDownload => action == BinaryAction::ReportStatus(
                InstallationStatus::Downloading,
            ),
            Stage::Downloading => action matches BinaryAction::Download {
                url,
                directory,
                file_type,
            } && url@ == self.plan()->0.download_url@ && directory@
                == self.plan()->0.version_dir@ && file_type == self.plan()->0.file_type,
            Stage::MakingExecutable => action matches BinaryAction::MakeExecutable(p) && p@
                == self.plan()->0.binary_path@,
            Stage::Finished => action matches BinaryAction::Finish(r) && Some(
                string_result_view(r),
            ) == self.outcome(),
        }
    }

    /// `next` is what `self` becomes on `event`.
    pub open spec fn steps_to(&self, event: BinaryEvent, next: &BinaryResolver) -> bool {
        let finish_with = |r: Result<Seq<char>, Seq<char>>|
            next.stage() == Stage::Finished && next.outcome() == Some(r);
        let unchanged = next.stage() == self.stage() && next.cached_path() == self.cached_path()
            && next.plan() == self.plan() && next.outcome() == self.outcome();
        let moves_to = |stage: Stage|
            next.stage() == stage && next.cached_path() == self.cached_path() && next.plan()
                == self.plan();
        match (self.stage(), event) {
            (Stage::LookingOnPath, BinaryEvent::LookedUpOnPath(found)) => match found {
                Some(path) => finish_with(Ok(path@)) && next.cached_path() == self.cached_path(),
                None => if self.cached_path() is Some {
                    moves_to(Stage::CheckingCachedBinary)
                } else {
                    moves_to(Stage::ReportingUpdateCheck)
                },
            },
            (Stage::CheckingCachedBinary, BinaryEvent::FileChecked(is_file)) => if is_file {
                finish_with(Ok(self.cached_path()->0)) && next.cached_path() == self.cached_path()
            } else {
                moves_to(Stage::ReportingUpdateCheck)
            },
            (Stage::ReportingUpdateCheck, BinaryEvent::StatusReported) => moves_to(
                Stage::FetchingRelease,
            ),
            (Stage::FetchingRelease, BinaryEvent::ReleaseFetched(fetched)) => match fetched {
                Err(e) => finish_with(Err(e@)) && next.cached_path() == self.cached_path(),
                Ok((release, os, architecture)) => next.cached_path() == self.cached_path()
                    && exists|planned: Result<DownloadPlan, String>|
                    {
                        &&& download_plan_is(&release, os, architecture, planned)
                        &&& match planned {
                            Ok(plan) => next.stage() == Stage::CheckingBinary && next.plan()
                                == Some(plan),
                            Err(message) => finish_with(Err(message@)),
                        }
                    },
            },
            (Stage::CheckingBinary, BinaryEvent::FileChecked(is_file)) => if is_file {
                let path = self.plan()->0.binary_path@;
                finish_with(Ok(path)) && next.cached_path() == Some(path)
            } else {
                moves_to(Stage::CreatingDirectory)
            },
            (Stage::CreatingDirectory, BinaryEvent::DirectoryCreated(created)) => match created {
                Ok(_) => moves_to(Stage::ReportingDownload),
                Err(e) => finish_with(
                    Err("failed to create "@ + self.plan()->0.version_dir@ + ": "@ + e@),
                ) && next.cached_path() == self.cached_path(),
            },
            (Stage::ReportingDownload, BinaryEvent::StatusReported) => moves_to(
                Stage::Downloading,
            ),
            (Stage::Downloading, BinaryEvent::Downloaded(downloaded)) => match downloaded {
                Ok(_) => moves_to(Stage::MakingExecutable),
                Err(e) => finish_with(
                    Err("failed to download "@ + self.plan()->0.asset_name@ + ": "@ + e@),
                ) && next.cached_path() == self.cached_path(),
            },
            (Stage::MakingExecutable, BinaryEvent::MadeExecutable(made)) => {
                let path = self.plan()->0.binary_path@;
                match made {
                    Ok(_) => finish_with(Ok(path)) && next.cached_path() == Some(path),
                    Err(e) => finish_with(
                        Err("failed to make "@ + path + " executable: "@ + e@),
                    ) && next.cached_path() == self.cached_path(),
                }
            },
            _ => unchanged,
        }
    }

    /// A resolver that has not found a binary yet.
    pub fn new() -> (resolver: Self)
        ensures
            resolver.wf(),
            resolver.cached_path() is None,
            resolver.stage() == Stage::LookingOnPath,
            resolver.plan() is None,
            resolver.outcome() is None,
    {
        BinaryResolver {
            cached_binary_path: None,
            stage: Stage::LookingOnPath,
            plan: None,
            outcome: None,
        }
    }

    /// Starts a search; the path kept from an earlier one stays.
    pub fn start(&mut self) -> (action: BinaryAction)
        ensures
            final(self).wf(),
            final(self).stage() == Stage::LookingOnPath,
            final(self).cached_path() == old(self).cached_path(),
            final(self).awaits(action),
    {
        self.stage = Stage::LookingOnPath;
        self.plan = None;
        BinaryAction::LookUpOnPath
    }

    fn finish(&mut self, result: Result<String, String>) -> (action: BinaryAction)
        ensures
            final(self).wf(),
            final(self).stage() == Stage::Finished,
            final(self).outcome() == Some(string_result_view(result)),
            final(self).cached_path() == old(self).cached_path(),
            final(self).plan() == old(self).plan(),
            final(self).awaits(action),
    {
        let reported = match &result {
            Ok(path) => Ok(path.clone()),
            Err(message) => Err(message.clone()),
        };
        self.stage = Stage::Finished;
        self.outcome = Some(result);
        BinaryAction::Finish(reported)
    }

    /// Takes in what came of the last action, and says what to do next. An
    /// event that the stage does not wait on changes nothing, and the
    /// awaited action is asked for again.
    pub fn step(&mut self, event: BinaryEvent) -> (action: BinaryAction)
        requires
            old(self).wf(),
        ensures
            final(self).wf(),
            old(self).steps_to(event, final(self)),
            final(self).awaits(action),
    {
        match event {
            BinaryEvent::LookedUpOnPath(found) => {
                if self.stage == Stage::LookingOnPath {
                    match found {
                        Some(path) => {
                            return self.finish(Ok(path));
                        },
                        None => {
                            self.stage = if self.cached_binary_path.is_some() {
                                Stage::CheckingCachedBinary
                            } else {
                                Stage::ReportingUpdateCheck
                            };
                            return self.awaited_action();
                        },
                    }
                }
            },
            BinaryEvent::FileChecked(is_file) => {
                if self.stage == Stage::CheckingCachedBinary {
                    if is_file {
                        let path = self.cached_binary_path.as_ref().unwrap().clone();
                        return self.finish(Ok(path));
                    } else {
                        self.stage = Stage::ReportingUpdateCheck;
                        return self.awaited_action();
                    }
                } else if self.stage == Stage::CheckingBinary {
                    if is_file {
                        let path = self.plan.as_ref().unwrap().binary_path.clone();
                        self.cached_binary_path = Some(path.clone());
                        return self.finish(Ok(path));
                    } else {
                        self.stage = Stage::CreatingDirectory;
                        return self.awaited_action();
                    }
                }
            },
            BinaryEvent::StatusReported => {
                if self.stage == Stage::ReportingUpdateCheck {
                    self.stage = Stage::FetchingRelease;
                    return self.awaited_action();
                } else if self.stage == Stage::ReportingDownload {
                    self.stage = Stage::Downloading;
                    return self.awaited_action();
                }
            },
            BinaryEvent::ReleaseFetched(fetched) => {
                if self.stage == Stage::FetchingRelease {
                    match fetched {
                        Err(message) => {
                            return self.finish(Err(message));
                        },
                        Ok((release, os, architecture)) => {
                            let planned = plan_download(&release, os, architecture);
                            let ghost witness = planned;
                            match planned {
                                Ok(plan) => {
                                    self.plan = Some(plan);
                                    self.stage = Stage::CheckingBinary;
                                    let action = self.awaited_action();
                                    assert(download_plan_is(&release, os, architecture, witness));
                                    return action;
                                },
                                Err(message) => {
                                    let action = self.finish(Err(message));
                                    assert(download_plan_is(&release, os, architecture, witness));
                                    return action;
                                },
                            }
                        },
                    }
                }
            },
            BinaryEvent::DirectoryCreated(created) => {
                if self.stage == Stage::CreatingDirectory {
                    match created {
                        Ok(()) => {
                            self.stage = Stage::ReportingDownload;
                            return self.awaited_action();
                        },
                        Err(error) => {
                            let mut message = "failed to create ".to_owned();
                            message.append(self.plan.as_ref().unwrap().version_dir.as_str());
                            message.append(": ");
                            message.append(error.as_str());
                            return self.finish(Err(message));
                        },
                    }
                }
            },
            BinaryEvent::Downloaded(downloaded) => {
                if self.stage == Stage::Downloading {
                    match downloaded {
                        Ok(()) => {
                            self.stage = Stage::MakingExecutable;
                            return self.awaited_action();
                        },
                        Err(error) => {
                            let mut message = "failed to download ".to_owned();
                            message.append(self.plan.as_ref().unwrap().asset_name.as_str());
                            message.append(": ");
                            message.append(error.as_str());
                            return self.finish(Err(message));
                        },
                    }
                }
            },
            BinaryEvent::MadeExecutable(made) => {
                if self.stage == Stage::MakingExecutable {
                    let path = self.plan.as_ref().unwrap().binary_path.clone();
                    match made {
                        Ok(()) => {
                            self.cached_binary_path = Some(path.clone());
                            return self.finish(Ok(path));
                        },
                        Err(error) => {
                            let mut message = "failed to make ".to_owned();
                            message.append(path.as_str());
                            message.append(" executable: ");
                            message.append(error.as_str());
                            return self.finish(Err(message));
                        },
                    }
                }
            },
        }
        self.awaited_action()
    }

    /// The action that the current stage waits on.
    fn awaited_action(&self) -> (action: BinaryAction)
        requires
            self.wf(),
        ensures
            self.awaits(action),
    {
        match self.stage {
            Stage::LookingOnPath => BinaryAction::LookUpOnPath,
            Stage::CheckingCachedBinary => {
                let path = self.cached_binary_path.as_ref().unwrap();
                BinaryAction::CheckFile(path.clone())
            },
            Stage::ReportingUpdateCheck => BinaryAction::ReportStatus(
                InstallationStatus::CheckingForUpdate,
            ),
            Stage::FetchingRelease => BinaryAction::FetchLatestRelease,
            Stage::CheckingBinary => {
                let plan = self.plan.as_ref().unwrap();
                BinaryAction::CheckFile(plan.binary_path.clone())
            },
            Stage::CreatingDirectory => {
                let plan = self.plan.as_ref().unwrap();
                BinaryAction::CreateDirectory(plan.version_dir.clone())
            },
            Stage::ReportingDownload => BinaryAction::ReportStatus(
                InstallationStatus::Downloading,
            ),
            Stage::Downloading => {
                let plan = self.plan.as_ref().unwrap();
                BinaryAction::Download {
                    url: plan.download_url.clone(),
                    directory: plan.version_dir.clone(),
                    file_type: plan.file_type,
                }
            },
            Stage::MakingExecutable => {
                let plan = self.plan.as_ref().unwrap();
                BinaryAction::MakeExecutable(plan.binary_path.clone())
            },
            Stage::Finished => match self.outcome.as_ref().unwrap() {
                Ok(path) => BinaryAction::Finish(Ok(path.clone())),
                Err(message) => BinaryAction::Finish(Err(message.clone())),
            },
        }
    }
}


/// The version directory ends with the whole release version.
pub proof fn law_version_dir_ends_with_version(version: Seq<char>)
    ensures
        version_dir_text(version).len() >= version.len(),
        version_dir_text(version).skip(version_dir_text(version).len() - version.len())
            == version,
{
    let dir = version_dir_text(version);
    assert(dir.skip(dir.len() - version.len()) =~= version);
}

/// Different release versions get different directories and different
/// binary paths, so a binary of one version is never taken for another's.
pub proof fn law_versions_get_their_own_paths(
    release_a: &Release,
    release_b: &Release,
    os: Os,
    architecture: Architecture,
    plan_a: DownloadPlan,
    plan_b: DownloadPlan,
)
    requires
        download_plan_is(release_a, os, architecture, Ok(plan_a)),
        download_plan_is(release_b, os, architecture, Ok(plan_b)),
        release_a.version@ != release_b.version@,
    ensures
        plan_a.version_dir@ != plan_b.version_dir@,
        plan_a.binary_path@ != plan_b.binary_path@,
{
    let pre = "genko-ls-"@;
    let va = release_a.version@;
    let vb = release_b.version@;
    let (name, file_type, binary_name) = release_asset(os, architecture)->0;
    assert(plan_a.version_dir@ == pre + va);
    assert(plan_b.version_dir@ == pre + vb);
    assert(plan_a.binary_path@ == pre + va + "/"@ + binary_name);
    assert(plan_b.binary_path@ == pre + vb + "/"@ + binary_name);
    if plan_a.version_dir@ == plan_b.version_dir@ {
        assert((pre + va).skip(pre.len() as int) =~= va);
        assert((pre + vb).skip(pre.len() as int) =~= vb);
    }
    if plan_a.binary_path@ == plan_b.binary_path@ {
        let x = plan_a.binary_path@;
        let y = pre + vb + "/"@ + binary_name;
        assert(x.len() == pre.len() + va.len() + "/"@.len() + binary_name.len());
        assert(y.len() == pre.len() + vb.len() + "/"@.len() + binary_name.len());
        assert(x == y);
        assert(va.len() == vb.len());
        assert(x.subrange(pre.len() as int, pre.len() + va.len() as int) =~= va);
        assert((pre + vb + "/"@ + binary_name).subrange(pre.len() as int, pre.len() + vb.len() as int)
            =~= vb);
    }
}

/// A binary found on `PATH` wins: the search ends with its path, whatever
/// binary was kept from before.
pub proof fn law_binary_on_path_wins(resolver: &BinaryResolver, path: String, next: &BinaryResolver)
    requires
        resolver.stage() == Stage::LookingOnPath,
        resolver.steps_to(BinaryEvent::LookedUpOnPath(Some(path)), next),
    ensures
        next.stage() == Stage::Finished,
        next.outcome() == Some(Ok::<Seq<char>, Seq<char>>(path@)),
        next.cached_path() == resolver.cached_path(),
{
}

/// A kept binary that is no longer a file is not used: the search goes on
/// to look for an update.
pub proof fn law_missing_cached_binary_is_not_used(resolver: &BinaryResolver, next: &BinaryResolver)
    requires
        resolver.stage() == Stage::CheckingCachedBinary,
        resolver.steps_to(BinaryEvent::FileChecked(false), next),
    ensures
        next.stage() == Stage::ReportingUpdateCheck,
        next.cached_path() == resolver.cached_path(),
{
}

/// A step that ends the search with a path does so only when that path was found on `PATH`, was
/// checked to be a regular file, or was just made executable after its
/// download.
pub proof fn law_found_paths_exist(
    resolver: &BinaryResolver,
    event: BinaryEvent,
    next: &BinaryResolver,
    path: Seq<char>,
)
    requires
        resolver.wf(),
        resolver.stage() != Stage::Finished,
        resolver.steps_to(event, next),
        next.stage() == Stage::Finished,
        next.outcome() == Some(Ok::<Seq<char>, Seq<char>>(path)),
    ensures
        ({
            ||| resolver.stage() == Stage::LookingOnPath && (event matches BinaryEvent::LookedUpOnPath(
                Some(p),
            ) && p@ == path)
            ||| resolver.stage() == Stage::CheckingCachedBinary && event == BinaryEvent::FileChecked(
                true,
            ) && resolver.cached_path() == Some(path)
            ||| resolver.stage() == Stage::CheckingBinary && event == BinaryEvent::FileChecked(true)
                && path == resolver.plan()->0.binary_path@
            ||| resolver.stage() == Stage::MakingExecutable && (event matches BinaryEvent::MadeExecutable(
                Ok(_),
            )) && path == resolver.plan()->0.binary_path@
        }),
{
}

} // verus!

use genko_ls::extension::{
    asset_spec, language_server_command, plan_download, Architecture, AssetSpec, BinaryAction,
    BinaryEvent, BinaryResolver, DownloadedFileType, InstallationStatus, Os, Release,
    ReleaseAsset, LANGUAGE_SERVER_NAME, RELEASE_REPOSITORY,
};

#[test]
fn selects_release_assets_for_supported_platforms() {
    let cases = [
        (
            Os::Mac,
            Architecture::Aarch64,
            "genko-ls-aarch64-apple-darwin.tar.gz",
            DownloadedFileType::GzipTar,
            "genko-ls",
        ),
        (
            Os::Mac,
            Architecture::X8664,
            "genko-ls-x86_64-apple-darwin.tar.gz",
            DownloadedFileType::GzipTar,
            "genko-ls",
        ),
        (
            Os::Linux,
            Architecture::Aarch64,
            "genko-ls-aarch64-unknown-linux-musl.tar.gz",
            DownloadedFileType::GzipTar,
            "genko-ls",
        ),
        (
            Os::Linux,
            Architecture::X8664,
            "genko-ls-x86_64-unknown-linux-musl.tar.gz",
            DownloadedFileType::GzipTar,
            "genko-ls",
        ),
        (
            Os::Windows,
            Architecture::Aarch64,
            "genko-ls-aarch64-pc-windows-msvc.zip",
            DownloadedFileType::Zip,
            "genko-ls.exe",
        ),
        (
            Os::Windows,
            Architecture::X8664,
            "genko-ls-x86_64-pc-windows-msvc.zip",
            DownloadedFileType::Zip,
            "genko-ls.exe",
        ),
    ];

    for (os, architecture, name, file_type, binary_name) in cases {
        assert_eq!(
            asset_spec(os, architecture),
            Ok(AssetSpec {
                name,
                file_type,
                binary_name,
            })
        );
    }
}

#[test]
fn rejects_unsupported_x86_assets() {
    for os in [Os::Mac, Os::Linux, Os::Windows] {
        assert!(asset_spec(os, Architecture::X86).is_err());
    }
}

#[test]
fn unsupported_platform_message_names_the_platform() {
    assert_eq!(
        asset_spec(Os::Linux, Architecture::X86),
        Err("genko-ls does not provide a release asset for Os::Linux/Architecture::X86".to_string())
    );
}

#[test]
fn names_the_server_and_repository() {
    assert_eq!(LANGUAGE_SERVER_NAME, "genko-ls");
    assert_eq!(RELEASE_REPOSITORY, "necofuryai/genko-zed");
}

#[test]
fn command_runs_the_binary_over_stdio() {
    let command = language_server_command("genko-ls-v0.1.0/genko-ls".to_string());
    assert_eq!(command.command, "genko-ls-v0.1.0/genko-ls");
    assert_eq!(command.args, vec!["--stdio".to_string()]);
}

fn asset(name: &str, url: &str) -> ReleaseAsset {
    ReleaseAsset {
        name: name.to_string(),
        download_url: url.to_string(),
    }
}

fn release() -> Release {
    Release {
        version: "v0.1.0".to_string(),
        assets: vec![
            asset("genko-ls-x86_64-pc-windows-msvc.zip", "https://example.invalid/win"),
            asset("genko-ls-x86_64-unknown-linux-musl.tar.gz", "https://example.invalid/linux"),
            asset("genko-ls-x86_64-unknown-linux-musl.tar.gz", "https://example.invalid/again"),
        ],
    }
}

#[test]
fn plans_the_first_matching_asset() {
    let plan = plan_download(&release(), Os::Linux, Architecture::X8664).unwrap();
    assert_eq!(plan.asset_name, "genko-ls-x86_64-unknown-linux-musl.tar.gz");
    assert_eq!(plan.download_url, "https://example.invalid/linux");
    assert_eq!(plan.file_type, DownloadedFileType::GzipTar);
    assert_eq!(plan.version_dir, "genko-ls-v0.1.0");
    assert_eq!(plan.binary_path, "genko-ls-v0.1.0/genko-ls");

    let plan = plan_download(&release(), Os::Windows, Architecture::X8664).unwrap();
    assert_eq!(plan.binary_path, "genko-ls-v0.1.0/genko-ls.exe");
    assert_eq!(plan.file_type, DownloadedFileType::Zip);
}

#[test]
fn reports_a_missing_asset() {
    assert_eq!(
        plan_download(&release(), Os::Mac, Architecture::Aarch64).err(),
        Some(
            "release v0.1.0 does not contain the expected asset genko-ls-aarch64-apple-darwin.tar.gz"
                .to_string()
        )
    );
    assert!(plan_download(&release(), Os::Mac, Architecture::X86).is_err());
}

fn finished(action: BinaryAction) -> Result<String, String> {
    match action {
        BinaryAction::Finish(result) => result,
        _ => panic!("the search should be over"),
    }
}

#[test]
fn binary_on_path_wins() {
    let mut resolver = BinaryResolver::new();
    assert!(matches!(resolver.start(), BinaryAction::LookUpOnPath));
    let action = resolver.step(BinaryEvent::LookedUpOnPath(Some("/usr/bin/genko-ls".to_string())));
    assert_eq!(finished(action), Ok("/usr/bin/genko-ls".to_string()));
}

#[test]
fn installs_and_then_reuses_the_binary() {
    let mut resolver = BinaryResolver::new();
    resolver.start();
    let action = resolver.step(BinaryEvent::LookedUpOnPath(None));
    assert!(matches!(
        action,
        BinaryAction::ReportStatus(InstallationStatus::CheckingForUpdate)
    ));
    let action = resolver.step(BinaryEvent::StatusReported);
    assert!(matches!(action, BinaryAction::FetchLatestRelease));
    let action = resolver.step(BinaryEvent::ReleaseFetched(Ok((
        release(),
        Os::Linux,
        Architecture::X8664,
    ))));
    match action {
        BinaryAction::CheckFile(path) => assert_eq!(path, "genko-ls-v0.1.0/genko-ls"),
        _ => panic!("should check for the binary"),
    }
    let action = resolver.step(BinaryEvent::FileChecked(false));
    match action {
        BinaryAction::CreateDirectory(dir) => assert_eq!(dir, "genko-ls-v0.1.0"),
        _ => panic!("should create the version directory"),
    }
    let action = resolver.step(BinaryEvent::DirectoryCreated(Ok(())));
    assert!(matches!(
        action,
        BinaryAction::ReportStatus(InstallationStatus::Downloading)
    ));
    let action = resolver.step(BinaryEvent::StatusReported);
    match action {
        BinaryAction::Download {
            url,
            directory,
            file_type,
        } => {
            assert_eq!(url, "https://example.invalid/linux");
            assert_eq!(directory, "genko-ls-v0.1.0");
            assert_eq!(file_type, DownloadedFileType::GzipTar);
        }
        _ => panic!("should download"),
    }
    let action = resolver.step(BinaryEvent::Downloaded(Ok(())));
    match action {
        BinaryAction::MakeExecutable(path) => assert_eq!(path, "genko-ls-v0.1.0/genko-ls"),
        _ => panic!("should make the binary executable"),
    }
    let action = resolver.step(BinaryEvent::MadeExecutable(Ok(())));
    assert_eq!(finished(action), Ok("genko-ls-v0.1.0/genko-ls".to_string()));

    // The next search reuses the installed binary while it is there.
    resolver.start();
    let action = resolver.step(BinaryEvent::LookedUpOnPath(None));
    match action {
        BinaryAction::CheckFile(path) => assert_eq!(path, "genko-ls-v0.1.0/genko-ls"),
        _ => panic!("should check the cached binary"),
    }
    let action = resolver.step(BinaryEvent::FileChecked(true));
    assert_eq!(finished(action), Ok("genko-ls-v0.1.0/genko-ls".to_string()));
}

#[test]
fn an_existing_release_binary_is_not_downloaded_again() {
    let mut resolver = BinaryResolver::new();
    resolver.start();
    resolver.step(BinaryEvent::LookedUpOnPath(None));
    resolver.step(BinaryEvent::StatusReported);
    resolver.step(BinaryEvent::ReleaseFetched(Ok((
        release(),
        Os::Windows,
        Architecture::X8664,
    ))));
    let action = resolver.step(BinaryEvent::FileChecked(true));
    assert_eq!(finished(action), Ok("genko-ls-v0.1.0/genko-ls.exe".to_string()));
}

#[test]
fn reports_each_failure() {
    let mut resolver = BinaryResolver::new();
    resolver.start();
    resolver.step(BinaryEvent::LookedUpOnPath(None));
    resolver.step(BinaryEvent::StatusReported);
    let action = resolver.step(BinaryEvent::ReleaseFetched(Err("offline".to_string())));
    assert_eq!(finished(action), Err("offline".to_string()));

    resolver.start();
    resolver.step(BinaryEvent::LookedUpOnPath(None));
    resolver.step(BinaryEvent::StatusReported);
    let action = resolver.step(BinaryEvent::ReleaseFetched(Ok((
        release(),
        Os::Mac,
        Architecture::X86,
    ))));
    assert_eq!(
        finished(action),
        Err("genko-ls does not provide a release asset for Os::Mac/Architecture::X86".to_string())
    );

    resolver.start();
    resolver.step(BinaryEvent::LookedUpOnPath(None));
    resolver.step(BinaryEvent::StatusReported);
    resolver.step(BinaryEvent::ReleaseFetched(Ok((
        release(),
        Os::Linux,
        Architecture::X8664,
    ))));
    resolver.step(BinaryEvent::FileChecked(false));
    let action = resolver.step(BinaryEvent::DirectoryCreated(Err("denied".to_string())));
    assert_eq!(
        finished(action),
        Err("failed to create genko-ls-v0.1.0: denied".to_string())
    );

    resolver.start();
    resolver.step(BinaryEvent::LookedUpOnPath(None));
    resolver.step(BinaryEvent::StatusReported);
    resolver.step(BinaryEvent::ReleaseFetched(Ok((
        release(),
        Os::Linux,
        Architecture::X8664,
    ))));
    resolver.step(BinaryEvent::FileChecked(false));
    resolver.step(BinaryEvent::DirectoryCreated(Ok(())));
    resolver.step(BinaryEvent::StatusReported);
    let action = resolver.step(BinaryEvent::Downloaded(Err("timeout".to_string())));
    assert_eq!(
        finished(action),
        Err("failed to download genko-ls-x86_64-unknown-linux-musl.tar.gz: timeout".to_string())
    );

    resolver.start();
    resolver.step(BinaryEvent::LookedUpOnPath(None));
    resolver.step(BinaryEvent::StatusReported);
    resolver.step(BinaryEvent::ReleaseFetched(Ok((
        release(),
        Os::Linux,
        Architecture::X8664,
    ))));
    resolver.step(BinaryEvent::FileChecked(false));
    resolver.step(BinaryEvent::DirectoryCreated(Ok(())));
    resolver.step(BinaryEvent::StatusReported);
    resolver.step(BinaryEvent::Downloaded(Ok(())));
    let action = resolver.step(BinaryEvent::MadeExecutable(Err("read-only".to_string())));
    assert_eq!(
        finished(action),
        Err("failed to make genko-ls-v0.1.0/genko-ls executable: read-only".to_string())
    );

    // A failed install is not remembered.
    resolver.start();
    let action = resolver.step(BinaryEvent::LookedUpOnPath(None));
    assert!(matches!(
        action,
        BinaryAction::ReportStatus(InstallationStatus::CheckingForUpdate)
    ));
}

#[test]
fn an_unexpected_event_repeats_the_awaited_action() {
    let mut resolver = BinaryResolver::new();
    resolver.start();
    let action = resolver.step(BinaryEvent::StatusReported);
    assert!(matches!(action, BinaryAction::LookUpOnPath));
}

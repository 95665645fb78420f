use coomi::runtime::{
    check_state_version, RuntimeBackend, guest_health, guest_health_arguments, legacy_health, legacy_shell_path,
    check_output_limit, check_read_output, check_total_output, download_progress,
    download_response, join_path, lower_hex, plan_resume, range_header, read_byte_limit,
    skip_home_entry, validate_artifact_name, verify_artifact, check_artifact_size, ArtifactChecksum, DownloadState, LegacyTermuxBackend,
    ProotLinuxBackend, RuntimeArtifact, RuntimeBackendChoice, RuntimeBackendKind, RuntimeError,
    RuntimeInstallStatus, RuntimeManager, RuntimeManifest, RuntimeState, RUNTIME_STATE_VERSION,
};
use coomi::strmap::StrMap;

fn artifact() -> RuntimeArtifact {
    RuntimeArtifact {
        url: "https://example.test/runtime.tar".into(),
        sha256: "a".repeat(64),
        size: 1,
    }
}

fn manifest() -> RuntimeManifest {
    RuntimeManifest {
        version: RUNTIME_STATE_VERSION,
        runtime_version: "debian-13.1-1".into(),
        architecture: "arm64-v8a".into(),
        proot_commit: "b".repeat(40),
        proot_license: "GPL-2.0-or-later".into(),
        host: artifact(),
        rootfs: artifact(),
        environment: StrMap::new(),
    }
}

#[test]
fn bounded_runtime_reader_rejects_excess_output() {
    let error = check_read_output(5, 4).expect_err("output over the limit must fail");
    assert!(error.message().contains("exceeded 4 bytes"));
    assert!(check_read_output(4, 4).is_ok());
    assert_eq!(read_byte_limit(4), 5);
    assert_eq!(read_byte_limit(usize::MAX), usize::MAX as u64);
}

#[test]
fn validates_pinned_manifest_and_rejects_unverified_downloads() {
    let manifest = manifest();
    manifest.validate().expect("valid manifest");
    let mut invalid = manifest;
    invalid.rootfs.sha256 = "not-a-checksum".into();
    assert!(invalid.validate().is_err());
    let mut download = ArtifactChecksum::new();
    download.feed(b"x");
    assert!(matches!(verify_artifact(download, &artifact()), Err(RuntimeError::ArtifactChecksumMismatch)));
}

#[test]
fn manifest_errors_come_in_order() {
    let mut m = manifest();
    m.version = 1;
    assert!(matches!(m.validate(), Err(RuntimeError::UnsupportedManifestVersion)));
    let mut m = manifest();
    m.architecture = "x86_64".into();
    assert!(matches!(m.validate(), Err(RuntimeError::UnsupportedArchitecture)));
    let mut m = manifest();
    m.proot_commit = "b".repeat(39);
    assert!(matches!(m.validate(), Err(RuntimeError::ProotCommitNotPinned)));
    let mut m = manifest();
    m.proot_license = "MIT".into();
    assert!(matches!(m.validate(), Err(RuntimeError::UnexpectedProotLicense)));
    let mut m = manifest();
    m.host.url = "http://example.test/x".into();
    assert!(matches!(m.validate(), Err(RuntimeError::ArtifactUrlNotHttps)));
    let mut m = manifest();
    m.rootfs.size = 0;
    assert!(matches!(m.validate(), Err(RuntimeError::ArtifactSizeNotPositive)));
    assert_eq!(RuntimeError::ArtifactUrlNotHttps.message(), "runtime artifact URL must use HTTPS");
}

#[test]
fn persists_install_progress_and_recoverable_failure() {
    let manager = RuntimeManager::for_home("/home/u");
    let state = RuntimeState::default();
    let downloading = manager.begin_install(&state).expect("begin installation");
    assert_eq!(downloading.status, RuntimeInstallStatus::Downloading);
    assert!(manager.begin_install(&downloading).is_err());

    let failed = manager.fail_install(&downloading, "network unavailable");
    assert_eq!(failed.status, RuntimeInstallStatus::NotInstalled);
    assert_eq!(failed.error.as_deref(), Some("network unavailable"));
}

#[test]
fn install_and_rollback_swap_versions() {
    let manager = RuntimeManager::for_home("/home/u");
    let state = RuntimeState::default();
    let started = manager.install_started(&state);
    assert_eq!(started.status, RuntimeInstallStatus::Initializing);
    let first = manager.install_completed(&started, "v1", 10);
    let second = manager.install_completed(&first, "v2", 20);
    assert_eq!(second.active_version.as_deref(), Some("v2"));
    assert_eq!(second.previous_version.as_deref(), Some("v1"));
    assert_eq!(second.backend, RuntimeBackendKind::ProotLinux);
    assert_eq!(second.installed_at_ms, Some(20));
    assert!(matches!(manager.rollback(&second, false), Err(RuntimeError::RollbackMissing)));
    let (mid, last) = manager.rollback(&second, true).expect("rollback");
    assert_eq!(mid.status, RuntimeInstallStatus::RollingBack);
    assert_eq!(last.active_version.as_deref(), Some("v1"));
    assert_eq!(last.previous_version.as_deref(), Some("v2"));
    assert_eq!(last.status, RuntimeInstallStatus::Ready);
    assert!(matches!(manager.rollback(&state, true), Err(RuntimeError::NoRollbackVersion)));
    let fail = manager.fail_install(&last, "broken");
    assert_eq!(fail.status, RuntimeInstallStatus::NeedsRepair);
    let removing = manager.remove_started(&last);
    assert_eq!(removing.status, RuntimeInstallStatus::Removing);
    let removed = manager.remove_completed();
    let fresh = RuntimeState::default();
    assert_eq!(removed.status, fresh.status);
    assert_eq!(removed.status, RuntimeInstallStatus::NotInstalled);
    assert_eq!(removed.backend, RuntimeBackendKind::LegacyTermux);
    assert_eq!(removed.active_version, None);
    assert_eq!(removed.previous_version, None);
    assert_eq!(removed.installed_at_ms, None);
    assert_eq!(removed.error, None);
    assert_eq!(removed.version, RUNTIME_STATE_VERSION);
}

#[test]
fn runtime_layout_under_home() {
    let manager = RuntimeManager::for_home("/home/u");
    assert_eq!(manager.root(), "/home/u/runtime-v2");
    assert_eq!(manager.state_path(), "/home/u/runtime-v2/state.json");
    assert_eq!(manager.versions_dir(), "/home/u/runtime-v2/versions");
    assert_eq!(manager.staging_dir("v1"), "/home/u/runtime-v2/versions/v1.staging");
    assert_eq!(manager.version_dir("v1"), "/home/u/runtime-v2/versions/v1");
    assert_eq!(join_path("a/", "b"), "a/b");
    assert_eq!(join_path("", "b"), "b");
    assert_eq!(join_path("a", "/abs"), "/abs");
}

#[test]
fn backend_follows_installed_state() {
    let manager = RuntimeManager::for_home("/h");
    let state = RuntimeState::default();
    match manager.backend(&state, "/prefix", "/home") {
        RuntimeBackendChoice::LegacyTermux(l) => {
            assert_eq!(l.prefix, "/prefix");
            assert_eq!(l.kind(), RuntimeBackendKind::LegacyTermux);
        }
        RuntimeBackendChoice::ProotLinux(_) => panic!("legacy backend expected"),
    }
    let ready = manager.install_completed(&state, "v3", 1);
    match manager.backend(&ready, "/prefix", "/home") {
        RuntimeBackendChoice::ProotLinux(p) => {
            assert_eq!(p.version, "v3");
            assert_eq!(p.runtime_root, "/h/runtime-v2");
        }
        RuntimeBackendChoice::LegacyTermux(_) => panic!("proot backend expected"),
    }
}

#[test]
fn proot_command_exposes_only_explicit_mounts() {
    let backend = ProotLinuxBackend { runtime_root: "/tmp/r".into(), version: "v1".into() };
    let command = backend
        .command(true, true, "/tmp/r/workspace", "/tmp/r/home", "/tmp/r/tmp", "/bin/sh", &vec!["-lc".into(), "true".into()])
        .expect("build command");
    let joined = command.arguments.join(" ");
    assert!(joined.contains(":/workspace"));
    assert!(joined.contains(":/home/coomi"));
    assert!(!joined.contains("/storage/emulated"));
    assert_eq!(command.program, "/tmp/r/versions/v1/bin/proot");
    assert_eq!(command.arguments[3], "/tmp/r/versions/v1/rootfs");
    assert_eq!(&command.arguments[command.arguments.len() - 3..], &["/bin/sh", "-lc", "true"]);
    assert_eq!(command.environment.get("LD_LIBRARY_PATH").map(String::as_str), Some("/tmp/r/versions/v1/lib"));
    assert_eq!(command.environment.get("HOME").map(String::as_str), Some("/tmp/r/home"));
    assert_eq!(command.cwd, "/tmp/r/workspace");
}

#[test]
fn proot_command_checks_installation_and_guest_environment() {
    let backend = ProotLinuxBackend { runtime_root: "/r".into(), version: "v".into() };
    let args: Vec<String> = Vec::new();
    assert!(matches!(backend.command(false, true, "/w", "/h", "/t", "sh", &args), Err(RuntimeError::ProotNotInstalled)));
    assert!(matches!(backend.command(true, false, "/w", "/h", "/t", "sh", &args), Err(RuntimeError::RootfsIncomplete)));
    let mut env = StrMap::new();
    env.insert("GOOD_1".to_string(), "x".to_string());
    let c = backend.command_with_environment(true, true, "/w", "/h", "/t", "sh", &args, &env).expect("valid env");
    assert!(c.arguments.contains(&"GOOD_1=x".to_string()));
    env.insert("bad".to_string(), "x".to_string());
    assert!(matches!(
        backend.command_with_environment(true, true, "/w", "/h", "/t", "sh", &args, &env),
        Err(RuntimeError::InvalidGuestEnvironmentKey)
    ));
    let mut env = StrMap::new();
    env.insert("NUL".to_string(), "a\0b".to_string());
    assert!(matches!(
        backend.command_with_environment(true, true, "/w", "/h", "/t", "sh", &args, &env),
        Err(RuntimeError::InvalidGuestEnvironmentValue)
    ));
}

#[test]
fn legacy_command_runs_from_the_prefix() {
    let backend = LegacyTermuxBackend { prefix: "/data/usr".into(), home: "/data/home".into() };
    let c = backend.command("/w", "git", &vec!["status".into()]);
    assert_eq!(c.program, "/data/usr/bin/git");
    assert_eq!(c.arguments, vec!["status".to_string()]);
    assert_eq!(c.environment.get("PATH").map(String::as_str), Some("/data/usr/bin:/data/usr/usr/bin"));
    assert_eq!(c.environment.get("PREFIX").map(String::as_str), Some("/data/usr"));
    assert_eq!(c.environment.get("TMPDIR").map(String::as_str), Some("/data/usr/tmp"));
    assert_eq!(c.environment.len(), 6);
    let abs = backend.command("/w", "/bin/sh", &Vec::new());
    assert_eq!(abs.program, "/bin/sh");
    let mut extra = StrMap::new();
    extra.insert("PATH".to_string(), "/x".to_string());
    let e = backend.command_with_environment("/w", "git", &Vec::new(), &extra);
    assert_eq!(e.environment.get("PATH").map(String::as_str), Some("/x"));
}

#[test]
fn download_resumes_only_for_the_same_artifact() {
    let a = artifact();
    let same = DownloadState { version: 1, url: a.url.clone(), etag: Some("\"e\"".into()), downloaded: 3, expected_sha256: a.sha256.clone() };
    let plan = plan_resume(Some(3), true, Some(same), &a);
    assert_eq!(plan.offset, 3);
    assert!(!plan.discard_partial);
    assert_eq!(plan.etag.as_deref(), Some("\"e\""));
    let other = DownloadState { version: 1, url: "https://other".into(), etag: None, downloaded: 3, expected_sha256: a.sha256.clone() };
    let plan = plan_resume(Some(3), true, Some(other), &a);
    assert_eq!(plan.offset, 0);
    assert!(plan.discard_partial);
    assert_eq!(range_header(0), None);
    assert_eq!(range_header(1234).as_deref(), Some("bytes=1234-"));
    assert_eq!(download_response(10, 206, "206 Partial Content").ok(), Some((10, true)));
    assert_eq!(download_response(10, 200, "200 OK").ok(), Some((0, false)));
    let err = download_response(10, 404, "404 Not Found").unwrap_err();
    assert_eq!(err.message(), "runtime download failed with HTTP 404 Not Found");
    let st = download_progress(&a, &None, 7);
    assert_eq!(st.downloaded, 7);
    assert_eq!(st.version, 1);
}

#[test]
fn artifacts_are_checked_by_size_then_checksum() {
    let a = artifact();
    let abc = "ba7816bf8f01cfea414140de5dae2223b00361a396177a9cb410ff61f20015ad";
    let pinned = RuntimeArtifact { url: "https://example.test/abc".into(), sha256: abc.into(), size: 3 };
    let checksum_of = |chunks: &[&[u8]]| {
        let mut c = ArtifactChecksum::new();
        for chunk in chunks {
            c.feed(chunk);
        }
        c
    };
    assert!(verify_artifact(checksum_of(&[b"a", b"bc"]), &pinned).is_ok());
    assert!(matches!(verify_artifact(checksum_of(&[b"abd"]), &pinned), Err(RuntimeError::ArtifactChecksumMismatch)));
    assert!(matches!(verify_artifact(checksum_of(&[b"ab"]), &pinned), Err(RuntimeError::ArtifactSizeMismatch)));
    assert!(matches!(verify_artifact(checksum_of(&[b"x"]), &a), Err(RuntimeError::ArtifactChecksumMismatch)));
    let mut upper = pinned;
    upper.sha256 = abc.to_uppercase();
    assert!(matches!(verify_artifact(checksum_of(&[b"abc"]), &upper), Err(RuntimeError::ArtifactChecksumMismatch)));
    assert_eq!(checksum_of(&[b"", b"abc"]).hex_digest(), abc);
    assert_eq!(
        ArtifactChecksum::new().hex_digest(),
        "e3b0c44298fc1c149afbf4c8996fb92427ae41e4649b934ca495991b7852b855"
    );
    assert_eq!(checksum_of(&[b"abc"]).len(), 3);
    assert!(check_artifact_size(1, &a).is_ok());
    assert!(matches!(check_artifact_size(2, &a), Err(RuntimeError::ArtifactSizeMismatch)));
    assert!(validate_artifact_name("rootfs-1.tar.gz").is_ok());
    assert!(validate_artifact_name("../x").is_err());
    assert_eq!(lower_hex(&[0x00, 0xab, 0x7f]), "00ab7f");
}

#[test]
fn output_limits() {
    assert!(matches!(check_output_limit(0), Err(RuntimeError::OutputLimitNotPositive)));
    assert!(check_output_limit(1).is_ok());
    assert!(check_total_output(2, 2, 4).is_ok());
    assert_eq!(check_total_output(3, 2, 4).unwrap_err().message(), "runtime command output exceeded 4 bytes");
    assert!(check_total_output(usize::MAX, 1, usize::MAX).is_ok());
}

#[test]
fn migration_skips_termux_system_files() {
    assert!(skip_home_entry(Some("usr")));
    assert!(skip_home_entry(Some(".cache")));
    assert!(!skip_home_entry(Some("project")));
    assert!(!skip_home_entry(None));
}

#[test]
fn rolling_back_twice_restores_the_versions() {
    let manager = RuntimeManager::for_home("/h");
    let first = manager.install_completed(&RuntimeState::default(), "v1", 1);
    let second = manager.install_completed(&first, "v2", 2);
    let (_, once) = manager.rollback(&second, true).expect("rollback");
    let (_, twice) = manager.rollback(&once, true).expect("rollback again");
    assert_eq!(twice.active_version, second.active_version);
    assert_eq!(twice.previous_version, second.previous_version);
    assert_eq!(twice.status, RuntimeInstallStatus::Ready);
    let failed = manager.fail_install(&twice, "disk full");
    assert!(manager.begin_install(&failed).is_ok());
    assert_eq!(manager.backend(&failed, "/p", "/h").kind(), RuntimeBackendKind::LegacyTermux);
    assert_eq!(manager.backend(&twice, "/p", "/h").kind(), RuntimeBackendKind::ProotLinux);
}

#[test]
fn health_checks_of_both_backends() {
    assert_eq!(legacy_shell_path("/data/usr"), "/data/usr/bin/sh");
    assert!(legacy_health(true).is_ok());
    assert_eq!(legacy_health(false).unwrap_err().message(), "legacy shell is missing");
    assert_eq!(guest_health_arguments(), vec!["-lc".to_string(), "test -x /usr/bin/apt && test -x /usr/bin/python3".to_string()]);
    assert!(guest_health(true, b"noise").is_ok());
    let e = guest_health(false, b"  python3 missing\n").unwrap_err();
    assert_eq!(e.message(), "guest health check failed: python3 missing");
    assert_eq!(RuntimeError::CommandTimedOut(90).message(), "runtime command exceeded 90 seconds");
}

#[test]
fn every_refusal_names_its_reason() {
    let mut old = RuntimeState::default();
    old.version = 1;
    assert!(matches!(check_state_version(&old), Err(RuntimeError::UnsupportedStateVersion)));
    assert!(check_state_version(&RuntimeState::default()).is_ok());
    let manager = RuntimeManager::for_home("/h");
    let downloading = manager.begin_install(&RuntimeState::default()).expect("begin");
    assert!(matches!(manager.begin_install(&downloading), Err(RuntimeError::InstallInProgress)));
    assert_eq!(
        RuntimeError::InstallInProgress.message(),
        "runtime installation is already in progress"
    );
    assert!(matches!(validate_artifact_name("a b"), Err(RuntimeError::InvalidArtifactName)));
    let mut a = artifact();
    a.sha256 = "z".repeat(64);
    assert!(matches!(a.validate(), Err(RuntimeError::ArtifactChecksumInvalid)));
    a.sha256 = "A".repeat(64);
    assert!(a.validate().is_ok());
    let mut needs_repair = manager.install_completed(&RuntimeState::default(), "v1", 5);
    needs_repair = manager.fail_install(&needs_repair, "x");
    assert!(manager.begin_install(&needs_repair).is_ok());
}

//! Runtime V2: the pinned ProotLinux manifest, the persisted install state
//! and its transitions, and the commands each backend runs.
use vstd::prelude::*;
use vstd::string::StringSliceAdditionalSpecFns;
use crate::providers::{opt_view, strs_view, clone_opt};
use crate::strmap::{StrMap, has_key, inserted};
use crate::env::{env_view, env_set, env_extend, minimal_environment, minimal_environment_spec};
use crate::text::{decimal_spec, owned, starts_with, starts_with_spec, str_eq};

verus! {

broadcast use vstd::string::group_string_axioms;

/// The manifest and state format this engine reads and writes.
pub const RUNTIME_STATE_VERSION: u32 = 2;

/// Where shell commands run.
#[derive(PartialEq, Eq, Structural, Clone, Copy, Debug)]
pub enum RuntimeBackendKind {
    LegacyTermux,
    ProotLinux,
}

/// The lifecycle of a Runtime V2 installation.
#[derive(PartialEq, Eq, Structural, Clone, Copy, Debug)]
pub enum RuntimeInstallStatus {
    NotInstalled,
    Downloading,
    Initializing,
    Ready,
    NeedsRepair,
    UpdateAvailable,
    RollingBack,
    Removing,
}

/// Why a runtime operation was refused.
#[derive(Debug)]
pub enum RuntimeError {
    ArtifactUrlNotHttps,
    ArtifactChecksumInvalid,
    ArtifactSizeNotPositive,
    UnsupportedManifestVersion,
    UnsupportedArchitecture,
    ProotCommitNotPinned,
    UnexpectedProotLicense,
    UnsupportedStateVersion,
    InstallInProgress,
    NoRollbackVersion,
    RollbackMissing,
    OutputLimitNotPositive,
    OutputExceeded(usize),
    ArtifactSizeMismatch,
    ArtifactChecksumMismatch,
    InvalidArtifactName,
    DownloadFailed(String),
    InvalidGuestEnvironmentKey,
    InvalidGuestEnvironmentValue,
    ProotNotInstalled,
    RootfsIncomplete,
    CommandTimedOut(u64),
    GuestHealthCheckFailed(String),
    LegacyShellMissing,
}

/// The message of a runtime error.
pub open spec fn runtime_error_message(e: RuntimeError) -> Seq<char> {
    match e {
        RuntimeError::ArtifactUrlNotHttps => "runtime artifact URL must use HTTPS"@,
        RuntimeError::ArtifactChecksumInvalid => "runtime artifact SHA-256 is invalid"@,
        RuntimeError::ArtifactSizeNotPositive => "runtime artifact size must be positive"@,
        RuntimeError::UnsupportedManifestVersion => "unsupported runtime manifest version"@,
        RuntimeError::UnsupportedArchitecture => "unsupported runtime architecture"@,
        RuntimeError::ProotCommitNotPinned => "PRoot commit must be pinned"@,
        RuntimeError::UnexpectedProotLicense => "unexpected PRoot license"@,
        RuntimeError::UnsupportedStateVersion => "unsupported runtime state version"@,
        RuntimeError::InstallInProgress => "runtime installation is already in progress"@,
        RuntimeError::NoRollbackVersion => "no runtime version is available for rollback"@,
        RuntimeError::RollbackMissing => "rollback runtime is missing"@,
        RuntimeError::OutputLimitNotPositive => "runtime output limit must be positive"@,
        RuntimeError::OutputExceeded(limit) => "runtime command output exceeded "@ + decimal_spec(limit as nat) + " bytes"@,
        RuntimeError::ArtifactSizeMismatch => "runtime artifact size mismatch"@,
        RuntimeError::ArtifactChecksumMismatch => "runtime artifact checksum mismatch"@,
        RuntimeError::InvalidArtifactName => "invalid runtime artifact name"@,
        RuntimeError::DownloadFailed(status) => "runtime download failed with HTTP "@ + status@,
        RuntimeError::InvalidGuestEnvironmentKey => "invalid guest environment key"@,
        RuntimeError::InvalidGuestEnvironmentValue => "invalid guest environment value"@,
        RuntimeError::ProotNotInstalled => "PRoot host is not installed"@,
        RuntimeError::RootfsIncomplete => "guest rootfs is incomplete"@,
        RuntimeError::CommandTimedOut(secs) => "runtime command exceeded "@ + decimal_spec(secs as nat) + " seconds"@,
        RuntimeError::GuestHealthCheckFailed(stderr) => "guest health check failed: "@ + stderr@,
        RuntimeError::LegacyShellMissing => "legacy shell is missing"@,
    }
}

impl RuntimeError {
    /// The error's message.
    pub fn message(&self) -> (m: String)
        ensures
            m@ == runtime_error_message(*self),
    {
        match self {
            RuntimeError::ArtifactUrlNotHttps => owned("runtime artifact URL must use HTTPS"),
            RuntimeError::ArtifactChecksumInvalid => owned("runtime artifact SHA-256 is invalid"),
            RuntimeError::ArtifactSizeNotPositive => owned("runtime artifact size must be positive"),
            RuntimeError::UnsupportedManifestVersion => owned("unsupported runtime manifest version"),
            RuntimeError::UnsupportedArchitecture => owned("unsupported runtime architecture"),
            RuntimeError::ProotCommitNotPinned => owned("PRoot commit must be pinned"),
            RuntimeError::UnexpectedProotLicense => owned("unexpected PRoot license"),
            RuntimeError::UnsupportedStateVersion => owned("unsupported runtime state version"),
            RuntimeError::InstallInProgress => owned("runtime installation is already in progress"),
            RuntimeError::NoRollbackVersion => owned("no runtime version is available for rollback"),
            RuntimeError::RollbackMissing => owned("rollback runtime is missing"),
            RuntimeError::OutputLimitNotPositive => owned("runtime output limit must be positive"),
            RuntimeError::OutputExceeded(limit) => {
                let mut m = owned("runtime command output exceeded ");
                crate::text::append_decimal(&mut m, *limit as u64);
                m.append(" bytes");
                m
            },
            RuntimeError::ArtifactSizeMismatch => owned("runtime artifact size mismatch"),
            RuntimeError::ArtifactChecksumMismatch => owned("runtime artifact checksum mismatch"),
            RuntimeError::InvalidArtifactName => owned("invalid runtime artifact name"),
            RuntimeError::DownloadFailed(status) => {
                let mut m = owned("runtime download failed with HTTP ");
                m.append(status.as_str());
                m
            },
            RuntimeError::InvalidGuestEnvironmentKey => owned("invalid guest environment key"),
            RuntimeError::InvalidGuestEnvironmentValue => owned("invalid guest environment value"),
            RuntimeError::ProotNotInstalled => owned("PRoot host is not installed"),
            RuntimeError::RootfsIncomplete => owned("guest rootfs is incomplete"),
            RuntimeError::CommandTimedOut(secs) => {
                let mut m = owned("runtime command exceeded ");
                crate::text::append_decimal(&mut m, *secs);
                m.append(" seconds");
                m
            },
            RuntimeError::GuestHealthCheckFailed(stderr) => {
                let mut m = owned("guest health check failed: ");
                m.append(stderr.as_str());
                m
            },
            RuntimeError::LegacyShellMissing => owned("legacy shell is missing"),
        }
    }
}

/// An ASCII hexadecimal digit (either case).
pub open spec fn is_hex_digit(c: char) -> bool {
    ('0' <= c && c <= '9') || ('a' <= c && c <= 'f') || ('A' <= c && c <= 'F')
}

/// Exactly 64 hexadecimal digits.
pub open spec fn is_sha256_hex(s: Seq<char>) -> bool {
    s.len() == 64 && forall|i: int| 0 <= i < s.len() ==> is_hex_digit(#[trigger] s[i])
}

/// Whether `s` is 64 hexadecimal digits.
pub fn sha256_hex_valid(s: &str) -> (r: bool)
    ensures
        r == is_sha256_hex(s@),
{
    let cs = crate::text::chars_of(s);
    if cs.len() != 64 {
        return false;
    }
    let mut i: usize = 0;
    while i < cs.len()
        invariant
            cs@ == s@,
            i <= cs@.len(),
            forall|k: int| 0 <= k < i ==> is_hex_digit(#[trigger] s@[k]),
        decreases cs@.len() - i,
    {
        let c = cs[i];
        if !(('0' <= c && c <= '9') || ('a' <= c && c <= 'f') || ('A' <= c && c <= 'F')) {
            assert(!is_hex_digit(s@[i as int]));
            return false;
        }
        i = i + 1;
    }
    true
}

/// A downloadable runtime archive, pinned by checksum and size.
pub struct RuntimeArtifact {
    pub url: String,
    pub sha256: String,
    pub size: u64,
}

/// The first problem of an artifact, checked in order: HTTPS, checksum, size.
pub open spec fn artifact_problem(a: RuntimeArtifact) -> Option<RuntimeError> {
    if !starts_with_spec(a.url@, "https://"@) {
        Some(RuntimeError::ArtifactUrlNotHttps)
    } else if !is_sha256_hex(a.sha256@) {
        Some(RuntimeError::ArtifactChecksumInvalid)
    } else if a.size == 0 {
        Some(RuntimeError::ArtifactSizeNotPositive)
    } else {
        None
    }
}

impl RuntimeArtifact {
    /// Accepts only HTTPS artifacts with a SHA-256 checksum and a positive size.
    pub fn validate(&self) -> (r: Result<(), RuntimeError>)
        ensures
            artifact_problem(*self) is None ==> r is Ok,
            artifact_problem(*self) matches Some(e) ==> (r matches Err(f) && f == e),
    {
        if !starts_with(self.url.as_str(), "https://") {
            return Err(RuntimeError::ArtifactUrlNotHttps);
        }
        if !sha256_hex_valid(self.sha256.as_str()) {
            return Err(RuntimeError::ArtifactChecksumInvalid);
        }
        if self.size == 0 {
            return Err(RuntimeError::ArtifactSizeNotPositive);
        }
        Ok(())
    }
}

/// The pinned description of a Runtime V2 release.
pub struct RuntimeManifest {
    pub version: u32,
    pub runtime_version: String,
    pub architecture: String,
    pub proot_commit: String,
    pub proot_license: String,
    pub host: RuntimeArtifact,
    pub rootfs: RuntimeArtifact,
    pub environment: StrMap<String>,
}

/// The first problem of a manifest, checked in order.
pub open spec fn manifest_problem(m: RuntimeManifest) -> Option<RuntimeError> {
    if m.version != RUNTIME_STATE_VERSION {
        Some(RuntimeError::UnsupportedManifestVersion)
    } else if m.architecture@ != "arm64-v8a"@ {
        Some(RuntimeError::UnsupportedArchitecture)
    } else if vstd::utf8::encode_utf8(m.proot_commit@).len() != 40 {
        Some(RuntimeError::ProotCommitNotPinned)
    } else if m.proot_license@ != "GPL-2.0-or-later"@ {
        Some(RuntimeError::UnexpectedProotLicense)
    } else if artifact_problem(m.host) is Some {
        artifact_problem(m.host)
    } else {
        artifact_problem(m.rootfs)
    }
}

impl RuntimeManifest {
    /// Accepts only a manifest of this format for arm64-v8a with a pinned,
    /// GPL-2.0-or-later PRoot and two valid artifacts.
    pub fn validate(&self) -> (r: Result<(), RuntimeError>)
        ensures
            manifest_problem(*self) is None ==> r is Ok,
            manifest_problem(*self) matches Some(e) ==> (r matches Err(f) && f == e),
    {
        if self.version != RUNTIME_STATE_VERSION {
            return Err(RuntimeError::UnsupportedManifestVersion);
        }
        if !str_eq(self.architecture.as_str(), "arm64-v8a") {
            return Err(RuntimeError::UnsupportedArchitecture);
        }
        if self.proot_commit.as_str().as_bytes().len() != 40 {
            return Err(RuntimeError::ProotCommitNotPinned);
        }
        if !str_eq(self.proot_license.as_str(), "GPL-2.0-or-later") {
            return Err(RuntimeError::UnexpectedProotLicense);
        }
        match self.host.validate() {
            Ok(()) => {},
            Err(e) => return Err(e),
        }
        self.rootfs.validate()
    }
}

/// The persisted state of the runtime.
pub struct RuntimeState {
    pub version: u32,
    pub backend: RuntimeBackendKind,
    pub status: RuntimeInstallStatus,
    pub active_version: Option<String>,
    pub previous_version: Option<String>,
    pub installed_at_ms: Option<u64>,
    pub error: Option<String>,
}

/// The abstract value of a runtime state.
pub struct RuntimeStateView {
    pub version: u32,
    pub backend: RuntimeBackendKind,
    pub status: RuntimeInstallStatus,
    pub active_version: Option<Seq<char>>,
    pub previous_version: Option<Seq<char>>,
    pub installed_at_ms: Option<u64>,
    pub error: Option<Seq<char>>,
}

impl View for RuntimeState {
    type V = RuntimeStateView;

    open spec fn view(&self) -> RuntimeStateView {
        RuntimeStateView {
            version: self.version,
            backend: self.backend,
            status: self.status,
            active_version: opt_view(self.active_version),
            previous_version: opt_view(self.previous_version),
            installed_at_ms: self.installed_at_ms,
            error: opt_view(self.error),
        }
    }
}

/// The state of a home where nothing was installed.
pub open spec fn default_state_view() -> RuntimeStateView {
    RuntimeStateView {
        version: RUNTIME_STATE_VERSION,
        backend: RuntimeBackendKind::LegacyTermux,
        status: RuntimeInstallStatus::NotInstalled,
        active_version: None,
        previous_version: None,
        installed_at_ms: None,
        error: None,
    }
}

impl RuntimeState {
    /// Nothing installed, legacy backend.
    pub fn initial() -> (s: Self)
        ensures
            s@ == default_state_view(),
    {
        RuntimeState {
            version: RUNTIME_STATE_VERSION,
            backend: RuntimeBackendKind::LegacyTermux,
            status: RuntimeInstallStatus::NotInstalled,
            active_version: None,
            previous_version: None,
            installed_at_ms: None,
            error: None,
        }
    }

    /// A copy with the same abstract value.
    pub fn duplicate(&self) -> (s: Self)
        ensures
            s@ == self@,
    {
        RuntimeState {
            version: self.version,
            backend: self.backend,
            status: self.status,
            active_version: clone_opt(&self.active_version),
            previous_version: clone_opt(&self.previous_version),
            installed_at_ms: self.installed_at_ms,
            error: clone_opt(&self.error),
        }
    }
}

impl Default for RuntimeState {
    fn default() -> (s: Self)
        ensures
            s@ == default_state_view(),
    {
        RuntimeState::initial()
    }
}

/// A state read from disk is usable only in this format.
pub fn check_state_version(state: &RuntimeState) -> (r: Result<(), RuntimeError>)
    ensures
        state.version == RUNTIME_STATE_VERSION ==> r is Ok,
        state.version != RUNTIME_STATE_VERSION ==> (r matches Err(e) && e is UnsupportedStateVersion),
{
    if state.version == RUNTIME_STATE_VERSION {
        Ok(())
    } else {
        Err(RuntimeError::UnsupportedStateVersion)
    }
}

/// An installation may start from these states only.
pub open spec fn may_begin_install(s: RuntimeInstallStatus) -> bool {
    s == RuntimeInstallStatus::NotInstalled || s == RuntimeInstallStatus::NeedsRepair
        || s == RuntimeInstallStatus::UpdateAvailable
}

/// The state once an installation has started: `Downloading`, no error.
pub open spec fn begun_state(s: RuntimeStateView) -> RuntimeStateView {
    RuntimeStateView { status: RuntimeInstallStatus::Downloading, error: None, ..s }
}

/// The state after a failed installation: `NeedsRepair` while a version is
/// still active, `NotInstalled` otherwise, with the error kept.
pub open spec fn failed_state(s: RuntimeStateView, error: Seq<char>) -> RuntimeStateView {
    RuntimeStateView {
        status: if s.active_version is Some {
            RuntimeInstallStatus::NeedsRepair
        } else {
            RuntimeInstallStatus::NotInstalled
        },
        error: Some(error),
        ..s
    }
}

/// The state after `version` was installed at `now_ms`: active on the
/// ProotLinux backend, with the formerly active version kept for rollback.
pub open spec fn installed_state(s: RuntimeStateView, version: Seq<char>, now_ms: u64) -> RuntimeStateView {
    RuntimeStateView {
        previous_version: s.active_version,
        active_version: Some(version),
        backend: RuntimeBackendKind::ProotLinux,
        status: RuntimeInstallStatus::Ready,
        installed_at_ms: Some(now_ms),
        ..s
    }
}

/// The state after a rollback: active and previous versions trade places,
/// `Ready` with no error.
pub open spec fn rolled_back_state(s: RuntimeStateView) -> RuntimeStateView {
    RuntimeStateView {
        active_version: s.previous_version,
        previous_version: s.active_version,
        status: RuntimeInstallStatus::Ready,
        error: None,
        ..s
    }
}

/// Commands run in the ProotLinux guest exactly when it is the installed
/// backend, ready, with an active version.
pub open spec fn selects_proot(s: RuntimeStateView) -> bool {
    s.backend == RuntimeBackendKind::ProotLinux && s.status == RuntimeInstallStatus::Ready
        && s.active_version is Some
}


/// `Path::join` on Unix: an absolute part replaces the base; otherwise a
/// separator is added unless the base is empty or already ends in one.
pub open spec fn join_path_spec(base: Seq<char>, part: Seq<char>) -> Seq<char> {
    if part.len() > 0 && part[0] == '/' {
        part
    } else if base.len() == 0 || base.last() == '/' {
        base + part
    } else {
        base + "/"@ + part
    }
}

/// Joins a path component onto a base path.
pub fn join_path(base: &str, part: &str) -> (r: String)
    ensures
        r@ == join_path_spec(base@, part@),
{
    let pn = part.unicode_len();
    if pn > 0 && part.get_char(0) == '/' {
        return owned(part);
    }
    let bn = base.unicode_len();
    let mut out = owned(base);
    if bn > 0 && base.get_char(bn - 1) != '/' {
        out.append("/");
    }
    out.append(part);
    proof {
        reveal_strlit("/");
    }
    out
}

/// The Runtime V2 directory layout under an engine home.
pub struct RuntimeManager {
    root: String,
    state_path: String,
}

impl RuntimeManager {
    /// The layout under `home`: `runtime-v2/`, with its state in `state.json`.
    pub fn for_home(home: &str) -> (m: Self)
        ensures
            m.root_spec() == join_path_spec(home@, "runtime-v2"@),
            m.state_path_spec() == join_path_spec(m.root_spec(), "state.json"@),
    {
        let root = join_path(home, "runtime-v2");
        let state_path = join_path(root.as_str(), "state.json");
        RuntimeManager { root, state_path }
    }

    /// The runtime root.
    pub closed spec fn root_spec(&self) -> Seq<char> {
        self.root@
    }

    /// The state file.
    pub closed spec fn state_path_spec(&self) -> Seq<char> {
        self.state_path@
    }

    /// The runtime root directory.
    pub fn root(&self) -> (r: &String)
        ensures
            r@ == self.root_spec(),
    {
        &self.root
    }

    /// The state file.
    pub fn state_path(&self) -> (r: &String)
        ensures
            r@ == self.state_path_spec(),
    {
        &self.state_path
    }

    /// `versions/` under the root.
    pub fn versions_dir(&self) -> (r: String)
        ensures
            r@ == join_path_spec(self.root_spec(), "versions"@),
    {
        join_path(self.root.as_str(), "versions")
    }

    /// `downloads/` under the root.
    pub fn downloads_dir(&self) -> (r: String)
        ensures
            r@ == join_path_spec(self.root_spec(), "downloads"@),
    {
        join_path(self.root.as_str(), "downloads")
    }

    /// The persistent guest home, `home/` under the root.
    pub fn home_dir(&self) -> (r: String)
        ensures
            r@ == join_path_spec(self.root_spec(), "home"@),
    {
        join_path(self.root.as_str(), "home")
    }

    /// Where a runtime version is installed.
    pub fn version_dir(&self, version: &str) -> (r: String)
        ensures
            r@ == join_path_spec(join_path_spec(self.root_spec(), "versions"@), version@),
    {
        let v = self.versions_dir();
        join_path(v.as_str(), version)
    }

    /// Where a runtime version is unpacked before it is moved in place.
    pub fn staging_dir(&self, version: &str) -> (r: String)
        ensures
            r@ == join_path_spec(join_path_spec(self.root_spec(), "versions"@), version@ + ".staging"@),
    {
        let v = self.versions_dir();
        let mut name = owned(version);
        name.append(".staging");
        join_path(v.as_str(), name.as_str())
    }

    /// Starts an installation: only from `NotInstalled`, `NeedsRepair` or
    /// `UpdateAvailable`; the state becomes `Downloading` with no error.
    pub fn begin_install(&self, state: &RuntimeState) -> (r: Result<RuntimeState, RuntimeError>)
        ensures
            !may_begin_install(state.status) ==> (r matches Err(e) && e is InstallInProgress),
            may_begin_install(state.status) ==> (r matches Ok(n) && n@ == begun_state(state@)),
            (state.status == RuntimeInstallStatus::NotInstalled || state.status == RuntimeInstallStatus::NeedsRepair
                || state.status == RuntimeInstallStatus::UpdateAvailable) ==> (r matches Ok(n)
                && n.status == RuntimeInstallStatus::Downloading && n.error is None),
    {
        match state.status {
            RuntimeInstallStatus::NotInstalled | RuntimeInstallStatus::NeedsRepair | RuntimeInstallStatus::UpdateAvailable => {
                let mut n = state.duplicate();
                n.status = RuntimeInstallStatus::Downloading;
                n.error = None;
                Ok(n)
            },
            _ => Err(RuntimeError::InstallInProgress),
        }
    }

    /// Records a failed installation: `NeedsRepair` when a version is still
    /// active, `NotInstalled` otherwise, with the error kept.
    pub fn fail_install(&self, state: &RuntimeState, error: &str) -> (n: RuntimeState)
        ensures
            n@ == failed_state(state@, error@),
    {
        let mut n = state.duplicate();
        n.status = if state.active_version.is_some() {
            RuntimeInstallStatus::NeedsRepair
        } else {
            RuntimeInstallStatus::NotInstalled
        };
        n.error = Some(owned(error));
        n
    }

    /// The state saved while archives are unpacked: `Initializing`, no error.
    pub fn install_started(&self, state: &RuntimeState) -> (n: RuntimeState)
        ensures
            n@ == (RuntimeStateView { status: RuntimeInstallStatus::Initializing, error: None, ..state@ }),
    {
        let mut n = state.duplicate();
        n.status = RuntimeInstallStatus::Initializing;
        n.error = None;
        n
    }

    /// The state after a version was installed: it becomes active on the
    /// ProotLinux backend and the formerly active one is kept for rollback.
    pub fn install_completed(&self, state: &RuntimeState, runtime_version: &str, now_ms: u64) -> (n: RuntimeState)
        ensures
            n@ == installed_state(state@, runtime_version@, now_ms),
    {
        let mut n = state.duplicate();
        n.previous_version = clone_opt(&state.active_version);
        n.active_version = Some(owned(runtime_version));
        n.backend = RuntimeBackendKind::ProotLinux;
        n.status = RuntimeInstallStatus::Ready;
        n.installed_at_ms = Some(now_ms);
        n
    }

    /// The version a rollback would return to.
    pub fn rollback_target(&self, state: &RuntimeState) -> (r: Result<String, RuntimeError>)
        ensures
            state.previous_version is None ==> (r matches Err(e) && e is NoRollbackVersion),
            state.previous_version matches Some(p) ==> (r matches Ok(t) && t@ == p@),
    {
        match &state.previous_version {
            Some(p) => Ok(p.clone()),
            None => Err(RuntimeError::NoRollbackVersion),
        }
    }

    /// Rolls back to the previous version: the state saved first
    /// (`RollingBack`) and the final one, where the active and previous
    /// versions have traded places, `Ready` with no error.
    pub fn rollback(&self, state: &RuntimeState, target_exists: bool) -> (r: Result<(RuntimeState, RuntimeState), RuntimeError>)
        ensures
            state.previous_version is None ==> (r matches Err(e) && e is NoRollbackVersion),
            state.previous_version is Some && !target_exists ==> (r matches Err(e) && e is RollbackMissing),
            state.previous_version is Some && target_exists ==> (r matches Ok((mid, last))
                && mid@ == (RuntimeStateView { status: RuntimeInstallStatus::RollingBack, ..state@ })
                && last@ == rolled_back_state(state@)),
    {
        if state.previous_version.is_none() {
            return Err(RuntimeError::NoRollbackVersion);
        }
        if !target_exists {
            return Err(RuntimeError::RollbackMissing);
        }
        let mut mid = state.duplicate();
        mid.status = RuntimeInstallStatus::RollingBack;
        let mut last = state.duplicate();
        last.active_version = clone_opt(&state.previous_version);
        last.previous_version = clone_opt(&state.active_version);
        last.status = RuntimeInstallStatus::Ready;
        last.error = None;
        Ok((mid, last))
    }

    /// The state saved while versions are deleted: `Removing`.
    pub fn remove_started(&self, state: &RuntimeState) -> (n: RuntimeState)
        ensures
            n@ == (RuntimeStateView { status: RuntimeInstallStatus::Removing, ..state@ }),
    {
        let mut n = state.duplicate();
        n.status = RuntimeInstallStatus::Removing;
        n
    }

    /// The state after everything was removed: as in a fresh home.
    pub fn remove_completed(&self) -> (n: RuntimeState)
        ensures
            n@ == default_state_view(),
    {
        RuntimeState::initial()
    }

    /// The backend commands run on: ProotLinux when it is installed, ready
    /// and has an active version, the legacy Termux prefix otherwise.
    pub fn backend(&self, state: &RuntimeState, legacy_prefix: &str, legacy_home: &str) -> (b: RuntimeBackendChoice)
        ensures
            selects_proot(state@) ==> (b matches RuntimeBackendChoice::ProotLinux(p)
                && p.runtime_root@ == self.root_spec() && p.version@ == state.active_version->0@),
            !selects_proot(state@) ==> (b matches RuntimeBackendChoice::LegacyTermux(l)
                && l.prefix@ == legacy_prefix@ && l.home@ == legacy_home@),
    {
        if state.backend == RuntimeBackendKind::ProotLinux && state.status == RuntimeInstallStatus::Ready {
            if let Some(v) = &state.active_version {
                return RuntimeBackendChoice::ProotLinux(ProotLinuxBackend { runtime_root: self.root.clone(), version: v.clone() });
            }
        }
        RuntimeBackendChoice::LegacyTermux(LegacyTermuxBackend { prefix: owned(legacy_prefix), home: owned(legacy_home) })
    }
}

/// An installation may be started from `NotInstalled`, `NeedsRepair` and
/// `UpdateAvailable`, and from no other state; once started it is
/// `Downloading` with no error.
pub proof fn lemma_install_start_states(s: RuntimeStateView)
    ensures
        may_begin_install(s.status) <==> (s.status == RuntimeInstallStatus::NotInstalled
            || s.status == RuntimeInstallStatus::NeedsRepair || s.status == RuntimeInstallStatus::UpdateAvailable),
        s.status == RuntimeInstallStatus::Downloading || s.status == RuntimeInstallStatus::Initializing
            || s.status == RuntimeInstallStatus::Ready || s.status == RuntimeInstallStatus::RollingBack
            || s.status == RuntimeInstallStatus::Removing ==> !may_begin_install(s.status),
        begun_state(s).status == RuntimeInstallStatus::Downloading,
        begun_state(s).error is None,
        begun_state(s).active_version == s.active_version,
{
}

/// An artifact is accepted exactly when its URL begins with `https://`,
/// its checksum is 64 ASCII hexadecimal digits and its size is positive.
pub proof fn lemma_artifact_acceptance(a: RuntimeArtifact)
    ensures
        artifact_problem(a) is None <==> {
            &&& a.url@.len() >= 8 && a.url@.subrange(0, 8) == "https://"@
            &&& a.sha256@.len() == 64
            &&& forall|i: int| 0 <= i < 64 ==> {
                let c = #[trigger] a.sha256@[i];
                ('0' <= c && c <= '9') || ('a' <= c && c <= 'f') || ('A' <= c && c <= 'F')
            }
            &&& a.size > 0
        },
{
    reveal_strlit("https://");
    assert("https://"@.len() == 8);
}

/// A manifest is accepted exactly when it is of this format, for
/// arm64-v8a, pins PRoot by a 40-byte commit under GPL-2.0-or-later, and
/// both of its artifacts are accepted.
pub proof fn lemma_manifest_acceptance(m: RuntimeManifest)
    ensures
        manifest_problem(m) is None <==> {
            &&& m.version == 2
            &&& m.architecture@ == "arm64-v8a"@
            &&& vstd::utf8::encode_utf8(m.proot_commit@).len() == 40
            &&& m.proot_license@ == "GPL-2.0-or-later"@
            &&& artifact_problem(m.host) is None
            &&& artifact_problem(m.rootfs) is None
        },
{
}

/// A failed installation leaves `NeedsRepair` exactly when a version is
/// still active and `NotInstalled` otherwise, keeps both versions and the
/// backend, and records the error.
pub proof fn lemma_failed_install_status(s: RuntimeStateView, error: Seq<char>)
    ensures
        (failed_state(s, error).status == RuntimeInstallStatus::NeedsRepair) <==> s.active_version is Some,
        (failed_state(s, error).status == RuntimeInstallStatus::NotInstalled) <==> s.active_version is None,
        failed_state(s, error).backend == s.backend,
        failed_state(s, error).active_version == s.active_version,
        failed_state(s, error).previous_version == s.previous_version,
        failed_state(s, error).error == Some(error),
{
}

/// An installation in progress cannot be started a second time: once
/// `begin_install` succeeded, the next `begin_install` is refused.
pub proof fn lemma_install_not_reentrant(s: RuntimeStateView)
    requires
        may_begin_install(s.status),
    ensures
        !may_begin_install(begun_state(s).status),
{
}

/// A failed installation is recoverable: the state it leaves behind admits
/// a new `begin_install`, and the installed versions are kept.
pub proof fn lemma_failed_install_recoverable(s: RuntimeStateView, error: Seq<char>)
    ensures
        may_begin_install(failed_state(s, error).status),
        failed_state(s, error).active_version == s.active_version,
        failed_state(s, error).previous_version == s.previous_version,
        failed_state(s, error).error == Some(error),
{
}

/// Rolling back twice restores the active and previous versions (both
/// rollbacks need a previous version, so both versions must be present).
pub proof fn lemma_rollback_twice_restores(s: RuntimeStateView)
    requires
        s.active_version is Some,
        s.previous_version is Some,
    ensures
        rolled_back_state(s).previous_version is Some,
        rolled_back_state(rolled_back_state(s)).active_version == s.active_version,
        rolled_back_state(rolled_back_state(s)).previous_version == s.previous_version,
        rolled_back_state(rolled_back_state(s)).status == RuntimeInstallStatus::Ready,
{
}

/// A rollback right after an installation returns to the version that was
/// active before it, and keeps the new one as the rollback target.
pub proof fn lemma_rollback_undoes_install(s: RuntimeStateView, version: Seq<char>, now_ms: u64)
    requires
        s.active_version is Some,
    ensures
        installed_state(s, version, now_ms).previous_version is Some,
        rolled_back_state(installed_state(s, version, now_ms)).active_version == s.active_version,
        rolled_back_state(installed_state(s, version, now_ms)).previous_version == Some(version),
        selects_proot(rolled_back_state(installed_state(s, version, now_ms))),
{
}

/// A completed installation makes commands run in the installed guest; a
/// failed one falls back to the legacy prefix.
pub proof fn lemma_backend_follows_install(s: RuntimeStateView, version: Seq<char>, now_ms: u64, error: Seq<char>)
    ensures
        selects_proot(installed_state(s, version, now_ms)),
        installed_state(s, version, now_ms).active_version == Some(version),
        !selects_proot(failed_state(s, error)),
{
}

/// After everything was removed, the state is that of a fresh home, from
/// which an installation may start.
pub proof fn lemma_removed_state_reinstallable()
    ensures
        may_begin_install(default_state_view().status),
        !selects_proot(default_state_view()),
{
}

/// The backend selected for running commands.
pub enum RuntimeBackendChoice {
    LegacyTermux(LegacyTermuxBackend),
    ProotLinux(ProotLinuxBackend),
}

/// A place shell commands can run.
pub trait RuntimeBackend {
    /// Which kind of backend this is.
    fn kind(&self) -> (k: RuntimeBackendKind);
}

impl RuntimeBackend for RuntimeBackendChoice {
    /// Which backend was selected.
    fn kind(&self) -> (k: RuntimeBackendKind)
        ensures
            self is LegacyTermux ==> k == RuntimeBackendKind::LegacyTermux,
            self is ProotLinux ==> k == RuntimeBackendKind::ProotLinux,
    {
        match self {
            RuntimeBackendChoice::LegacyTermux(_) => RuntimeBackendKind::LegacyTermux,
            RuntimeBackendChoice::ProotLinux(_) => RuntimeBackendKind::ProotLinux,
        }
    }
}

/// A command ready to run: program, arguments, the whole environment (the
/// caller's is cleared) and working directory.
pub struct RuntimeCommand {
    pub program: String,
    pub arguments: Vec<String>,
    pub environment: StrMap<String>,
    pub cwd: String,
}

/// Android's Termux prefix, used while no ProotLinux runtime is ready.
pub struct LegacyTermuxBackend {
    pub prefix: String,
    pub home: String,
}

/// The environment of a legacy command.
pub open spec fn legacy_environment_spec(prefix: Seq<char>, home: Seq<char>) -> Map<Seq<char>, Seq<char>> {
    minimal_environment_spec(home, join_path_spec(prefix, "tmp"@))
        .insert("PREFIX"@, prefix)
        .insert("PATH"@, prefix + "/bin:"@ + join_path_spec(prefix, "usr"@) + "/bin"@)
}

/// A copy of a list of strings.
fn copy_args(arguments: &Vec<String>) -> (r: Vec<String>)
    ensures
        strs_view(r@) == strs_view(arguments@),
{
    crate::providers::clone_strs(arguments)
}

impl RuntimeBackend for LegacyTermuxBackend {
    /// Always the legacy backend.
    fn kind(&self) -> (k: RuntimeBackendKind)
        ensures
            k == RuntimeBackendKind::LegacyTermux,
    {
        RuntimeBackendKind::LegacyTermux
    }
}

impl LegacyTermuxBackend {

    /// Runs `command` from the prefix's `bin/` in `workspace`.
    pub fn command(&self, workspace: &str, command: &str, arguments: &Vec<String>) -> (c: RuntimeCommand)
        ensures
            c.program@ == join_path_spec(join_path_spec(self.prefix@, "bin"@), command@),
            strs_view(c.arguments@) == strs_view(arguments@),
            env_view(c.environment@) == legacy_environment_spec(self.prefix@, self.home@),
            c.cwd@ == workspace@,
    {
        let tmp = join_path(self.prefix.as_str(), "tmp");
        let mut environment = minimal_environment(self.home.as_str(), tmp.as_str());
        env_set(&mut environment, "PREFIX", self.prefix.clone());
        let mut path = self.prefix.clone();
        path.append("/bin:");
        let usr = join_path(self.prefix.as_str(), "usr");
        path.append(usr.as_str());
        path.append("/bin");
        env_set(&mut environment, "PATH", path);
        let bin = join_path(self.prefix.as_str(), "bin");
        RuntimeCommand {
            program: join_path(bin.as_str(), command),
            arguments: copy_args(arguments),
            environment,
            cwd: owned(workspace),
        }
    }

    /// The same command with `environment` set over its own variables.
    pub fn command_with_environment(&self, workspace: &str, command: &str, arguments: &Vec<String>, environment: &StrMap<String>) -> (c: RuntimeCommand)
        ensures
            c.program@ == join_path_spec(join_path_spec(self.prefix@, "bin"@), command@),
            strs_view(c.arguments@) == strs_view(arguments@),
            env_view(c.environment@) == legacy_environment_spec(self.prefix@, self.home@).union_prefer_right(
                env_view(environment@),
            ),
            c.cwd@ == workspace@,
    {
        let mut c = self.command(workspace, command, arguments);
        env_extend(&mut c.environment, environment);
        c
    }
}

/// A Debian guest run through PRoot.
pub struct ProotLinuxBackend {
    pub runtime_root: String,
    pub version: String,
}

/// `versions/{version}` under the runtime root.
pub open spec fn version_root_spec(root: Seq<char>, version: Seq<char>) -> Seq<char> {
    join_path_spec(join_path_spec(root, "versions"@), version)
}

/// The PRoot arguments that come before the guest's own environment: the
/// guest rootfs, exactly five bind mounts (the workspace, the persistent
/// home, the temporary directory, `/proc` and `/dev`), the guest working
/// directory, and `env -i` with a fixed minimal environment.
pub open spec fn proot_fixed_args(rootfs: Seq<char>, workspace: Seq<char>, home: Seq<char>, tmp: Seq<char>) -> Seq<Seq<char>> {
    seq![
        "--kill-on-exit"@, "-0"@, "-r"@, rootfs,
        "-b"@, workspace + ":/workspace"@,
        "-b"@, home + ":/home/coomi"@,
        "-b"@, tmp + ":/tmp"@,
        "-b"@, "/proc"@,
        "-b"@, "/dev"@,
        "-w"@, "/workspace"@,
        "/usr/bin/env"@, "-i"@,
        "HOME=/home/coomi"@,
        "PATH=/usr/local/sbin:/usr/local/bin:/usr/sbin:/usr/bin:/sbin:/bin"@,
        "TMPDIR=/tmp"@,
        "LANG=C.UTF-8"@,
        "SSL_CERT_FILE=/etc/ssl/certs/ca-certificates.crt"@,
    ]
}

/// A guest variable name: upper-case ASCII letters, digits and `_`, not empty.
pub open spec fn valid_guest_key(k: Seq<char>) -> bool {
    k.len() > 0 && forall|i: int| 0 <= i < k.len() ==> (('A' <= #[trigger] k[i] && k[i] <= 'Z') || ('0' <= k[i] && k[i] <= '9') || k[i] == '_')
}

/// A guest variable value: no NUL character.
pub open spec fn valid_guest_value(v: Seq<char>) -> bool {
    !v.contains('\0')
}

/// The first invalid guest variable, in key order.
pub open spec fn guest_env_problem(entries: Seq<(Seq<char>, String)>) -> Option<RuntimeError>
    decreases entries.len(),
{
    if entries.len() == 0 {
        None
    } else if !valid_guest_key(entries[0].0) {
        Some(RuntimeError::InvalidGuestEnvironmentKey)
    } else if !valid_guest_value(entries[0].1@) {
        Some(RuntimeError::InvalidGuestEnvironmentValue)
    } else {
        guest_env_problem(entries.drop_first())
    }
}

/// `KEY=value` for each guest variable, in key order.
pub open spec fn guest_env_args(entries: Seq<(Seq<char>, String)>) -> Seq<Seq<char>> {
    entries.map_values(|e: (Seq<char>, String)| e.0 + "="@ + e.1@)
}

/// Guest variables are refused in key order: the first entry with a bad
/// name or a value holding NUL decides the error, and a set of entries that
/// are all good is accepted.
pub proof fn lemma_guest_env_acceptance(entries: Seq<(Seq<char>, String)>)
    ensures
        guest_env_problem(entries) is None <==> forall|i: int| 0 <= i < entries.len() ==> {
            &&& (#[trigger] entries[i]).0.len() > 0
            &&& forall|j: int| 0 <= j < entries[i].0.len() ==> {
                let c = #[trigger] entries[i].0[j];
                ('A' <= c && c <= 'Z') || ('0' <= c && c <= '9') || c == '_'
            }
            &&& !entries[i].1@.contains('\0')
        },
    decreases entries.len(),
{
    if entries.len() > 0 {
        lemma_guest_env_acceptance(entries.drop_first());
        assert forall|i: int| 0 <= i < entries.len() - 1 implies #[trigger] entries.drop_first()[i] == entries[i + 1] by {}
        if guest_env_problem(entries) is None {
            assert forall|i: int| 0 <= i < entries.len() implies {
                &&& (#[trigger] entries[i]).0.len() > 0
                &&& forall|j: int| 0 <= j < entries[i].0.len() ==> {
                    let c = #[trigger] entries[i].0[j];
                    ('A' <= c && c <= 'Z') || ('0' <= c && c <= '9') || c == '_'
                }
                &&& !entries[i].1@.contains('\0')
            } by {
                if i > 0 {
                    assert(entries[i] == entries.drop_first()[i - 1]);
                }
            }
        } else {
            if !valid_guest_key(entries[0].0) || !valid_guest_value(entries[0].1@) {
            } else {
                let k = choose|k: int| 0 <= k < entries.drop_first().len() && !({
                    &&& (#[trigger] entries.drop_first()[k]).0.len() > 0
                    &&& forall|j: int| 0 <= j < entries.drop_first()[k].0.len() ==> {
                        let c = #[trigger] entries.drop_first()[k].0[j];
                        ('A' <= c && c <= 'Z') || ('0' <= c && c <= '9') || c == '_'
                    }
                    &&& !entries.drop_first()[k].1@.contains('\0')
                });
                assert(entries.drop_first()[k] == entries[k + 1]);
            }
        }
    }
}

/// Whether a name may be set in the guest.
pub fn guest_key_valid(k: &str) -> (r: bool)
    ensures
        r == valid_guest_key(k@),
{
    let cs = crate::text::chars_of(k);
    if cs.len() == 0 {
        return false;
    }
    let mut i: usize = 0;
    while i < cs.len()
        invariant
            cs@ == k@,
            i <= cs@.len(),
            forall|j: int| 0 <= j < i ==> (('A' <= #[trigger] k@[j] && k@[j] <= 'Z') || ('0' <= k@[j] && k@[j] <= '9') || k@[j] == '_'),
        decreases cs@.len() - i,
    {
        let c = cs[i];
        if !(('A' <= c && c <= 'Z') || ('0' <= c && c <= '9') || c == '_') {
            assert(!(('A' <= k@[i as int] && k@[i as int] <= 'Z') || ('0' <= k@[i as int] && k@[i as int] <= '9') || k@[i as int] == '_'));
            return false;
        }
        i = i + 1;
    }
    true
}

/// Whether a value may be set in the guest.
pub fn guest_value_valid(v: &str) -> (r: bool)
    ensures
        r == valid_guest_value(v@),
{
    let cs = crate::text::chars_of(v);
    let mut i: usize = 0;
    while i < cs.len()
        invariant
            cs@ == v@,
            i <= cs@.len(),
            forall|j: int| 0 <= j < i ==> v@[j] != '\0',
        decreases cs@.len() - i,
    {
        if cs[i] == '\0' {
            assert(v@[i as int] == '\0');
            return false;
        }
        i = i + 1;
    }
    true
}

impl RuntimeBackend for ProotLinuxBackend {
    /// Always the ProotLinux backend.
    fn kind(&self) -> (k: RuntimeBackendKind)
        ensures
            k == RuntimeBackendKind::ProotLinux,
    {
        RuntimeBackendKind::ProotLinux
    }
}

impl ProotLinuxBackend {

    /// `versions/{version}` under the runtime root.
    pub fn version_root(&self) -> (r: String)
        ensures
            r@ == version_root_spec(self.runtime_root@, self.version@),
    {
        let v = join_path(self.runtime_root.as_str(), "versions");
        join_path(v.as_str(), self.version.as_str())
    }

    /// The PRoot host binary, `bin/proot` of the version.
    pub fn proot(&self) -> (r: String)
        ensures
            r@ == join_path_spec(join_path_spec(version_root_spec(self.runtime_root@, self.version@), "bin"@), "proot"@),
    {
        let root = self.version_root();
        let bin = join_path(root.as_str(), "bin");
        join_path(bin.as_str(), "proot")
    }

    /// The guest root filesystem, `rootfs` of the version.
    pub fn rootfs(&self) -> (r: String)
        ensures
            r@ == join_path_spec(version_root_spec(self.runtime_root@, self.version@), "rootfs"@),
    {
        let root = self.version_root();
        join_path(root.as_str(), "rootfs")
    }

    /// The persistent guest home, `home` under the runtime root.
    pub fn home_dir(&self) -> (r: String)
        ensures
            r@ == join_path_spec(self.runtime_root@, "home"@),
    {
        join_path(self.runtime_root.as_str(), "home")
    }

    /// The guest's temporary directory, `tmp` under the runtime root.
    pub fn tmp_dir(&self) -> (r: String)
        ensures
            r@ == join_path_spec(self.runtime_root@, "tmp"@),
    {
        join_path(self.runtime_root.as_str(), "tmp")
    }

    /// The PRoot invocation that runs `command` in the guest: refused when
    /// the host binary or the guest shell is missing, or when a guest
    /// variable is invalid. `workspace`, `home` and `tmp` are the resolved
    /// host directories to bind.
    pub fn command_with_environment(
        &self,
        proot_installed: bool,
        rootfs_complete: bool,
        workspace: &str,
        home: &str,
        tmp: &str,
        command: &str,
        arguments: &Vec<String>,
        guest_environment: &StrMap<String>,
    ) -> (r: Result<RuntimeCommand, RuntimeError>)
        ensures
            !proot_installed ==> (r matches Err(e) && e is ProotNotInstalled),
            proot_installed && !rootfs_complete ==> (r matches Err(e) && e is RootfsIncomplete),
            proot_installed && rootfs_complete && guest_env_problem(guest_environment@) is Some ==> (r matches Err(e) && Some(e) == guest_env_problem(guest_environment@)),
            proot_installed && rootfs_complete && guest_env_problem(guest_environment@) is None ==> (r matches Ok(c) && {
                &&& c.program@ == join_path_spec(join_path_spec(version_root_spec(self.runtime_root@, self.version@), "bin"@), "proot"@)
                &&& strs_view(c.arguments@) == proot_fixed_args(
                        join_path_spec(version_root_spec(self.runtime_root@, self.version@), "rootfs"@),
                        workspace@, home@, tmp@,
                    ) + guest_env_args(guest_environment@) + seq![command@] + strs_view(arguments@)
                &&& env_view(c.environment@) == minimal_environment_spec(home@, tmp@).insert(
                        "LD_LIBRARY_PATH"@,
                        join_path_spec(version_root_spec(self.runtime_root@, self.version@), "lib"@),
                    )
                &&& c.cwd@ == workspace@
            }),
    {
        if !proot_installed {
            return Err(RuntimeError::ProotNotInstalled);
        }
        if !rootfs_complete {
            return Err(RuntimeError::RootfsIncomplete);
        }
        let rootfs = self.rootfs();
        let mut args: Vec<String> = Vec::new();
        args.push(owned("--kill-on-exit"));
        args.push(owned("-0"));
        args.push(owned("-r"));
        args.push(rootfs);
        args.push(owned("-b"));
        let mut w = owned(workspace);
        w.append(":/workspace");
        args.push(w);
        args.push(owned("-b"));
        let mut h = owned(home);
        h.append(":/home/coomi");
        args.push(h);
        args.push(owned("-b"));
        let mut t = owned(tmp);
        t.append(":/tmp");
        args.push(t);
        args.push(owned("-b"));
        args.push(owned("/proc"));
        args.push(owned("-b"));
        args.push(owned("/dev"));
        args.push(owned("-w"));
        args.push(owned("/workspace"));
        args.push(owned("/usr/bin/env"));
        args.push(owned("-i"));
        args.push(owned("HOME=/home/coomi"));
        args.push(owned("PATH=/usr/local/sbin:/usr/local/bin:/usr/sbin:/usr/bin:/sbin:/bin"));
        args.push(owned("TMPDIR=/tmp"));
        args.push(owned("LANG=C.UTF-8"));
        args.push(owned("SSL_CERT_FILE=/etc/ssl/certs/ca-certificates.crt"));
        let ghost fixed = strs_view(args@);
        assert(fixed =~= proot_fixed_args(
            join_path_spec(version_root_spec(self.runtime_root@, self.version@), "rootfs"@),
            workspace@, home@, tmp@,
        ));
        let mut i: usize = 0;
        assert(guest_environment@.skip(0) =~= guest_environment@);
        assert(guest_env_args(guest_environment@.take(0)) =~= Seq::<Seq<char>>::empty());
        while i < guest_environment.len()
            invariant
                proot_installed,
                rootfs_complete,
                i <= guest_environment@.len(),
                guest_env_problem(guest_environment@) == guest_env_problem(guest_environment@.skip(i as int)),
                strs_view(args@) == fixed + guest_env_args(guest_environment@.take(i as int)),
            decreases guest_environment@.len() - i,
        {
            let k = guest_environment.key_at(i);
            let v = guest_environment.value_at(i);
            let ghost rest = guest_environment@.skip(i as int);
            assert(rest[0] == guest_environment@[i as int]);
            assert(rest.drop_first() =~= guest_environment@.skip(i + 1));
            if !guest_key_valid(k.as_str()) {
                return Err(RuntimeError::InvalidGuestEnvironmentKey);
            }
            if !guest_value_valid(v.as_str()) {
                return Err(RuntimeError::InvalidGuestEnvironmentValue);
            }
            let mut entry = k.clone();
            entry.append("=");
            entry.append(v.as_str());
            let ghost before = args@;
            args.push(entry);
            assert(guest_environment@.take(i + 1) =~= guest_environment@.take(i as int).push(guest_environment@[i as int]));
            assert(guest_env_args(guest_environment@.take(i + 1)) =~= guest_env_args(guest_environment@.take(i as int)).push(
                guest_environment@[i as int].0 + "="@ + guest_environment@[i as int].1@));
            assert(strs_view(args@) =~= strs_view(before).push(entry@));
            i = i + 1;
        }
        assert(guest_environment@.take(guest_environment@.len() as int) =~= guest_environment@);
        let ghost with_env = args@;
        args.push(owned(command));
        let mut j: usize = 0;
        while j < arguments.len()
            invariant
                j <= arguments@.len(),
                strs_view(args@) == strs_view(with_env) + seq![command@] + strs_view(arguments@).take(j as int),
            decreases arguments@.len() - j,
        {
            let ghost before = args@;
            args.push(arguments[j].clone());
            assert(strs_view(args@) =~= strs_view(before).push(arguments@[j as int]@));
            assert(strs_view(arguments@).take(j + 1) =~= strs_view(arguments@).take(j as int).push(arguments@[j as int]@));
            j = j + 1;
        }
        assert(strs_view(arguments@).take(arguments@.len() as int) =~= strs_view(arguments@));
        let mut environment = minimal_environment(home, tmp);
        let root = self.version_root();
        let lib = join_path(root.as_str(), "lib");
        env_set(&mut environment, "LD_LIBRARY_PATH", lib);
        Ok(RuntimeCommand { program: self.proot(), arguments: args, environment, cwd: owned(workspace) })
    }

    /// The same as `command_with_environment` with no guest variables.
    pub fn command(
        &self,
        proot_installed: bool,
        rootfs_complete: bool,
        workspace: &str,
        home: &str,
        tmp: &str,
        command: &str,
        arguments: &Vec<String>,
    ) -> (r: Result<RuntimeCommand, RuntimeError>)
        ensures
            !proot_installed ==> (r matches Err(e) && e is ProotNotInstalled),
            proot_installed && !rootfs_complete ==> (r matches Err(e) && e is RootfsIncomplete),
            proot_installed && rootfs_complete ==> (r matches Ok(c) && {
                &&& c.program@ == join_path_spec(join_path_spec(version_root_spec(self.runtime_root@, self.version@), "bin"@), "proot"@)
                &&& strs_view(c.arguments@) == proot_fixed_args(
                        join_path_spec(version_root_spec(self.runtime_root@, self.version@), "rootfs"@),
                        workspace@, home@, tmp@,
                    ) + seq![command@] + strs_view(arguments@)
                &&& env_view(c.environment@) == minimal_environment_spec(home@, tmp@).insert(
                        "LD_LIBRARY_PATH"@,
                        join_path_spec(version_root_spec(self.runtime_root@, self.version@), "lib"@),
                    )
                &&& c.cwd@ == workspace@
            }),
    {
        let empty: StrMap<String> = StrMap::new();
        let r = self.command_with_environment(proot_installed, rootfs_complete, workspace, home, tmp, command, arguments, &empty);
        proof {
            assert(guest_env_args(empty@) =~= Seq::<Seq<char>>::empty());
            let fixed = proot_fixed_args(
                join_path_spec(version_root_spec(self.runtime_root@, self.version@), "rootfs"@),
                workspace@, home@, tmp@,
            );
            assert(fixed + guest_env_args(empty@) =~= fixed);
        }
        r
    }
}

/// Inside the fixed PRoot arguments, every `-b` binds one of exactly five
/// sources: the workspace, the persistent home, the temporary directory,
/// `/proc` or `/dev` (the rootfs path itself, at position 3, is an operand
/// of `-r` and is not read as an option).
pub proof fn lemma_proot_binds_only_explicit_mounts(rootfs: Seq<char>, workspace: Seq<char>, home: Seq<char>, tmp: Seq<char>, i: int)
    requires
        0 <= i < proot_fixed_args(rootfs, workspace, home, tmp).len() - 1,
        i != 3,
        proot_fixed_args(rootfs, workspace, home, tmp)[i] == "-b"@,
    ensures
        ({
            let a = proot_fixed_args(rootfs, workspace, home, tmp)[i + 1];
            a == workspace + ":/workspace"@ || a == home + ":/home/coomi"@ || a == tmp + ":/tmp"@
                || a == "/proc"@ || a == "/dev"@
        }),
{
    reveal_strlit("-b");
    reveal_strlit("--kill-on-exit");
    reveal_strlit("-0");
    reveal_strlit("-r");
    reveal_strlit("-w");
    reveal_strlit("/workspace");
    reveal_strlit("/usr/bin/env");
    reveal_strlit("-i");
    reveal_strlit("HOME=/home/coomi");
    reveal_strlit("PATH=/usr/local/sbin:/usr/local/bin:/usr/sbin:/usr/bin:/sbin:/bin");
    reveal_strlit("TMPDIR=/tmp");
    reveal_strlit("LANG=C.UTF-8");
    reveal_strlit("SSL_CERT_FILE=/etc/ssl/certs/ca-certificates.crt");
    reveal_strlit("/proc");
    reveal_strlit("/dev");
    reveal_strlit(":/workspace");
    reveal_strlit(":/home/coomi");
    reveal_strlit(":/tmp");
    let f = proot_fixed_args(rootfs, workspace, home, tmp);
    let b = "-b"@;
    assert(b.len() == 2 && b[1] == 'b');
    if i == 0 { assert(f[0].len() != 2); }
    else if i == 1 { assert(f[1][1] != 'b'); }
    else if i == 2 { assert(f[2][1] != 'b'); }
    else if i == 5 { assert(f[5].len() > 2); }
    else if i == 7 { assert(f[7].len() > 2); }
    else if i == 9 { assert(f[9].len() > 2); }
    else if i == 11 { assert(f[11].len() != 2); }
    else if i == 13 { assert(f[13].len() != 2); }
    else if i == 14 { assert(f[14][1] != 'b'); }
    else if i == 15 { assert(f[15].len() != 2); }
    else if i == 16 { assert(f[16].len() != 2); }
    else if i == 17 { assert(f[17][1] != 'b'); }
    else if i == 18 { assert(f[18].len() != 2); }
    else if i == 19 { assert(f[19].len() != 2); }
    else if i == 20 { assert(f[20].len() != 2); }
    else if i == 21 { assert(f[21].len() != 2); }
}

/// The shell whose presence makes the legacy prefix usable: `bin/sh`.
pub fn legacy_shell_path(prefix: &str) -> (r: String)
    ensures
        r@ == join_path_spec(prefix@, "bin/sh"@),
{
    join_path(prefix, "bin/sh")
}

/// The legacy prefix is healthy when its shell is there.
pub fn legacy_health(shell_is_file: bool) -> (r: Result<(), RuntimeError>)
    ensures
        shell_is_file ==> r is Ok,
        !shell_is_file ==> (r matches Err(e) && e is LegacyShellMissing),
{
    if shell_is_file {
        Ok(())
    } else {
        Err(RuntimeError::LegacyShellMissing)
    }
}

/// What the guest health check runs with `/bin/sh`: it checks that `apt`
/// and `python3` are installed.
pub fn guest_health_arguments() -> (r: Vec<String>)
    ensures
        strs_view(r@) == seq!["-lc"@, "test -x /usr/bin/apt && test -x /usr/bin/python3"@],
{
    let mut v: Vec<String> = Vec::new();
    v.push(owned("-lc"));
    v.push(owned("test -x /usr/bin/apt && test -x /usr/bin/python3"));
    assert(strs_view(v@) =~= seq!["-lc"@, "test -x /usr/bin/apt && test -x /usr/bin/python3"@]);
    v
}

/// The guest is healthy when the check succeeded; otherwise the error
/// carries the check's standard error, decoded and trimmed.
pub fn guest_health(success: bool, stderr: &[u8]) -> (r: Result<(), RuntimeError>)
    ensures
        success ==> r is Ok,
        !success ==> (r matches Err(e) && e matches RuntimeError::GuestHealthCheckFailed(m)
            && m@ == crate::text::trim_spec(crate::processes::lossy_text(stderr@))),
{
    if success {
        Ok(())
    } else {
        let text = crate::processes::decode_lossy(stderr);
        Err(RuntimeError::GuestHealthCheckFailed(crate::text::trim(text.as_str())))
    }
}

/// A character allowed in a download file name.
pub open spec fn artifact_name_char(c: char) -> bool {
    ('a' <= c && c <= 'z') || ('A' <= c && c <= 'Z') || ('0' <= c && c <= '9') || c == '-' || c == '_' || c == '.'
}

/// Download names are ASCII letters, digits, `-`, `_` and `.` only.
pub fn validate_artifact_name(name: &str) -> (r: Result<(), RuntimeError>)
    ensures
        (forall|i: int| 0 <= i < name@.len() ==> artifact_name_char(#[trigger] name@[i])) ==> r is Ok,
        !(forall|i: int| 0 <= i < name@.len() ==> artifact_name_char(#[trigger] name@[i])) ==> (r matches Err(e) && e is InvalidArtifactName),
{
    let cs = crate::text::chars_of(name);
    let mut i: usize = 0;
    while i < cs.len()
        invariant
            cs@ == name@,
            i <= cs@.len(),
            forall|j: int| 0 <= j < i ==> artifact_name_char(#[trigger] name@[j]),
        decreases cs@.len() - i,
    {
        let c = cs[i];
        if !(('a' <= c && c <= 'z') || ('A' <= c && c <= 'Z') || ('0' <= c && c <= '9') || c == '-' || c == '_' || c == '.') {
            assert(!artifact_name_char(name@[i as int]));
            return Err(RuntimeError::InvalidArtifactName);
        }
        i = i + 1;
    }
    Ok(())
}

/// The progress record kept beside a partial download.
pub struct DownloadState {
    pub version: u32,
    pub url: String,
    pub etag: Option<String>,
    pub downloaded: u64,
    pub expected_sha256: String,
}

/// How a download resumes.
pub struct ResumePlan {
    /// Bytes already on disk to continue from.
    pub offset: u64,
    /// The partial file belongs to another artifact and must be deleted first.
    pub discard_partial: bool,
    /// The validator to send with the range request.
    pub etag: Option<String>,
}

/// Decides how to resume a download: the partial file is kept only when
/// the saved progress record is for the same URL and checksum.
pub fn plan_resume(partial_len: Option<u64>, partial_exists: bool, saved: Option<DownloadState>, artifact: &RuntimeArtifact) -> (p: ResumePlan)
    ensures
        ({
            let matching = saved matches Some(st) && st.url@ == artifact.url@ && st.expected_sha256@ == artifact.sha256@;
            let len = match partial_len { Some(l) => l, None => 0 };
            &&& p.discard_partial == (!matching && partial_exists)
            &&& p.offset == (if !matching && partial_exists { 0 } else { len })
            &&& opt_view(p.etag) == (if matching { opt_view(saved->0.etag) } else { None })
        }),
{
    let mut offset: u64 = match partial_len {
        Some(l) => l,
        None => 0,
    };
    let matching = match &saved {
        Some(st) => str_eq(st.url.as_str(), artifact.url.as_str()) && str_eq(st.expected_sha256.as_str(), artifact.sha256.as_str()),
        None => false,
    };
    let discard = !matching && partial_exists;
    if discard {
        offset = 0;
    }
    let etag = if matching {
        match saved {
            Some(st) => st.etag,
            None => None,
        }
    } else {
        None
    };
    ResumePlan { offset, discard_partial: discard, etag }
}

/// The `Range` header of a resumed download: `bytes={offset}-`.
pub fn range_header(offset: u64) -> (r: Option<String>)
    ensures
        offset == 0 ==> r is None,
        offset > 0 ==> (r matches Some(h) && h@ == "bytes="@ + decimal_spec(offset as nat) + "-"@),
{
    if offset == 0 {
        return None;
    }
    let mut h = owned("bytes=");
    crate::text::append_decimal(&mut h, offset);
    h.append("-");
    Some(h)
}

/// Reads the answer to a download request: a failure unless the status is
/// 2xx; a resumed transfer only on 206, otherwise the download restarts
/// from byte 0. Gives the offset to continue at and whether to append.
pub fn download_response(offset: u64, status: u16, status_text: &str) -> (r: Result<(u64, bool), RuntimeError>)
    ensures
        !(200 <= status <= 299) ==> (r matches Err(e) && e matches RuntimeError::DownloadFailed(t) && t@ == status_text@),
        200 <= status <= 299 ==> (r matches Ok((o, resumed)) && resumed == (status == 206)
            && o == (if status == 206 { offset } else { 0 })),
{
    if !(200 <= status && status <= 299) {
        return Err(RuntimeError::DownloadFailed(owned(status_text)));
    }
    let resumed = status == 206;
    let o = if offset > 0 && !resumed { 0 } else { offset };
    Ok((o, resumed))
}

/// The progress record after `offset` bytes were written.
pub fn download_progress(artifact: &RuntimeArtifact, etag: &Option<String>, offset: u64) -> (st: DownloadState)
    ensures
        st.version == 1,
        st.url@ == artifact.url@,
        opt_view(st.etag) == opt_view(*etag),
        st.downloaded == offset,
        st.expected_sha256@ == artifact.sha256@,
{
    DownloadState {
        version: 1,
        url: artifact.url.clone(),
        etag: clone_opt(etag),
        downloaded: offset,
        expected_sha256: artifact.sha256.clone(),
    }
}

/// The SHA-256 digest of some bytes.
pub uninterp spec fn sha256_spec(bytes: Seq<u8>) -> Seq<u8>;

/// A running `sha2::Sha256` computation. The hasher's state is opaque;
/// `hasher_fed` names the bytes it has been fed.
#[verifier::external_body]
pub struct ArtifactHasher {
    hasher: sha2::Sha256,
}

/// The bytes a hasher has been fed, in order.
pub uninterp spec fn hasher_fed(h: ArtifactHasher) -> Seq<u8>;

impl ArtifactHasher {
    /// `<sha2::Sha256 as Digest>::new()`: a hasher that has been fed nothing.
    #[verifier::external_body]
    pub(crate) fn start() -> (h: Self)
        ensures
            hasher_fed(h) == Seq::<u8>::empty(),
    {
        ArtifactHasher { hasher: <sha2::Sha256 as sha2::Digest>::new() }
    }

    /// `Digest::update`: feeds `chunk` after what was fed before.
    #[verifier::external_body]
    pub(crate) fn feed(&mut self, chunk: &[u8])
        ensures
            hasher_fed(*final(self)) == hasher_fed(*old(self)) + chunk@,
    {
        sha2::Digest::update(&mut self.hasher, chunk)
    }

    /// `Digest::finalize`: the 32-byte SHA-256 digest of everything fed.
    #[verifier::external_body]
    pub(crate) fn digest(self) -> (d: Vec<u8>)
        ensures
            d@ == sha256_spec(hasher_fed(self)),
            d@.len() == 32,
    {
        sha2::Digest::finalize(self.hasher).to_vec()
    }
}

/// The SHA-256 checksum of a file, computed over its bytes fed in chunks,
/// with the number of bytes fed.
pub struct ArtifactChecksum {
    hasher: ArtifactHasher,
    len: u64,
}

impl View for ArtifactChecksum {
    type V = Seq<u8>;

    /// The bytes fed so far.
    closed spec fn view(&self) -> Seq<u8> {
        hasher_fed(self.hasher)
    }
}

impl ArtifactChecksum {
    /// The count of bytes is the length of what was fed.
    #[verifier::type_invariant]
    spec fn counted(self) -> bool {
        self.len == hasher_fed(self.hasher).len()
    }

    /// A checksum over no bytes yet.
    pub fn new() -> (c: Self)
        ensures
            c@ == Seq::<u8>::empty(),
    {
        ArtifactChecksum { hasher: ArtifactHasher::start(), len: 0 }
    }

    /// Feeds the next chunk of the file.
    pub fn feed(&mut self, chunk: &[u8])
        requires
            old(self)@.len() + chunk@.len() <= u64::MAX,
        ensures
            final(self)@ == old(self)@ + chunk@,
    {
        proof {
            use_type_invariant(&*self);
        }
        let n = self.len + chunk.len() as u64;
        let mut current = ArtifactChecksum::new();
        std::mem::swap(&mut current, self);
        let ArtifactChecksum { mut hasher, len: _ } = current;
        hasher.feed(chunk);
        *self = ArtifactChecksum { hasher, len: n };
    }

    /// How many bytes were fed.
    pub fn len(&self) -> (n: u64)
        ensures
            n == self@.len(),
    {
        proof {
            use_type_invariant(self);
        }
        self.len
    }

    /// The digest of the bytes fed, as lower-case hex.
    pub fn hex_digest(self) -> (h: String)
        ensures
            h@ == lower_hex_spec(sha256_spec(self@)),
    {
        let d = self.hasher.digest();
        lower_hex(d.as_slice())
    }
}

/// The size a transfer or a file on disk reports must be the pinned size.
pub fn check_artifact_size(actual_size: u64, artifact: &RuntimeArtifact) -> (r: Result<(), RuntimeError>)
    ensures
        actual_size != artifact.size ==> (r matches Err(e) && e is ArtifactSizeMismatch),
        actual_size == artifact.size ==> r is Ok,
{
    if actual_size != artifact.size {
        Err(RuntimeError::ArtifactSizeMismatch)
    } else {
        Ok(())
    }
}

/// A checksum character is valid exactly when it is an ASCII digit
/// (code 48 to 57) or a letter a to f in either case (97 to 102, 65 to 70).
pub proof fn lemma_hex_digit_codes(c: char)
    ensures
        is_hex_digit(c) <==> ((48 <= c as u32 && c as u32 <= 57) || (97 <= c as u32 && c as u32 <= 102)
            || (65 <= c as u32 && c as u32 <= 70)),
{
}

proof fn lemma_lower_hex_digits(bytes: Seq<u8>)
    ensures
        lower_hex_spec(bytes).len() == 2 * bytes.len(),
        forall|i: int| 0 <= i < lower_hex_spec(bytes).len() ==> is_hex_digit(#[trigger] lower_hex_spec(bytes)[i]),
    decreases bytes.len(),
{
    reveal_strlit("0123456789abcdef");
    if bytes.len() > 0 {
        lemma_lower_hex_digits(bytes.drop_last());
        let x = bytes.last();
        let hi = (x / 16) as nat;
        let lo = (x % 16) as nat;
        assert forall|n: nat| n < 16 implies is_hex_digit(#[trigger] hex_char(n)) by {
            let d = "0123456789abcdef"@;
            assert(d[0] == '0' && d[1] == '1' && d[2] == '2' && d[3] == '3' && d[4] == '4' && d[5] == '5');
            assert(d[6] == '6' && d[7] == '7' && d[8] == '8' && d[9] == '9' && d[10] == 'a' && d[11] == 'b');
            assert(d[12] == 'c' && d[13] == 'd' && d[14] == 'e' && d[15] == 'f');
        }
        assert(is_hex_digit(hex_char(hi)));
        assert(is_hex_digit(hex_char(lo)));
    }
}

/// The hex form of a 32-byte digest, as this library writes it, is a
/// well-formed pinned checksum: a computed digest is never refused as
/// malformed, whatever its digits.
pub proof fn lemma_digest_hex_is_valid_checksum(bytes: Seq<u8>)
    requires
        bytes.len() == 32,
    ensures
        is_sha256_hex(lower_hex_spec(bytes)),
{
    lemma_lower_hex_digits(bytes);
}

/// A file matches an artifact when its size and then its SHA-256 (as
/// lower-case hex) agree with the pinned ones.
pub fn verify_artifact(checksum: ArtifactChecksum, artifact: &RuntimeArtifact) -> (r: Result<(), RuntimeError>)
    ensures
        checksum@.len() != artifact.size ==> (r matches Err(e) && e is ArtifactSizeMismatch),
        checksum@.len() == artifact.size && lower_hex_spec(sha256_spec(checksum@)) != artifact.sha256@
            ==> (r matches Err(e) && e is ArtifactChecksumMismatch),
        checksum@.len() == artifact.size && lower_hex_spec(sha256_spec(checksum@)) == artifact.sha256@ ==> r is Ok,
{
    if checksum.len() != artifact.size {
        return Err(RuntimeError::ArtifactSizeMismatch);
    }
    let hex = checksum.hex_digest();
    if !str_eq(hex.as_str(), artifact.sha256.as_str()) {
        return Err(RuntimeError::ArtifactChecksumMismatch);
    }
    Ok(())
}

/// The lower-case hex digit of `n < 16`.
pub open spec fn hex_char(n: nat) -> char {
    "0123456789abcdef"@[n as int]
}

/// Each byte as two lower-case hex digits.
pub open spec fn lower_hex_spec(bytes: Seq<u8>) -> Seq<char>
    decreases bytes.len(),
{
    if bytes.len() == 0 {
        Seq::empty()
    } else {
        lower_hex_spec(bytes.drop_last()) + seq![hex_char((bytes.last() / 16) as nat), hex_char((bytes.last() % 16) as nat)]
    }
}

/// A digest as lower-case hex, `{:02x}` for each byte.
pub fn lower_hex(bytes: &[u8]) -> (r: String)
    ensures
        r@ == lower_hex_spec(bytes@),
{
    proof {
        reveal_strlit("0123456789abcdef");
    }
    let digits = "0123456789abcdef";
    let mut out = String::new();
    let mut i: usize = 0;
    while i < bytes.len()
        invariant
            digits@ == "0123456789abcdef"@,
            digits@.len() == 16,
            i <= bytes@.len(),
            out@ == lower_hex_spec(bytes@.take(i as int)),
        decreases bytes@.len() - i,
    {
        let b = bytes[i];
        let hi = (b / 16) as usize;
        let lo = (b % 16) as usize;
        out.append(digits.substring_char(hi, hi + 1));
        out.append(digits.substring_char(lo, lo + 1));
        proof {
            assert(bytes@.take(i + 1).drop_last() =~= bytes@.take(i as int));
            assert(digits@.subrange(hi as int, hi + 1) =~= seq![hex_char(hi as nat)]);
            assert(digits@.subrange(lo as int, lo + 1) =~= seq![hex_char(lo as nat)]);
        }
        i = i + 1;
    }
    assert(bytes@.take(bytes@.len() as int) =~= bytes@);
    out
}

/// A bounded command run needs a positive output limit.
pub fn check_output_limit(output_limit: usize) -> (r: Result<(), RuntimeError>)
    ensures
        output_limit == 0 ==> (r matches Err(e) && e is OutputLimitNotPositive),
        output_limit > 0 ==> r is Ok,
{
    if output_limit == 0 {
        Err(RuntimeError::OutputLimitNotPositive)
    } else {
        Ok(())
    }
}

/// How many bytes a bounded reader takes from a stream: one more than the
/// limit, so that crossing it shows.
pub fn read_byte_limit(output_limit: usize) -> (n: u64)
    ensures
        n == (if output_limit < usize::MAX { output_limit + 1 } else { output_limit as int }),
{
    output_limit.saturating_add(1) as u64
}

/// A stream read within the limit is accepted; one over it is refused.
pub fn check_read_output(len: usize, output_limit: usize) -> (r: Result<(), RuntimeError>)
    ensures
        len <= output_limit ==> r is Ok,
        len > output_limit ==> (r matches Err(e) && e matches RuntimeError::OutputExceeded(l) && l == output_limit),
{
    if len <= output_limit {
        Ok(())
    } else {
        Err(RuntimeError::OutputExceeded(output_limit))
    }
}

/// The sum of two lengths, saturating at `usize::MAX`.
pub open spec fn saturating_sum(a: usize, b: usize) -> int {
    if a + b > usize::MAX { usize::MAX as int } else { a + b }
}

/// Both streams together (their saturating sum) must stay within the limit.
pub fn check_total_output(stdout_len: usize, stderr_len: usize, output_limit: usize) -> (r: Result<(), RuntimeError>)
    ensures
        saturating_sum(stdout_len, stderr_len) <= output_limit ==> r is Ok,
        saturating_sum(stdout_len, stderr_len) > output_limit ==> (r matches Err(e) && e matches RuntimeError::OutputExceeded(l) && l == output_limit),
{
    if stdout_len.saturating_add(stderr_len) <= output_limit {
        Ok(())
    } else {
        Err(RuntimeError::OutputExceeded(output_limit))
    }
}

/// Moving a legacy home skips Termux's `usr` tree and `.cache`.
pub fn skip_home_entry(name: Option<&str>) -> (r: bool)
    ensures
        r == (name matches Some(n) && (n@ == "usr"@ || n@ == ".cache"@)),
{
    match name {
        Some(n) => str_eq(n, "usr") || str_eq(n, ".cache"),
        None => false,
    }
}

} // verus!

use std::collections::BTreeMap;

use lattice::platform::filesystem::{
    FileSystemEntry, FileSystemError, FileSystemErrorKind, PlatformFileSystem,
};
use lattice::platform::host_path::HostPath;
use lattice::platform::model::{
    HostPlatform, InspectionStatus, PathAvailability, PathError, PlatformError, ResolutionOrigin,
    ResolverOverrides, StudioPathRole, StudioRuntime,
};
use lattice::platform::process::{ProcessSnapshot, ProcessSource};
use lattice::platform::resolver::{PlatformContext, PlatformResolver, StudioEnvironmentResolver};
use lattice::platform::translation::{PathTranslator, WinePathTranslator};
use lattice::platform::wine_path::WinePath;

/// A file system held in memory: directories, files with a modification
/// time, and symbolic links to absolute targets.
#[derive(Clone, Debug)]
enum Node {
    Directory,
    File(u64),
    Link(String),
}

#[derive(Clone, Debug, Default)]
struct MemoryFileSystem {
    nodes: BTreeMap<String, Node>,
    times: BTreeMap<String, u64>,
}

fn missing(path: &str) -> FileSystemError {
    FileSystemError { kind: FileSystemErrorKind::Missing, message: format!("{path} does not exist") }
}

fn other(message: &str) -> FileSystemError {
    FileSystemError { kind: FileSystemErrorKind::Other, message: message.to_owned() }
}

impl MemoryFileSystem {
    fn directory(&mut self, path: &HostPath) {
        let mut current = Some(path.clone());
        while let Some(path) = current {
            self.nodes.entry(path.to_text()).or_insert(Node::Directory);
            current = path.parent();
        }
    }

    fn file(&mut self, path: &HostPath) {
        if let Some(parent) = path.parent() {
            self.directory(&parent);
        }
        self.nodes.insert(path.to_text(), Node::File(0));
    }

    fn touch(&mut self, path: &HostPath, modified: u64) {
        self.times.insert(path.to_text(), modified);
    }

    fn symlink(&mut self, target: &HostPath, link: &HostPath) {
        if let Some(parent) = link.parent() {
            self.directory(&parent);
        }
        self.nodes.insert(link.to_text(), Node::Link(target.to_text()));
    }

    fn resolve_text(&self, text: &str, depth: usize) -> Result<String, FileSystemError> {
        if depth > 16 {
            return Err(other("too many levels of symbolic links"));
        }
        let mut current = String::new();
        for component in HostPath::new(text).components() {
            let next = format!("{current}/{component}");
            match self.nodes.get(&next) {
                None => return Err(missing(&next)),
                Some(Node::Link(target)) => {
                    let resolved = self.resolve_text(target, depth + 1)?;
                    current = if resolved == "/" { String::new() } else { resolved };
                }
                Some(_) => current = next,
            }
        }
        Ok(if current.is_empty() { "/".to_owned() } else { current })
    }

    fn resolve(&self, path: &HostPath) -> Result<String, FileSystemError> {
        self.resolve_text(&path.to_text(), 0)
    }
}

impl PlatformFileSystem for MemoryFileSystem {
    fn inspect(&self, path: &HostPath) -> Result<FileSystemEntry, FileSystemError> {
        let resolved = self.resolve(path)?;
        let node = self.nodes.get(&resolved).cloned().unwrap_or(Node::Directory);
        Ok(FileSystemEntry {
            path: path.clone(),
            file_name: path.file_name().unwrap_or_default(),
            is_directory: matches!(node, Node::Directory),
            is_file: matches!(node, Node::File(_)),
        })
    }

    fn read_directory(&self, path: &HostPath) -> Result<Vec<FileSystemEntry>, FileSystemError> {
        let resolved = self.resolve(path)?;
        if !matches!(self.nodes.get(&resolved), Some(Node::Directory) | None) {
            return Err(other("not a directory"));
        }
        let prefix = if resolved == "/" { "/".to_owned() } else { format!("{resolved}/") };
        let mut entries = Vec::new();
        for (key, node) in &self.nodes {
            if let Some(name) = key.strip_prefix(&prefix) {
                if !name.is_empty() && !name.contains('/') {
                    entries.push(FileSystemEntry {
                        path: path.join(name),
                        file_name: name.to_owned(),
                        is_directory: matches!(node, Node::Directory),
                        is_file: matches!(node, Node::File(_)),
                    });
                }
            }
        }
        entries.sort_by(|left, right| left.file_name.cmp(&right.file_name));
        Ok(entries)
    }

    fn read_link(&self, path: &HostPath) -> Result<HostPath, FileSystemError> {
        match self.nodes.get(&path.to_text()) {
            Some(Node::Link(target)) => Ok(HostPath::new(target)),
            Some(_) => Err(other("not a symbolic link")),
            None => Err(missing(&path.to_text())),
        }
    }

    fn canonicalize(&self, path: &HostPath) -> Result<HostPath, FileSystemError> {
        self.resolve(path).map(|text| HostPath::new(&text))
    }

    fn modified_unix_seconds(&self, path: &HostPath) -> Result<u64, FileSystemError> {
        let resolved = self.resolve(path)?;
        if let Some(modified) = self.times.get(&resolved) {
            return Ok(*modified);
        }
        match self.nodes.get(&resolved) {
            Some(Node::File(modified)) => Ok(*modified),
            _ => Ok(0),
        }
    }
}

#[derive(Clone, Debug)]
struct DeniedFileSystem {
    inner: MemoryFileSystem,
    denied: HostPath,
}

impl PlatformFileSystem for DeniedFileSystem {
    fn inspect(&self, path: &HostPath) -> Result<FileSystemEntry, FileSystemError> {
        if path == &self.denied {
            return Err(FileSystemError {
                kind: FileSystemErrorKind::PermissionDenied,
                message: "fixture access denied".to_owned(),
            });
        }
        self.inner.inspect(path)
    }

    fn read_directory(&self, path: &HostPath) -> Result<Vec<FileSystemEntry>, FileSystemError> {
        self.inner.read_directory(path)
    }

    fn read_link(&self, path: &HostPath) -> Result<HostPath, FileSystemError> {
        self.inner.read_link(path)
    }

    fn canonicalize(&self, path: &HostPath) -> Result<HostPath, FileSystemError> {
        self.inner.canonicalize(path)
    }

    fn modified_unix_seconds(&self, path: &HostPath) -> Result<u64, FileSystemError> {
        self.inner.modified_unix_seconds(path)
    }
}

#[derive(Clone, Debug, Default)]
struct StaticProcesses(Vec<ProcessSnapshot>);

impl ProcessSource for StaticProcesses {
    fn snapshot(&self) -> Vec<ProcessSnapshot> {
        self.0.clone()
    }
}

fn home() -> HostPath {
    HostPath::new("/fixture/home")
}

fn context(host_platform: HostPlatform, home: &HostPath) -> PlatformContext {
    PlatformContext {
        host_platform,
        home_dir: Some(home.clone()),
        config_dir: Some(home.join(".config")),
        data_local_dir: Some(home.join(".local/share")),
        cache_dir: Some(home.join(".cache")),
        sandboxed: false,
        studio_mcp_command: None,
        overrides: ResolverOverrides::default(),
    }
}

fn native_vinegar_fixture(fs: &mut MemoryFileSystem, home: &HostPath) -> (HostPath, HostPath) {
    let data = home.join(".local/share/vinegar");
    let prefix = data.join("prefixes/studio");
    fs.directory(&home.join(".config/vinegar"));
    fs.directory(&home.join(".cache/vinegar/logs"));
    fs.directory(&prefix.join("drive_c/users/player/AppData/Local/Roblox/Profiler"));
    fs.directory(&prefix.join("dosdevices"));
    fs.file(&data.join("versions/version-a/RobloxStudioBeta.exe"));
    (data, prefix)
}

fn flatpak_vinegar_fixture(fs: &mut MemoryFileSystem, home: &HostPath) -> (HostPath, HostPath) {
    let root = home.join(".var/app/org.vinegarhq.Vinegar");
    let data = root.join("data/vinegar");
    let prefix = data.join("prefixes/studio");
    fs.directory(&root.join("config/vinegar"));
    fs.directory(&root.join("cache/vinegar/logs"));
    fs.directory(&prefix.join("drive_c/users/flatpak/AppData/Local/Roblox"));
    fs.directory(&prefix.join("dosdevices"));
    fs.file(&data.join("versions/version-flatpak/RobloxStudioBeta.exe"));
    (data, prefix)
}

fn studio_process(pid: u32, prefix: &HostPath, deployment: &HostPath) -> ProcessSnapshot {
    ProcessSnapshot {
        pid,
        parent_pid: Some(pid.saturating_sub(1)),
        name: "RobloxStudioBeta.exe".to_owned(),
        executable: Some(HostPath::new("/usr/bin/wine64")),
        command: vec![deployment.join("RobloxStudioBeta.exe").to_text()],
        environment: vec![
            ("WINEPREFIX".to_owned(), prefix.to_text()),
            ("WINEUSERNAME".to_owned(), "player".to_owned()),
        ],
        start_time_unix_seconds: 1_000 + u64::from(pid),
    }
}

#[test]
fn linux_native_default_xdg_resolves_all_core_paths() {
    let home = home();
    let mut fs = MemoryFileSystem::default();
    let (data, prefix) = native_vinegar_fixture(&mut fs, &home);
    let deployment = data.join("versions/version-a");
    let resolver = PlatformResolver::new(
        context(HostPlatform::Linux, &home),
        fs,
        StaticProcesses(vec![studio_process(41, &prefix, &deployment)]),
    );
    let inspection = resolver.inspect().expect("inspection");
    assert_eq!(inspection.status, InspectionStatus::Resolved);
    let environment = &inspection.environments[0];
    assert_eq!(environment.runtime, StudioRuntime::VinegarNative);
    assert_eq!(environment.studio_prefix.as_ref(), Some(&prefix));
    assert_eq!(environment.studio_process.as_ref().map(|process| process.pid), Some(41));
    assert_eq!(
        environment
            .roblox_appdata
            .as_ref()
            .and_then(|path| path.guest.as_ref())
            .map(|guest| guest.to_text()),
        Some(r"C:\users\player\AppData\Local\Roblox".to_owned())
    );
    assert!(environment.capabilities.wine_path_translation);
}

#[test]
fn custom_xdg_roots_are_used_independently() {
    let root = HostPath::new("/fixture");
    let home = root.join("home");
    let config = root.join("custom-config");
    let data = root.join("custom-data");
    let cache = root.join("custom-cache");
    let mut fs = MemoryFileSystem::default();
    fs.directory(&config.join("vinegar"));
    fs.directory(&data.join("vinegar"));
    fs.directory(&cache.join("vinegar"));
    let mut custom = context(HostPlatform::Linux, &home);
    custom.config_dir = Some(config);
    custom.data_local_dir = Some(data.clone());
    custom.cache_dir = Some(cache);
    let resolver = PlatformResolver::new(custom, fs, StaticProcesses::default());
    let candidates = resolver.detect_all().expect("candidates");
    assert_eq!(candidates.len(), 1);
    assert_eq!(candidates[0].data_root, Some(data.join("vinegar")));
}

#[test]
fn custom_xdg_config_home_does_not_change_data_or_cache() {
    let root = HostPath::new("/fixture");
    let home = root.join("home");
    let custom = root.join("config-only");
    let mut fs = MemoryFileSystem::default();
    fs.directory(&custom.join("vinegar"));
    let mut configured = context(HostPlatform::Linux, &home);
    configured.config_dir = Some(custom.clone());
    let candidate = PlatformResolver::new(configured, fs, StaticProcesses::default())
        .detect_all()
        .expect("candidates")
        .remove(0);
    assert_eq!(candidate.config_root, Some(custom.join("vinegar")));
    assert_eq!(candidate.data_root, Some(home.join(".local/share/vinegar")));
    assert_eq!(candidate.cache_root, Some(home.join(".cache/vinegar")));
}

#[test]
fn custom_xdg_data_home_does_not_change_config_or_cache() {
    let root = HostPath::new("/fixture");
    let home = root.join("home");
    let custom = root.join("data-only");
    let mut fs = MemoryFileSystem::default();
    fs.directory(&custom.join("vinegar"));
    let mut configured = context(HostPlatform::Linux, &home);
    configured.data_local_dir = Some(custom.clone());
    let candidate = PlatformResolver::new(configured, fs, StaticProcesses::default())
        .detect_all()
        .expect("candidates")
        .remove(0);
    assert_eq!(candidate.config_root, Some(home.join(".config/vinegar")));
    assert_eq!(candidate.data_root, Some(custom.join("vinegar")));
    assert_eq!(candidate.cache_root, Some(home.join(".cache/vinegar")));
}

#[test]
fn custom_xdg_cache_home_does_not_change_config_or_data() {
    let root = HostPath::new("/fixture");
    let home = root.join("home");
    let custom = root.join("cache-only");
    let mut fs = MemoryFileSystem::default();
    fs.directory(&custom.join("vinegar"));
    let mut configured = context(HostPlatform::Linux, &home);
    configured.cache_dir = Some(custom.clone());
    let candidate = PlatformResolver::new(configured, fs, StaticProcesses::default())
        .detect_all()
        .expect("candidates")
        .remove(0);
    assert_eq!(candidate.config_root, Some(home.join(".config/vinegar")));
    assert_eq!(candidate.data_root, Some(home.join(".local/share/vinegar")));
    assert_eq!(candidate.cache_root, Some(custom.join("vinegar")));
}

#[test]
fn flatpak_is_a_distinct_first_class_runtime() {
    let home = home();
    let mut fs = MemoryFileSystem::default();
    let _ = flatpak_vinegar_fixture(&mut fs, &home);
    let resolver =
        PlatformResolver::new(context(HostPlatform::Linux, &home), fs, StaticProcesses::default());
    let inspection = resolver.inspect().expect("inspection");
    assert_eq!(inspection.status, InspectionStatus::Resolved);
    assert_eq!(inspection.environments[0].runtime, StudioRuntime::VinegarFlatpak);
}

#[test]
fn flatpak_wine_runtime_produces_an_experimental_stdio_launcher_from_resolved_evidence() {
    let home = home();
    let mut fs = MemoryFileSystem::default();
    let (data, prefix) = flatpak_vinegar_fixture(&mut fs, &home);
    let deployment = data.join("versions/version-flatpak");
    fs.file(&deployment.join("StudioMCP.exe"));
    fs.symlink(&home, &prefix.join("dosdevices/z:"));
    let runtime = data.join("kombucha-test");
    fs.file(&runtime.join("bin/wine"));
    fs.file(&runtime.join("lib/wine/x86_64-unix/wine-preloader"));
    let mut process = studio_process(51, &prefix, &deployment);
    process.executable = Some(runtime.join("lib/wine/x86_64-unix/wine-preloader"));
    let resolver = PlatformResolver::new(
        context(HostPlatform::Linux, &home),
        fs,
        StaticProcesses(vec![process]),
    );
    let inspection = resolver.inspect().expect("inspection");
    let environment = &inspection.environments[0];
    let wine = environment.wine_runtime.as_ref().expect("Wine runtime not resolved");
    assert_eq!(wine.executable, runtime.join("bin/wine"));
    let launcher = environment.mcp_launcher.as_ref().expect("MCP launcher not resolved");
    assert_eq!(launcher.executable, wine.executable);
    assert!(launcher.experimental);
    assert_eq!(
        launcher.environment.iter().find(|(name, _)| name == "WINEPREFIX").map(|(_, value)| value),
        Some(&prefix.to_text())
    );
    assert_eq!(launcher.arguments.len(), 1);
    assert!(launcher.arguments[0].ends_with("StudioMCP.exe"));
}

#[test]
fn native_and_flatpak_remnants_are_ambiguous_without_process_evidence() {
    let home = home();
    let mut fs = MemoryFileSystem::default();
    let _ = native_vinegar_fixture(&mut fs, &home);
    let _ = flatpak_vinegar_fixture(&mut fs, &home);
    let resolver =
        PlatformResolver::new(context(HostPlatform::Linux, &home), fs, StaticProcesses::default());
    assert_eq!(resolver.inspect().expect("inspection").status, InspectionStatus::Ambiguous);
}

#[test]
fn running_process_disambiguates_native_from_flatpak() {
    let home = home();
    let mut fs = MemoryFileSystem::default();
    let (native_data, native_prefix) = native_vinegar_fixture(&mut fs, &home);
    let _ = flatpak_vinegar_fixture(&mut fs, &home);
    let process = studio_process(52, &native_prefix, &native_data.join("versions/version-a"));
    let resolver = PlatformResolver::new(
        context(HostPlatform::Linux, &home),
        fs,
        StaticProcesses(vec![process]),
    );
    let inspection = resolver.inspect().expect("inspection");
    assert_eq!(inspection.status, InspectionStatus::Resolved);
    let selected = inspection.selected_environment;
    assert!(inspection.environments.iter().any(|environment| Some(environment.id) == selected
        && environment.runtime == StudioRuntime::VinegarNative));
}

#[test]
fn missing_prefix_is_explicit_not_found_state() {
    let home = home();
    let mut fs = MemoryFileSystem::default();
    fs.directory(&home.join(".local/share/vinegar"));
    let resolver =
        PlatformResolver::new(context(HostPlatform::Linux, &home), fs, StaticProcesses::default());
    let inspection = resolver.inspect().expect("inspection");
    let prefix = inspection.environments[0].path(StudioPathRole::Prefix);
    assert_eq!(prefix.map(|path| path.availability), Some(PathAvailability::Missing));
    assert!(inspection.environments[0].studio_prefix.is_none());
}

#[test]
fn multiple_wine_users_return_ambiguity() {
    let home = home();
    let mut fs = MemoryFileSystem::default();
    let (_, prefix) = native_vinegar_fixture(&mut fs, &home);
    fs.directory(&prefix.join("drive_c/users/second/AppData/Local/Roblox"));
    let resolver =
        PlatformResolver::new(context(HostPlatform::Linux, &home), fs, StaticProcesses::default());
    let inspection = resolver.inspect().expect("inspection");
    assert_eq!(
        inspection.environments[0]
            .path(StudioPathRole::RobloxAppData)
            .map(|path| path.availability),
        Some(PathAvailability::Ambiguous)
    );
}

#[test]
fn multiple_deployments_without_distinguishing_evidence_are_ambiguous() {
    let home = home();
    let mut fs = MemoryFileSystem::default();
    let (data, _) = native_vinegar_fixture(&mut fs, &home);
    fs.file(&data.join("versions/version-b/RobloxStudioBeta.exe"));
    let resolver =
        PlatformResolver::new(context(HostPlatform::Linux, &home), fs, StaticProcesses::default());
    let inspection = resolver.inspect().expect("inspection");
    assert_eq!(
        inspection.environments[0].path(StudioPathRole::Deployment).map(|path| path.availability),
        Some(PathAvailability::Ambiguous)
    );
}

#[test]
fn multiple_studio_processes_receive_distinct_environment_ids() {
    let home = home();
    let mut fs = MemoryFileSystem::default();
    let (data, prefix) = native_vinegar_fixture(&mut fs, &home);
    let deployment = data.join("versions/version-a");
    let resolver = PlatformResolver::new(
        context(HostPlatform::Linux, &home),
        fs,
        StaticProcesses(vec![
            studio_process(61, &prefix, &deployment),
            studio_process(62, &prefix, &deployment),
        ]),
    );
    let inspection = resolver.inspect().expect("inspection");
    assert_eq!(inspection.status, InspectionStatus::Ambiguous);
    assert_eq!(inspection.environments.len(), 2);
    assert_ne!(inspection.environments[0].id, inspection.environments[1].id);
}

#[test]
fn webview_helpers_are_related_but_never_promoted_to_studio_sessions() {
    let home = home();
    let mut fs = MemoryFileSystem::default();
    let (data, prefix) = native_vinegar_fixture(&mut fs, &home);
    let deployment = data.join("versions/version-a");
    let main = studio_process(71, &prefix, &deployment);
    let helper = ProcessSnapshot {
        pid: 72,
        parent_pid: Some(70),
        name: "CrRendererMain".to_owned(),
        executable: Some(HostPath::new("/usr/bin/wine-preloader")),
        command: vec![
            r"C:\Program Files\WebView2\msedgewebview2.exe".to_owned(),
            "--webview-exe-name=RobloxStudioBeta.exe".to_owned(),
        ],
        environment: vec![("WINEPREFIX".to_owned(), prefix.to_text())],
        start_time_unix_seconds: 2_000,
    };
    let resolver = PlatformResolver::new(
        context(HostPlatform::Linux, &home),
        fs,
        StaticProcesses(vec![main, helper]),
    );
    let inspection = resolver.inspect().expect("inspection");
    assert_eq!(inspection.environments.len(), 1);
    assert_eq!(inspection.environments[0].studio_process.as_ref().map(|value| value.pid), Some(71));
    assert!(inspection.environments[0].related_processes.iter().any(|value| value.pid == 72));
}

#[test]
fn windows_native_fixture_uses_semantic_roots() {
    let root = HostPath::new("/fixture");
    let home = root.join("profile");
    let local = root.join("LocalAppData");
    let mut fs = MemoryFileSystem::default();
    fs.directory(&local.join("Roblox/logs"));
    fs.file(&local.join("Roblox/Versions/version-win/RobloxStudioBeta.exe"));
    let mut windows = context(HostPlatform::Windows, &home);
    windows.data_local_dir = Some(local.clone());
    let resolver = PlatformResolver::new(windows, fs, StaticProcesses::default());
    let inspection = resolver.inspect().expect("inspection");
    let environment = &inspection.environments[0];
    assert_eq!(environment.runtime, StudioRuntime::RobloxNative);
    assert_eq!(
        environment.roblox_appdata.as_ref().and_then(|path| path.host.as_ref()),
        Some(&local.join("Roblox"))
    );
}

#[test]
fn macos_native_fixture_uses_mac_semantics() {
    let home = home();
    let mut fs = MemoryFileSystem::default();
    fs.directory(&home.join("Applications/RobloxStudio.app"));
    fs.directory(&home.join("Library/Roblox"));
    fs.directory(&home.join("Library/Logs/Roblox"));
    let resolver =
        PlatformResolver::new(context(HostPlatform::MacOS, &home), fs, StaticProcesses::default());
    let inspection = resolver.inspect().expect("inspection");
    let environment = &inspection.environments[0];
    assert_eq!(environment.host_platform, HostPlatform::MacOS);
    assert_eq!(
        environment.path(StudioPathRole::Logs).map(|path| path.availability),
        Some(PathAvailability::Available)
    );
}

#[test]
fn wine_c_and_z_translation_round_trip_and_reject_symlink_escape() {
    let root = HostPath::new("/fixture");
    let home = root.join("home");
    let mut fs = MemoryFileSystem::default();
    let (_, prefix) = native_vinegar_fixture(&mut fs, &home);
    let project = home.join("projects/game");
    fs.directory(&project);
    fs.symlink(&home, &prefix.join("dosdevices/z:"));
    let outside = root.join("outside");
    fs.directory(&outside);
    fs.symlink(&outside, &prefix.join("drive_c/users/escape"));
    let resolver = PlatformResolver::new(
        context(HostPlatform::Linux, &home),
        fs.clone(),
        StaticProcesses::default(),
    );
    let inspection = resolver.inspect().expect("inspection");
    let environment = &inspection.environments[0];
    let translator = WinePathTranslator::new(&fs);
    let guest = WinePath::parse(r"Z:\projects\game").expect("guest path");
    assert_eq!(translator.guest_to_host(&guest, environment), Ok(project.clone()));
    assert_eq!(translator.host_to_guest(&project, environment), Ok(guest));

    let escaping = WinePath::parse(r"C:\users\escape\secret.txt").expect("guest path");
    assert_eq!(translator.guest_to_host(&escaping, environment), Err(PathError::PrefixEscape));
}

#[test]
fn missing_roblox_appdata_preserves_the_expected_host_and_guest_namespaces() {
    let home = home();
    let data = home.join(".local/share/vinegar");
    let mut fs = MemoryFileSystem::default();
    fs.directory(&home.join(".config/vinegar"));
    fs.directory(&data.join("prefixes/studio/drive_c/users/only-user"));
    let resolver =
        PlatformResolver::new(context(HostPlatform::Linux, &home), fs, StaticProcesses::default());
    let inspection = resolver.inspect().expect("inspection");
    let environment = &inspection.environments[0];
    let path = environment.path(StudioPathRole::RobloxAppData);
    assert_eq!(path.map(|value| value.availability), Some(PathAvailability::Missing));
    assert!(path
        .and_then(|value| value.value.as_ref())
        .is_some_and(|value| value.host.is_some() && value.guest.is_some()));
}

#[test]
fn permission_denied_is_distinct_from_missing() {
    let home = home();
    let data = home.join(".local/share/vinegar");
    let mut fs = MemoryFileSystem::default();
    fs.directory(&home.join(".config/vinegar"));
    fs.directory(&data);
    let resolver = PlatformResolver::new(
        context(HostPlatform::Linux, &home),
        DeniedFileSystem { inner: fs, denied: data },
        StaticProcesses::default(),
    );
    let inspection = resolver.inspect().expect("inspection");
    let environment = &inspection.environments[0];
    assert_eq!(
        environment.path(StudioPathRole::Data).map(|path| path.availability),
        Some(PathAvailability::PermissionDenied)
    );
}

#[test]
fn sandbox_denied_is_distinct_from_host_permission_denied() {
    let home = home();
    let data = home.join(".local/share/vinegar");
    let mut fs = MemoryFileSystem::default();
    fs.directory(&home.join(".config/vinegar"));
    fs.directory(&data);
    let mut sandboxed = context(HostPlatform::Linux, &home);
    sandboxed.sandboxed = true;
    let resolver = PlatformResolver::new(
        sandboxed,
        DeniedFileSystem { inner: fs, denied: data },
        StaticProcesses::default(),
    );
    let inspection = resolver.inspect().expect("inspection");
    let environment = &inspection.environments[0];
    assert_eq!(
        environment.path(StudioPathRole::Data).map(|path| path.availability),
        Some(PathAvailability::SandboxDenied)
    );
}

#[test]
fn configured_invalid_override_is_rejected() {
    let home = home();
    let mut fs = MemoryFileSystem::default();
    fs.directory(&home.join(".config/vinegar"));
    let mut configured = context(HostPlatform::Linux, &home);
    configured.overrides.vinegar_data_root = Some(home.join("does-not-exist"));
    let resolver = PlatformResolver::new(configured, fs, StaticProcesses::default());
    assert!(resolver.detect_all().is_err());
}

#[test]
fn invalid_mcp_command_override_is_rejected() {
    let home = home();
    let fs = MemoryFileSystem::default();
    let mut configured = context(HostPlatform::Linux, &home);
    configured.studio_mcp_command = Some(home.join("missing-mcp-command"));
    let resolver = PlatformResolver::new(configured, fs, StaticProcesses::default());
    assert!(resolver.detect_all().is_err());
}

#[test]
fn configured_root_is_marked_configured() {
    let home = home();
    let configured_data = home.join("vinegar-custom");
    let mut fs = MemoryFileSystem::default();
    fs.directory(&configured_data);
    let mut configured = context(HostPlatform::Linux, &home);
    configured.overrides.vinegar_data_root = Some(configured_data.clone());
    let resolver = PlatformResolver::new(configured, fs, StaticProcesses::default());
    let candidates = resolver.detect_all().expect("candidates");
    assert_eq!(candidates[0].origin, ResolutionOrigin::Configured);
    assert_eq!(candidates[0].data_root, Some(configured_data));
    let environment = resolver.resolve(&candidates[0]).expect("environment");
    assert_eq!(
        environment.path(StudioPathRole::Data).map(|path| path.origin),
        Some(ResolutionOrigin::Configured)
    );
    assert_eq!(
        environment.path(StudioPathRole::Config).map(|path| path.origin),
        Some(ResolutionOrigin::Detected)
    );
}

#[test]
fn newest_deployment_wins_when_modification_times_differ() {
    let home = home();
    let mut fs = MemoryFileSystem::default();
    let (data, _) = native_vinegar_fixture(&mut fs, &home);
    fs.file(&data.join("versions/version-b/RobloxStudioBeta.exe"));
    fs.touch(&data.join("versions/version-a"), 10);
    fs.touch(&data.join("versions/version-b"), 20);
    let resolver =
        PlatformResolver::new(context(HostPlatform::Linux, &home), fs, StaticProcesses::default());
    let inspection = resolver.inspect().expect("inspection");
    let deployment = inspection.environments[0].path(StudioPathRole::Deployment).expect("role");
    assert_eq!(deployment.availability, PathAvailability::Available);
    assert_eq!(
        deployment.value.as_ref().and_then(|value| value.host.clone()),
        Some(data.join("versions/version-b"))
    );
}

#[test]
fn unsupported_host_reports_no_environment() {
    let home = home();
    let resolver = PlatformResolver::new(
        context(HostPlatform::Unknown, &home),
        MemoryFileSystem::default(),
        StaticProcesses::default(),
    );
    assert_eq!(resolver.detect_all(), Err(PlatformError::UnsupportedHost));
}

#[test]
fn inspection_of_nothing_resolved_is_not_found() {
    let inspection = lattice::platform::resolver::inspection_from(lattice::platform::model::HostPlatform::Linux, Vec::new());
    assert_eq!(inspection.status, lattice::platform::model::InspectionStatus::NotFound);
    assert_eq!(inspection.selected_environment, None);
    assert_eq!(inspection.diagnostics.len(), 1);
    assert_eq!(inspection.diagnostics[0].code, "STUDIO_ENVIRONMENT_NOT_FOUND");
}

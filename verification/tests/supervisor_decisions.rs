use lattice::platform::host_path::HostPath;
use lattice::platform::model::{
    HostPlatform, ResolvedPath, StudioEnvironment, StudioEnvironmentCapabilities, StudioEnvironmentId,
    StudioMcpLauncher, StudioProcessInfo, StudioRuntime,
};
use lattice::platform::resolver::inspection_from;
use lattice::supervisor::{
    connection_target, launch_check, listing_verdict, ConnectionTargetError, LaunchRefusal, ListingVerdict,
};

fn pair(id: &str, name: &str) -> (String, String) {
    (id.to_owned(), name.to_owned())
}

#[test]
fn sole_studio_keeps_the_connection_and_renames_follow_it() {
    assert_eq!(listing_verdict("s1", "Place", &vec![pair("s1", "Place")]), ListingVerdict::Unchanged);
    assert_eq!(
        listing_verdict("s1", "Place", &vec![pair("s2", "Place")]),
        ListingVerdict::Renamed { id: "s2".to_owned(), name: "Place".to_owned() }
    );
    assert_eq!(
        listing_verdict("s1", "Place", &vec![pair("s1", "Other")]),
        ListingVerdict::Renamed { id: "s1".to_owned(), name: "Other".to_owned() }
    );
    assert_eq!(listing_verdict("s1", "Place", &Vec::new()), ListingVerdict::NoStudio);
    assert_eq!(
        listing_verdict("s1", "Place", &vec![pair("s1", "Place"), pair("s2", "Other")]),
        ListingVerdict::Ambiguous { count: 2 }
    );
}

#[test]
fn no_selected_environment_has_no_connection_target() {
    let inspection = inspection_from(HostPlatform::Linux, Vec::new());
    assert_eq!(connection_target(&inspection), Err(ConnectionTargetError::NoSelection));
}

fn environment(process: Option<u32>, launcher: bool) -> StudioEnvironment {
    StudioEnvironment {
        id: StudioEnvironmentId::from_fingerprint(b"env"),
        resolver_version: 2,
        host_platform: HostPlatform::Linux,
        runtime: StudioRuntime::VinegarNative,
        studio_process: process.map(|pid| StudioProcessInfo {
            pid,
            executable: None,
            parent_pid: None,
            runtime: StudioRuntime::VinegarNative,
            deployment: None,
            start_time_unix_seconds: 1,
        }),
        related_processes: Vec::new(),
        config_root: None,
        data_root: None,
        cache_root: None,
        studio_prefix: None,
        roblox_appdata: None,
        studio_deployment: None,
        logs_root: None,
        profiler_root: None,
        wine_runtime: None,
        mcp_launcher: launcher.then(|| StudioMcpLauncher {
            executable: HostPath::new("/usr/bin/studio-mcp"),
            arguments: Vec::new(),
            environment: Vec::new(),
            target_executable: None,
            experimental: false,
        }),
        wine_drive_mappings: Vec::new(),
        capabilities: StudioEnvironmentCapabilities::default(),
        paths: Vec::new(),
        diagnostics: Vec::new(),
    }
}

#[test]
fn launch_checks_run_in_order() {
    let id = StudioEnvironmentId::from_fingerprint(b"env");
    let other = StudioEnvironmentId::from_fingerprint(b"other");
    assert_eq!(launch_check(&environment(Some(7), true), other, 7, true, true), Err(LaunchRefusal::EnvironmentMismatch));
    assert_eq!(launch_check(&environment(None, true), id, 7, true, true), Err(LaunchRefusal::StudioNotRunning));
    assert_eq!(launch_check(&environment(Some(8), true), id, 7, true, true), Err(LaunchRefusal::ProcessMismatch));
    assert_eq!(launch_check(&environment(Some(7), false), id, 7, true, true), Err(LaunchRefusal::LaunchUnavailable));
    assert_eq!(launch_check(&environment(Some(7), true), id, 7, false, true), Err(LaunchRefusal::LauncherMissing));
    assert_eq!(launch_check(&environment(Some(7), true), id, 7, true, false), Ok(()));
    let mut with_target = environment(Some(7), true);
    if let Some(launcher) = with_target.mcp_launcher.as_mut() {
        launcher.target_executable = Some(ResolvedPath {
            host: Some(HostPath::new("/opt/StudioMCP.exe")),
            guest: None,
        });
    }
    assert_eq!(launch_check(&with_target, id, 7, true, false), Err(LaunchRefusal::TargetMissing));
    assert_eq!(launch_check(&with_target, id, 7, true, true), Ok(()));
}

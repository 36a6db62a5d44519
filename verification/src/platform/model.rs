//! Values that describe hosts, Studio runtimes and resolved paths.
use vstd::prelude::*;
use crate::digest::{blake3_digest, blake3_prefix16};
use crate::hex::{hex_of, push_hex, radix_pair_value, decode_radix_pairs16, nibble_char, any_nibble_value};
use crate::text::{chars_of, starts_with_chars, string_from_chars, is_prefix, push_str};
use super::host_path::HostPath;
use super::wine_path::WinePath;

verus! {

/// Version of the resolution rules; part of every environment fingerprint.
pub const RESOLVER_VERSION: u32 = 2;

#[derive(Clone, Copy, Debug, Eq, Ord, PartialEq, Structural, PartialOrd, Hash)]
pub enum HostPlatform {
    Windows,
    Linux,
    MacOS,
    Unknown,
}

#[derive(Clone, Copy, Debug, Eq, Ord, PartialEq, Structural, PartialOrd, Hash)]
pub enum StudioRuntime {
    RobloxNative,
    VinegarNative,
    VinegarFlatpak,
    Unknown,
}

#[derive(Clone, Copy, Debug, Eq, Ord, PartialEq, Structural, PartialOrd, Hash)]
pub enum PathNamespace {
    Host,
    WineGuest,
    StudioGuest,
}

/// A path known on the host, in the Wine guest, or both.
#[derive(Clone, Debug, Eq, PartialEq)]
pub struct ResolvedPath {
    pub host: Option<HostPath>,
    pub guest: Option<WinePath>,
}

#[derive(Clone, Copy, Debug, Eq, Ord, PartialEq, Structural, PartialOrd, Hash)]
pub enum StudioPathRole {
    Config,
    Data,
    Cache,
    Prefix,
    RobloxAppData,
    Deployment,
    Logs,
    Profiler,
    CrashData,
    TemporaryExports,
    McpServer,
}

#[derive(Clone, Copy, Debug, Eq, PartialEq, Structural, Hash)]
pub enum PathAvailability {
    Available,
    Missing,
    PermissionDenied,
    SandboxDenied,
    Unavailable,
    Ambiguous,
}

#[derive(Clone, Copy, Debug, Eq, PartialEq, Structural, Hash)]
pub enum ResolutionOrigin {
    Detected,
    Configured,
}

/// What is known of one semantic Studio path.
#[derive(Clone, Debug, Eq, PartialEq)]
pub struct PathResolution {
    pub role: StudioPathRole,
    pub availability: PathAvailability,
    pub value: Option<ResolvedPath>,
    pub origin: ResolutionOrigin,
    pub detail: Option<String>,
}

impl PathResolution {
    /// A path that is unavailable for the given reason.
    pub fn unavailable(role: StudioPathRole, detail: &str) -> (r: PathResolution)
        ensures
            r.role == role,
            r.availability == PathAvailability::Unavailable,
            r.value is None,
            r.origin == ResolutionOrigin::Detected,
            r.detail matches Some(d) && d@ == detail@,
    {
        PathResolution {
            role,
            availability: PathAvailability::Unavailable,
            value: None,
            origin: ResolutionOrigin::Detected,
            detail: Some(string_from_chars(chars_of(detail).as_slice())),
        }
    }
}

#[derive(Clone, Copy, Debug, Default, Eq, PartialEq)]
pub struct StudioEnvironmentCapabilities {
    pub host_filesystem_access: bool,
    pub wine_path_translation: bool,
    pub process_telemetry: bool,
    pub studio_logs: bool,
    pub profiler_files: bool,
    pub crash_data: bool,
    pub studio_mcp_launch: bool,
}

/// Stable identity of a Studio environment: 16 bytes of a BLAKE3 digest.
#[derive(Clone, Copy, Debug, Eq, Hash, Ord, PartialEq, PartialOrd)]
pub struct StudioEnvironmentId(pub [u8; 16]);

/// Stable identity of a Studio deployment: 16 bytes of a BLAKE3 digest.
#[derive(Clone, Copy, Debug, Eq, Hash, Ord, PartialEq, PartialOrd)]
pub struct StudioDeploymentId(pub [u8; 16]);

pub open spec fn env_prefix() -> Seq<char> {
    seq!['e', 'n', 'v', '_']
}

pub open spec fn deployment_prefix() -> Seq<char> {
    seq!['d', 'e', 'p', 'l', 'o', 'y', 'm', 'e', 'n', 't', '_']
}

/// The result of reading `s` as `prefix` followed by 16 hex pairs.
pub open spec fn decoded_id(s: Seq<char>, prefix: Seq<char>) -> Option<Seq<u8>> {
    let rest = s.subrange(prefix.len() as int, s.len() as int);
    if is_prefix(prefix, s) && rest.len() == 32
        && forall|k: int| 0 <= k < 16 ==> #[trigger] radix_pair_value(rest[2 * k], rest[2 * k + 1]) is Some {
        Some(Seq::new(16, |k: int| radix_pair_value(rest[2 * k], rest[2 * k + 1])->0))
    } else {
        None
    }
}

/// Reads `prefix` followed by 32 hexadecimal digits (pairs read as
/// `u8::from_str_radix` reads them).
fn decode_id(value: &str, prefix: &str) -> (r: Option<[u8; 16]>)
    ensures
        match decoded_id(value@, prefix@) {
            Some(b) => r matches Some(x) && x@ == b,
            None => r is None,
        },
{
    let s = chars_of(value);
    let p = chars_of(prefix);
    if !starts_with_chars(s.as_slice(), p.as_slice()) {
        return None;
    }
    let mut rest: Vec<char> = Vec::new();
    let mut i: usize = p.len();
    while i < s.len()
        invariant
            p@.len() <= i <= s@.len(),
            rest@ =~= s@.subrange(p@.len() as int, i as int),
        decreases s@.len() - i,
    {
        rest.push(s[i]);
        i = i + 1;
    }
    let decoded = decode_radix_pairs16(rest.as_slice());
    match decoded {
        Some(b) => {
            proof {
                assert(b@ =~= decoded_id(value@, prefix@)->0);
            }
            Some(b)
        },
        None => None,
    }
}

pub proof fn lemma_radix_reads_hex(b: u8)
    ensures
        radix_pair_value(nibble_char(b / 16), nibble_char(b % 16)) == Some(b),
{
    assert(any_nibble_value(nibble_char(b / 16)) == Some((b / 16) as u8));
    assert(any_nibble_value(nibble_char(b % 16)) == Some((b % 16) as u8));
    assert(nibble_char(b / 16) != '+');
}

/// Decoding `prefix` + hex of 16 bytes gives the bytes back.
pub proof fn lemma_decode_id_of_text(bytes: Seq<u8>, prefix: Seq<char>)
    requires
        bytes.len() == 16,
    ensures
        decoded_id(prefix + hex_of(bytes), prefix) == Some(bytes),
{
    let s = prefix + hex_of(bytes);
    let rest = s.subrange(prefix.len() as int, s.len() as int);
    assert(rest =~= hex_of(bytes));
    assert(is_prefix(prefix, s)) by { assert(s.subrange(0, prefix.len() as int) =~= prefix); }
    assert forall|k: int| 0 <= k < 16 implies #[trigger] radix_pair_value(rest[2 * k], rest[2 * k + 1]) == Some(bytes[k]) by {
        assert(rest[2 * k] == nibble_char(bytes[k] / 16));
        assert(rest[2 * k + 1] == nibble_char(bytes[k] % 16));
        lemma_radix_reads_hex(bytes[k]);
    }
    assert(Seq::new(16, |k: int| radix_pair_value(rest[2 * k], rest[2 * k + 1])->0) =~= bytes);
}

impl StudioEnvironmentId {
    /// Identity of two identifiers.
    pub fn same(&self, other: &StudioEnvironmentId) -> (r: bool)
        ensures
            r == (self.0@ == other.0@),
    {
        let mut i: usize = 0;
        while i < 16
            invariant
                i <= 16,
                forall|k: int| 0 <= k < i ==> self.0@[k] == other.0@[k],
            decreases 16 - i,
        {
            if self.0[i] != other.0[i] {
                return false;
            }
            i = i + 1;
        }
        proof { assert(self.0@ =~= other.0@); }
        true
    }

    /// The identity derived from a fingerprint text.
    pub fn from_fingerprint(fingerprint: &[u8]) -> (r: StudioEnvironmentId)
        ensures
            r.0@ == blake3_digest(fingerprint@).subrange(0, 16),
    {
        StudioEnvironmentId(blake3_prefix16(fingerprint))
    }

    /// `env_` followed by 32 lower-case hex digits.
    pub fn to_text(&self) -> (r: String)
        ensures
            r@ == env_prefix() + hex_of(self.0@),
    {
        let mut out: Vec<char> = Vec::new();
        push_str(&mut out, "env_");
        proof { reveal_strlit("env_"); assert("env_"@ =~= env_prefix()); }
        push_hex(&mut out, &self.0);
        string_from_chars(out.as_slice())
    }

    /// Reads the text form written by `to_text`.
    pub fn parse(value: &str) -> (r: Option<StudioEnvironmentId>)
        ensures
            match decoded_id(value@, env_prefix()) {
                Some(b) => r matches Some(x) && x.0@ == b,
                None => r is None,
            },
    {
        proof { reveal_strlit("env_"); assert("env_"@ =~= env_prefix()); }
        match decode_id(value, "env_") {
            Some(b) => Some(StudioEnvironmentId(b)),
            None => None,
        }
    }
}

impl StudioDeploymentId {
    /// The identity derived from a fingerprint text.
    pub fn from_fingerprint(fingerprint: &[u8]) -> (r: StudioDeploymentId)
        ensures
            r.0@ == blake3_digest(fingerprint@).subrange(0, 16),
    {
        StudioDeploymentId(blake3_prefix16(fingerprint))
    }

    /// `deployment_` followed by 32 lower-case hex digits.
    pub fn to_text(&self) -> (r: String)
        ensures
            r@ == deployment_prefix() + hex_of(self.0@),
    {
        let mut out: Vec<char> = Vec::new();
        push_str(&mut out, "deployment_");
        proof { reveal_strlit("deployment_"); assert("deployment_"@ =~= deployment_prefix()); }
        push_hex(&mut out, &self.0);
        string_from_chars(out.as_slice())
    }

    /// Reads the text form written by `to_text`.
    pub fn parse(value: &str) -> (r: Option<StudioDeploymentId>)
        ensures
            match decoded_id(value@, deployment_prefix()) {
                Some(b) => r matches Some(x) && x.0@ == b,
                None => r is None,
            },
    {
        proof { reveal_strlit("deployment_"); assert("deployment_"@ =~= deployment_prefix()); }
        match decode_id(value, "deployment_") {
            Some(b) => Some(StudioDeploymentId(b)),
            None => None,
        }
    }
}

/// Environment identifiers survive their text form: parsing the text of an
/// identifier gives the same identifier.
pub proof fn law_environment_id_text_round_trip(id: StudioEnvironmentId)
    ensures
        decoded_id(env_prefix() + hex_of(id.0@), env_prefix()) == Some(id.0@),
{
    lemma_decode_id_of_text(id.0@, env_prefix());
}

/// Deployment identifiers survive their text form.
pub proof fn law_deployment_id_text_round_trip(id: StudioDeploymentId)
    ensures
        decoded_id(deployment_prefix() + hex_of(id.0@), deployment_prefix()) == Some(id.0@),
{
    lemma_decode_id_of_text(id.0@, deployment_prefix());
}

/// Why a path could not be read or translated.
#[derive(Clone, Debug, Eq, PartialEq)]
pub enum PathError {
    MalformedWinePath(String),
    UnsupportedUnc,
    Traversal,
    DriveNotMapped(char),
    PrefixEscape,
    HostPathNotMapped,
}

/// Why resolution failed.
#[derive(Clone, Debug, Eq, PartialEq)]
pub enum PlatformError {
    UnsupportedHost,
    InvalidOverride { name: String, reason: String },
    ForeignCandidate,
    Path(PathError),
}

} // verus!

verus! {

#[derive(Clone, Debug, Eq, PartialEq)]
pub struct StudioDeployment {
    pub id: StudioDeploymentId,
    pub path: HostPath,
    pub build_identifier: Option<String>,
    pub runtime: StudioRuntime,
}

#[derive(Clone, Debug, Eq, PartialEq)]
pub struct StudioProcessInfo {
    pub pid: u32,
    pub executable: Option<HostPath>,
    pub parent_pid: Option<u32>,
    pub runtime: StudioRuntime,
    pub deployment: Option<StudioDeploymentId>,
    pub start_time_unix_seconds: u64,
}

#[derive(Clone, Debug, Eq, PartialEq)]
pub struct WineRuntime {
    pub executable: HostPath,
    pub root: HostPath,
    pub source_process_id: Option<u32>,
}

/// How to start the Studio MCP server: executable, arguments, and extra
/// environment variables as (name, value) pairs.
#[derive(Clone, Debug, Eq, PartialEq)]
pub struct StudioMcpLauncher {
    pub executable: HostPath,
    pub arguments: Vec<String>,
    pub environment: Vec<(String, String)>,
    pub target_executable: Option<ResolvedPath>,
    pub experimental: bool,
}

#[derive(Clone, Debug, Eq, PartialEq)]
pub struct ResolutionDiagnostic {
    pub code: String,
    pub message: String,
}

#[derive(Clone, Debug, Eq, PartialEq)]
pub struct StudioEnvironmentCandidate {
    pub id: StudioEnvironmentId,
    pub host_platform: HostPlatform,
    pub runtime: StudioRuntime,
    pub config_root: Option<HostPath>,
    pub data_root: Option<HostPath>,
    pub cache_root: Option<HostPath>,
    pub process_hint: Option<u32>,
    pub process_start_time_unix_seconds: Option<u64>,
    pub origin: ResolutionOrigin,
    pub diagnostics: Vec<ResolutionDiagnostic>,
}

/// A resolved Studio environment. Drive mappings are (drive letter, host
/// root) pairs in drive order; `paths` holds one resolution per role.
#[derive(Clone, Debug, Eq, PartialEq)]
pub struct StudioEnvironment {
    pub id: StudioEnvironmentId,
    pub resolver_version: u32,
    pub host_platform: HostPlatform,
    pub runtime: StudioRuntime,
    pub studio_process: Option<StudioProcessInfo>,
    pub related_processes: Vec<StudioProcessInfo>,
    pub config_root: Option<HostPath>,
    pub data_root: Option<HostPath>,
    pub cache_root: Option<HostPath>,
    pub studio_prefix: Option<HostPath>,
    pub roblox_appdata: Option<ResolvedPath>,
    pub studio_deployment: Option<StudioDeployment>,
    pub logs_root: Option<ResolvedPath>,
    pub profiler_root: Option<ResolvedPath>,
    pub wine_runtime: Option<WineRuntime>,
    pub mcp_launcher: Option<StudioMcpLauncher>,
    pub wine_drive_mappings: Vec<(char, HostPath)>,
    pub capabilities: StudioEnvironmentCapabilities,
    pub paths: Vec<PathResolution>,
    pub diagnostics: Vec<ResolutionDiagnostic>,
}

/// The first resolution for `role` in `paths`.
pub open spec fn path_for_role(paths: Seq<PathResolution>, role: StudioPathRole) -> Option<PathResolution>
    decreases paths.len(),
{
    if paths.len() == 0 {
        None
    } else if paths[0].role == role {
        Some(paths[0])
    } else {
        path_for_role(paths.drop_first(), role)
    }
}

/// The personal-path-free identity of an environment.
#[derive(Clone, Debug, Eq, PartialEq)]
pub struct StudioEnvironmentFingerprint {
    pub resolver_version: u32,
    pub host_platform: HostPlatform,
    pub runtime: StudioRuntime,
    pub environment_id: StudioEnvironmentId,
    pub deployment_id: Option<StudioDeploymentId>,
    pub deployment_build: Option<String>,
    pub process_id: Option<u32>,
    pub process_start_time_unix_seconds: Option<u64>,
}

impl StudioEnvironment {
    /// The resolution recorded for `role`.
    pub fn path(&self, role: StudioPathRole) -> (r: Option<&PathResolution>)
        ensures
            match path_for_role(self.paths@, role) {
                Some(p) => r matches Some(q) && *q == p,
                None => r is None,
            },
    {
        let mut i: usize = 0;
        proof { assert(self.paths@.subrange(0, self.paths@.len() as int) =~= self.paths@); }
        while i < self.paths.len()
            invariant
                i <= self.paths@.len(),
                path_for_role(self.paths@, role) == path_for_role(self.paths@.subrange(i as int, self.paths@.len() as int), role),
            decreases self.paths@.len() - i,
        {
            let ghost rest = self.paths@.subrange(i as int, self.paths@.len() as int);
            proof { assert(rest.drop_first() =~= self.paths@.subrange(i + 1, self.paths@.len() as int)); }
            if self.paths[i].role == role {
                return Some(&self.paths[i]);
            }
            i = i + 1;
        }
        None
    }

    /// The environment identity without personal paths, for trace manifests.
    pub fn fingerprint(&self) -> (r: StudioEnvironmentFingerprint)
        ensures
            r.resolver_version == self.resolver_version,
            r.host_platform == self.host_platform,
            r.runtime == self.runtime,
            r.environment_id == self.id,
            r.deployment_id == (match self.studio_deployment { Some(d) => Some(d.id), None => None }),
            match self.studio_deployment {
                Some(d) => match d.build_identifier {
                    Some(b) => r.deployment_build matches Some(x) && x@ == b@,
                    None => r.deployment_build is None,
                },
                None => r.deployment_build is None,
            },
            r.process_id == (match self.studio_process { Some(p) => Some(p.pid), None => None }),
            r.process_start_time_unix_seconds == (match self.studio_process { Some(p) => Some(p.start_time_unix_seconds), None => None }),
    {
        let deployment_id = match &self.studio_deployment {
            Some(d) => Some(d.id),
            None => None,
        };
        let deployment_build = match &self.studio_deployment {
            Some(d) => match &d.build_identifier {
                Some(b) => Some(b.clone()),
                None => None,
            },
            None => None,
        };
        let process_id = match &self.studio_process {
            Some(p) => Some(p.pid),
            None => None,
        };
        let process_start = match &self.studio_process {
            Some(p) => Some(p.start_time_unix_seconds),
            None => None,
        };
        StudioEnvironmentFingerprint {
            resolver_version: self.resolver_version,
            host_platform: self.host_platform,
            runtime: self.runtime,
            environment_id: self.id,
            deployment_id,
            deployment_build,
            process_id,
            process_start_time_unix_seconds: process_start,
        }
    }
}

#[derive(Clone, Copy, Debug, Eq, PartialEq, Structural, Hash)]
pub enum InspectionStatus {
    Resolved,
    NotFound,
    Ambiguous,
    Unavailable,
}

#[derive(Clone, Debug, Eq, PartialEq)]
pub struct PlatformInspection {
    pub host_platform: HostPlatform,
    pub status: InspectionStatus,
    pub selected_environment: Option<StudioEnvironmentId>,
    pub environments: Vec<StudioEnvironment>,
    pub diagnostics: Vec<ResolutionDiagnostic>,
}

/// Paths a user configured in place of detection.
#[derive(Clone, Debug, Default, Eq, PartialEq)]
pub struct ResolverOverrides {
    pub vinegar_data_root: Option<HostPath>,
    pub studio_prefix: Option<HostPath>,
    pub studio_deployment: Option<HostPath>,
    pub roblox_appdata: Option<HostPath>,
}

} // verus!

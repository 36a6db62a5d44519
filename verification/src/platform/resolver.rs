//! Detection and resolution of Roblox Studio environments on the host.
use vstd::prelude::*;
use vstd::utf8::encode_utf8;
use vstd::multiset::Multiset;
use crate::digest::blake3_digest;
use crate::text::{chars_of, decimal, push_all, push_decimal, push_str, starts_with_chars, string_from_chars};
use super::evidence::{available_host, available_resolved, diagnostic, is_studio_process, is_wine_shared_user, mentions_path_spec, process_mentions_path, process_mentions_resolved_path, same_resolved, studio_process_spec};
use super::filesystem::{FileSystemEntry, FileSystemError, PlatformFileSystem};
use super::host_path::{HostPath, HostPathView, host_path_text, join_view, parse_host_path};
use super::model::{InspectionStatus, PlatformInspection, StudioEnvironmentCapabilities, StudioProcessInfo, ResolutionDiagnostic, StudioMcpLauncher, WineRuntime, StudioDeployment, HostPlatform, PathAvailability, PathResolution, PlatformError, RESOLVER_VERSION, ResolutionOrigin,
    ResolvedPath, ResolverOverrides, StudioEnvironment, StudioEnvironmentCandidate, StudioEnvironmentId, StudioPathRole, StudioRuntime};
use super::process::{ProcessSnapshot, ProcessSource, env_lookup};
use super::selection::{inspection_outcome, inspection_outcome_spec, DeploymentSelection, access_error_availability, classify_known_path, count_and_first, count_true, first_true, select_wine_user, wine_user_choice, drive_letter_of, lemma_count_first_pub, override_verdict, select_deployment_from};
use super::assembly::{drive_keys_sorted, insert_mapping, make_deployment, parent_pairs, process_info, related_procs, related_processes, wine_layout_spec, wine_runtime_layout};
use super::translation::guest_for_host;
use super::wine_path::WinePath;

verus! {

/// What the resolver knows of the host before it looks at any file.
#[derive(Clone, Debug, Eq, PartialEq)]
pub struct PlatformContext {
    pub host_platform: HostPlatform,
    pub home_dir: Option<HostPath>,
    pub config_dir: Option<HostPath>,
    pub data_local_dir: Option<HostPath>,
    pub cache_dir: Option<HostPath>,
    pub sandboxed: bool,
    pub studio_mcp_command: Option<HostPath>,
    pub overrides: ResolverOverrides,
}

/// Finds Studio environments and resolves each into its semantic paths.
pub trait StudioEnvironmentResolver {
    fn detect_all(&self) -> Result<Vec<StudioEnvironmentCandidate>, PlatformError>;

    fn resolve(&self, candidate: &StudioEnvironmentCandidate) -> Result<StudioEnvironment, PlatformError>;
}

/// The resolver over a file system `F` and a process source `P`.
pub struct PlatformResolver<F, P> {
    context: PlatformContext,
    filesystem: F,
    process_source: P,
}

/// The roots one runtime would use.
pub struct CandidateRoots {
    pub runtime: StudioRuntime,
    pub config: HostPath,
    pub data: HostPath,
    pub cache: HostPath,
    pub origin: ResolutionOrigin,
}

/// The name `Debug` writes for a runtime.
pub open spec fn runtime_debug_name(runtime: StudioRuntime) -> Seq<char> {
    match runtime {
        StudioRuntime::RobloxNative => "RobloxNative"@,
        StudioRuntime::VinegarNative => "VinegarNative"@,
        StudioRuntime::VinegarFlatpak => "VinegarFlatpak"@,
        StudioRuntime::Unknown => "Unknown"@,
    }
}

pub fn push_runtime_name(out: &mut Vec<char>, runtime: StudioRuntime)
    ensures
        final(out)@ == old(out)@ + runtime_debug_name(runtime),
{
    match runtime {
        StudioRuntime::RobloxNative => push_str(out, "RobloxNative"),
        StudioRuntime::VinegarNative => push_str(out, "VinegarNative"),
        StudioRuntime::VinegarFlatpak => push_str(out, "VinegarFlatpak"),
        StudioRuntime::Unknown => push_str(out, "Unknown"),
    }
}

/// The text an environment identity is derived from:
/// `version:runtime:data-root:pid:start-time`, with zeros when no process.
pub open spec fn candidate_fingerprint(runtime: StudioRuntime, data: HostPathView, pid: u32, start: u64) -> Seq<char> {
    decimal(RESOLVER_VERSION as nat) + ":"@ + runtime_debug_name(runtime) + ":"@ + host_path_text(data)
        + ":"@ + decimal(pid as nat) + ":"@ + decimal(start as nat)
}

pub open spec fn candidate_code(runtime: StudioRuntime) -> Seq<char> {
    match runtime {
        StudioRuntime::VinegarFlatpak => "VINEGAR_FLATPAK_ROOT_DETECTED"@,
        StudioRuntime::VinegarNative => "VINEGAR_XDG_ROOT_DETECTED"@,
        StudioRuntime::RobloxNative => "NATIVE_STUDIO_ROOT_DETECTED"@,
        StudioRuntime::Unknown => "STUDIO_ROOT_DETECTED"@,
    }
}

/// The Wine prefix a process of these roots would run in.
pub open spec fn expected_prefix(overrides: ResolverOverrides, data: HostPathView) -> HostPathView {
    match overrides.studio_prefix {
        Some(p) => p@,
        None => join_view(data, "prefixes/studio"@),
    }
}

/// A Studio process belongs to these roots by its prefix, its paths, or
/// (for the Flatpak runtime) its Flatpak identity.
pub open spec fn process_matches_roots_spec(p: ProcessSnapshot, overrides: ResolverOverrides, runtime: StudioRuntime, data: HostPathView) -> bool {
    let prefix = expected_prefix(overrides, data);
    studio_process_spec(p) && (
        (env_lookup(p.environment@, "WINEPREFIX"@) matches Some(v) && parse_host_path(v) == prefix)
        || mentions_path_spec(p, prefix)
        || mentions_path_spec(p, data)
        || (runtime == StudioRuntime::VinegarFlatpak && env_lookup(p.environment@, "FLATPAK_ID"@) == Some("org.vinegarhq.Vinegar"@))
    )
}

/// The (pid, start time) of the processes that satisfy `f`, in order.
pub open spec fn procs_where(ps: Seq<ProcessSnapshot>, f: spec_fn(ProcessSnapshot) -> bool) -> Seq<(u32, u64)>
    decreases ps.len(),
{
    if ps.len() == 0 {
        Seq::empty()
    } else if f(ps.last()) {
        procs_where(ps.drop_last(), f).push((ps.last().pid, ps.last().start_time_unix_seconds))
    } else {
        procs_where(ps.drop_last(), f)
    }
}

proof fn lemma_procs_where_step(ps: Seq<ProcessSnapshot>, f: spec_fn(ProcessSnapshot) -> bool, i: int)
    requires
        0 <= i < ps.len(),
    ensures
        procs_where(ps.subrange(0, i + 1), f) == if f(ps[i]) {
            procs_where(ps.subrange(0, i), f).push((ps[i].pid, ps[i].start_time_unix_seconds))
        } else {
            procs_where(ps.subrange(0, i), f)
        },
{
    assert(ps.subrange(0, i + 1).drop_last() =~= ps.subrange(0, i));
    assert(ps.subrange(0, i + 1).last() == ps[i]);
}

/// A candidate built from `roots` for `process` (if any), as the resolver
/// builds it.
pub open spec fn candidate_from(c: StudioEnvironmentCandidate, platform: HostPlatform, runtime: StudioRuntime,
    config: HostPathView, data: HostPathView, cache: HostPathView, origin: ResolutionOrigin, process: Option<(u32, u64)>) -> bool
{
    &&& c.id.0@ == blake3_digest(encode_utf8(candidate_fingerprint(runtime, data,
            match process { Some(p) => p.0, None => 0 }, match process { Some(p) => p.1, None => 0 }))).subrange(0, 16)
    &&& c.host_platform == platform
    &&& c.runtime == runtime
    &&& c.config_root matches Some(x) && x@ == config
    &&& c.data_root matches Some(x) && x@ == data
    &&& c.cache_root matches Some(x) && x@ == cache
    &&& c.process_hint == match process { Some(p) => Some(p.0), None => None }
    &&& c.process_start_time_unix_seconds == match process { Some(p) => Some(p.1), None => None }
    &&& c.origin == origin
    &&& c.diagnostics@.len() == 1
    &&& c.diagnostics@[0].code@ == candidate_code(runtime)
    &&& c.diagnostics@[0].message@ == "candidate data root: "@ + host_path_text(data)
}

/// `v` holds the candidates of one set of roots: one per matched process,
/// or at most one without a process when none matched.
pub open spec fn roots_candidates(v: Seq<StudioEnvironmentCandidate>, platform: HostPlatform, runtime: StudioRuntime,
    config: HostPathView, data: HostPathView, cache: HostPathView, origin: ResolutionOrigin, matched: Seq<(u32, u64)>) -> bool
{
    &&& matched.len() > 0 ==> v.len() == matched.len()
        && forall|i: int| 0 <= i < v.len() ==> candidate_from(#[trigger] v[i], platform, runtime, config, data, cache, origin, Some(matched[i]))
    &&& matched.len() == 0 ==> v.len() <= 1
        && forall|i: int| 0 <= i < v.len() ==> candidate_from(#[trigger] v[i], platform, runtime, config, data, cache, origin, None)
}

/// The Studio processes, as (pid, start time).
pub open spec fn studio_procs(ps: Seq<ProcessSnapshot>) -> Seq<(u32, u64)> {
    procs_where(ps, |p: ProcessSnapshot| studio_process_spec(p))
}

/// The processes that belong to the roots with this runtime and data root.
pub open spec fn matched_procs(ps: Seq<ProcessSnapshot>, overrides: ResolverOverrides, runtime: StudioRuntime, data: HostPathView) -> Seq<(u32, u64)> {
    procs_where(ps, |p: ProcessSnapshot| process_matches_roots_spec(p, overrides, runtime, data))
}

/// The Flatpak installation's per-app root under the home directory.
pub open spec fn flatpak_root(home: HostPathView) -> HostPathView {
    join_view(home, ".var/app/org.vinegarhq.Vinegar"@)
}

pub open spec fn has_native_override(o: ResolverOverrides) -> bool {
    o.vinegar_data_root is Some || o.studio_prefix is Some || o.studio_deployment is Some || o.roblox_appdata is Some
}

/// The candidates of a Linux detection: first those of the Flatpak roots,
/// then those of the native roots (configured or XDG), with a native
/// candidate whenever a native override is configured.
pub open spec fn linux_detection(v: Seq<StudioEnvironmentCandidate>, c: PlatformContext, processes: Seq<ProcessSnapshot>) -> bool {
    let froot = flatpak_root(c.home_dir->0@);
    let data = match c.overrides.vinegar_data_root { Some(d) => d@, None => join_view(c.data_local_dir->0@, "vinegar"@) };
    let origin = if c.overrides.vinegar_data_root is Some { ResolutionOrigin::Configured } else { ResolutionOrigin::Detected };
    let fdata = join_view(froot, "data/vinegar"@);
    exists|n: int| 0 <= n <= v.len()
        && roots_candidates(v.subrange(0, n), c.host_platform, StudioRuntime::VinegarFlatpak,
            join_view(froot, "config/vinegar"@), fdata, join_view(froot, "cache/vinegar"@), ResolutionOrigin::Detected,
            matched_procs(processes, c.overrides, StudioRuntime::VinegarFlatpak, fdata))
        && roots_candidates(v.subrange(n, v.len() as int), c.host_platform, StudioRuntime::VinegarNative,
            join_view(c.config_dir->0@, "vinegar"@), data, join_view(c.cache_dir->0@, "vinegar"@), origin,
            matched_procs(processes, c.overrides, StudioRuntime::VinegarNative, data))
        && (has_native_override(c.overrides) ==> n < v.len())
}

fn same_path(a: &HostPath, b: &HostPath) -> (r: bool)
    ensures
        r == (a@ == b@),
{
    a.same_as(b)
}

impl<F: PlatformFileSystem, P: ProcessSource> PlatformResolver<F, P> {
    /// The context the resolver was made with.
    pub closed spec fn settings(&self) -> PlatformContext {
        self.context
    }

    pub fn new(context: PlatformContext, filesystem: F, process_source: P) -> (r: Self)
        ensures
            r.settings() == context,
    {
        PlatformResolver { context, filesystem, process_source }
    }

    pub fn context(&self) -> (r: &PlatformContext)
        ensures
            *r == self.settings(),
    {
        &self.context
    }

    /// Whether the path is an existing directory: what `answer_has_kind`
    /// makes of the file system's answer.
    fn is_detected(&self, path: &HostPath) -> bool {
        let answer = self.filesystem.inspect(path);
        answer_has_kind(&answer, true)
    }

    /// Whether the path is an existing file: what `answer_has_kind` makes
    /// of the file system's answer.
    fn is_file(&self, path: &HostPath) -> bool {
        let answer = self.filesystem.inspect(path);
        answer_has_kind(&answer, false)
    }

    fn any_detected(&self, paths: &Vec<HostPath>) -> (r: bool)
        ensures
            paths@.len() == 0 ==> !r,
    {
        let mut i: usize = 0;
        while i < paths.len()
            invariant
                i <= paths@.len(),
            decreases paths@.len() - i,
        {
            if self.is_detected(&paths[i]) {
                return true;
            }
            i = i + 1;
        }
        false
    }

    /// The first of `paths` that is a directory, or else the first path.
    fn first_detected(&self, paths: Vec<HostPath>) -> (r: Option<HostPath>)
        ensures
            r is None <==> paths@.len() == 0,
            r matches Some(p) ==> exists|k: int| 0 <= k < paths@.len() && p@ == #[trigger] paths@[k]@,
    {
        if paths.len() == 0 {
            return None;
        }
        let mut i: usize = 0;
        while i < paths.len()
            invariant
                i <= paths@.len(),
                paths@.len() > 0,
            decreases paths@.len() - i,
        {
            if self.is_detected(&paths[i]) {
                return Some(paths[i].clone());
            }
            i = i + 1;
        }
        Some(paths[0].clone())
    }

    /// What is known of a semantic path: unavailable when no path is known,
    /// else its value with the availability that inspecting it gives.
    fn resolve_known_path(&self, role: StudioPathRole, host: Option<HostPath>, origin: ResolutionOrigin, guest: Option<WinePath>) -> (r: PathResolution)
        ensures
            r.role == role,
            host is None ==> r.availability == PathAvailability::Unavailable && r.value is None
                && r.origin == ResolutionOrigin::Detected && (r.detail matches Some(d) && d@ == "no path is known for this runtime"@),
            host matches Some(h) ==> r.origin == origin && r.value == Some(ResolvedPath { host: Some(h), guest })
                && (r.availability == PathAvailability::Available <==> r.detail is None)
                && r.availability != PathAvailability::Ambiguous,
    {
        match host {
            None => PathResolution::unavailable(role, "no path is known for this runtime"),
            Some(h) => {
                let answer = self.filesystem.inspect(&h);
                classify_known_path(role, h, origin, guest, answer, self.context.sandboxed)
            },
        }
    }

    /// A configured directory must exist as a directory.
    fn validate_override(&self, name: &str, path: &HostPath) -> (r: Result<(), PlatformError>)
        ensures
            r is Ok || (r matches Err(PlatformError::InvalidOverride { name: n, reason: _ }) && n@ == name@),
    {
        let answer = self.filesystem.inspect(path);
        override_verdict(name, path, &answer, false)
    }

    /// A configured command must exist as a file.
    fn validate_file_override(&self, name: &str, path: &HostPath) -> (r: Result<(), PlatformError>)
        ensures
            r is Ok || (r matches Err(PlatformError::InvalidOverride { name: n, reason: _ }) && n@ == name@),
    {
        let answer = self.filesystem.inspect(path);
        override_verdict(name, path, &answer, true)
    }

    /// The candidate for `roots` and, if any, the Studio process behind it.
    fn make_candidate(&self, roots: &CandidateRoots, process: Option<&ProcessSnapshot>) -> (r: StudioEnvironmentCandidate)
        ensures
            candidate_from(r, self.settings().host_platform, roots.runtime, roots.config@, roots.data@, roots.cache@, roots.origin,
                match process { Some(p) => Some((p.pid, p.start_time_unix_seconds)), None => None }),
    {
        let (pid, start): (u32, u64) = match process {
            Some(p) => (p.pid, p.start_time_unix_seconds),
            None => (0, 0),
        };
        let data_text = roots.data.text_chars();
        let mut fp: Vec<char> = Vec::new();
        push_decimal(&mut fp, RESOLVER_VERSION as u64);
        push_str(&mut fp, ":");
        push_runtime_name(&mut fp, roots.runtime);
        push_str(&mut fp, ":");
        push_all(&mut fp, data_text.as_slice());
        push_str(&mut fp, ":");
        push_decimal(&mut fp, pid as u64);
        push_str(&mut fp, ":");
        push_decimal(&mut fp, start);
        let fp_text = string_from_chars(fp.as_slice());
        proof {
            assert(fp@ =~= candidate_fingerprint(roots.runtime, roots.data@, pid, start));
        }
        let id = StudioEnvironmentId::from_fingerprint(fp_text.as_str().as_bytes());
        let code = match roots.runtime {
            StudioRuntime::VinegarFlatpak => "VINEGAR_FLATPAK_ROOT_DETECTED",
            StudioRuntime::VinegarNative => "VINEGAR_XDG_ROOT_DETECTED",
            StudioRuntime::RobloxNative => "NATIVE_STUDIO_ROOT_DETECTED",
            StudioRuntime::Unknown => "STUDIO_ROOT_DETECTED",
        };
        let mut message: Vec<char> = Vec::new();
        push_str(&mut message, "candidate data root: ");
        push_all(&mut message, data_text.as_slice());
        let message_text = string_from_chars(message.as_slice());
        let mut diagnostics: Vec<super::model::ResolutionDiagnostic> = Vec::new();
        diagnostics.push(diagnostic(code, message_text.as_str()));
        StudioEnvironmentCandidate {
            id,
            host_platform: self.context.host_platform,
            runtime: roots.runtime,
            config_root: Some(roots.config.clone()),
            data_root: Some(roots.data.clone()),
            cache_root: Some(roots.cache.clone()),
            process_hint: match process { Some(p) => Some(p.pid), None => None },
            process_start_time_unix_seconds: match process { Some(p) => Some(p.start_time_unix_seconds), None => None },
            origin: roots.origin,
            diagnostics,
        }
    }


    /// The candidates of native roots: one per Studio process, or one
    /// without a process when the roots exist but no Studio process runs.
    fn native_candidates(&self, roots: &CandidateRoots, processes: &Vec<ProcessSnapshot>) -> (r: Vec<StudioEnvironmentCandidate>)
        ensures
            roots_candidates(r@, self.settings().host_platform, roots.runtime, roots.config@, roots.data@, roots.cache@, roots.origin,
                studio_procs(processes@)),
    {
        let ghost f = |p: ProcessSnapshot| studio_process_spec(p);
        let mut out: Vec<StudioEnvironmentCandidate> = Vec::new();
        let mut i: usize = 0;
        while i < processes.len()
            invariant
                i <= processes@.len(),
                f == (|p: ProcessSnapshot| studio_process_spec(p)),
                out@.len() == procs_where(processes@.subrange(0, i as int), f).len(),
                forall|k: int| 0 <= k < out@.len() ==> candidate_from(#[trigger] out@[k], self.settings().host_platform, roots.runtime,
                    roots.config@, roots.data@, roots.cache@, roots.origin, Some(procs_where(processes@.subrange(0, i as int), f)[k])),
            decreases processes@.len() - i,
        {
            proof { lemma_procs_where_step(processes@, f, i as int); }
            if is_studio_process(&processes[i]) {
                let c = self.make_candidate(roots, Some(&processes[i]));
                out.push(c);
            }
            i = i + 1;
        }
        proof { assert(processes@.subrange(0, processes@.len() as int) =~= processes@); }
        let mut paths: Vec<HostPath> = Vec::new();
        paths.push(roots.config.clone());
        paths.push(roots.data.clone());
        paths.push(roots.cache.clone());
        let detected = self.any_detected(&paths);
        if out.len() == 0 && detected {
            out.push(self.make_candidate(roots, None));
        }
        out
    }

    /// The candidates of one set of Vinegar roots: one per Studio process of
    /// these roots; else one when the roots exist or `force` holds.
    fn linux_candidates(&self, roots: &CandidateRoots, processes: &Vec<ProcessSnapshot>, force: bool) -> (r: Vec<StudioEnvironmentCandidate>)
        ensures
            roots_candidates(r@, self.settings().host_platform, roots.runtime, roots.config@, roots.data@, roots.cache@, roots.origin,
                matched_procs(processes@, self.settings().overrides, roots.runtime, roots.data@)),
            force ==> r@.len() > 0,
    {
        let ghost f = |p: ProcessSnapshot| process_matches_roots_spec(p, self.settings().overrides, roots.runtime, roots.data@);
        let mut out: Vec<StudioEnvironmentCandidate> = Vec::new();
        let mut i: usize = 0;
        while i < processes.len()
            invariant
                i <= processes@.len(),
                f == (|p: ProcessSnapshot| process_matches_roots_spec(p, self.settings().overrides, roots.runtime, roots.data@)),
                out@.len() == procs_where(processes@.subrange(0, i as int), f).len(),
                forall|k: int| 0 <= k < out@.len() ==> candidate_from(#[trigger] out@[k], self.settings().host_platform, roots.runtime,
                    roots.config@, roots.data@, roots.cache@, roots.origin, Some(procs_where(processes@.subrange(0, i as int), f)[k])),
            decreases processes@.len() - i,
        {
            proof { lemma_procs_where_step(processes@, f, i as int); }
            if self.process_matches_roots(&processes[i], roots) {
                let c = self.make_candidate(roots, Some(&processes[i]));
                out.push(c);
            }
            i = i + 1;
        }
        proof { assert(processes@.subrange(0, processes@.len() as int) =~= processes@); }
        let mut paths: Vec<HostPath> = Vec::new();
        paths.push(roots.config.clone());
        paths.push(roots.data.clone());
        paths.push(roots.cache.clone());
        let detected = self.any_detected(&paths);
        if out.len() == 0 && (detected || force) {
            out.push(self.make_candidate(roots, None));
        }
        out
    }

    /// The Flatpak and the native Vinegar candidates on Linux.
    fn detect_linux(&self, processes: &Vec<ProcessSnapshot>) -> (r: Result<Vec<StudioEnvironmentCandidate>, PlatformError>)
        ensures
            ({
                let c = self.settings();
                (c.home_dir is None || c.config_dir is None || c.data_local_dir is None || c.cache_dir is None)
                    ==> r == Err::<Vec<StudioEnvironmentCandidate>, PlatformError>(PlatformError::UnsupportedHost)
            }),
            r is Err ==> r == Err::<Vec<StudioEnvironmentCandidate>, PlatformError>(PlatformError::UnsupportedHost)
                || (r matches Err(PlatformError::InvalidOverride { name: n, reason: _ }) && n@ == "vinegar_data_root"@),
            r == Err::<Vec<StudioEnvironmentCandidate>, PlatformError>(PlatformError::UnsupportedHost) ==> ({
                let c = self.settings();
                c.home_dir is None || c.config_dir is None || c.data_local_dir is None || c.cache_dir is None
            }),
            r matches Err(PlatformError::InvalidOverride { name: _, reason: _ }) ==> self.settings().overrides.vinegar_data_root is Some,
            self.settings().overrides.vinegar_data_root is None && self.settings().home_dir is Some && self.settings().config_dir is Some
                && self.settings().data_local_dir is Some && self.settings().cache_dir is Some ==> r is Ok,
            r matches Ok(v) ==> linux_detection(v@, self.settings(), processes@),
    {
        let home = match &self.context.home_dir {
            Some(h) => h,
            None => { return Err(PlatformError::UnsupportedHost); },
        };
        let froot = home.join(".var/app/org.vinegarhq.Vinegar");
        let flatpak = CandidateRoots {
            runtime: StudioRuntime::VinegarFlatpak,
            config: froot.join("config/vinegar"),
            data: froot.join("data/vinegar"),
            cache: froot.join("cache/vinegar"),
            origin: ResolutionOrigin::Detected,
        };
        let config = match &self.context.config_dir {
            Some(root) => root.join("vinegar"),
            None => { return Err(PlatformError::UnsupportedHost); },
        };
        let default_data = match &self.context.data_local_dir {
            Some(root) => root.join("vinegar"),
            None => { return Err(PlatformError::UnsupportedHost); },
        };
        let cache = match &self.context.cache_dir {
            Some(root) => root.join("vinegar"),
            None => { return Err(PlatformError::UnsupportedHost); },
        };
        let (data, origin) = match &self.context.overrides.vinegar_data_root {
            Some(configured) => (configured.clone(), ResolutionOrigin::Configured),
            None => (default_data, ResolutionOrigin::Detected),
        };
        if origin == ResolutionOrigin::Configured {
            match self.validate_override("vinegar_data_root", &data) {
                Ok(()) => {},
                Err(e) => { return Err(e); },
            }
        }
        let native = CandidateRoots { runtime: StudioRuntime::VinegarNative, config, data, cache, origin };
        let overridden = self.context.overrides.vinegar_data_root.is_some() || self.context.overrides.studio_prefix.is_some()
            || self.context.overrides.studio_deployment.is_some() || self.context.overrides.roblox_appdata.is_some();
        let mut out = self.linux_candidates(&flatpak, processes, false);
        let ghost n = out@.len() as int;
        let ghost before = out@;
        let mut rest = self.linux_candidates(&native, processes, overridden);
        let ghost tail = rest@;
        out.append(&mut rest);
        proof {
            assert(out@.subrange(0, n) =~= before);
            assert(out@.subrange(n, out@.len() as int) =~= tail);
            let c = self.settings();
            assert(home@ == c.home_dir->0@);
            assert(froot@ == flatpak_root(c.home_dir->0@));
            assert(native.config@ == join_view(c.config_dir->0@, "vinegar"@));
            assert(native.cache@ == join_view(c.cache_dir->0@, "vinegar"@));
            assert(native.data@ == match c.overrides.vinegar_data_root { Some(d) => d@, None => join_view(c.data_local_dir->0@, "vinegar"@) });
            assert(overridden == has_native_override(c.overrides));
            assert(native.origin == if c.overrides.vinegar_data_root is Some { ResolutionOrigin::Configured } else { ResolutionOrigin::Detected });
            let fdata = join_view(flatpak_root(c.home_dir->0@), "data/vinegar"@);
            assert(roots_candidates(out@.subrange(0, n), c.host_platform, StudioRuntime::VinegarFlatpak,
                join_view(flatpak_root(c.home_dir->0@), "config/vinegar"@), fdata, join_view(flatpak_root(c.home_dir->0@), "cache/vinegar"@),
                ResolutionOrigin::Detected, matched_procs(processes@, c.overrides, StudioRuntime::VinegarFlatpak, fdata)));
            assert(overridden ==> n < out@.len());
            let data = match c.overrides.vinegar_data_root { Some(d) => d@, None => join_view(c.data_local_dir->0@, "vinegar"@) };
            let origin = if c.overrides.vinegar_data_root is Some { ResolutionOrigin::Configured } else { ResolutionOrigin::Detected };
            assert(roots_candidates(out@.subrange(n, out@.len() as int), c.host_platform, StudioRuntime::VinegarNative,
                        join_view(c.config_dir->0@, "vinegar"@), data, join_view(c.cache_dir->0@, "vinegar"@), origin,
                        matched_procs(processes@, c.overrides, StudioRuntime::VinegarNative, data)));
            let froot = flatpak_root(c.home_dir->0@);
            let fmatched = matched_procs(processes@, c.overrides, StudioRuntime::VinegarFlatpak, fdata);
            let nmatched = matched_procs(processes@, c.overrides, StudioRuntime::VinegarNative, data);
            assert(exists|m: int| 0 <= m <= out@.len()
                    && roots_candidates(out@.subrange(0, m), c.host_platform, StudioRuntime::VinegarFlatpak,
                        join_view(froot, "config/vinegar"@), fdata, join_view(froot, "cache/vinegar"@), ResolutionOrigin::Detected, fmatched)
                    && roots_candidates(out@.subrange(m, out@.len() as int), c.host_platform, StudioRuntime::VinegarNative,
                        join_view(c.config_dir->0@, "vinegar"@), data, join_view(c.cache_dir->0@, "vinegar"@), origin, nmatched)
                    && (has_native_override(c.overrides) ==> m < out@.len())) by {
                assert(0 <= n <= out@.len());
            }
            assert(linux_detection(out@, c, processes@));
        }
        Ok(out)
    }

    /// The native Roblox candidates on Windows, under the local data folder.
    fn detect_windows(&self, processes: &Vec<ProcessSnapshot>) -> (r: Vec<StudioEnvironmentCandidate>)
        ensures
            self.settings().data_local_dir is None ==> r@.len() == 0,
            self.settings().data_local_dir matches Some(local) ==> ({
                let j = join_view(local@, "Roblox"@);
                roots_candidates(r@, self.settings().host_platform, StudioRuntime::RobloxNative, j, j, j,
                    ResolutionOrigin::Detected, studio_procs(processes@))
            }),
    {
        let local = match &self.context.data_local_dir {
            Some(l) => l,
            None => { return Vec::new(); },
        };
        let roots = CandidateRoots {
            runtime: StudioRuntime::RobloxNative,
            config: local.join("Roblox"),
            data: local.join("Roblox"),
            cache: local.join("Roblox"),
            origin: ResolutionOrigin::Detected,
        };
        self.native_candidates(&roots, processes)
    }

    /// The native Roblox candidates on macOS; an installed application
    /// alone also makes a candidate.
    fn detect_macos(&self, processes: &Vec<ProcessSnapshot>) -> (r: Vec<StudioEnvironmentCandidate>)
        ensures
            self.settings().home_dir is None ==> r@.len() == 0,
            self.settings().home_dir matches Some(home) ==>
                roots_candidates(r@, self.settings().host_platform, StudioRuntime::RobloxNative,
                    join_view(home@, "Library/Preferences/Roblox"@), join_view(home@, "Library/Roblox"@),
                    join_view(home@, "Library/Caches/Roblox"@), ResolutionOrigin::Detected, studio_procs(processes@)),
    {
        let home = match &self.context.home_dir {
            Some(h) => h,
            None => { return Vec::new(); },
        };
        let roots = CandidateRoots {
            runtime: StudioRuntime::RobloxNative,
            config: home.join("Library/Preferences/Roblox"),
            data: home.join("Library/Roblox"),
            cache: home.join("Library/Caches/Roblox"),
            origin: ResolutionOrigin::Detected,
        };
        let mut apps: Vec<HostPath> = Vec::new();
        apps.push(HostPath::new("/Applications/RobloxStudio.app"));
        apps.push(home.join("Applications/RobloxStudio.app"));
        let application_detected = self.any_detected(&apps);
        let mut candidates = self.native_candidates(&roots, processes);
        if application_detected && candidates.len() == 0 {
            candidates.push(self.make_candidate(&roots, None));
        }
        candidates
    }

    /// Whether a Studio process belongs to these roots.
    fn process_matches_roots(&self, process: &ProcessSnapshot, roots: &CandidateRoots) -> (r: bool)
        ensures
            r == process_matches_roots_spec(*process, self.settings().overrides, roots.runtime, roots.data@),
    {
        if !is_studio_process(process) {
            return false;
        }
        let prefix = match &self.context.overrides.studio_prefix {
            Some(p) => p.clone(),
            None => roots.data.join("prefixes/studio"),
        };
        let by_prefix = match process.environment_value("WINEPREFIX") {
            Some(v) => same_path(&HostPath::new(v), &prefix),
            None => false,
        };
        let flatpak = roots.runtime == StudioRuntime::VinegarFlatpak && match process.environment_value("FLATPAK_ID") {
            Some(v) => crate::text::chars_equal(chars_of(v).as_slice(), chars_of("org.vinegarhq.Vinegar").as_slice()),
            None => false,
        };
        by_prefix || process_mentions_path(process, &prefix) || process_mentions_path(process, &roots.data) || flatpak
    }
}

/// The runtimes a host platform's detection yields.
pub open spec fn runtime_fits(platform: HostPlatform, runtime: StudioRuntime) -> bool {
    match platform {
        HostPlatform::Linux => runtime == StudioRuntime::VinegarFlatpak || runtime == StudioRuntime::VinegarNative,
        HostPlatform::Windows | HostPlatform::MacOS => runtime == StudioRuntime::RobloxNative,
        HostPlatform::Unknown => false,
    }
}

/// A host detection refuses: an unknown platform, or Linux without the
/// user directories Vinegar lives in.
pub open spec fn host_unsupported(c: PlatformContext) -> bool {
    c.host_platform == HostPlatform::Unknown
        || (c.host_platform == HostPlatform::Linux
            && (c.home_dir is None || c.config_dir is None || c.data_local_dir is None || c.cache_dir is None))
}

/// Why detection can fail: an unsupported host or an invalid override.
pub open spec fn detection_error(e: PlatformError) -> bool {
    e == PlatformError::UnsupportedHost
        || (e matches PlatformError::InvalidOverride { name: n, reason: _ } && (n@ == "studio_mcp_command"@ || n@ == "vinegar_data_root"@))
}

impl<F: PlatformFileSystem, P: ProcessSource> StudioEnvironmentResolver for PlatformResolver<F, P> {
    /// Every candidate of the host: refused on an unknown host platform; the
    /// configured MCP command, if any, must be a file.
    fn detect_all(&self) -> (r: Result<Vec<StudioEnvironmentCandidate>, PlatformError>)
        ensures
            self.settings().host_platform == HostPlatform::Unknown ==> r is Err,
            r matches Err(e) ==> detection_error(e),
            self.settings().studio_mcp_command is None ==> (r == Err::<Vec<StudioEnvironmentCandidate>, PlatformError>(PlatformError::UnsupportedHost)
                <==> host_unsupported(self.settings())),
            self.settings().studio_mcp_command is None && self.settings().overrides.vinegar_data_root is None
                && !host_unsupported(self.settings()) ==> r is Ok,
            r matches Err(PlatformError::InvalidOverride { name: n, reason: _ }) ==>
                (n@ == "studio_mcp_command"@ && self.settings().studio_mcp_command is Some)
                || (n@ == "vinegar_data_root"@ && self.settings().overrides.vinegar_data_root is Some),
            r matches Ok(v) ==> forall|i: int| 0 <= i < v@.len() ==>
                (#[trigger] v@[i]).host_platform == self.settings().host_platform && runtime_fits(self.settings().host_platform, v@[i].runtime),
    {
        match &self.context.studio_mcp_command {
            Some(command) => {
                match self.validate_file_override("studio_mcp_command", command) {
                    Ok(()) => {},
                    Err(e) => { return Err(e); },
                }
            },
            None => {},
        }
        let processes = self.process_source.snapshot();
        match self.context.host_platform {
            HostPlatform::Linux => {
                let r = self.detect_linux(&processes);
                let ghost gr = r;
                proof {
                    if let Ok(v) = gr {
                        let c = self.settings();
                        let n = choose|n: int| 0 <= n <= v@.len()
                            && roots_candidates(v@.subrange(0, n), c.host_platform, StudioRuntime::VinegarFlatpak,
                                join_view(flatpak_root(c.home_dir->0@), "config/vinegar"@), join_view(flatpak_root(c.home_dir->0@), "data/vinegar"@),
                                join_view(flatpak_root(c.home_dir->0@), "cache/vinegar"@), ResolutionOrigin::Detected,
                                matched_procs(processes@, c.overrides, StudioRuntime::VinegarFlatpak, join_view(flatpak_root(c.home_dir->0@), "data/vinegar"@)))
                            && roots_candidates(v@.subrange(n, v@.len() as int), c.host_platform, StudioRuntime::VinegarNative,
                                join_view(c.config_dir->0@, "vinegar"@),
                                match c.overrides.vinegar_data_root { Some(d) => d@, None => join_view(c.data_local_dir->0@, "vinegar"@) },
                                join_view(c.cache_dir->0@, "vinegar"@),
                                if c.overrides.vinegar_data_root is Some { ResolutionOrigin::Configured } else { ResolutionOrigin::Detected },
                                matched_procs(processes@, c.overrides, StudioRuntime::VinegarNative,
                                    match c.overrides.vinegar_data_root { Some(d) => d@, None => join_view(c.data_local_dir->0@, "vinegar"@) }))
                            && (has_native_override(c.overrides) ==> n < v@.len());
                        assert forall|i: int| 0 <= i < v@.len() implies
                            (#[trigger] v@[i]).host_platform == c.host_platform && runtime_fits(c.host_platform, v@[i].runtime) by {
                            if i < n {
                                assert(v@.subrange(0, n)[i] == v@[i]);
                            } else {
                                assert(v@.subrange(n, v@.len() as int)[i - n] == v@[i]);
                            }
                        }
                    }
                }
                r
            },
            HostPlatform::Windows => {
                let v = self.detect_windows(&processes);
                Ok(v)
            },
            HostPlatform::MacOS => {
                let v = self.detect_macos(&processes);
                Ok(v)
            },
            HostPlatform::Unknown => Err(PlatformError::UnsupportedHost),
        }
    }

    /// Resolves a candidate against a fresh process snapshot.
    fn resolve(&self, candidate: &StudioEnvironmentCandidate) -> (r: Result<StudioEnvironment, PlatformError>)
        ensures
            candidate.host_platform != self.settings().host_platform
                ==> r == Err::<StudioEnvironment, PlatformError>(PlatformError::ForeignCandidate),
            r matches Err(e) ==> resolution_error(e),
            r == Err::<StudioEnvironment, PlatformError>(PlatformError::ForeignCandidate)
                ==> candidate.host_platform != self.settings().host_platform,
            candidate.host_platform == self.settings().host_platform && no_path_overrides(self.settings()) ==> r is Ok,
            r matches Ok(env) ==> environment_shape(env, *candidate) && candidate_paths_kept(env, *candidate)
                && diagnostics_extend(env.diagnostics@, candidate.diagnostics@)
                && (env.studio_process is Some ==> has_code(env.diagnostics@, "STUDIO_PROCESS_CORRELATED"@)),
    {
        let processes = self.process_source.snapshot();
        self.resolve_candidate(candidate, &processes)
    }
}

} // verus!

verus! {

/// The semantic roles, in the order a resolved environment lists them.
pub open spec fn role_order() -> Seq<StudioPathRole> {
    seq![StudioPathRole::Config, StudioPathRole::Data, StudioPathRole::Cache, StudioPathRole::Prefix,
        StudioPathRole::RobloxAppData, StudioPathRole::Deployment, StudioPathRole::Logs, StudioPathRole::Profiler,
        StudioPathRole::CrashData, StudioPathRole::TemporaryExports, StudioPathRole::McpServer]
}

/// The host path of a resolution, when it is available.
pub open spec fn available_host_view(res: PathResolution) -> Option<HostPathView> {
    if res.availability == PathAvailability::Available {
        match res.value {
            Some(v) => match v.host { Some(h) => Some(h@), None => None },
            None => None,
        }
    } else {
        None
    }
}

pub open spec fn opt_view(p: Option<HostPath>) -> Option<HostPathView> {
    match p { Some(h) => Some(h@), None => None }
}

/// Some available resolution carries a host path.
pub open spec fn any_host_access(paths: Seq<PathResolution>) -> bool {
    exists|i: int| 0 <= i < paths.len() && available_host_view(#[trigger] paths[i]) is Some
}

/// The shape every resolved environment has, whatever the file system says.
pub open spec fn environment_shape(env: StudioEnvironment, candidate: StudioEnvironmentCandidate) -> bool {
    &&& env.id == candidate.id
    &&& env.resolver_version == RESOLVER_VERSION
    &&& env.host_platform == candidate.host_platform
    &&& env.runtime == candidate.runtime
    &&& env.paths@.len() == 11
    &&& forall|i: int| 0 <= i < 11 ==> (#[trigger] env.paths@[i]).role == role_order()[i]
    &&& drive_keys_sorted(env.wine_drive_mappings@)
    &&& env.capabilities.host_filesystem_access == any_host_access(env.paths@)
    &&& env.capabilities.wine_path_translation == (env.wine_drive_mappings@.len() > 0)
    &&& env.capabilities.process_telemetry == env.studio_process is Some
    &&& env.capabilities.studio_logs == (env.paths@[6].availability == PathAvailability::Available)
    &&& env.capabilities.profiler_files == (env.paths@[7].availability == PathAvailability::Available)
    &&& env.capabilities.crash_data == (env.paths@[8].availability == PathAvailability::Available)
    &&& env.capabilities.studio_mcp_launch == env.mcp_launcher is Some
    &&& opt_view(env.config_root) == available_host_view(env.paths@[0])
    &&& opt_view(env.data_root) == available_host_view(env.paths@[1])
    &&& opt_view(env.cache_root) == available_host_view(env.paths@[2])
    &&& opt_view(env.studio_prefix) == available_host_view(env.paths@[3])
    &&& (env.logs_root is Some ==> env.paths@[6].availability == PathAvailability::Available)
    &&& (env.profiler_root is Some ==> env.paths@[7].availability == PathAvailability::Available)
    &&& (env.roblox_appdata is Some ==> env.paths@[4].availability == PathAvailability::Available)
    &&& (env.studio_process matches Some(p) ==> candidate.process_hint == Some(p.pid)
        && (candidate.process_start_time_unix_seconds matches Some(s) ==> p.start_time_unix_seconds == s)
        && p.runtime == candidate.runtime)
    &&& (env.studio_process is None ==> env.related_processes@.len() == 0)
    &&& (env.studio_process matches Some(p) ==> forall|i: int| 0 <= i < env.related_processes@.len()
        ==> (#[trigger] env.related_processes@[i]).pid != p.pid)
}

/// An experimental Linux launcher: the Wine runtime runs the guest path of
/// `StudioMCP.exe` inside the Studio prefix.
pub open spec fn mcp_wine_launcher(l: StudioMcpLauncher, platform: HostPlatform, prefix: Option<&HostPath>, wine: Option<&WineRuntime>) -> bool {
    &&& platform == HostPlatform::Linux
    &&& wine matches Some(w) && l.executable@ == w.executable@
    &&& prefix matches Some(p) && l.environment@.len() == 1 && l.environment@[0].0@ == "WINEPREFIX"@
        && l.environment@[0].1@ == host_path_text(p@)
    &&& l.arguments@.len() == 1
    &&& l.target_executable matches Some(t) && (t.guest matches Some(g) && l.arguments@[0]@ == super::wine_path::wine_path_text(g@))
}

/// Why resolving a candidate can fail: it belongs to another host, or an
/// override it needs is invalid.
pub open spec fn resolution_error(e: PlatformError) -> bool {
    e == PlatformError::ForeignCandidate
        || (e matches PlatformError::InvalidOverride { name: n, reason: _ }
            && (n@ == "studio_prefix"@ || n@ == "studio_deployment"@ || n@ == "roblox_appdata"@))
}

fn text_string(s: &str) -> (r: String)
    ensures
        r@ == s@,
{
    string_from_chars(chars_of(s).as_slice())
}

/// The diagnostics begin with the candidate's own, same codes and messages.
pub open spec fn diagnostics_extend(d: Seq<ResolutionDiagnostic>, c: Seq<ResolutionDiagnostic>) -> bool {
    &&& c.len() <= d.len()
    &&& forall|k: int| 0 <= k < c.len() ==> (#[trigger] d[k]).code@ == c[k].code@ && d[k].message@ == c[k].message@
}

/// Some diagnostic carries the code.
pub open spec fn has_code(d: Seq<ResolutionDiagnostic>, code: Seq<char>) -> bool {
    exists|k: int| 0 <= k < d.len() && (#[trigger] d[k]).code@ == code
}

proof fn lemma_diagnostics_grow(before: Seq<ResolutionDiagnostic>, after: Seq<ResolutionDiagnostic>, c: Seq<ResolutionDiagnostic>)
    requires
        diagnostics_extend(before, c),
        before.len() <= after.len(),
        after.subrange(0, before.len() as int) == before,
    ensures
        diagnostics_extend(after, c),
{
    assert forall|k: int| 0 <= k < c.len() implies (#[trigger] after[k]).code@ == c[k].code@ && after[k].message@ == c[k].message@ by {
        assert(after.subrange(0, before.len() as int)[k] == after[k]);
    }
}

proof fn lemma_code_kept(before: Seq<ResolutionDiagnostic>, after: Seq<ResolutionDiagnostic>, code: Seq<char>)
    requires
        before.len() <= after.len(),
        after.subrange(0, before.len() as int) == before,
    ensures
        has_code(before, code) ==> has_code(after, code),
{
    if has_code(before, code) {
        let k = choose|k: int| 0 <= k < before.len() && (#[trigger] before[k]).code@ == code;
        assert(after.subrange(0, before.len() as int)[k] == after[k]);
    }
}

/// No configured prefix, deployment or AppData.
pub open spec fn no_path_overrides(c: PlatformContext) -> bool {
    &&& c.overrides.studio_prefix is None
    &&& c.overrides.studio_deployment is None
    &&& c.overrides.roblox_appdata is None
}

/// The candidate's own roots become the Config, Data and Cache paths: each
/// carries the root it was given, Config and Cache as detected, Data with
/// the candidate's origin when it has a data root.
pub open spec fn candidate_paths_kept(env: StudioEnvironment, candidate: StudioEnvironmentCandidate) -> bool {
    &&& env.paths@[0].origin == ResolutionOrigin::Detected
    &&& env.paths@[2].origin == ResolutionOrigin::Detected
    &&& env.paths@[1].origin == (if candidate.data_root is Some { candidate.origin } else { ResolutionOrigin::Detected })
    &&& resolution_host(env.paths@[0]) == opt_view(candidate.config_root)
    &&& resolution_host(env.paths@[1]) == opt_view(candidate.data_root)
    &&& resolution_host(env.paths@[2]) == opt_view(candidate.cache_root)
}

/// The host path a resolution carries, if any.
pub open spec fn resolution_host(res: PathResolution) -> Option<HostPathView> {
    match res.value {
        Some(v) => match v.host { Some(h) => Some(h@), None => None },
        None => None,
    }
}

/// What the Wine user profiles of a prefix give as Roblox AppData: the
/// chosen user's `AppData/Local/Roblox` on the host and in the guest, or how
/// many profiles remain when no single user is chosen.
#[derive(Debug)]
pub enum WineUserAppData {
    Chosen { user: usize, host: HostPath, guest: WinePath },
    Ambiguous { profiles: usize },
}

/// The Roblox AppData of the Wine user `wine_user_choice` picks (the
/// profile named by the process, else the one user with Roblox AppData,
/// else the only user); otherwise the number of candidate profiles: those
/// with Roblox AppData, or all when none has it.
pub fn wine_user_appdata(users: &Vec<FileSystemEntry>, with_roblox: &Vec<bool>, process_user: Option<&str>) -> (r: WineUserAppData)
    requires
        with_roblox@.len() == users@.len(),
    ensures
        match wine_user_choice(users@, with_roblox@, match process_user { Some(u) => Some(u@), None => None }) {
            Some(k) => r matches WineUserAppData::Chosen { user, host, guest } && user == k
                && host@ == join_view(users@[k].path@, "AppData/Local/Roblox"@)
                && guest@.drive == 'C'
                && guest@.parts == seq!["users"@, users@[k].file_name@, "AppData"@, "Local"@, "Roblox"@],
            None => r == (WineUserAppData::Ambiguous {
                profiles: if count_true(with_roblox@) == 0 { users@.len() as usize } else { count_true(with_roblox@) as usize },
            }),
        },
        r matches WineUserAppData::Chosen { user, host: _, guest: _ } ==> user < users@.len(),
{
    proof {
        super::selection::lemma_wine_user_choice_in_range(users@, with_roblox@, match process_user { Some(u) => Some(u@), None => None });
    }
    let count = users.len();
    let selected = select_wine_user(users, with_roblox, process_user);
    let ghost choice = wine_user_choice(users@, with_roblox@, match process_user { Some(u) => Some(u@), None => None });
    match selected {
        None => {
            let (with_count, _) = count_and_first(with_roblox);
            let n = if with_count == 0 { users.len() } else { with_count };
            WineUserAppData::Ambiguous { profiles: n }
        },
        Some(k) => {
            let user = &users[k];
            let host = user.path.join("AppData/Local/Roblox");
            let mut parts: Vec<String> = Vec::new();
            parts.push(text_string("users"));
            parts.push(text_string(user.file_name.as_str()));
            parts.push(text_string("AppData"));
            parts.push(text_string("Local"));
            parts.push(text_string("Roblox"));
            let guest = WinePath::from_parts('C', parts);
            proof {
                assert(crate::text::ascii_upper('C') == 'C');
                assert(guest@.parts =~= seq!["users"@, users@[k as int].file_name@, "AppData"@, "Local"@, "Roblox"@]);
                assert(guest@.drive == 'C');
                assert(host@ == join_view(users@[k as int].path@, "AppData/Local/Roblox"@));
                assert(selected == Some(k));
                assert(choice is Some);
                assert(0 <= choice->0 < users@.len());
                assert(users@.len() == count);
                assert(choice->0 as usize == k);
                assert(choice == Some(k as int));
            }
            WineUserAppData::Chosen { user: k, host, guest }
        },
    }
}

/// Whether an answer of the file system shows an existing directory (or,
/// with `directory` false, an existing file).
fn answer_has_kind(answer: &Result<FileSystemEntry, FileSystemError>, directory: bool) -> (r: bool)
    ensures
        r == (answer matches Ok(e) && (if directory { e.is_directory } else { e.is_file })),
{
    match answer {
        Ok(entry) => if directory { entry.is_directory } else { entry.is_file },
        Err(_) => false,
    }
}

/// The paths of the directory entries of a listing, in listing order.
pub open spec fn directory_views(entries: Seq<FileSystemEntry>) -> Seq<HostPathView>
    decreases entries.len(),
{
    if entries.len() == 0 {
        Seq::empty()
    } else {
        let rest = directory_views(entries.drop_last());
        if entries.last().is_directory { rest.push(entries.last().path@) } else { rest }
    }
}

/// Keeps the paths of the entries that are directories.
fn directory_paths(entries: &Vec<FileSystemEntry>) -> (r: Vec<HostPath>)
    ensures
        r@.map_values(|p: HostPath| p@) == directory_views(entries@),
{
    let mut out: Vec<HostPath> = Vec::new();
    let mut i: usize = 0;
    while i < entries.len()
        invariant
            i <= entries@.len(),
            out@.map_values(|p: HostPath| p@) == directory_views(entries@.take(i as int)),
        decreases entries@.len() - i,
    {
        proof { assert(entries@.take(i as int + 1).drop_last() =~= entries@.take(i as int)); }
        let ghost before = out@;
        if entries[i].is_directory {
            out.push(entries[i].path.clone());
            proof { assert(out@.map_values(|p: HostPath| p@) =~= before.map_values(|p: HostPath| p@).push(entries@[i as int].path@)); }
        }
        i = i + 1;
    }
    proof { assert(entries@.take(entries@.len() as int) =~= entries@); }
    out
}

/// Whether a path is the `files/kombucha` directory of some commit.
pub open spec fn wine_root_view(p: HostPathView) -> bool {
    exists|q: HostPathView| p == #[trigger] join_view(q, "files/kombucha"@)
}

/// `after` is `before` with Wine roots appended.
pub open spec fn grows_by_wine_roots(before: Seq<HostPath>, after: Seq<HostPath>) -> bool {
    &&& before.len() <= after.len()
    &&& after.subrange(0, before.len() as int) == before
    &&& forall|i: int| before.len() <= i < after.len() ==> wine_root_view(#[trigger] after[i]@)
}

proof fn lemma_grows_by_wine_root(before: Seq<HostPath>, after: Seq<HostPath>, root: HostPath, commit: HostPathView)
    requires
        grows_by_wine_roots(before, after),
        root@ == join_view(commit, "files/kombucha"@),
    ensures
        grows_by_wine_roots(before, after.push(root)),
{
    let next = after.push(root);
    assert(next.subrange(0, before.len() as int) =~= after.subrange(0, before.len() as int));
    assert forall|i: int| before.len() <= i < next.len() implies wine_root_view(#[trigger] next[i]@) by {
        if i == after.len() {
            assert(next[i]@ == join_view(commit, "files/kombucha"@));
        } else {
            assert(next[i] == after[i]);
        }
    }
}

/// For each candidate path, whether the process mentions it.
pub open spec fn mention_flags(p: ProcessSnapshot, candidates: Seq<HostPath>) -> Seq<bool> {
    Seq::new(candidates.len(), |i: int| mentions_path_spec(p, candidates[i]@))
}

fn push_unique(roots: &mut Vec<HostPath>, root: HostPath)
    requires
        forall|i: int, j: int| 0 <= i < j < old(roots)@.len() ==> old(roots)@[i]@ != old(roots)@[j]@,
    ensures
        forall|i: int, j: int| 0 <= i < j < final(roots)@.len() ==> final(roots)@[i]@ != final(roots)@[j]@,
        (exists|k: int| 0 <= k < old(roots)@.len() && #[trigger] old(roots)@[k]@ == root@) ==> final(roots)@ == old(roots)@,
        !(exists|k: int| 0 <= k < old(roots)@.len() && #[trigger] old(roots)@[k]@ == root@) ==> final(roots)@ == old(roots)@.push(root),
{
    let mut i: usize = 0;
    while i < roots.len()
        invariant
            i <= roots@.len(),
            roots@ == old(roots)@,
            forall|a: int, b: int| 0 <= a < b < roots@.len() ==> roots@[a]@ != roots@[b]@,
            forall|k: int| 0 <= k < i ==> roots@[k]@ != root@,
        decreases roots@.len() - i,
    {
        if roots[i].same_as(&root) {
            return;
        }
        i = i + 1;
    }
    roots.push(root);
}

impl<F: PlatformFileSystem, P: ProcessSource> PlatformResolver<F, P> {
    /// The directories directly under `versions`: what `directory_paths`
    /// keeps of the listing, none when it cannot be read.
    fn deployment_directories(&self, versions: &HostPath) -> Vec<HostPath> {
        match self.filesystem.read_directory(versions) {
            Ok(entries) => directory_paths(&entries),
            Err(_) => Vec::new(),
        }
    }

    /// Drive `C` for the prefix's `drive_c`, then each `dosdevices` link
    /// named `x:`; later links replace earlier mappings of the same drive.
    fn discover_drive_mappings(&self, prefix: &HostPath) -> (r: Vec<(char, HostPath)>)
        ensures
            drive_keys_sorted(r@),
    {
        let mut mappings: Vec<(char, HostPath)> = Vec::new();
        let drive_c = prefix.join("drive_c");
        if self.is_detected(&drive_c) {
            insert_mapping(&mut mappings, 'C', drive_c);
        }
        let dos_devices = prefix.join("dosdevices");
        match self.filesystem.read_directory(&dos_devices) {
            Ok(entries) => {
                let mut i: usize = 0;
                while i < entries.len()
                    invariant
                        i <= entries@.len(),
                        drive_keys_sorted(mappings@),
                    decreases entries@.len() - i,
                {
                    match drive_letter_of(entries[i].file_name.as_str()) {
                        Some(d) => {
                            match self.filesystem.read_link(&entries[i].path) {
                                Ok(target) => { insert_mapping(&mut mappings, d, target); },
                                Err(_) => {},
                            }
                        },
                        None => {},
                    }
                    i = i + 1;
                }
            },
            Err(_) => {},
        }
        mappings
    }

    /// Chooses among deployment directories with process and modification
    /// evidence.
    fn select_deployment(&self, candidates: &Vec<HostPath>, process: Option<&ProcessSnapshot>) -> (r: DeploymentSelection)
        ensures
            candidates@.len() == 0 ==> r matches DeploymentSelection::Missing(None),
            r matches DeploymentSelection::Selected(p) ==> exists|k: int| 0 <= k < candidates@.len() && p@ == candidates@[k]@,
            r matches DeploymentSelection::Missing(m) ==> m is None,
            candidates@.len() > 0 ==> match process {
                Some(p) if count_true(mention_flags(*p, candidates@)) == 1 =>
                    r matches DeploymentSelection::Selected(q) && q@ == candidates@[first_true(mention_flags(*p, candidates@))->0]@,
                _ => if candidates@.len() == 1 {
                    r matches DeploymentSelection::Selected(q) && q@ == candidates@[0]@
                } else {
                    r == DeploymentSelection::Ambiguous(candidates@.len() as usize) || r is Selected
                },
            },
    {
        let mentioned: Option<Vec<bool>> = match process {
            Some(p) => {
                let mut m: Vec<bool> = Vec::new();
                let mut i: usize = 0;
                while i < candidates.len()
                    invariant
                        i <= candidates@.len(),
                        m@.len() == i,
                        forall|k: int| 0 <= k < i ==> m@[k] == mentions_path_spec(*p, #[trigger] candidates@[k]@),
                    decreases candidates@.len() - i,
                {
                    m.push(process_mentions_path(p, &candidates[i]));
                    i = i + 1;
                }
                proof { assert(m@ =~= mention_flags(*p, candidates@)); }
                Some(m)
            },
            None => None,
        };
        let mut modified: Vec<Option<u64>> = Vec::new();
        let mut i: usize = 0;
        while i < candidates.len()
            invariant
                i <= candidates@.len(),
                modified@.len() == i,
            decreases candidates@.len() - i,
        {
            let t = match self.filesystem.modified_unix_seconds(&candidates[i]) {
                Ok(t) => Some(t),
                Err(_) => None,
            };
            modified.push(t);
            i = i + 1;
        }
        let r = match &mentioned {
            Some(m) => select_deployment_from(candidates, Some(m), &modified),
            None => select_deployment_from(candidates, None, &modified),
        };
        proof {
            if candidates@.len() > 0 {
                if let Some(m) = mentioned {
                    if count_true(m@) == 1 {
                        lemma_count_first_pub(m@);
                    }
                }
            }
        }
        r
    }

    /// The Studio deployment: the configured one, or the one the evidence
    /// singles out among the runtime's installed versions.
    fn resolve_deployment(&self, candidate: &StudioEnvironmentCandidate, process: Option<&ProcessSnapshot>)
        -> (r: Result<(Option<StudioDeployment>, PathResolution), PlatformError>)
        ensures
            r is Err ==> self.settings().overrides.studio_deployment is Some
                && (r matches Err(PlatformError::InvalidOverride { name: n, reason: _ }) && n@ == "studio_deployment"@),
            r matches Ok((d, res)) ==> res.role == StudioPathRole::Deployment
                && (d matches Some(dep) ==> dep.runtime == candidate.runtime),
            self.settings().overrides.studio_deployment matches Some(o) ==> (r matches Ok((d, res)) ==>
                d matches Some(dep) && dep.path@ == o@ && res.origin == ResolutionOrigin::Configured),
    {
        match &self.context.overrides.studio_deployment {
            Some(configured) => {
                match self.validate_override("studio_deployment", configured) {
                    Ok(()) => {},
                    Err(e) => { return Err(e); },
                }
                let deployment = make_deployment(configured.clone(), candidate.runtime);
                let resolution = self.resolve_known_path(StudioPathRole::Deployment, Some(configured.clone()), ResolutionOrigin::Configured, None);
                return Ok((Some(deployment), resolution));
            },
            None => {},
        }
        let candidates: Vec<HostPath> = match candidate.runtime {
            StudioRuntime::RobloxNative => {
                if candidate.host_platform == HostPlatform::MacOS {
                    let mut applications: Vec<HostPath> = Vec::new();
                    applications.push(HostPath::new("/Applications/RobloxStudio.app"));
                    match &self.context.home_dir {
                        Some(home) => { applications.push(home.join("Applications/RobloxStudio.app")); },
                        None => {},
                    }
                    let mut found: Vec<HostPath> = Vec::new();
                    let mut i: usize = 0;
                    while i < applications.len()
                        invariant
                            i <= applications@.len(),
                        decreases applications@.len() - i,
                    {
                        if self.is_detected(&applications[i]) {
                            found.push(applications[i].clone());
                        }
                        i = i + 1;
                    }
                    found
                } else {
                    match &candidate.data_root {
                        Some(root) => self.deployment_directories(&root.join("Versions")),
                        None => Vec::new(),
                    }
                }
            },
            StudioRuntime::VinegarNative | StudioRuntime::VinegarFlatpak => match &candidate.data_root {
                Some(root) => self.deployment_directories(&root.join("versions")),
                None => Vec::new(),
            },
            StudioRuntime::Unknown => Vec::new(),
        };
        match self.select_deployment(&candidates, process) {
            DeploymentSelection::Selected(path) => {
                let deployment = make_deployment(path.clone(), candidate.runtime);
                let resolution = self.resolve_known_path(StudioPathRole::Deployment, Some(path), ResolutionOrigin::Detected, None);
                Ok((Some(deployment), resolution))
            },
            DeploymentSelection::Ambiguous(count) => {
                let mut detail: Vec<char> = Vec::new();
                push_decimal(&mut detail, count as u64);
                push_str(&mut detail, " Studio deployments remain after correlation");
                Ok((None, PathResolution {
                    role: StudioPathRole::Deployment,
                    availability: PathAvailability::Ambiguous,
                    value: None,
                    origin: ResolutionOrigin::Detected,
                    detail: Some(string_from_chars(detail.as_slice())),
                }))
            },
            DeploymentSelection::Missing(attempted) => {
                Ok((None, self.resolve_known_path(StudioPathRole::Deployment, attempted, ResolutionOrigin::Detected, None)))
            },
        }
    }
}

} // verus!

verus! {

impl<F: PlatformFileSystem, P: ProcessSource> PlatformResolver<F, P> {
    /// Where Roblox keeps its AppData for this environment: a configured
    /// folder; the native data root; Vinegar's host-side redirect when a
    /// process names it; else the Roblox folder of the Wine user that owns
    /// Studio.
    fn resolve_roblox_appdata(
        &self,
        candidate: &StudioEnvironmentCandidate,
        prefix: Option<&HostPath>,
        mappings: &Vec<(char, HostPath)>,
        process: Option<&ProcessSnapshot>,
        processes: &Vec<ProcessSnapshot>,
        diagnostics: &mut Vec<ResolutionDiagnostic>,
    ) -> (r: Result<(Option<ResolvedPath>, PathResolution), PlatformError>)
        ensures
            final(diagnostics)@.len() >= old(diagnostics)@.len(),
            final(diagnostics)@.subrange(0, old(diagnostics)@.len() as int) == old(diagnostics)@,
            r is Err ==> self.settings().overrides.roblox_appdata is Some
                && (r matches Err(PlatformError::InvalidOverride { name: n, reason: _ }) && n@ == "roblox_appdata"@),
            r matches Ok((a, res)) ==> res.role == StudioPathRole::RobloxAppData
                && (a is Some ==> res.availability == PathAvailability::Available)
                && (a matches Some(x) ==> res.value matches Some(v) && same_resolved(x, v)),
            self.settings().overrides.roblox_appdata is None && candidate.runtime != StudioRuntime::RobloxNative && prefix is None
                ==> (r matches Ok((a, res)) && a is None && res.availability == PathAvailability::Unavailable),
            self.settings().overrides.roblox_appdata is None ==> r is Ok,
            self.settings().overrides.roblox_appdata matches Some(o) ==> (r matches Ok((a, res)) ==>
                res.origin == ResolutionOrigin::Configured && resolution_host(res) == Some(o@)),
            self.settings().overrides.roblox_appdata is None && candidate.runtime == StudioRuntime::RobloxNative
                ==> (r matches Ok((a, res)) && resolution_host(res) == opt_view(candidate.data_root)
                    && res.origin == ResolutionOrigin::Detected && final(diagnostics)@ == old(diagnostics)@),
            r matches Ok((a, res)) ==> (res.availability == PathAvailability::Ambiguous ==> a is None && res.value is None
                && final(diagnostics)@.len() == old(diagnostics)@.len() + 1
                && final(diagnostics)@.last().code@ == "WINE_USER_AMBIGUOUS"@),
    {
        let ghost before = diagnostics@;
        match &self.context.overrides.roblox_appdata {
            Some(configured) => {
                match self.validate_override("roblox_appdata", configured) {
                    Ok(()) => {},
                    Err(e) => { return Err(e); },
                }
                let guest = guest_for_host(configured, mappings);
                let resolution = self.resolve_known_path(StudioPathRole::RobloxAppData, Some(configured.clone()), ResolutionOrigin::Configured, guest);
                return Ok((available_resolved(&resolution), resolution));
            },
            None => {},
        }
        if candidate.runtime == StudioRuntime::RobloxNative {
            let host = match &candidate.data_root { Some(d) => Some(d.clone()), None => None };
            let resolution = self.resolve_known_path(StudioPathRole::RobloxAppData, host, ResolutionOrigin::Detected, None);
            return Ok((available_resolved(&resolution), resolution));
        }
        let prefix = match prefix {
            Some(p) => p,
            None => {
                return Ok((None, PathResolution::unavailable(StudioPathRole::RobloxAppData, "Studio prefix is unavailable")));
            },
        };
        match &candidate.data_root {
            Some(data_root) => {
                let redirected = data_root.join("appdata/Roblox");
                let redirected_guest = guest_for_host(&redirected, mappings);
                let mut evidence = false;
                if self.is_detected(&redirected) {
                    let mut i: usize = 0;
                    while i < processes.len()
                        invariant
                            i <= processes@.len(),
                        decreases processes@.len() - i,
                    {
                        let mentioned = match &redirected_guest {
                            Some(g) => process_mentions_resolved_path(&processes[i], &redirected, Some(g)),
                            None => process_mentions_resolved_path(&processes[i], &redirected, None),
                        };
                        if mentioned {
                            evidence = true;
                            break;
                        }
                        i = i + 1;
                    }
                }
                if evidence {
                    let resolution = self.resolve_known_path(StudioPathRole::RobloxAppData, Some(redirected), ResolutionOrigin::Detected, redirected_guest);
                    diagnostics.push(diagnostic("VINEGAR_APPDATA_REDIRECT_CORRELATED",
                        "active process arguments identify Vinegar's host-side Roblox AppData redirect"));
                    return Ok((available_resolved(&resolution), resolution));
                }
            },
            None => {},
        }
        let users_root = prefix.join("drive_c/users");
        let entries = match self.filesystem.read_directory(&users_root) {
            Ok(entries) => entries,
            Err(error) => {
                let availability = access_error_availability(error.kind, self.context.sandboxed);
                return Ok((None, PathResolution {
                    role: StudioPathRole::RobloxAppData,
                    availability,
                    value: None,
                    origin: ResolutionOrigin::Detected,
                    detail: Some(error.message),
                }));
            },
        };
        let mut users: Vec<FileSystemEntry> = Vec::new();
        let mut with_roblox: Vec<bool> = Vec::new();
        let mut i: usize = 0;
        while i < entries.len()
            invariant
                i <= entries@.len(),
                users@.len() == with_roblox@.len(),
            decreases entries@.len() - i,
        {
            let e = &entries[i];
            if e.is_directory && !is_wine_shared_user(e.file_name.as_str()) {
                let has_roblox = self.is_detected(&e.path.join("AppData/Local/Roblox"));
                users.push(FileSystemEntry {
                    path: e.path.clone(),
                    file_name: e.file_name.clone(),
                    is_directory: e.is_directory,
                    is_file: e.is_file,
                });
                with_roblox.push(has_roblox);
            }
            i = i + 1;
        }
        let process_user: Option<&str> = match process {
            Some(p) => match p.environment_value("WINEUSERNAME") {
                Some(v) => Some(v),
                None => p.environment_value("USERNAME"),
            },
            None => None,
        };
        match wine_user_appdata(&users, &with_roblox, process_user) {
            WineUserAppData::Ambiguous { profiles } => {
                let mut detail: Vec<char> = Vec::new();
                push_decimal(&mut detail, profiles as u64);
                push_str(&mut detail, " Wine user profiles remain after Roblox AppData correlation");
                let detail_text = string_from_chars(detail.as_slice());
                diagnostics.push(diagnostic("WINE_USER_AMBIGUOUS", detail_text.as_str()));
                proof { assert(diagnostics@.subrange(0, before.len() as int) =~= before); }
                Ok((None, PathResolution {
                    role: StudioPathRole::RobloxAppData,
                    availability: PathAvailability::Ambiguous,
                    value: None,
                    origin: ResolutionOrigin::Detected,
                    detail: Some(detail_text),
                }))
            },
            WineUserAppData::Chosen { user: k, host, guest } => {
                let resolution = self.resolve_known_path(StudioPathRole::RobloxAppData, Some(host), ResolutionOrigin::Detected, Some(guest));
                if resolution.availability == PathAvailability::Available {
                    let mut message: Vec<char> = Vec::new();
                    push_str(&mut message, "Wine profile '");
                    push_str(&mut message, users[k].file_name.as_str());
                    push_str(&mut message, "' owns the detected Roblox AppData");
                    let message_text = string_from_chars(message.as_slice());
                    diagnostics.push(diagnostic("WINE_USER_RESOLVED", message_text.as_str()));
                }
                proof { assert(diagnostics@.subrange(0, before.len() as int) =~= before); }
                Ok((available_resolved(&resolution), resolution))
            },
        }
    }

    /// How to start the Studio MCP server: a configured command; the
    /// documented native launcher; or, on Linux, the deployment's
    /// `StudioMCP.exe` run through the Wine runtime (experimental).
    fn resolve_mcp_launcher(
        &self,
        candidate: &StudioEnvironmentCandidate,
        deployment: Option<&StudioDeployment>,
        mappings: &Vec<(char, HostPath)>,
        studio_prefix: Option<&HostPath>,
        wine_runtime: Option<&WineRuntime>,
    ) -> (r: (Option<StudioMcpLauncher>, PathResolution))
        ensures
            r.1.role == StudioPathRole::McpServer,
            r.0 matches Some(l) ==> (l.experimental ==> mcp_wine_launcher(l, candidate.host_platform, studio_prefix, wine_runtime)
                && r.1.availability == PathAvailability::Available),
            r.0 matches Some(l) ==> (!l.experimental ==> l.arguments@.len() == 0 && l.environment@.len() == 0 && l.target_executable is None),
    {
        match &self.context.studio_mcp_command {
            Some(command) => {
                if self.is_file(command) {
                    let launcher = StudioMcpLauncher {
                        executable: command.clone(),
                        arguments: Vec::new(),
                        environment: Vec::new(),
                        target_executable: None,
                        experimental: false,
                    };
                    let guest = guest_for_host(command, mappings);
                    let resolution = self.resolve_known_path(StudioPathRole::McpServer, Some(command.clone()), ResolutionOrigin::Configured, guest);
                    return (Some(launcher), resolution);
                }
            },
            None => {},
        }
        let native: Option<HostPath> = match candidate.host_platform {
            HostPlatform::Windows => match &candidate.data_root {
                Some(root) => {
                    let launcher = root.join("mcp.bat");
                    if self.is_file(&launcher) { Some(launcher) } else { None }
                },
                None => None,
            },
            HostPlatform::MacOS => match deployment {
                Some(d) => {
                    let launcher = d.path.join("Contents/MacOS/StudioMCP");
                    if self.is_file(&launcher) { Some(launcher) } else { None }
                },
                None => None,
            },
            _ => None,
        };
        match native {
            Some(executable) => {
                let resolution = self.resolve_known_path(StudioPathRole::McpServer, Some(executable.clone()), ResolutionOrigin::Detected, None);
                let launcher = StudioMcpLauncher {
                    executable,
                    arguments: Vec::new(),
                    environment: Vec::new(),
                    target_executable: None,
                    experimental: false,
                };
                return (Some(launcher), resolution);
            },
            None => {},
        }
        let binary: Option<HostPath> = match deployment {
            Some(d) => Some(d.path.join("StudioMCP.exe")),
            None => None,
        };
        let guest: Option<WinePath> = match &binary {
            Some(b) => guest_for_host(b, mappings),
            None => None,
        };
        let binary_copy = match &binary { Some(b) => Some(b.clone()), None => None };
        let guest_copy = match &guest { Some(g) => Some(g.clone()), None => None };
        let resolution = self.resolve_known_path(StudioPathRole::McpServer, binary_copy, ResolutionOrigin::Detected, guest_copy);
        if candidate.host_platform == HostPlatform::Linux && resolution.availability == PathAvailability::Available {
            match (wine_runtime, studio_prefix, binary, guest) {
                (Some(runtime), Some(prefix), Some(binary), Some(guest)) => {
                    let mut arguments: Vec<String> = Vec::new();
                    arguments.push(guest.to_text());
                    let mut environment: Vec<(String, String)> = Vec::new();
                    environment.push((text_string("WINEPREFIX"), prefix.to_text()));
                    let launcher = StudioMcpLauncher {
                        executable: runtime.executable.clone(),
                        arguments,
                        environment,
                        target_executable: Some(ResolvedPath { host: Some(binary), guest: Some(guest) }),
                        experimental: true,
                    };
                    return (Some(launcher), resolution);
                },
                _ => {},
            }
        }
        (None, resolution)
    }

    /// The Wine installation behind one process, if its executable is a
    /// Wine program and the `wine` launcher exists (or the Flatpak layout
    /// places it).
    fn wine_runtime_of(&self, candidate: &StudioEnvironmentCandidate, process: &ProcessSnapshot) -> (r: Option<WineRuntime>)
        ensures
            r matches Some(w) ==> w.source_process_id == Some(process.pid),
            r is Some ==> (process.executable matches Some(e) && wine_layout_spec(e@) is Some),
            r matches Some(w) ==> (candidate.runtime != StudioRuntime::VinegarFlatpak
                ==> (process.executable matches Some(e) && wine_layout_spec(e@) == Some((w.root@, w.executable@)))),
    {
        let executable = match &process.executable {
            Some(e) => e,
            None => { return None; },
        };
        match wine_runtime_layout(executable) {
            Some((root, launcher)) => {
                if self.is_file(&launcher) {
                    return Some(WineRuntime { executable: launcher, root, source_process_id: Some(process.pid) });
                }
                self.resolve_flatpak_wine_runtime(candidate, process)
            },
            None => None,
        }
    }

    /// The Wine runtime of a Vinegar environment, from the Studio process
    /// first and then every other process.
    fn resolve_wine_runtime(&self, candidate: &StudioEnvironmentCandidate, studio_process: Option<&ProcessSnapshot>, processes: &Vec<ProcessSnapshot>)
        -> (r: Option<WineRuntime>)
        ensures
            !(candidate.runtime == StudioRuntime::VinegarNative || candidate.runtime == StudioRuntime::VinegarFlatpak) ==> r is None,
            r matches Some(w) ==> w.source_process_id matches Some(pid)
                && ((studio_process matches Some(p) && p.pid == pid) || exists|k: int| 0 <= k < processes@.len() && processes@[k].pid == pid),
    {
        if !(candidate.runtime == StudioRuntime::VinegarNative || candidate.runtime == StudioRuntime::VinegarFlatpak) {
            return None;
        }
        match studio_process {
            Some(p) => {
                match self.wine_runtime_of(candidate, p) {
                    Some(w) => { return Some(w); },
                    None => {},
                }
            },
            None => {},
        }
        let mut i: usize = 0;
        while i < processes.len()
            invariant
                i <= processes@.len(),
                candidate.runtime == StudioRuntime::VinegarNative || candidate.runtime == StudioRuntime::VinegarFlatpak,
            decreases processes@.len() - i,
        {
            match self.wine_runtime_of(candidate, &processes[i]) {
                Some(w) => { return Some(w); },
                None => {},
            }
            i = i + 1;
        }
        None
    }

    /// A Wine runtime whose executable is visible inside the Flatpak
    /// namespace (under `/app/kombucha`) but not at the same host path:
    /// found among the installed Vinegar app's Wine roots.
    fn resolve_flatpak_wine_runtime(&self, candidate: &StudioEnvironmentCandidate, process: &ProcessSnapshot) -> (r: Option<WineRuntime>)
        ensures
            candidate.runtime != StudioRuntime::VinegarFlatpak ==> r is None,
            r matches Some(w) ==> w.source_process_id == Some(process.pid) && w.executable@ == join_view(w.root@, "bin/wine"@),
    {
        if candidate.runtime != StudioRuntime::VinegarFlatpak {
            return None;
        }
        let process_path = match &process.executable {
            Some(e) => e,
            None => { return None; },
        };
        let guest_root = HostPath::new("/app/kombucha");
        let relative = match process_path.strip_prefix(&guest_root) {
            Some(rel) => rel,
            None => { return None; },
        };
        if relative.component_count() == 0 {
            return None;
        }
        let relative_text = relative.to_text();
        let roots = self.flatpak_wine_roots(candidate);
        let mut i: usize = 0;
        while i < roots.len()
            invariant
                i <= roots@.len(),
                candidate.runtime == StudioRuntime::VinegarFlatpak,
            decreases roots@.len() - i,
        {
            let root = &roots[i];
            let process_executable = root.join(relative_text.as_str());
            let wine_executable = root.join("bin/wine");
            if self.is_file(&process_executable) && self.is_file(&wine_executable) {
                return Some(WineRuntime { executable: wine_executable, root: root.clone(), source_process_id: Some(process.pid) });
            }
            i = i + 1;
        }
        None
    }

    /// The Wine roots that installed Vinegar Flatpak commits provide, and the
    /// `kombucha*` directories under the data root, each once.
    fn flatpak_wine_roots(&self, candidate: &StudioEnvironmentCandidate) -> (r: Vec<HostPath>)
        ensures
            forall|i: int, j: int| 0 <= i < j < r@.len() ==> r@[i]@ != r@[j]@,
    {
        let mut roots: Vec<HostPath> = Vec::new();
        let mut flatpak_roots: Vec<HostPath> = Vec::new();
        match &self.context.home_dir {
            Some(home) => { flatpak_roots.push(home.join(".local/share/flatpak")); },
            None => {},
        }
        match &self.context.data_local_dir {
            Some(d) => { flatpak_roots.push(d.join("flatpak")); },
            None => {},
        }
        flatpak_roots.push(HostPath::new("/var/lib/flatpak"));
        let mut f: usize = 0;
        while f < flatpak_roots.len()
            invariant
                f <= flatpak_roots@.len(),
            decreases flatpak_roots@.len() - f,
        {
            let app_root = flatpak_roots[f].join("app/org.vinegarhq.Vinegar");
            match self.filesystem.read_directory(&app_root) {
                Ok(architectures) => {
                    let mut a: usize = 0;
                    while a < architectures.len()
                        invariant
                            a <= architectures@.len(),
                        decreases architectures@.len() - a,
                    {
                        if architectures[a].is_directory {
                            self.collect_branch_roots(&architectures[a].path, &mut roots);
                        }
                        a = a + 1;
                    }
                },
                Err(_) => {},
            }
            f = f + 1;
        }
        match &candidate.data_root {
            Some(data_root) => {
                match self.filesystem.read_directory(data_root) {
                    Ok(entries) => {
                        let prefix = chars_of("kombucha");
                        let mut e: usize = 0;
                        while e < entries.len()
                            invariant
                                e <= entries@.len(),
                            decreases entries@.len() - e,
                        {
                            if entries[e].is_directory
                                && starts_with_chars(chars_of(entries[e].file_name.as_str()).as_slice(), prefix.as_slice()) {
                                roots.push(entries[e].path.clone());
                            }
                            e = e + 1;
                        }
                    },
                    Err(_) => {},
                }
            },
            None => {},
        }
        let mut unique: Vec<HostPath> = Vec::new();
        let mut k: usize = 0;
        while k < roots.len()
            invariant
                k <= roots@.len(),
                forall|i: int, j: int| 0 <= i < j < unique@.len() ==> unique@[i]@ != unique@[j]@,
            decreases roots@.len() - k,
        {
            push_unique(&mut unique, roots[k].clone());
            k = k + 1;
        }
        unique
    }

    /// The Wine roots of one architecture directory: each branch's active
    /// commit and every commit with a `wine` launcher.
    fn collect_branch_roots(&self, architecture: &HostPath, roots: &mut Vec<HostPath>)
        ensures
            grows_by_wine_roots(old(roots)@, final(roots)@),
    {
        let ghost start = roots@;
        proof { assert(start.subrange(0, start.len() as int) =~= start); }
        match self.filesystem.read_directory(architecture) {
            Ok(branches) => {
                let mut b: usize = 0;
                while b < branches.len()
                    invariant
                        b <= branches@.len(),
                        start == old(roots)@,
                        grows_by_wine_roots(start, roots@),
                    decreases branches@.len() - b,
                {
                    if branches[b].is_directory {
                        let branch = &branches[b].path;
                        match self.filesystem.read_link(&branch.join("active")) {
                            Ok(active) => {
                                let active_root = active.join("files/kombucha");
                                if self.is_file(&active_root.join("bin/wine")) {
                                    proof { lemma_grows_by_wine_root(start, roots@, active_root, active@); }
                                    roots.push(active_root);
                                }
                            },
                            Err(_) => {},
                        }
                        match self.filesystem.read_directory(branch) {
                            Ok(commits) => {
                                let mut c: usize = 0;
                                while c < commits.len()
                                    invariant
                                        c <= commits@.len(),
                                        start == old(roots)@,
                                        grows_by_wine_roots(start, roots@),
                                    decreases commits@.len() - c,
                                {
                                    if commits[c].is_directory {
                                        let root = commits[c].path.join("files/kombucha");
                                        if self.is_file(&root.join("bin/wine")) {
                                            proof { lemma_grows_by_wine_root(start, roots@, root, commits@[c as int].path@); }
                                            roots.push(root);
                                        }
                                    }
                                    c = c + 1;
                                }
                            },
                            Err(_) => {},
                        }
                    }
                    b = b + 1;
                }
            },
            Err(_) => {},
        }
    }
}

} // verus!

verus! {

/// Whether a process is the one a candidate names: its pid, and its start
/// time where the candidate records one.
pub open spec fn hinted_by(candidate: StudioEnvironmentCandidate, p: ProcessSnapshot) -> bool {
    &&& candidate.process_hint == Some(p.pid)
    &&& (candidate.process_start_time_unix_seconds matches Some(s) ==> p.start_time_unix_seconds == s)
}

/// The hinted process: the first with the candidate's pid and, when known,
/// its start time.
fn find_hinted(candidate: &StudioEnvironmentCandidate, processes: &Vec<ProcessSnapshot>) -> (r: Option<usize>)
    ensures
        r matches Some(i) ==> i < processes@.len() && hinted_by(*candidate, processes@[i as int])
            && forall|j: int| 0 <= j < i ==> !hinted_by(*candidate, #[trigger] processes@[j]),
        r is None ==> forall|j: int| 0 <= j < processes@.len() ==> !hinted_by(*candidate, #[trigger] processes@[j]),
{
    let pid = match candidate.process_hint {
        Some(p) => p,
        None => { return None; },
    };
    let mut i: usize = 0;
    while i < processes.len()
        invariant
            i <= processes@.len(),
            candidate.process_hint == Some(pid),
            forall|j: int| 0 <= j < i ==> !hinted_by(*candidate, #[trigger] processes@[j]),
        decreases processes@.len() - i,
    {
        let p = &processes[i];
        let start_ok = match candidate.process_start_time_unix_seconds {
            Some(s) => p.start_time_unix_seconds == s,
            None => true,
        };
        if p.pid == pid && start_ok {
            return Some(i);
        }
        i = i + 1;
    }
    None
}

fn host_access(paths: &Vec<PathResolution>) -> (r: bool)
    ensures
        r == any_host_access(paths@),
{
    let mut i: usize = 0;
    while i < paths.len()
        invariant
            i <= paths@.len(),
            forall|k: int| 0 <= k < i ==> available_host_view(#[trigger] paths@[k]) is None,
        decreases paths@.len() - i,
    {
        let h = available_host(&paths[i]);
        if h.is_some() {
            proof { assert(available_host_view(paths@[i as int]) is Some); }
            return true;
        }
        i = i + 1;
    }
    false
}

proof fn lemma_related_excludes(ps: Seq<ProcessSnapshot>, upto: int, main: u32, prefix: Option<HostPathView>, parents: Seq<(u32, Option<u32>)>)
    ensures
        forall|i: int| 0 <= i < related_procs(ps, upto, main, prefix, parents).len()
            ==> (#[trigger] related_procs(ps, upto, main, prefix, parents)[i]).0 != main,
    decreases upto,
{
    if upto > 0 && upto <= ps.len() {
        lemma_related_excludes(ps, upto - 1, main, prefix, parents);
        let prev = related_procs(ps, upto - 1, main, prefix, parents);
        let cur = related_procs(ps, upto, main, prefix, parents);
        assert forall|i: int| 0 <= i < cur.len() implies (#[trigger] cur[i]).0 != main by {
            if i < prev.len() {
                assert(cur[i] == prev[i]);
            }
        }
    }
}

fn copy_diagnostics(v: &Vec<ResolutionDiagnostic>) -> (r: Vec<ResolutionDiagnostic>)
    ensures
        r@.len() == v@.len(),
        forall|i: int| 0 <= i < r@.len() ==> (#[trigger] r@[i]).code@ == v@[i].code@ && r@[i].message@ == v@[i].message@,
{
    let mut out: Vec<ResolutionDiagnostic> = Vec::new();
    let mut i: usize = 0;
    while i < v.len()
        invariant
            i <= v@.len(),
            out@.len() == i,
            forall|k: int| 0 <= k < i ==> (#[trigger] out@[k]).code@ == v@[k].code@ && out@[k].message@ == v@[k].message@,
        decreases v@.len() - i,
    {
        out.push(ResolutionDiagnostic { code: v[i].code.clone(), message: v[i].message.clone() });
        i = i + 1;
    }
    out
}

fn opt_clone(p: &Option<HostPath>) -> (r: Option<HostPath>)
    ensures
        opt_view(r) == opt_view(*p),
{
    match p { Some(h) => Some(h.clone()), None => None }
}

impl<F: PlatformFileSystem, P: ProcessSource> PlatformResolver<F, P> {
    /// Resolves every semantic path of a candidate of this host.
    fn resolve_candidate(&self, candidate: &StudioEnvironmentCandidate, processes: &Vec<ProcessSnapshot>) -> (r: Result<StudioEnvironment, PlatformError>)
        ensures
            candidate.host_platform != self.settings().host_platform
                ==> r == Err::<StudioEnvironment, PlatformError>(PlatformError::ForeignCandidate),
            r matches Err(e) ==> resolution_error(e),
            r == Err::<StudioEnvironment, PlatformError>(PlatformError::ForeignCandidate)
                ==> candidate.host_platform != self.settings().host_platform,
            candidate.host_platform == self.settings().host_platform && no_path_overrides(self.settings()) ==> r is Ok,
            r matches Ok(env) ==> environment_shape(env, *candidate),
            r matches Ok(env) ==> candidate_paths_kept(env, *candidate),
            r matches Ok(env) ==> diagnostics_extend(env.diagnostics@, candidate.diagnostics@),
            r matches Ok(env) ==> (env.studio_process is Some ==> has_code(env.diagnostics@, "STUDIO_PROCESS_CORRELATED"@)),
            r matches Ok(env) ==> (env.studio_process is Some
                <==> exists|i: int| 0 <= i < processes@.len() && hinted_by(*candidate, #[trigger] processes@[i])),
    {
        if candidate.host_platform != self.context.host_platform {
            return Err(PlatformError::ForeignCandidate);
        }
        let mut diagnostics = copy_diagnostics(&candidate.diagnostics);
        proof { assert(diagnostics_extend(diagnostics@, candidate.diagnostics@)); }
        let config_resolution = self.resolve_known_path(StudioPathRole::Config, opt_clone(&candidate.config_root), ResolutionOrigin::Detected, None);
        let data_resolution = self.resolve_known_path(StudioPathRole::Data, opt_clone(&candidate.data_root), candidate.origin, None);
        let cache_resolution = self.resolve_known_path(StudioPathRole::Cache, opt_clone(&candidate.cache_root), ResolutionOrigin::Detected, None);
        let is_vinegar = candidate.runtime == StudioRuntime::VinegarNative || candidate.runtime == StudioRuntime::VinegarFlatpak;
        let prefix_attempt: Option<HostPath> = if is_vinegar {
            match &self.context.overrides.studio_prefix {
                Some(configured) => {
                    match self.validate_override("studio_prefix", configured) {
                        Ok(()) => {},
                        Err(e) => { return Err(e); },
                    }
                    Some(configured.clone())
                },
                None => match &candidate.data_root {
                    Some(root) => Some(root.join("prefixes/studio")),
                    None => None,
                },
            }
        } else {
            None
        };
        let prefix_origin = if self.context.overrides.studio_prefix.is_some() { ResolutionOrigin::Configured } else { ResolutionOrigin::Detected };
        let prefix_resolution = self.resolve_known_path(StudioPathRole::Prefix, prefix_attempt, prefix_origin, None);
        let studio_prefix = available_host(&prefix_resolution);
        if studio_prefix.is_none() && is_vinegar {
            let ghost d0 = diagnostics@;
            diagnostics.push(diagnostic("VINEGAR_STUDIO_PREFIX_MISSING", "Vinegar was detected but its Studio Wine prefix is unavailable"));
            proof {
                assert(diagnostics@.subrange(0, d0.len() as int) =~= d0);
                lemma_diagnostics_grow(d0, diagnostics@, candidate.diagnostics@);
            }
        }
        let wine_drive_mappings: Vec<(char, HostPath)> = match &studio_prefix {
            Some(prefix) => self.discover_drive_mappings(prefix),
            None => Vec::new(),
        };
        let hinted = find_hinted(candidate, processes);
        let hinted_process: Option<&ProcessSnapshot> = match hinted {
            Some(i) => Some(&processes[i]),
            None => None,
        };
        let (studio_deployment, deployment_resolution) = match self.resolve_deployment(candidate, hinted_process) {
            Ok(pair) => pair,
            Err(e) => { return Err(e); },
        };
        let deployment_id = match &studio_deployment { Some(d) => Some(d.id), None => None };
        let studio_process: Option<StudioProcessInfo> = match hinted_process {
            Some(p) => Some(process_info(p, candidate.runtime, deployment_id)),
            None => None,
        };
        match &studio_process {
            Some(p) => {
                let mut message: Vec<char> = Vec::new();
                push_str(&mut message, "Studio process ");
                push_decimal(&mut message, p.pid as u64);
                push_str(&mut message, " is correlated with this environment");
                let text = string_from_chars(message.as_slice());
                let ghost d0 = diagnostics@;
                diagnostics.push(diagnostic("STUDIO_PROCESS_CORRELATED", text.as_str()));
                proof {
                    assert(diagnostics@.subrange(0, d0.len() as int) =~= d0);
                    lemma_diagnostics_grow(d0, diagnostics@, candidate.diagnostics@);
                    assert(diagnostics@[d0.len() as int].code@ == "STUDIO_PROCESS_CORRELATED"@);
                }
            },
            None => {},
        }
        let ghost d_before_appdata = diagnostics@;
        let (roblox_appdata, appdata_resolution) = match self.resolve_roblox_appdata(
            candidate, studio_prefix.as_ref(), &wine_drive_mappings, hinted_process, processes, &mut diagnostics) {
            Ok(pair) => pair,
            Err(e) => { return Err(e); },
        };
        proof {
            lemma_diagnostics_grow(d_before_appdata, diagnostics@, candidate.diagnostics@);
            lemma_code_kept(d_before_appdata, diagnostics@, "STUDIO_PROCESS_CORRELATED"@);
        }
        let appdata_host: Option<&HostPath> = match &roblox_appdata {
            Some(a) => a.host.as_ref(),
            None => None,
        };
        let fallback_logs: Option<HostPath> = match candidate.runtime {
            StudioRuntime::VinegarNative | StudioRuntime::VinegarFlatpak => match &candidate.cache_root {
                Some(root) => Some(root.join("logs")),
                None => None,
            },
            StudioRuntime::RobloxNative => {
                if candidate.host_platform == HostPlatform::MacOS {
                    match &self.context.home_dir {
                        Some(home) => Some(home.join("Library/Logs/Roblox")),
                        None => None,
                    }
                } else {
                    match &candidate.data_root {
                        Some(root) => Some(root.join("logs")),
                        None => None,
                    }
                }
            },
            StudioRuntime::Unknown => None,
        };
        let mut logs_candidates: Vec<HostPath> = Vec::new();
        match appdata_host { Some(h) => { logs_candidates.push(h.join("logs")); }, None => {} }
        match fallback_logs { Some(f) => { logs_candidates.push(f); }, None => {} }
        let logs_attempt = self.first_detected(logs_candidates);
        let logs_guest = match &logs_attempt { Some(p) => guest_for_host(p, &wine_drive_mappings), None => None };
        let logs_resolution = self.resolve_known_path(StudioPathRole::Logs, logs_attempt, ResolutionOrigin::Detected, logs_guest);
        let logs_root = available_resolved(&logs_resolution);

        let mut profiler_candidates: Vec<HostPath> = Vec::new();
        match appdata_host { Some(h) => { profiler_candidates.push(h.join("Profiler")); }, None => {} }
        match &logs_root {
            Some(l) => match &l.host { Some(h) => { profiler_candidates.push(h.clone()); }, None => {} },
            None => {},
        }
        let profiler_attempt = self.first_detected(profiler_candidates);
        let profiler_guest = match &profiler_attempt { Some(p) => guest_for_host(p, &wine_drive_mappings), None => None };
        let profiler_resolution = self.resolve_known_path(StudioPathRole::Profiler, profiler_attempt, ResolutionOrigin::Detected, profiler_guest);
        let profiler_root = available_resolved(&profiler_resolution);

        let mut crash_candidates: Vec<HostPath> = Vec::new();
        match appdata_host {
            Some(h) => {
                crash_candidates.push(h.join("CrashReports"));
                crash_candidates.push(h.join("logs/crashes"));
            },
            None => {},
        }
        let crash_attempt = self.first_detected(crash_candidates);
        let crash_guest = match &crash_attempt { Some(p) => guest_for_host(p, &wine_drive_mappings), None => None };
        let crash_resolution = self.resolve_known_path(StudioPathRole::CrashData, crash_attempt, ResolutionOrigin::Detected, crash_guest);

        let exports_attempt = match &candidate.data_root { Some(root) => Some(root.join("exports")), None => None };
        let exports_resolution = self.resolve_known_path(StudioPathRole::TemporaryExports, exports_attempt, ResolutionOrigin::Detected, None);

        let related: Vec<StudioProcessInfo> = match &studio_process {
            Some(main) => {
                let v = related_processes(main.pid, candidate.runtime, deployment_id, studio_prefix.as_ref(), processes);
                proof {
                    lemma_related_excludes(processes@, processes@.len() as int, main.pid,
                        opt_view(studio_prefix), parent_pairs(processes@));
                }
                v
            },
            None => Vec::new(),
        };
        let wine_runtime = self.resolve_wine_runtime(candidate, hinted_process, processes);
        let (mcp_launcher, mcp_resolution) = self.resolve_mcp_launcher(
            candidate, studio_deployment.as_ref(), &wine_drive_mappings, studio_prefix.as_ref(), wine_runtime.as_ref());
        if candidate.host_platform == HostPlatform::Linux && mcp_resolution.availability == PathAvailability::Available && mcp_launcher.is_none() {
            let ghost d0 = diagnostics@;
            diagnostics.push(diagnostic("STUDIO_MCP_BINARY_DETECTED_INVOCATION_UNAVAILABLE",
                "StudioMCP.exe exists, but Roblox does not document a Linux/Vinegar launcher contract; the binary was not executed"));
            proof {
                assert(diagnostics@.subrange(0, d0.len() as int) =~= d0);
                lemma_diagnostics_grow(d0, diagnostics@, candidate.diagnostics@);
                lemma_code_kept(d0, diagnostics@, "STUDIO_PROCESS_CORRELATED"@);
            }
        }

        let mut paths: Vec<PathResolution> = Vec::new();
        paths.push(config_resolution);
        paths.push(data_resolution);
        paths.push(cache_resolution);
        paths.push(prefix_resolution);
        paths.push(appdata_resolution);
        paths.push(deployment_resolution);
        paths.push(logs_resolution);
        paths.push(profiler_resolution);
        paths.push(crash_resolution);
        paths.push(exports_resolution);
        paths.push(mcp_resolution);

        let capabilities = StudioEnvironmentCapabilities {
            host_filesystem_access: host_access(&paths),
            wine_path_translation: wine_drive_mappings.len() > 0,
            process_telemetry: studio_process.is_some(),
            studio_logs: paths[6].availability == PathAvailability::Available,
            profiler_files: paths[7].availability == PathAvailability::Available,
            crash_data: paths[8].availability == PathAvailability::Available,
            studio_mcp_launch: mcp_launcher.is_some(),
        };
        let config_root = available_host(&paths[0]);
        let data_root = available_host(&paths[1]);
        let cache_root = available_host(&paths[2]);
        let prefix_root = available_host(&paths[3]);
        Ok(StudioEnvironment {
            id: candidate.id,
            resolver_version: RESOLVER_VERSION,
            host_platform: candidate.host_platform,
            runtime: candidate.runtime,
            studio_process,
            related_processes: related,
            config_root,
            data_root,
            cache_root,
            studio_prefix: prefix_root,
            roblox_appdata,
            studio_deployment,
            logs_root,
            profiler_root,
            wine_runtime,
            mcp_launcher,
            wine_drive_mappings,
            capabilities,
            paths,
            diagnostics,
        })
    }
}

} // verus!

verus! {

/// `a` orders before `b`: at the first byte where they differ, `a`'s is smaller.
pub open spec fn id_precedes(a: StudioEnvironmentId, b: StudioEnvironmentId) -> bool {
    exists|k: int| 0 <= k < 16 && #[trigger] a.0@[k] < b.0@[k] && forall|j: int| 0 <= j < k ==> a.0@[j] == b.0@[j]
}

proof fn lemma_precedes_asymmetric(a: StudioEnvironmentId, b: StudioEnvironmentId)
    requires
        id_precedes(a, b),
    ensures
        !id_precedes(b, a),
{
    let k = choose|k: int| 0 <= k < 16 && #[trigger] a.0@[k] < b.0@[k] && forall|j: int| 0 <= j < k ==> a.0@[j] == b.0@[j];
    if id_precedes(b, a) {
        let m = choose|m: int| 0 <= m < 16 && #[trigger] b.0@[m] < a.0@[m] && forall|j: int| 0 <= j < m ==> b.0@[j] == a.0@[j];
        if m < k { assert(a.0@[m] == b.0@[m]); } else if k < m { assert(b.0@[k] == a.0@[k]); }
    }
}

proof fn lemma_precedes_transitive(a: StudioEnvironmentId, b: StudioEnvironmentId, c: StudioEnvironmentId)
    requires
        id_precedes(a, b),
        id_precedes(b, c),
    ensures
        id_precedes(a, c),
{
    let k = choose|k: int| 0 <= k < 16 && #[trigger] a.0@[k] < b.0@[k] && forall|j: int| 0 <= j < k ==> a.0@[j] == b.0@[j];
    let m = choose|m: int| 0 <= m < 16 && #[trigger] b.0@[m] < c.0@[m] && forall|j: int| 0 <= j < m ==> b.0@[j] == c.0@[j];
    let w = if k < m { k } else { m };
    if k < m {
        assert(b.0@[k] == c.0@[k]);
    } else if m < k {
        assert(a.0@[m] == b.0@[m]);
    }
    assert(a.0@[w] < c.0@[w]);
    assert(forall|j: int| 0 <= j < w ==> a.0@[j] == c.0@[j]);
}

fn id_less(a: &StudioEnvironmentId, b: &StudioEnvironmentId) -> (r: bool)
    ensures
        r == id_precedes(*a, *b),
{
    let mut i: usize = 0;
    while i < 16
        invariant
            i <= 16,
            forall|j: int| 0 <= j < i ==> a.0@[j] == b.0@[j],
        decreases 16 - i,
    {
        if a.0[i] < b.0[i] {
            return true;
        }
        if a.0[i] > b.0[i] {
            proof {
                assert forall|k: int| 0 <= k < 16 && #[trigger] a.0@[k] < b.0@[k] implies !(forall|j: int| 0 <= j < k ==> a.0@[j] == b.0@[j]) by {
                    if k > i { assert(a.0@[i as int] != b.0@[i as int]); }
                }
            }
            return false;
        }
        i = i + 1;
    }
    false
}

/// Environments in non-decreasing identity order.
pub open spec fn sorted_by_id(v: Seq<StudioEnvironment>) -> bool {
    forall|i: int, j: int| 0 <= i < j < v.len() ==> !id_precedes(v[j].id, v[i].id)
}

/// A resolved environment of a candidate of this host platform.
pub open spec fn resolved_on(env: StudioEnvironment, platform: HostPlatform) -> bool {
    env.host_platform == platform && exists|c: StudioEnvironmentCandidate| environment_shape(env, c)
}

/// The identities of the environments that have a Studio process.
pub open spec fn process_environment_ids(v: Seq<StudioEnvironment>) -> Seq<StudioEnvironmentId>
    decreases v.len(),
{
    if v.len() == 0 {
        Seq::empty()
    } else if v.last().studio_process is Some {
        process_environment_ids(v.drop_last()).push(v.last().id)
    } else {
        process_environment_ids(v.drop_last())
    }
}

pub open spec fn status_code(status: InspectionStatus) -> Seq<char> {
    match status {
        InspectionStatus::Resolved => "STUDIO_ENVIRONMENT_RESOLVED"@,
        InspectionStatus::NotFound => "STUDIO_ENVIRONMENT_NOT_FOUND"@,
        InspectionStatus::Ambiguous => "STUDIO_ENVIRONMENT_AMBIGUOUS"@,
        InspectionStatus::Unavailable => "STUDIO_ENVIRONMENT_UNAVAILABLE"@,
    }
}

fn status_diagnostic(status: InspectionStatus) -> (r: ResolutionDiagnostic)
    ensures
        r.code@ == status_code(status),
{
    match status {
        InspectionStatus::Resolved => diagnostic("STUDIO_ENVIRONMENT_RESOLVED",
            "one Studio environment was selected from filesystem and process evidence"),
        InspectionStatus::NotFound => diagnostic("STUDIO_ENVIRONMENT_NOT_FOUND",
            "no native Studio or Vinegar environment was detected"),
        InspectionStatus::Ambiguous => diagnostic("STUDIO_ENVIRONMENT_AMBIGUOUS",
            "multiple Studio environments remain; select an environment or running session explicitly"),
        InspectionStatus::Unavailable => diagnostic("STUDIO_ENVIRONMENT_UNAVAILABLE",
            "the current host platform is unsupported"),
    }
}

/// Inserts `env` after every environment that does not order after it.
fn insert_sorted(v: &mut Vec<StudioEnvironment>, env: StudioEnvironment, Ghost(platform): Ghost<HostPlatform>)
    requires
        sorted_by_id(old(v)@),
        forall|i: int| 0 <= i < old(v)@.len() ==> resolved_on(#[trigger] old(v)@[i], platform),
        resolved_on(env, platform),
    ensures
        sorted_by_id(final(v)@),
        final(v)@.len() == old(v)@.len() + 1,
        final(v)@.to_multiset() == old(v)@.to_multiset().insert(env),
        forall|i: int| 0 <= i < final(v)@.len() ==> resolved_on(#[trigger] final(v)@[i], platform),
{
    let mut p: usize = 0;
    while p < v.len() && !id_less(&env.id, &v[p].id)
        invariant
            p <= v@.len(),
            forall|k: int| 0 <= k < p ==> !id_precedes(env.id, #[trigger] v@[k].id),
        decreases v@.len() - p,
    {
        p = p + 1;
    }
    let ghost s = v@;
    let ghost e = env;
    v.insert(p, env);
    proof {
        let t = v@;
        crate::order::lemma_insert_to_multiset(s, p as int, e);
        assert forall|a: int, b: int| 0 <= a < b < t.len() implies !id_precedes(t[b].id, t[a].id) by {
            if b < p {
                assert(t[a] == s[a] && t[b] == s[b]);
            } else if b == p {
                assert(t[a] == s[a]);
            } else if a == p {
                assert(t[b] == s[b - 1]);
                // e precedes s[p], and s[p] does not come after s[b-1]
                if id_precedes(s[b - 1].id, e.id) {
                    if b - 1 == p {
                        lemma_precedes_asymmetric(e.id, s[p as int].id);
                    } else {
                        lemma_precedes_transitive(s[b - 1].id, e.id, s[p as int].id);
                    }
                }
            } else if a < p {
                assert(t[a] == s[a] && t[b] == s[b - 1]);
            } else {
                assert(t[a] == s[a - 1] && t[b] == s[b - 1]);
            }
        }
        assert forall|i: int| 0 <= i < t.len() implies resolved_on(#[trigger] t[i], platform) by {
            if i < p { assert(t[i] == s[i]); } else if i > p { assert(t[i] == s[i - 1]); }
        }
    }
}

/// Each environment resolves the candidate at the same position.
pub open spec fn resolved_from(candidates: Seq<StudioEnvironmentCandidate>, resolved: Seq<StudioEnvironment>) -> bool {
    &&& candidates.len() == resolved.len()
    &&& forall|k: int| 0 <= k < resolved.len() ==> environment_shape(#[trigger] resolved[k], candidates[k])
        && candidate_paths_kept(resolved[k], candidates[k])
}

/// The inspection of resolved environments: ordered by identity, with the
/// selection made from which of them have a Studio process, and one
/// diagnostic naming the outcome.
pub fn inspection_from(host_platform: HostPlatform, resolved: Vec<StudioEnvironment>) -> (i: PlatformInspection)
    requires
        forall|k: int| 0 <= k < resolved@.len() ==> resolved_on(#[trigger] resolved@[k], host_platform),
    ensures
        i.host_platform == host_platform,
        i.environments@.to_multiset() == resolved@.to_multiset(),
        sorted_by_id(i.environments@),
        forall|k: int| 0 <= k < i.environments@.len() ==> resolved_on(#[trigger] i.environments@[k], host_platform),
        (i.status, i.selected_environment) == inspection_outcome_spec(i.environments@.len(),
            process_environment_ids(i.environments@),
            if i.environments@.len() > 0 { Some(i.environments@[0].id) } else { None }),
        i.diagnostics@.len() == 1 && i.diagnostics@[0].code@ == status_code(i.status),
{
    let ghost platform = host_platform;
    let ghost all = resolved@;
    let total: usize = resolved.len();
    let mut environments: Vec<StudioEnvironment> = Vec::new();
    let mut rest = resolved;
    let mut taken: usize = 0;
    proof { assert(all.subrange(0, 0) =~= environments@); }
    while rest.len() > 0
        invariant
            platform == host_platform,
            all.len() == total,
            taken + rest@.len() == all.len(),
            rest@ == all.subrange(taken as int, all.len() as int),
            sorted_by_id(environments@),
            environments@.to_multiset() == all.subrange(0, taken as int).to_multiset(),
            forall|k: int| 0 <= k < environments@.len() ==> resolved_on(#[trigger] environments@[k], platform),
            forall|k: int| 0 <= k < all.len() ==> resolved_on(#[trigger] all[k], platform),
        decreases rest@.len(),
    {
        let env = rest.remove(0);
        proof {
            assert(env == all[taken as int]);
            assert(all.subrange(0, taken + 1) =~= all.subrange(0, taken as int).push(env));
            broadcast use vstd::seq_lib::group_to_multiset_ensures;
            assert(all.subrange(0, taken + 1).to_multiset() =~= all.subrange(0, taken as int).to_multiset().insert(env));
        }
        insert_sorted(&mut environments, env, Ghost(platform));
        taken = taken + 1;
        proof {
            assert(rest@ =~= all.subrange(taken as int, all.len() as int));
        }
    }
    proof { assert(all.subrange(0, all.len() as int) =~= all); }
    let mut process_ids: Vec<StudioEnvironmentId> = Vec::new();
    let mut k: usize = 0;
    while k < environments.len()
        invariant
            k <= environments@.len(),
            process_ids@ == process_environment_ids(environments@.subrange(0, k as int)),
        decreases environments@.len() - k,
    {
        proof {
            assert(environments@.subrange(0, k + 1).drop_last() =~= environments@.subrange(0, k as int));
        }
        if environments[k].studio_process.is_some() {
            process_ids.push(environments[k].id);
        }
        k = k + 1;
    }
    proof { assert(environments@.subrange(0, environments@.len() as int) =~= environments@); }
    let first = if environments.len() > 0 { Some(environments[0].id) } else { None };
    let (status, selected_environment) = inspection_outcome(environments.len(), &process_ids, first);
    let mut diagnostics: Vec<ResolutionDiagnostic> = Vec::new();
    diagnostics.push(status_diagnostic(status));
    PlatformInspection {
        host_platform,
        status,
        selected_environment,
        environments,
        diagnostics,
    }
}

impl<F: PlatformFileSystem, P: ProcessSource> PlatformResolver<F, P> {
    /// Detects and resolves every environment, orders them by identity, and
    /// selects one where the evidence allows.
    pub fn inspect(&self) -> (r: Result<PlatformInspection, PlatformError>)
        ensures
            self.settings().host_platform == HostPlatform::Unknown ==> r is Err,
            r matches Err(e) ==> detection_error(e) || resolution_error(e),
            self.settings().studio_mcp_command is None ==> (r == Err::<PlatformInspection, PlatformError>(PlatformError::UnsupportedHost)
                <==> host_unsupported(self.settings())),
            self.settings().studio_mcp_command is None && self.settings().overrides.vinegar_data_root is None
                && no_path_overrides(self.settings()) && !host_unsupported(self.settings()) ==> r is Ok,
            r matches Ok(i) ==> i.host_platform == self.settings().host_platform
                && sorted_by_id(i.environments@)
                && (forall|k: int| 0 <= k < i.environments@.len() ==> resolved_on(#[trigger] i.environments@[k], self.settings().host_platform))
                && (i.status, i.selected_environment) == inspection_outcome_spec(i.environments@.len(),
                    process_environment_ids(i.environments@),
                    if i.environments@.len() > 0 { Some(i.environments@[0].id) } else { None })
                && i.diagnostics@.len() == 1 && i.diagnostics@[0].code@ == status_code(i.status),
            r matches Ok(i) ==> exists|candidates: Seq<StudioEnvironmentCandidate>, resolved: Seq<StudioEnvironment>|
                #[trigger] resolved_from(candidates, resolved)
                && i.environments@.to_multiset() == resolved.to_multiset()
                && forall|k: int| 0 <= k < candidates.len() ==> (#[trigger] candidates[k]).host_platform == self.settings().host_platform
                    && runtime_fits(self.settings().host_platform, candidates[k].runtime),
    {
        let candidates = match self.detect_all() {
            Ok(c) => c,
            Err(e) => { return Err(e); },
        };
        let ghost platform = self.settings().host_platform;
        let mut resolved: Vec<StudioEnvironment> = Vec::new();
        let mut i: usize = 0;
        while i < candidates.len()
            invariant
                i <= candidates@.len(),
                platform == self.settings().host_platform,
                resolved@.len() == i,
                resolved_from(candidates@.subrange(0, i as int), resolved@),
                forall|k: int| 0 <= k < candidates@.len() ==> (#[trigger] candidates@[k]).host_platform == platform,
                self.settings().studio_mcp_command is None ==> !host_unsupported(self.settings()),
            decreases candidates@.len() - i,
        {
            let env = match self.resolve(&candidates[i]) {
                Ok(env) => env,
                Err(e) => { return Err(e); },
            };
            let ghost before = resolved@;
            resolved.push(env);
            proof {
                let cs = candidates@.subrange(0, i + 1);
                assert(cs.subrange(0, i as int) =~= candidates@.subrange(0, i as int));
                assert forall|k: int| 0 <= k < cs.len() implies environment_shape(#[trigger] resolved@[k], cs[k])
                    && candidate_paths_kept(resolved@[k], cs[k]) by {
                    if k < i { assert(resolved@[k] == before[k]); }
                }
            }
            i = i + 1;
        }
        proof {
            assert(candidates@.subrange(0, candidates@.len() as int) =~= candidates@);
            assert forall|k: int| 0 <= k < resolved@.len() implies resolved_on(#[trigger] resolved@[k], platform) by {
                assert(environment_shape(resolved@[k], candidates@[k]));
            }
        }
        let ghost resolved_g = resolved@;
        let inspection = inspection_from(self.context.host_platform, resolved);
        proof {
            assert(resolved_from(candidates@, resolved_g));
        }
        Ok(inspection)
    }
}

} // verus!

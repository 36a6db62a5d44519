//! Studio session vocabulary and the Studio MCP endpoint diagnosis.
use vstd::prelude::*;
use crate::platform::model::{HostPlatform, PathAvailability, StudioEnvironment, StudioEnvironmentId, StudioPathRole, path_for_role};
use crate::platform::host_path::dot_dot;
use crate::resource::{LatticeId, hyphen_text};
use crate::text::{chars_eq_ignore_ascii_case, chars_of, eq_ignore_ascii_case, push_str, string_from_chars};

verus! {

#[derive(Clone, Copy, Debug, Eq, Ord, PartialEq, PartialOrd, Structural)]
pub enum RobloxCapability {
    ReadSource, WriteSource, InspectDataModel, ExecuteLuau, Playtest, CaptureViewport, ReadRuntimeLogs, InsertAsset, Publish,
}

#[derive(Clone, Copy, Debug, Eq, PartialEq, Structural)]
pub enum StudioState {
    Edit,
    Client,
    Server,
    Unknown,
}

/// Lifecycle of one southbound MCP connection. A discovered executable is
/// not an available transport and never implies `Available`.
#[derive(Clone, Copy, Debug, Eq, PartialEq, Structural)]
pub enum StudioMcpConnectionState {
    Unavailable, Discovering, Available, Connecting, Initializing, Connected, Degraded, Reconnecting, Disconnected, Failed,
}

impl StudioMcpConnectionState {
    /// Requests may be sent only over a connected or degraded connection.
    pub fn permits_requests(self) -> (r: bool)
        ensures
            r == (self == StudioMcpConnectionState::Connected || self == StudioMcpConnectionState::Degraded),
    {
        self == StudioMcpConnectionState::Connected || self == StudioMcpConnectionState::Degraded
    }
}

#[derive(Clone, Copy, Debug, Eq, PartialEq, Structural)]
pub enum StudioMcpTransportKind {
    Stdio,
    StreamableHttp,
    UnixSocket,
    NamedPipe,
    Unknown,
}

#[derive(Clone, Copy, Debug, Eq, PartialEq, Structural)]
pub enum StudioMcpEndpointAvailability {
    /// A supported endpoint is independently reachable without starting Studio.
    Attachable,
    /// A documented native launcher exists, but it has not been executed.
    LauncherAvailable,
    /// `StudioMCP` exists on disk but no transport is observable.
    BinaryArtifactOnly,
    Unavailable,
}

#[derive(Clone, Debug, Eq, PartialEq)]
pub struct StudioMcpEndpointDiagnostic {
    pub environment_id: StudioEnvironmentId,
    pub process_id: Option<u32>,
    pub server_process_observed: bool,
    pub availability: StudioMcpEndpointAvailability,
    pub connection_state: StudioMcpConnectionState,
    pub transport: Option<StudioMcpTransportKind>,
    pub code: String,
    pub message: String,
}

/// Some related process runs an executable named `StudioMCP.exe` (in any
/// ASCII case).
pub open spec fn runs_studio_mcp(p: crate::platform::model::StudioProcessInfo) -> bool {
    p.executable matches Some(e) && e@.parts.len() > 0 && e@.parts.last() != dot_dot() && eq_ignore_ascii_case(e@.parts.last(), "StudioMCP.exe"@)
}

pub open spec fn server_observed(env: StudioEnvironment) -> bool {
    exists|i: int| 0 <= i < env.related_processes@.len() && runs_studio_mcp(#[trigger] env.related_processes@[i])
}

/// The MCP server artifact of the environment is available on disk.
pub open spec fn artifact_available(env: StudioEnvironment) -> bool {
    path_for_role(env.paths@, StudioPathRole::McpServer) matches Some(p) && p.availability == PathAvailability::Available
}

fn observed_server(env: &StudioEnvironment) -> (r: bool)
    ensures
        r == server_observed(*env),
{
    let mut i: usize = 0;
    while i < env.related_processes.len()
        invariant
            i <= env.related_processes@.len(),
            forall|k: int| 0 <= k < i ==> !runs_studio_mcp(#[trigger] env.related_processes@[k]),
        decreases env.related_processes@.len() - i,
    {
        match &env.related_processes[i].executable {
            Some(e) => {
                match e.file_name() {
                    Some(name) => {
                        if chars_eq_ignore_ascii_case(chars_of(name.as_str()).as_slice(), chars_of("StudioMCP.exe").as_slice()) {
                            return true;
                        }
                    },
                    None => {},
                }
            },
            None => {},
        }
        i = i + 1;
    }
    false
}

/// Reports only transport evidence observable without launching a process:
/// a launcher, a binary artifact on disk, or nothing. No artifact is ever
/// promoted to an attachable endpoint, and no connection is claimed.
pub fn diagnose_mcp_endpoint(environment: &StudioEnvironment) -> (r: StudioMcpEndpointDiagnostic)
    ensures
        r.environment_id == environment.id,
        r.process_id == (match environment.studio_process { Some(p) => Some(p.pid), None => None }),
        r.server_process_observed == server_observed(*environment),
        r.connection_state == StudioMcpConnectionState::Unavailable,
        r.availability != StudioMcpEndpointAvailability::Attachable,
        environment.mcp_launcher is Some ==> r.availability == StudioMcpEndpointAvailability::LauncherAvailable
            && r.transport == Some(StudioMcpTransportKind::Stdio) && r.code@ == "STUDIO_MCP_LAUNCHER_AVAILABLE"@,
        environment.mcp_launcher is None && artifact_available(*environment) ==>
            r.availability == StudioMcpEndpointAvailability::BinaryArtifactOnly && r.transport is None
                && r.code@ == "STUDIO_MCP_ENDPOINT_UNAVAILABLE"@,
        environment.mcp_launcher is None && !artifact_available(*environment) ==>
            r.availability == StudioMcpEndpointAvailability::Unavailable && r.transport is None
                && r.code@ == "STUDIO_MCP_UNAVAILABLE"@,
{
    let process_id = match &environment.studio_process { Some(p) => Some(p.pid), None => None };
    let server_process_observed = observed_server(environment);
    match &environment.mcp_launcher {
        Some(launcher) => {
            let message = if launcher.experimental {
                "an experimental platform-resolved launcher is present; connection requires an explicit launch request"
            } else {
                "a documented native launcher is present; it has not been executed"
            };
            return StudioMcpEndpointDiagnostic {
                environment_id: environment.id,
                process_id,
                server_process_observed,
                availability: StudioMcpEndpointAvailability::LauncherAvailable,
                connection_state: StudioMcpConnectionState::Unavailable,
                transport: Some(StudioMcpTransportKind::Stdio),
                code: string_from_chars(chars_of("STUDIO_MCP_LAUNCHER_AVAILABLE").as_slice()),
                message: string_from_chars(chars_of(message).as_slice()),
            };
        },
        None => {},
    }
    let artifact_exists = match environment.path(StudioPathRole::McpServer) {
        Some(p) => p.availability == PathAvailability::Available,
        None => false,
    };
    if artifact_exists {
        let mut message: Vec<char> = Vec::new();
        push_str(&mut message, "StudioMCP is present on disk, but no independently reachable transport was discovered.");
        if environment.host_platform == HostPlatform::Linux {
            push_str(&mut message, " Linux/Vinegar has no documented launch or attach command, so Lattice will not execute it.");
        }
        return StudioMcpEndpointDiagnostic {
            environment_id: environment.id,
            process_id,
            server_process_observed,
            availability: StudioMcpEndpointAvailability::BinaryArtifactOnly,
            connection_state: StudioMcpConnectionState::Unavailable,
            transport: None,
            code: string_from_chars(chars_of("STUDIO_MCP_ENDPOINT_UNAVAILABLE").as_slice()),
            message: string_from_chars(message.as_slice()),
        };
    }
    StudioMcpEndpointDiagnostic {
        environment_id: environment.id,
        process_id,
        server_process_observed,
        availability: StudioMcpEndpointAvailability::Unavailable,
        connection_state: StudioMcpConnectionState::Unavailable,
        transport: None,
        code: string_from_chars(chars_of("STUDIO_MCP_UNAVAILABLE").as_slice()),
        message: string_from_chars(chars_of("no Studio MCP launcher, binary artifact, or attachable endpoint was discovered").as_slice()),
    }
}

} // verus!

verus! {

/// One tool a Studio MCP server lists. The input schema is kept as the JSON
/// text the server sent.
#[derive(Clone, Debug, Eq, PartialEq)]
pub struct StudioMcpToolDescriptor {
    pub name: String,
    pub description: Option<String>,
    pub input_schema: String,
    pub read_only_hint: Option<bool>,
    pub destructive_hint: Option<bool>,
}

/// What is known of one southbound MCP connection.
#[derive(Clone, Debug, Eq, PartialEq)]
pub struct StudioMcpConnectionSnapshot {
    pub id: LatticeId,
    pub studio_session_id: LatticeId,
    pub environment_id: StudioEnvironmentId,
    pub process_id: u32,
    pub state: StudioMcpConnectionState,
    pub transport: StudioMcpTransportKind,
    pub endpoint_identity: String,
    pub protocol_version: String,
    pub protocol_negotiation: String,
    pub protocol_session_model: String,
    pub protocol_fallback_reason: Option<String>,
    pub server_name: String,
    pub server_version: String,
    pub capabilities: Vec<String>,
    pub tools: Vec<StudioMcpToolDescriptor>,
    pub tool_catalog_revision: String,
    pub connected_at_unix_ms: i64,
    pub last_successful_request_unix_ms: Option<i64>,
    pub last_rtt_micros: Option<u64>,
    pub failure_count: u64,
    pub last_error: Option<String>,
}

/// A tool call's result: the JSON text of the value, and the round trip.
#[derive(Clone, Debug, Eq, PartialEq)]
pub struct StudioMcpToolResult {
    pub value: String,
    pub rtt_micros: u64,
}

/// One Studio session. `connected` says whether the session's association
/// with a process is live; whether requests can reach it is the state of
/// `mcp_connection`.
#[derive(Clone, Debug, Eq, PartialEq)]
pub struct StudioSession {
    pub id: LatticeId,
    pub external_id: String,
    pub place_label: Option<String>,
    pub state: StudioState,
    pub environment_id: Option<StudioEnvironmentId>,
    pub process_id: Option<u32>,
    pub capabilities: Vec<RobloxCapability>,
    pub connected: bool,
    pub mcp_connection: Option<StudioMcpConnectionSnapshot>,
    pub last_heartbeat_unix_ms: Option<i64>,
}

#[derive(Clone, Debug, Eq, PartialEq)]
pub enum StudioError {
    NotConnected,
    AmbiguousSession,
    SessionNotFound(LatticeId),
    CapabilityUnavailable(RobloxCapability),
    ConnectionBindingMismatch,
    ConnectionNotReady(StudioMcpConnectionState),
}

pub open spec fn accepts_requests(state: StudioMcpConnectionState) -> bool {
    state == StudioMcpConnectionState::Connected || state == StudioMcpConnectionState::Degraded
}

/// A session can be targeted: it is associated, and its connection accepts
/// requests.
pub open spec fn session_live(s: StudioSession) -> bool {
    s.connected && (s.mcp_connection matches Some(c) && accepts_requests(c.state))
}

/// `s[i]` is the first session with identity `id`.
pub open spec fn first_with_id(s: Seq<StudioSession>, id: Seq<u8>, i: int) -> bool {
    &&& 0 <= i < s.len()
    &&& s[i].id@ == id
    &&& forall|j: int| 0 <= j < i ==> (#[trigger] s[j]).id@ != id
}

pub open spec fn has_id(s: Seq<StudioSession>, id: Seq<u8>) -> bool {
    exists|i: int| 0 <= i < s.len() && (#[trigger] s[i]).id@ == id
}

/// `s[i]` is the first live session with identity `id`.
pub open spec fn first_live_with_id(s: Seq<StudioSession>, id: Seq<u8>, i: int) -> bool {
    &&& 0 <= i < s.len()
    &&& s[i].id@ == id
    &&& session_live(s[i])
    &&& forall|j: int| 0 <= j < i ==> !((#[trigger] s[j]).id@ == id && session_live(s[j]))
}

pub open spec fn has_live_id(s: Seq<StudioSession>, id: Seq<u8>) -> bool {
    exists|i: int| 0 <= i < s.len() && (#[trigger] s[i]).id@ == id && session_live(s[i])
}

pub open spec fn has_live(s: Seq<StudioSession>) -> bool {
    exists|i: int| 0 <= i < s.len() && session_live(#[trigger] s[i])
}

/// `s[i]` is the only live session.
pub open spec fn only_live(s: Seq<StudioSession>, i: int) -> bool {
    &&& 0 <= i < s.len()
    &&& session_live(s[i])
    &&& forall|j: int| 0 <= j < s.len() && j != i ==> !session_live(#[trigger] s[j])
}

pub open spec fn two_live(s: Seq<StudioSession>) -> bool {
    exists|i: int, j: int| 0 <= i < j < s.len() && session_live(#[trigger] s[i]) && session_live(#[trigger] s[j])
}

/// The session with the given environment and process.
pub open spec fn with_environment(s: StudioSession, environment_id: StudioEnvironmentId, process_id: Option<u32>) -> StudioSession {
    StudioSession { environment_id: Some(environment_id), process_id: process_id, ..s }
}

/// The session with the given connection.
pub open spec fn with_connection(s: StudioSession, c: StudioMcpConnectionSnapshot) -> StudioSession {
    StudioSession { mcp_connection: Some(c), ..s }
}

/// The connection belongs to the session's environment and process.
pub open spec fn binding_matches(s: StudioSession, c: StudioMcpConnectionSnapshot) -> bool {
    (s.environment_id matches Some(e) && e.0@ == c.environment_id.0@) && s.process_id == Some(c.process_id)
}

/// The Studio sessions the daemon knows, in the order they were given.
pub struct StudioManager {
    sessions: Vec<StudioSession>,
}

impl StudioManager {
    pub closed spec fn sessions_spec(&self) -> Seq<StudioSession> {
        self.sessions@
    }

    pub fn new() -> (r: StudioManager)
        ensures
            r.sessions_spec() == Seq::<StudioSession>::empty(),
    {
        StudioManager { sessions: Vec::new() }
    }

    pub fn sessions(&self) -> (r: &[StudioSession])
        ensures
            r@ == self.sessions_spec(),
    {
        self.sessions.as_slice()
    }

    pub fn replace_sessions(&mut self, sessions: Vec<StudioSession>)
        ensures
            final(self).sessions_spec() == sessions@,
    {
        self.sessions = sessions;
    }

    fn find_session(&self, id: &LatticeId) -> (r: Option<usize>)
        ensures
            match r {
                Some(i) => first_with_id(self.sessions@, id@, i as int),
                None => !has_id(self.sessions@, id@),
            },
    {
        let mut i: usize = 0;
        while i < self.sessions.len()
            invariant
                i <= self.sessions@.len(),
                forall|j: int| 0 <= j < i ==> (#[trigger] self.sessions@[j]).id@ != id@,
            decreases self.sessions@.len() - i,
        {
            if self.sessions[i].id.same(id) {
                return Some(i);
            }
            i = i + 1;
        }
        None
    }

    /// Associates one session with one resolved environment and process.
    pub fn associate_environment(&mut self, session_id: LatticeId, environment_id: StudioEnvironmentId, process_id: Option<u32>)
        -> (r: Result<(), StudioError>)
        ensures
            match r {
                Ok(()) => exists|i: int| first_with_id(old(self).sessions_spec(), session_id@, i)
                    && final(self).sessions_spec() == old(self).sessions_spec().update(i,
                        with_environment(old(self).sessions_spec()[i], environment_id, process_id)),
                Err(e) => e == StudioError::SessionNotFound(session_id)
                    && !has_id(old(self).sessions_spec(), session_id@)
                    && final(self).sessions_spec() == old(self).sessions_spec(),
            },
    {
        match self.find_session(&session_id) {
            None => Err(StudioError::SessionNotFound(session_id)),
            Some(i) => {
                let mut session = self.sessions.remove(i);
                session.environment_id = Some(environment_id);
                session.process_id = process_id;
                self.sessions.insert(i, session);
                proof {
                    assert(first_with_id(old(self).sessions_spec(), session_id@, i as int));
                    assert(self.sessions@ =~= old(self).sessions@.update(i as int,
                        with_environment(old(self).sessions@[i as int], environment_id, process_id)));
                }
                Ok(())
            },
        }
    }

    /// Binds an initialized connection to the one session it names, after
    /// checking that it belongs to that session's environment and process and
    /// that it accepts requests.
    pub fn bind_mcp_connection(&mut self, snapshot: StudioMcpConnectionSnapshot) -> (r: Result<(), StudioError>)
        ensures
            match r {
                Ok(()) => exists|i: int| first_with_id(old(self).sessions_spec(), snapshot.studio_session_id@, i)
                    && binding_matches(old(self).sessions_spec()[i], snapshot)
                    && accepts_requests(snapshot.state)
                    && final(self).sessions_spec() == old(self).sessions_spec().update(i,
                        with_connection(old(self).sessions_spec()[i], snapshot)),
                Err(e) => final(self).sessions_spec() == old(self).sessions_spec() && {
                    ||| !has_id(old(self).sessions_spec(), snapshot.studio_session_id@)
                        && e == StudioError::SessionNotFound(snapshot.studio_session_id)
                    ||| exists|i: int| first_with_id(old(self).sessions_spec(), snapshot.studio_session_id@, i)
                        && !binding_matches(old(self).sessions_spec()[i], snapshot)
                        && e == StudioError::ConnectionBindingMismatch
                    ||| exists|i: int| first_with_id(old(self).sessions_spec(), snapshot.studio_session_id@, i)
                        && binding_matches(old(self).sessions_spec()[i], snapshot)
                        && !accepts_requests(snapshot.state)
                        && e == StudioError::ConnectionNotReady(snapshot.state)
                },
            },
    {
        let i = match self.find_session(&snapshot.studio_session_id) {
            None => { return Err(StudioError::SessionNotFound(snapshot.studio_session_id)); },
            Some(i) => i,
        };
        let environment_matches = match &self.sessions[i].environment_id {
            Some(e) => e.same(&snapshot.environment_id),
            None => false,
        };
        let process_matches = match self.sessions[i].process_id {
            Some(p) => p == snapshot.process_id,
            None => false,
        };
        if !environment_matches || !process_matches {
            return Err(StudioError::ConnectionBindingMismatch);
        }
        if !snapshot.state.permits_requests() {
            return Err(StudioError::ConnectionNotReady(snapshot.state));
        }
        let ghost snap = snapshot;
        let mut session = self.sessions.remove(i);
        session.mcp_connection = Some(snapshot);
        self.sessions.insert(i, session);
        proof {
            assert(self.sessions@ =~= old(self).sessions@.update(i as int, with_connection(old(self).sessions@[i as int], snap)));
        }
        Ok(())
    }

    /// The one session a request goes to: the named one if it is live;
    /// without a name, the only live session.
    pub fn explicit_target(&self, requested: Option<LatticeId>) -> (r: Result<&StudioSession, StudioError>)
        ensures
            match requested {
                Some(q) => match r {
                    Ok(x) => exists|i: int| first_live_with_id(self.sessions_spec(), q@, i) && *x == self.sessions_spec()[i],
                    Err(e) => e == StudioError::SessionNotFound(q) && !has_live_id(self.sessions_spec(), q@),
                },
                None => match r {
                    Ok(x) => exists|i: int| only_live(self.sessions_spec(), i) && *x == self.sessions_spec()[i],
                    Err(e) => (e == StudioError::NotConnected && !has_live(self.sessions_spec()))
                        || (e == StudioError::AmbiguousSession && two_live(self.sessions_spec())),
                },
            },
    {
        match requested {
            Some(q) => {
                let mut i: usize = 0;
                while i < self.sessions.len()
                    invariant
                        i <= self.sessions@.len(),
                        requested == Some(q),
                        forall|j: int| 0 <= j < i ==> !((#[trigger] self.sessions@[j]).id@ == q@ && session_live(self.sessions@[j])),
                    decreases self.sessions@.len() - i,
                {
                    let s = &self.sessions[i];
                    let live = s.connected && match &s.mcp_connection {
                        Some(c) => c.state.permits_requests(),
                        None => false,
                    };
                    if s.id.same(&q) && live {
                        proof {
                            assert(session_live(self.sessions@[i as int]));
                            assert(first_live_with_id(self.sessions_spec(), q@, i as int));
                        }
                        return Ok(s);
                    }
                    i = i + 1;
                }
                proof {
                    assert(!has_live_id(self.sessions_spec(), q@));
                }
                Err(StudioError::SessionNotFound(q))
            },
            None => {
                let mut first: Option<usize> = None;
                let mut i: usize = 0;
                while i < self.sessions.len()
                    invariant
                        i <= self.sessions@.len(),
                        requested is None,
                        match first {
                            Some(f) => f < i && session_live(self.sessions@[f as int])
                                && forall|j: int| 0 <= j < i && j != f ==> !session_live(#[trigger] self.sessions@[j]),
                            None => forall|j: int| 0 <= j < i ==> !session_live(#[trigger] self.sessions@[j]),
                        },
                    decreases self.sessions@.len() - i,
                {
                    let s = &self.sessions[i];
                    let live = s.connected && match &s.mcp_connection {
                        Some(c) => c.state.permits_requests(),
                        None => false,
                    };
                    if live {
                        match first {
                            Some(f) => {
                                proof {
                                    assert(session_live(self.sessions@[i as int]));
                                    assert(two_live(self.sessions_spec()));
                                }
                                return Err(StudioError::AmbiguousSession);
                            },
                            None => { first = Some(i); },
                        }
                    }
                    i = i + 1;
                }
                match first {
                    Some(f) => {
                        proof { assert(only_live(self.sessions_spec(), f as int)); }
                        Ok(&self.sessions[f])
                    },
                    None => {
                        proof { assert(!has_live(self.sessions_spec())); }
                        Err(StudioError::NotConnected)
                    },
                }
            },
        }
    }
}

impl StudioError {
    /// The stable code and message of the error.
    pub fn to_text(&self) -> (r: String)
        ensures
            r@ == studio_error_text(*self),
    {
        let mut out: Vec<char> = Vec::new();
        match self {
            StudioError::NotConnected => push_str(&mut out, "STUDIO_NOT_CONNECTED: no Roblox Studio MCP launcher/session is available"),
            StudioError::AmbiguousSession => push_str(&mut out,
                "AMBIGUOUS_RESOURCE: more than one Studio session is connected; provide a target session"),
            StudioError::SessionNotFound(id) => {
                push_str(&mut out, "RESOURCE_NOT_FOUND: Studio session ");
                push_str(&mut out, id.to_text().as_str());
                push_str(&mut out, " is unavailable");
            },
            StudioError::CapabilityUnavailable(c) => {
                push_str(&mut out, "STUDIO_CAPABILITY_UNAVAILABLE: session does not advertise ");
                push_str(&mut out, capability_name(*c));
            },
            StudioError::ConnectionBindingMismatch => push_str(&mut out,
                "STUDIO_CONNECTION_UNBOUND: MCP connection does not match the Studio environment/process"),
            StudioError::ConnectionNotReady(state) => {
                push_str(&mut out, "STUDIO_NOT_CONNECTED: MCP connection state ");
                push_str(&mut out, connection_state_name(*state));
                push_str(&mut out, " cannot accept requests");
            },
        }
        proof { assert(out@ =~= studio_error_text(*self)); }
        string_from_chars(out.as_slice())
    }
}

pub open spec fn capability_name_spec(c: RobloxCapability) -> Seq<char> {
    match c {
        RobloxCapability::ReadSource => "ReadSource"@,
        RobloxCapability::WriteSource => "WriteSource"@,
        RobloxCapability::InspectDataModel => "InspectDataModel"@,
        RobloxCapability::ExecuteLuau => "ExecuteLuau"@,
        RobloxCapability::Playtest => "Playtest"@,
        RobloxCapability::CaptureViewport => "CaptureViewport"@,
        RobloxCapability::ReadRuntimeLogs => "ReadRuntimeLogs"@,
        RobloxCapability::InsertAsset => "InsertAsset"@,
        RobloxCapability::Publish => "Publish"@,
    }
}

/// The name `Debug` writes for a capability.
pub fn capability_name(c: RobloxCapability) -> (r: &'static str)
    ensures
        r@ == capability_name_spec(c),
{
    match c {
        RobloxCapability::ReadSource => "ReadSource",
        RobloxCapability::WriteSource => "WriteSource",
        RobloxCapability::InspectDataModel => "InspectDataModel",
        RobloxCapability::ExecuteLuau => "ExecuteLuau",
        RobloxCapability::Playtest => "Playtest",
        RobloxCapability::CaptureViewport => "CaptureViewport",
        RobloxCapability::ReadRuntimeLogs => "ReadRuntimeLogs",
        RobloxCapability::InsertAsset => "InsertAsset",
        RobloxCapability::Publish => "Publish",
    }
}

pub open spec fn connection_state_name_spec(s: StudioMcpConnectionState) -> Seq<char> {
    match s {
        StudioMcpConnectionState::Unavailable => "Unavailable"@,
        StudioMcpConnectionState::Discovering => "Discovering"@,
        StudioMcpConnectionState::Available => "Available"@,
        StudioMcpConnectionState::Connecting => "Connecting"@,
        StudioMcpConnectionState::Initializing => "Initializing"@,
        StudioMcpConnectionState::Connected => "Connected"@,
        StudioMcpConnectionState::Degraded => "Degraded"@,
        StudioMcpConnectionState::Reconnecting => "Reconnecting"@,
        StudioMcpConnectionState::Disconnected => "Disconnected"@,
        StudioMcpConnectionState::Failed => "Failed"@,
    }
}

/// The name `Debug` writes for a connection state.
pub fn connection_state_name(s: StudioMcpConnectionState) -> (r: &'static str)
    ensures
        r@ == connection_state_name_spec(s),
{
    match s {
        StudioMcpConnectionState::Unavailable => "Unavailable",
        StudioMcpConnectionState::Discovering => "Discovering",
        StudioMcpConnectionState::Available => "Available",
        StudioMcpConnectionState::Connecting => "Connecting",
        StudioMcpConnectionState::Initializing => "Initializing",
        StudioMcpConnectionState::Connected => "Connected",
        StudioMcpConnectionState::Degraded => "Degraded",
        StudioMcpConnectionState::Reconnecting => "Reconnecting",
        StudioMcpConnectionState::Disconnected => "Disconnected",
        StudioMcpConnectionState::Failed => "Failed",
    }
}

pub open spec fn studio_error_text(e: StudioError) -> Seq<char> {
    match e {
        StudioError::NotConnected => "STUDIO_NOT_CONNECTED: no Roblox Studio MCP launcher/session is available"@,
        StudioError::AmbiguousSession =>
            "AMBIGUOUS_RESOURCE: more than one Studio session is connected; provide a target session"@,
        StudioError::SessionNotFound(id) => "RESOURCE_NOT_FOUND: Studio session "@ + hyphen_text(id@) + " is unavailable"@,
        StudioError::CapabilityUnavailable(c) => "STUDIO_CAPABILITY_UNAVAILABLE: session does not advertise "@ + capability_name_spec(c),
        StudioError::ConnectionBindingMismatch =>
            "STUDIO_CONNECTION_UNBOUND: MCP connection does not match the Studio environment/process"@,
        StudioError::ConnectionNotReady(s) =>
            "STUDIO_NOT_CONNECTED: MCP connection state "@ + connection_state_name_spec(s) + " cannot accept requests"@,
    }
}

impl Default for StudioManager {
    fn default() -> (r: StudioManager)
        ensures
            r.sessions_spec() == Seq::<StudioSession>::empty(),
    {
        StudioManager::new()
    }
}

} // verus!

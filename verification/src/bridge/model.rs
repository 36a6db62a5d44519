//! Wire types of the Studio companion bridge.
use vstd::prelude::*;
use crate::platform::model::{HostPlatform, StudioEnvironmentId, StudioRuntime};
use crate::resource::{is_version7, LatticeId};

verus! {

pub const BRIDGE_PROTOCOL_VERSION: u32 = 1;

/// Identity of one plugin-owned Studio session.
#[derive(Clone, Copy, Debug, Eq, Hash, Ord, PartialEq, PartialOrd)]
pub struct StudioBridgeSessionId(pub LatticeId);

impl StudioBridgeSessionId {
    /// A fresh session identity.
    pub fn new() -> (r: StudioBridgeSessionId)
        ensures
            is_version7(r.0@),
    {
        StudioBridgeSessionId(LatticeId::new())
    }

    /// Identity of two session identifiers.
    pub fn same(&self, other: &StudioBridgeSessionId) -> (r: bool)
        ensures
            r == (self.0@ == other.0@),
    {
        self.0.same(&other.0)
    }
}

/// Identity of one command issued to a plugin session.
#[derive(Clone, Copy, Debug, Eq, Hash, Ord, PartialEq, PartialOrd)]
pub struct StudioBridgeCommandId(pub LatticeId);

impl StudioBridgeCommandId {
    /// A fresh command identity.
    pub fn new() -> (r: StudioBridgeCommandId)
        ensures
            is_version7(r.0@),
    {
        StudioBridgeCommandId(LatticeId::new())
    }

    /// Identity of two command identifiers.
    pub fn same(&self, other: &StudioBridgeCommandId) -> (r: bool)
        ensures
            r == (self.0@ == other.0@),
    {
        self.0.same(&other.0)
    }
}

#[derive(Clone, Copy, Debug, Eq, PartialEq, Structural)]
pub enum StudioDataModel {
    Edit,
    Play,
    Client,
    Server,
    Unknown,
}

#[derive(Clone, Copy, Debug, Eq, PartialEq, Structural)]
pub enum StudioBridgeSessionState {
    Unbound,
    Bound,
    Stale,
}

#[derive(Clone, Debug, Eq, PartialEq)]
pub struct StudioBridgeRegistration {
    pub protocol_version: u32,
    pub external_session_id: String,
    pub plugin_version: String,
    pub data_model: StudioDataModel,
    pub place_id: Option<u64>,
    pub universe_id: Option<u64>,
    pub is_running: bool,
}

#[derive(Debug, Eq, PartialEq)]
pub struct StudioBridgeRegistrationResponse {
    pub protocol_version: u32,
    pub session_id: StudioBridgeSessionId,
    pub report_interval_ms: u64,
    pub max_events_per_report: usize,
    pub max_commands_per_report: usize,
    pub backend: StudioBridgeBackendState,
}

/// One telemetry event; its payload is carried through untouched.
#[derive(Clone, Debug, PartialEq)]
pub struct StudioBridgeEvent<P> {
    pub event_id: String,
    pub sequence: u64,
    pub observed_unix_ms: i64,
    pub payload: P,
}

#[derive(Debug, PartialEq)]
pub enum StudioBridgeCommandPayload {
    GetStudioState,
    GetSelection,
    ReadSource { path_components: Vec<String> },
    GetChildren { path_components: Vec<String> },
    Subscribe { event_kinds: Vec<String> },
}

/// What a command payload is: its variant and the texts it carries.
pub open spec fn payload_model(p: StudioBridgeCommandPayload) -> (int, Seq<String>) {
    match p {
        StudioBridgeCommandPayload::GetStudioState => (0, Seq::empty()),
        StudioBridgeCommandPayload::GetSelection => (1, Seq::empty()),
        StudioBridgeCommandPayload::ReadSource { path_components } => (2, path_components@),
        StudioBridgeCommandPayload::GetChildren { path_components } => (3, path_components@),
        StudioBridgeCommandPayload::Subscribe { event_kinds } => (4, event_kinds@),
    }
}

impl Clone for StudioBridgeCommandPayload {
    fn clone(&self) -> (r: Self)
        ensures
            payload_model(r) == payload_model(*self),
    {
        match self {
            StudioBridgeCommandPayload::GetStudioState => StudioBridgeCommandPayload::GetStudioState,
            StudioBridgeCommandPayload::GetSelection => StudioBridgeCommandPayload::GetSelection,
            StudioBridgeCommandPayload::ReadSource { path_components } => {
                StudioBridgeCommandPayload::ReadSource { path_components: path_components.clone() }
            },
            StudioBridgeCommandPayload::GetChildren { path_components } => {
                StudioBridgeCommandPayload::GetChildren { path_components: path_components.clone() }
            },
            StudioBridgeCommandPayload::Subscribe { event_kinds } => {
                StudioBridgeCommandPayload::Subscribe { event_kinds: event_kinds.clone() }
            },
        }
    }
}

#[derive(Debug, PartialEq)]
pub struct StudioBridgeCommand {
    pub id: StudioBridgeCommandId,
    pub payload: StudioBridgeCommandPayload,
}

/// What a command is: its identity bytes and its payload.
pub open spec fn command_model(c: StudioBridgeCommand) -> (Seq<u8>, (int, Seq<String>)) {
    (c.id.0@, payload_model(c.payload))
}

pub open spec fn commands_model(cs: Seq<StudioBridgeCommand>) -> Seq<(Seq<u8>, (int, Seq<String>))> {
    cs.map_values(|c: StudioBridgeCommand| command_model(c))
}

impl Clone for StudioBridgeCommand {
    fn clone(&self) -> (r: Self)
        ensures
            command_model(r) == command_model(*self),
    {
        StudioBridgeCommand { id: self.id, payload: self.payload.clone() }
    }
}

/// A copy of a list of commands, element by element.
pub fn clone_commands(cs: &[StudioBridgeCommand]) -> (r: Vec<StudioBridgeCommand>)
    ensures
        commands_model(r@) == commands_model(cs@),
{
    let mut out: Vec<StudioBridgeCommand> = Vec::new();
    let mut i: usize = 0;
    while i < cs.len()
        invariant
            i <= cs@.len(),
            out@.len() == i,
            forall|k: int| 0 <= k < i ==> command_model(#[trigger] out@[k]) == command_model(cs@[k]),
        decreases cs@.len() - i,
    {
        let c = cs[i].clone();
        out.push(c);
        i = i + 1;
    }
    proof { assert(commands_model(out@) =~= commands_model(cs@)); }
    out
}

/// The outcome a plugin reports for one command; its value is carried through.
#[derive(Clone, Debug, PartialEq)]
pub struct StudioBridgeCommandResult<V> {
    pub command_id: StudioBridgeCommandId,
    pub succeeded: bool,
    pub value: Option<V>,
    pub error_code: Option<String>,
    pub error_message: Option<String>,
}

#[derive(Clone, Debug, PartialEq)]
pub struct StudioBridgeReport<P, V> {
    pub protocol_version: u32,
    pub session_id: StudioBridgeSessionId,
    pub report_sequence: u64,
    pub data_model: StudioDataModel,
    pub place_id: Option<u64>,
    pub universe_id: Option<u64>,
    pub is_running: bool,
    pub events: Vec<StudioBridgeEvent<P>>,
    pub command_results: Vec<StudioBridgeCommandResult<V>>,
}

#[derive(Debug, PartialEq)]
pub struct StudioBridgeReportResponse {
    pub accepted_sequence: u64,
    pub commands: Vec<StudioBridgeCommand>,
    pub dropped_events_total: u64,
    pub backend: StudioBridgeBackendState,
}

/// What a report response is, field by field.
pub open spec fn response_model(r: StudioBridgeReportResponse) -> (u64, Seq<(Seq<u8>, (int, Seq<String>))>, u64, BackendModel) {
    (r.accepted_sequence, commands_model(r.commands@), r.dropped_events_total, backend_model(r.backend))
}

impl Clone for StudioBridgeReportResponse {
    fn clone(&self) -> (r: Self)
        ensures
            response_model(r) == response_model(*self),
    {
        StudioBridgeReportResponse {
            accepted_sequence: self.accepted_sequence,
            commands: clone_commands(self.commands.as_slice()),
            dropped_events_total: self.dropped_events_total,
            backend: self.backend.clone(),
        }
    }
}

#[derive(Debug, Eq, PartialEq)]
pub struct StudioBridgeEnvironmentSummary {
    pub host_platform: HostPlatform,
    pub runtime: StudioRuntime,
    pub environment_id: StudioEnvironmentId,
    pub process_id: Option<u32>,
    pub deployment: Option<String>,
}

impl Clone for StudioBridgeEnvironmentSummary {
    fn clone(&self) -> (r: Self)
        ensures
            r == *self,
    {
        StudioBridgeEnvironmentSummary {
            host_platform: self.host_platform,
            runtime: self.runtime,
            environment_id: self.environment_id,
            process_id: self.process_id,
            deployment: self.deployment.clone(),
        }
    }
}

#[derive(Debug, Eq, PartialEq)]
pub struct StudioBridgeServiceHealth {
    pub state: String,
    pub detail: Option<String>,
    pub latency_ms: Option<u64>,
}

impl Clone for StudioBridgeServiceHealth {
    fn clone(&self) -> (r: Self)
        ensures
            r == *self,
    {
        StudioBridgeServiceHealth { state: self.state.clone(), detail: self.detail.clone(), latency_ms: self.latency_ms }
    }
}

#[derive(Debug, Eq, PartialEq)]
pub struct StudioBridgeRecorderState {
    pub state: String,
    pub mode: Option<String>,
    pub elapsed_ms: Option<u64>,
    pub events: Option<u64>,
    pub anomalies: Option<u64>,
}

impl Clone for StudioBridgeRecorderState {
    fn clone(&self) -> (r: Self)
        ensures
            r == *self,
    {
        StudioBridgeRecorderState {
            state: self.state.clone(),
            mode: self.mode.clone(),
            elapsed_ms: self.elapsed_ms,
            events: self.events,
            anomalies: self.anomalies,
        }
    }
}

#[derive(Debug, Eq, PartialEq)]
pub struct StudioBridgeClientSummary {
    pub name: String,
    pub authority: Option<String>,
}

impl Clone for StudioBridgeClientSummary {
    fn clone(&self) -> (r: Self)
        ensures
            r == *self,
    {
        StudioBridgeClientSummary { name: self.name.clone(), authority: self.authority.clone() }
    }
}

/// Daemon-owned state rendered by the plugin; absent values stay absent.
#[derive(Debug, Eq, PartialEq)]
pub struct StudioBridgeBackendState {
    pub provider: String,
    pub environment: Option<StudioBridgeEnvironmentSummary>,
    pub place_name: Option<String>,
    pub mcp: StudioBridgeServiceHealth,
    pub index_state: Option<String>,
    pub recorder: StudioBridgeRecorderState,
    pub connected_clients: Vec<StudioBridgeClientSummary>,
    pub capabilities: Vec<String>,
    pub authorization: Vec<String>,
    pub errors: Vec<String>,
}

pub struct BackendModel {
    pub provider: String,
    pub environment: Option<StudioBridgeEnvironmentSummary>,
    pub place_name: Option<String>,
    pub mcp: StudioBridgeServiceHealth,
    pub index_state: Option<String>,
    pub recorder: StudioBridgeRecorderState,
    pub connected_clients: Seq<StudioBridgeClientSummary>,
    pub capabilities: Seq<String>,
    pub authorization: Seq<String>,
    pub errors: Seq<String>,
}

pub open spec fn backend_model(b: StudioBridgeBackendState) -> BackendModel {
    BackendModel {
        provider: b.provider,
        environment: b.environment,
        place_name: b.place_name,
        mcp: b.mcp,
        index_state: b.index_state,
        recorder: b.recorder,
        connected_clients: b.connected_clients@,
        capabilities: b.capabilities@,
        authorization: b.authorization@,
        errors: b.errors@,
    }
}

/// A copy of a list of texts, element by element.
pub fn clone_texts(v: &Vec<String>) -> (r: Vec<String>)
    ensures
        r@ == v@,
{
    v.clone()
}

/// A copy of a list of client summaries, element by element.
pub fn clone_clients(v: &[StudioBridgeClientSummary]) -> (r: Vec<StudioBridgeClientSummary>)
    ensures
        r@ == v@,
{
    let mut out: Vec<StudioBridgeClientSummary> = Vec::new();
    let mut i: usize = 0;
    while i < v.len()
        invariant
            i <= v@.len(),
            out@ == v@.subrange(0, i as int),
        decreases v@.len() - i,
    {
        out.push(v[i].clone());
        proof { assert(out@ =~= v@.subrange(0, i + 1)); }
        i = i + 1;
    }
    proof { assert(out@ =~= v@); }
    out
}

impl Clone for StudioBridgeBackendState {
    fn clone(&self) -> (r: Self)
        ensures
            backend_model(r) == backend_model(*self),
    {
        StudioBridgeBackendState {
            provider: self.provider.clone(),
            environment: self.environment.clone(),
            place_name: self.place_name.clone(),
            mcp: self.mcp.clone(),
            index_state: self.index_state.clone(),
            recorder: self.recorder.clone(),
            connected_clients: clone_clients(self.connected_clients.as_slice()),
            capabilities: clone_texts(&self.capabilities),
            authorization: clone_texts(&self.authorization),
            errors: clone_texts(&self.errors),
        }
    }
}

/// The state shown before the daemon has bound anything to the companion.
pub open spec fn is_default_backend(r: StudioBridgeBackendState) -> bool {
    &&& r.provider@ == "Lattice Studio Bridge"@
    &&& r.environment is None
    &&& r.place_name is None
    &&& r.mcp.state@ == "unavailable"@
    &&& r.mcp.detail matches Some(d) && d@ == "Studio MCP state has not been bound to the companion"@
    &&& r.mcp.latency_ms is None
    &&& r.index_state is None
    &&& r.recorder.state@ == "unavailable"@
    &&& r.recorder.mode is None
    &&& r.recorder.elapsed_ms is None
    &&& r.recorder.events is None
    &&& r.recorder.anomalies is None
    &&& r.connected_clients@.len() == 0
    &&& r.capabilities@.len() == 0
    &&& r.authorization@.len() == 0
    &&& r.errors@.len() == 0
}

impl Default for StudioBridgeBackendState {
    fn default() -> (r: Self)
        ensures
            is_default_backend(r),
    {
        StudioBridgeBackendState {
            provider: "Lattice Studio Bridge".to_owned(),
            environment: None,
            place_name: None,
            mcp: StudioBridgeServiceHealth {
                state: "unavailable".to_owned(),
                detail: Some("Studio MCP state has not been bound to the companion".to_owned()),
                latency_ms: None,
            },
            index_state: None,
            recorder: StudioBridgeRecorderState {
                state: "unavailable".to_owned(),
                mode: None,
                elapsed_ms: None,
                events: None,
                anomalies: None,
            },
            connected_clients: Vec::new(),
            capabilities: Vec::new(),
            authorization: Vec::new(),
            errors: Vec::new(),
        }
    }
}

/// The association of a plugin session with an already-resolved Studio.
#[derive(Clone, Copy, Debug, Eq, PartialEq)]
pub struct StudioBridgeBinding {
    pub studio_session_id: LatticeId,
    pub environment_id: StudioEnvironmentId,
    pub process_id: u32,
}

impl StudioBridgeBinding {
    /// Whether two bindings name the same Studio session, environment and process.
    pub fn same(&self, other: &StudioBridgeBinding) -> (r: bool)
        ensures
            r == (self.studio_session_id@ == other.studio_session_id@
                && self.environment_id.0@ == other.environment_id.0@
                && self.process_id == other.process_id),
    {
        self.studio_session_id.same(&other.studio_session_id) && self.environment_id.same(&other.environment_id)
            && self.process_id == other.process_id
    }
}

#[derive(Debug, Eq, PartialEq)]
pub struct StudioBridgeSessionSnapshot {
    pub id: StudioBridgeSessionId,
    pub external_session_id: String,
    pub plugin_version: String,
    pub data_model: StudioDataModel,
    pub place_id: Option<u64>,
    pub universe_id: Option<u64>,
    pub is_running: bool,
    pub state: StudioBridgeSessionState,
    pub binding: Option<StudioBridgeBinding>,
    pub created_unix_ms: i64,
    pub last_seen_unix_ms: i64,
    pub last_report_sequence: Option<u64>,
    pub queued_commands: usize,
    pub in_flight_commands: usize,
    pub retained_events: usize,
    pub dropped_events_total: u64,
}

impl Clone for StudioBridgeSessionSnapshot {
    fn clone(&self) -> (r: Self)
        ensures
            r == *self,
    {
        StudioBridgeSessionSnapshot {
            id: self.id,
            external_session_id: self.external_session_id.clone(),
            plugin_version: self.plugin_version.clone(),
            data_model: self.data_model,
            place_id: self.place_id,
            universe_id: self.universe_id,
            is_running: self.is_running,
            state: self.state,
            binding: self.binding,
            created_unix_ms: self.created_unix_ms,
            last_seen_unix_ms: self.last_seen_unix_ms,
            last_report_sequence: self.last_report_sequence,
            queued_commands: self.queued_commands,
            in_flight_commands: self.in_flight_commands,
            retained_events: self.retained_events,
            dropped_events_total: self.dropped_events_total,
        }
    }
}

/// Bounds of the broker; durations are in milliseconds.
#[derive(Clone, Copy, Debug, Eq, PartialEq)]
pub struct StudioBridgeLimits {
    pub max_sessions: usize,
    pub max_pending_commands_per_session: usize,
    pub max_events_per_session: usize,
    pub max_events_per_report: usize,
    pub max_command_results_per_report: usize,
    pub max_commands_per_report: usize,
    pub max_body_bytes: usize,
    pub report_interval_ms: u64,
    pub command_timeout_ms: u64,
    pub session_ttl_ms: u64,
}

impl Default for StudioBridgeLimits {
    fn default() -> (r: Self)
        ensures
            r.max_sessions == 32,
            r.max_pending_commands_per_session == 128,
            r.max_events_per_session == 4096,
            r.max_events_per_report == 512,
            r.max_command_results_per_report == 128,
            r.max_commands_per_report == 32,
            r.max_body_bytes == 1048576,
            r.report_interval_ms == 500,
            r.command_timeout_ms == 15000,
            r.session_ttl_ms == 60000,
    {
        StudioBridgeLimits {
            max_sessions: 32,
            max_pending_commands_per_session: 128,
            max_events_per_session: 4096,
            max_events_per_report: 512,
            max_command_results_per_report: 128,
            max_commands_per_report: 32,
            max_body_bytes: 1048576,
            report_interval_ms: 500,
            command_timeout_ms: 15000,
            session_ttl_ms: 60000,
        }
    }
}

#[derive(Clone, Debug)]
pub struct StudioBridgeDiscoveryResponse {
    pub service: String,
    pub protocol_version: u32,
    pub authentication: String,
    pub challenge: String,
    pub challenge_expires_unix_ms: i64,
}

#[derive(Clone, Debug)]
pub struct StudioBridgePairingRequest {
    pub challenge: String,
    pub client_kind: String,
    pub client_name: Option<String>,
}

#[derive(Clone, Debug)]
pub struct StudioBridgePairingResponse {
    pub service: String,
    pub protocol_version: u32,
    pub session_token: String,
    pub session_expires_unix_ms: i64,
}

#[derive(Clone, Copy, Debug)]
pub enum StudioBridgeError {
    InvalidAuthenticationConfiguration,
    ProtocolMismatch { expected: u32, received: u32 },
    InvalidRegistration,
    SessionCapacityExceeded,
    SessionNotFound(StudioBridgeSessionId),
    SessionUnbound(StudioBridgeSessionId),
    BindingConflict,
    ReportLimitExceeded,
    OutOfOrderReport { previous: u64, received: u64 },
    DuplicateReportUnavailable,
    CommandCapacityExceeded(StudioBridgeSessionId),
    CommandTimedOut(StudioBridgeCommandId),
    CommandChannelClosed(StudioBridgeCommandId),
}

} // verus!

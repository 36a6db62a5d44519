//! The tool fabric the daemon starts with: Lattice's own workspace tools, the
//! planned integrations shown as unavailable, and one Studio MCP provider per
//! resolved Studio environment.
use vstd::prelude::*;
use vstd::utf8::encode_utf8;
use crate::catalog::{ImportedTool, ToolCatalog};
use crate::fabric::{read_only_semantics, AuthenticationState, CapabilityBinding, CapabilityDefinition, CapabilityRegistry,
    CapabilityTarget, OperationSemantics, ProviderConnectionState, ProviderDescriptor, ProviderHealth, ProviderHealthStatus,
    ProviderKind, ProviderMetadata, ProviderRegistry, ProviderTransportKind, ProviderTrust, ReportedSemantics, SemanticTruth,
    ToolTrust};
use crate::hex::hex_of;
use crate::json::{items_too_deep, member_too_deep, members_too_deep, too_deep, JsonNumber, JsonValue, MAX_SCHEMA_DEPTH};
use crate::catalog::{blank, first_fault, schema_fault, tool_fault};
use crate::northbound::is_white_space;
use crate::platform::model::{env_prefix, StudioEnvironment, StudioEnvironmentId};
use crate::resource::ContentHash;
use crate::text::{chars_of, push_str, string_from_chars};
use crate::tools::{stable_key_id, CapabilityId, ProviderId, ToolFabricError};

verus! {

/// The version the built-in providers report: this library's.
pub const PROVIDER_VERSION: &'static str = "0.1.0";

fn owned(s: &str) -> (r: String)
    ensures
        r@ == s@,
{
    string_from_chars(chars_of(s).as_slice())
}

/// A provider descriptor with the given parts and an otherwise empty health
/// record.
pub open spec fn provider_shape(
    d: ProviderDescriptor,
    key: Seq<char>,
    kind: ProviderKind,
    name: Seq<char>,
    transport: ProviderTransportKind,
    state: ProviderConnectionState,
    status: ProviderHealthStatus,
    reason: Seq<char>,
    environment: Option<StudioEnvironmentId>,
) -> bool {
    &&& d.id@ == stable_key_id(encode_utf8(key))
    &&& d.kind == kind
    &&& d.name@ == name
    &&& (d.version matches Some(v) && v@ == PROVIDER_VERSION@)
    &&& d.trust == ProviderTrust::BuiltIn
    &&& d.transport == transport
    &&& d.health.status == status
    &&& d.health.reason@ == reason
    &&& d.health.last_successful_operation_unix_ms is None
    &&& d.health.last_failure is None
    &&& d.health.rtt_micros is None
    &&& d.health.consecutive_failures == 0
    &&& d.health.connected_at_unix_ms is None
    &&& d.health.resource_count == 0
    &&& d.health.authentication == AuthenticationState::NotRequired
    &&& d.health.connection_state == state
    &&& d.metadata.source@ == key
    &&& d.metadata.studio_environment_id == environment
    &&& d.metadata.studio_session_id is None
    &&& d.metadata.configured_priority is None
    &&& d.metadata.protocol is None
}

/// Nothing is known yet of the provider's catalog.
pub open spec fn no_catalog(d: ProviderDescriptor) -> bool {
    d.health.catalog_revision is None && d.health.tool_count == 0
}

/// A built-in provider's descriptor, before anything is known of its catalog.
fn provider_descriptor(
    key: &str,
    kind: ProviderKind,
    name: &str,
    transport: ProviderTransportKind,
    state: ProviderConnectionState,
    status: ProviderHealthStatus,
    reason: &str,
    environment: Option<StudioEnvironmentId>,
) -> (d: ProviderDescriptor)
    ensures
        provider_shape(d, key@, kind, name@, transport, state, status, reason@, environment),
        no_catalog(d),
{
    ProviderDescriptor {
        id: ProviderId::from_stable_key(key.as_bytes()),
        kind,
        name: owned(name),
        version: Some(owned(PROVIDER_VERSION)),
        trust: ProviderTrust::BuiltIn,
        transport,
        health: ProviderHealth {
            status,
            reason: owned(reason),
            last_successful_operation_unix_ms: None,
            last_failure: None,
            rtt_micros: None,
            consecutive_failures: 0,
            connected_at_unix_ms: None,
            catalog_revision: None,
            tool_count: 0,
            resource_count: 0,
            authentication: AuthenticationState::NotRequired,
            connection_state: state,
        },
        metadata: ProviderMetadata {
            source: owned(key),
            studio_environment_id: environment,
            studio_session_id: None,
            configured_priority: None,
            protocol: None,
        },
    }
}

/// An object is not too deep where its members' values are not, one level down.
proof fn lemma_object_depth(members: Seq<(String, JsonValue)>, depth: nat)
    requires
        depth <= MAX_SCHEMA_DEPTH,
        forall|i: int| 0 <= i < members.len() ==> !too_deep(#[trigger] members[i].1, depth + 1),
    ensures
        !members_too_deep(members, members.len() as int, depth + 1),
    decreases members.len(),
{
    lemma_members_prefix(members, members.len() as int, depth + 1);
}

proof fn lemma_members_prefix(members: Seq<(String, JsonValue)>, n: int, depth: nat)
    requires
        0 <= n <= members.len(),
        forall|i: int| 0 <= i < members.len() ==> !too_deep(#[trigger] members[i].1, depth),
    ensures
        !members_too_deep(members, n, depth),
    decreases n,
{
    if n > 0 {
        lemma_members_prefix(members, n - 1, depth);
        assert(!too_deep(members[n - 1].1, depth));
        assert(!member_too_deep(members[n - 1], depth));
    }
}

proof fn lemma_items_prefix(items: Seq<JsonValue>, n: int, depth: nat)
    requires
        0 <= n <= items.len(),
        forall|i: int| 0 <= i < items.len() ==> !too_deep(#[trigger] items[i], depth),
    ensures
        !items_too_deep(items, n, depth),
    decreases n,
{
    if n > 0 {
        lemma_items_prefix(items, n - 1, depth);
    }
}

/// `"type":"object"` and `"additionalProperties":false`, with the keys in
/// serde_json's order.
fn empty_object_schema() -> (r: JsonValue)
    ensures
        r is Object,
        !too_deep(r, 0),
{
    let r = JsonValue::Object(vec![
        (owned("additionalProperties"), JsonValue::Bool(false)),
        (owned("type"), JsonValue::String(owned("object"))),
    ]);
    proof {
        let m = r->Object_0@;
        assert forall|i: int| 0 <= i < m.len() implies !too_deep(#[trigger] m[i].1, 1) by {}
        lemma_object_depth(m, 0);
    }
    r
}

fn integer(text: &str) -> (r: JsonValue)
    ensures
        r is Number,
        r->Number_0.text@ == text@,
        r->Number_0.integral,
{
    JsonValue::Number(JsonNumber { text: owned(text), integral: true })
}

/// The schema of the workspace search: a required string query and an
/// optional integer limit between 1 and 50.
fn search_schema() -> (r: JsonValue)
    ensures
        r is Object,
        !too_deep(r, 0),
{
    let limit = JsonValue::Object(vec![
        (owned("maximum"), integer("50")),
        (owned("minimum"), integer("1")),
        (owned("type"), JsonValue::String(owned("integer"))),
    ]);
    proof {
        let m = limit->Object_0@;
        assert forall|i: int| 0 <= i < m.len() implies !too_deep(#[trigger] m[i].1, 3) by {}
        lemma_object_depth(m, 2);
        assert(!too_deep(limit, 2));
    }
    let query = JsonValue::Object(vec![(owned("type"), JsonValue::String(owned("string")))]);
    proof {
        let m = query->Object_0@;
        assert forall|i: int| 0 <= i < m.len() implies !too_deep(#[trigger] m[i].1, 3) by {}
        lemma_object_depth(m, 2);
        assert(!too_deep(query, 2));
    }
    let properties = JsonValue::Object(vec![(owned("limit"), limit), (owned("query"), query)]);
    proof {
        let m = properties->Object_0@;
        assert forall|i: int| 0 <= i < m.len() implies !too_deep(#[trigger] m[i].1, 2) by {}
        lemma_object_depth(m, 1);
        assert(!too_deep(properties, 1));
    }
    let required = JsonValue::Array(vec![JsonValue::String(owned("query"))]);
    proof {
        let items = required->Array_0@;
        assert forall|i: int| 0 <= i < items.len() implies !too_deep(#[trigger] items[i], 2) by {}
        lemma_items_prefix(items, items.len() as int, 2);
        assert(!too_deep(required, 1));
    }
    let r = JsonValue::Object(vec![
        (owned("additionalProperties"), JsonValue::Bool(false)),
        (owned("properties"), properties),
        (owned("required"), required),
        (owned("type"), JsonValue::String(owned("object"))),
    ]);
    proof {
        let m = r->Object_0@;
        assert forall|i: int| 0 <= i < m.len() implies !too_deep(#[trigger] m[i].1, 1) by {}
        lemma_object_depth(m, 0);
    }
    r
}

/// A Lattice-owned, read-only, deterministic tool.
fn builtin_tool(native_name: &str, title: &str, capability: CapabilityId, input_schema: JsonValue) -> (r: ImportedTool)
    ensures
        r.native_name@ == native_name@,
        r.title matches Some(t) && t@ == title@,
        r.verified_semantics == read_only_semantics_spec(),
        r.trust == ToolTrust::BuiltIn,
        r.capabilities@.len() == 1 && r.capabilities@[0].capability@ == capability@
            && r.capabilities@[0].target == CapabilityTarget::Any,
        r.input_schema == input_schema,
        r.output_schema is None,
{
    ImportedTool {
        native_name: owned(native_name),
        title: Some(owned(title)),
        provider_description: Some(owned("Lattice-owned deterministic operation")),
        input_schema,
        output_schema: None,
        capabilities: vec![CapabilityBinding { capability, target: CapabilityTarget::Any }],
        verified_semantics: read_only_semantics(),
        reported_semantics: ReportedSemantics {
            read_only_hint: Some(true),
            destructive_hint: Some(false),
            idempotent_hint: Some(true),
            open_world_hint: Some(false),
        },
        trust: ToolTrust::BuiltIn,
    }
}

pub open spec fn read_only_semantics_spec() -> OperationSemantics {
    OperationSemantics {
        read_only: SemanticTruth::KnownTrue,
        mutating: SemanticTruth::KnownFalse,
        destructive: SemanticTruth::KnownFalse,
        idempotent: SemanticTruth::KnownTrue,
        open_world: SemanticTruth::KnownFalse,
        network_access: SemanticTruth::KnownFalse,
        filesystem_access: SemanticTruth::KnownTrue,
        code_execution: SemanticTruth::KnownFalse,
        credential_use: SemanticTruth::KnownFalse,
        transaction_support: SemanticTruth::KnownFalse,
    }
}

/// The key of the Studio MCP provider of an environment.
pub open spec fn studio_key(e: StudioEnvironment) -> Seq<char> {
    "studio:"@ + env_prefix() + hex_of(e.id.0@)
}

pub open spec fn studio_state(e: StudioEnvironment) -> ProviderConnectionState {
    if e.mcp_launcher is Some { ProviderConnectionState::Configured } else { ProviderConnectionState::Unavailable }
}

pub open spec fn studio_reason(e: StudioEnvironment) -> Seq<char> {
    if e.mcp_launcher is Some {
        "Studio MCP launch specification is resolved; lazy connection is not open"@
    } else {
        "Studio environment is resolved, but no MCP launch specification is available"@
    }
}

/// Some entry is the Studio MCP provider of the environment.
pub open spec fn has_studio_provider(entries: Seq<ProviderDescriptor>, e: StudioEnvironment) -> bool {
    exists|d: ProviderDescriptor| entries.contains(d) && #[trigger] provider_shape(d, studio_key(e), ProviderKind::McpStdio,
        "Roblox Studio MCP"@, ProviderTransportKind::Stdio, studio_state(e), ProviderHealthStatus::Unavailable, studio_reason(e),
        Some(e.id)) && no_catalog(d)
}

/// Some entry is the built-in provider of a planned, not yet available integration.
pub open spec fn has_planned_provider(entries: Seq<ProviderDescriptor>, key: Seq<char>, name: Seq<char>, reason: Seq<char>) -> bool {
    exists|d: ProviderDescriptor| entries.contains(d) && #[trigger] provider_shape(d, key, ProviderKind::NativeAdapter, name,
        ProviderTransportKind::NativeAdapter, ProviderConnectionState::Unavailable, ProviderHealthStatus::Unavailable, reason, None)
        && no_catalog(d)
}

/// The core provider is registered, healthy, with its catalog's revision
/// and two tools.
pub open spec fn has_core_provider(entries: Seq<ProviderDescriptor>, catalog: ToolCatalog) -> bool {
    exists|d: ProviderDescriptor| entries.contains(d) && #[trigger] provider_shape(d, "builtin:lattice-core"@, ProviderKind::BuiltIn,
        "Lattice Core"@, ProviderTransportKind::InProcess, ProviderConnectionState::Connected, ProviderHealthStatus::Healthy,
        "built-in workspace services are available"@, None)
        && d.health.tool_count == 2 && d.health.catalog_revision == catalog.revision_spec(d.id@)
}

/// Lattice's own providers, capabilities and catalog.
pub struct BuiltinToolFabric {
    pub providers: ProviderRegistry,
    pub catalog: ToolCatalog,
    pub capabilities: CapabilityRegistry,
}

/// What a registration keeps: every entry there was before.
proof fn lemma_keeps(before: Seq<ProviderDescriptor>, after: Seq<ProviderDescriptor>)
    requires
        forall|i: int| 0 <= i < before.len() ==> after.contains(#[trigger] before[i]),
    ensures
        forall|d: ProviderDescriptor| before.contains(d) ==> #[trigger] after.contains(d),
{
}

impl BuiltinToolFabric {
    /// Registers only what the current build implements: the workspace status
    /// and search capabilities and tools of the core provider; Git and the
    /// Flight Recorder stay visible but unavailable; each resolved Studio
    /// environment gets a Studio MCP provider, configured when a launch
    /// specification was resolved. Two providers with one identity refuse the
    /// whole fabric.
    pub fn from_environments(environments: &[StudioEnvironment]) -> (r: Result<BuiltinToolFabric, ToolFabricError>)
        ensures
            r matches Ok(f) ==> {
                &&& f.providers.well_formed()
                &&& f.catalog.wf()
                &&& f.capabilities.well_formed()
                &&& f.providers.entries().len() == environments@.len() + 3
                &&& has_core_provider(f.providers.entries(), f.catalog)
                &&& has_planned_provider(f.providers.entries(), "builtin:git"@, "Git"@,
                    "git2 integration is not implemented in the current repository"@)
                &&& has_planned_provider(f.providers.entries(), "builtin:trace"@, "Flight Recorder"@,
                    "Flight Recorder is not implemented in the current repository"@)
                &&& forall|e: int| 0 <= e < environments@.len() ==> has_studio_provider(f.providers.entries(), #[trigger] environments@[e])
                &&& f.capabilities.entries().len() == 2
            },
            r matches Err(e) ==> e is ProviderAlreadyRegistered || e is SchemaTooLarge || e is InvalidCapabilityId
                || e is CapabilityAlreadyRegistered,
    {
        let mut providers = ProviderRegistry::new();
        let mut catalog = ToolCatalog::new();
        let mut capabilities = CapabilityRegistry::new();

        let workspace_status = match CapabilityId::parse("lattice:workspace.status@1") {
            Ok(c) => c,
            Err(e) => { return Err(e); },
        };
        let workspace_search = match CapabilityId::parse("lattice:workspace.search@1") {
            Ok(c) => c,
            Err(e) => { return Err(e); },
        };
        match capabilities.register(CapabilityDefinition {
            id: workspace_status.duplicate(),
            meaning: owned("Read the active canonical workspace status"),
            input_contract: owned("empty object"),
            output_contract: owned("workspace identity and index revision"),
            side_effects: read_only_semantics(),
        }) {
            Ok(()) => {},
            Err(e) => { return Err(e); },
        }
        match capabilities.register(CapabilityDefinition {
            id: workspace_search.duplicate(),
            meaning: owned("Search the canonical workspace index"),
            input_contract: owned("query and bounded result limit"),
            output_contract: owned("compact resource references and evidence"),
            side_effects: read_only_semantics(),
        }) {
            Ok(()) => {},
            Err(e) => { return Err(e); },
        }

        let core = provider_descriptor("builtin:lattice-core", ProviderKind::BuiltIn, "Lattice Core",
            ProviderTransportKind::InProcess, ProviderConnectionState::Connected, ProviderHealthStatus::Healthy,
            "built-in workspace services are available", None);
        let core_id = core.id;
        let ghost core_g = core;
        match providers.register(core) {
            Ok(()) => {},
            Err(e) => { return Err(e); },
        }
        let tools = vec![
            builtin_tool("lattice.workspace.status", "Workspace Status", workspace_status, empty_object_schema()),
            builtin_tool("lattice.search", "Workspace Search", workspace_search, search_schema()),
        ];
        proof {
            reveal_strlit("lattice.workspace.status");
            reveal_strlit("lattice.search");
            assert(!is_white_space(tools@[0].native_name@[0]));
            assert(!is_white_space(tools@[1].native_name@[0]));
            assert(!blank(tools@[0].native_name@));
            assert(!blank(tools@[1].native_name@));
            assert(tools@[1].native_name@.len() != tools@[0].native_name@.len());
            assert(first_fault(tools@, 0) is None);
            assert(first_fault(tools@, 1) == tool_fault(tools@, 0));
            assert(first_fault(tools@, 2) is None || first_fault(tools@, 2) matches Some(ToolFabricError::SchemaTooLarge(_)));
        }
        let refresh = match catalog.refresh_provider(core_id, tools) {
            Ok(r) => r,
            Err(e) => {
                return Err(e);
            },
        };
        let health = ProviderHealth {
            status: ProviderHealthStatus::Healthy,
            reason: owned("built-in workspace services are available"),
            last_successful_operation_unix_ms: None,
            last_failure: None,
            rtt_micros: None,
            consecutive_failures: 0,
            connected_at_unix_ms: None,
            catalog_revision: Some(refresh.catalog_revision),
            tool_count: 2,
            resource_count: 0,
            authentication: AuthenticationState::NotRequired,
            connection_state: ProviderConnectionState::Connected,
        };
        let ghost health_g = health;
        let ghost registered = providers.entries();
        match providers.update_health(core_id, health) {
            Ok(()) => {},
            Err(e) => { return Err(e); },
        }
        proof {
            let i = choose|i: int| 0 <= i < registered.len() && registered[i] == core_g;
            let updated = ProviderDescriptor { health: health_g, ..core_g };
            assert(providers.entries()[i] == updated);
            assert(providers.entries().contains(updated));
            assert(provider_shape(updated, "builtin:lattice-core"@, ProviderKind::BuiltIn,
                "Lattice Core"@, ProviderTransportKind::InProcess, ProviderConnectionState::Connected, ProviderHealthStatus::Healthy,
                "built-in workspace services are available"@, None));
            assert(has_core_provider(providers.entries(), catalog));
        }
        let git = provider_descriptor("builtin:git", ProviderKind::NativeAdapter, "Git", ProviderTransportKind::NativeAdapter,
            ProviderConnectionState::Unavailable, ProviderHealthStatus::Unavailable,
            "git2 integration is not implemented in the current repository", None);
        let ghost git_g = git;
        let ghost before_git = providers.entries();
        match providers.register(git) {
            Ok(()) => {},
            Err(e) => { return Err(e); },
        }
        proof {
            lemma_keeps(before_git, providers.entries());
            assert(has_core_provider(providers.entries(), catalog));
        }
        let trace = provider_descriptor("builtin:trace", ProviderKind::NativeAdapter, "Flight Recorder",
            ProviderTransportKind::NativeAdapter, ProviderConnectionState::Unavailable, ProviderHealthStatus::Unavailable,
            "Flight Recorder is not implemented in the current repository", None);
        let ghost trace_g = trace;
        let ghost before_trace = providers.entries();
        match providers.register(trace) {
            Ok(()) => {},
            Err(e) => { return Err(e); },
        }
        proof {
            lemma_keeps(before_trace, providers.entries());
            assert(has_core_provider(providers.entries(), catalog));
            assert(has_planned_provider(providers.entries(), "builtin:git"@, "Git"@,
                "git2 integration is not implemented in the current repository"@));
            assert(has_planned_provider(providers.entries(), "builtin:trace"@, "Flight Recorder"@,
                "Flight Recorder is not implemented in the current repository"@));
        }
        let mut e: usize = 0;
        while e < environments.len()
            invariant
                e <= environments@.len(),
                providers.well_formed(),
                providers.entries().len() == e + 3,
                catalog.wf(),
                capabilities.well_formed(),
                capabilities.entries().len() == 2,
                has_core_provider(providers.entries(), catalog),
                has_planned_provider(providers.entries(), "builtin:git"@, "Git"@,
                    "git2 integration is not implemented in the current repository"@),
                has_planned_provider(providers.entries(), "builtin:trace"@, "Flight Recorder"@,
                    "Flight Recorder is not implemented in the current repository"@),
                forall|x: int| 0 <= x < e ==> has_studio_provider(providers.entries(), #[trigger] environments@[x]),
            decreases environments@.len() - e,
        {
            let environment = &environments[e];
            let mut key: Vec<char> = Vec::new();
            push_str(&mut key, "studio:");
            push_str(&mut key, environment.id.to_text().as_str());
            let key_text = string_from_chars(key.as_slice());
            let configured = environment.mcp_launcher.is_some();
            let state = if configured { ProviderConnectionState::Configured } else { ProviderConnectionState::Unavailable };
            let reason = if configured {
                "Studio MCP launch specification is resolved; lazy connection is not open"
            } else {
                "Studio environment is resolved, but no MCP launch specification is available"
            };
            let studio = provider_descriptor(key_text.as_str(), ProviderKind::McpStdio, "Roblox Studio MCP",
                ProviderTransportKind::Stdio, state, ProviderHealthStatus::Unavailable, reason, Some(environment.id));
            let ghost studio_g = studio;
            let ghost before = providers.entries();
            match providers.register(studio) {
                Ok(()) => {},
                Err(err) => { return Err(err); },
            }
            proof {
                assert(key@ =~= studio_key(*environment));
                assert(*environment == environments@[e as int]);
                assert(provider_shape(studio_g, studio_key(environments@[e as int]), ProviderKind::McpStdio,
                    "Roblox Studio MCP"@, ProviderTransportKind::Stdio, studio_state(environments@[e as int]),
                    ProviderHealthStatus::Unavailable, studio_reason(environments@[e as int]), Some(environments@[e as int].id)));
                assert(has_studio_provider(providers.entries(), environments@[e as int]));
                lemma_keeps(before, providers.entries());
                assert forall|x: int| 0 <= x < e + 1 implies has_studio_provider(providers.entries(), #[trigger] environments@[x]) by {
                    if x < e {
                        assert(has_studio_provider(before, environments@[x]));
                    }
                }
            }
            e = e + 1;
        }
        Ok(BuiltinToolFabric { providers, catalog, capabilities })
    }
}

} // verus!

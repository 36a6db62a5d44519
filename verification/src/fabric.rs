//! Provider and tool descriptions, the registries that hold them, and the
//! deterministic router.
use vstd::prelude::*;
use crate::order::{byte_ints, bytes_less, char_ints, chars_less, lemma_lex_asymmetric, lemma_lex_total, lemma_lex_transitive, lemma_sorted_position, lex_less};
use crate::platform::model::StudioEnvironmentId;
use crate::resource::{ContentHash, LatticeId};
use crate::text::chars_of;
use crate::tools::{CapabilityId, ProviderId, ProviderResourceId, ToolFabricError, ToolId, ToolRef};
use crate::catalog::ToolCatalog;

verus! {

#[derive(Clone, Copy, Debug, Eq, PartialEq, Structural)]
pub enum ProviderKind { BuiltIn, McpStdio, McpHttp, NativeAdapter, Unknown }

#[derive(Clone, Copy, Debug, Eq, PartialEq, Structural)]
pub enum ProviderTrust { BuiltIn, Verified, UserConfigured, Untrusted }

#[derive(Clone, Copy, Debug, Eq, PartialEq, Structural)]
pub enum ProviderTransportKind { InProcess, Stdio, StreamableHttp, NativeAdapter, Unknown }

#[derive(Clone, Copy, Debug, Eq, PartialEq, Structural)]
pub enum ProviderConnectionState {
    Configured, Unavailable, Discovering, Connecting, Initializing, Connected, Degraded, Reconnecting, Disconnected, Failed, Disabled,
}

#[derive(Clone, Copy, Debug, Eq, PartialEq, Structural)]
pub enum ProviderHealthStatus { Healthy, Degraded, Unavailable, Failed }

#[derive(Clone, Copy, Debug, Eq, PartialEq, Structural)]
pub enum AuthenticationState { NotRequired, Required, Authenticated, Failed, Unknown }

#[derive(Clone, Debug, Eq, PartialEq)]
pub struct ProviderHealth {
    pub status: ProviderHealthStatus,
    pub reason: String,
    pub last_successful_operation_unix_ms: Option<i64>,
    pub last_failure: Option<String>,
    pub rtt_micros: Option<u64>,
    pub consecutive_failures: u64,
    pub connected_at_unix_ms: Option<i64>,
    pub catalog_revision: Option<ContentHash>,
    pub tool_count: u64,
    pub resource_count: u64,
    pub authentication: AuthenticationState,
    pub connection_state: ProviderConnectionState,
}

#[derive(Clone, Debug, Eq, PartialEq)]
pub struct ProviderMetadata {
    pub source: String,
    pub studio_environment_id: Option<StudioEnvironmentId>,
    pub studio_session_id: Option<LatticeId>,
    pub configured_priority: Option<i32>,
    pub protocol: Option<ProviderProtocolMetadata>,
}

/// Protocol details are descriptive provider state, not an authorization input.
#[derive(Clone, Debug, Eq, PartialEq)]
pub struct ProviderProtocolMetadata {
    pub family: String,
    pub revision: String,
    pub negotiation: String,
    pub session_model: String,
    pub cancellation_model: String,
    pub catalog_change_model: String,
    pub fallback_reason: Option<String>,
}

#[derive(Clone, Debug, Eq, PartialEq)]
pub struct ProviderDescriptor {
    pub id: ProviderId,
    pub kind: ProviderKind,
    pub name: String,
    pub version: Option<String>,
    pub trust: ProviderTrust,
    pub transport: ProviderTransportKind,
    pub health: ProviderHealth,
    pub metadata: ProviderMetadata,
}

#[derive(Clone, Copy, Debug, Eq, PartialEq, Structural)]
pub enum SemanticTruth { KnownTrue, KnownFalse, Unknown }

#[derive(Clone, Copy, Debug, Eq, PartialEq, Structural)]
pub struct OperationSemantics {
    pub read_only: SemanticTruth,
    pub mutating: SemanticTruth,
    pub destructive: SemanticTruth,
    pub idempotent: SemanticTruth,
    pub open_world: SemanticTruth,
    pub network_access: SemanticTruth,
    pub filesystem_access: SemanticTruth,
    pub code_execution: SemanticTruth,
    pub credential_use: SemanticTruth,
    pub transaction_support: SemanticTruth,
}

impl OperationSemantics {
    /// Nothing is known of the operation's effects.
    pub fn unknown() -> (r: OperationSemantics)
        ensures
            r == (OperationSemantics {
                read_only: SemanticTruth::Unknown, mutating: SemanticTruth::Unknown, destructive: SemanticTruth::Unknown,
                idempotent: SemanticTruth::Unknown, open_world: SemanticTruth::Unknown, network_access: SemanticTruth::Unknown,
                filesystem_access: SemanticTruth::Unknown, code_execution: SemanticTruth::Unknown,
                credential_use: SemanticTruth::Unknown, transaction_support: SemanticTruth::Unknown,
            }),
    {
        OperationSemantics {
            read_only: SemanticTruth::Unknown,
            mutating: SemanticTruth::Unknown,
            destructive: SemanticTruth::Unknown,
            idempotent: SemanticTruth::Unknown,
            open_world: SemanticTruth::Unknown,
            network_access: SemanticTruth::Unknown,
            filesystem_access: SemanticTruth::Unknown,
            code_execution: SemanticTruth::Unknown,
            credential_use: SemanticTruth::Unknown,
            transaction_support: SemanticTruth::Unknown,
        }
    }
}

/// The verified effects of a read-only operation over the file system.
pub fn read_only_semantics() -> (r: OperationSemantics)
    ensures
        r == (OperationSemantics {
            read_only: SemanticTruth::KnownTrue, mutating: SemanticTruth::KnownFalse, destructive: SemanticTruth::KnownFalse,
            idempotent: SemanticTruth::KnownTrue, open_world: SemanticTruth::KnownFalse, network_access: SemanticTruth::KnownFalse,
            filesystem_access: SemanticTruth::KnownTrue, code_execution: SemanticTruth::KnownFalse,
            credential_use: SemanticTruth::KnownFalse, transaction_support: SemanticTruth::KnownFalse,
        }),
{
    OperationSemantics {
        read_only: SemanticTruth::KnownTrue,
        mutating: SemanticTruth::KnownFalse,
        destructive: SemanticTruth::KnownFalse,
        idempotent: SemanticTruth::KnownTrue,
        open_world: SemanticTruth::KnownFalse,
        network_access: SemanticTruth::KnownFalse,
        filesystem_access: SemanticTruth::KnownTrue,
        code_execution: SemanticTruth::KnownFalse,
        credential_use: SemanticTruth::KnownFalse,
        transaction_support: SemanticTruth::KnownFalse,
    }
}

/// What a provider reports of an operation; hints only, never authority.
#[derive(Clone, Copy, Debug, Eq, PartialEq)]
pub struct ReportedSemantics {
    pub read_only_hint: Option<bool>,
    pub destructive_hint: Option<bool>,
    pub idempotent_hint: Option<bool>,
    pub open_world_hint: Option<bool>,
}

/// The identity of a normalized schema.
#[derive(Clone, Copy, Debug, Eq, Hash, Ord, PartialEq, PartialOrd)]
pub struct SchemaRevision(pub ContentHash);

#[derive(Clone, Copy, Debug, Eq, PartialEq, Structural)]
pub enum SchemaValidationState { Valid, Quarantined }

#[derive(Clone, Debug, Eq, PartialEq)]
pub struct CapabilityBinding {
    pub capability: CapabilityId,
    pub target: CapabilityTarget,
}

#[derive(Clone, Copy, Debug, Eq, PartialEq)]
pub enum CapabilityTarget {
    Any,
    StudioSession { session_id: LatticeId },
    StudioEnvironment { environment_id: StudioEnvironmentId },
    CloudPlace { universe_id: u64, place_id: u64 },
    Workspace { workspace_id: LatticeId },
}

/// Two targets name the same thing.
pub open spec fn same_target(a: CapabilityTarget, b: CapabilityTarget) -> bool {
    match (a, b) {
        (CapabilityTarget::Any, CapabilityTarget::Any) => true,
        (CapabilityTarget::StudioSession { session_id: x }, CapabilityTarget::StudioSession { session_id: y }) => x@ == y@,
        (CapabilityTarget::StudioEnvironment { environment_id: x }, CapabilityTarget::StudioEnvironment { environment_id: y }) => x.0@ == y.0@,
        (CapabilityTarget::CloudPlace { universe_id: u1, place_id: p1 }, CapabilityTarget::CloudPlace { universe_id: u2, place_id: p2 }) =>
            u1 == u2 && p1 == p2,
        (CapabilityTarget::Workspace { workspace_id: x }, CapabilityTarget::Workspace { workspace_id: y }) => x@ == y@,
        _ => false,
    }
}

/// A binding serves a request for the same target, or for any target when
/// the binding is unconstrained.
pub open spec fn target_matches_spec(binding: CapabilityTarget, requested: CapabilityTarget) -> bool {
    same_target(binding, requested) || binding is Any
}

pub fn target_matches(binding: &CapabilityTarget, requested: &CapabilityTarget) -> (r: bool)
    ensures
        r == target_matches_spec(*binding, *requested),
{
    let same = match (binding, requested) {
        (CapabilityTarget::Any, CapabilityTarget::Any) => true,
        (CapabilityTarget::StudioSession { session_id: x }, CapabilityTarget::StudioSession { session_id: y }) => x.same(y),
        (CapabilityTarget::StudioEnvironment { environment_id: x }, CapabilityTarget::StudioEnvironment { environment_id: y }) => x.same(y),
        (CapabilityTarget::CloudPlace { universe_id: u1, place_id: p1 }, CapabilityTarget::CloudPlace { universe_id: u2, place_id: p2 }) =>
            *u1 == *u2 && *p1 == *p2,
        (CapabilityTarget::Workspace { workspace_id: x }, CapabilityTarget::Workspace { workspace_id: y }) => x.same(y),
        _ => false,
    };
    same || matches!(binding, CapabilityTarget::Any)
}

#[derive(Clone, Copy, Debug, Eq, PartialEq, Structural)]
pub enum ToolTrust { BuiltIn, Verified, UserConfigured, Untrusted }

#[derive(Clone, Copy, Debug, Eq, PartialEq, Structural)]
pub enum ToolAvailability { Available, Stale, Unavailable, Quarantined }

#[derive(Clone, Debug, Eq, PartialEq)]
pub struct ToolDescriptor {
    pub id: ToolId,
    pub provider_id: ProviderId,
    pub native_name: String,
    pub title: Option<String>,
    /// Untrusted provider-supplied data, never policy authority.
    pub provider_description: Option<String>,
    pub input_schema: SchemaRevision,
    pub output_schema: Option<SchemaRevision>,
    pub capabilities: Vec<CapabilityBinding>,
    pub verified_semantics: OperationSemantics,
    pub reported_semantics: ReportedSemantics,
    pub trust: ToolTrust,
    pub availability: ToolAvailability,
}

impl ToolDescriptor {
    pub fn reference(&self) -> (r: ToolRef)
        ensures
            r == (ToolRef { provider_id: self.provider_id, tool_id: self.id }),
    {
        ToolRef { provider_id: self.provider_id, tool_id: self.id }
    }
}

#[derive(Clone, Debug, Eq, PartialEq)]
pub struct ProviderResourceDescriptor {
    pub id: ProviderResourceId,
    pub provider_id: ProviderId,
    /// Original provider URI is metadata and is never concatenated into a URI.
    pub original_uri: String,
    pub name: String,
    pub mime_type: Option<String>,
    pub availability: ToolAvailability,
}

#[derive(Clone, Debug, Eq, PartialEq)]
pub struct CatalogRefresh {
    pub provider_id: ProviderId,
    pub catalog_revision: ContentHash,
    pub added: Vec<ToolId>,
    pub schema_changed: Vec<ToolId>,
    pub removed: Vec<ToolId>,
    pub unchanged: Vec<ToolId>,
}

#[derive(Clone, Debug, Eq, PartialEq)]
pub struct CapabilityDefinition {
    pub id: CapabilityId,
    pub meaning: String,
    pub input_contract: String,
    pub output_contract: String,
    pub side_effects: OperationSemantics,
}

#[derive(Clone, Copy, Debug, Eq, PartialEq, Structural)]
pub enum OperationState { Queued, Validating, WaitingForPolicy, Executing, Succeeded, Failed, Cancelled, TimedOut }

} // verus!

verus! {

pub open spec fn provider_key(d: ProviderDescriptor) -> Seq<int> {
    byte_ints(d.id@)
}

pub open spec fn provider_keys(s: Seq<ProviderDescriptor>) -> Seq<Seq<int>> {
    Seq::new(s.len(), |i: int| provider_key(s[i]))
}

/// The registered providers, one per identity, in identity order.
pub struct ProviderRegistry {
    providers: Vec<ProviderDescriptor>,
}

pub proof fn lemma_byte_ints_injective(a: Seq<u8>, b: Seq<u8>)
    requires
        byte_ints(a) == byte_ints(b),
    ensures
        a == b,
{
    assert(a.len() == byte_ints(a).len());
    assert(b.len() == byte_ints(b).len());
    assert forall|i: int| 0 <= i < a.len() implies a[i] == b[i] by {
        assert(byte_ints(a)[i] == byte_ints(b)[i]);
        assert(byte_ints(a)[i] == a[i] as int);
        assert(byte_ints(b)[i] == b[i] as int);
    }
    assert(a =~= b);
}

impl ProviderRegistry {
    pub closed spec fn entries(&self) -> Seq<ProviderDescriptor> {
        self.providers@
    }

    pub open spec fn well_formed(&self) -> bool {
        crate::order::strictly_sorted(provider_keys(self.entries()))
    }

    /// A provider with this identity is registered.
    pub open spec fn has(&self, id: ProviderId) -> bool {
        exists|i: int| 0 <= i < self.entries().len() && (#[trigger] self.entries()[i]).id@ == id@
    }

    pub fn new() -> (r: ProviderRegistry)
        ensures
            r.well_formed(),
            r.entries().len() == 0,
    {
        ProviderRegistry { providers: Vec::new() }
    }

    /// The first position whose identity does not order before `id`.
    fn position(&self, id: &ProviderId) -> (pos: usize)
        ensures
            pos <= self.entries().len(),
            forall|k: int| 0 <= k < pos ==> lex_less(#[trigger] provider_keys(self.entries())[k], byte_ints(id@)),
            pos < self.entries().len() ==> !lex_less(provider_keys(self.entries())[pos as int], byte_ints(id@)),
    {
        let key = id.bytes();
        let mut pos: usize = 0;
        while pos < self.providers.len() && bytes_less(&self.providers[pos].id.bytes(), &key)
            invariant
                pos <= self.providers@.len(),
                key@ == id@,
                forall|k: int| 0 <= k < pos ==> lex_less(#[trigger] provider_keys(self.entries())[k], byte_ints(id@)),
            decreases self.providers@.len() - pos,
        {
            pos = pos + 1;
        }
        pos
    }

    /// Registers a provider; an identity can be registered once.
    pub fn register(&mut self, descriptor: ProviderDescriptor) -> (r: Result<(), ToolFabricError>)
        requires
            old(self).well_formed(),
        ensures
            final(self).well_formed(),
            old(self).has(descriptor.id) ==> r == Err::<(), ToolFabricError>(ToolFabricError::ProviderAlreadyRegistered(descriptor.id))
                && final(self).entries() == old(self).entries(),
            !old(self).has(descriptor.id) ==> r is Ok && final(self).entries().len() == old(self).entries().len() + 1
                && final(self).entries().contains(descriptor)
                && forall|i: int| 0 <= i < old(self).entries().len() ==> final(self).entries().contains(#[trigger] old(self).entries()[i]),
    {
        let pos = self.position(&descriptor.id);
        let ghost keys = provider_keys(self.entries());
        proof { lemma_sorted_position(keys, pos as int, byte_ints(descriptor.id@)); }
        if pos < self.providers.len() && self.providers[pos].id.same(&descriptor.id) {
            proof {
                assert(self.entries()[pos as int].id@ == descriptor.id@);
            }
            return Err(ToolFabricError::ProviderAlreadyRegistered(descriptor.id));
        }
        proof {
            assert forall|i: int| 0 <= i < self.entries().len() implies (#[trigger] self.entries()[i]).id@ != descriptor.id@ by {
                if self.entries()[i].id@ == descriptor.id@ {
                    assert(keys[i] == byte_ints(descriptor.id@));
                    if pos < keys.len() && keys[pos as int] == byte_ints(descriptor.id@) {
                        lemma_byte_ints_injective(self.entries()[pos as int].id@, descriptor.id@);
                    }
                }
            }
            if pos < keys.len() && keys[pos as int] == byte_ints(descriptor.id@) {
                lemma_byte_ints_injective(self.entries()[pos as int].id@, descriptor.id@);
            }
        }
        let ghost before = self.providers@;
        let ghost d = descriptor;
        self.providers.insert(pos, descriptor);
        proof {
            assert(provider_keys(self.providers@) =~= keys.insert(pos as int, byte_ints(d.id@)));
            assert(self.providers@[pos as int] == d);
            assert forall|i: int| 0 <= i < before.len() implies self.providers@.contains(#[trigger] before[i]) by {
                if i < pos { assert(self.providers@[i] == before[i]); } else { assert(self.providers@[i + 1] == before[i]); }
            }
        }
        Ok(())
    }

    /// The registered providers in identity order.
    pub fn list(&self) -> (r: Vec<&ProviderDescriptor>)
        ensures
            r@.len() == self.entries().len(),
            forall|i: int| 0 <= i < r@.len() ==> *r@[i] == self.entries()[i],
    {
        let mut out: Vec<&ProviderDescriptor> = Vec::new();
        let mut i: usize = 0;
        while i < self.providers.len()
            invariant
                i <= self.providers@.len(),
                out@.len() == i,
                forall|k: int| 0 <= k < i ==> *out@[k] == self.providers@[k],
            decreases self.providers@.len() - i,
        {
            out.push(&self.providers[i]);
            i = i + 1;
        }
        out
    }

    /// The provider with this identity, if registered.
    pub fn get(&self, id: ProviderId) -> (r: Option<&ProviderDescriptor>)
        ensures
            r is Some <==> self.has(id),
            r matches Some(d) ==> d.id@ == id@ && self.entries().contains(*d),
    {
        let mut i: usize = 0;
        while i < self.providers.len()
            invariant
                i <= self.providers@.len(),
                forall|k: int| 0 <= k < i ==> (#[trigger] self.providers@[k]).id@ != id@,
            decreases self.providers@.len() - i,
        {
            if self.providers[i].id.same(&id) {
                proof { assert(self.entries()[i as int] == self.providers@[i as int]); }
                return Some(&self.providers[i]);
            }
            i = i + 1;
        }
        None
    }

    fn index_of(&self, id: &ProviderId) -> (r: Option<usize>)
        ensures
            r is Some <==> self.has(*id),
            r matches Some(i) ==> i < self.entries().len() && self.entries()[i as int].id@ == id@,
    {
        let mut i: usize = 0;
        while i < self.providers.len()
            invariant
                i <= self.providers@.len(),
                forall|k: int| 0 <= k < i ==> (#[trigger] self.providers@[k]).id@ != id@,
            decreases self.providers@.len() - i,
        {
            if self.providers[i].id.same(id) {
                return Some(i);
            }
            i = i + 1;
        }
        None
    }

    /// Replaces a registered provider's health.
    pub fn update_health(&mut self, id: ProviderId, health: ProviderHealth) -> (r: Result<(), ToolFabricError>)
        requires
            old(self).well_formed(),
        ensures
            final(self).well_formed(),
            !old(self).has(id) ==> r == Err::<(), ToolFabricError>(ToolFabricError::ProviderNotFound(id))
                && final(self).entries() == old(self).entries(),
            old(self).has(id) ==> r is Ok && final(self).entries().len() == old(self).entries().len()
                && forall|i: int| 0 <= i < old(self).entries().len() ==> if (#[trigger] old(self).entries()[i]).id@ == id@ {
                    final(self).entries()[i] == (ProviderDescriptor { health, ..old(self).entries()[i] })
                } else {
                    final(self).entries()[i] == old(self).entries()[i]
                },
    {
        let i = match self.index_of(&id) {
            Some(i) => i,
            None => { return Err(ToolFabricError::ProviderNotFound(id)); },
        };
        let ghost before = self.providers@;
        let ghost h = health;
        let mut entry = self.providers.remove(i);
        entry.health = health;
        self.providers.insert(i, entry);
        proof {
            assert(provider_keys(self.providers@) =~= provider_keys(before));
            assert forall|k: int| 0 <= k < before.len() implies if (#[trigger] before[k]).id@ == id@ {
                self.providers@[k] == (ProviderDescriptor { health: h, ..before[k] })
            } else {
                self.providers@[k] == before[k]
            } by {
                if k != i {
                    if before[k].id@ == id@ {
                        lemma_byte_ints_injective_sorted(before, k, i as int);
                    }
                }
            }
        }
        Ok(())
    }

    /// Replaces a registered provider's description, keeping its health.
    pub fn update_descriptor(&mut self, descriptor: ProviderDescriptor) -> (r: Result<(), ToolFabricError>)
        requires
            old(self).well_formed(),
        ensures
            final(self).well_formed(),
            !old(self).has(descriptor.id) ==> r == Err::<(), ToolFabricError>(ToolFabricError::ProviderNotFound(descriptor.id))
                && final(self).entries() == old(self).entries(),
            old(self).has(descriptor.id) ==> r is Ok && final(self).entries().len() == old(self).entries().len()
                && forall|i: int| 0 <= i < old(self).entries().len() ==> if (#[trigger] old(self).entries()[i]).id@ == descriptor.id@ {
                    final(self).entries()[i] == (ProviderDescriptor { health: old(self).entries()[i].health, ..descriptor })
                } else {
                    final(self).entries()[i] == old(self).entries()[i]
                },
    {
        let i = match self.index_of(&descriptor.id) {
            Some(i) => i,
            None => { return Err(ToolFabricError::ProviderNotFound(descriptor.id)); },
        };
        let ghost before = self.providers@;
        let ghost d = descriptor;
        let current = self.providers.remove(i);
        let mut replacement = descriptor;
        replacement.health = current.health;
        self.providers.insert(i, replacement);
        proof {
            assert(byte_ints(d.id@) == byte_ints(before[i as int].id@));
            assert(provider_keys(self.providers@) =~= provider_keys(before));
            assert forall|k: int| 0 <= k < before.len() implies if (#[trigger] before[k]).id@ == d.id@ {
                self.providers@[k] == (ProviderDescriptor { health: before[k].health, ..d })
            } else {
                self.providers@[k] == before[k]
            } by {
                if k != i {
                    if before[k].id@ == d.id@ {
                        lemma_byte_ints_injective_sorted(before, k, i as int);
                    }
                }
            }
        }
        Ok(())
    }
}

/// In a well-formed registry no two entries share an identity.
proof fn lemma_byte_ints_injective_sorted(s: Seq<ProviderDescriptor>, a: int, b: int)
    requires
        crate::order::strictly_sorted(provider_keys(s)),
        0 <= a < s.len(),
        0 <= b < s.len(),
        s[a].id@ == s[b].id@,
    ensures
        a == b,
{
    let keys = provider_keys(s);
    assert(keys[a] == keys[b]);
    crate::order::lemma_lex_irreflexive(keys[a]);
    if a < b { assert(lex_less(keys[a], keys[b])); } else if b < a { assert(lex_less(keys[b], keys[a])); }
}

} // verus!

verus! {

pub open spec fn capability_keys(s: Seq<CapabilityDefinition>) -> Seq<Seq<int>> {
    Seq::new(s.len(), |i: int| char_ints(s[i].id@))
}

proof fn lemma_char_ints_injective(a: Seq<char>, b: Seq<char>)
    requires
        char_ints(a) == char_ints(b),
    ensures
        a == b,
{
    assert(a.len() == char_ints(a).len());
    assert(b.len() == char_ints(b).len());
    assert forall|i: int| 0 <= i < a.len() implies a[i] == b[i] by {
        assert(char_ints(a)[i] == char_ints(b)[i]);
        assert(char_ints(a)[i] == a[i] as int);
        assert(char_ints(b)[i] == b[i] as int);
    }
    assert(a =~= b);
}

/// The capability definitions, one per identifier, in identifier order.
pub struct CapabilityRegistry {
    definitions: Vec<CapabilityDefinition>,
}

impl CapabilityRegistry {
    pub closed spec fn entries(&self) -> Seq<CapabilityDefinition> {
        self.definitions@
    }

    pub open spec fn well_formed(&self) -> bool {
        crate::order::strictly_sorted(capability_keys(self.entries()))
    }

    pub open spec fn has(&self, id: Seq<char>) -> bool {
        exists|i: int| 0 <= i < self.entries().len() && (#[trigger] self.entries()[i]).id@ == id
    }

    pub fn new() -> (r: CapabilityRegistry)
        ensures
            r.well_formed(),
            r.entries().len() == 0,
    {
        CapabilityRegistry { definitions: Vec::new() }
    }

    /// Registers a definition; an identifier can be defined once.
    pub fn register(&mut self, definition: CapabilityDefinition) -> (r: Result<(), ToolFabricError>)
        requires
            old(self).well_formed(),
        ensures
            final(self).well_formed(),
            old(self).has(definition.id@) ==> (r matches Err(ToolFabricError::CapabilityAlreadyRegistered(x)) && x@ == definition.id@)
                && final(self).entries() == old(self).entries(),
            !old(self).has(definition.id@) ==> r is Ok && final(self).entries().len() == old(self).entries().len() + 1
                && final(self).entries().contains(definition)
                && forall|i: int| 0 <= i < old(self).entries().len() ==> final(self).entries().contains(#[trigger] old(self).entries()[i]),
            !old(self).has(definition.id@) ==> final(self).entries().to_multiset() == old(self).entries().to_multiset().insert(definition),
    {
        let key = chars_of(definition.id.as_str());
        let mut pos: usize = 0;
        while pos < self.definitions.len() && chars_less(chars_of(self.definitions[pos].id.as_str()).as_slice(), key.as_slice())
            invariant
                pos <= self.definitions@.len(),
                key@ == definition.id@,
                forall|k: int| 0 <= k < pos ==> lex_less(#[trigger] capability_keys(self.entries())[k], char_ints(definition.id@)),
            decreases self.definitions@.len() - pos,
        {
            pos = pos + 1;
        }
        let ghost keys = capability_keys(self.entries());
        proof { lemma_sorted_position(keys, pos as int, char_ints(definition.id@)); }
        if pos < self.definitions.len() && self.definitions[pos].id.same(&definition.id) {
            return Err(ToolFabricError::CapabilityAlreadyRegistered(definition.id));
        }
        proof {
            if pos < keys.len() && keys[pos as int] == char_ints(definition.id@) {
                lemma_char_ints_injective(self.entries()[pos as int].id@, definition.id@);
            }
            assert forall|i: int| 0 <= i < self.entries().len() implies (#[trigger] self.entries()[i]).id@ != definition.id@ by {
                if self.entries()[i].id@ == definition.id@ {
                    assert(keys[i] == char_ints(definition.id@));
                }
            }
        }
        let ghost before = self.definitions@;
        let ghost d = definition;
        self.definitions.insert(pos, definition);
        proof {
            crate::order::lemma_insert_to_multiset(before, pos as int, d);
            assert(capability_keys(self.definitions@) =~= keys.insert(pos as int, char_ints(d.id@)));
            assert(self.definitions@[pos as int] == d);
            assert forall|i: int| 0 <= i < before.len() implies self.definitions@.contains(#[trigger] before[i]) by {
                if i < pos { assert(self.definitions@[i] == before[i]); } else { assert(self.definitions@[i + 1] == before[i]); }
            }
        }
        Ok(())
    }

    /// The definitions in identifier order.
    pub fn list(&self) -> (r: Vec<&CapabilityDefinition>)
        ensures
            r@.len() == self.entries().len(),
            forall|i: int| 0 <= i < r@.len() ==> *r@[i] == self.entries()[i],
    {
        let mut out: Vec<&CapabilityDefinition> = Vec::new();
        let mut i: usize = 0;
        while i < self.definitions.len()
            invariant
                i <= self.definitions@.len(),
                out@.len() == i,
                forall|k: int| 0 <= k < i ==> *out@[k] == self.definitions@[k],
            decreases self.definitions@.len() - i,
        {
            out.push(&self.definitions[i]);
            i = i + 1;
        }
        out
    }
}

pub struct RoutingRequest {
    pub capability: CapabilityId,
    pub target: CapabilityTarget,
    pub preferred_provider: Option<ProviderId>,
}

/// Resolves explicitly requested operations to exactly one tool.
pub struct DeterministicRouter;

/// The provider of `tool` is registered and connected (or degraded).
pub open spec fn provider_ready(tool: ToolDescriptor, providers: Seq<ProviderDescriptor>) -> bool {
    exists|i: int| 0 <= i < providers.len() && (#[trigger] providers[i]).id@ == tool.provider_id@
        && (providers[i].health.connection_state == ProviderConnectionState::Connected
            || providers[i].health.connection_state == ProviderConnectionState::Degraded)
}

/// Some binding of the tool offers the capability for the target.
pub open spec fn offers(tool: ToolDescriptor, request: RoutingRequest) -> bool {
    exists|j: int| 0 <= j < tool.capabilities@.len() && (#[trigger] tool.capabilities@[j]).capability@ == request.capability@
        && target_matches_spec(tool.capabilities@[j].target, request.target)
}

/// A tool serves the request: it is available, its provider is ready, it
/// belongs to the preferred provider (if any), and it offers the capability.
pub open spec fn serves(tool: ToolDescriptor, providers: Seq<ProviderDescriptor>, request: RoutingRequest) -> bool {
    &&& tool.availability == ToolAvailability::Available
    &&& provider_ready(tool, providers)
    &&& (request.preferred_provider matches Some(p) ==> tool.provider_id@ == p@)
    &&& offers(tool, request)
}

/// The references of the serving tools, in order.
pub open spec fn serving_refs(tools: Seq<ToolDescriptor>, providers: Seq<ProviderDescriptor>, request: RoutingRequest) -> Seq<ToolRef>
    decreases tools.len(),
{
    if tools.len() == 0 {
        Seq::empty()
    } else if serves(tools.last(), providers, request) {
        serving_refs(tools.drop_last(), providers, request).push(ToolRef { provider_id: tools.last().provider_id, tool_id: tools.last().id })
    } else {
        serving_refs(tools.drop_last(), providers, request)
    }
}

fn tool_offers(tool: &ToolDescriptor, request: &RoutingRequest) -> (r: bool)
    ensures
        r == offers(*tool, *request),
{
    let mut j: usize = 0;
    while j < tool.capabilities.len()
        invariant
            j <= tool.capabilities@.len(),
            forall|k: int| 0 <= k < j ==> !((#[trigger] tool.capabilities@[k]).capability@ == request.capability@
                && target_matches_spec(tool.capabilities@[k].target, request.target)),
        decreases tool.capabilities@.len() - j,
    {
        let b = &tool.capabilities[j];
        if b.capability.same(&request.capability) && target_matches(&b.target, &request.target) {
            return true;
        }
        j = j + 1;
    }
    false
}

impl DeterministicRouter {
    /// The one tool among `tools` that serves the request; no serving tool
    /// makes the capability unavailable, several make it ambiguous.
    pub fn resolve(catalog: &ToolCatalog, providers: &ProviderRegistry, request: &RoutingRequest) -> (r: Result<ToolRef, ToolFabricError>)
        requires
            providers.well_formed(),
        ensures
            ({
                let c = serving_refs(catalog.tools_spec(), providers.entries(), *request);
                &&& c.len() == 0 ==> (r matches Err(ToolFabricError::CapabilityUnavailable(x)) && x@ == request.capability@)
                &&& c.len() == 1 ==> r == Ok::<ToolRef, ToolFabricError>(c[0])
                &&& c.len() > 1 ==> (r matches Err(ToolFabricError::AmbiguousCapability { capability: x, candidates: v })
                    && x@ == request.capability@ && v@ == c)
            }),
    {
        let tools = catalog.tool_list();
        let mut candidates: Vec<ToolRef> = Vec::new();
        let mut i: usize = 0;
        while i < tools.len()
            invariant
                i <= tools@.len(),
                providers.well_formed(),
                candidates@ == serving_refs(tools@.subrange(0, i as int), providers.entries(), *request),
            decreases tools@.len() - i,
        {
            proof {
                assert(tools@.subrange(0, i + 1).drop_last() =~= tools@.subrange(0, i as int));
                assert(tools@.subrange(0, i + 1).last() == tools@[i as int]);
            }
            let tool = &tools[i];
            let ready = match providers.get(tool.provider_id) {
                Some(p) => {
                    proof {
                        if provider_ready(*tool, providers.entries()) {
                            let k = choose|k: int| 0 <= k < providers.entries().len() && (#[trigger] providers.entries()[k]).id@ == tool.provider_id@
                                && (providers.entries()[k].health.connection_state == ProviderConnectionState::Connected
                                    || providers.entries()[k].health.connection_state == ProviderConnectionState::Degraded);
                            let m = choose|m: int| 0 <= m < providers.entries().len() && providers.entries()[m] == *p;
                            lemma_byte_ints_injective_sorted(providers.entries(), k, m);
                        }
                    }
                    p.health.connection_state == ProviderConnectionState::Connected
                        || p.health.connection_state == ProviderConnectionState::Degraded
                },
                None => false,
            };
            let preferred = match request.preferred_provider {
                Some(p) => tool.provider_id.same(&p),
                None => true,
            };
            if tool.availability == ToolAvailability::Available && ready && preferred && tool_offers(tool, request) {
                candidates.push(tool.reference());
            }
            i = i + 1;
        }
        proof { assert(tools@.subrange(0, tools@.len() as int) =~= tools@); }
        if candidates.len() == 0 {
            Err(ToolFabricError::CapabilityUnavailable(request.capability.duplicate()))
        } else if candidates.len() == 1 {
            Ok(candidates[0])
        } else {
            Err(ToolFabricError::AmbiguousCapability { capability: request.capability.duplicate(), candidates })
        }
    }
}

/// A binding for any target serves a request for every target, and a
/// binding for a target serves a request for that same target.
pub proof fn law_any_target_serves_every_request(requested: CapabilityTarget)
    ensures
        target_matches_spec(CapabilityTarget::Any, requested),
        target_matches_spec(requested, requested),
{
}

} // verus!

//! The canonical project and evidence model, and the stable error codes.
use vstd::prelude::*;
use crate::resource::{ContentHash, LatticeId, ResourceRef};
use crate::text::{chars_of, string_from_chars};

verus! {

#[derive(Clone, Copy, Debug, Eq, PartialEq, Structural)]
pub enum EntityKind {
    Project, Place, Instance, Script, ModuleScript, LocalScript, Symbol, Function, Method, Type, Variable,
    RemoteEvent, RemoteFunction, Service, Controller, System, Package, Test,
}

#[derive(Clone, Debug, Eq, PartialEq)]
pub struct Entity {
    pub id: LatticeId,
    pub resource_ref: ResourceRef,
    pub kind: EntityKind,
    pub name: String,
    pub display_path: Option<String>,
    pub revision: u64,
}

#[derive(Clone, Copy, Debug, Eq, PartialEq, Structural)]
pub struct SourcePosition {
    pub line: u32,
    pub column: u32,
}

#[derive(Clone, Copy, Debug, Eq, PartialEq, Structural)]
pub struct SourceSpan {
    pub begin: SourcePosition,
    pub end: SourcePosition,
}

#[derive(Clone, Debug, Eq, PartialEq)]
pub struct SourceUnit {
    pub entity: Entity,
    pub content_hash: ContentHash,
    pub language: String,
    pub byte_len: u64,
}

#[derive(Clone, Copy, Debug, Eq, PartialEq, Structural)]
pub enum EvidenceOrigin {
    StaticAst, TypeAnalysis, GraphRelationship, TextMatch, GitHistory, RuntimeLog, Playtest, OpenCloudExecution,
    UserStatement, SemanticInference,
}

#[derive(Clone, Copy, Debug, Eq, PartialEq, Structural)]
pub enum Confidence {
    Certain,
    Probable,
    Possible,
}

#[derive(Clone, Debug, Eq, PartialEq)]
pub struct Evidence {
    pub id: LatticeId,
    pub kind: String,
    pub resource_ref: ResourceRef,
    pub source_span: Option<SourceSpan>,
    pub revision: u64,
    pub origin: EvidenceOrigin,
    pub confidence: Confidence,
    pub payload_hash: ContentHash,
}

#[derive(Clone, Debug, Eq, PartialEq)]
pub struct SearchHit {
    pub resource_ref: ResourceRef,
    pub display_path: String,
    pub name: String,
    pub score_milli: i64,
    pub content_hash: ContentHash,
    pub evidence: Evidence,
}

#[derive(Clone, Debug, Eq, PartialEq)]
pub struct LatticeErrorBody {
    pub code: ErrorCode,
    pub message: String,
    pub recoverable: bool,
    pub recommended_action: Option<String>,
    pub related_resources: Vec<ResourceRef>,
}

#[derive(Clone, Copy, Debug, Eq, PartialEq, Structural)]
pub enum ErrorCode {
    WorkspaceNotFound,
    ResourceNotFound,
    AmbiguousResource,
    StudioNotConnected,
    StudioCapabilityUnavailable,
    SourceParseFailed,
    SourceChanged,
    RevisionConflict,
    PolicyDenied,
    ChangeSetInvalid,
    ChangeSetConflict,
    ChangeSetApplyFailed,
    RollbackFailed,
    ResultExpired,
    ProviderNotFound,
    ProviderUnavailable,
    ProviderAuthRequired,
    ProviderConnectionFailed,
    ProviderDegraded,
    ToolNotFound,
    ToolUnavailable,
    ToolSchemaInvalid,
    ToolSchemaChanged,
    CapabilityNotFound,
    CapabilityUnavailable,
    AmbiguousCapability,
    InputSchemaFailed,
    OperationTimeout,
    OperationCancelled,
    ResultTooLarge,
    ProviderProtocolError,
    Internal,
}

/// The stable wire code of an error.
pub open spec fn code_text(c: ErrorCode) -> Seq<char> {
    match c {
        ErrorCode::WorkspaceNotFound => "WORKSPACE_NOT_FOUND"@,
        ErrorCode::ResourceNotFound => "RESOURCE_NOT_FOUND"@,
        ErrorCode::AmbiguousResource => "AMBIGUOUS_RESOURCE"@,
        ErrorCode::StudioNotConnected => "STUDIO_NOT_CONNECTED"@,
        ErrorCode::StudioCapabilityUnavailable => "STUDIO_CAPABILITY_UNAVAILABLE"@,
        ErrorCode::SourceParseFailed => "SOURCE_PARSE_FAILED"@,
        ErrorCode::SourceChanged => "SOURCE_CHANGED"@,
        ErrorCode::RevisionConflict => "REVISION_CONFLICT"@,
        ErrorCode::PolicyDenied => "POLICY_DENIED"@,
        ErrorCode::ChangeSetInvalid => "CHANGE_SET_INVALID"@,
        ErrorCode::ChangeSetConflict => "CHANGE_SET_CONFLICT"@,
        ErrorCode::ChangeSetApplyFailed => "CHANGE_SET_APPLY_FAILED"@,
        ErrorCode::RollbackFailed => "ROLLBACK_FAILED"@,
        ErrorCode::ResultExpired => "RESULT_EXPIRED"@,
        ErrorCode::ProviderNotFound => "PROVIDER_NOT_FOUND"@,
        ErrorCode::ProviderUnavailable => "PROVIDER_UNAVAILABLE"@,
        ErrorCode::ProviderAuthRequired => "PROVIDER_AUTH_REQUIRED"@,
        ErrorCode::ProviderConnectionFailed => "PROVIDER_CONNECTION_FAILED"@,
        ErrorCode::ProviderDegraded => "PROVIDER_DEGRADED"@,
        ErrorCode::ToolNotFound => "TOOL_NOT_FOUND"@,
        ErrorCode::ToolUnavailable => "TOOL_UNAVAILABLE"@,
        ErrorCode::ToolSchemaInvalid => "TOOL_SCHEMA_INVALID"@,
        ErrorCode::ToolSchemaChanged => "TOOL_SCHEMA_CHANGED"@,
        ErrorCode::CapabilityNotFound => "CAPABILITY_NOT_FOUND"@,
        ErrorCode::CapabilityUnavailable => "CAPABILITY_UNAVAILABLE"@,
        ErrorCode::AmbiguousCapability => "AMBIGUOUS_CAPABILITY"@,
        ErrorCode::InputSchemaFailed => "INPUT_SCHEMA_FAILED"@,
        ErrorCode::OperationTimeout => "OPERATION_TIMEOUT"@,
        ErrorCode::OperationCancelled => "OPERATION_CANCELLED"@,
        ErrorCode::ResultTooLarge => "RESULT_TOO_LARGE"@,
        ErrorCode::ProviderProtocolError => "PROVIDER_PROTOCOL_ERROR"@,
        ErrorCode::Internal => "INTERNAL"@,
    }
}

/// Different error codes have different wire texts.
#[verifier::rlimit(50)]
pub proof fn law_error_code_texts_distinct(a: ErrorCode, b: ErrorCode)
    requires
        code_text(a) == code_text(b),
    ensures
        a == b,
{
    reveal_strlit("WORKSPACE_NOT_FOUND");
    reveal_strlit("RESOURCE_NOT_FOUND");
    reveal_strlit("AMBIGUOUS_RESOURCE");
    reveal_strlit("STUDIO_NOT_CONNECTED");
    reveal_strlit("STUDIO_CAPABILITY_UNAVAILABLE");
    reveal_strlit("SOURCE_PARSE_FAILED");
    reveal_strlit("SOURCE_CHANGED");
    reveal_strlit("REVISION_CONFLICT");
    reveal_strlit("POLICY_DENIED");
    reveal_strlit("CHANGE_SET_INVALID");
    reveal_strlit("CHANGE_SET_CONFLICT");
    reveal_strlit("CHANGE_SET_APPLY_FAILED");
    reveal_strlit("ROLLBACK_FAILED");
    reveal_strlit("RESULT_EXPIRED");
    reveal_strlit("PROVIDER_NOT_FOUND");
    reveal_strlit("PROVIDER_UNAVAILABLE");
    reveal_strlit("PROVIDER_AUTH_REQUIRED");
    reveal_strlit("PROVIDER_CONNECTION_FAILED");
    reveal_strlit("PROVIDER_DEGRADED");
    reveal_strlit("TOOL_NOT_FOUND");
    reveal_strlit("TOOL_UNAVAILABLE");
    reveal_strlit("TOOL_SCHEMA_INVALID");
    reveal_strlit("TOOL_SCHEMA_CHANGED");
    reveal_strlit("CAPABILITY_NOT_FOUND");
    reveal_strlit("CAPABILITY_UNAVAILABLE");
    reveal_strlit("AMBIGUOUS_CAPABILITY");
    reveal_strlit("INPUT_SCHEMA_FAILED");
    reveal_strlit("OPERATION_TIMEOUT");
    reveal_strlit("OPERATION_CANCELLED");
    reveal_strlit("RESULT_TOO_LARGE");
    reveal_strlit("PROVIDER_PROTOCOL_ERROR");
    reveal_strlit("INTERNAL");
    let (x, y) = (code_text(a), code_text(b));
    assert(x.len() == y.len());
    assert(x.len() > 0 ==> x[0] == y[0]);
    assert(x.len() > 1 ==> x[1] == y[1]);
    assert(x.len() > 2 ==> x[2] == y[2]);
    assert(x.len() > 3 ==> x[3] == y[3]);
    assert(x.len() > 4 ==> x[4] == y[4]);
    assert(x.len() > 5 ==> x[5] == y[5]);
    assert(x.len() > 6 ==> x[6] == y[6]);
    assert(x.len() > 7 ==> x[7] == y[7]);
    assert(x.len() > 8 ==> x[8] == y[8]);
    assert(x.len() > 9 ==> x[9] == y[9]);
    assert(x.len() > 10 ==> x[10] == y[10]);
    assert(x.len() > 11 ==> x[11] == y[11]);
    assert(x.len() > 12 ==> x[12] == y[12]);
    assert(x.len() > 13 ==> x[13] == y[13]);
    assert(x.len() > 14 ==> x[14] == y[14]);
    assert(x.len() > 15 ==> x[15] == y[15]);
    assert(x.len() > 16 ==> x[16] == y[16]);
    assert(x.len() > 17 ==> x[17] == y[17]);
    assert(x.len() > 18 ==> x[18] == y[18]);
    assert(x.len() > 19 ==> x[19] == y[19]);
    assert(x.len() > 20 ==> x[20] == y[20]);
    assert(x.len() > 21 ==> x[21] == y[21]);
    assert(x.len() > 22 ==> x[22] == y[22]);
    assert(x.len() > 23 ==> x[23] == y[23]);
    assert(x.len() > 24 ==> x[24] == y[24]);
    assert(x.len() > 25 ==> x[25] == y[25]);
    assert(x.len() > 26 ==> x[26] == y[26]);
    assert(x.len() > 27 ==> x[27] == y[27]);
    assert(x.len() > 28 ==> x[28] == y[28]);
    assert(x.len() > 29 ==> x[29] == y[29]);

}

/// The mechanical next step an agent should take after an error.
pub open spec fn action_text(c: ErrorCode) -> Seq<char> {
    match c {
        ErrorCode::WorkspaceNotFound => "Select or register a canonical workspace."@,
        ErrorCode::ResourceNotFound => "Resolve the canonical resource again."@,
        ErrorCode::AmbiguousResource => "Provide an explicit canonical reference."@,
        ErrorCode::StudioNotConnected => "Inspect Studio environment/session health and reconnect."@,
        ErrorCode::StudioCapabilityUnavailable => "Use a provider/platform where the capability is available."@,
        ErrorCode::SourceParseFailed => "Inspect the source and parser diagnostics."@,
        ErrorCode::SourceChanged => "Re-read the external source and reconcile the change."@,
        ErrorCode::RevisionConflict => "Re-read the external source and reconcile the change."@,
        ErrorCode::PolicyDenied => "Request an allowed operation or change policy explicitly."@,
        ErrorCode::ChangeSetInvalid => "Correct the ChangeSet contract before retrying."@,
        ErrorCode::ChangeSetConflict => "Refresh the target and resolve the conflicting revision."@,
        ErrorCode::ChangeSetApplyFailed => "Inspect adapter evidence and retry only when safe."@,
        ErrorCode::RollbackFailed => "Stop and inspect the target state before further mutation."@,
        ErrorCode::ResultExpired => "Re-run the operation to create a new result."@,
        ErrorCode::ProviderNotFound => "Inspect the provider registry and use a current ProviderId."@,
        ErrorCode::ProviderUnavailable => "Reconnect the provider or select another explicit implementation."@,
        ErrorCode::ProviderAuthRequired => "Configure the provider credential reference."@,
        ErrorCode::ProviderConnectionFailed => "Inspect transport diagnostics and retry with bounded backoff."@,
        ErrorCode::ProviderDegraded => "Inspect health evidence before issuing expensive operations."@,
        ErrorCode::ToolNotFound => "Search the active catalog for a current ToolRef."@,
        ErrorCode::ToolUnavailable => "Reconnect the provider or use a configured alternative."@,
        ErrorCode::ToolSchemaInvalid => "Quarantine the provider schema and inspect its catalog."@,
        ErrorCode::ToolSchemaChanged => "Inspect the new SchemaRevision and validate inputs again."@,
        ErrorCode::CapabilityNotFound => "Use a validated versioned CapabilityId."@,
        ErrorCode::CapabilityUnavailable => "Connect a provider that explicitly implements the capability."@,
        ErrorCode::AmbiguousCapability => "Provide an explicit target or configured provider preference."@,
        ErrorCode::InputSchemaFailed => "Correct the arguments against the inspected schema."@,
        ErrorCode::OperationTimeout => "Inspect provider health; retry only when operation semantics allow it."@,
        ErrorCode::OperationCancelled => "Confirm provider cancellation state before retrying."@,
        ErrorCode::ResultTooLarge => "Read the bounded result reference instead of requesting inline content."@,
        ErrorCode::ProviderProtocolError => "Inspect negotiated protocol profile and provider diagnostics."@,
        ErrorCode::Internal => "Preserve the OperationId and inspect daemon logs."@,
    }
}

impl ErrorCode {
    /// The stable wire code.
    pub fn code(self) -> (r: &'static str)
        ensures
            r@ == code_text(self),
    {
        match self {
            ErrorCode::WorkspaceNotFound => "WORKSPACE_NOT_FOUND",
            ErrorCode::ResourceNotFound => "RESOURCE_NOT_FOUND",
            ErrorCode::AmbiguousResource => "AMBIGUOUS_RESOURCE",
            ErrorCode::StudioNotConnected => "STUDIO_NOT_CONNECTED",
            ErrorCode::StudioCapabilityUnavailable => "STUDIO_CAPABILITY_UNAVAILABLE",
            ErrorCode::SourceParseFailed => "SOURCE_PARSE_FAILED",
            ErrorCode::SourceChanged => "SOURCE_CHANGED",
            ErrorCode::RevisionConflict => "REVISION_CONFLICT",
            ErrorCode::PolicyDenied => "POLICY_DENIED",
            ErrorCode::ChangeSetInvalid => "CHANGE_SET_INVALID",
            ErrorCode::ChangeSetConflict => "CHANGE_SET_CONFLICT",
            ErrorCode::ChangeSetApplyFailed => "CHANGE_SET_APPLY_FAILED",
            ErrorCode::RollbackFailed => "ROLLBACK_FAILED",
            ErrorCode::ResultExpired => "RESULT_EXPIRED",
            ErrorCode::ProviderNotFound => "PROVIDER_NOT_FOUND",
            ErrorCode::ProviderUnavailable => "PROVIDER_UNAVAILABLE",
            ErrorCode::ProviderAuthRequired => "PROVIDER_AUTH_REQUIRED",
            ErrorCode::ProviderConnectionFailed => "PROVIDER_CONNECTION_FAILED",
            ErrorCode::ProviderDegraded => "PROVIDER_DEGRADED",
            ErrorCode::ToolNotFound => "TOOL_NOT_FOUND",
            ErrorCode::ToolUnavailable => "TOOL_UNAVAILABLE",
            ErrorCode::ToolSchemaInvalid => "TOOL_SCHEMA_INVALID",
            ErrorCode::ToolSchemaChanged => "TOOL_SCHEMA_CHANGED",
            ErrorCode::CapabilityNotFound => "CAPABILITY_NOT_FOUND",
            ErrorCode::CapabilityUnavailable => "CAPABILITY_UNAVAILABLE",
            ErrorCode::AmbiguousCapability => "AMBIGUOUS_CAPABILITY",
            ErrorCode::InputSchemaFailed => "INPUT_SCHEMA_FAILED",
            ErrorCode::OperationTimeout => "OPERATION_TIMEOUT",
            ErrorCode::OperationCancelled => "OPERATION_CANCELLED",
            ErrorCode::ResultTooLarge => "RESULT_TOO_LARGE",
            ErrorCode::ProviderProtocolError => "PROVIDER_PROTOCOL_ERROR",
            ErrorCode::Internal => "INTERNAL",
        }
    }

    /// Every error but a failed rollback and an internal error can be
    /// recovered from.
    pub fn recoverable(self) -> (r: bool)
        ensures
            r == !(self == ErrorCode::RollbackFailed || self == ErrorCode::Internal),
    {
        !(self == ErrorCode::RollbackFailed || self == ErrorCode::Internal)
    }

    /// The mechanical next step after this error.
    pub fn mechanical_action(self) -> (r: &'static str)
        ensures
            r@ == action_text(self),
    {
        match self {
            ErrorCode::WorkspaceNotFound => "Select or register a canonical workspace.",
            ErrorCode::ResourceNotFound => "Resolve the canonical resource again.",
            ErrorCode::AmbiguousResource => "Provide an explicit canonical reference.",
            ErrorCode::StudioNotConnected => "Inspect Studio environment/session health and reconnect.",
            ErrorCode::StudioCapabilityUnavailable => "Use a provider/platform where the capability is available.",
            ErrorCode::SourceParseFailed => "Inspect the source and parser diagnostics.",
            ErrorCode::SourceChanged => "Re-read the external source and reconcile the change.",
            ErrorCode::RevisionConflict => "Re-read the external source and reconcile the change.",
            ErrorCode::PolicyDenied => "Request an allowed operation or change policy explicitly.",
            ErrorCode::ChangeSetInvalid => "Correct the ChangeSet contract before retrying.",
            ErrorCode::ChangeSetConflict => "Refresh the target and resolve the conflicting revision.",
            ErrorCode::ChangeSetApplyFailed => "Inspect adapter evidence and retry only when safe.",
            ErrorCode::RollbackFailed => "Stop and inspect the target state before further mutation.",
            ErrorCode::ResultExpired => "Re-run the operation to create a new result.",
            ErrorCode::ProviderNotFound => "Inspect the provider registry and use a current ProviderId.",
            ErrorCode::ProviderUnavailable => "Reconnect the provider or select another explicit implementation.",
            ErrorCode::ProviderAuthRequired => "Configure the provider credential reference.",
            ErrorCode::ProviderConnectionFailed => "Inspect transport diagnostics and retry with bounded backoff.",
            ErrorCode::ProviderDegraded => "Inspect health evidence before issuing expensive operations.",
            ErrorCode::ToolNotFound => "Search the active catalog for a current ToolRef.",
            ErrorCode::ToolUnavailable => "Reconnect the provider or use a configured alternative.",
            ErrorCode::ToolSchemaInvalid => "Quarantine the provider schema and inspect its catalog.",
            ErrorCode::ToolSchemaChanged => "Inspect the new SchemaRevision and validate inputs again.",
            ErrorCode::CapabilityNotFound => "Use a validated versioned CapabilityId.",
            ErrorCode::CapabilityUnavailable => "Connect a provider that explicitly implements the capability.",
            ErrorCode::AmbiguousCapability => "Provide an explicit target or configured provider preference.",
            ErrorCode::InputSchemaFailed => "Correct the arguments against the inspected schema.",
            ErrorCode::OperationTimeout => "Inspect provider health; retry only when operation semantics allow it.",
            ErrorCode::OperationCancelled => "Confirm provider cancellation state before retrying.",
            ErrorCode::ResultTooLarge => "Read the bounded result reference instead of requesting inline content.",
            ErrorCode::ProviderProtocolError => "Inspect negotiated protocol profile and provider diagnostics.",
            ErrorCode::Internal => "Preserve the OperationId and inspect daemon logs.",
        }
    }
}

/// An error with its code, message and recovery guidance.
#[derive(Clone, Debug, Eq, PartialEq)]
pub struct LatticeError {
    pub body: LatticeErrorBody,
}

impl LatticeError {
    pub fn new(code: ErrorCode, message: &str, recoverable: bool) -> (r: LatticeError)
        ensures
            r.body.code == code,
            r.body.message@ == message@,
            r.body.recoverable == recoverable,
            r.body.recommended_action is None,
            r.body.related_resources@.len() == 0,
    {
        LatticeError {
            body: LatticeErrorBody {
                code,
                message: string_from_chars(chars_of(message).as_slice()),
                recoverable,
                recommended_action: None,
                related_resources: Vec::new(),
            },
        }
    }

    pub fn with_action(self, action: &str) -> (r: LatticeError)
        ensures
            r.body.code == self.body.code,
            r.body.message == self.body.message,
            r.body.recoverable == self.body.recoverable,
            r.body.recommended_action matches Some(a) && a@ == action@,
            r.body.related_resources == self.body.related_resources,
    {
        let mut e = self;
        e.body.recommended_action = Some(string_from_chars(chars_of(action).as_slice()));
        e
    }
}

} // verus!

//! Provider connections: the execution policy consulted before any tool
//! call, immutable result references, and the decisions a call makes about
//! its deadline and where its result goes.
use vstd::prelude::*;
use crate::fabric::{SchemaRevision, ToolAvailability};
use crate::catalog::{input_fault, tool_with_key, validate_tool_input, SchemaRecord, ToolCatalog};
use crate::json::{json_text, json_to_text, JsonValue};
use crate::digest::blake3_digest;
use crate::order::byte_ints;
use crate::tools::ToolFabricError;
use crate::catalog::OperationId;
use vstd::utf8::encode_utf8;
use crate::resource::{hyphen_text, ContentHash, LatticeId};
use crate::tools::{ProviderId, ToolRef};
use crate::text::{push_str, string_from_chars};

verus! {

#[derive(Clone, Debug, Eq, PartialEq)]
pub struct PolicyRequest {
    pub caller: String,
    pub provider_id: ProviderId,
    pub tool_ref: ToolRef,
    pub schema_revision: SchemaRevision,
    pub arguments_hash: ContentHash,
}

#[derive(Clone, Debug, Eq, PartialEq)]
pub struct PolicyDecision {
    pub allowed: bool,
    pub reason: String,
}

/// Decides whether a caller may invoke a tool; implemented by embedders.
pub trait PolicyEnforcer {
    /// The decision this policy gives a request: whether it is allowed,
    /// and the reason.
    spec fn decision(&self, request: PolicyRequest) -> (bool, Seq<char>);

    fn authorize(&self, request: &PolicyRequest) -> (r: PolicyDecision)
        ensures
            r.allowed == self.decision(*request).0,
            r.reason@ == self.decision(*request).1;
}

/// The policy in force when none is configured: nothing runs.
pub struct DenyAllPolicy;

/// The single reason every request is refused with.
pub open spec fn deny_all_reason() -> Seq<char> {
    "deny-by-default: no execution policy is configured"@
}

impl PolicyEnforcer for DenyAllPolicy {
    /// Every request is refused.
    open spec fn decision(&self, request: PolicyRequest) -> (bool, Seq<char>) {
        (false, deny_all_reason())
    }

    fn authorize(&self, request: &PolicyRequest) -> (r: PolicyDecision) {
        PolicyDecision { allowed: false, reason: string_from_chars(crate::text::chars_of("deny-by-default: no execution policy is configured").as_slice()) }
    }
}

/// A reference to an immutable stored result: `lattice://result/<uuid>`.
#[derive(Clone, Debug, Eq, PartialEq)]
pub struct ResultRef(String);

pub open spec fn result_ref_text(id: Seq<u8>) -> Seq<char> {
    "lattice://result/"@ + hyphen_text(id)
}

impl ResultRef {
    pub closed spec fn text_spec(&self) -> Seq<char> {
        self.0@
    }

    /// A fresh result reference.
    pub fn new() -> (r: ResultRef)
        ensures
            exists|id: Seq<u8>| id.len() == 16 && r.text_spec() == #[trigger] result_ref_text(id),
    {
        let id = LatticeId::new();
        let mut out: Vec<char> = Vec::new();
        push_str(&mut out, "lattice://result/");
        push_str(&mut out, id.to_text().as_str());
        proof {
            LatticeId::lemma_view_len(id);
            assert(out@ =~= result_ref_text(id@));
        }
        ResultRef(string_from_chars(out.as_slice()))
    }

    pub fn to_text(&self) -> (r: String)
        ensures
            r@ == self.text_spec(),
    {
        self.0.clone()
    }
}

/// A stored result with its digest.
#[derive(Clone, Debug)]
pub struct StoredResult {
    pub reference: ResultRef,
    pub content_hash: ContentHash,
    pub content_type: String,
    pub bytes: Vec<u8>,
}

#[derive(Clone, Copy, Debug, Eq, PartialEq, Structural)]
pub enum InvocationStatus {
    Succeeded,
    Failed,
    Cancelled,
    TimedOut,
}

#[derive(Clone, Debug, Eq, PartialEq)]
pub enum ProviderError {
    Connection(String),
    Protocol(String),
    ToolNotFound,
    Cancelled,
}

pub open spec fn provider_error_text(e: ProviderError) -> Seq<char> {
    match e {
        ProviderError::Connection(m) => "PROVIDER_CONNECTION_FAILED: "@ + m@,
        ProviderError::Protocol(m) => "PROVIDER_PROTOCOL_ERROR: "@ + m@,
        ProviderError::ToolNotFound => "TOOL_NOT_FOUND: provider does not recognize the tool"@,
        ProviderError::Cancelled => "OPERATION_CANCELLED: provider operation was cancelled"@,
    }
}

impl ProviderError {
    pub fn to_text(&self) -> (r: String)
        ensures
            r@ == provider_error_text(*self),
    {
        let mut out: Vec<char> = Vec::new();
        match self {
            ProviderError::Connection(m) => {
                push_str(&mut out, "PROVIDER_CONNECTION_FAILED: ");
                push_str(&mut out, m.as_str());
            },
            ProviderError::Protocol(m) => {
                push_str(&mut out, "PROVIDER_PROTOCOL_ERROR: ");
                push_str(&mut out, m.as_str());
            },
            ProviderError::ToolNotFound => {
                push_str(&mut out, "TOOL_NOT_FOUND: provider does not recognize the tool");
            },
            ProviderError::Cancelled => {
                push_str(&mut out, "OPERATION_CANCELLED: provider operation was cancelled");
            },
        }
        string_from_chars(out.as_slice())
    }
}

/// Results up to this many bytes travel inline.
pub const INLINE_RESULT_LIMIT: usize = 65536;

/// Results over this many bytes are refused.
pub const RESULT_SIZE_LIMIT: usize = 67108864;

/// The deadline a call runs under: the requested one, never longer than the default.
pub fn call_deadline_ms(requested: Option<u64>, default_ms: u64) -> (r: u64)
    ensures
        r == match requested {
            Some(t) => if t < default_ms { t } else { default_ms },
            None => default_ms,
        },
{
    match requested {
        Some(t) => if t < default_ms { t } else { default_ms },
        None => default_ms,
    }
}

/// Where a provider's encoded result goes.
#[derive(Clone, Copy, Debug, Eq, PartialEq, Structural)]
pub enum ResultPlacement {
    /// Returned with the invocation.
    Inline,
    /// Stored, and returned as a reference.
    Stored,
    /// Refused as too large.
    TooLarge,
}

/// Results over the size limit are refused; small ones travel inline; the
/// rest are stored and referenced.
pub fn place_result(encoded_len: usize, inline_limit: usize, result_limit: usize) -> (r: ResultPlacement)
    ensures
        r == if encoded_len > result_limit {
            ResultPlacement::TooLarge
        } else if encoded_len <= inline_limit {
            ResultPlacement::Inline
        } else {
            ResultPlacement::Stored
        },
{
    if encoded_len > result_limit {
        ResultPlacement::TooLarge
    } else if encoded_len <= inline_limit {
        ResultPlacement::Inline
    } else {
        ResultPlacement::Stored
    }
}

/// The bytes `offset..offset + length` of a stored result, clamped to its end.
pub fn read_range(bytes: &[u8], offset: usize, length: usize) -> (r: Vec<u8>)
    ensures
        ({
            let start = if offset < bytes@.len() { offset as int } else { bytes@.len() as int };
            let wanted = start + length;
            let end = if wanted < bytes@.len() { wanted } else { bytes@.len() as int };
            r@ == bytes@.subrange(start, end)
        }),
{
    let start = if offset < bytes.len() { offset } else { bytes.len() };
    let end = if length < bytes.len() - start { start + length } else { bytes.len() };
    let mut out: Vec<u8> = Vec::new();
    let mut i = start;
    while i < end
        invariant
            start <= i <= end,
            end <= bytes@.len(),
            out@ == bytes@.subrange(start as int, i as int),
        decreases end - i,
    {
        out.push(bytes[i]);
        proof { assert(out@ =~= bytes@.subrange(start as int, i + 1)); }
        i = i + 1;
    }
    out
}

/// Why the broker refuses or fails a call.
#[derive(Clone, Debug, Eq, PartialEq)]
pub enum BrokerError {
    ProviderUnavailable(ProviderId),
    ProviderIdentityMismatch,
    ToolNotFound,
    ToolUnavailable,
    PolicyDenied(String),
    OperationTimeout,
    ResultTooLarge(usize),
    ResultNotFound,
    BrokerClosed,
    Provider(ProviderError),
    Fabric(ToolFabricError),
}

/// The digest a call's arguments are recorded under: that of their compact
/// JSON text.
pub open spec fn arguments_digest(arguments: JsonValue) -> Seq<u8> {
    blake3_digest(encode_utf8(json_text(arguments)))
}

/// The tool a reference names, when its provider matches.
pub open spec fn named_tool(catalog: ToolCatalog, tool_ref: ToolRef) -> Option<crate::fabric::ToolDescriptor> {
    match tool_with_key(catalog.tools_spec(), byte_ints(tool_ref.tool_id@)) {
        Some(d) => if d.provider_id@ == tool_ref.provider_id@ { Some(d) } else { None },
        None => None,
    }
}

/// Some registered record of the revision.
pub open spec fn record_of(records: Seq<SchemaRecord>, revision: Seq<u8>, x: SchemaRecord) -> bool {
    exists|i: int| 0 <= i < records.len() && records[i] == x && x.revision.0@ == revision
}

/// What `call_request` answers: `ToolNotFound` for an unknown tool or a
/// schema that is not registered, the schema's verdict on the arguments,
/// `ToolUnavailable`, or the request for the policy.
pub open spec fn request_checks(catalog: ToolCatalog, caller: Seq<char>, tool_ref: ToolRef, arguments: JsonValue, r: Result<PolicyRequest, BrokerError>) -> bool {
        match named_tool(catalog, tool_ref) {
            None => r == Err::<PolicyRequest, BrokerError>(BrokerError::ToolNotFound),
            Some(d) => match r {
                Ok(req) => (exists|x: SchemaRecord| record_of(catalog.schemas(), d.input_schema.0@, x)
                        && x.provider_schema is Object && input_fault(x.provider_schema->Object_0@, arguments) is None)
                    && d.availability == ToolAvailability::Available
                    && req.caller@ == caller
                    && req.provider_id == tool_ref.provider_id
                    && req.tool_ref == tool_ref
                    && req.schema_revision == d.input_schema
                    && req.arguments_hash@ == arguments_digest(arguments),
                Err(BrokerError::ToolNotFound) => !crate::catalog::has_revision(catalog.schemas(), d.input_schema.0@),
                Err(BrokerError::Fabric(e)) => exists|x: SchemaRecord| record_of(catalog.schemas(), d.input_schema.0@, x)
                    && match x.provider_schema {
                        JsonValue::Object(m) => input_fault(m@, arguments) matches Some(msg)
                            && e matches ToolFabricError::InputSchemaFailed(t) && t@ == msg,
                        _ => e == ToolFabricError::SchemaRootNotObject,
                    },
                Err(BrokerError::ToolUnavailable) => d.availability != ToolAvailability::Available
                    && exists|x: SchemaRecord| record_of(catalog.schemas(), d.input_schema.0@, x)
                        && x.provider_schema is Object && input_fault(x.provider_schema->Object_0@, arguments) is None,
                Err(_) => false,
            },
        }
}

/// What is checked before a call goes to the policy: the tool exists under
/// its provider with a registered input schema, the arguments satisfy that
/// schema, and the tool is available. The request handed to the policy
/// names the caller, the tool, its schema revision and the digest of the
/// arguments.
pub fn call_request(catalog: &ToolCatalog, caller: &str, tool_ref: ToolRef, arguments: &JsonValue)
    -> (r: Result<PolicyRequest, BrokerError>)
    requires
        catalog.wf(),
    ensures
        request_checks(*catalog, caller@, tool_ref, *arguments, r),
{
    let text = json_to_text(arguments);
    let arguments_hash = ContentHash::of(text.as_str().as_bytes());
    let tool = match catalog.get(&tool_ref) {
        Some(t) => t,
        None => { return Err(BrokerError::ToolNotFound); },
    };
    let schema = match catalog.schema(tool.input_schema) {
        Some(s) => s,
        None => { return Err(BrokerError::ToolNotFound); },
    };
    proof {
        assert(record_of(catalog.schemas(), tool.input_schema.0@, *schema));
    }
    match validate_tool_input(&schema.provider_schema, arguments) {
        Ok(()) => {},
        Err(e) => { return Err(BrokerError::Fabric(e)); },
    }
    if tool.availability != ToolAvailability::Available {
        return Err(BrokerError::ToolUnavailable);
    }
    Ok(PolicyRequest {
        caller: string_from_chars(crate::text::chars_of(caller).as_slice()),
        provider_id: tool_ref.provider_id,
        tool_ref,
        schema_revision: tool.input_schema,
        arguments_hash,
    })
}

/// What the policy's answer makes of a call: it proceeds only when allowed.
pub fn decision_outcome(decision: PolicyDecision) -> (r: Result<(), BrokerError>)
    ensures
        decision.allowed ==> r is Ok,
        !decision.allowed ==> r == Err::<(), BrokerError>(BrokerError::PolicyDenied(decision.reason)),
{
    if decision.allowed {
        Ok(())
    } else {
        Err(BrokerError::PolicyDenied(decision.reason))
    }
}

/// The checks before dispatch, with the policy consulted last; an embedder's
/// policy decides whether an admissible call is allowed.
pub fn authorize_call<P: PolicyEnforcer>(catalog: &ToolCatalog, policy: &P, caller: &str, tool_ref: ToolRef, arguments: &JsonValue)
    -> (r: Result<PolicyRequest, BrokerError>)
    requires
        catalog.wf(),
    ensures
        r matches Ok(req) ==> call_request_ok(*catalog, caller@, tool_ref, *arguments, req),
        named_tool(*catalog, tool_ref) is None ==> r == Err::<PolicyRequest, BrokerError>(BrokerError::ToolNotFound),
        exists|checked: Result<PolicyRequest, BrokerError>| #[trigger] request_checks(*catalog, caller@, tool_ref, *arguments, checked)
            && policy_answer(*policy, checked, r),
{
    let checked = call_request(catalog, caller, tool_ref, arguments);
    let request = match checked {
        Ok(req) => req,
        Err(e) => { return Err(e); },
    };
    let decision = policy.authorize(&request);
    let ghost answer = decision;
    match decision_outcome(decision) {
        Ok(()) => {
            proof { assert(policy_answer(*policy, Ok::<PolicyRequest, BrokerError>(request), Ok::<PolicyRequest, BrokerError>(request))); }
            Ok(request)
        },
        Err(e) => {
            proof { assert(policy_answer(*policy, Ok::<PolicyRequest, BrokerError>(request), Err::<PolicyRequest, BrokerError>(e))); }
            Err(e)
        },
    }
}

/// How the policy turns the checks' answer into the call's: an error of
/// the checks passes through unchanged; an admissible request is returned
/// when the policy allows it and refused with the policy's reason
/// otherwise.
pub open spec fn policy_answer<P: PolicyEnforcer>(policy: P, checked: Result<PolicyRequest, BrokerError>, r: Result<PolicyRequest, BrokerError>) -> bool {
    match checked {
        Err(e) => r == Err::<PolicyRequest, BrokerError>(e),
        Ok(req) => if policy.decision(req).0 {
            r == Ok::<PolicyRequest, BrokerError>(req)
        } else {
            r matches Err(BrokerError::PolicyDenied(reason)) && reason@ == policy.decision(req).1
        },
    }
}

/// The request for an admissible call, as `call_request` builds it.
pub open spec fn call_request_ok(catalog: ToolCatalog, caller: Seq<char>, tool_ref: ToolRef, arguments: JsonValue, req: PolicyRequest) -> bool {
    named_tool(catalog, tool_ref) matches Some(d)
        && (exists|x: SchemaRecord| record_of(catalog.schemas(), d.input_schema.0@, x)
            && x.provider_schema is Object && input_fault(x.provider_schema->Object_0@, arguments) is None)
        && d.availability == ToolAvailability::Available
        && req.caller@ == caller
        && req.provider_id == tool_ref.provider_id
        && req.tool_ref == tool_ref
        && req.schema_revision == d.input_schema
        && req.arguments_hash@ == arguments_digest(arguments)
}

/// The outcome of one tool call as the broker reports it.
#[derive(Debug)]
pub struct ToolInvocationResult {
    pub operation_id: OperationId,
    pub tool_ref: ToolRef,
    pub provider_id: ProviderId,
    pub schema_revision: SchemaRevision,
    pub arguments_hash: ContentHash,
    pub started_at_unix_ms: i64,
    pub finished_at_unix_ms: i64,
    pub status: InvocationStatus,
    pub inline: Option<JsonValue>,
    pub result_ref: Option<ResultRef>,
    pub byte_len: u64,
    pub content_type: Option<String>,
    pub error: Option<String>,
    pub cancellation_supported: Option<bool>,
}

/// Where a successful result goes: returned inline with the invocation, or
/// stored first (these are the bytes to store).
#[derive(Debug)]
pub enum ResultDelivery {
    Inline(ToolInvocationResult),
    Store(Vec<u8>),
}

/// The invocation of a call that succeeded: its identity from the request,
/// status `Succeeded`, the result inline or by reference, its encoded size,
/// content type and whether the provider supports cancellation.
pub open spec fn succeeded(r: ToolInvocationResult, operation_id: OperationId, request: PolicyRequest, started_at_unix_ms: i64,
    finished_at_unix_ms: i64, byte_len: u64, content_type: Seq<char>, cancellation_supported: bool) -> bool
{
    &&& r.operation_id == operation_id
    &&& r.tool_ref == request.tool_ref
    &&& r.provider_id == request.tool_ref.provider_id
    &&& r.schema_revision == request.schema_revision
    &&& r.arguments_hash == request.arguments_hash
    &&& r.started_at_unix_ms == started_at_unix_ms
    &&& r.finished_at_unix_ms == finished_at_unix_ms
    &&& r.status == InvocationStatus::Succeeded
    &&& r.byte_len == byte_len
    &&& (r.content_type matches Some(c) && c@ == content_type)
    &&& r.error is None
    &&& r.cancellation_supported == Some(cancellation_supported)
}

/// What becomes of a provider's structured result, encoded as compact JSON:
/// over `result_limit` bytes it is refused with its size; up to
/// `inline_limit` bytes it travels inline; otherwise its bytes are to be
/// stored and referenced (`stored_result`).
pub fn deliver_result(
    operation_id: OperationId,
    request: &PolicyRequest,
    started_at_unix_ms: i64,
    finished_at_unix_ms: i64,
    structured: JsonValue,
    content_type: String,
    cancellation_supported: bool,
    inline_limit: usize,
    result_limit: usize,
) -> (r: Result<ResultDelivery, BrokerError>)
    ensures
        ({
            let bytes = encode_utf8(json_text(structured));
            &&& bytes.len() > result_limit ==> r == Err::<ResultDelivery, BrokerError>(BrokerError::ResultTooLarge(bytes.len() as usize))
            &&& bytes.len() <= result_limit && bytes.len() <= inline_limit ==> (r matches Ok(ResultDelivery::Inline(x))
                && succeeded(x, operation_id, *request, started_at_unix_ms, finished_at_unix_ms, bytes.len() as u64,
                    content_type@, cancellation_supported)
                && x.inline == Some(structured) && x.result_ref is None)
            &&& bytes.len() <= result_limit && bytes.len() > inline_limit ==> (r matches Ok(ResultDelivery::Store(b)) && b@ == bytes)
        }),
{
    let text = json_to_text(&structured);
    let bytes = text.as_str().as_bytes_vec();
    let n = bytes.len();
    if n > result_limit {
        return Err(BrokerError::ResultTooLarge(n));
    }
    if n <= inline_limit {
        Ok(ResultDelivery::Inline(ToolInvocationResult {
            operation_id,
            tool_ref: request.tool_ref,
            provider_id: request.tool_ref.provider_id,
            schema_revision: request.schema_revision,
            arguments_hash: request.arguments_hash,
            started_at_unix_ms,
            finished_at_unix_ms,
            status: InvocationStatus::Succeeded,
            inline: Some(structured),
            result_ref: None,
            byte_len: n as u64,
            content_type: Some(content_type),
            error: None,
            cancellation_supported: Some(cancellation_supported),
        }))
    } else {
        Ok(ResultDelivery::Store(bytes))
    }
}

/// The invocation of a call whose result was stored under `reference`.
pub fn stored_result(
    operation_id: OperationId,
    request: &PolicyRequest,
    started_at_unix_ms: i64,
    finished_at_unix_ms: i64,
    reference: ResultRef,
    byte_len: u64,
    content_type: String,
    cancellation_supported: bool,
) -> (r: ToolInvocationResult)
    ensures
        succeeded(r, operation_id, *request, started_at_unix_ms, finished_at_unix_ms, byte_len, content_type@, cancellation_supported),
        r.inline is None,
        r.result_ref == Some(reference),
{
    ToolInvocationResult {
        operation_id,
        tool_ref: request.tool_ref,
        provider_id: request.tool_ref.provider_id,
        schema_revision: request.schema_revision,
        arguments_hash: request.arguments_hash,
        started_at_unix_ms,
        finished_at_unix_ms,
        status: InvocationStatus::Succeeded,
        inline: None,
        result_ref: Some(reference),
        byte_len,
        content_type: Some(content_type),
        error: None,
        cancellation_supported: Some(cancellation_supported),
    }
}

/// A call that ended without a result: failed, cancelled or timed out.
pub fn terminal_result(
    operation_id: OperationId,
    request: &PolicyRequest,
    started_at_unix_ms: i64,
    finished_at_unix_ms: i64,
    status: InvocationStatus,
    error: &str,
) -> (r: ToolInvocationResult)
    ensures
        r.operation_id == operation_id,
        r.tool_ref == request.tool_ref,
        r.provider_id == request.tool_ref.provider_id,
        r.schema_revision == request.schema_revision,
        r.arguments_hash == request.arguments_hash,
        r.started_at_unix_ms == started_at_unix_ms,
        r.finished_at_unix_ms == finished_at_unix_ms,
        r.status == status,
        r.inline is None,
        r.result_ref is None,
        r.byte_len == 0,
        r.content_type is None,
        r.error matches Some(e) && e@ == error@,
        r.cancellation_supported is None,
{
    ToolInvocationResult {
        operation_id,
        tool_ref: request.tool_ref,
        provider_id: request.tool_ref.provider_id,
        schema_revision: request.schema_revision,
        arguments_hash: request.arguments_hash,
        started_at_unix_ms,
        finished_at_unix_ms,
        status,
        inline: None,
        result_ref: None,
        byte_len: 0,
        content_type: None,
        error: Some(string_from_chars(crate::text::chars_of(error).as_slice())),
        cancellation_supported: None,
    }
}

} // verus!

use lattice::builtin::BuiltinToolFabric;
use lattice::catalog::{validate_tool_input, ImportedTool, OperationId, SchemaRegistry, ToolCatalog};
use lattice::fabric::{
    AuthenticationState, CapabilityBinding, CapabilityTarget, DeterministicRouter,
    OperationSemantics, ProviderConnectionState, ProviderDescriptor, ProviderHealth,
    ProviderHealthStatus, ProviderKind, ProviderMetadata, ProviderRegistry, ProviderTransportKind,
    ProviderTrust, ReportedSemantics, RoutingRequest, SemanticTruth, ToolAvailability, ToolTrust,
};
use lattice::connections::{
    authorize_call, call_request, decision_outcome, deliver_result, stored_result, BrokerError,
    DenyAllPolicy, InvocationStatus, PolicyDecision, PolicyEnforcer, ResultDelivery, ResultRef,
};
use lattice::json::{json_to_text, JsonNumber, JsonValue};
use lattice::tools::{CapabilityId, ProviderId, ToolFabricError, ToolRef};

fn convert(value: &serde_json::Value) -> JsonValue {
    match value {
        serde_json::Value::Null => JsonValue::Null,
        serde_json::Value::Bool(b) => JsonValue::Bool(*b),
        serde_json::Value::Number(n) => JsonValue::Number(JsonNumber {
            text: n.to_string(),
            integral: n.is_i64() || n.is_u64(),
        }),
        serde_json::Value::String(s) => JsonValue::String(s.clone()),
        serde_json::Value::Array(items) => JsonValue::Array(items.iter().map(convert).collect()),
        serde_json::Value::Object(members) => {
            JsonValue::Object(members.iter().map(|(k, v)| (k.clone(), convert(v))).collect())
        }
    }
}

fn json(text: &str) -> JsonValue {
    convert(&serde_json::from_str::<serde_json::Value>(text).expect("valid JSON"))
}

fn healthy_provider(id: ProviderId, name: &str) -> ProviderDescriptor {
    ProviderDescriptor {
        id,
        kind: ProviderKind::McpStdio,
        name: name.into(),
        version: None,
        trust: ProviderTrust::UserConfigured,
        transport: ProviderTransportKind::Stdio,
        health: ProviderHealth {
            status: ProviderHealthStatus::Healthy,
            reason: "test".into(),
            last_successful_operation_unix_ms: None,
            last_failure: None,
            rtt_micros: None,
            consecutive_failures: 0,
            connected_at_unix_ms: Some(1),
            catalog_revision: None,
            tool_count: 0,
            resource_count: 0,
            authentication: AuthenticationState::NotRequired,
            connection_state: ProviderConnectionState::Connected,
        },
        metadata: ProviderMetadata {
            source: "test".into(),
            studio_environment_id: None,
            studio_session_id: None,
            configured_priority: None,
            protocol: None,
        },
    }
}

fn imported(name: &str, capability: Option<CapabilityBinding>) -> ImportedTool {
    ImportedTool {
        native_name: name.into(),
        title: None,
        provider_description: Some("untrusted description".into()),
        input_schema: json(r#"{"type":"object","properties":{"value":{"type":"string"}}}"#),
        output_schema: None,
        capabilities: capability.into_iter().collect(),
        verified_semantics: OperationSemantics::unknown(),
        reported_semantics: ReportedSemantics {
            read_only_hint: Some(true),
            destructive_hint: Some(false),
            idempotent_hint: None,
            open_world_hint: None,
        },
        trust: ToolTrust::Untrusted,
    }
}

#[test]
fn input_validation_rejects_missing_wrong_and_additional_properties() {
    let schema = json(
        r#"{"type":"object","properties":{"query":{"type":"string"}},"required":["query"],"additionalProperties":false}"#,
    );
    assert!(validate_tool_input(&schema, &json(r#"{"query":"ok"}"#)).is_ok());
    assert!(validate_tool_input(&schema, &json("{}")).is_err());
    assert!(validate_tool_input(&schema, &json(r#"{"query":1}"#)).is_err());
    assert!(validate_tool_input(&schema, &json(r#"{"query":"ok","extra":true}"#)).is_err());
}

#[test]
fn input_validation_messages_name_the_failing_property() {
    let schema = json(
        r#"{"type":"object","properties":{"query":{"type":"string"},"limit":{"type":"integer"}},"required":["query"],"additionalProperties":false}"#,
    );
    assert_eq!(
        validate_tool_input(&schema, &json("{}")),
        Err(ToolFabricError::InputSchemaFailed("required property query is missing".to_owned()))
    );
    assert_eq!(
        validate_tool_input(&schema, &json(r#"{"query":"x","limit":1.5}"#)),
        Err(ToolFabricError::InputSchemaFailed("property limit must be integer".to_owned()))
    );
    assert_eq!(
        validate_tool_input(&schema, &json(r#"{"query":"x","zzz":true}"#)),
        Err(ToolFabricError::InputSchemaFailed("additional property zzz is not allowed".to_owned()))
    );
    assert_eq!(
        validate_tool_input(&schema, &json("[1]")),
        Err(ToolFabricError::InputSchemaFailed("input must be a JSON object".to_owned()))
    );
    assert_eq!(validate_tool_input(&json("true"), &json("{}")), Err(ToolFabricError::SchemaRootNotObject));
    let open = json(r#"{"type":"object","properties":{"query":{"type":"string"}}}"#);
    assert_eq!(validate_tool_input(&open, &json(r#"{"query":"x","extra":1}"#)), Ok(()));
}

#[test]
fn canonical_text_is_what_serde_json_writes() {
    for text in [
        r#"{"b":[1,2.5,"x\n\"y"],"a":{"z":null,"t":true}}"#,
        r#"[]"#,
        r#"{"type":"object","additionalProperties":false}"#,
        r#""é\u0001""#,
    ] {
        let value: serde_json::Value = serde_json::from_str(text).expect("valid JSON");
        assert_eq!(json_to_text(&convert(&value)), serde_json::to_string(&value).expect("serializes"));
    }
}

#[test]
fn operation_ids_use_the_wire_prefix() {
    let id = OperationId::new();
    let wire = id.to_text();
    assert!(wire.starts_with("op_"));
    assert_eq!(OperationId::parse(&wire), Ok(id));
    assert_eq!(OperationId::parse("op_not-a-uuid"), Err(ToolFabricError::InvalidOperationId));
    assert_eq!(OperationId::parse(&wire[3..]), Err(ToolFabricError::InvalidOperationId));
}

#[test]
fn schema_change_retains_tool_identity_and_marks_revision_change() {
    let provider = ProviderId::from_stable_key(b"provider");
    let mut catalog = ToolCatalog::new();
    let first = catalog.refresh_provider(provider, vec![imported("tool_a", None)]).expect("refresh");
    let id = first.added[0];
    let mut changed = imported("tool_a", None);
    changed.input_schema = json(r#"{"type":"object","required":["value"]}"#);
    let second = catalog.refresh_provider(provider, vec![changed]).expect("refresh");
    assert_eq!(second.schema_changed, vec![id]);
    assert!(second.added.is_empty());
    assert_ne!(first.catalog_revision, second.catalog_revision);
}

#[test]
fn an_identical_refresh_changes_nothing() {
    let provider = ProviderId::from_stable_key(b"provider");
    let mut catalog = ToolCatalog::new();
    let first = catalog.refresh_provider(provider, vec![imported("tool_a", None)]).expect("refresh");
    let second = catalog.refresh_provider(provider, vec![imported("tool_a", None)]).expect("refresh");
    assert_eq!(second.unchanged, first.added);
    assert!(second.added.is_empty() && second.removed.is_empty() && second.schema_changed.is_empty());
    assert_eq!(first.catalog_revision, second.catalog_revision);
}

#[test]
fn removed_tools_remain_historical_but_leave_active_search() {
    let provider = ProviderId::from_stable_key(b"provider");
    let mut catalog = ToolCatalog::new();
    let first = catalog.refresh_provider(provider, vec![imported("tool_a", None)]).expect("refresh");
    let reference = ToolRef { provider_id: provider, tool_id: first.added[0] };
    let second = catalog.refresh_provider(provider, Vec::new()).expect("refresh");
    assert_eq!(second.removed, vec![reference.tool_id]);
    assert_eq!(catalog.get(&reference).map(|tool| tool.availability), Some(ToolAvailability::Unavailable));
    assert!(catalog.search("tool_a", 10).is_empty());
    assert!(catalog.active_tools().is_empty());
}

#[test]
fn provider_hints_do_not_change_verified_semantics() {
    let provider = ProviderId::from_stable_key(b"malicious");
    let mut catalog = ToolCatalog::new();
    let refresh = catalog.refresh_provider(provider, vec![imported("delete_database", None)]).expect("refresh");
    let reference = ToolRef { provider_id: provider, tool_id: refresh.added[0] };
    let tool = catalog.get(&reference).expect("tool");
    assert_eq!(tool.reported_semantics.read_only_hint, Some(true));
    assert_eq!(tool.verified_semantics.read_only, SemanticTruth::Unknown);
}

#[test]
fn listings_with_blank_or_repeated_names_or_bad_schemas_are_refused() {
    let provider = ProviderId::from_stable_key(b"provider");
    let mut catalog = ToolCatalog::new();
    assert_eq!(
        catalog.refresh_provider(provider, vec![imported("  ", None)]),
        Err(ToolFabricError::InvalidToolName)
    );
    assert_eq!(
        catalog.refresh_provider(provider, vec![imported("a", None), imported("a", None)]),
        Err(ToolFabricError::DuplicateToolName("a".to_owned()))
    );
    let mut scalar = imported("b", None);
    scalar.input_schema = json("1");
    assert_eq!(catalog.refresh_provider(provider, vec![scalar]), Err(ToolFabricError::SchemaRootNotObject));
    let mut deep = imported("c", None);
    let mut text = String::from("{\"a\":");
    for _ in 0..70 {
        text.push('[');
    }
    for _ in 0..70 {
        text.push(']');
    }
    text.push('}');
    deep.input_schema = json(&text);
    assert_eq!(catalog.refresh_provider(provider, vec![deep]), Err(ToolFabricError::SchemaTooDeep));
    assert!(catalog.active_tools().is_empty());
}

#[test]
fn search_matches_every_word_in_any_case() {
    let provider = ProviderId::from_stable_key(b"provider");
    let mut catalog = ToolCatalog::new();
    let capability = CapabilityId::parse("roblox:runtime.execute-luau@1").expect("capability");
    let mut described = imported("execute", Some(CapabilityBinding { capability, target: CapabilityTarget::Any }));
    described.title = Some("Run Luau".into());
    catalog
        .refresh_provider(provider, vec![described, imported("inspect", None)])
        .expect("refresh");
    assert_eq!(catalog.search("RUN  luau", 10).len(), 1);
    assert_eq!(catalog.search("execute-luau", 10)[0].native_name, "execute");
    assert_eq!(catalog.search("untrusted", 10).len(), 2);
    assert_eq!(catalog.search("untrusted", 0).len(), 1);
    assert!(catalog.search("missing", 10).is_empty());
}

#[test]
fn tools_are_found_only_under_their_provider() {
    let provider = ProviderId::from_stable_key(b"provider");
    let other = ProviderId::from_stable_key(b"other");
    let mut catalog = ToolCatalog::new();
    let refresh = catalog.refresh_provider(provider, vec![imported("t", None)]).expect("refresh");
    assert!(catalog.get(&ToolRef { provider_id: provider, tool_id: refresh.added[0] }).is_some());
    assert!(catalog.get(&ToolRef { provider_id: other, tool_id: refresh.added[0] }).is_none());
}

#[test]
fn schemas_register_once_per_revision() {
    let mut registry = SchemaRegistry::new();
    let first = registry.register(json(r#"{"type":"object"}"#)).expect("register");
    let second = registry.register(json(r#"{"type":"object"}"#)).expect("register");
    assert_eq!(first, second);
    let record = registry.get(first).expect("record");
    assert_eq!(record.normalized_schema, r#"{"type":"object"}"#);
    assert_eq!(record.byte_len, 17);
}

#[test]
fn unconstrained_multiple_implementations_are_ambiguous() {
    let capability = CapabilityId::parse("roblox:runtime.execute-luau@1").expect("capability");
    let first = ProviderId::from_stable_key(b"studio");
    let second = ProviderId::from_stable_key(b"cloud");
    let mut providers = ProviderRegistry::new();
    providers.register(healthy_provider(first, "Studio")).expect("register");
    providers.register(healthy_provider(second, "Cloud")).expect("register");
    let binding = CapabilityBinding { capability: capability.clone(), target: CapabilityTarget::Any };
    let mut catalog = ToolCatalog::new();
    catalog.refresh_provider(first, vec![imported("execute", Some(binding.clone()))]).expect("refresh");
    catalog.refresh_provider(second, vec![imported("execute", Some(binding))]).expect("refresh");
    let result = DeterministicRouter::resolve(
        &catalog,
        &providers,
        &RoutingRequest { capability: capability.clone(), target: CapabilityTarget::Any, preferred_provider: None },
    );
    assert!(matches!(result, Err(ToolFabricError::AmbiguousCapability { .. })));
    let preferred = DeterministicRouter::resolve(
        &catalog,
        &providers,
        &RoutingRequest { capability, target: CapabilityTarget::Any, preferred_provider: Some(second) },
    );
    assert_eq!(preferred.map(|reference| reference.provider_id), Ok(second));
}

#[test]
fn a_capability_nobody_offers_is_unavailable() {
    let capability = CapabilityId::parse("roblox:runtime.execute-luau@1").expect("capability");
    let result = DeterministicRouter::resolve(
        &ToolCatalog::new(),
        &ProviderRegistry::new(),
        &RoutingRequest { capability, target: CapabilityTarget::Any, preferred_provider: None },
    );
    assert!(matches!(result, Err(ToolFabricError::CapabilityUnavailable(_))));
}

#[test]
fn the_builtin_fabric_offers_only_implemented_capabilities() {
    let fabric = BuiltinToolFabric::from_environments(&[]).expect("fabric");
    let providers: Vec<(String, ProviderConnectionState)> = fabric
        .providers
        .list()
        .into_iter()
        .map(|provider| (provider.name.clone(), provider.health.connection_state))
        .collect();
    assert_eq!(providers.len(), 3);
    assert!(providers.contains(&("Lattice Core".to_owned(), ProviderConnectionState::Connected)));
    assert!(providers.contains(&("Git".to_owned(), ProviderConnectionState::Unavailable)));
    assert!(providers.contains(&("Flight Recorder".to_owned(), ProviderConnectionState::Unavailable)));
    let names: Vec<String> = fabric.catalog.active_tools().iter().map(|tool| tool.native_name.clone()).collect();
    assert_eq!(names.len(), 2);
    assert!(names.contains(&"lattice.search".to_owned()));
    assert!(names.contains(&"lattice.workspace.status".to_owned()));
    assert_eq!(fabric.capabilities.list().len(), 2);
    let core = ProviderId::from_stable_key(b"builtin:lattice-core");
    assert_eq!(fabric.providers.get(core).map(|provider| provider.health.tool_count), Some(2));
    let search = fabric.catalog.search("lattice.search", 1)[0];
    let record = fabric.catalog.schema(search.input_schema).expect("schema");
    assert_eq!(
        record.normalized_schema,
        r#"{"additionalProperties":false,"properties":{"limit":{"maximum":50,"minimum":1,"type":"integer"},"query":{"type":"string"}},"required":["query"],"type":"object"}"#
    );
}

#[test]
fn calls_are_checked_before_the_policy_and_denied_by_default() {
    let provider = ProviderId::from_stable_key(b"provider");
    let mut catalog = ToolCatalog::new();
    let refresh = catalog.refresh_provider(provider, vec![imported("echo", None)]).expect("refresh");
    let reference = ToolRef { provider_id: provider, tool_id: refresh.added[0] };
    let arguments = json(r#"{"value":"x"}"#);
    let request = call_request(&catalog, "agent", reference.clone(), &arguments).expect("admissible");
    assert_eq!(request.caller, "agent");
    assert_eq!(request.tool_ref, reference);
    assert_eq!(request.arguments_hash, lattice::resource::ContentHash::of(br#"{"value":"x"}"#));
    assert_eq!(
        authorize_call(&catalog, &DenyAllPolicy, "agent", reference.clone(), &arguments),
        Err(BrokerError::PolicyDenied("deny-by-default: no execution policy is configured".to_owned()))
    );
    assert_eq!(decision_outcome(PolicyDecision { allowed: true, reason: "allowed".to_owned() }), Ok(()));
    assert_eq!(DenyAllPolicy.authorize(&request).reason, "deny-by-default: no execution policy is configured");
    assert!(matches!(
        call_request(&catalog, "agent", reference.clone(), &json(r#"{"value":1}"#)),
        Err(BrokerError::Fabric(ToolFabricError::InputSchemaFailed(_)))
    ));
    let stranger = ToolRef { provider_id: ProviderId::from_stable_key(b"other"), tool_id: reference.tool_id };
    assert_eq!(call_request(&catalog, "agent", stranger, &arguments), Err(BrokerError::ToolNotFound));
    catalog.refresh_provider(provider, Vec::new()).expect("refresh");
    assert_eq!(call_request(&catalog, "agent", reference, &arguments), Err(BrokerError::ToolUnavailable));
}

#[test]
fn successful_results_are_inlined_stored_or_refused_by_size() {
    let provider = ProviderId::from_stable_key(b"provider");
    let mut catalog = ToolCatalog::new();
    let refresh = catalog.refresh_provider(provider, vec![imported("echo", None)]).expect("refresh");
    let reference = ToolRef { provider_id: provider, tool_id: refresh.added[0] };
    let request = call_request(&catalog, "agent", reference.clone(), &json(r#"{"value":"x"}"#)).expect("admissible");
    let op = OperationId::new();
    match deliver_result(op, &request, 1, 2, json(r#"{"ok":true}"#), "application/json".to_owned(), true, 64, 128) {
        Ok(ResultDelivery::Inline(result)) => {
            assert_eq!(result.status, InvocationStatus::Succeeded);
            assert_eq!(result.byte_len, 11);
            assert_eq!(result.tool_ref, reference);
            assert_eq!(result.content_type.as_deref(), Some("application/json"));
            assert!(result.result_ref.is_none());
            assert_eq!(result.cancellation_supported, Some(true));
        }
        other => panic!("expected an inline result, got {other:?}"),
    }
    match deliver_result(op, &request, 1, 2, json(r#"{"ok":true}"#), "application/json".to_owned(), false, 4, 128) {
        Ok(ResultDelivery::Store(bytes)) => assert_eq!(bytes, br#"{"ok":true}"#.to_vec()),
        other => panic!("expected stored bytes, got {other:?}"),
    }
    assert!(matches!(
        deliver_result(op, &request, 1, 2, json(r#"{"ok":true}"#), "application/json".to_owned(), false, 4, 10),
        Err(BrokerError::ResultTooLarge(11))
    ));
    let stored = stored_result(op, &request, 1, 3, ResultRef::new(), 11, "application/json".to_owned(), false);
    assert_eq!(stored.status, InvocationStatus::Succeeded);
    assert!(stored.inline.is_none() && stored.result_ref.is_some());
    assert_eq!(stored.byte_len, 11);
}

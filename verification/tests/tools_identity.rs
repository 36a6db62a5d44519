use lattice::fabric::{
    AuthenticationState, ProviderConnectionState, ProviderDescriptor, ProviderHealth,
    ProviderHealthStatus, ProviderKind, ProviderMetadata, ProviderRegistry, ProviderTransportKind,
    ProviderTrust,
};
use lattice::tools::{
    CapabilityId, ProviderId, ProviderResourceId, ProviderResourceRef, ToolFabricError, ToolId,
    ToolRef,
};

fn healthy_provider(id: ProviderId, name: &str) -> ProviderDescriptor {
    ProviderDescriptor {
        id,
        kind: ProviderKind::McpStdio,
        name: name.into(),
        version: None,
        trust: ProviderTrust::UserConfigured,
        transport: ProviderTransportKind::Stdio,
        health: ProviderHealth {
            status: ProviderHealthStatus::Healthy,
            reason: "test".into(),
            last_successful_operation_unix_ms: None,
            last_failure: None,
            rtt_micros: None,
            consecutive_failures: 0,
            connected_at_unix_ms: Some(1),
            catalog_revision: None,
            tool_count: 0,
            resource_count: 0,
            authentication: AuthenticationState::NotRequired,
            connection_state: ProviderConnectionState::Connected,
        },
        metadata: ProviderMetadata {
            source: "test".into(),
            studio_environment_id: None,
            studio_session_id: None,
            configured_priority: None,
            protocol: None,
        },
    }
}

#[test]
fn identities_and_tool_references_are_stable() {
    let provider = ProviderId::from_stable_key(b"studio-a");
    assert_eq!(provider, ProviderId::from_stable_key(b"studio-a"));
    let tool = ToolId::for_native_name(provider, "execute_luau");
    let reference = ToolRef { provider_id: provider, tool_id: tool };
    assert_eq!(ToolRef::parse(&reference.to_text()), Ok(reference));
}

#[test]
fn provider_resource_uri_is_opaque_not_concatenated() {
    let provider = ProviderId::from_stable_key(b"resources");
    let original = "custom://host/a/b?q=x#fragment/ü";
    let resource_id = ProviderResourceId::for_original_uri(provider, original);
    let reference = ProviderResourceRef { provider_id: provider, resource_id };
    let encoded = reference.to_text();
    assert!(!encoded.contains(original));
    assert_eq!(ProviderResourceRef::parse(&encoded), Ok(reference));
}

#[test]
fn tool_identity_is_derived_from_provider_and_native_name() {
    let provider = ProviderId::from_stable_key(b"studio-a");
    let key = format!("{}\0{}", provider.to_text(), "execute_luau");
    assert_eq!(ToolId::for_native_name(provider, "execute_luau"), ToolId::from_stable_key(key.as_bytes()));
    assert_ne!(
        ToolId::for_native_name(provider, "execute_luau"),
        ToolId::for_native_name(ProviderId::from_stable_key(b"studio-b"), "execute_luau")
    );
}

#[test]
fn stable_identifiers_use_their_wire_prefixes() {
    let provider = ProviderId::from_stable_key(b"provider");
    let text = provider.to_text();
    assert!(text.starts_with("provider_"));
    assert_eq!(ProviderId::parse(&text), Ok(provider));
    let tool = ToolId::from_stable_key(b"tool");
    assert!(tool.to_text().starts_with("tool_"));
    assert_eq!(ToolId::parse(&tool.to_text()), Ok(tool));
    assert_eq!(ToolId::parse(&provider.to_text()), Err(ToolFabricError::InvalidStableId));
    let resource = ProviderResourceId::from_stable_key(b"resource");
    assert!(resource.to_text().starts_with("provider_resource_"));
    assert_eq!(ProviderResourceId::parse(&resource.to_text()), Ok(resource));
}

#[test]
fn malformed_tool_references_are_rejected() {
    assert_eq!(ToolRef::parse("lattice://provider/x/tool/y"), Err(ToolFabricError::InvalidStableId));
    let provider = ProviderId::from_stable_key(b"p").to_text();
    let tool = ToolId::from_stable_key(b"t").to_text();
    assert_eq!(
        ToolRef::parse(&format!("lattice://provider/{provider}/other/{tool}")),
        Err(ToolFabricError::InvalidToolRef)
    );
    assert_eq!(
        ToolRef::parse(&format!("lattice://provider/{provider}/tool/{tool}/extra")),
        Err(ToolFabricError::InvalidToolRef)
    );
    assert_eq!(ToolRef::parse("not a reference"), Err(ToolFabricError::InvalidToolRef));
}

#[test]
fn capability_ids_are_namespaced_and_versioned() {
    let capability = CapabilityId::parse("roblox:runtime.execute-luau@1").expect("valid capability");
    assert_eq!(capability.as_str(), "roblox:runtime.execute-luau@1");
    assert!(CapabilityId::parse("missing-version").is_err());
    assert!(CapabilityId::parse("roblox:runtime.execute-luau").is_err());
    assert!(CapabilityId::parse("").is_err());
}

#[test]
fn providers_register_once_and_list_in_identity_order() {
    let first = ProviderId::from_stable_key(b"studio");
    let second = ProviderId::from_stable_key(b"cloud");
    let mut providers = ProviderRegistry::new();
    assert_eq!(providers.register(healthy_provider(first, "Studio")), Ok(()));
    assert_eq!(providers.register(healthy_provider(second, "Cloud")), Ok(()));
    assert!(providers.register(healthy_provider(first, "Again")).is_err());
    let listed: Vec<ProviderId> = providers.list().into_iter().map(|provider| provider.id).collect();
    let mut expected = vec![first, second];
    expected.sort();
    assert_eq!(listed, expected);
    assert_eq!(providers.get(first).map(|provider| provider.name.clone()), Some("Studio".to_owned()));
}


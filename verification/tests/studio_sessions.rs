use lattice::platform::model::StudioEnvironmentId;
use lattice::resource::LatticeId;
use lattice::studio::{
    StudioError, StudioManager, StudioMcpConnectionSnapshot, StudioMcpConnectionState,
    StudioMcpTransportKind, StudioSession, StudioState,
};

fn connection(
    studio_session_id: LatticeId,
    environment_id: StudioEnvironmentId,
    process_id: u32,
) -> StudioMcpConnectionSnapshot {
    StudioMcpConnectionSnapshot {
        id: LatticeId::new(),
        studio_session_id,
        environment_id,
        process_id,
        state: StudioMcpConnectionState::Connected,
        transport: StudioMcpTransportKind::Stdio,
        endpoint_identity: "test".into(),
        protocol_version: "test".into(),
        protocol_negotiation: "test".into(),
        protocol_session_model: "test".into(),
        protocol_fallback_reason: None,
        server_name: "test".into(),
        server_version: "1".into(),
        capabilities: Vec::new(),
        tools: Vec::new(),
        tool_catalog_revision: "b3:test".into(),
        connected_at_unix_ms: 0,
        last_successful_request_unix_ms: None,
        last_rtt_micros: None,
        failure_count: 0,
        last_error: None,
    }
}

fn session() -> StudioSession {
    let id = LatticeId::new();
    let environment_id = StudioEnvironmentId::from_fingerprint(b"studio-one");
    StudioSession {
        id,
        external_id: "studio".into(),
        place_label: None,
        state: StudioState::Edit,
        environment_id: Some(environment_id),
        process_id: Some(77),
        capabilities: Vec::new(),
        connected: true,
        mcp_connection: Some(connection(id, environment_id, 77)),
        last_heartbeat_unix_ms: None,
    }
}

#[test]
fn ambiguity_requires_an_explicit_session() {
    let one = session();
    let two = session();
    let mut manager = StudioManager::default();
    manager.replace_sessions(vec![one.clone(), two]);
    assert_eq!(manager.explicit_target(None), Err(StudioError::AmbiguousSession));
    assert_eq!(manager.explicit_target(Some(one.id)), Ok(&one));
}

#[test]
fn session_association_is_instance_specific() {
    let one = session();
    let one_id = one.id;
    let environment = StudioEnvironmentId::from_fingerprint(b"studio-one");
    let mut manager = StudioManager::default();
    manager.replace_sessions(vec![one]);
    assert_eq!(manager.associate_environment(one_id, environment, Some(77)), Ok(()));
    let associated = manager.explicit_target(Some(one_id)).expect("target");
    assert_eq!(associated.environment_id, Some(environment));
    assert_eq!(associated.process_id, Some(77));
}

#[test]
fn connection_binding_rejects_the_wrong_process() {
    let one = session();
    let environment_id = one.environment_id;
    assert!(environment_id.is_some());
    let snapshot = connection(
        one.id,
        environment_id.unwrap_or_else(|| StudioEnvironmentId::from_fingerprint(b"invalid")),
        88,
    );
    let mut manager = StudioManager::default();
    manager.replace_sessions(vec![one]);
    assert_eq!(manager.bind_mcp_connection(snapshot), Err(StudioError::ConnectionBindingMismatch));
}

#[test]
fn no_live_session_is_not_connected() {
    let mut offline = session();
    offline.connected = false;
    let mut manager = StudioManager::new();
    assert_eq!(manager.explicit_target(None), Err(StudioError::NotConnected));
    manager.replace_sessions(vec![offline.clone()]);
    assert_eq!(manager.explicit_target(None), Err(StudioError::NotConnected));
    assert_eq!(manager.explicit_target(Some(offline.id)), Err(StudioError::SessionNotFound(offline.id)));
}

#[test]
fn the_only_live_session_is_the_target() {
    let live = session();
    let mut idle = session();
    if let Some(connection) = idle.mcp_connection.as_mut() {
        connection.state = StudioMcpConnectionState::Disconnected;
    }
    let mut manager = StudioManager::new();
    manager.replace_sessions(vec![idle, live.clone()]);
    assert_eq!(manager.explicit_target(None), Ok(&live));
}

#[test]
fn unknown_sessions_cannot_be_associated_or_bound() {
    let one = session();
    let stranger = LatticeId::new();
    let environment = StudioEnvironmentId::from_fingerprint(b"studio-one");
    let mut manager = StudioManager::new();
    manager.replace_sessions(vec![one]);
    assert_eq!(
        manager.associate_environment(stranger, environment, None),
        Err(StudioError::SessionNotFound(stranger))
    );
    assert_eq!(
        manager.bind_mcp_connection(connection(stranger, environment, 77)),
        Err(StudioError::SessionNotFound(stranger))
    );
}

#[test]
fn a_matching_connection_that_is_not_ready_is_refused_and_a_ready_one_binds() {
    let mut one = session();
    one.mcp_connection = None;
    let environment = one.environment_id.expect("environment");
    let mut manager = StudioManager::new();
    manager.replace_sessions(vec![one.clone()]);
    let mut pending = connection(one.id, environment, 77);
    pending.state = StudioMcpConnectionState::Initializing;
    assert_eq!(
        manager.bind_mcp_connection(pending),
        Err(StudioError::ConnectionNotReady(StudioMcpConnectionState::Initializing))
    );
    assert_eq!(manager.explicit_target(Some(one.id)), Err(StudioError::SessionNotFound(one.id)));
    let ready = connection(one.id, environment, 77);
    assert_eq!(manager.bind_mcp_connection(ready.clone()), Ok(()));
    assert_eq!(manager.sessions()[0].mcp_connection, Some(ready));
    assert_eq!(manager.explicit_target(Some(one.id)).map(|s| s.id), Ok(one.id));
}

#[test]
fn studio_errors_carry_stable_codes() {
    assert_eq!(
        StudioError::NotConnected.to_text(),
        "STUDIO_NOT_CONNECTED: no Roblox Studio MCP launcher/session is available"
    );
    assert_eq!(
        StudioError::ConnectionNotReady(StudioMcpConnectionState::Failed).to_text(),
        "STUDIO_NOT_CONNECTED: MCP connection state Failed cannot accept requests"
    );
    let id = LatticeId::from_bytes([0; 16]);
    assert_eq!(
        StudioError::SessionNotFound(id).to_text(),
        "RESOURCE_NOT_FOUND: Studio session 00000000-0000-0000-0000-000000000000 is unavailable"
    );
}

use lattice::bridge::auth::{opaque_nonce, validate_protocol, validate_small_identifier, StudioBridgeAuthToken};
use lattice::bridge::broker::StudioBridgeBroker;
use lattice::bridge::model::{
    StudioBridgeBinding, StudioBridgeCommandPayload, StudioBridgeCommandResult, StudioBridgeError,
    StudioBridgeEvent, StudioBridgeLimits, StudioBridgePairingRequest, StudioBridgeRegistration,
    StudioBridgeReport, StudioBridgeSessionId, StudioBridgeSessionState, StudioDataModel,
    BRIDGE_PROTOCOL_VERSION,
};
use lattice::bridge::pairing::PairingState;
use lattice::bridge::service::{
    authorize, bearer_credential, check_pairing_request, discovery_response, PairingRequestVerdict,
    BRIDGE_SERVICE_NAME,
};
use lattice::platform::model::StudioEnvironmentId;
use lattice::resource::LatticeId;

type Broker = StudioBridgeBroker<String>;

fn registration(external: &str) -> StudioBridgeRegistration {
    StudioBridgeRegistration {
        protocol_version: BRIDGE_PROTOCOL_VERSION,
        external_session_id: external.to_owned(),
        plugin_version: "0.1.0".to_owned(),
        data_model: StudioDataModel::Edit,
        place_id: Some(42),
        universe_id: Some(7),
        is_running: false,
    }
}

fn report(session_id: StudioBridgeSessionId, sequence: u64) -> StudioBridgeReport<String, String> {
    StudioBridgeReport {
        protocol_version: BRIDGE_PROTOCOL_VERSION,
        session_id,
        report_sequence: sequence,
        data_model: StudioDataModel::Edit,
        place_id: Some(42),
        universe_id: Some(7),
        is_running: false,
        events: Vec::new(),
        command_results: Vec::new(),
    }
}

fn binding(fingerprint: &[u8], process_id: u32) -> StudioBridgeBinding {
    StudioBridgeBinding {
        studio_session_id: LatticeId::new(),
        environment_id: StudioEnvironmentId::from_fingerprint(fingerprint),
        process_id,
    }
}

fn heartbeat(sequence: u64) -> StudioBridgeEvent<String> {
    StudioBridgeEvent {
        event_id: format!("event-{sequence}"),
        sequence,
        observed_unix_ms: 0,
        payload: "heartbeat".to_owned(),
    }
}

#[test]
fn registration_is_stable_and_session_binding_is_explicit() {
    let mut broker = Broker::new(StudioBridgeLimits::default());
    let first = broker.register(registration("plugin-window-a"), 1_000).expect("register");
    let second = broker.register(registration("plugin-window-a"), 1_010).expect("register");
    assert_eq!(first.session_id, second.session_id);
    assert!(matches!(
        broker.enqueue_command(first.session_id, StudioBridgeCommandPayload::GetStudioState),
        Err(StudioBridgeError::SessionUnbound(_))
    ));
    broker.bind_session(first.session_id, binding(b"studio-a", 99)).expect("bind");
    assert_eq!(broker.session_snapshots(1_020)[0].state, StudioBridgeSessionState::Bound);
}

#[test]
fn report_replay_never_issues_a_new_command() {
    let mut broker = Broker::new(StudioBridgeLimits { command_timeout_ms: 2_000, ..StudioBridgeLimits::default() });
    let registered = broker.register(registration("plugin-window-a"), 1_000).expect("register");
    let session_id = registered.session_id;
    broker.bind_session(session_id, binding(b"studio-a", 99)).expect("bind");
    let command_id = broker
        .enqueue_command(session_id, StudioBridgeCommandPayload::GetStudioState)
        .expect("enqueue");
    let (first, _) = broker.report(report(session_id, 1), 1_100).expect("report");
    let (replay, _) = broker.report(report(session_id, 1), 1_200).expect("replay");
    assert_eq!(first, replay);
    assert_eq!(first.commands.len(), 1);
    assert_eq!(first.commands[0].id, command_id);

    let mut completion = report(session_id, 2);
    completion.command_results.push(StudioBridgeCommandResult {
        command_id,
        succeeded: true,
        value: Some("{\"state\":\"edit\"}".to_owned()),
        error_code: None,
        error_message: None,
    });
    let (after, routed) = broker.report(completion, 1_300).expect("completion");
    assert_eq!(routed.len(), 1);
    assert!(routed[0].succeeded);
    assert_eq!(routed[0].command_id, command_id);
    assert!(after.commands.is_empty());
}

#[test]
fn commands_never_cross_studio_sessions() {
    let mut broker = Broker::new(StudioBridgeLimits::default());
    let first = broker.register(registration("plugin-window-a"), 1_000).expect("register");
    let second = broker.register(registration("plugin-window-b"), 1_000).expect("register");
    broker.bind_session(first.session_id, binding(b"studio-a", 99)).expect("bind");
    broker.bind_session(second.session_id, binding(b"studio-b", 100)).expect("bind");

    let command_id = broker
        .enqueue_command(first.session_id, StudioBridgeCommandPayload::GetSelection)
        .expect("enqueue");
    let (other, _) = broker.report(report(second.session_id, 1), 1_100).expect("report");
    assert!(other.commands.is_empty());
    let (mine, _) = broker.report(report(first.session_id, 1), 1_100).expect("report");
    assert_eq!(mine.commands.len(), 1);
    assert_eq!(mine.commands[0].id, command_id);

    let mut completion = report(first.session_id, 2);
    completion.command_results.push(StudioBridgeCommandResult {
        command_id,
        succeeded: true,
        value: Some("{\"instances\":[]}".to_owned()),
        error_code: None,
        error_message: None,
    });
    let (_, routed) = broker.report(completion, 1_200).expect("completion");
    assert!(routed[0].succeeded);
}

#[test]
fn event_retention_is_bounded_and_counted() {
    let mut broker = Broker::new(StudioBridgeLimits {
        max_events_per_session: 2,
        max_events_per_report: 3,
        ..StudioBridgeLimits::default()
    });
    let registered = broker.register(registration("plugin-window-a"), 1_000).expect("register");
    let mut incoming = report(registered.session_id, 1);
    incoming.events = (1..=3).map(heartbeat).collect();
    let (response, _) = broker.report(incoming, 1_100).expect("report");
    assert_eq!(response.dropped_events_total, 1);
    let events = broker.drain_events(registered.session_id, 10).expect("drain");
    assert_eq!(events.len(), 2);
    assert_eq!(events[0].sequence, 2);
}

#[test]
fn authentication_tokens_are_redacted_and_compared() {
    let token = StudioBridgeAuthToken::new(b"01234567890123456789012345678901".to_vec()).expect("token");
    assert!(token.matches(b"01234567890123456789012345678901"));
    assert!(!token.matches(b"11234567890123456789012345678901"));
    assert_eq!(token.redacted_text(), "StudioBridgeAuthToken([REDACTED])");
}

#[test]
fn tokens_outside_the_allowed_length_are_refused() {
    assert!(matches!(
        StudioBridgeAuthToken::new(vec![b'x'; 31]),
        Err(StudioBridgeError::InvalidAuthenticationConfiguration)
    ));
    assert!(matches!(
        StudioBridgeAuthToken::new(vec![b'x'; 257]),
        Err(StudioBridgeError::InvalidAuthenticationConfiguration)
    ));
    assert!(StudioBridgeAuthToken::new(vec![b'x'; 256]).is_ok());
}

#[test]
fn out_of_order_reports_are_rejected_and_unknown_sessions_are_not_found() {
    let mut broker = Broker::new(StudioBridgeLimits::default());
    let registered = broker.register(registration("plugin"), 1_000).expect("register");
    broker.report(report(registered.session_id, 5), 1_100).expect("report");
    assert!(matches!(
        broker.report(report(registered.session_id, 4), 1_200),
        Err(StudioBridgeError::OutOfOrderReport { previous: 5, received: 4 })
    ));
    let stranger = StudioBridgeSessionId::new();
    assert!(matches!(
        broker.report(report(stranger, 1), 1_200),
        Err(StudioBridgeError::SessionNotFound(_))
    ));
    assert!(matches!(broker.drain_events(stranger, 1), Err(StudioBridgeError::SessionNotFound(_))));
}

#[test]
fn protocol_mismatch_and_invalid_registrations_are_refused() {
    let mut broker = Broker::new(StudioBridgeLimits::default());
    let mut wrong = registration("plugin");
    wrong.protocol_version = BRIDGE_PROTOCOL_VERSION + 1;
    assert!(matches!(broker.register(wrong, 1_000), Err(StudioBridgeError::ProtocolMismatch { .. })));
    assert!(matches!(broker.register(registration(""), 1_000), Err(StudioBridgeError::InvalidRegistration)));
    assert!(matches!(
        broker.register(registration("bad\u{7}name"), 1_000),
        Err(StudioBridgeError::InvalidRegistration)
    ));
    assert!(validate_protocol(BRIDGE_PROTOCOL_VERSION).is_ok());
    assert!(validate_small_identifier("plugin-window").is_ok());
}

#[test]
fn session_capacity_is_bounded() {
    let mut broker = Broker::new(StudioBridgeLimits { max_sessions: 1, ..StudioBridgeLimits::default() });
    broker.register(registration("a"), 1_000).expect("register");
    assert!(matches!(broker.register(registration("b"), 1_000), Err(StudioBridgeError::SessionCapacityExceeded)));
    assert!(broker.register(registration("a"), 1_000).is_ok());
}

#[test]
fn command_capacity_is_bounded_per_session() {
    let mut broker = Broker::new(StudioBridgeLimits {
        max_pending_commands_per_session: 1,
        ..StudioBridgeLimits::default()
    });
    let registered = broker.register(registration("a"), 1_000).expect("register");
    broker.bind_session(registered.session_id, binding(b"studio-a", 1)).expect("bind");
    broker.enqueue_command(registered.session_id, StudioBridgeCommandPayload::GetSelection).expect("first");
    assert!(matches!(
        broker.enqueue_command(registered.session_id, StudioBridgeCommandPayload::GetSelection),
        Err(StudioBridgeError::CommandCapacityExceeded(_))
    ));
}

#[test]
fn rebinding_to_another_studio_conflicts() {
    let mut broker = Broker::new(StudioBridgeLimits::default());
    let registered = broker.register(registration("a"), 1_000).expect("register");
    let first = binding(b"studio-a", 1);
    broker.bind_session(registered.session_id, first).expect("bind");
    broker.bind_session(registered.session_id, first).expect("same binding again");
    assert!(matches!(
        broker.bind_session(registered.session_id, binding(b"studio-b", 2)),
        Err(StudioBridgeError::BindingConflict)
    ));
}

#[test]
fn a_removed_command_is_never_dispatched() {
    let mut broker = Broker::new(StudioBridgeLimits::default());
    let registered = broker.register(registration("a"), 1_000).expect("register");
    broker.bind_session(registered.session_id, binding(b"studio-a", 1)).expect("bind");
    let id = broker
        .enqueue_command(registered.session_id, StudioBridgeCommandPayload::GetStudioState)
        .expect("enqueue");
    broker.remove_command(registered.session_id, id);
    let (response, _) = broker.report(report(registered.session_id, 1), 1_100).expect("report");
    assert!(response.commands.is_empty());
}

#[test]
fn expired_sessions_are_forgotten_and_silent_ones_go_stale() {
    let mut broker = Broker::new(StudioBridgeLimits { session_ttl_ms: 100, ..StudioBridgeLimits::default() });
    let registered = broker.register(registration("a"), 1_000).expect("register");
    let snapshots = broker.session_snapshots(1_050);
    assert_eq!(snapshots.len(), 1);
    assert_eq!(snapshots[0].state, StudioBridgeSessionState::Unbound);
    assert_eq!(snapshots[0].id, registered.session_id);
    let stale = broker.session_snapshots(5_000);
    assert_eq!(stale.len(), 1);
    assert_eq!(stale[0].state, StudioBridgeSessionState::Stale);
    let again = broker.register(registration("a"), 5_000).expect("register");
    assert_ne!(again.session_id, registered.session_id);
    assert_eq!(broker.session_snapshots(5_000).len(), 1);
}

#[test]
fn pairing_challenges_redeem_once_for_a_recognised_credential() {
    let mut pairing = PairingState::new();
    let (challenge, expires) = pairing.issue_challenge(1_000);
    assert_eq!(expires, 31_000);
    let (credential, session_expires) = pairing.redeem(&challenge, 2_000).expect("redeem");
    assert_eq!(session_expires, 2_000 + 43_200_000);
    assert!(pairing.redeem(&challenge, 2_001).is_none());
    assert!(pairing.matches(&credential, 3_000));
    assert!(!pairing.matches("not-a-credential", 3_000));
    assert!(!pairing.matches(&credential, session_expires + 1));
}

#[test]
fn expired_challenges_cannot_be_redeemed() {
    let mut pairing = PairingState::new();
    let (challenge, expires) = pairing.issue_challenge(1_000);
    assert!(pairing.redeem(&challenge, expires + 1).is_none());
}

#[test]
fn authorization_prefers_the_configured_token_then_paired_credentials() {
    let token = StudioBridgeAuthToken::new(vec![b'k'; 32]).expect("token");
    let mut pairing = PairingState::new();
    let manual = Some(token);
    assert!(authorize(&manual, &mut pairing, &"k".repeat(32), 10));
    assert!(!authorize(&manual, &mut pairing, "other", 10));
    let (challenge, _) = pairing.issue_challenge(10);
    let (credential, _) = pairing.redeem(&challenge, 11).expect("redeem");
    assert!(authorize(&manual, &mut pairing, &credential, 12));
    assert!(authorize(&None, &mut pairing, &credential, 12));
}

#[test]
fn bearer_headers_yield_their_credential() {
    assert_eq!(bearer_credential("Bearer abc"), Some("abc".to_owned()));
    assert_eq!(bearer_credential("Basic abc"), None);
    assert_eq!(bearer_credential("bearer abc"), None);
}

#[test]
fn pairing_requests_must_name_a_known_companion() {
    let request = |kind: &str, name: Option<&str>| StudioBridgePairingRequest {
        challenge: "pairing_challenge_1".to_owned(),
        client_kind: kind.to_owned(),
        client_name: name.map(str::to_owned),
    };
    assert_eq!(check_pairing_request(&request("roblox-studio-plugin", None)), PairingRequestVerdict::Acceptable);
    assert_eq!(check_pairing_request(&request("lattice-desktop", Some("desk"))), PairingRequestVerdict::Acceptable);
    assert_eq!(check_pairing_request(&request("browser", None)), PairingRequestVerdict::Rejected);
    assert_eq!(
        check_pairing_request(&request("lattice-desktop", Some(""))),
        PairingRequestVerdict::InvalidClientName
    );
}

#[test]
fn discovery_names_the_service_and_its_challenge() {
    let response = discovery_response("pairing_challenge_x".to_owned(), 99);
    assert_eq!(response.service, BRIDGE_SERVICE_NAME);
    assert_eq!(response.protocol_version, BRIDGE_PROTOCOL_VERSION);
    assert_eq!(response.authentication, "loopback_auto_pair");
    assert_eq!(response.challenge, "pairing_challenge_x");
    assert_eq!(response.challenge_expires_unix_ms, 99);
}

#[test]
fn nonces_are_prefixed_and_unguessable() {
    let first = opaque_nonce("pairing_challenge");
    let second = opaque_nonce("pairing_challenge");
    assert!(first.starts_with("pairing_challenge_"));
    assert_eq!(first.len(), "pairing_challenge_".len() + 64);
    assert_ne!(first, second);
}

#[test]
fn bridge_errors_map_to_codes_and_statuses() {
    assert_eq!(StudioBridgeError::BindingConflict.http_status(), 409);
    assert_eq!(StudioBridgeError::SessionCapacityExceeded.http_status(), 429);
    assert_eq!(StudioBridgeError::SessionNotFound(StudioBridgeSessionId::new()).http_status(), 404);
    assert_eq!(StudioBridgeError::InvalidRegistration.http_status(), 400);
    assert!(StudioBridgeError::ReportLimitExceeded
        .to_text()
        .starts_with("STUDIO_BRIDGE_REPORT_LIMIT"));
}

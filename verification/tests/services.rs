use lattice::cli::command_documentation;
use lattice::connections::{
    call_deadline_ms, place_result, read_range, DenyAllPolicy, PolicyEnforcer, PolicyRequest,
    ProviderError, ResultPlacement, ResultRef, INLINE_RESULT_LIMIT, RESULT_SIZE_LIMIT,
};
use lattice::model::{ErrorCode, LatticeError};
use lattice::northbound::{capabilities, inline_search_limit, query_is_blank};
use lattice::platform::host_path::HostPath;
use lattice::protocol::{McpNegotiation, McpNegotiationPath, McpSessionModel};
use lattice::resource::ContentHash;
use lattice::storage::{CacheLayout, ObjectStore};
use lattice::fabric::SchemaRevision;
use lattice::tools::{ProviderId, ToolId, ToolRef};

#[test]
fn profiles_do_not_share_session_semantics() {
    let modern = McpNegotiation::from_negotiated_version("2026-07-28");
    assert_eq!(modern.path, McpNegotiationPath::ServerDiscover);
    assert_eq!(modern.features.session_model, McpSessionModel::StatelessPerRequest);
    assert!(!modern.features.standalone_http_get_stream);

    let legacy = McpNegotiation::from_negotiated_version("2025-11-25");
    assert_eq!(legacy.path, McpNegotiationPath::InitializeFallback);
    assert_eq!(legacy.features.session_model, McpSessionModel::LegacyConnectionSession);
    assert!(legacy.features.standalone_http_get_stream);
    assert_eq!(legacy.negotiated_revision, "2025-11-25");
}

#[test]
fn a_fallback_reason_marks_the_initialize_path() {
    let modern = McpNegotiation::from_negotiated_version("2026-07-28");
    let same = modern.clone().with_fallback_reason(None);
    assert_eq!(same, modern);
    let fallback = modern.with_fallback_reason(Some("method not found".to_owned()));
    assert_eq!(fallback.path, McpNegotiationPath::InitializeFallback);
    assert_eq!(fallback.fallback_reason.as_deref(), Some("method not found"));
}

#[test]
fn cache_layout_places_everything_under_the_project() {
    let layout = CacheLayout::for_project(&HostPath::new("/work/game"));
    assert_eq!(layout.root().to_text(), "/work/game/.lattice");
    assert_eq!(layout.database_path().to_text(), "/work/game/.lattice/database.sqlite");
    assert_eq!(layout.index_path().to_text(), "/work/game/.lattice/indexes/source");
    assert_eq!(layout.tool_index_path().to_text(), "/work/game/.lattice/indexes/tools");
    let directories: Vec<String> = layout.directories().iter().map(|path| path.to_text()).collect();
    assert_eq!(
        directories,
        vec![
            "/work/game/.lattice/objects/b3",
            "/work/game/.lattice/indexes",
            "/work/game/.lattice/snapshots",
            "/work/game/.lattice/logs",
        ]
    );
}

#[test]
fn object_store_detects_and_reads_content() {
    let layout = CacheLayout::for_project(&HostPath::new("/work/game"));
    let store = layout.object_store();
    let hash = ContentHash::of(b"return 42");
    let hex = hash.to_hex();
    assert_eq!(
        store.path_for(hash).to_text(),
        format!("/work/game/.lattice/objects/b3/{}/{}", &hex[..2], &hex[2..])
    );
    assert!(ObjectStore::holds(b"return 42", hash));
    assert!(!ObjectStore::holds(b"return 43", hash));
}

#[test]
fn deny_by_default_blocks_dispatch() {
    let provider_id = ProviderId::from_stable_key(b"provider");
    let decision = DenyAllPolicy.authorize(&PolicyRequest {
        caller: "agent".to_owned(),
        provider_id,
        tool_ref: ToolRef { provider_id, tool_id: ToolId::for_native_name(provider_id, "delete") },
        schema_revision: SchemaRevision(ContentHash::of(b"{}")),
        arguments_hash: ContentHash::of(b"{}"),
    });
    assert!(!decision.allowed);
    assert_eq!(decision.reason, "deny-by-default: no execution policy is configured");
}

#[test]
fn large_results_are_immutable_references() {
    assert_eq!(place_result(10, INLINE_RESULT_LIMIT, RESULT_SIZE_LIMIT), ResultPlacement::Inline);
    assert_eq!(place_result(INLINE_RESULT_LIMIT, INLINE_RESULT_LIMIT, RESULT_SIZE_LIMIT), ResultPlacement::Inline);
    assert_eq!(place_result(INLINE_RESULT_LIMIT + 1, INLINE_RESULT_LIMIT, RESULT_SIZE_LIMIT), ResultPlacement::Stored);
    assert_eq!(place_result(RESULT_SIZE_LIMIT + 1, INLINE_RESULT_LIMIT, RESULT_SIZE_LIMIT), ResultPlacement::TooLarge);
    let reference = ResultRef::new();
    assert!(reference.to_text().starts_with("lattice://result/"));
    assert_ne!(reference, ResultRef::new());
}

#[test]
fn deadlines_never_exceed_the_default() {
    assert_eq!(call_deadline_ms(None, 30_000), 30_000);
    assert_eq!(call_deadline_ms(Some(5_000), 30_000), 5_000);
    assert_eq!(call_deadline_ms(Some(90_000), 30_000), 30_000);
}

#[test]
fn stored_results_read_in_clamped_ranges() {
    let bytes = b"0123456789";
    assert_eq!(read_range(bytes, 2, 3), b"234".to_vec());
    assert_eq!(read_range(bytes, 8, 10), b"89".to_vec());
    assert_eq!(read_range(bytes, 20, 5), Vec::<u8>::new());
}

#[test]
fn provider_errors_carry_codes() {
    assert_eq!(ProviderError::Connection("refused".to_owned()).to_text(), "PROVIDER_CONNECTION_FAILED: refused");
    assert_eq!(ProviderError::Cancelled.to_text(), "OPERATION_CANCELLED: provider operation was cancelled");
}

#[test]
fn search_limits_are_bounded() {
    assert_eq!(inline_search_limit(None), (10, false));
    assert_eq!(inline_search_limit(Some(0)), (1, false));
    assert_eq!(inline_search_limit(Some(25)), (25, false));
    assert_eq!(inline_search_limit(Some(500)), (50, true));
    assert!(query_is_blank(" \t\n"));
    assert!(query_is_blank(""));
    assert!(!query_is_blank(" inventory "));
}

#[test]
fn the_server_offers_read_only_operations() {
    let offered = capabilities();
    assert!(!offered.mutation_enabled);
    assert_eq!(offered.result_resource_threshold_bytes, 65_536);
    assert_eq!(offered.operations.len(), 6);
    assert_eq!(offered.operations[0], "lattice.workspace.status");
}

#[test]
fn every_documented_command_has_a_usage_line() {
    let commands = command_documentation();
    assert_eq!(commands.len(), 18);
    assert_eq!(commands[0].path, "lattice workspace open");
    for command in &commands {
        assert!(command.usage.starts_with(&command.path));
    }
}

#[test]
fn error_codes_are_stable() {
    assert_eq!(ErrorCode::StudioNotConnected.code(), "STUDIO_NOT_CONNECTED");
    assert_eq!(ErrorCode::Internal.mechanical_action(), "Preserve the OperationId and inspect daemon logs.");
    let error = LatticeError::new(ErrorCode::ResourceNotFound, "missing", true).with_action("look again");
    assert_eq!(error.body.code, ErrorCode::ResourceNotFound);
    assert_eq!(error.body.recommended_action.as_deref(), Some("look again"));
}

//! The northbound operations offered to MCP clients: request and response
//! shapes, and the checks and bounds applied to requests.
use vstd::prelude::*;
use crate::text::chars_of;

verus! {

pub const DEFAULT_SEARCH_LIMIT: usize = 10;

pub const MAX_INLINE_SEARCH_RESULTS: usize = 50;

#[derive(Clone, Debug)]
pub struct SearchRequest {
    pub query: String,
    pub limit: Option<usize>,
}

#[derive(Clone, Debug)]
pub struct SearchHitResponse {
    pub resource_ref: String,
    pub display_path: String,
    pub name: String,
    pub score_milli: i64,
    pub content_hash: String,
    pub evidence_id: String,
    pub evidence_origin: String,
    pub revision: u64,
}

#[derive(Clone, Debug)]
pub struct SearchResponse {
    pub query: String,
    pub hits: Vec<SearchHitResponse>,
    pub truncated: bool,
}

#[derive(Clone, Debug)]
pub struct WorkspaceStatusResponse {
    pub workspace_id: String,
    pub name: String,
    pub root: String,
    pub revision: u64,
    pub source_count: u64,
    pub graph_nodes: usize,
}

#[derive(Clone, Debug)]
pub struct CapabilitiesResponse {
    pub protocol: String,
    pub operations: Vec<String>,
    pub result_resource_threshold_bytes: u64,
    pub mutation_enabled: bool,
}

#[derive(Clone, Debug)]
pub struct ProviderSummaryResponse {
    pub provider_id: String,
    pub name: String,
    pub kind: String,
    pub connection_state: String,
    pub health: String,
    pub reason: String,
    pub tool_count: u64,
}

#[derive(Clone, Debug)]
pub struct ProviderListResponse {
    pub providers: Vec<ProviderSummaryResponse>,
}

#[derive(Clone, Debug)]
pub struct ToolSearchRequest {
    pub query: String,
    pub limit: Option<usize>,
}

#[derive(Clone, Debug)]
pub struct ToolSummaryResponse {
    pub tool_ref: String,
    pub native_name: String,
    pub title: Option<String>,
    pub provider_id: String,
    pub capabilities: Vec<String>,
    pub availability: String,
    pub trust: String,
}

#[derive(Clone, Debug)]
pub struct ToolSearchResponse {
    pub query: String,
    pub tools: Vec<ToolSummaryResponse>,
}

#[derive(Clone, Debug)]
pub struct ToolInspectRequest {
    pub tool_ref: String,
}

/// Where the authoritative daemon listens.
#[derive(Clone, Debug)]
pub struct DaemonEndpointInfo {
    pub transport: String,
    pub address: String,
    pub pid: u32,
}

/// A Unicode white-space character (property `White_Space`).
pub open spec fn is_white_space(c: char) -> bool {
    let n = c as u32;
    (0x09 <= n && n <= 0x0d) || n == 0x20 || n == 0x85 || n == 0xa0 || n == 0x1680 || (0x2000 <= n && n <= 0x200a)
        || n == 0x2028 || n == 0x2029 || n == 0x202f || n == 0x205f || n == 0x3000
}

fn char_is_white_space(c: char) -> (r: bool)
    ensures
        r == is_white_space(c),
{
    let n = c as u32;
    (0x09 <= n && n <= 0x0d) || n == 0x20 || n == 0x85 || n == 0xa0 || n == 0x1680 || (0x2000 <= n && n <= 0x200a)
        || n == 0x2028 || n == 0x2029 || n == 0x202f || n == 0x205f || n == 0x3000
}

/// A query with nothing but white space is refused.
pub fn query_is_blank(query: &str) -> (r: bool)
    ensures
        r == forall|i: int| 0 <= i < query@.len() ==> is_white_space(#[trigger] query@[i]),
{
    let chars = chars_of(query);
    let mut i: usize = 0;
    while i < chars.len()
        invariant
            i <= chars@.len(),
            chars@ == query@,
            forall|k: int| 0 <= k < i ==> is_white_space(#[trigger] chars@[k]),
        decreases chars@.len() - i,
    {
        if !char_is_white_space(chars[i]) {
            return false;
        }
        i = i + 1;
    }
    true
}

/// The number of hits a search returns inline (the request's limit, ten by
/// default, bounded to `1..=50`), and whether the request asked for more.
pub fn inline_search_limit(requested: Option<usize>) -> (r: (usize, bool))
    ensures
        ({
            let asked = match requested {
                Some(n) => n as int,
                None => DEFAULT_SEARCH_LIMIT as int,
            };
            let bounded = if asked < 1 { 1 } else if asked > MAX_INLINE_SEARCH_RESULTS { MAX_INLINE_SEARCH_RESULTS as int } else { asked };
            r.0 == bounded && r.1 == (asked > bounded)
        }),
{
    let asked = match requested {
        Some(n) => n,
        None => DEFAULT_SEARCH_LIMIT,
    };
    let bounded = if asked < 1 { 1 } else if asked > MAX_INLINE_SEARCH_RESULTS { MAX_INLINE_SEARCH_RESULTS } else { asked };
    (bounded, asked > bounded)
}

/// The operations this server offers; nothing mutates.
pub fn capabilities() -> (r: CapabilitiesResponse)
    ensures
        r.protocol@ == "MCP 2026-07-28 via rmcp 3.1.2"@,
        r.operations@.map_values(|s: String| s@) == seq![
            "lattice.workspace.status"@,
            "lattice.search"@,
            "lattice.capabilities"@,
            "lattice.provider.list"@,
            "lattice.tool.search"@,
            "lattice.tool.inspect"@,
        ],
        r.result_resource_threshold_bytes == 65536,
        !r.mutation_enabled,
{
    let operations = vec![
        "lattice.workspace.status".to_owned(),
        "lattice.search".to_owned(),
        "lattice.capabilities".to_owned(),
        "lattice.provider.list".to_owned(),
        "lattice.tool.search".to_owned(),
        "lattice.tool.inspect".to_owned(),
    ];
    let r = CapabilitiesResponse {
        protocol: "MCP 2026-07-28 via rmcp 3.1.2".to_owned(),
        operations,
        result_resource_threshold_bytes: 65536,
        mutation_enabled: false,
    };
    proof {
        assert(r.operations@.map_values(|s: String| s@) =~= seq![
            "lattice.workspace.status"@,
            "lattice.search"@,
            "lattice.capabilities"@,
            "lattice.provider.list"@,
            "lattice.tool.search"@,
            "lattice.tool.inspect"@,
        ]);
    }
    r
}

} // verus!

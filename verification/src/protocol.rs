//! MCP lifecycle compatibility profiles: which behaviour a negotiated
//! protocol revision selects.
use vstd::prelude::*;
use crate::fabric::ProviderProtocolMetadata;
use crate::order::{char_ints, chars_less, lex_less};
use crate::text::{chars_of, string_from_chars};

verus! {

pub const MODERN_MCP_REVISION: &'static str = "2026-07-28";

#[derive(Clone, Debug, Eq, PartialEq)]
pub enum McpProtocolProfile {
    Modern2026_07_28,
    Legacy2025 { revision: String },
}

#[derive(Clone, Copy, Debug, Eq, PartialEq, Structural)]
pub enum McpNegotiationPath {
    ServerDiscover,
    InitializeFallback,
}

#[derive(Clone, Copy, Debug, Eq, PartialEq, Structural)]
pub enum McpSessionModel {
    StatelessPerRequest,
    LegacyConnectionSession,
}

#[derive(Clone, Copy, Debug, Eq, PartialEq, Structural)]
pub enum McpCatalogChangeModel {
    SubscriptionsListen,
    LegacyNotifications,
}

#[derive(Clone, Debug, Eq, PartialEq)]
pub struct McpProtocolFeatures {
    pub per_request_metadata: bool,
    pub session_model: McpSessionModel,
    pub cancellation_model: String,
    pub catalog_change_model: McpCatalogChangeModel,
    pub standalone_http_get_stream: bool,
}

#[derive(Clone, Debug, Eq, PartialEq)]
pub struct McpNegotiation {
    pub profile: McpProtocolProfile,
    pub negotiated_revision: String,
    pub path: McpNegotiationPath,
    pub fallback_reason: Option<String>,
    pub features: McpProtocolFeatures,
}

#[derive(Clone, Debug, Eq, PartialEq)]
pub enum McpStartupMode {
    Automatic,
    VerifiedLegacyFallback { reason: String },
}

/// A revision (an ISO date) at or after the modern revision.
pub open spec fn is_modern(version: Seq<char>) -> bool {
    !lex_less(char_ints(version), char_ints("2026-07-28"@))
}

fn text(s: &str) -> (r: String)
    ensures
        r@ == s@,
{
    string_from_chars(chars_of(s).as_slice())
}

impl McpNegotiation {
    /// The profile a negotiated revision selects: the modern stateless
    /// profile from 2026-07-28 on, the legacy session profile before.
    pub fn from_negotiated_version(version: &str) -> (r: McpNegotiation)
        ensures
            is_modern(version@) ==> r.profile == McpProtocolProfile::Modern2026_07_28
                && r.negotiated_revision@ == "2026-07-28"@ && r.path == McpNegotiationPath::ServerDiscover
                && r.fallback_reason is None && r.features.per_request_metadata
                && r.features.session_model == McpSessionModel::StatelessPerRequest
                && r.features.catalog_change_model == McpCatalogChangeModel::SubscriptionsListen
                && !r.features.standalone_http_get_stream,
            !is_modern(version@) ==> (r.profile matches McpProtocolProfile::Legacy2025 { revision: v } && v@ == version@)
                && r.negotiated_revision@ == version@ && r.path == McpNegotiationPath::InitializeFallback
                && r.fallback_reason is Some && !r.features.per_request_metadata
                && r.features.session_model == McpSessionModel::LegacyConnectionSession
                && r.features.catalog_change_model == McpCatalogChangeModel::LegacyNotifications
                && r.features.standalone_http_get_stream,
    {
        let v = chars_of(version);
        let modern = chars_of(MODERN_MCP_REVISION);
        if !chars_less(v.as_slice(), modern.as_slice()) {
            McpNegotiation {
                profile: McpProtocolProfile::Modern2026_07_28,
                negotiated_revision: text(MODERN_MCP_REVISION),
                path: McpNegotiationPath::ServerDiscover,
                fallback_reason: None,
                features: McpProtocolFeatures {
                    per_request_metadata: true,
                    session_model: McpSessionModel::StatelessPerRequest,
                    cancellation_model: text("transport-specific request cancellation"),
                    catalog_change_model: McpCatalogChangeModel::SubscriptionsListen,
                    standalone_http_get_stream: false,
                },
            }
        } else {
            McpNegotiation {
                profile: McpProtocolProfile::Legacy2025 { revision: text(version) },
                negotiated_revision: text(version),
                path: McpNegotiationPath::InitializeFallback,
                fallback_reason: Some(text("server/discover returned JSON-RPC method-not-found; legacy initialize was used")),
                features: McpProtocolFeatures {
                    per_request_metadata: false,
                    session_model: McpSessionModel::LegacyConnectionSession,
                    cancellation_model: text("notifications/cancelled"),
                    catalog_change_model: McpCatalogChangeModel::LegacyNotifications,
                    standalone_http_get_stream: true,
                },
            }
        }
    }

    /// Records a fallback: a reason, if given, marks the negotiation as the
    /// initialize fallback; without one nothing changes.
    pub fn with_fallback_reason(self, reason: Option<String>) -> (r: McpNegotiation)
        ensures
            reason is Some ==> r == (McpNegotiation { fallback_reason: reason, path: McpNegotiationPath::InitializeFallback, ..self }),
            reason is None ==> r == self,
    {
        let mut n = self;
        if reason.is_some() {
            n.fallback_reason = reason;
            n.path = McpNegotiationPath::InitializeFallback;
        }
        n
    }

    /// The descriptive protocol metadata a provider reports.
    pub fn provider_metadata(&self) -> (r: ProviderProtocolMetadata)
        ensures
            r.family@ == "MCP"@,
            r.revision@ == self.negotiated_revision@,
            r.negotiation@ == (match self.path {
                McpNegotiationPath::ServerDiscover => "server/discover"@,
                McpNegotiationPath::InitializeFallback => "initialize fallback"@,
            }),
            r.session_model@ == (match self.features.session_model {
                McpSessionModel::StatelessPerRequest => "stateless per request"@,
                McpSessionModel::LegacyConnectionSession => "legacy connection session"@,
            }),
            r.cancellation_model@ == self.features.cancellation_model@,
            r.catalog_change_model@ == (match self.features.catalog_change_model {
                McpCatalogChangeModel::SubscriptionsListen => "subscriptions/listen"@,
                McpCatalogChangeModel::LegacyNotifications => "legacy notifications"@,
            }),
            match (r.fallback_reason, self.fallback_reason) {
                (Some(a), Some(b)) => a@ == b@,
                (None, None) => true,
                _ => false,
            },
    {
        ProviderProtocolMetadata {
            family: text("MCP"),
            revision: self.negotiated_revision.clone(),
            negotiation: match self.path {
                McpNegotiationPath::ServerDiscover => text("server/discover"),
                McpNegotiationPath::InitializeFallback => text("initialize fallback"),
            },
            session_model: match self.features.session_model {
                McpSessionModel::StatelessPerRequest => text("stateless per request"),
                McpSessionModel::LegacyConnectionSession => text("legacy connection session"),
            },
            cancellation_model: self.features.cancellation_model.clone(),
            catalog_change_model: match self.features.catalog_change_model {
                McpCatalogChangeModel::SubscriptionsListen => text("subscriptions/listen"),
                McpCatalogChangeModel::LegacyNotifications => text("legacy notifications"),
            },
            fallback_reason: match &self.fallback_reason {
                Some(f) => Some(f.clone()),
                None => None,
            },
        }
    }
}

} // verus!

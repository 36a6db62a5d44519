//! The decisions of the bridge's loopback service: who is authorized, which
//! pairing requests are taken, and what discovery and pairing answer.
use vstd::prelude::*;
use vstd::utf8::encode_utf8;
use crate::bridge::auth::{small_identifier, validate_small_identifier, StudioBridgeAuthToken};
use crate::bridge::model::{StudioBridgeDiscoveryResponse, StudioBridgePairingRequest, StudioBridgePairingResponse, BRIDGE_PROTOCOL_VERSION};
use crate::bridge::pairing::{matches_outcome, PairingState};
use crate::digest::blake3_digest;
use crate::text::{chars_of, decimal, is_prefix, push_decimal, push_str, starts_with_chars, string_from_chars};
use crate::bridge::model::StudioBridgeError;
use crate::resource::hyphen_text;

verus! {

pub const BRIDGE_SERVICE_NAME: &'static str = "abraxius-lattice-studio-bridge";

pub open spec fn bearer_prefix() -> Seq<char> {
    seq!['B', 'e', 'a', 'r', 'e', 'r', ' ']
}

/// The credential of an `Authorization` header value of the form `Bearer <credential>`.
pub fn bearer_credential(value: &str) -> (r: Option<String>)
    ensures
        r is Some <==> is_prefix(bearer_prefix(), value@),
        r matches Some(t) ==> t@ == value@.skip(7),
{
    let chars = chars_of(value);
    let prefix = chars_of("Bearer ");
    proof { reveal_strlit("Bearer "); assert(prefix@ =~= bearer_prefix()); }
    if !starts_with_chars(chars.as_slice(), prefix.as_slice()) {
        return None;
    }
    let mut out: Vec<char> = Vec::new();
    let mut i: usize = 7;
    while i < chars.len()
        invariant
            7 <= i <= chars@.len(),
            out@ == chars@.subrange(7, i as int),
        decreases chars@.len() - i,
    {
        out.push(chars[i]);
        proof { assert(out@ =~= chars@.subrange(7, i + 1)); }
        i = i + 1;
    }
    proof { assert(out@ =~= value@.skip(7)); }
    Some(string_from_chars(out.as_slice()))
}

/// Whether a supplied credential is authorized: the configured token is tried
/// first, and only when it does not match are the paired credentials consulted.
pub fn authorize(manual: &Option<StudioBridgeAuthToken>, pairing: &mut PairingState, supplied: &str, now: i64) -> (r: bool)
    requires
        old(pairing).wf(),
    ensures
        final(pairing).wf(),
        ({
            let by_token = manual matches Some(t) && blake3_digest(t@) == blake3_digest(encode_utf8(supplied@));
            if by_token {
                r && *final(pairing) == *old(pairing)
            } else {
                matches_outcome(*old(pairing), supplied@, now, *final(pairing), r)
            }
        }),
{
    if let Some(token) = manual {
        if token.matches(supplied.as_bytes()) {
            return true;
        }
    }
    pairing.matches(supplied, now)
}

/// How a pairing request is judged.
#[derive(Clone, Copy, Debug, Eq, PartialEq, Structural)]
pub enum PairingRequestVerdict {
    Acceptable,
    Rejected,
    InvalidClientName,
}

/// The companions that may pair.
pub open spec fn known_client_kind(k: Seq<char>) -> bool {
    k == "roblox-studio-plugin"@ || k == "lattice-desktop"@
}

/// A pairing request names a known companion and carries a plausible
/// challenge; a client name, when given, is a small identifier.
pub fn check_pairing_request(req: &StudioBridgePairingRequest) -> (r: PairingRequestVerdict)
    ensures
        r == if !known_client_kind(req.client_kind@) || !small_identifier(req.challenge@) {
            PairingRequestVerdict::Rejected
        } else if req.client_name matches Some(n) && !small_identifier(n@) {
            PairingRequestVerdict::InvalidClientName
        } else {
            PairingRequestVerdict::Acceptable
        },
{
    let plugin = "roblox-studio-plugin";
    let desktop = "lattice-desktop";
    let known = req.client_kind == plugin.to_owned() || req.client_kind == desktop.to_owned();
    if !known || validate_small_identifier(req.challenge.as_str()).is_err() {
        return PairingRequestVerdict::Rejected;
    }
    if let Some(name) = &req.client_name {
        if validate_small_identifier(name.as_str()).is_err() {
            return PairingRequestVerdict::InvalidClientName;
        }
    }
    PairingRequestVerdict::Acceptable
}

/// What discovery answers: the service, its protocol, and a fresh challenge.
pub fn discovery_response(challenge: String, expires: i64) -> (r: StudioBridgeDiscoveryResponse)
    ensures
        r.service@ == BRIDGE_SERVICE_NAME@,
        r.protocol_version == BRIDGE_PROTOCOL_VERSION,
        r.authentication@ == "loopback_auto_pair"@,
        r.challenge == challenge,
        r.challenge_expires_unix_ms == expires,
{
    StudioBridgeDiscoveryResponse {
        service: BRIDGE_SERVICE_NAME.to_owned(),
        protocol_version: BRIDGE_PROTOCOL_VERSION,
        authentication: "loopback_auto_pair".to_owned(),
        challenge,
        challenge_expires_unix_ms: expires,
    }
}

/// What a successful pairing answers.
pub fn pairing_response(session_token: String, expires: i64) -> (r: StudioBridgePairingResponse)
    ensures
        r.service@ == BRIDGE_SERVICE_NAME@,
        r.protocol_version == BRIDGE_PROTOCOL_VERSION,
        r.session_token == session_token,
        r.session_expires_unix_ms == expires,
{
    StudioBridgePairingResponse {
        service: BRIDGE_SERVICE_NAME.to_owned(),
        protocol_version: BRIDGE_PROTOCOL_VERSION,
        session_token,
        session_expires_unix_ms: expires,
    }
}


/// The text of a bridge error, as the service reports it.
pub open spec fn error_text(e: StudioBridgeError) -> Seq<char> {
    match e {
        StudioBridgeError::InvalidAuthenticationConfiguration => "STUDIO_BRIDGE_AUTH_INVALID: token must contain 32 to 256 bytes"@,
        StudioBridgeError::ProtocolMismatch { expected, received } => "STUDIO_BRIDGE_PROTOCOL_MISMATCH: expected "@
            + decimal(expected as nat) + ", received "@ + decimal(received as nat),
        StudioBridgeError::InvalidRegistration => "STUDIO_BRIDGE_REGISTRATION_INVALID: identifiers are empty, oversized, or invalid"@,
        StudioBridgeError::SessionCapacityExceeded => "STUDIO_BRIDGE_SESSION_LIMIT: the bounded session registry is full"@,
        StudioBridgeError::SessionNotFound(id) => "STUDIO_BRIDGE_SESSION_NOT_FOUND: "@ + hyphen_text(id.0@),
        StudioBridgeError::SessionUnbound(id) => "STUDIO_BRIDGE_SESSION_UNBOUND: "@ + hyphen_text(id.0@)
            + " has no verified Studio environment binding"@,
        StudioBridgeError::BindingConflict => "STUDIO_BRIDGE_BINDING_CONFLICT: the session is already bound to another Studio"@,
        StudioBridgeError::ReportLimitExceeded => "STUDIO_BRIDGE_REPORT_LIMIT: report exceeds negotiated bounded limits"@,
        StudioBridgeError::OutOfOrderReport { previous, received } => "STUDIO_BRIDGE_REPORT_OUT_OF_ORDER: previous "@
            + decimal(previous as nat) + ", received "@ + decimal(received as nat),
        StudioBridgeError::DuplicateReportUnavailable => "STUDIO_BRIDGE_DUPLICATE_UNAVAILABLE: duplicate report response is unavailable"@,
        StudioBridgeError::CommandCapacityExceeded(id) => "STUDIO_BRIDGE_COMMAND_LIMIT: session "@ + hyphen_text(id.0@)
            + " command queue is full"@,
        StudioBridgeError::CommandTimedOut(id) => "STUDIO_BRIDGE_COMMAND_TIMEOUT: command StudioBridgeCommandId(LatticeId("@
            + hyphen_text(id.0@) + ")) timed out"@,
        StudioBridgeError::CommandChannelClosed(id) => "STUDIO_BRIDGE_COMMAND_CLOSED: command StudioBridgeCommandId(LatticeId("@
            + hyphen_text(id.0@) + ")) response channel closed"@,
    }
}

impl StudioBridgeError {
    /// The error's text: its stable code, a colon, and what happened.
    pub fn to_text(&self) -> (r: String)
        ensures
            r@ == error_text(*self),
    {
        let mut out: Vec<char> = Vec::new();
        match self {
            StudioBridgeError::InvalidAuthenticationConfiguration => {
                push_str(&mut out, "STUDIO_BRIDGE_AUTH_INVALID: token must contain 32 to 256 bytes");
            },
            StudioBridgeError::ProtocolMismatch { expected, received } => {
                push_str(&mut out, "STUDIO_BRIDGE_PROTOCOL_MISMATCH: expected ");
                push_decimal(&mut out, *expected as u64);
                push_str(&mut out, ", received ");
                push_decimal(&mut out, *received as u64);
            },
            StudioBridgeError::InvalidRegistration => {
                push_str(&mut out, "STUDIO_BRIDGE_REGISTRATION_INVALID: identifiers are empty, oversized, or invalid");
            },
            StudioBridgeError::SessionCapacityExceeded => {
                push_str(&mut out, "STUDIO_BRIDGE_SESSION_LIMIT: the bounded session registry is full");
            },
            StudioBridgeError::SessionNotFound(id) => {
                push_str(&mut out, "STUDIO_BRIDGE_SESSION_NOT_FOUND: ");
                push_str(&mut out, id.0.to_text().as_str());
            },
            StudioBridgeError::SessionUnbound(id) => {
                push_str(&mut out, "STUDIO_BRIDGE_SESSION_UNBOUND: ");
                push_str(&mut out, id.0.to_text().as_str());
                push_str(&mut out, " has no verified Studio environment binding");
            },
            StudioBridgeError::BindingConflict => {
                push_str(&mut out, "STUDIO_BRIDGE_BINDING_CONFLICT: the session is already bound to another Studio");
            },
            StudioBridgeError::ReportLimitExceeded => {
                push_str(&mut out, "STUDIO_BRIDGE_REPORT_LIMIT: report exceeds negotiated bounded limits");
            },
            StudioBridgeError::OutOfOrderReport { previous, received } => {
                push_str(&mut out, "STUDIO_BRIDGE_REPORT_OUT_OF_ORDER: previous ");
                push_decimal(&mut out, *previous);
                push_str(&mut out, ", received ");
                push_decimal(&mut out, *received);
            },
            StudioBridgeError::DuplicateReportUnavailable => {
                push_str(&mut out, "STUDIO_BRIDGE_DUPLICATE_UNAVAILABLE: duplicate report response is unavailable");
            },
            StudioBridgeError::CommandCapacityExceeded(id) => {
                push_str(&mut out, "STUDIO_BRIDGE_COMMAND_LIMIT: session ");
                push_str(&mut out, id.0.to_text().as_str());
                push_str(&mut out, " command queue is full");
            },
            StudioBridgeError::CommandTimedOut(id) => {
                push_str(&mut out, "STUDIO_BRIDGE_COMMAND_TIMEOUT: command StudioBridgeCommandId(LatticeId(");
                push_str(&mut out, id.0.to_text().as_str());
                push_str(&mut out, ")) timed out");
            },
            StudioBridgeError::CommandChannelClosed(id) => {
                push_str(&mut out, "STUDIO_BRIDGE_COMMAND_CLOSED: command StudioBridgeCommandId(LatticeId(");
                push_str(&mut out, id.0.to_text().as_str());
                push_str(&mut out, ")) response channel closed");
            },
        }
        string_from_chars(out.as_slice())
    }

    /// The HTTP status the service answers this error with.
    pub fn http_status(&self) -> (r: u16)
        ensures
            r == match *self {
                StudioBridgeError::SessionNotFound(_) => 404u16,
                StudioBridgeError::SessionCapacityExceeded | StudioBridgeError::CommandCapacityExceeded(_) => 429u16,
                StudioBridgeError::BindingConflict | StudioBridgeError::OutOfOrderReport { .. } => 409u16,
                _ => 400u16,
            },
    {
        match self {
            StudioBridgeError::SessionNotFound(_) => 404,
            StudioBridgeError::SessionCapacityExceeded | StudioBridgeError::CommandCapacityExceeded(_) => 429,
            StudioBridgeError::BindingConflict | StudioBridgeError::OutOfOrderReport { .. } => 409,
            _ => 400,
        }
    }
}
} // verus!

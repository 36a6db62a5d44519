//! Authentication of the loopback bridge: the optional shared token, request
//! validation and the one-time pairing of local companions.
use vstd::prelude::*;
use vstd::utf8::encode_utf8;
use crate::bridge::model::{StudioBridgeError, BRIDGE_PROTOCOL_VERSION};
use crate::digest::{blake3_digest, blake3_hash};
use crate::hex::{hex_of, push_hex};
use crate::resource::{hyphen_text, LatticeId};
use crate::text::{chars_of, push_all, push_str, string_from_chars};

verus! {

pub const PAIRING_CHALLENGE_TTL_MS: i64 = 30000;
pub const PAIRING_SESSION_TTL_MS: i64 = 43200000;
pub const MAX_PENDING_PAIRING_CHALLENGES: usize = 32;
pub const MAX_PAIRING_SESSIONS: usize = 128;

/// Secret that authenticates the local bridge. It has no `Debug`: the only
/// text it renders is [`StudioBridgeAuthToken::redacted_text`].
pub struct StudioBridgeAuthToken(Vec<u8>);

impl View for StudioBridgeAuthToken {
    type V = Seq<u8>;

    closed spec fn view(&self) -> Seq<u8> {
        self.0@
    }
}

impl Clone for StudioBridgeAuthToken {
    fn clone(&self) -> (r: Self)
        ensures
            r@ == self@,
    {
        StudioBridgeAuthToken(self.0.clone())
    }
}

impl StudioBridgeAuthToken {
    /// Accepts a token of 32 to 256 bytes.
    pub fn new(value: Vec<u8>) -> (r: Result<StudioBridgeAuthToken, StudioBridgeError>)
        ensures
            r is Ok <==> 32 <= value@.len() <= 256,
            r matches Ok(t) ==> t@ == value@,
            r matches Err(e) ==> e is InvalidAuthenticationConfiguration,
    {
        if value.len() < 32 || value.len() > 256 {
            return Err(StudioBridgeError::InvalidAuthenticationConfiguration);
        }
        Ok(StudioBridgeAuthToken(value))
    }

    /// Whether `candidate` hashes to the token's BLAKE3 digest; the digests
    /// are compared without an early exit.
    pub fn matches(&self, candidate: &[u8]) -> (r: bool)
        ensures
            r == (blake3_digest(self@) == blake3_digest(candidate@)),
    {
        let expected = blake3_hash(self.0.as_slice());
        let supplied = blake3_hash(candidate);
        let mut difference: u8 = 0;
        let mut i: usize = 0;
        while i < 32
            invariant
                i <= 32,
                expected@.len() == 32,
                supplied@.len() == 32,
                (difference == 0) <==> (forall|k: int| 0 <= k < i ==> expected@[k] == supplied@[k]),
            decreases 32 - i,
        {
            let left = expected[i];
            let right = supplied[i];
            let next = difference | (left ^ right);
            proof {
                assert((difference | (left ^ right)) == 0u8 <==> (difference == 0u8 && left == right)) by (bit_vector);
            }
            difference = next;
            i = i + 1;
        }
        proof {
            if difference == 0 {
                assert(expected@ =~= supplied@);
            }
        }
        difference == 0
    }

    /// The token's only rendering: its contents are never shown.
    pub fn redacted_text(&self) -> (r: String)
        ensures
            r@ == "StudioBridgeAuthToken([REDACTED])"@,
    {
        "StudioBridgeAuthToken([REDACTED])".to_owned()
    }
}

/// Only the current bridge protocol is spoken.
pub fn validate_protocol(version: u32) -> (r: Result<(), StudioBridgeError>)
    ensures
        r is Ok <==> version == BRIDGE_PROTOCOL_VERSION,
        r matches Err(e) ==> e == (StudioBridgeError::ProtocolMismatch { expected: BRIDGE_PROTOCOL_VERSION, received: version }),
{
    if version == BRIDGE_PROTOCOL_VERSION {
        Ok(())
    } else {
        Err(StudioBridgeError::ProtocolMismatch { expected: BRIDGE_PROTOCOL_VERSION, received: version })
    }
}

/// A Unicode control character (general category Cc).
pub open spec fn is_control(c: char) -> bool {
    (c as u32) <= 0x1f || (0x7f <= (c as u32) && (c as u32) <= 0x9f)
}

/// A non-empty identifier of at most 256 bytes without control characters.
pub open spec fn small_identifier(s: Seq<char>) -> bool {
    s.len() > 0 && encode_utf8(s).len() <= 256 && forall|i: int| 0 <= i < s.len() ==> !is_control(#[trigger] s[i])
}

fn char_is_control(c: char) -> (r: bool)
    ensures
        r == is_control(c),
{
    let n = c as u32;
    n <= 0x1f || (0x7f <= n && n <= 0x9f)
}

pub fn validate_small_identifier(value: &str) -> (r: Result<(), StudioBridgeError>)
    ensures
        r is Ok <==> small_identifier(value@),
        r matches Err(e) ==> e is InvalidRegistration,
{
    let chars = chars_of(value);
    if chars.len() == 0 || value.as_bytes().len() > 256 {
        return Err(StudioBridgeError::InvalidRegistration);
    }
    let mut i: usize = 0;
    while i < chars.len()
        invariant
            i <= chars@.len(),
            chars@ == value@,
            chars@.len() > 0,
            encode_utf8(value@).len() <= 256,
            forall|k: int| 0 <= k < i ==> !is_control(#[trigger] chars@[k]),
        decreases chars@.len() - i,
    {
        if char_is_control(chars[i]) {
            return Err(StudioBridgeError::InvalidRegistration);
        }
        i = i + 1;
    }
    Ok(())
}

/// `prefix`, `_` and the hex BLAKE3 digest of `prefix:` and a fresh identifier.
pub open spec fn nonce_of(prefix: Seq<char>, id: Seq<u8>) -> Seq<char> {
    prefix + seq!['_'] + hex_of(blake3_digest(encode_utf8(prefix + seq![':'] + hyphen_text(id))))
}

/// An unguessable credential: the digest of the prefix and a fresh identifier.
pub fn opaque_nonce(prefix: &str) -> (r: String)
    ensures
        exists|id: Seq<u8>| id.len() == 16 && r@ == #[trigger] nonce_of(prefix@, id),
{
    let id = LatticeId::new();
    let prefix_chars = chars_of(prefix);
    let mut seed: Vec<char> = Vec::new();
    push_all(&mut seed, prefix_chars.as_slice());
    seed.push(':');
    let id_text = id.to_text();
    push_str(&mut seed, id_text.as_str());
    let seed_text = string_from_chars(seed.as_slice());
    proof { assert(seed@ =~= prefix@ + seq![':'] + hyphen_text(id@)); }
    let digest = blake3_hash(seed_text.as_str().as_bytes());
    let mut out: Vec<char> = Vec::new();
    push_all(&mut out, prefix_chars.as_slice());
    out.push('_');
    push_hex(&mut out, &digest);
    proof {
        assert(out@ =~= nonce_of(prefix@, id@));
        LatticeId::lemma_view_len(id);
    }
    string_from_chars(out.as_slice())
}

} // verus!

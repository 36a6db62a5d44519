//! Stable canonical identities, content revisions and `rbx://` references.
use vstd::prelude::*;
use vstd::utf8::{encode_utf8, is_ascii_chars, is_ascii_chars_encode_utf8};
use crate::digest::{blake3_digest, blake3_hash};
use crate::hex::{hex_of, is_lower_hex, lemma_hex_injective, lemma_hex_is_lower, lower_nibble_value, push_hex, push_hex_range};
use crate::text::{all_digits, chars_equal, chars_of, decimal, digit_char, is_prefix, lemma_decimal_value, lemma_split_concat, lemma_split_plain, parse_u64, push_all, push_decimal, push_str, split_at_slash, split_slash, starts_with_chars, string_from_chars, u64_text_value};

verus! {

/// A stable Lattice identifier: the 16 bytes of a UUID.
#[derive(Clone, Copy, Debug, Eq, Hash, Ord, PartialEq, PartialOrd)]
pub struct LatticeId([u8; 16]);

impl View for LatticeId {
    type V = Seq<u8>;

    closed spec fn view(&self) -> Seq<u8> {
        self.0@
    }
}

/// The canonical text of a UUID: lower-case hex digits grouped 8-4-4-4-12.
pub open spec fn hyphen_text(b: Seq<u8>) -> Seq<char> {
    hex_of(b.subrange(0, 4)) + seq!['-'] + hex_of(b.subrange(4, 6)) + seq!['-'] + hex_of(b.subrange(6, 8)) + seq!['-']
        + hex_of(b.subrange(8, 10)) + seq!['-'] + hex_of(b.subrange(10, 16))
}

pub open spec fn is_hyphen_text(s: Seq<char>) -> bool {
    exists|b: Seq<u8>| b.len() == 16 && #[trigger] hyphen_text(b) == s
}

/// What `uuid::Uuid::parse_str` reads from a text: the UUID's bytes.
pub uninterp spec fn uuid_parsed(s: Seq<char>) -> Option<Seq<u8>>;

/// Calls `uuid::Uuid::parse_str` and returns the UUID's bytes. The result is
/// named by `uuid_parsed`; of the forms the parser accepts (simple,
/// hyphenated, braced, URN, in either case) only one is stated: the
/// canonical lower-case hyphenated text reads back as the bytes it shows.
#[verifier::external_body]
fn uuid_parse_str(s: &str) -> (r: Option<[u8; 16]>)
    ensures
        r is Some <==> uuid_parsed(s@) is Some,
        r is Some ==> uuid_parsed(s@) == Some(r->0@),
        is_hyphen_text(s@) ==> r is Some && hyphen_text(r->0@) == s@,
{
    match uuid::Uuid::parse_str(s) {
        Ok(u) => Some(u.into_bytes()),
        Err(_) => None,
    }
}

/// Whether sixteen bytes carry the markers of a version-7 UUID: the high
/// nibble of byte 6 is 7 and the two high bits of byte 8 are `10` (the RFC
/// 9562 variant).
pub open spec fn is_version7(b: Seq<u8>) -> bool {
    &&& b.len() == 16
    &&& b[6] / 16 == 7
    &&& b[8] / 64 == 2
}

/// Calls `uuid::Uuid::now_v7`: a fresh identifier from the clock and random
/// bits. The crate sets the version nibble to 7 and the variant bits to `10`
/// on every identifier it builds this way; the other bits are not claimed.
#[verifier::external_body]
fn uuid_now_v7() -> (r: [u8; 16])
    ensures
        is_version7(r@),
{
    uuid::Uuid::now_v7().into_bytes()
}

proof fn lemma_hyphen_injective(a: Seq<u8>, b: Seq<u8>)
    requires
        a.len() == 16,
        b.len() == 16,
        hyphen_text(a) == hyphen_text(b),
    ensures
        a == b,
{
    let ta = hyphen_text(a);
    let tb = hyphen_text(b);
    assert(ta.subrange(0, 8) =~= hex_of(a.subrange(0, 4)));
    assert(tb.subrange(0, 8) =~= hex_of(b.subrange(0, 4)));
    assert(ta.subrange(9, 13) =~= hex_of(a.subrange(4, 6)));
    assert(tb.subrange(9, 13) =~= hex_of(b.subrange(4, 6)));
    assert(ta.subrange(14, 18) =~= hex_of(a.subrange(6, 8)));
    assert(tb.subrange(14, 18) =~= hex_of(b.subrange(6, 8)));
    assert(ta.subrange(19, 23) =~= hex_of(a.subrange(8, 10)));
    assert(tb.subrange(19, 23) =~= hex_of(b.subrange(8, 10)));
    assert(ta.subrange(24, 36) =~= hex_of(a.subrange(10, 16)));
    assert(tb.subrange(24, 36) =~= hex_of(b.subrange(10, 16)));
    lemma_hex_injective(a.subrange(0, 4), b.subrange(0, 4));
    lemma_hex_injective(a.subrange(4, 6), b.subrange(4, 6));
    lemma_hex_injective(a.subrange(6, 8), b.subrange(6, 8));
    lemma_hex_injective(a.subrange(8, 10), b.subrange(8, 10));
    lemma_hex_injective(a.subrange(10, 16), b.subrange(10, 16));
    assert forall|k: int| 0 <= k < 16 implies a[k] == b[k] by {
        if k < 4 { assert(a.subrange(0, 4)[k] == b.subrange(0, 4)[k]); }
        else if k < 6 { assert(a.subrange(4, 6)[k - 4] == b.subrange(4, 6)[k - 4]); }
        else if k < 8 { assert(a.subrange(6, 8)[k - 6] == b.subrange(6, 8)[k - 6]); }
        else if k < 10 { assert(a.subrange(8, 10)[k - 8] == b.subrange(8, 10)[k - 8]); }
        else { assert(a.subrange(10, 16)[k - 10] == b.subrange(10, 16)[k - 10]); }
    }
    assert(a =~= b);
}

/// The identifier a text names: the bytes its canonical form shows, or else
/// what the UUID parser reads.
pub open spec fn lattice_id_value(s: Seq<char>) -> Option<Seq<u8>> {
    if is_hyphen_text(s) {
        Some(choose|b: Seq<u8>| b.len() == 16 && #[trigger] hyphen_text(b) == s)
    } else {
        uuid_parsed(s)
    }
}

/// The canonical text of an identifier reads back as that identifier.
pub proof fn lemma_lattice_id_text(b: Seq<u8>)
    requires
        b.len() == 16,
    ensures
        lattice_id_value(hyphen_text(b)) == Some(b),
{
    assert(is_hyphen_text(hyphen_text(b)));
    let c = choose|c: Seq<u8>| c.len() == 16 && #[trigger] hyphen_text(c) == hyphen_text(b);
    lemma_hyphen_injective(c, b);
}

impl LatticeId {
    /// Every identifier is sixteen bytes.
    pub proof fn lemma_view_len(id: LatticeId)
        ensures
            id@.len() == 16,
    {
    }

    /// A fresh time-ordered identifier: a version-7 UUID.
    pub fn new() -> (r: LatticeId)
        ensures
            is_version7(r@),
    {
        LatticeId(uuid_now_v7())
    }

    pub fn from_bytes(bytes: [u8; 16]) -> (r: LatticeId)
        ensures
            r@ == bytes@,
    {
        LatticeId(bytes)
    }

    pub fn as_bytes(&self) -> (r: [u8; 16])
        ensures
            r@ == self@,
    {
        self.0
    }

    /// Identity of two identifiers.
    pub fn same(&self, other: &LatticeId) -> (r: bool)
        ensures
            r == (self@ == other@),
    {
        let mut i: usize = 0;
        while i < 16
            invariant
                i <= 16,
                forall|k: int| 0 <= k < i ==> self.0@[k] == other.0@[k],
            decreases 16 - i,
        {
            if self.0[i] != other.0[i] {
                return false;
            }
            i = i + 1;
        }
        proof { assert(self.0@ =~= other.0@); }
        true
    }

    /// The canonical hyphenated lower-case text.
    pub fn to_text(&self) -> (r: String)
        ensures
            r@ == hyphen_text(self@),
    {
        let mut out: Vec<char> = Vec::new();
        push_hex_range(&mut out, &self.0, 0, 4);
        out.push('-');
        push_hex_range(&mut out, &self.0, 4, 6);
        out.push('-');
        push_hex_range(&mut out, &self.0, 6, 8);
        out.push('-');
        push_hex_range(&mut out, &self.0, 8, 10);
        out.push('-');
        push_hex_range(&mut out, &self.0, 10, 16);
        proof { assert(out@ =~= hyphen_text(self@)); }
        string_from_chars(out.as_slice())
    }

    /// Reads an identifier as the UUID parser does.
    pub fn parse(value: &str) -> (r: Option<LatticeId>)
        ensures
            match lattice_id_value(value@) {
                Some(b) => r matches Some(x) && x@ == b,
                None => r is None,
            },
    {
        let parsed = uuid_parse_str(value);
        proof {
            if is_hyphen_text(value@) {
                let b = choose|b: Seq<u8>| b.len() == 16 && #[trigger] hyphen_text(b) == value@;
                let x = parsed->0;
                lemma_hyphen_injective(x@, b);
            }
        }
        match parsed {
            Some(b) => Some(LatticeId(b)),
            None => None,
        }
    }
}

/// BLAKE3 identity of immutable content.
#[derive(Clone, Copy, Debug, Eq, Hash, Ord, PartialEq, PartialOrd)]
pub struct ContentHash([u8; 32]);

impl View for ContentHash {
    type V = Seq<u8>;

    closed spec fn view(&self) -> Seq<u8> {
        self.0@
    }
}

/// The value of one hexadecimal digit byte, of either case.
pub open spec fn hex_byte_value(b: u8) -> Option<u8> {
    if 48 <= b <= 57 {
        Some((b - 48) as u8)
    } else if 97 <= b <= 102 {
        Some((b - 87) as u8)
    } else if 65 <= b <= 70 {
        Some((b - 55) as u8)
    } else {
        None
    }
}

/// The 32 bytes that 64 hexadecimal digits of either case encode.
pub open spec fn decoded_digest(h: Seq<u8>) -> Option<Seq<u8>> {
    if h.len() == 64 && forall|i: int| 0 <= i < 64 ==> #[trigger] hex_byte_value(h[i]) is Some {
        Some(Seq::new(32, |k: int| (16 * hex_byte_value(h[2 * k])->0 + hex_byte_value(h[2 * k + 1])->0) as u8))
    } else {
        None
    }
}

/// Calls `blake3::Hash::from_hex` on the text's bytes: 64 hex digits of
/// either case give the 32 digest bytes; any other input is refused.
#[verifier::external_body]
fn blake3_from_hex(hex: &str) -> (r: Option<[u8; 32]>)
    ensures
        r is Some <==> decoded_digest(encode_utf8(hex@)) is Some,
        r is Some ==> decoded_digest(encode_utf8(hex@)) == Some(r->0@),
{
    match blake3::Hash::from_hex(hex) {
        Ok(h) => Some(*h.as_bytes()),
        Err(_) => None,
    }
}

/// `b3:` followed by the lower-case hex of the digest.
pub open spec fn hash_text(b: Seq<u8>) -> Seq<char> {
    seq!['b', '3', ':'] + hex_of(b)
}

/// The text `from_hex` decodes: the value without a leading `b3:`.
pub open spec fn without_b3(s: Seq<char>) -> Seq<char> {
    if is_prefix(seq!['b', '3', ':'], s) { s.subrange(3, s.len() as int) } else { s }
}

impl ContentHash {
    /// The BLAKE3 digest of `bytes`.
    /// Every content hash is thirty-two bytes.
    pub proof fn lemma_view_len(h: ContentHash)
        ensures
            h@.len() == 32,
    {
    }

    pub fn of(bytes: &[u8]) -> (r: ContentHash)
        ensures
            r@ == blake3_digest(bytes@),
    {
        ContentHash(blake3_hash(bytes))
    }

    /// Reads a BLAKE3 hash in hexadecimal, with an optional `b3:` prefix.
    pub fn from_hex(value: &str) -> (r: Result<ContentHash, ResourceRefError>)
        ensures
            match decoded_digest(encode_utf8(without_b3(value@))) {
                Some(b) => r matches Ok(h) && h@ == b,
                None => r matches Err(ResourceRefError::InvalidContentHash(t)) && t@ == without_b3(value@),
            },
    {
        let chars = chars_of(value);
        let prefix = chars_of("b3:");
        proof { reveal_strlit("b3:"); assert(prefix@ =~= seq!['b', '3', ':']); }
        let rest: String = if starts_with_chars(chars.as_slice(), prefix.as_slice()) {
            let mut tail: Vec<char> = Vec::new();
            let mut i: usize = 3;
            while i < chars.len()
                invariant
                    3 <= i <= chars@.len(),
                    tail@ =~= chars@.subrange(3, i as int),
                decreases chars@.len() - i,
            {
                tail.push(chars[i]);
                i = i + 1;
            }
            string_from_chars(tail.as_slice())
        } else {
            string_from_chars(chars.as_slice())
        };
        match blake3_from_hex(rest.as_str()) {
            Some(b) => Ok(ContentHash(b)),
            None => Err(ResourceRefError::InvalidContentHash(rest)),
        }
    }

    pub fn as_bytes(&self) -> (r: &[u8; 32])
        ensures
            r@ == self@,
    {
        &self.0
    }

    /// The lower-case hex of the digest.
    pub fn to_hex(&self) -> (r: String)
        ensures
            r@ == hex_of(self@),
    {
        let mut out: Vec<char> = Vec::new();
        push_hex(&mut out, &self.0);
        proof { assert(out@ =~= hex_of(self@)); }
        string_from_chars(out.as_slice())
    }

    /// `b3:` and the lower-case hex of the digest.
    pub fn to_text(&self) -> (r: String)
        ensures
            r@ == hash_text(self@),
    {
        let mut out: Vec<char> = Vec::new();
        out.push('b');
        out.push('3');
        out.push(':');
        push_hex(&mut out, &self.0);
        proof { assert(out@ =~= hash_text(self@)); }
        string_from_chars(out.as_slice())
    }
}

/// A hash's text form reads back as the same hash.
pub proof fn law_content_hash_text_round_trip(b: Seq<u8>)
    requires
        b.len() == 32,
    ensures
        decoded_digest(encode_utf8(without_b3(hash_text(b)))) == Some(b),
{
    let t = hash_text(b);
    assert(t.subrange(0, 3) =~= seq!['b', '3', ':']);
    assert(without_b3(t) =~= hex_of(b));
    let h = hex_of(b);
    lemma_hex_is_lower(b);
    assert(is_ascii_chars(h)) by {
        assert forall|i: int| 0 <= i < h.len() implies '\0' <= #[trigger] h[i] <= '\u{7f}' by {
            assert(lower_nibble_value(h[i]) is Some);
        }
    }
    is_ascii_chars_encode_utf8(h);
    let e = encode_utf8(h);
    assert forall|i: int| 0 <= i < 64 implies #[trigger] hex_byte_value(e[i]) == lower_nibble_value(h[i]) by {
        assert(h[i] as u8 == e[i]);
        assert(lower_nibble_value(h[i]) is Some);
    }
    assert forall|k: int| 0 <= k < 32 implies (16 * hex_byte_value(e[2 * k])->0 + hex_byte_value(e[2 * k + 1])->0) as u8 == b[k] by {
        assert(h[2 * k] == crate::hex::nibble_char(b[k] / 16));
        assert(h[2 * k + 1] == crate::hex::nibble_char(b[k] % 16));
        assert(hex_byte_value(e[2 * k]) == lower_nibble_value(h[2 * k]));
        assert(hex_byte_value(e[2 * k + 1]) == lower_nibble_value(h[2 * k + 1]));
    }
    assert(Seq::new(32, |k: int| (16 * hex_byte_value(e[2 * k])->0 + hex_byte_value(e[2 * k + 1])->0) as u8) =~= b);
}

/// Authority and addressing scope of a Roblox resource.
#[derive(Clone, Copy, Debug, Eq, Hash, PartialEq)]
pub enum ResourceScope {
    Workspace { workspace_id: LatticeId },
    Studio { session_id: LatticeId },
    Cloud { universe_id: u64, place_id: u64, version: u64 },
    Test { test_run_id: LatticeId },
}

/// Canonical resource category; unknown categories keep their text.
#[derive(Clone, Debug, Eq, Hash, PartialEq)]
pub enum ResourceKind {
    Project,
    Place,
    Instance,
    Script,
    Symbol,
    Result,
    Diagnostic,
    ChangeSet,
    TestResult,
    Other(String),
}

/// The wire name of a kind.
pub open spec fn kind_text(k: ResourceKind) -> Seq<char> {
    match k {
        ResourceKind::Project => "project"@,
        ResourceKind::Place => "place"@,
        ResourceKind::Instance => "instance"@,
        ResourceKind::Script => "script"@,
        ResourceKind::Symbol => "symbol"@,
        ResourceKind::Result => "result"@,
        ResourceKind::TestResult => "result"@,
        ResourceKind::Diagnostic => "diagnostic"@,
        ResourceKind::ChangeSet => "changeset"@,
        ResourceKind::Other(v) => v@,
    }
}

/// One of the wire names of the known kinds.
pub open spec fn known_kind_name(t: Seq<char>) -> bool {
    t == "project"@ || t == "place"@ || t == "instance"@ || t == "script"@ || t == "symbol"@
        || t == "result"@ || t == "diagnostic"@ || t == "changeset"@
}

/// Reading back a kind's wire name gives the kind, except for `TestResult`
/// (written as `result`, read as `Result`) and an `Other` kind whose text is
/// a known name.
#[verifier::rlimit(30)]
pub proof fn law_kind_text_round_trip(k: ResourceKind)
    requires
        !(k is TestResult),
        k matches ResourceKind::Other(v) ==> !known_kind_name(v@),
    ensures
        kind_of_text(k, kind_text(k)),
{
    reveal_strlit("project");
    reveal_strlit("place");
    reveal_strlit("instance");
    reveal_strlit("script");
    reveal_strlit("symbol");
    reveal_strlit("result");
    reveal_strlit("diagnostic");
    reveal_strlit("changeset");
    let t = kind_text(k);
    assert("project"@.len() == 7 && "project"@[0] == 'p' && "project"@[1] == 'r');
    assert("place"@.len() == 5 && "place"@[0] == 'p' && "place"@[1] == 'l');
    assert("instance"@.len() == 8 && "instance"@[0] == 'i' && "instance"@[1] == 'n');
    assert("script"@.len() == 6 && "script"@[0] == 's' && "script"@[1] == 'c');
    assert("symbol"@.len() == 6 && "symbol"@[0] == 's' && "symbol"@[1] == 'y');
    assert("result"@.len() == 6 && "result"@[0] == 'r' && "result"@[1] == 'e');
    assert("diagnostic"@.len() == 10 && "diagnostic"@[0] == 'd' && "diagnostic"@[1] == 'i');
    assert("changeset"@.len() == 9 && "changeset"@[0] == 'c' && "changeset"@[1] == 'h');
    if t.len() >= 2 {
        assert(t[0] == t[0] && t[1] == t[1]);
    }
}

/// `k` is the kind a wire name denotes: a known name, or `Other` with it.
pub open spec fn kind_of_text(k: ResourceKind, t: Seq<char>) -> bool {
    if t == "project"@ { k == ResourceKind::Project }
    else if t == "place"@ { k == ResourceKind::Place }
    else if t == "instance"@ { k == ResourceKind::Instance }
    else if t == "script"@ { k == ResourceKind::Script }
    else if t == "symbol"@ { k == ResourceKind::Symbol }
    else if t == "result"@ { k == ResourceKind::Result }
    else if t == "diagnostic"@ { k == ResourceKind::Diagnostic }
    else if t == "changeset"@ { k == ResourceKind::ChangeSet }
    else { k matches ResourceKind::Other(v) && v@ == t }
}

fn same_text(a: &str, b: &str) -> (r: bool)
    ensures
        r == (a@ == b@),
{
    chars_equal(chars_of(a).as_slice(), chars_of(b).as_slice())
}

impl ResourceKind {
    pub fn as_str(&self) -> (r: &str)
        ensures
            r@ == kind_text(*self),
    {
        match self {
            ResourceKind::Project => "project",
            ResourceKind::Place => "place",
            ResourceKind::Instance => "instance",
            ResourceKind::Script => "script",
            ResourceKind::Symbol => "symbol",
            ResourceKind::Result => "result",
            ResourceKind::TestResult => "result",
            ResourceKind::Diagnostic => "diagnostic",
            ResourceKind::ChangeSet => "changeset",
            ResourceKind::Other(value) => value.as_str(),
        }
    }

    /// The kind a wire name denotes.
    pub fn from_text(value: &str) -> (r: ResourceKind)
        ensures
            kind_of_text(r, value@),
    {
        if same_text(value, "project") { ResourceKind::Project }
        else if same_text(value, "place") { ResourceKind::Place }
        else if same_text(value, "instance") { ResourceKind::Instance }
        else if same_text(value, "script") { ResourceKind::Script }
        else if same_text(value, "symbol") { ResourceKind::Symbol }
        else if same_text(value, "result") { ResourceKind::Result }
        else if same_text(value, "diagnostic") { ResourceKind::Diagnostic }
        else if same_text(value, "changeset") { ResourceKind::ChangeSet }
        else { ResourceKind::Other(string_from_chars(chars_of(value).as_slice())) }
    }
}


/// A small, centrally resolvable `rbx://` reference.
#[derive(Clone, Debug, Eq, Hash, PartialEq)]
pub struct ResourceRef {
    pub scope: ResourceScope,
    pub kind: ResourceKind,
    pub id: LatticeId,
}

/// The scope part of a reference's text.
pub open spec fn scope_text(sc: ResourceScope) -> Seq<char> {
    match sc {
        ResourceScope::Workspace { workspace_id } => "workspace/"@ + hyphen_text(workspace_id@),
        ResourceScope::Studio { session_id } => "studio/"@ + hyphen_text(session_id@),
        ResourceScope::Cloud { universe_id, place_id, version } =>
            "cloud/"@ + decimal(universe_id as nat) + "/"@ + decimal(place_id as nat) + "/version/"@ + decimal(version as nat),
        ResourceScope::Test { test_run_id } => "test/"@ + hyphen_text(test_run_id@),
    }
}

/// `rbx://scope/kind/id`.
pub open spec fn ref_text(r: ResourceRef) -> Seq<char> {
    "rbx://"@ + scope_text(r.scope) + "/"@ + kind_text(r.kind) + "/"@ + hyphen_text(r.id@)
}

/// The parsed reference has the scope the segments name.
pub open spec fn scope_named(sc: ResourceScope, tag: Seq<char>, a: Seq<u8>) -> bool {
    if tag == "workspace"@ {
        sc matches ResourceScope::Workspace { workspace_id: w } && w@ == a
    } else if tag == "studio"@ {
        sc matches ResourceScope::Studio { session_id: w } && w@ == a
    } else {
        sc matches ResourceScope::Test { test_run_id: w } && w@ == a
    }
}

/// What reading a reference's text gives, segment by segment.
pub open spec fn parse_outcome(s: Seq<char>, r: Result<ResourceRef, ResourceRefError>) -> bool {
    if !is_prefix("rbx://"@, s) {
        r == Err::<ResourceRef, ResourceRefError>(ResourceRefError::InvalidScheme)
    } else {
        let segs = split_slash(s.subrange(6, s.len() as int));
        if exists|i: int| 0 <= i < segs.len() && (#[trigger] segs[i]).len() == 0 {
            r == Err::<ResourceRef, ResourceRefError>(ResourceRefError::InvalidGrammar)
        } else if segs.len() == 4 && (segs[0] == "workspace"@ || segs[0] == "studio"@ || segs[0] == "test"@) {
            match lattice_id_value(segs[1]) {
                None => r matches Err(ResourceRefError::InvalidId(t)) && t@ == segs[1],
                Some(a) => match lattice_id_value(segs[3]) {
                    None => r matches Err(ResourceRefError::InvalidId(t)) && t@ == segs[3],
                    Some(b) => r matches Ok(x) && scope_named(x.scope, segs[0], a) && kind_of_text(x.kind, segs[2]) && x.id@ == b,
                },
            }
        } else if segs.len() == 7 && segs[0] == "cloud"@ && segs[3] == "version"@ {
            match (u64_text_value(segs[1]), u64_text_value(segs[2]), u64_text_value(segs[4])) {
                (None, _, _) => r matches Err(ResourceRefError::InvalidNumber(t)) && t@ == segs[1],
                (Some(_), None, _) => r matches Err(ResourceRefError::InvalidNumber(t)) && t@ == segs[2],
                (Some(_), Some(_), None) => r matches Err(ResourceRefError::InvalidNumber(t)) && t@ == segs[4],
                (Some(u), Some(p), Some(v)) => match lattice_id_value(segs[6]) {
                    None => r matches Err(ResourceRefError::InvalidId(t)) && t@ == segs[6],
                    Some(b) => r matches Ok(x) && x.scope == (ResourceScope::Cloud { universe_id: u, place_id: p, version: v })
                        && kind_of_text(x.kind, segs[5]) && x.id@ == b,
                },
            }
        } else {
            r == Err::<ResourceRef, ResourceRefError>(ResourceRefError::InvalidGrammar)
        }
    }
}

fn text_of(v: &Vec<char>) -> (r: String)
    ensures
        r@ == v@,
{
    string_from_chars(v.as_slice())
}

fn parse_id_segment(v: &Vec<char>) -> (r: Result<LatticeId, ResourceRefError>)
    ensures
        match lattice_id_value(v@) {
            Some(b) => r matches Ok(x) && x@ == b,
            None => r matches Err(ResourceRefError::InvalidId(t)) && t@ == v@,
        },
{
    let t = text_of(v);
    match LatticeId::parse(t.as_str()) {
        Some(id) => Ok(id),
        None => Err(ResourceRefError::InvalidId(t)),
    }
}

fn parse_number_segment(v: &Vec<char>) -> (r: Result<u64, ResourceRefError>)
    ensures
        match u64_text_value(v@) {
            Some(n) => r == Ok::<u64, ResourceRefError>(n),
            None => r matches Err(ResourceRefError::InvalidNumber(t)) && t@ == v@,
        },
{
    match parse_u64(v.as_slice()) {
        Some(n) => Ok(n),
        None => Err(ResourceRefError::InvalidNumber(text_of(v))),
    }
}

fn segment_is(v: &Vec<char>, word: &str) -> (r: bool)
    ensures
        r == (v@ == word@),
{
    chars_equal(v.as_slice(), chars_of(word).as_slice())
}

impl ResourceRef {
    pub fn workspace(workspace_id: LatticeId, kind: ResourceKind, id: LatticeId) -> (r: ResourceRef)
        ensures
            r == (ResourceRef { scope: ResourceScope::Workspace { workspace_id }, kind, id }),
    {
        ResourceRef { scope: ResourceScope::Workspace { workspace_id }, kind, id }
    }

    pub fn studio(session_id: LatticeId, kind: ResourceKind, id: LatticeId) -> (r: ResourceRef)
        ensures
            r == (ResourceRef { scope: ResourceScope::Studio { session_id }, kind, id }),
    {
        ResourceRef { scope: ResourceScope::Studio { session_id }, kind, id }
    }

    /// The canonical `rbx://` text.
    pub fn to_text(&self) -> (r: String)
        ensures
            r@ == ref_text(*self),
    {
        let mut out: Vec<char> = Vec::new();
        push_str(&mut out, "rbx://");
        match self.scope {
            ResourceScope::Workspace { workspace_id } => {
                push_str(&mut out, "workspace/");
                push_str(&mut out, workspace_id.to_text().as_str());
            },
            ResourceScope::Studio { session_id } => {
                push_str(&mut out, "studio/");
                push_str(&mut out, session_id.to_text().as_str());
            },
            ResourceScope::Cloud { universe_id, place_id, version } => {
                push_str(&mut out, "cloud/");
                push_decimal(&mut out, universe_id);
                push_str(&mut out, "/");
                push_decimal(&mut out, place_id);
                push_str(&mut out, "/version/");
                push_decimal(&mut out, version);
            },
            ResourceScope::Test { test_run_id } => {
                push_str(&mut out, "test/");
                push_str(&mut out, test_run_id.to_text().as_str());
            },
        }
        push_str(&mut out, "/");
        push_str(&mut out, self.kind.as_str());
        push_str(&mut out, "/");
        push_str(&mut out, self.id.to_text().as_str());
        proof { assert(out@ =~= ref_text(*self)); }
        string_from_chars(out.as_slice())
    }

    /// Reads the canonical `rbx://` text.
    pub fn parse(value: &str) -> (r: Result<ResourceRef, ResourceRefError>)
        ensures
            parse_outcome(value@, r),
    {
        let chars = chars_of(value);
        let scheme = chars_of("rbx://");
        if !starts_with_chars(chars.as_slice(), scheme.as_slice()) {
            return Err(ResourceRefError::InvalidScheme);
        }
        proof { reveal_strlit("rbx://"); assert(scheme@.len() == 6); }
        let mut body: Vec<char> = Vec::new();
        let mut i: usize = 6;
        while i < chars.len()
            invariant
                6 <= i <= chars@.len(),
                body@ =~= chars@.subrange(6, i as int),
            decreases chars@.len() - i,
        {
            body.push(chars[i]);
            i = i + 1;
        }
        let segs = split_at_slash(body.as_slice());
        let ghost ss = split_slash(value@.subrange(6, value@.len() as int));
        let mut k: usize = 0;
        while k < segs.len()
            invariant
                k <= segs@.len(),
                segs@.len() == ss.len(),
                is_prefix("rbx://"@, value@),
                ss == split_slash(value@.subrange(6, value@.len() as int)),
                forall|j: int| 0 <= j < segs@.len() ==> (#[trigger] segs@[j])@ == ss[j],
                forall|j: int| 0 <= j < k ==> (#[trigger] ss[j]).len() > 0,
            decreases segs@.len() - k,
        {
            if segs[k].len() == 0 {
                proof { assert(ss[k as int].len() == 0); }
                return Err(ResourceRefError::InvalidGrammar);
            }
            k = k + 1;
        }
        proof {
            assert forall|j: int| 0 <= j < ss.len() implies (#[trigger] ss[j]).len() > 0 by {}
        }
        if segs.len() == 4 && (segment_is(&segs[0], "workspace") || segment_is(&segs[0], "studio") || segment_is(&segs[0], "test")) {
            let a = match parse_id_segment(&segs[1]) {
                Ok(a) => a,
                Err(e) => { return Err(e); },
            };
            let kind = ResourceKind::from_text(text_of(&segs[2]).as_str());
            let id = match parse_id_segment(&segs[3]) {
                Ok(b) => b,
                Err(e) => { return Err(e); },
            };
            let scope = if segment_is(&segs[0], "workspace") {
                ResourceScope::Workspace { workspace_id: a }
            } else if segment_is(&segs[0], "studio") {
                ResourceScope::Studio { session_id: a }
            } else {
                ResourceScope::Test { test_run_id: a }
            };
            return Ok(ResourceRef { scope, kind, id });
        }
        if segs.len() == 7 && segment_is(&segs[0], "cloud") && segment_is(&segs[3], "version") {
            let universe_id = match parse_number_segment(&segs[1]) {
                Ok(n) => n,
                Err(e) => { return Err(e); },
            };
            let place_id = match parse_number_segment(&segs[2]) {
                Ok(n) => n,
                Err(e) => { return Err(e); },
            };
            let version = match parse_number_segment(&segs[4]) {
                Ok(n) => n,
                Err(e) => { return Err(e); },
            };
            let kind = ResourceKind::from_text(text_of(&segs[5]).as_str());
            let id = match parse_id_segment(&segs[6]) {
                Ok(b) => b,
                Err(e) => { return Err(e); },
            };
            return Ok(ResourceRef { scope: ResourceScope::Cloud { universe_id, place_id, version }, kind, id });
        }
        Err(ResourceRefError::InvalidGrammar)
    }
}

proof fn lemma_hex_no_slash(b: Seq<u8>)
    ensures
        !hex_of(b).contains('/'),
{
    if hex_of(b).contains('/') {
        let k = choose|k: int| 0 <= k < hex_of(b).len() && hex_of(b)[k] == '/';
        lemma_hex_is_lower(b);
        assert(lower_nibble_value(hex_of(b)[k]) is Some);
    }
}

proof fn lemma_no_slash_concat(a: Seq<char>, b: Seq<char>)
    requires
        !a.contains('/'),
        !b.contains('/'),
    ensures
        !(a + b).contains('/'),
{
    if (a + b).contains('/') {
        let k = choose|k: int| 0 <= k < (a + b).len() && (a + b)[k] == '/';
        if k < a.len() { assert(a[k] == '/'); } else { assert(b[k - a.len()] == '/'); }
    }
}

proof fn lemma_hyphen_no_slash(b: Seq<u8>)
    ensures
        !hyphen_text(b).contains('/'),
        hyphen_text(b).len() > 0,
{
    let d = seq!['-'];
    assert(!d.contains('/')) by { if d.contains('/') { assert(d[0] == '-'); } }
    lemma_hex_no_slash(b.subrange(0, 4));
    lemma_hex_no_slash(b.subrange(4, 6));
    lemma_hex_no_slash(b.subrange(6, 8));
    lemma_hex_no_slash(b.subrange(8, 10));
    lemma_hex_no_slash(b.subrange(10, 16));
    let t1 = hex_of(b.subrange(0, 4)) + d;
    lemma_no_slash_concat(hex_of(b.subrange(0, 4)), d);
    lemma_no_slash_concat(t1, hex_of(b.subrange(4, 6)));
    let t2 = t1 + hex_of(b.subrange(4, 6));
    lemma_no_slash_concat(t2, d);
    lemma_no_slash_concat(t2 + d, hex_of(b.subrange(6, 8)));
    let t3 = t2 + d + hex_of(b.subrange(6, 8));
    lemma_no_slash_concat(t3, d);
    lemma_no_slash_concat(t3 + d, hex_of(b.subrange(8, 10)));
    let t4 = t3 + d + hex_of(b.subrange(8, 10));
    lemma_no_slash_concat(t4, d);
    lemma_no_slash_concat(t4 + d, hex_of(b.subrange(10, 16)));
}

proof fn lemma_decimal_no_slash(n: nat)
    ensures
        !decimal(n).contains('/'),
        u64_text_value(decimal(n)) == (if n <= u64::MAX { Some(n as u64) } else { None::<u64> }),
{
    lemma_decimal_value(n);
    if decimal(n).contains('/') {
        let k = choose|k: int| 0 <= k < decimal(n).len() && decimal(n)[k] == '/';
        assert(crate::text::is_ascii_digit(decimal(n)[k]));
    }
}

proof fn lemma_literal_no_slash(t: Seq<char>)
    requires
        forall|i: int| 0 <= i < t.len() ==> #[trigger] t[i] != '/',
    ensures
        !t.contains('/'),
{
}

proof fn lemma_four_segments(a: Seq<char>, b: Seq<char>, c: Seq<char>, d: Seq<char>)
    requires
        !a.contains('/'),
        !b.contains('/'),
        !c.contains('/'),
        !d.contains('/'),
    ensures
        split_slash(a + seq!['/'] + b + seq!['/'] + c + seq!['/'] + d) == seq![a, b, c, d],
{
    let t2 = c + seq!['/'] + d;
    let t1 = b + seq!['/'] + t2;
    assert(a + seq!['/'] + b + seq!['/'] + c + seq!['/'] + d =~= a + seq!['/'] + t1);
    lemma_split_concat(c, d);
    lemma_split_concat(b, t2);
    lemma_split_concat(a, t1);
    lemma_split_plain(a);
    lemma_split_plain(b);
    lemma_split_plain(c);
    lemma_split_plain(d);
    assert(split_slash(a + seq!['/'] + t1) =~= seq![a, b, c, d]);
}

proof fn lemma_seven_segments(a: Seq<char>, b: Seq<char>, c: Seq<char>, d: Seq<char>, e: Seq<char>, f: Seq<char>, g: Seq<char>)
    requires
        !a.contains('/'),
        !b.contains('/'),
        !c.contains('/'),
        !d.contains('/'),
        !e.contains('/'),
        !f.contains('/'),
        !g.contains('/'),
    ensures
        split_slash(a + seq!['/'] + b + seq!['/'] + c + seq!['/'] + d + seq!['/'] + e + seq!['/'] + f + seq!['/'] + g)
            == seq![a, b, c, d, e, f, g],
{
    let t = e + seq!['/'] + f + seq!['/'] + g;
    lemma_four_segments(d, e, f, g);
    let t3 = d + seq!['/'] + t;
    let t2 = c + seq!['/'] + t3;
    let t1 = b + seq!['/'] + t2;
    assert(d + seq!['/'] + e + seq!['/'] + f + seq!['/'] + g =~= t3);
    assert(a + seq!['/'] + b + seq!['/'] + c + seq!['/'] + d + seq!['/'] + e + seq!['/'] + f + seq!['/'] + g =~= a + seq!['/'] + t1);
    lemma_split_concat(c, t3);
    lemma_split_concat(b, t2);
    lemma_split_concat(a, t1);
    lemma_split_plain(a);
    lemma_split_plain(b);
    lemma_split_plain(c);
    assert(split_slash(a + seq!['/'] + t1) =~= seq![a, b, c, d, e, f, g]);
}

/// A reference written as text reads back as the same reference, when its
/// kind's name is non-empty, holds no `/`, and names that same kind.
#[verifier::rlimit(40)]
pub proof fn law_resource_ref_round_trip(r: ResourceRef)
    requires
        kind_text(r.kind).len() > 0,
        !kind_text(r.kind).contains('/'),
        kind_of_text(r.kind, kind_text(r.kind)),
    ensures
        parse_outcome(ref_text(r), Ok::<ResourceRef, ResourceRefError>(r)),
{
    reveal_strlit("rbx://");
    reveal_strlit("/");
    assert("/"@ =~= seq!['/']);
    let s = ref_text(r);
    let k = kind_text(r.kind);
    let idt = hyphen_text(r.id@);
    lemma_hyphen_no_slash(r.id@);
    lemma_lattice_id_text(r.id@);
    assert(s.subrange(0, 6) =~= "rbx://"@);
    let body = s.subrange(6, s.len() as int);
    match r.scope {
        ResourceScope::Workspace { workspace_id } => {
            reveal_strlit("workspace/");
            reveal_strlit("workspace");
            let w = hyphen_text(workspace_id@);
            lemma_hyphen_no_slash(workspace_id@);
            lemma_lattice_id_text(workspace_id@);
            let tag = "workspace"@;
            lemma_literal_no_slash(tag);
            assert("workspace/"@ =~= tag + seq!['/']);
            assert(body =~= tag + seq!['/'] + w + seq!['/'] + k + seq!['/'] + idt);
            lemma_four_segments(tag, w, k, idt);
        },
        ResourceScope::Studio { session_id } => {
            reveal_strlit("studio/");
            reveal_strlit("studio");
            reveal_strlit("workspace");
            let w = hyphen_text(session_id@);
            lemma_hyphen_no_slash(session_id@);
            lemma_lattice_id_text(session_id@);
            let tag = "studio"@;
            lemma_literal_no_slash(tag);
            assert("studio/"@ =~= tag + seq!['/']);
            assert(body =~= tag + seq!['/'] + w + seq!['/'] + k + seq!['/'] + idt);
            lemma_four_segments(tag, w, k, idt);
        },
        ResourceScope::Test { test_run_id } => {
            reveal_strlit("test/");
            reveal_strlit("test");
            reveal_strlit("workspace");
            reveal_strlit("studio");
            let w = hyphen_text(test_run_id@);
            lemma_hyphen_no_slash(test_run_id@);
            lemma_lattice_id_text(test_run_id@);
            let tag = "test"@;
            lemma_literal_no_slash(tag);
            assert("test/"@ =~= tag + seq!['/']);
            assert(body =~= tag + seq!['/'] + w + seq!['/'] + k + seq!['/'] + idt);
            lemma_four_segments(tag, w, k, idt);
        },
        ResourceScope::Cloud { universe_id, place_id, version } => {
            reveal_strlit("cloud/");
            reveal_strlit("/version/");
            reveal_strlit("cloud");
            reveal_strlit("version");
            reveal_strlit("workspace");
            reveal_strlit("studio");
            reveal_strlit("test");
            reveal_strlit("/");
            let u = decimal(universe_id as nat);
            let p = decimal(place_id as nat);
            let v = decimal(version as nat);
            lemma_decimal_no_slash(universe_id as nat);
            lemma_decimal_no_slash(place_id as nat);
            lemma_decimal_no_slash(version as nat);
            let tag = "cloud"@;
            let ver = "version"@;
            lemma_literal_no_slash(tag);
            lemma_literal_no_slash(ver);
            assert("cloud/"@ =~= tag + seq!['/']);
            assert("/version/"@ =~= seq!['/'] + ver + seq!['/']);
            assert(body =~= tag + seq!['/'] + u + seq!['/'] + p + seq!['/'] + ver + seq!['/'] + v + seq!['/'] + k + seq!['/'] + idt);
            lemma_seven_segments(tag, u, p, ver, v, k, idt);
        },
    }
}

#[derive(Clone, Debug, Eq, PartialEq)]
pub enum ResourceRefError {
    InvalidScheme,
    InvalidGrammar,
    InvalidId(String),
    InvalidNumber(String),
    InvalidContentHash(String),
}

} // verus!

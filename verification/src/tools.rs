//! Provider, capability and tool identities, and the deterministic routing
//! of explicitly requested operations.
use vstd::prelude::*;
use vstd::utf8::encode_utf8;
use crate::digest::{blake3_digest, blake3_prefix16};
use crate::hex::{decode_lower_hex16, hex_of, is_lower_hex, lemma_hex_injective, lemma_hex_is_lower, push_hex};
use crate::text::{chars_equal, chars_of, is_prefix, lemma_split_concat, lemma_split_plain, push_all, push_str,
    split_at_slash, split_slash, starts_with_chars, string_from_chars};

verus! {

/// Errors of the tool fabric.
#[derive(Clone, Debug, Eq, PartialEq)]
pub enum ToolFabricError {
    ProviderNotFound(ProviderId),
    ProviderAlreadyRegistered(ProviderId),
    InvalidToolRef,
    InvalidResourceRef,
    InvalidStableId,
    InvalidOperationId,
    InvalidCapabilityId(String),
    CapabilityAlreadyRegistered(CapabilityId),
    CapabilityUnavailable(CapabilityId),
    AmbiguousCapability { capability: CapabilityId, candidates: Vec<ToolRef> },
    SchemaRootNotObject,
    SchemaTooDeep,
    SchemaTooLarge(usize),
    DuplicateToolName(String),
    InvalidToolName,
    InputSchemaFailed(String),
}


/// Index of the last `c` in `s`.
pub open spec fn last_index(s: Seq<char>, c: char) -> Option<int>
    decreases s.len(),
{
    if s.len() == 0 { None } else if s.last() == c { Some(s.len() - 1) } else { last_index(s.drop_last(), c) }
}

/// Index of the first `c` in `s`.
pub open spec fn first_index(s: Seq<char>, c: char) -> Option<int>
    decreases s.len(),
{
    if s.len() == 0 {
        None
    } else if s[0] == c {
        Some(0)
    } else {
        match first_index(s.drop_first(), c) { Some(i) => Some(i + 1), None => None }
    }
}

pub open spec fn piece_char(c: char) -> bool {
    ('a' <= c && c <= 'z') || ('0' <= c && c <= '9') || c == '.' || c == '-'
}

/// A non-empty run of lower-case letters, digits, `.` and `-`.
pub open spec fn valid_piece(p: Seq<char>) -> bool {
    p.len() > 0 && forall|i: int| 0 <= i < p.len() ==> piece_char(#[trigger] p[i])
}

/// `namespace:name@version`: namespace and name are valid pieces (split at
/// the first `:` before the last `@`), the version is digits without a
/// leading zero.
pub open spec fn capability_id_valid(s: Seq<char>) -> bool {
    match last_index(s, '@') {
        None => false,
        Some(a) => {
            let q = s.subrange(0, a);
            let v = s.subrange(a + 1, s.len() as int);
            match first_index(q, ':') {
                None => false,
                Some(b) => valid_piece(q.subrange(0, b)) && valid_piece(q.subrange(b + 1, q.len() as int))
                    && v.len() > 0 && crate::text::all_digits(v) && v[0] != '0',
            }
        },
    }
}

fn exec_last_index(s: &[char], c: char) -> (r: Option<usize>)
    ensures
        match r { Some(i) => last_index(s@, c) == Some(i as int), None => last_index(s@, c) is None },
        r matches Some(i) ==> i < s@.len(),
{
    let mut i: usize = s.len();
    proof { assert(s@.subrange(0, s@.len() as int) =~= s@); }
    while i > 0
        invariant
            i <= s@.len(),
            last_index(s@, c) == last_index(s@.subrange(0, i as int), c),
        decreases i,
    {
        proof { assert(s@.subrange(0, i as int).drop_last() =~= s@.subrange(0, i - 1)); }
        if s[i - 1] == c {
            return Some(i - 1);
        }
        i = i - 1;
    }
    None
}

fn exec_first_index(s: &[char], c: char) -> (r: Option<usize>)
    ensures
        match r { Some(i) => first_index(s@, c) == Some(i as int), None => first_index(s@, c) is None },
        r matches Some(i) ==> i < s@.len(),
{
    let mut i: usize = 0;
    proof { assert(s@.subrange(0, s@.len() as int) =~= s@); }
    while i < s.len()
        invariant
            i <= s@.len(),
            first_index(s@, c) == match first_index(s@.subrange(i as int, s@.len() as int), c) {
                Some(k) => Some(k + i), None => None::<int> },
        decreases s@.len() - i,
    {
        let ghost rest = s@.subrange(i as int, s@.len() as int);
        proof { assert(rest.drop_first() =~= s@.subrange(i + 1, s@.len() as int)); }
        if s[i] == c {
            return Some(i);
        }
        i = i + 1;
    }
    None
}

fn exec_valid_piece(s: &[char], lo: usize, hi: usize) -> (r: bool)
    requires
        lo <= hi <= s@.len(),
    ensures
        r == valid_piece(s@.subrange(lo as int, hi as int)),
{
    if lo == hi {
        return false;
    }
    let mut i: usize = lo;
    while i < hi
        invariant
            lo <= i <= hi,
            hi <= s@.len(),
            forall|k: int| lo <= k < i ==> piece_char(#[trigger] s@[k]),
        decreases hi - i,
    {
        let c = s[i];
        if !(('a' <= c && c <= 'z') || ('0' <= c && c <= '9') || c == '.' || c == '-') {
            proof { assert(s@.subrange(lo as int, hi as int)[i - lo] == c); }
            return false;
        }
        i = i + 1;
    }
    proof {
        assert forall|k: int| 0 <= k < (hi - lo) implies piece_char(#[trigger] s@.subrange(lo as int, hi as int)[k]) by {
            assert(s@.subrange(lo as int, hi as int)[k] == s@[lo + k]);
        }
    }
    true
}

/// A validated capability identifier such as `roblox:runtime.execute-luau@1`.
#[derive(Clone, Debug, Eq, Hash, Ord, PartialEq, PartialOrd)]
pub struct CapabilityId(String);

impl View for CapabilityId {
    type V = Seq<char>;
    closed spec fn view(&self) -> Seq<char> { self.0@ }
}

impl CapabilityId {
    /// Accepts exactly the valid identifiers.
    pub fn parse(value: &str) -> (r: Result<CapabilityId, ToolFabricError>)
        ensures
            capability_id_valid(value@) ==> (r matches Ok(x) && x@ == value@),
            !capability_id_valid(value@) ==> (r matches Err(ToolFabricError::InvalidCapabilityId(t)) && t@ == value@),
    {
        let s = chars_of(value);
        let text = string_from_chars(s.as_slice());
        let valid = match exec_last_index(s.as_slice(), '@') {
            None => false,
            Some(a) => {
                let ghost q = s@.subrange(0, a as int);
                let mut qv: Vec<char> = Vec::new();
                let mut i: usize = 0;
                while i < a
                    invariant
                        i <= a,
                        a < s@.len(),
                        qv@ =~= s@.subrange(0, i as int),
                    decreases a - i,
                {
                    qv.push(s[i]);
                    i = i + 1;
                }
                match exec_first_index(qv.as_slice(), ':') {
                    None => false,
                    Some(b) => {
                        let vlen = s.len() - a - 1;
                        let digits_ok = vlen > 0 && s[a + 1] != '0' && all_digits_range(s.as_slice(), a + 1, s.len());
                        let ghost v = s@.subrange(a + 1, s@.len() as int);
                        proof {
                            assert(qv@ == q);
                            if vlen > 0 { assert(v[0] == s@[a + 1]); }
                        }
                        let result = exec_valid_piece(qv.as_slice(), 0, b) && exec_valid_piece(qv.as_slice(), b + 1, qv.len()) && digits_ok;
                        proof {
                            assert(result == (valid_piece(q.subrange(0, b as int)) && valid_piece(q.subrange(b + 1, q.len() as int))
                                && v.len() > 0 && crate::text::all_digits(v) && v[0] != '0'));
                            assert(last_index(value@, '@') == Some(a as int));
                            assert(first_index(q, ':') == Some(b as int));
                            assert(result == capability_id_valid(value@));
                        }
                        result
                    },
                }
            },
        };
        if valid {
            Ok(CapabilityId(text))
        } else {
            Err(ToolFabricError::InvalidCapabilityId(text))
        }
    }

    pub fn as_str(&self) -> (r: &str)
        ensures
            r@ == self@,
    {
        self.0.as_str()
    }

    pub fn to_text(&self) -> (r: String)
        ensures
            r@ == self@,
    {
        self.0.clone()
    }

    pub fn same(&self, other: &CapabilityId) -> (r: bool)
        ensures
            r == (self@ == other@),
    {
        chars_equal(chars_of(self.0.as_str()).as_slice(), chars_of(other.0.as_str()).as_slice())
    }

    pub fn duplicate(&self) -> (r: CapabilityId)
        ensures
            r@ == self@,
    {
        CapabilityId(self.0.clone())
    }
}

fn all_digits_range(s: &[char], lo: usize, hi: usize) -> (r: bool)
    requires
        lo <= hi <= s@.len(),
    ensures
        r == crate::text::all_digits(s@.subrange(lo as int, hi as int)),
{
    let mut i: usize = lo;
    while i < hi
        invariant
            lo <= i <= hi,
            hi <= s@.len(),
            forall|k: int| lo <= k < i ==> crate::text::is_ascii_digit(#[trigger] s@[k]),
        decreases hi - i,
    {
        if !('0' <= s[i] && s[i] <= '9') {
            proof { assert(s@.subrange(lo as int, hi as int)[i - lo] == s@[i as int]); }
            return false;
        }
        i = i + 1;
    }
    proof {
        assert forall|k: int| 0 <= k < (hi - lo) implies crate::text::is_ascii_digit(#[trigger] s@.subrange(lo as int, hi as int)[k]) by {
            assert(s@.subrange(lo as int, hi as int)[k] == s@[lo + k]);
        }
    }
    true
}

/// The 16 bytes a stable identifier's text names: `prefix` then 32
/// lower-case hex digits.
pub open spec fn stable_id_value(s: Seq<char>, prefix: Seq<char>) -> Option<Seq<u8>> {
    let rest = s.subrange(prefix.len() as int, s.len() as int);
    if is_prefix(prefix, s) && rest.len() == 32 && is_lower_hex(rest) {
        Some(choose|b: Seq<u8>| b.len() == 16 && #[trigger] hex_of(b) == rest)
    } else {
        None
    }
}

pub open spec fn provider_prefix() -> Seq<char> { "provider_"@ }

pub open spec fn tool_prefix() -> Seq<char> { "tool_"@ }

pub open spec fn resource_prefix() -> Seq<char> { "provider_resource_"@ }

/// Reads `prefix` and 32 lower-case hex digits.
fn decode_stable(value: &str, prefix: &str) -> (r: Option<[u8; 16]>)
    ensures
        match stable_id_value(value@, prefix@) {
            Some(b) => r matches Some(x) && x@ == b,
            None => r is None,
        },
{
    let s = chars_of(value);
    let p = chars_of(prefix);
    if !starts_with_chars(s.as_slice(), p.as_slice()) {
        return None;
    }
    let mut rest: Vec<char> = Vec::new();
    let mut i: usize = p.len();
    while i < s.len()
        invariant
            p@.len() <= i <= s@.len(),
            rest@ =~= s@.subrange(p@.len() as int, i as int),
        decreases s@.len() - i,
    {
        rest.push(s[i]);
        i = i + 1;
    }
    let decoded = decode_lower_hex16(rest.as_slice());
    proof {
        if let Some(b) = decoded {
            let c = choose|c: Seq<u8>| c.len() == 16 && #[trigger] hex_of(c) == rest@;
            assert(b@.len() == 16 && hex_of(b@) == rest@);
            lemma_hex_injective(c, b@);
        }
    }
    decoded
}

/// The text of a stable identifier reads back as the identifier.
pub proof fn lemma_stable_id_text(b: Seq<u8>, prefix: Seq<char>)
    requires
        b.len() == 16,
    ensures
        stable_id_value(prefix + hex_of(b), prefix) == Some(b),
{
    let s = prefix + hex_of(b);
    assert(s.subrange(0, prefix.len() as int) =~= prefix);
    assert(s.subrange(prefix.len() as int, s.len() as int) =~= hex_of(b));
    lemma_hex_is_lower(b);
    let c = choose|c: Seq<u8>| c.len() == 16 && #[trigger] hex_of(c) == hex_of(b);
    lemma_hex_injective(c, b);
}

/// Stable identity of a provider.
#[derive(Clone, Copy, Debug, Eq, Hash, Ord, PartialEq, PartialOrd)]
pub struct ProviderId([u8; 16]);

/// Stable identity of a tool of a provider.
#[derive(Clone, Copy, Debug, Eq, Hash, Ord, PartialEq, PartialOrd)]
pub struct ToolId([u8; 16]);

/// Stable identity of a resource of a provider.
#[derive(Clone, Copy, Debug, Eq, Hash, Ord, PartialEq, PartialOrd)]
pub struct ProviderResourceId([u8; 16]);

impl View for ProviderId {
    type V = Seq<u8>;
    closed spec fn view(&self) -> Seq<u8> { self.0@ }
}

impl View for ToolId {
    type V = Seq<u8>;
    closed spec fn view(&self) -> Seq<u8> { self.0@ }
}

impl View for ProviderResourceId {
    type V = Seq<u8>;
    closed spec fn view(&self) -> Seq<u8> { self.0@ }
}

/// The identity derived from a stable key: 16 bytes of its BLAKE3 digest.
pub open spec fn stable_key_id(key: Seq<u8>) -> Seq<u8> {
    blake3_digest(key).subrange(0, 16)
}

impl ProviderId {
    pub fn from_stable_key(key: &[u8]) -> (r: ProviderId)
        ensures
            r@ == stable_key_id(key@),
    {
        ProviderId(blake3_prefix16(key))
    }

    pub fn from_bytes(bytes: [u8; 16]) -> (r: ProviderId)
        ensures
            r@ == bytes@,
    {
        ProviderId(bytes)
    }

    /// `provider_` and 32 lower-case hex digits.
    pub fn to_text(&self) -> (r: String)
        ensures
            r@ == provider_prefix() + hex_of(self@),
    {
        let mut out: Vec<char> = Vec::new();
        push_str(&mut out, "provider_");
        push_hex(&mut out, &self.0);
        string_from_chars(out.as_slice())
    }

    pub fn parse(value: &str) -> (r: Result<ProviderId, ToolFabricError>)
        ensures
            match stable_id_value(value@, provider_prefix()) {
                Some(b) => r matches Ok(x) && x@ == b,
                None => r == Err::<ProviderId, ToolFabricError>(ToolFabricError::InvalidStableId),
            },
    {
        match decode_stable(value, "provider_") {
            Some(b) => Ok(ProviderId(b)),
            None => Err(ToolFabricError::InvalidStableId),
        }
    }

    pub fn same(&self, other: &ProviderId) -> (r: bool)
        ensures
            r == (self@ == other@),
    {
        let mut i: usize = 0;
        while i < 16
            invariant
                i <= 16,
                forall|k: int| 0 <= k < i ==> self.0@[k] == other.0@[k],
            decreases 16 - i,
        {
            if self.0[i] != other.0[i] {
                return false;
            }
            i = i + 1;
        }
        proof { assert(self.0@ =~= other.0@); }
        true
    }

    pub fn bytes(&self) -> (r: [u8; 16])
        ensures
            r@ == self@,
    {
        self.0
    }
}

/// The key a tool identity is derived from: the provider's text, a NUL, and
/// the tool's native name.
pub open spec fn tool_key(provider: Seq<u8>, name: Seq<char>) -> Seq<char> {
    provider_prefix() + hex_of(provider) + seq!['\0'] + name
}

fn key_bytes(provider: &ProviderId, name: &str) -> (r: String)
    ensures
        r@ == tool_key(provider@, name@),
{
    let mut key: Vec<char> = Vec::new();
    push_str(&mut key, provider.to_text().as_str());
    key.push('\0');
    push_str(&mut key, name);
    string_from_chars(key.as_slice())
}

impl ToolId {
    pub fn bytes(&self) -> (r: [u8; 16])
        ensures
            r@ == self@,
    {
        self.0
    }

    pub fn same(&self, other: &ToolId) -> (r: bool)
        ensures
            r == (self@ == other@),
    {
        let mut i: usize = 0;
        while i < 16
            invariant
                i <= 16,
                forall|k: int| 0 <= k < i ==> self.0@[k] == other.0@[k],
            decreases 16 - i,
        {
            if self.0[i] != other.0[i] {
                return false;
            }
            i = i + 1;
        }
        proof { assert(self.0@ =~= other.0@); }
        true
    }

    /// Every tool identity is sixteen bytes.
    pub proof fn lemma_view_len(id: ToolId)
        ensures
            id@.len() == 16,
    {
    }

    pub fn from_stable_key(key: &[u8]) -> (r: ToolId)
        ensures
            r@ == stable_key_id(key@),
    {
        ToolId(blake3_prefix16(key))
    }

    /// The identity of a provider's tool with the given native name.
    pub fn for_native_name(provider: ProviderId, native_name: &str) -> (r: ToolId)
        ensures
            r@ == stable_key_id(encode_utf8(tool_key(provider@, native_name@))),
    {
        tool_id(provider, native_name)
    }

    /// `tool_` and 32 lower-case hex digits.
    pub fn to_text(&self) -> (r: String)
        ensures
            r@ == tool_prefix() + hex_of(self@),
    {
        let mut out: Vec<char> = Vec::new();
        push_str(&mut out, "tool_");
        push_hex(&mut out, &self.0);
        string_from_chars(out.as_slice())
    }

    pub fn parse(value: &str) -> (r: Result<ToolId, ToolFabricError>)
        ensures
            match stable_id_value(value@, tool_prefix()) {
                Some(b) => r matches Ok(x) && x@ == b,
                None => r == Err::<ToolId, ToolFabricError>(ToolFabricError::InvalidStableId),
            },
    {
        match decode_stable(value, "tool_") {
            Some(b) => Ok(ToolId(b)),
            None => Err(ToolFabricError::InvalidStableId),
        }
    }
}

/// The identity of a provider's tool with the given native name.
fn tool_id(provider: ProviderId, native_name: &str) -> (r: ToolId)
    ensures
        r@ == stable_key_id(encode_utf8(tool_key(provider@, native_name@))),
{
    let key = key_bytes(&provider, native_name);
    ToolId::from_stable_key(key.as_str().as_bytes())
}

impl ProviderResourceId {
    pub fn from_stable_key(key: &[u8]) -> (r: ProviderResourceId)
        ensures
            r@ == stable_key_id(key@),
    {
        ProviderResourceId(blake3_prefix16(key))
    }

    /// The identity of a provider resource: derived from the provider and
    /// the original URI, which never appears in the identity's text.
    pub fn for_original_uri(provider: ProviderId, original_uri: &str) -> (r: ProviderResourceId)
        ensures
            r@ == stable_key_id(encode_utf8(tool_key(provider@, original_uri@))),
    {
        let key = key_bytes(&provider, original_uri);
        ProviderResourceId::from_stable_key(key.as_str().as_bytes())
    }

    /// `provider_resource_` and 32 lower-case hex digits.
    pub fn to_text(&self) -> (r: String)
        ensures
            r@ == resource_prefix() + hex_of(self@),
    {
        let mut out: Vec<char> = Vec::new();
        push_str(&mut out, "provider_resource_");
        push_hex(&mut out, &self.0);
        string_from_chars(out.as_slice())
    }

    pub fn parse(value: &str) -> (r: Result<ProviderResourceId, ToolFabricError>)
        ensures
            match stable_id_value(value@, resource_prefix()) {
                Some(b) => r matches Ok(x) && x@ == b,
                None => r == Err::<ProviderResourceId, ToolFabricError>(ToolFabricError::InvalidStableId),
            },
    {
        match decode_stable(value, "provider_resource_") {
            Some(b) => Ok(ProviderResourceId(b)),
            None => Err(ToolFabricError::InvalidStableId),
        }
    }
}

/// Identifiers survive their text form.
pub proof fn law_stable_id_text_round_trip(provider: ProviderId, tool: ToolId, resource: ProviderResourceId)
    ensures
        stable_id_value(provider_prefix() + hex_of(provider@), provider_prefix()) == Some(provider@),
        stable_id_value(tool_prefix() + hex_of(tool@), tool_prefix()) == Some(tool@),
        stable_id_value(resource_prefix() + hex_of(resource@), resource_prefix()) == Some(resource@),
{
    lemma_stable_id_text(provider@, provider_prefix());
    lemma_stable_id_text(tool@, tool_prefix());
    lemma_stable_id_text(resource@, resource_prefix());
}

/// A reference to one tool of one provider.
#[derive(Clone, Copy, Debug, Eq, Hash, PartialEq)]
pub struct ToolRef {
    pub provider_id: ProviderId,
    pub tool_id: ToolId,
}

/// A reference to one resource of one provider.
#[derive(Clone, Copy, Debug, Eq, Hash, PartialEq)]
pub struct ProviderResourceRef {
    pub provider_id: ProviderId,
    pub resource_id: ProviderResourceId,
}

pub open spec fn ref_prefix() -> Seq<char> { "lattice://provider/"@ }

/// `lattice://provider/<provider>/<word>/<id>`.
pub open spec fn reference_text(provider: Seq<u8>, word: Seq<char>, id_prefix: Seq<char>, id: Seq<u8>) -> Seq<char> {
    ref_prefix() + provider_prefix() + hex_of(provider) + seq!['/'] + word + seq!['/'] + id_prefix + hex_of(id)
}

/// What reading a reference gives: the two identities, or the error the
/// first failing step reports (`malformed` for the reference's shape).
pub open spec fn reference_value(s: Seq<char>, word: Seq<char>, id_prefix: Seq<char>, malformed: ToolFabricError)
    -> Result<(Seq<u8>, Seq<u8>), ToolFabricError>
{
    if !is_prefix(ref_prefix(), s) {
        Err(malformed)
    } else {
        let segs = split_slash(s.subrange(ref_prefix().len() as int, s.len() as int));
        match stable_id_value(segs[0], provider_prefix()) {
            None => Err(ToolFabricError::InvalidStableId),
            Some(p) => if segs.len() < 2 || segs[1] != word || segs.len() < 3 {
                Err(malformed)
            } else {
                match stable_id_value(segs[2], id_prefix) {
                    None => Err(ToolFabricError::InvalidStableId),
                    Some(t) => if segs.len() > 3 { Err(malformed) } else { Ok((p, t)) },
                }
            },
        }
    }
}

/// Reads `lattice://provider/<provider>/<word>/<id>` with the given id prefix.
fn parse_reference(value: &str, word: &str, id_prefix: &str, malformed: ToolFabricError) -> (r: Result<([u8; 16], [u8; 16]), ToolFabricError>)
    requires
        malformed == ToolFabricError::InvalidToolRef || malformed == ToolFabricError::InvalidResourceRef,
    ensures
        match reference_value(value@, word@, id_prefix@, malformed) {
            Ok((p, t)) => r matches Ok((a, b)) && a@ == p && b@ == t,
            Err(e) => r == Err::<([u8; 16], [u8; 16]), ToolFabricError>(e),
        },
{
    let s = chars_of(value);
    let pre = chars_of("lattice://provider/");
    if !starts_with_chars(s.as_slice(), pre.as_slice()) {
        return Err(malformed);
    }
    let mut body: Vec<char> = Vec::new();
    let mut i: usize = pre.len();
    while i < s.len()
        invariant
            pre@.len() <= i <= s@.len(),
            body@ =~= s@.subrange(pre@.len() as int, i as int),
        decreases s@.len() - i,
    {
        body.push(s[i]);
        i = i + 1;
    }
    let segs = split_at_slash(body.as_slice());
    proof { crate::text::lemma_split_nonempty_pub(body@); }
    let p = match decode_stable(string_from_chars(segs[0].as_slice()).as_str(), "provider_") {
        Some(p) => p,
        None => { return Err(ToolFabricError::InvalidStableId); },
    };
    if segs.len() < 2 || !chars_equal(segs[1].as_slice(), chars_of(word).as_slice()) || segs.len() < 3 {
        return Err(malformed);
    }
    let t = match decode_stable(string_from_chars(segs[2].as_slice()).as_str(), id_prefix) {
        Some(t) => t,
        None => { return Err(ToolFabricError::InvalidStableId); },
    };
    if segs.len() > 3 {
        return Err(malformed);
    }
    Ok((p, t))
}

proof fn lemma_no_slash_hex_text(prefix: Seq<char>, b: Seq<u8>)
    requires
        !prefix.contains('/'),
    ensures
        !(prefix + hex_of(b)).contains('/'),
{
    lemma_hex_is_lower(b);
    if (prefix + hex_of(b)).contains('/') {
        let k = choose|k: int| 0 <= k < (prefix + hex_of(b)).len() && (prefix + hex_of(b))[k] == '/';
        if k < prefix.len() {
            assert(prefix[k] == '/');
        } else {
            assert(crate::hex::lower_nibble_value(hex_of(b)[k - prefix.len()]) is Some);
        }
    }
}

/// A reference's text reads back as the same two identities.
pub proof fn lemma_reference_round_trip(provider: Seq<u8>, word: Seq<char>, id_prefix: Seq<char>, id: Seq<u8>, malformed: ToolFabricError)
    requires
        provider.len() == 16,
        id.len() == 16,
        !word.contains('/'),
        !id_prefix.contains('/'),
    ensures
        reference_value(reference_text(provider, word, id_prefix, id), word, id_prefix, malformed) == Ok::<(Seq<u8>, Seq<u8>), ToolFabricError>((provider, id)),
{
    reveal_strlit("lattice://provider/");
    reveal_strlit("provider_");
    let s = reference_text(provider, word, id_prefix, id);
    let a = provider_prefix() + hex_of(provider);
    let c = id_prefix + hex_of(id);
    assert(s.subrange(0, ref_prefix().len() as int) =~= ref_prefix());
    let body = s.subrange(ref_prefix().len() as int, s.len() as int);
    assert(body =~= a + seq!['/'] + (word + seq!['/'] + c));
    assert(!provider_prefix().contains('/')) by {
        if provider_prefix().contains('/') {
            let k = choose|k: int| 0 <= k < provider_prefix().len() && provider_prefix()[k] == '/';
        }
    }
    lemma_no_slash_hex_text(provider_prefix(), provider);
    lemma_no_slash_hex_text(id_prefix, id);
    lemma_split_concat(word, c);
    lemma_split_concat(a, word + seq!['/'] + c);
    lemma_split_plain(a);
    lemma_split_plain(word);
    lemma_split_plain(c);
    assert(split_slash(body) =~= seq![a, word, c]);
    lemma_stable_id_text(provider, provider_prefix());
    lemma_stable_id_text(id, id_prefix);
}

impl ToolRef {
    /// `lattice://provider/<provider>/tool/<tool>`.
    pub fn to_text(&self) -> (r: String)
        ensures
            r@ == reference_text(self.provider_id@, "tool"@, tool_prefix(), self.tool_id@),
    {
        let mut out: Vec<char> = Vec::new();
        push_str(&mut out, "lattice://provider/");
        push_str(&mut out, self.provider_id.to_text().as_str());
        push_str(&mut out, "/tool/");
        push_str(&mut out, self.tool_id.to_text().as_str());
        proof {
            reveal_strlit("/tool/");
            reveal_strlit("tool");
            assert(out@ =~= reference_text(self.provider_id@, "tool"@, tool_prefix(), self.tool_id@));
        }
        string_from_chars(out.as_slice())
    }

    pub fn parse(value: &str) -> (r: Result<ToolRef, ToolFabricError>)
        ensures
            match reference_value(value@, "tool"@, tool_prefix(), ToolFabricError::InvalidToolRef) {
                Ok((p, t)) => r matches Ok(x) && x.provider_id@ == p && x.tool_id@ == t,
                Err(e) => r == Err::<ToolRef, ToolFabricError>(e),
            },
    {
        match parse_reference(value, "tool", "tool_", ToolFabricError::InvalidToolRef) {
            Ok((p, t)) => Ok(ToolRef { provider_id: ProviderId(p), tool_id: ToolId(t) }),
            Err(e) => Err(e),
        }
    }
}

impl ProviderResourceRef {
    /// `lattice://provider/<provider>/resource/<resource>`; the original URI
    /// is never part of it.
    pub fn to_text(&self) -> (r: String)
        ensures
            r@ == reference_text(self.provider_id@, "resource"@, resource_prefix(), self.resource_id@),
    {
        let mut out: Vec<char> = Vec::new();
        push_str(&mut out, "lattice://provider/");
        push_str(&mut out, self.provider_id.to_text().as_str());
        push_str(&mut out, "/resource/");
        push_str(&mut out, self.resource_id.to_text().as_str());
        proof {
            reveal_strlit("/resource/");
            reveal_strlit("resource");
            assert(out@ =~= reference_text(self.provider_id@, "resource"@, resource_prefix(), self.resource_id@));
        }
        string_from_chars(out.as_slice())
    }

    pub fn parse(value: &str) -> (r: Result<ProviderResourceRef, ToolFabricError>)
        ensures
            match reference_value(value@, "resource"@, resource_prefix(), ToolFabricError::InvalidResourceRef) {
                Ok((p, t)) => r matches Ok(x) && x.provider_id@ == p && x.resource_id@ == t,
                Err(e) => r == Err::<ProviderResourceRef, ToolFabricError>(e),
            },
    {
        match parse_reference(value, "resource", "provider_resource_", ToolFabricError::InvalidResourceRef) {
            Ok((p, t)) => Ok(ProviderResourceRef { provider_id: ProviderId(p), resource_id: ProviderResourceId(t) }),
            Err(e) => Err(e),
        }
    }
}

/// Tool and resource references read back from their text.
pub proof fn law_reference_text_round_trip(tool: ToolRef, resource: ProviderResourceRef)
    ensures
        reference_value(reference_text(tool.provider_id@, "tool"@, tool_prefix(), tool.tool_id@), "tool"@, tool_prefix(), ToolFabricError::InvalidToolRef)
            == Ok::<(Seq<u8>, Seq<u8>), ToolFabricError>((tool.provider_id@, tool.tool_id@)),
        reference_value(reference_text(resource.provider_id@, "resource"@, resource_prefix(), resource.resource_id@), "resource"@,
            resource_prefix(), ToolFabricError::InvalidResourceRef)
            == Ok::<(Seq<u8>, Seq<u8>), ToolFabricError>((resource.provider_id@, resource.resource_id@)),
{
    reveal_strlit("tool");
    reveal_strlit("tool_");
    reveal_strlit("resource");
    reveal_strlit("provider_resource_");
    assert(!("tool"@).contains('/')) by { if ("tool"@).contains('/') { let k = choose|k: int| 0 <= k < 4 && ("tool"@)[k] == '/'; } }
    assert(!tool_prefix().contains('/')) by { if tool_prefix().contains('/') { let k = choose|k: int| 0 <= k < 5 && tool_prefix()[k] == '/'; } }
    assert(!("resource"@).contains('/')) by { if ("resource"@).contains('/') { let k = choose|k: int| 0 <= k < 8 && ("resource"@)[k] == '/'; } }
    assert(!resource_prefix().contains('/')) by { if resource_prefix().contains('/') { let k = choose|k: int| 0 <= k < 18 && resource_prefix()[k] == '/'; } }
    lemma_reference_round_trip(tool.provider_id@, "tool"@, tool_prefix(), tool.tool_id@, ToolFabricError::InvalidToolRef);
    lemma_reference_round_trip(resource.provider_id@, "resource"@, resource_prefix(), resource.resource_id@, ToolFabricError::InvalidResourceRef);
}

} // verus!

//! Tool schemas and their registry, the validation of tool inputs, and the
//! catalog of the tools each provider offers.
use vstd::prelude::*;
use vstd::utf8::encode_utf8;
use crate::digest::blake3_digest;
use crate::fabric::{lemma_byte_ints_injective, CatalogRefresh, CapabilityTarget, SemanticTruth, CapabilityBinding, OperationSemantics, ReportedSemantics, SchemaRevision, SchemaValidationState,
    ToolAvailability, ToolDescriptor, ToolTrust};
use crate::order::{byte_ints, bytes_less, lemma_lex_irreflexive, lemma_sorted_position, lex_less, strictly_sorted};
use crate::tools::{stable_key_id, ProviderId, ToolId, ToolRef};
use crate::northbound::{is_white_space, query_is_blank};
use crate::json::{json_quoted, quote_json_string, exceeds_depth, json_lookup, json_text, json_to_text, json_type_matches, lookup, too_deep, type_matches,
    JsonValue};
use crate::resource::{hash_text, hyphen_text, is_version7, lattice_id_value, ContentHash, LatticeId};
use crate::hex::hex_of;
use crate::platform::model::env_prefix;
use crate::text::{is_prefix, starts_with_chars, chars_of, contains_chars, contains_sub, decimal, lower_seq, lowercase, push_all, push_decimal};
use crate::tools::{provider_prefix, tool_prefix};
use crate::text::{push_str, string_from_chars};
use crate::tools::ToolFabricError;

verus! {

/// Encoded schemas larger than this are refused.
pub const MAX_SCHEMA_BYTES: usize = 1048576;

/// What checking a schema's structure yields: its root must be an object and
/// no node may lie deeper than the bound.
pub open spec fn schema_verdict(schema: JsonValue) -> Result<(), ToolFabricError> {
    if !(schema is Object) {
        Err(ToolFabricError::SchemaRootNotObject)
    } else if too_deep(schema, 0) {
        Err(ToolFabricError::SchemaTooDeep)
    } else {
        Ok(())
    }
}

pub fn validate_schema(schema: &JsonValue) -> (r: Result<(), ToolFabricError>)
    ensures
        r == schema_verdict(*schema),
{
    if !matches!(schema, JsonValue::Object(_)) {
        return Err(ToolFabricError::SchemaRootNotObject);
    }
    if exceeds_depth(schema, 0) {
        return Err(ToolFabricError::SchemaTooDeep);
    }
    Ok(())
}

/// The text of a value that is a string.
pub open spec fn as_text(v: Option<JsonValue>) -> Option<Seq<char>> {
    match v {
        Some(JsonValue::String(s)) => Some(s@),
        _ => None,
    }
}

/// Some member is named `key`.
pub open spec fn has_key(members: Seq<(String, JsonValue)>, key: Seq<char>) -> bool {
    lookup(members, key) is Some
}

/// The first name among `required` (strings only) that no member carries.
pub open spec fn first_missing(required: Seq<JsonValue>, members: Seq<(String, JsonValue)>) -> Option<Seq<char>>
    decreases required.len(),
{
    if required.len() == 0 {
        None
    } else {
        match required[0] {
            JsonValue::String(name) => if !has_key(members, name@) {
                Some(name@)
            } else {
                first_missing(required.drop_first(), members)
            },
            _ => first_missing(required.drop_first(), members),
        }
    }
}

/// The type a property schema names, when it is an object with a string `type`.
pub open spec fn declared_type(property_schema: JsonValue) -> Option<Seq<char>> {
    match property_schema {
        JsonValue::Object(m) => as_text(lookup(m@, "type"@)),
        _ => None,
    }
}

/// The complaint about the first input member (in order) that the declared
/// properties refuse: an undeclared one when additional properties are
/// closed, or one whose value has another type than declared.
pub open spec fn property_fault(members: Seq<(String, JsonValue)>, properties: Seq<(String, JsonValue)>, closed: bool)
    -> Option<Seq<char>>
    decreases members.len(),
{
    if members.len() == 0 {
        None
    } else {
        let name = members[0].0@;
        let value = members[0].1;
        match lookup(properties, name) {
            None => if closed {
                Some("additional property "@ + name + " is not allowed"@)
            } else {
                property_fault(members.drop_first(), properties, closed)
            },
            Some(property_schema) => match declared_type(property_schema) {
                Some(expected) => if !type_matches(value, expected) {
                    Some("property "@ + name + " must be "@ + expected)
                } else {
                    property_fault(members.drop_first(), properties, closed)
                },
                None => property_fault(members.drop_first(), properties, closed),
            },
        }
    }
}

/// Why an input fails a schema (whose members are `schema`), if it does.
pub open spec fn input_fault(schema: Seq<(String, JsonValue)>, input: JsonValue) -> Option<Seq<char>> {
    match input {
        JsonValue::Object(members) => {
            let missing = match lookup(schema, "required"@) {
                Some(JsonValue::Array(required)) => first_missing(required@, members@),
                _ => None,
            };
            match missing {
                Some(name) => Some("required property "@ + name + " is missing"@),
                None => match lookup(schema, "properties"@) {
                    Some(JsonValue::Object(properties)) => property_fault(
                        members@,
                        properties@,
                        lookup(schema, "additionalProperties"@) == Some(JsonValue::Bool(false)),
                    ),
                    _ => None,
                },
            }
        },
        _ => Some("input must be a JSON object"@),
    }
}

fn text_of(parts: &Vec<char>) -> (r: String)
    ensures
        r@ == parts@,
{
    string_from_chars(parts.as_slice())
}

/// Checks an input against the deterministic subset of JSON Schema the broker
/// enforces: an object input, the `required` names, and, when `properties` is
/// given, the declared `type` of each property and `additionalProperties:
/// false`. Other keywords are kept for inspection but never claimed enforced.
pub fn validate_tool_input(schema: &JsonValue, input: &JsonValue) -> (r: Result<(), ToolFabricError>)
    ensures
        match *schema {
            JsonValue::Object(s) => match input_fault(s@, *input) {
                None => r is Ok,
                Some(message) => r matches Err(ToolFabricError::InputSchemaFailed(m)) && m@ == message,
            },
            _ => r == Err::<(), ToolFabricError>(ToolFabricError::SchemaRootNotObject),
        },
{
    let s = match schema {
        JsonValue::Object(s) => s,
        _ => { return Err(ToolFabricError::SchemaRootNotObject); },
    };
    let members = match input {
        JsonValue::Object(m) => m,
        _ => {
            let mut out: Vec<char> = Vec::new();
            push_str(&mut out, "input must be a JSON object");
            return Err(ToolFabricError::InputSchemaFailed(text_of(&out)));
        },
    };
    match json_lookup(s, "required") {
        Some(JsonValue::Array(required)) => {
            let mut i: usize = 0;
            proof { assert(required@.skip(0) =~= required@); }
            while i < required.len()
                invariant
                    i <= required@.len(),
                    *schema == JsonValue::Object(*s),
                    *input == JsonValue::Object(*members),
                    lookup(s@, "required"@) == Some(JsonValue::Array(*required)),
                    first_missing(required@, members@) == first_missing(required@.skip(i as int), members@),
                decreases required@.len() - i,
            {
                proof { assert(required@.skip(i as int).drop_first() =~= required@.skip(i + 1)); }
                match &required[i] {
                    JsonValue::String(name) => {
                        if json_lookup(members, name.as_str()).is_none() {
                            let mut out: Vec<char> = Vec::new();
                            push_str(&mut out, "required property ");
                            push_str(&mut out, name.as_str());
                            push_str(&mut out, " is missing");
                            return Err(ToolFabricError::InputSchemaFailed(text_of(&out)));
                        }
                    },
                    _ => {},
                }
                i = i + 1;
            }
            proof { assert(required@.skip(required@.len() as int) =~= Seq::<JsonValue>::empty()); }
        },
        _ => {},
    }
    let properties = match json_lookup(s, "properties") {
        Some(JsonValue::Object(p)) => p,
        _ => { return Ok(()); },
    };
    let closed = match json_lookup(s, "additionalProperties") {
        Some(JsonValue::Bool(b)) => !*b,
        _ => false,
    };
    let mut i: usize = 0;
    proof { assert(members@.skip(0) =~= members@); }
    while i < members.len()
        invariant
            i <= members@.len(),
            *schema == JsonValue::Object(*s),
            *input == JsonValue::Object(*members),
            lookup(s@, "properties"@) == Some(JsonValue::Object(*properties)),
            closed == (lookup(s@, "additionalProperties"@) == Some(JsonValue::Bool(false))),
            input_fault(s@, *input) == property_fault(members@.skip(i as int), properties@, closed),
        decreases members@.len() - i,
    {
        proof { assert(members@.skip(i as int).drop_first() =~= members@.skip(i + 1)); }
        let name = members[i].0.as_str();
        match json_lookup(properties, name) {
            None => {
                if closed {
                    let mut out: Vec<char> = Vec::new();
                    push_str(&mut out, "additional property ");
                    push_str(&mut out, name);
                    push_str(&mut out, " is not allowed");
                    return Err(ToolFabricError::InputSchemaFailed(text_of(&out)));
                }
            },
            Some(property_schema) => {
                let expected = match property_schema {
                    JsonValue::Object(m) => match json_lookup(m, "type") {
                        Some(JsonValue::String(t)) => Some(t.as_str()),
                        _ => None,
                    },
                    _ => None,
                };
                match expected {
                    Some(t) => {
                        if !json_type_matches(&members[i].1, t) {
                            let mut out: Vec<char> = Vec::new();
                            push_str(&mut out, "property ");
                            push_str(&mut out, name);
                            push_str(&mut out, " must be ");
                            push_str(&mut out, t);
                            return Err(ToolFabricError::InputSchemaFailed(text_of(&out)));
                        }
                    },
                    None => {},
                }
            },
        }
        i = i + 1;
    }
    Ok(())
}

/// A registered schema: as the provider sent it, and its canonical text.
pub struct SchemaRecord {
    pub revision: SchemaRevision,
    pub provider_schema: JsonValue,
    /// serde_json's compact writing of the normalized schema; its bytes are
    /// what the revision digests.
    pub normalized_schema: String,
    pub validation: SchemaValidationState,
    pub byte_len: u64,
}

/// The bytes a schema's revision digests: its canonical text in UTF-8.
pub open spec fn schema_bytes(schema: JsonValue) -> Seq<u8> {
    encode_utf8(json_text(schema))
}

/// The record kept for a newly registered schema.
pub open spec fn new_record(schema: JsonValue, record: SchemaRecord) -> bool {
    &&& record.revision.0@ == blake3_digest(schema_bytes(schema))
    &&& record.provider_schema == schema
    &&& record.normalized_schema@ == json_text(schema)
    &&& record.validation == SchemaValidationState::Valid
    &&& record.byte_len == schema_bytes(schema).len()
}

/// Some record carries the revision `d`.
pub open spec fn has_revision(records: Seq<SchemaRecord>, d: Seq<u8>) -> bool {
    exists|i: int| 0 <= i < records.len() && (#[trigger] records[i]).revision.0@ == d
}

fn same_hash(a: &ContentHash, b: &ContentHash) -> (r: bool)
    ensures
        r == (a@ == b@),
{
    let x = a.as_bytes();
    let y = b.as_bytes();
    proof {
        ContentHash::lemma_view_len(*a);
        ContentHash::lemma_view_len(*b);
    }
    let mut i: usize = 0;
    while i < 32
        invariant
            i <= 32,
            x@ == a@,
            y@ == b@,
            x@.len() == 32,
            y@.len() == 32,
            forall|k: int| 0 <= k < i ==> x@[k] == y@[k],
        decreases 32 - i,
    {
        if x[i] != y[i] {
            return false;
        }
        i = i + 1;
    }
    proof { assert(x@ =~= y@); }
    true
}

/// The schemas registered so far, at most one per revision.
pub struct SchemaRegistry {
    schemas: Vec<SchemaRecord>,
}

impl SchemaRegistry {
    pub closed spec fn records(&self) -> Seq<SchemaRecord> {
        self.schemas@
    }

    pub fn new() -> (r: SchemaRegistry)
        ensures
            r.records().len() == 0,
    {
        SchemaRegistry { schemas: Vec::new() }
    }

    fn position(&self, revision: &SchemaRevision) -> (r: Option<usize>)
        ensures
            match r {
                Some(i) => i < self.records().len() && self.records()[i as int].revision.0@ == revision.0@,
                None => !has_revision(self.records(), revision.0@),
            },
    {
        let mut i: usize = 0;
        while i < self.schemas.len()
            invariant
                i <= self.schemas@.len(),
                forall|k: int| 0 <= k < i ==> (#[trigger] self.schemas@[k]).revision.0@ != revision.0@,
            decreases self.schemas@.len() - i,
        {
            if same_hash(&self.schemas[i].revision.0, &revision.0) {
                return Some(i);
            }
            i = i + 1;
        }
        None
    }

    /// Registers a schema under the digest of its canonical text. A schema
    /// whose root is not an object, that nests too deeply, or whose text
    /// exceeds a mebibyte is refused; a revision already known is kept as it
    /// was.
    pub fn register(&mut self, provider_schema: JsonValue) -> (r: Result<SchemaRevision, ToolFabricError>)
        ensures
            match schema_verdict(provider_schema) {
                Err(e) => r == Err::<SchemaRevision, ToolFabricError>(e) && final(self).records() == old(self).records(),
                Ok(()) => if schema_bytes(provider_schema).len() > MAX_SCHEMA_BYTES {
                    r == Err::<SchemaRevision, ToolFabricError>(ToolFabricError::SchemaTooLarge(schema_bytes(provider_schema).len() as usize))
                        && final(self).records() == old(self).records()
                } else {
                    &&& r matches Ok(rev) && rev.0@ == blake3_digest(schema_bytes(provider_schema))
                    &&& has_revision(old(self).records(), blake3_digest(schema_bytes(provider_schema)))
                        ==> final(self).records() == old(self).records()
                    &&& !has_revision(old(self).records(), blake3_digest(schema_bytes(provider_schema)))
                        ==> final(self).records().drop_last() == old(self).records()
                            && final(self).records().len() == old(self).records().len() + 1
                            && new_record(provider_schema, final(self).records().last())
                },
            },
    {
        match validate_schema(&provider_schema) {
            Ok(()) => {},
            Err(e) => { return Err(e); },
        }
        let text = json_to_text(&provider_schema);
        let encoded = text.as_str().as_bytes();
        if encoded.len() > MAX_SCHEMA_BYTES {
            return Err(ToolFabricError::SchemaTooLarge(encoded.len()));
        }
        let revision = SchemaRevision(ContentHash::of(encoded));
        let byte_len = encoded.len() as u64;
        match self.position(&revision) {
            Some(_) => {},
            None => {
                self.schemas.push(SchemaRecord {
                    revision,
                    provider_schema,
                    normalized_schema: text,
                    validation: SchemaValidationState::Valid,
                    byte_len,
                });
                proof { assert(self.schemas@.drop_last() =~= old(self).schemas@); }
            },
        }
        Ok(revision)
    }

    /// The record of a revision.
    pub fn get(&self, revision: SchemaRevision) -> (r: Option<&SchemaRecord>)
        ensures
            match r {
                Some(x) => exists|i: int| 0 <= i < self.records().len() && self.records()[i] == *x
                    && x.revision.0@ == revision.0@,
                None => !has_revision(self.records(), revision.0@),
            },
    {
        match self.position(&revision) {
            Some(i) => Some(&self.schemas[i]),
            None => None,
        }
    }
}

/// The ordering key of a tool: its identity bytes.
pub open spec fn entry_key(d: ToolDescriptor) -> Seq<int> {
    byte_ints(d.id@)
}

pub open spec fn entry_keys(s: Seq<ToolDescriptor>) -> Seq<Seq<int>> {
    s.map_values(|d: ToolDescriptor| entry_key(d))
}

/// The tool with identity key `k` in a list whose identities are distinct.
pub open spec fn tool_with_key(s: Seq<ToolDescriptor>, k: Seq<int>) -> Option<ToolDescriptor> {
    if exists|i: int| 0 <= i < s.len() && entry_key(#[trigger] s[i]) == k {
        Some(s[choose|i: int| 0 <= i < s.len() && entry_key(#[trigger] s[i]) == k])
    } else {
        None
    }
}

pub proof fn lemma_tool_with_key(s: Seq<ToolDescriptor>, i: int)
    requires
        strictly_sorted(entry_keys(s)),
        0 <= i < s.len(),
    ensures
        tool_with_key(s, entry_key(s[i])) == Some(s[i]),
{
    let k = entry_key(s[i]);
    let j = choose|j: int| 0 <= j < s.len() && entry_key(#[trigger] s[j]) == k;
    if j != i {
        assert(entry_keys(s)[i] == entry_key(s[i]));
        assert(entry_keys(s)[j] == entry_key(s[j]));
        if j < i {
            assert(lex_less(entry_keys(s)[j], entry_keys(s)[i]));
        } else {
            assert(lex_less(entry_keys(s)[i], entry_keys(s)[j]));
        }
        lemma_lex_irreflexive(k);
    }
}

/// Puts a tool in a list ordered by identity, replacing one with the same
/// identity.
fn upsert_tool(v: &mut Vec<ToolDescriptor>, d: ToolDescriptor) -> (pos: usize)
    requires
        strictly_sorted(entry_keys(old(v)@)),
    ensures
        strictly_sorted(entry_keys(final(v)@)),
        pos < final(v)@.len() && final(v)@[pos as int] == d,
        forall|k: Seq<int>| tool_with_key(final(v)@, k) == if k == entry_key(d) {
            Some(d)
        } else {
            tool_with_key(old(v)@, k)
        },
{
    let ghost original = v@;
    let ghost keys = entry_keys(original);
    let ghost x = entry_key(d);
    let did = d.id.bytes();
    let mut pos: usize = 0;
    while pos < v.len()
        invariant
            pos <= v@.len(),
            v@ == original,
            keys == entry_keys(original),
            x == entry_key(d),
            did@ == d.id@,
            forall|k: int| 0 <= k < pos ==> lex_less(#[trigger] keys[k], x),
        ensures
            pos <= v@.len(),
            v@ == original,
            forall|k: int| 0 <= k < pos ==> lex_less(#[trigger] keys[k], x),
            pos < v@.len() ==> !lex_less(keys[pos as int], x),
        decreases v@.len() - pos,
    {
        let vid = v[pos].id.bytes();
        if !bytes_less(&vid, &did) {
            proof { assert(keys[pos as int] == entry_key(v@[pos as int])); }
            break;
        }
        proof { assert(keys[pos as int] == entry_key(v@[pos as int])); }
        pos = pos + 1;
    }
    proof {
        if pos < v@.len() {
            assert(keys[pos as int] == entry_key(v@[pos as int]));
        }
        lemma_sorted_position(keys, pos as int, x);
    }
    let present = pos < v.len() && v[pos].id.same(&d.id);
    proof {
        if pos < v@.len() {
            assert(keys[pos as int] == byte_ints(v@[pos as int].id@));
            if keys[pos as int] == x {
                assert(v@[pos as int].id@ =~= d.id@) by {
                    ToolId::lemma_view_len(v@[pos as int].id);
                    ToolId::lemma_view_len(d.id);
                    assert forall|t: int| 0 <= t < d.id@.len() implies v@[pos as int].id@[t] == d.id@[t] by {
                        assert(byte_ints(v@[pos as int].id@)[t] == byte_ints(d.id@)[t]);
                    }
                }
            }
        }
    }
    let ghost dd = d;
    if present {
        v.remove(pos);
        v.insert(pos, d);
        proof { assert(v@ =~= original.update(pos as int, dd)); assert(entry_keys(v@) =~= keys); }
    } else {
        v.insert(pos, d);
        proof { assert(entry_keys(v@) =~= keys.insert(pos as int, x)); }
    }
    proof {
        let t = v@;
        assert forall|k: Seq<int>| tool_with_key(t, k) == if k == x { Some(dd) } else { tool_with_key(original, k) } by {
            assert(t[pos as int] == dd);
            lemma_tool_with_key(t, pos as int);
            if k != x {
                if exists|a: int| 0 <= a < original.len() && entry_key(#[trigger] original[a]) == k {
                    let a = choose|a: int| 0 <= a < original.len() && entry_key(#[trigger] original[a]) == k;
                    lemma_tool_with_key(original, a);
                    let b = if a < pos { a } else if present { a } else { a + 1 };
                    assert(t[b] == original[a]);
                    lemma_tool_with_key(t, b);
                } else {
                    if exists|b: int| 0 <= b < t.len() && entry_key(#[trigger] t[b]) == k {
                        let b = choose|b: int| 0 <= b < t.len() && entry_key(#[trigger] t[b]) == k;
                        let a = if b < pos { b } else if present { b } else { b - 1 };
                        assert(b != pos);
                        assert(t[b] == original[a]);
                    }
                }
            }
        }
    }
    pos
}

/// A tool as a provider lists it.
pub struct ImportedTool {
    pub native_name: String,
    pub title: Option<String>,
    pub provider_description: Option<String>,
    pub input_schema: JsonValue,
    pub output_schema: Option<JsonValue>,
    pub capabilities: Vec<CapabilityBinding>,
    pub verified_semantics: OperationSemantics,
    pub reported_semantics: ReportedSemantics,
    pub trust: ToolTrust,
}

/// A text of white space only.
pub open spec fn blank(s: Seq<char>) -> bool {
    forall|i: int| 0 <= i < s.len() ==> is_white_space(#[trigger] s[i])
}

/// Why a schema cannot be registered, if it cannot.
pub open spec fn schema_fault(schema: JsonValue) -> Option<ToolFabricError> {
    match schema_verdict(schema) {
        Err(e) => Some(e),
        Ok(()) => if schema_bytes(schema).len() > MAX_SCHEMA_BYTES {
            Some(ToolFabricError::SchemaTooLarge(schema_bytes(schema).len() as usize))
        } else {
            None
        },
    }
}

/// Why the `i`-th listed tool is refused, if it is: a blank name, a name
/// listed before it, or a schema that cannot be registered.
pub open spec fn tool_fault(imported: Seq<ImportedTool>, i: int) -> Option<ToolFabricError> {
    let t = imported[i];
    if blank(t.native_name@) {
        Some(ToolFabricError::InvalidToolName)
    } else if exists|j: int| 0 <= j < i && (#[trigger] imported[j]).native_name@ == t.native_name@ {
        Some(ToolFabricError::DuplicateToolName(t.native_name))
    } else if schema_fault(t.input_schema) is Some {
        schema_fault(t.input_schema)
    } else {
        match t.output_schema {
            Some(o) => schema_fault(o),
            None => None,
        }
    }
}

/// The fault of the first refused tool among the first `n`.
pub open spec fn first_fault(imported: Seq<ImportedTool>, n: int) -> Option<ToolFabricError>
    decreases n,
{
    if n <= 0 {
        None
    } else {
        match first_fault(imported, n - 1) {
            Some(e) => Some(e),
            None => tool_fault(imported, n - 1),
        }
    }
}

proof fn lemma_first_fault_stays(imported: Seq<ImportedTool>, n: int, m: int)
    requires
        0 <= n <= m,
        first_fault(imported, n) is Some,
    ensures
        first_fault(imported, m) == first_fault(imported, n),
    decreases m - n,
{
    if n < m {
        lemma_first_fault_stays(imported, n, m - 1);
    }
}

/// The revision a schema is registered under.
pub open spec fn revision_of(schema: JsonValue) -> Seq<u8> {
    blake3_digest(schema_bytes(schema))
}

/// The identity key of a listed tool of `provider`.
pub open spec fn import_key(provider: ProviderId, t: ImportedTool) -> Seq<int> {
    byte_ints(stable_key_id(encode_utf8(crate::tools::tool_key(provider@, t.native_name@))))
}

/// A descriptor records a listed tool of `provider`, available.
pub open spec fn describes(d: ToolDescriptor, provider: ProviderId, t: ImportedTool) -> bool {
    &&& byte_ints(d.id@) == import_key(provider, t)
    &&& d.provider_id == provider
    &&& d.native_name == t.native_name
    &&& d.title == t.title
    &&& d.provider_description == t.provider_description
    &&& d.input_schema.0@ == revision_of(t.input_schema)
    &&& match t.output_schema {
        Some(o) => d.output_schema matches Some(r) && r.0@ == revision_of(o),
        None => d.output_schema is None,
    }
    &&& d.capabilities == t.capabilities
    &&& d.verified_semantics == t.verified_semantics
    &&& d.reported_semantics == t.reported_semantics
    &&& d.trust == t.trust
    &&& d.availability == ToolAvailability::Available
}

/// The last of the first `n` listed tools with identity key `k`.
pub open spec fn last_import(imported: Seq<ImportedTool>, provider: ProviderId, n: int, k: Seq<int>) -> Option<int>
    decreases n,
{
    if n <= 0 {
        None
    } else if import_key(provider, imported[n - 1]) == k {
        Some(n - 1)
    } else {
        last_import(imported, provider, n - 1, k)
    }
}

/// `next` holds, for each identity, the last listed tool with it.
pub open spec fn built_from(next: Seq<ToolDescriptor>, imported: Seq<ImportedTool>, provider: ProviderId, n: int) -> bool {
    &&& strictly_sorted(entry_keys(next))
    &&& forall|k: Seq<int>| #[trigger] tool_with_key(next, k) is Some ==> last_import(imported, provider, n, k) is Some
    &&& forall|k: Seq<int>| #[trigger] last_import(imported, provider, n, k) is Some ==>
            (tool_with_key(next, k) matches Some(d) && describes(d, provider, imported[last_import(imported, provider, n, k)->0]))
}

/// The registry only grows: what was registered stays, and each record
/// added is that of a schema.
pub open spec fn registry_grows(before: Seq<SchemaRecord>, after: Seq<SchemaRecord>) -> bool {
    &&& before.len() <= after.len()
    &&& after.take(before.len() as int) == before
    &&& forall|i: int| before.len() <= i < after.len() ==> new_record((#[trigger] after[i]).provider_schema, after[i])
}

fn name_seen(names: &Vec<String>, name: &str) -> (r: bool)
    ensures
        r == exists|j: int| 0 <= j < names@.len() && (#[trigger] names@[j])@ == name@,
{
    let mut j: usize = 0;
    while j < names.len()
        invariant
            j <= names@.len(),
            forall|k: int| 0 <= k < j ==> (#[trigger] names@[k])@ != name@,
        decreases names@.len() - j,
    {
        if crate::json::same_text(names[j].as_str(), name) {
            return true;
        }
        j = j + 1;
    }
    false
}

/// The descriptors of a provider's listed tools, ordered by identity, after
/// registering their schemas; refused at the first faulty tool.
fn build_next(registry: &mut SchemaRegistry, provider: ProviderId, imported: Vec<ImportedTool>)
    -> (r: Result<Vec<ToolDescriptor>, ToolFabricError>)
    ensures
        registry_grows(old(registry).records(), final(registry).records()),
        match first_fault(imported@, imported@.len() as int) {
            Some(e) => r == Err::<Vec<ToolDescriptor>, ToolFabricError>(e),
            None => r matches Ok(next) && built_from(next@, imported@, provider, imported@.len() as int),
        },
{
    let ghost orig = imported@;
    let total = imported.len();
    let mut rest = imported;
    let mut next: Vec<ToolDescriptor> = Vec::new();
    let mut names: Vec<String> = Vec::new();
    let mut i: usize = 0;
    proof { assert(registry.records().take(registry.records().len() as int) =~= registry.records()); }
    while rest.len() > 0
        invariant
            orig == imported@,
            orig.len() == total,
            i <= orig.len(),
            rest@ == orig.skip(i as int),
            first_fault(orig, i as int) is None,
            names@.len() == i,
            forall|j: int| 0 <= j < i ==> (#[trigger] names@[j])@ == orig[j].native_name@,
            built_from(next@, orig, provider, i as int),
            registry_grows(old(registry).records(), registry.records()),
        decreases rest@.len(),
    {
        proof {
            assert(rest@.len() == orig.len() - i);
            assert(rest@[0] == orig[i as int]);
        }
        let t = rest.remove(0);
        proof { assert(rest@ =~= orig.skip(i + 1)); }
        let ghost tg = t;
        let ImportedTool {
            native_name,
            title,
            provider_description,
            input_schema,
            output_schema,
            capabilities,
            verified_semantics,
            reported_semantics,
            trust,
        } = t;
        if query_is_blank(native_name.as_str()) {
            proof {
                assert(first_fault(orig, i + 1) == Some(ToolFabricError::InvalidToolName));
                lemma_first_fault_stays(orig, i + 1, orig.len() as int);
            }
            return Err(ToolFabricError::InvalidToolName);
        }
        if name_seen(&names, native_name.as_str()) {
            proof {
                let j = choose|j: int| 0 <= j < names@.len() && (#[trigger] names@[j])@ == native_name@;
                assert(orig[j].native_name@ == orig[i as int].native_name@);
                assert(first_fault(orig, i + 1) == Some(ToolFabricError::DuplicateToolName(native_name)));
                lemma_first_fault_stays(orig, i + 1, orig.len() as int);
            }
            return Err(ToolFabricError::DuplicateToolName(native_name));
        }
        proof {
            assert forall|j: int| 0 <= j < i implies (#[trigger] orig[j]).native_name@ != orig[i as int].native_name@ by {
                assert(names@[j]@ == orig[j].native_name@);
            }
        }
        let ghost before_input = registry.records();
        let input = match registry.register(input_schema) {
            Ok(rev) => rev,
            Err(e) => {
                proof {
                    assert(first_fault(orig, i + 1) == Some(e));
                    lemma_first_fault_stays(orig, i + 1, orig.len() as int);
                }
                return Err(e);
            },
        };
        proof { lemma_registry_step(old(registry).records(), before_input, registry.records(), tg.input_schema); }
        let ghost before_output = registry.records();
        let output = match output_schema {
            Some(schema) => {
                match registry.register(schema) {
                    Ok(rev) => {
                        proof { lemma_registry_step(old(registry).records(), before_output, registry.records(), tg.output_schema->0); }
                        Some(rev)
                    },
                    Err(e) => {
                        proof {
                            assert(first_fault(orig, i + 1) == Some(e));
                            lemma_first_fault_stays(orig, i + 1, orig.len() as int);
                        }
                        return Err(e);
                    },
                }
            },
            None => None,
        };
        let id = ToolId::for_native_name(provider, native_name.as_str());
        names.push(native_name.clone());
        let d = ToolDescriptor {
            id,
            provider_id: provider,
            native_name,
            title,
            provider_description,
            input_schema: input,
            output_schema: output,
            capabilities,
            verified_semantics,
            reported_semantics,
            trust,
            availability: ToolAvailability::Available,
        };
        let ghost dg = d;
        proof { assert(describes(dg, provider, orig[i as int])); }
        let ghost prev = next@;
        upsert_tool(&mut next, d);
        proof {
            assert(first_fault(orig, i + 1) is None);
            assert forall|k: Seq<int>| #[trigger] tool_with_key(next@, k) is Some implies last_import(orig, provider, i + 1, k) is Some by {
                if k != entry_key(dg) {
                    assert(tool_with_key(next@, k) == tool_with_key(prev, k));
                }
            }
            assert forall|k: Seq<int>| #[trigger] last_import(orig, provider, i + 1, k) is Some implies
                (tool_with_key(next@, k) matches Some(e) && describes(e, provider, orig[last_import(orig, provider, i + 1, k)->0])) by {
                if k != entry_key(dg) {
                    assert(tool_with_key(next@, k) == tool_with_key(prev, k));
                    assert(last_import(orig, provider, i + 1, k) == last_import(orig, provider, i as int, k));
                }
            }
        }
        i = i + 1;
    }
    proof { assert(orig.skip(i as int).len() == 0); }
    Ok(next)
}

proof fn lemma_registry_step(base: Seq<SchemaRecord>, before: Seq<SchemaRecord>, after: Seq<SchemaRecord>, schema: JsonValue)
    requires
        registry_grows(base, before),
        after == before || (after.drop_last() == before && after.len() == before.len() + 1 && new_record(schema, after.last())),
    ensures
        registry_grows(base, after),
{
    if after != before {
        assert(base.len() <= after.len());
        assert(after.take(base.len() as int) =~= base) by {
            assert forall|t: int| 0 <= t < base.len() implies after.take(base.len() as int)[t] == base[t] by {
                assert(after.drop_last()[t] == after[t]);
                assert(before.take(base.len() as int)[t] == before[t]);
            }
        }
        assert forall|i: int| base.len() <= i < after.len() implies new_record((#[trigger] after[i]).provider_schema, after[i]) by {
            if i < before.len() {
                assert(after.drop_last()[i] == after[i]);
            } else {
                assert(new_record(schema, after[i]));
            }
        }
    }
}

/// How serde_json writes an optional text.
pub open spec fn opt_text(o: Option<String>) -> Seq<char> {
    match o {
        Some(s) => json_quoted(s@),
        None => "null"@,
    }
}

pub open spec fn opt_bool_text(o: Option<bool>) -> Seq<char> {
    match o {
        Some(b) => if b { "true"@ } else { "false"@ },
        None => "null"@,
    }
}

pub open spec fn truth_text(t: SemanticTruth) -> Seq<char> {
    match t {
        SemanticTruth::KnownTrue => "\"known_true\""@,
        SemanticTruth::KnownFalse => "\"known_false\""@,
        SemanticTruth::Unknown => "\"unknown\""@,
    }
}

/// `p` followed by the JSON object serde writes for operation semantics.
pub open spec fn semantics_after(p: Seq<char>, s: OperationSemantics) -> Seq<char> {
    p + "{\"read_only\":"@ + truth_text(s.read_only) + ",\"mutating\":"@ + truth_text(s.mutating)
        + ",\"destructive\":"@ + truth_text(s.destructive) + ",\"idempotent\":"@ + truth_text(s.idempotent)
        + ",\"open_world\":"@ + truth_text(s.open_world) + ",\"network_access\":"@ + truth_text(s.network_access)
        + ",\"filesystem_access\":"@ + truth_text(s.filesystem_access) + ",\"code_execution\":"@ + truth_text(s.code_execution)
        + ",\"credential_use\":"@ + truth_text(s.credential_use) + ",\"transaction_support\":"@ + truth_text(s.transaction_support)
        + "}"@
}

/// `p` followed by the JSON object serde writes for reported hints.
pub open spec fn reported_after(p: Seq<char>, r: ReportedSemantics) -> Seq<char> {
    p + "{\"read_only_hint\":"@ + opt_bool_text(r.read_only_hint) + ",\"destructive_hint\":"@ + opt_bool_text(r.destructive_hint)
        + ",\"idempotent_hint\":"@ + opt_bool_text(r.idempotent_hint) + ",\"open_world_hint\":"@ + opt_bool_text(r.open_world_hint)
        + "}"@
}

/// `p` followed by the JSON serde writes for a capability target (tagged by `kind`).
pub open spec fn target_after(p: Seq<char>, t: CapabilityTarget) -> Seq<char> {
    match t {
        CapabilityTarget::Any => p + "{\"kind\":\"any\"}"@,
        CapabilityTarget::StudioSession { session_id } =>
            p + "{\"kind\":\"studio_session\",\"session_id\":"@ + json_quoted(hyphen_text(session_id@)) + "}"@,
        CapabilityTarget::StudioEnvironment { environment_id } =>
            p + "{\"kind\":\"studio_environment\",\"environment_id\":"@ + json_quoted(env_prefix() + hex_of(environment_id.0@)) + "}"@,
        CapabilityTarget::CloudPlace { universe_id, place_id } =>
            p + "{\"kind\":\"cloud_place\",\"universe_id\":"@ + decimal(universe_id as nat) + ",\"place_id\":"@ + decimal(place_id as nat) + "}"@,
        CapabilityTarget::Workspace { workspace_id } =>
            p + "{\"kind\":\"workspace\",\"workspace_id\":"@ + json_quoted(hyphen_text(workspace_id@)) + "}"@,
    }
}

/// `p` followed by the JSON of a capability binding.
pub open spec fn binding_after(p: Seq<char>, b: CapabilityBinding) -> Seq<char> {
    target_after(p + "{\"capability\":"@ + json_quoted(b.capability@) + ",\"target\":"@, b.target) + "}"@
}

/// `p` followed by the first `n` bindings, separated by commas.
pub open spec fn bindings_after(p: Seq<char>, bs: Seq<CapabilityBinding>, n: int) -> Seq<char>
    decreases n,
{
    if n <= 0 || n > bs.len() {
        p
    } else if n == 1 {
        binding_after(p, bs[0])
    } else {
        binding_after(bindings_after(p, bs, n - 1) + ","@, bs[n - 1])
    }
}

pub open spec fn trust_text(t: ToolTrust) -> Seq<char> {
    match t {
        ToolTrust::BuiltIn => "\"built_in\""@,
        ToolTrust::Verified => "\"verified\""@,
        ToolTrust::UserConfigured => "\"user_configured\""@,
        ToolTrust::Untrusted => "\"untrusted\""@,
    }
}

pub open spec fn availability_text(a: ToolAvailability) -> Seq<char> {
    match a {
        ToolAvailability::Available => "\"available\""@,
        ToolAvailability::Stale => "\"stale\""@,
        ToolAvailability::Unavailable => "\"unavailable\""@,
        ToolAvailability::Quarantined => "\"quarantined\""@,
    }
}

pub open spec fn output_text(o: Option<SchemaRevision>) -> Seq<char> {
    match o {
        Some(r) => json_quoted(hash_text(r.0@)),
        None => "null"@,
    }
}

/// `p` followed by the JSON object serde writes for a tool descriptor.
pub open spec fn descriptor_after(p: Seq<char>, d: ToolDescriptor) -> Seq<char> {
    let head = p + "{\"id\":"@ + json_quoted(tool_prefix() + hex_of(d.id@))
        + ",\"provider_id\":"@ + json_quoted(provider_prefix() + hex_of(d.provider_id@))
        + ",\"native_name\":"@ + json_quoted(d.native_name@)
        + ",\"title\":"@ + opt_text(d.title)
        + ",\"provider_description\":"@ + opt_text(d.provider_description)
        + ",\"input_schema\":"@ + json_quoted(hash_text(d.input_schema.0@))
        + ",\"output_schema\":"@ + output_text(d.output_schema)
        + ",\"capabilities\":["@;
    let with_bindings = bindings_after(head, d.capabilities@, d.capabilities@.len() as int) + "],\"verified_semantics\":"@;
    let with_semantics = semantics_after(with_bindings, d.verified_semantics) + ",\"reported_semantics\":"@;
    reported_after(with_semantics, d.reported_semantics) + ",\"trust\":"@ + trust_text(d.trust)
        + ",\"availability\":"@ + availability_text(d.availability) + "}"@
}

/// `p` followed by the first `n` descriptors, separated by commas.
pub open spec fn descriptors_after(p: Seq<char>, ds: Seq<ToolDescriptor>, n: int) -> Seq<char>
    decreases n,
{
    if n <= 0 || n > ds.len() {
        p
    } else if n == 1 {
        descriptor_after(p, ds[0])
    } else {
        descriptor_after(descriptors_after(p, ds, n - 1) + ","@, ds[n - 1])
    }
}

/// The JSON array serde writes for a list of descriptors.
pub open spec fn catalog_text(ds: Seq<ToolDescriptor>) -> Seq<char> {
    descriptors_after("["@, ds, ds.len() as int) + "]"@
}

fn push_quoted(out: &mut Vec<char>, s: &str)
    ensures
        final(out)@ == old(out)@ + json_quoted(s@),
{
    let q = quote_json_string(s);
    push_str(out, q.as_str());
}

fn push_opt_text(out: &mut Vec<char>, o: &Option<String>)
    ensures
        final(out)@ == old(out)@ + opt_text(*o),
{
    match o {
        Some(s) => push_quoted(out, s.as_str()),
        None => push_str(out, "null"),
    }
}

fn push_opt_bool(out: &mut Vec<char>, o: Option<bool>)
    ensures
        final(out)@ == old(out)@ + opt_bool_text(o),
{
    match o {
        Some(b) => if b { push_str(out, "true") } else { push_str(out, "false") },
        None => push_str(out, "null"),
    }
}

fn push_truth(out: &mut Vec<char>, t: SemanticTruth)
    ensures
        final(out)@ == old(out)@ + truth_text(t),
{
    match t {
        SemanticTruth::KnownTrue => push_str(out, "\"known_true\""),
        SemanticTruth::KnownFalse => push_str(out, "\"known_false\""),
        SemanticTruth::Unknown => push_str(out, "\"unknown\""),
    }
}

fn push_semantics(out: &mut Vec<char>, s: &OperationSemantics)
    ensures
        final(out)@ == semantics_after(old(out)@, *s),
{
    push_str(out, "{\"read_only\":");
    push_truth(out, s.read_only);
    push_str(out, ",\"mutating\":");
    push_truth(out, s.mutating);
    push_str(out, ",\"destructive\":");
    push_truth(out, s.destructive);
    push_str(out, ",\"idempotent\":");
    push_truth(out, s.idempotent);
    push_str(out, ",\"open_world\":");
    push_truth(out, s.open_world);
    push_str(out, ",\"network_access\":");
    push_truth(out, s.network_access);
    push_str(out, ",\"filesystem_access\":");
    push_truth(out, s.filesystem_access);
    push_str(out, ",\"code_execution\":");
    push_truth(out, s.code_execution);
    push_str(out, ",\"credential_use\":");
    push_truth(out, s.credential_use);
    push_str(out, ",\"transaction_support\":");
    push_truth(out, s.transaction_support);
    push_str(out, "}");
}

fn push_reported(out: &mut Vec<char>, r: &ReportedSemantics)
    ensures
        final(out)@ == reported_after(old(out)@, *r),
{
    push_str(out, "{\"read_only_hint\":");
    push_opt_bool(out, r.read_only_hint);
    push_str(out, ",\"destructive_hint\":");
    push_opt_bool(out, r.destructive_hint);
    push_str(out, ",\"idempotent_hint\":");
    push_opt_bool(out, r.idempotent_hint);
    push_str(out, ",\"open_world_hint\":");
    push_opt_bool(out, r.open_world_hint);
    push_str(out, "}");
}

fn push_target(out: &mut Vec<char>, t: &CapabilityTarget)
    ensures
        final(out)@ == target_after(old(out)@, *t),
{
    match t {
        CapabilityTarget::Any => push_str(out, "{\"kind\":\"any\"}"),
        CapabilityTarget::StudioSession { session_id } => {
            push_str(out, "{\"kind\":\"studio_session\",\"session_id\":");
            push_quoted(out, session_id.to_text().as_str());
            push_str(out, "}");
        },
        CapabilityTarget::StudioEnvironment { environment_id } => {
            push_str(out, "{\"kind\":\"studio_environment\",\"environment_id\":");
            push_quoted(out, environment_id.to_text().as_str());
            push_str(out, "}");
        },
        CapabilityTarget::CloudPlace { universe_id, place_id } => {
            push_str(out, "{\"kind\":\"cloud_place\",\"universe_id\":");
            push_decimal(out, *universe_id);
            push_str(out, ",\"place_id\":");
            push_decimal(out, *place_id);
            push_str(out, "}");
        },
        CapabilityTarget::Workspace { workspace_id } => {
            push_str(out, "{\"kind\":\"workspace\",\"workspace_id\":");
            push_quoted(out, workspace_id.to_text().as_str());
            push_str(out, "}");
        },
    }
}

fn push_binding(out: &mut Vec<char>, b: &CapabilityBinding)
    ensures
        final(out)@ == binding_after(old(out)@, *b),
{
    push_str(out, "{\"capability\":");
    push_quoted(out, b.capability.as_str());
    push_str(out, ",\"target\":");
    push_target(out, &b.target);
    push_str(out, "}");
}

fn push_bindings(out: &mut Vec<char>, bs: &Vec<CapabilityBinding>)
    ensures
        final(out)@ == bindings_after(old(out)@, bs@, bs@.len() as int),
{
    let mut i: usize = 0;
    while i < bs.len()
        invariant
            i <= bs@.len(),
            out@ == bindings_after(old(out)@, bs@, i as int),
        decreases bs@.len() - i,
    {
        if i > 0 {
            push_str(out, ",");
        }
        push_binding(out, &bs[i]);
        i = i + 1;
    }
}

fn push_descriptor(out: &mut Vec<char>, d: &ToolDescriptor)
    ensures
        final(out)@ == descriptor_after(old(out)@, *d),
{
    push_str(out, "{\"id\":");
    push_quoted(out, d.id.to_text().as_str());
    push_str(out, ",\"provider_id\":");
    push_quoted(out, d.provider_id.to_text().as_str());
    push_str(out, ",\"native_name\":");
    push_quoted(out, d.native_name.as_str());
    push_str(out, ",\"title\":");
    push_opt_text(out, &d.title);
    push_str(out, ",\"provider_description\":");
    push_opt_text(out, &d.provider_description);
    push_str(out, ",\"input_schema\":");
    push_quoted(out, d.input_schema.0.to_text().as_str());
    push_str(out, ",\"output_schema\":");
    match &d.output_schema {
        Some(r) => push_quoted(out, r.0.to_text().as_str()),
        None => push_str(out, "null"),
    }
    push_str(out, ",\"capabilities\":[");
    push_bindings(out, &d.capabilities);
    push_str(out, "],\"verified_semantics\":");
    push_semantics(out, &d.verified_semantics);
    push_str(out, ",\"reported_semantics\":");
    push_reported(out, &d.reported_semantics);
    push_str(out, ",\"trust\":");
    match d.trust {
        ToolTrust::BuiltIn => push_str(out, "\"built_in\""),
        ToolTrust::Verified => push_str(out, "\"verified\""),
        ToolTrust::UserConfigured => push_str(out, "\"user_configured\""),
        ToolTrust::Untrusted => push_str(out, "\"untrusted\""),
    }
    push_str(out, ",\"availability\":");
    match d.availability {
        ToolAvailability::Available => push_str(out, "\"available\""),
        ToolAvailability::Stale => push_str(out, "\"stale\""),
        ToolAvailability::Unavailable => push_str(out, "\"unavailable\""),
        ToolAvailability::Quarantined => push_str(out, "\"quarantined\""),
    }
    push_str(out, "}");
}

/// The digest of the JSON serde writes for a provider's descriptors.
fn catalog_revision(ds: &Vec<ToolDescriptor>) -> (r: ContentHash)
    ensures
        r@ == blake3_digest(encode_utf8(catalog_text(ds@))),
{
    let mut out: Vec<char> = Vec::new();
    push_str(&mut out, "[");
    proof { assert(out@ =~= "["@); }
    let mut i: usize = 0;
    while i < ds.len()
        invariant
            i <= ds@.len(),
            out@ == descriptors_after("["@, ds@, i as int),
        decreases ds@.len() - i,
    {
        if i > 0 {
            push_str(&mut out, ",");
        }
        let ghost before = out@;
        push_descriptor(&mut out, &ds[i]);
        proof {
            assert(out@ == descriptor_after(before, ds@[i as int]));
            assert(descriptors_after("["@, ds@, i + 1) == descriptor_after(
                if i == 0 { "["@ } else { descriptors_after("["@, ds@, i as int) + ","@ }, ds@[i as int]));
        }
        i = i + 1;
    }
    push_str(&mut out, "]");
    let text = string_from_chars(out.as_slice());
    ContentHash::of(text.as_str().as_bytes())
}

/// The position of the tool with identity `id`.
fn find_tool(tools: &Vec<ToolDescriptor>, id: &ToolId) -> (r: Option<usize>)
    requires
        strictly_sorted(entry_keys(tools@)),
    ensures
        match r {
            Some(i) => i < tools@.len() && tools@[i as int].id@ == id@
                && tool_with_key(tools@, byte_ints(id@)) == Some(tools@[i as int]),
            None => tool_with_key(tools@, byte_ints(id@)) is None,
        },
{
    let mut i: usize = 0;
    while i < tools.len()
        invariant
            i <= tools@.len(),
            strictly_sorted(entry_keys(tools@)),
            forall|j: int| 0 <= j < i ==> (#[trigger] tools@[j]).id@ != id@,
        decreases tools@.len() - i,
    {
        if tools[i].id.same(id) {
            proof { lemma_tool_with_key(tools@, i as int); }
            return Some(i);
        }
        i = i + 1;
    }
    proof {
        if tool_with_key(tools@, byte_ints(id@)) is Some {
            let j = choose|j: int| 0 <= j < tools@.len() && entry_key(#[trigger] tools@[j]) == byte_ints(id@);
            lemma_byte_ints_injective(tools@[j].id@, id@);
        }
    }
    None
}

/// The tool marked unavailable.
pub open spec fn unavailable(d: ToolDescriptor) -> ToolDescriptor {
    ToolDescriptor { availability: ToolAvailability::Unavailable, ..d }
}

pub open spec fn marked(o: Option<ToolDescriptor>) -> Option<ToolDescriptor> {
    match o {
        Some(d) => Some(unavailable(d)),
        None => None,
    }
}

/// Marks the tool at `i` unavailable.
fn mark_unavailable(tools: &mut Vec<ToolDescriptor>, i: usize)
    requires
        strictly_sorted(entry_keys(old(tools)@)),
        i < old(tools)@.len(),
    ensures
        strictly_sorted(entry_keys(final(tools)@)),
        forall|k: Seq<int>| #[trigger] tool_with_key(final(tools)@, k) == if k == entry_key(old(tools)@[i as int]) {
            marked(tool_with_key(old(tools)@, k))
        } else {
            tool_with_key(old(tools)@, k)
        },
{
    let ghost original = tools@;
    let mut d = tools.remove(i);
    d.availability = ToolAvailability::Unavailable;
    tools.insert(i, d);
    proof {
        let t = tools@;
        assert(t =~= original.update(i as int, unavailable(original[i as int])));
        assert(entry_keys(t) =~= entry_keys(original));
        lemma_tool_with_key(original, i as int);
        lemma_tool_with_key(t, i as int);
        assert forall|k: Seq<int>| #[trigger] tool_with_key(t, k) == if k == entry_key(original[i as int]) {
            marked(tool_with_key(original, k))
        } else {
            tool_with_key(original, k)
        } by {
            if k != entry_key(original[i as int]) {
                if exists|a: int| 0 <= a < original.len() && entry_key(#[trigger] original[a]) == k {
                    let a = choose|a: int| 0 <= a < original.len() && entry_key(#[trigger] original[a]) == k;
                    lemma_tool_with_key(original, a);
                    assert(t[a] == original[a]);
                    lemma_tool_with_key(t, a);
                } else {
                    if exists|b: int| 0 <= b < t.len() && entry_key(#[trigger] t[b]) == k {
                        let b = choose|b: int| 0 <= b < t.len() && entry_key(#[trigger] t[b]) == k;
                        assert(t[b] == original[b]);
                    }
                }
            }
        }
    }
}

/// The tool identities of a provider recorded in `entries`, if any.
pub open spec fn entry_for<T>(entries: Seq<(ProviderId, T)>, p: Seq<u8>) -> Option<T>
    decreases entries.len(),
{
    if entries.len() == 0 {
        None
    } else if entries[0].0@ == p {
        Some(entries[0].1)
    } else {
        entry_for(entries.drop_first(), p)
    }
}

/// Records `value` for provider `p`, replacing what was there.
fn set_entry<T>(entries: &mut Vec<(ProviderId, T)>, p: ProviderId, value: T)
    ensures
        forall|q: Seq<u8>| #[trigger] entry_for(final(entries)@, q) == if q == p@ { Some(value) } else { entry_for(old(entries)@, q) },
{
    let ghost original = entries@;
    let mut i: usize = 0;
    proof { assert(original.skip(0) =~= original); }
    while i < entries.len()
        invariant
            i <= entries@.len(),
            entries@ == original,
            original == old(entries)@,
            forall|j: int| 0 <= j < i ==> (#[trigger] entries@[j]).0@ != p@,
        decreases entries@.len() - i,
    {
        if entries[i].0.same(&p) {
            let ghost vg = value;
            entries.remove(i);
            entries.insert(i, (p, value));
            proof {
                assert(entries@ =~= original.update(i as int, (p, vg)));
                assert forall|q: Seq<u8>| #[trigger] entry_for(entries@, q) == if q == p@ { Some(vg) } else { entry_for(original, q) } by {
                    lemma_entry_for_update(original, i as int, p, vg, q);
                }
            }
            return;
        }
        i = i + 1;
    }
    let ghost vg = value;
    entries.push((p, value));
    proof {
        assert forall|q: Seq<u8>| #[trigger] entry_for(entries@, q) == if q == p@ { Some(vg) } else { entry_for(original, q) } by {
            lemma_entry_for_push(original, p, vg, q);
        }
    }
}

proof fn lemma_entry_for_update<T>(s: Seq<(ProviderId, T)>, i: int, p: ProviderId, v: T, q: Seq<u8>)
    requires
        0 <= i < s.len(),
        s[i].0@ == p@,
        forall|j: int| 0 <= j < i ==> (#[trigger] s[j]).0@ != p@,
    ensures
        entry_for(s.update(i, (p, v)), q) == if q == p@ { Some(v) } else { entry_for(s, q) },
    decreases i,
{
    let t = s.update(i, (p, v));
    if i == 0 {
        assert(t.drop_first() =~= s.drop_first());
    } else {
        assert(t.drop_first() =~= s.drop_first().update(i - 1, (p, v)));
        if s[0].0@ != q {
            lemma_entry_for_update(s.drop_first(), i - 1, p, v, q);
        } else {
            assert(s[0].0@ != p@);
        }
    }
}

proof fn lemma_entry_for_push<T>(s: Seq<(ProviderId, T)>, p: ProviderId, v: T, q: Seq<u8>)
    requires
        forall|j: int| 0 <= j < s.len() ==> (#[trigger] s[j]).0@ != p@,
    ensures
        entry_for(s.push((p, v)), q) == if q == p@ { Some(v) } else { entry_for(s, q) },
    decreases s.len(),
{
    if s.len() == 0 {
        assert(s.push((p, v)).drop_first() =~= Seq::<(ProviderId, T)>::empty());
    } else {
        assert(s.push((p, v)).drop_first() =~= s.drop_first().push((p, v)));
        if s[0].0@ != q {
            lemma_entry_for_push(s.drop_first(), p, v, q);
        }
    }
}

/// The available tools of a list, in order.
pub open spec fn available_tools(s: Seq<ToolDescriptor>) -> Seq<ToolDescriptor>
    decreases s.len(),
{
    if s.len() == 0 {
        Seq::empty()
    } else if s.last().availability == ToolAvailability::Available {
        available_tools(s.drop_last()).push(s.last())
    } else {
        available_tools(s.drop_last())
    }
}

/// The words of a text: its maximal runs of non-white-space characters.
pub open spec fn words(s: Seq<char>) -> Seq<Seq<char>>
    decreases s.len(),
{
    if s.len() == 0 {
        Seq::empty()
    } else if is_white_space(s.last()) {
        words(s.drop_last())
    } else if s.len() >= 2 && !is_white_space(s[s.len() - 2]) {
        let w = words(s.drop_last());
        w.update(w.len() - 1, w.last().push(s.last()))
    } else {
        words(s.drop_last()).push(seq![s.last()])
    }
}

/// The search terms of a query: its words, ASCII lower-cased.
pub open spec fn query_terms(q: Seq<char>) -> Seq<Seq<char>> {
    words(q).map_values(|w: Seq<char>| lower_seq(w))
}

/// The capability identifiers of the first `n` bindings, separated by spaces.
pub open spec fn capability_words(bs: Seq<CapabilityBinding>, n: int) -> Seq<char>
    decreases n,
{
    if n <= 0 || n > bs.len() {
        Seq::empty()
    } else if n == 1 {
        bs[0].capability@
    } else {
        capability_words(bs, n - 1) + " "@ + bs[n - 1].capability@
    }
}

pub open spec fn opt_plain(o: Option<String>) -> Seq<char> {
    match o {
        Some(s) => s@,
        None => Seq::empty(),
    }
}

/// The text a tool is searched by.
pub open spec fn haystack_text(d: ToolDescriptor) -> Seq<char> {
    d.native_name@ + " "@ + opt_plain(d.title) + " "@ + opt_plain(d.provider_description) + " "@
        + capability_words(d.capabilities@, d.capabilities@.len() as int)
}

/// Every term occurs in the tool's lower-cased text.
pub open spec fn term_match(d: ToolDescriptor, terms: Seq<Seq<char>>) -> bool {
    forall|u: int| 0 <= u < terms.len() ==> contains_sub(lower_seq(haystack_text(d)), #[trigger] terms[u])
}

pub open spec fn matching_tools(s: Seq<ToolDescriptor>, terms: Seq<Seq<char>>) -> Seq<ToolDescriptor>
    decreases s.len(),
{
    if s.len() == 0 {
        Seq::empty()
    } else if term_match(s.last(), terms) {
        matching_tools(s.drop_last(), terms).push(s.last())
    } else {
        matching_tools(s.drop_last(), terms)
    }
}

proof fn lemma_matching_push(s: Seq<ToolDescriptor>, d: ToolDescriptor, terms: Seq<Seq<char>>)
    ensures
        matching_tools(s.push(d), terms) == if term_match(d, terms) { matching_tools(s, terms).push(d) } else { matching_tools(s, terms) },
{
    assert(s.push(d).drop_last() =~= s);
}

/// Matches among a longer prefix extend those among a shorter one.
proof fn lemma_matching_prefix(tools: Seq<ToolDescriptor>, i: int, terms: Seq<Seq<char>>)
    requires
        0 <= i <= tools.len(),
    ensures
        matching_tools(available_tools(tools.take(i)), terms).len() <= matching_tools(available_tools(tools), terms).len(),
        forall|j: int| 0 <= j < matching_tools(available_tools(tools.take(i)), terms).len() ==>
            #[trigger] matching_tools(available_tools(tools.take(i)), terms)[j] == matching_tools(available_tools(tools), terms)[j],
    decreases tools.len() - i,
{
    if i < tools.len() {
        lemma_matching_prefix(tools, i + 1, terms);
        assert(tools.take(i + 1).drop_last() =~= tools.take(i));
        let a = available_tools(tools.take(i));
        let b = available_tools(tools.take(i + 1));
        assert(tools.take(i + 1).last() == tools[i]);
        if tools[i].availability == ToolAvailability::Available {
            assert(b == a.push(tools[i]));
            lemma_matching_push(a, tools[i], terms);
        } else {
            assert(b == a);
        }
        let full = matching_tools(available_tools(tools), terms);
        assert forall|j: int| 0 <= j < matching_tools(a, terms).len() implies
            #[trigger] matching_tools(a, terms)[j] == full[j] by {
            assert(matching_tools(a, terms)[j] == matching_tools(b, terms)[j]);
        }
    } else {
        assert(tools.take(i) =~= tools);
    }
}

/// The text a tool is searched by.
fn haystack(d: &ToolDescriptor) -> (r: Vec<char>)
    ensures
        r@ == haystack_text(*d),
{
    let mut out: Vec<char> = Vec::new();
    push_str(&mut out, d.native_name.as_str());
    push_str(&mut out, " ");
    match &d.title {
        Some(t) => push_str(&mut out, t.as_str()),
        None => {},
    }
    push_str(&mut out, " ");
    match &d.provider_description {
        Some(t) => push_str(&mut out, t.as_str()),
        None => {},
    }
    push_str(&mut out, " ");
    let ghost head = out@;
    let mut i: usize = 0;
    while i < d.capabilities.len()
        invariant
            i <= d.capabilities@.len(),
            out@ == head + capability_words(d.capabilities@, i as int),
        decreases d.capabilities@.len() - i,
    {
        if i > 0 {
            push_str(&mut out, " ");
        }
        push_str(&mut out, d.capabilities[i].capability.as_str());
        proof {
            if i == 0 {
                assert(out@ =~= head + capability_words(d.capabilities@, 1));
            } else {
                assert(out@ =~= head + capability_words(d.capabilities@, i + 1));
            }
        }
        i = i + 1;
    }
    proof { assert(out@ =~= haystack_text(*d)); }
    out
}

fn char_is_white_space(c: char) -> (r: bool)
    ensures
        r == is_white_space(c),
{
    let n = c as u32;
    (0x09 <= n && n <= 0x0d) || n == 0x20 || n == 0x85 || n == 0xa0 || n == 0x1680 || (0x2000 <= n && n <= 0x200a)
        || n == 0x2028 || n == 0x2029 || n == 0x202f || n == 0x205f || n == 0x3000
}

proof fn lemma_words_nonempty(s: Seq<char>)
    requires
        s.len() > 0,
        !is_white_space(s.last()),
    ensures
        words(s).len() > 0,
    decreases s.len(),
{
    if s.len() >= 2 && !is_white_space(s[s.len() - 2]) {
        lemma_words_nonempty(s.drop_last());
    }
}

/// The search terms of a query.
fn words_of(query: &str) -> (r: Vec<Vec<char>>)
    ensures
        r@.len() == query_terms(query@).len(),
        forall|t: int| 0 <= t < r@.len() ==> (#[trigger] r@[t])@ == query_terms(query@)[t],
{
    let chars = chars_of(query);
    let mut raw: Vec<Vec<char>> = Vec::new();
    let mut i: usize = 0;
    while i < chars.len()
        invariant
            i <= chars@.len(),
            chars@ == query@,
            raw@.len() == words(chars@.take(i as int)).len(),
            forall|t: int| 0 <= t < raw@.len() ==> (#[trigger] raw@[t])@ == words(chars@.take(i as int))[t],
        decreases chars@.len() - i,
    {
        let ghost prefix = chars@.take(i + 1);
        proof {
            assert(prefix.drop_last() =~= chars@.take(i as int));
            assert(prefix.last() == chars@[i as int]);
            if i >= 1 {
                assert(prefix[prefix.len() - 2] == chars@[i - 1]);
            }
        }
        let c = chars[i];
        if char_is_white_space(c) {
        } else if i >= 1 && !char_is_white_space(chars[i - 1]) {
            proof {
                assert(chars@.take(i as int).last() == chars@[i - 1]);
                lemma_words_nonempty(chars@.take(i as int));
            }
            let last = raw.len() - 1;
            let mut w = raw.remove(last);
            w.push(c);
            raw.push(w);
            proof {
                let old_words = words(chars@.take(i as int));
                assert forall|t: int| 0 <= t < raw@.len() implies (#[trigger] raw@[t])@ == words(prefix)[t] by {
                    if t < last {
                    }
                }
            }
        } else {
            let mut w: Vec<char> = Vec::new();
            w.push(c);
            raw.push(w);
            proof {
                assert(w@ =~= seq![c]);
            }
        }
        i = i + 1;
    }
    proof { assert(chars@.take(chars@.len() as int) =~= chars@); }
    let mut out: Vec<Vec<char>> = Vec::new();
    let mut t: usize = 0;
    while t < raw.len()
        invariant
            t <= raw@.len(),
            raw@.len() == words(query@).len(),
            forall|u: int| 0 <= u < raw@.len() ==> (#[trigger] raw@[u])@ == words(query@)[u],
            out@.len() == t,
            forall|u: int| 0 <= u < t ==> (#[trigger] out@[u])@ == lower_seq(words(query@)[u]),
        decreases raw@.len() - t,
    {
        out.push(lowercase(raw[t].as_slice()));
        t = t + 1;
    }
    out
}

/// The schemas of two descriptors differ.
pub open spec fn schemas_differ(a: ToolDescriptor, b: ToolDescriptor) -> bool {
    a.input_schema.0@ != b.input_schema.0@ || match (a.output_schema, b.output_schema) {
        (Some(x), Some(y)) => x.0@ != y.0@,
        (None, None) => false,
        _ => true,
    }
}

/// How a refreshed tool compares with the catalog before: new (0), with
/// changed schemas (1), or unchanged (2).
pub open spec fn change_kind(d: ToolDescriptor, before: Seq<ToolDescriptor>) -> int {
    match tool_with_key(before, entry_key(d)) {
        None => 0,
        Some(o) => if schemas_differ(o, d) { 1 } else { 2 },
    }
}

/// The identities, in order, of the tools of `next` of the given kind.
pub open spec fn ids_of_kind(next: Seq<ToolDescriptor>, before: Seq<ToolDescriptor>, kind: int) -> Seq<ToolId>
    decreases next.len(),
{
    if next.len() == 0 {
        Seq::empty()
    } else if change_kind(next.last(), before) == kind {
        ids_of_kind(next.drop_last(), before, kind).push(next.last().id)
    } else {
        ids_of_kind(next.drop_last(), before, kind)
    }
}

/// The identities, in order, of `previous` that `next` no longer holds.
pub open spec fn removed_ids(previous: Seq<ToolId>, next: Seq<ToolDescriptor>) -> Seq<ToolId>
    decreases previous.len(),
{
    if previous.len() == 0 {
        Seq::empty()
    } else if tool_with_key(next, byte_ints(previous.last()@)) is None {
        removed_ids(previous.drop_last(), next).push(previous.last())
    } else {
        removed_ids(previous.drop_last(), next)
    }
}

pub open spec fn ids_of(s: Seq<ToolDescriptor>) -> Seq<ToolId> {
    s.map_values(|d: ToolDescriptor| d.id)
}

/// Some identity of `previous` has key `k`.
pub open spec fn listed(previous: Seq<ToolId>, k: Seq<int>) -> bool {
    exists|j: int| 0 <= j < previous.len() && byte_ints((#[trigger] previous[j])@) == k
}

/// The catalog after a refresh, key by key: the new listing wins; a tool the
/// provider listed before and no longer lists is kept, unavailable.
pub open spec fn refreshed(before: Seq<ToolDescriptor>, previous: Seq<ToolId>, next: Seq<ToolDescriptor>, k: Seq<int>)
    -> Option<ToolDescriptor>
{
    if tool_with_key(next, k) is Some {
        tool_with_key(next, k)
    } else if listed(previous, k) {
        marked(tool_with_key(before, k))
    } else {
        tool_with_key(before, k)
    }
}

/// The tools of all providers, ordered by identity; per provider, the
/// identities it currently lists and the revision of that listing; and the
/// schemas registered.
pub struct ToolCatalog {
    tools: Vec<ToolDescriptor>,
    provider_tools: Vec<(ProviderId, Vec<ToolId>)>,
    schema_registry: SchemaRegistry,
    catalog_revisions: Vec<(ProviderId, ContentHash)>,
}

impl ToolCatalog {
    pub closed spec fn tools_spec(&self) -> Seq<ToolDescriptor> {
        self.tools@
    }

    /// The identities a provider currently lists (none if it never did).
    pub closed spec fn listing(&self, p: Seq<u8>) -> Seq<ToolId> {
        match entry_for(self.provider_tools@, p) {
            Some(v) => v@,
            None => Seq::empty(),
        }
    }

    pub closed spec fn revision_spec(&self, p: Seq<u8>) -> Option<ContentHash> {
        entry_for(self.catalog_revisions@, p)
    }

    pub closed spec fn schemas(&self) -> Seq<SchemaRecord> {
        self.schema_registry.records()
    }

    pub closed spec fn wf(&self) -> bool {
        strictly_sorted(entry_keys(self.tools@))
    }

    pub fn new() -> (r: ToolCatalog)
        ensures
            r.wf(),
            r.tools_spec().len() == 0,
            forall|p: Seq<u8>| #[trigger] r.listing(p).len() == 0 && r.revision_spec(p) is None,
            r.schemas().len() == 0,
    {
        ToolCatalog {
            tools: Vec::new(),
            provider_tools: Vec::new(),
            schema_registry: SchemaRegistry::new(),
            catalog_revisions: Vec::new(),
        }
    }

    fn listing_of(&self, p: &ProviderId) -> (r: Vec<ToolId>)
        ensures
            r@ == self.listing(p@),
    {
        let mut i: usize = 0;
        proof { assert(self.provider_tools@.skip(0) =~= self.provider_tools@); }
        while i < self.provider_tools.len()
            invariant
                i <= self.provider_tools@.len(),
                entry_for(self.provider_tools@, p@) == entry_for(self.provider_tools@.skip(i as int), p@),
            decreases self.provider_tools@.len() - i,
        {
            proof { assert(self.provider_tools@.skip(i as int).drop_first() =~= self.provider_tools@.skip(i + 1)); }
            if self.provider_tools[i].0.same(p) {
                let ids = &self.provider_tools[i].1;
                let mut out: Vec<ToolId> = Vec::new();
                let mut j: usize = 0;
                while j < ids.len()
                    invariant
                        j <= ids@.len(),
                        out@ == ids@.take(j as int),
                    decreases ids@.len() - j,
                {
                    out.push(ids[j]);
                    proof { assert(out@ =~= ids@.take(j + 1)); }
                    j = j + 1;
                }
                proof { assert(out@ =~= ids@); }
                return out;
            }
            i = i + 1;
        }
        Vec::new()
    }

    /// Replaces a provider's listing. Each listed tool is checked first (a
    /// blank or repeated name, or a schema that cannot be registered, refuses
    /// the whole listing, though schemas registered before the fault stay).
    /// Tools are then reported as added, with changed schemas, unchanged, or
    /// removed; removed tools stay in the catalog, unavailable.
    pub fn refresh_provider(&mut self, provider_id: ProviderId, imported: Vec<ImportedTool>) -> (r: Result<CatalogRefresh, ToolFabricError>)
        requires
            old(self).wf(),
        ensures
            final(self).wf(),
            registry_grows(old(self).schemas(), final(self).schemas()),
            match first_fault(imported@, imported@.len() as int) {
                Some(e) => r == Err::<CatalogRefresh, ToolFabricError>(e)
                    && final(self).tools_spec() == old(self).tools_spec()
                    && (forall|p: Seq<u8>| #[trigger] final(self).listing(p) == old(self).listing(p)
                        && final(self).revision_spec(p) == old(self).revision_spec(p)),
                None => r matches Ok(refresh) && exists|next: Seq<ToolDescriptor>| {
                    &&& built_from(next, imported@, provider_id, imported@.len() as int)
                    &&& refresh.provider_id == provider_id
                    &&& refresh.catalog_revision@ == blake3_digest(encode_utf8(catalog_text(next)))
                    &&& refresh.added@ == ids_of_kind(next, old(self).tools_spec(), 0)
                    &&& refresh.schema_changed@ == ids_of_kind(next, old(self).tools_spec(), 1)
                    &&& refresh.unchanged@ == ids_of_kind(next, old(self).tools_spec(), 2)
                    &&& refresh.removed@ == removed_ids(old(self).listing(provider_id@), next)
                    &&& forall|k: Seq<int>| #[trigger] tool_with_key(final(self).tools_spec(), k)
                        == refreshed(old(self).tools_spec(), old(self).listing(provider_id@), next, k)
                    &&& forall|p: Seq<u8>| #[trigger] final(self).listing(p)
                        == if p == provider_id@ { ids_of(next) } else { old(self).listing(p) }
                    &&& forall|p: Seq<u8>| #[trigger] final(self).revision_spec(p)
                        == if p == provider_id@ { Some(refresh.catalog_revision) } else { old(self).revision_spec(p) }
                },
            },
    {
        let next = match build_next(&mut self.schema_registry, provider_id, imported) {
            Ok(n) => n,
            Err(e) => { return Err(e); },
        };
        let ghost before = self.tools@;
        let ghost registry_after = self.schema_registry.records();
        proof {
            assert(self.provider_tools@ == old(self).provider_tools@);
            assert(self.catalog_revisions@ == old(self).catalog_revisions@);
        }
        let previous = self.listing_of(&provider_id);
        let revision = catalog_revision(&next);
        let mut added: Vec<ToolId> = Vec::new();
        let mut schema_changed: Vec<ToolId> = Vec::new();
        let mut unchanged: Vec<ToolId> = Vec::new();
        let mut i: usize = 0;
        while i < next.len()
            invariant
                i <= next@.len(),
                self.provider_tools@ == old(self).provider_tools@,
                self.catalog_revisions@ == old(self).catalog_revisions@,
                self.schema_registry.records() == registry_after,
                registry_grows(old(self).schemas(), registry_after),
                self.tools@ == before,
                strictly_sorted(entry_keys(before)),
                added@ == ids_of_kind(next@.take(i as int), before, 0),
                schema_changed@ == ids_of_kind(next@.take(i as int), before, 1),
                unchanged@ == ids_of_kind(next@.take(i as int), before, 2),
            decreases next@.len() - i,
        {
            proof { assert(next@.take(i + 1).drop_last() =~= next@.take(i as int)); }
            let id = next[i].id;
            match find_tool(&self.tools, &id) {
                None => { added.push(id); },
                Some(j) => {
                    let o = &self.tools[j];
                    let same_input = same_hash(&o.input_schema.0, &next[i].input_schema.0);
                    let same_output = match (&o.output_schema, &next[i].output_schema) {
                        (Some(x), Some(y)) => same_hash(&x.0, &y.0),
                        (None, None) => true,
                        _ => false,
                    };
                    if !same_input || !same_output {
                        schema_changed.push(id);
                    } else {
                        unchanged.push(id);
                    }
                },
            }
            i = i + 1;
        }
        proof { assert(next@.take(next@.len() as int) =~= next@); }
        let mut removed: Vec<ToolId> = Vec::new();
        let mut j: usize = 0;
        while j < previous.len()
            invariant
                j <= previous@.len(),
                self.provider_tools@ == old(self).provider_tools@,
                self.catalog_revisions@ == old(self).catalog_revisions@,
                self.schema_registry.records() == registry_after,
                registry_grows(old(self).schemas(), registry_after),
                strictly_sorted(entry_keys(self.tools@)),
                strictly_sorted(entry_keys(next@)),
                removed@ == removed_ids(previous@.take(j as int), next@),
                forall|k: Seq<int>| #[trigger] tool_with_key(self.tools@, k) == if tool_with_key(next@, k) is None
                    && listed(previous@.take(j as int), k) {
                    marked(tool_with_key(before, k))
                } else {
                    tool_with_key(before, k)
                },
            decreases previous@.len() - j,
        {
            proof { assert(previous@.take(j + 1).drop_last() =~= previous@.take(j as int)); }
            let id = previous[j];
            match find_tool(&next, &id) {
                Some(_) => {},
                None => {
                    removed.push(id);
                    match find_tool(&self.tools, &id) {
                        Some(idx) => {
                            let ghost prior = self.tools@;
                            mark_unavailable(&mut self.tools, idx);
                            proof {
                                assert(entry_key(prior[idx as int]) == byte_ints(id@));
                            }
                        },
                        None => {},
                    }
                },
            }
            proof {
                assert forall|k: Seq<int>| #[trigger] tool_with_key(self.tools@, k) == if tool_with_key(next@, k) is None
                    && listed(previous@.take(j + 1), k) {
                    marked(tool_with_key(before, k))
                } else {
                    tool_with_key(before, k)
                } by {
                    if listed(previous@.take(j + 1), k) && !listed(previous@.take(j as int), k) {
                        let w = choose|w: int| 0 <= w < j + 1 && byte_ints((#[trigger] previous@.take(j + 1)[w])@) == k;
                        if w < j {
                            assert(previous@.take(j as int)[w] == previous@.take(j + 1)[w]);
                        }
                    }
                    if listed(previous@.take(j as int), k) {
                        let w = choose|w: int| 0 <= w < j && byte_ints((#[trigger] previous@.take(j as int)[w])@) == k;
                        assert(previous@.take(j + 1)[w] == previous@.take(j as int)[w]);
                    }
                    if k == byte_ints(id@) {
                        assert(previous@.take(j + 1)[j as int] == id);
                    }
                }
            }
            j = j + 1;
        }
        proof { assert(previous@.take(previous@.len() as int) =~= previous@); }
        let ghost marked_tools = self.tools@;
        let ghost next_view = next@;
        let mut ids: Vec<ToolId> = Vec::new();
        let total = next.len();
        let mut rest = next;
        let mut m: usize = 0;
        while rest.len() > 0
            invariant
                m <= next_view.len(),
                next_view.len() == total,
                self.provider_tools@ == old(self).provider_tools@,
                self.catalog_revisions@ == old(self).catalog_revisions@,
                self.schema_registry.records() == registry_after,
                registry_grows(old(self).schemas(), registry_after),

                rest@ == next_view.skip(m as int),
                ids@ == ids_of(next_view.take(m as int)),
                strictly_sorted(entry_keys(next_view)),
                strictly_sorted(entry_keys(self.tools@)),
                forall|k: Seq<int>| #[trigger] tool_with_key(self.tools@, k) == if
                    exists|a: int| 0 <= a < m && entry_key(#[trigger] next_view[a]) == k {
                    tool_with_key(next_view, k)
                } else {
                    tool_with_key(marked_tools, k)
                },
            decreases rest@.len(),
        {
            proof {
                assert(rest@.len() == next_view.len() - m);
                assert(rest@[0] == next_view[m as int]);
            }
            let d = rest.remove(0);
            proof { assert(rest@ =~= next_view.skip(m + 1)); }
            ids.push(d.id);
            proof { assert(ids@ =~= ids_of(next_view.take(m + 1))); }
            let ghost dg = d;
            let ghost prior = self.tools@;
            upsert_tool(&mut self.tools, d);
            proof {
                lemma_tool_with_key(next_view, m as int);
                assert forall|k: Seq<int>| #[trigger] tool_with_key(self.tools@, k) == if
                    exists|a: int| 0 <= a < m + 1 && entry_key(#[trigger] next_view[a]) == k {
                    tool_with_key(next_view, k)
                } else {
                    tool_with_key(marked_tools, k)
                } by {
                    if k != entry_key(dg) {
                        if exists|a: int| 0 <= a < m + 1 && entry_key(#[trigger] next_view[a]) == k {
                            let a = choose|a: int| 0 <= a < m + 1 && entry_key(#[trigger] next_view[a]) == k;
                            assert(a != m);
                        }
                    } else {
                        assert(entry_key(next_view[m as int]) == k);
                    }
                }
            }
            m = m + 1;
        }
        proof {
            assert(next_view.take(m as int) =~= next_view);
            assert forall|k: Seq<int>| #[trigger] tool_with_key(self.tools@, k)
                == refreshed(before, previous@, next_view, k) by {
                if exists|a: int| 0 <= a < m && entry_key(#[trigger] next_view[a]) == k {
                    let a = choose|a: int| 0 <= a < m && entry_key(#[trigger] next_view[a]) == k;
                    lemma_tool_with_key(next_view, a);
                } else {
                    if tool_with_key(next_view, k) is Some {
                        let a = choose|a: int| 0 <= a < next_view.len() && entry_key(#[trigger] next_view[a]) == k;
                    }
                }
            }
        }
        let ghost ids_view = ids@;
        set_entry(&mut self.provider_tools, provider_id, ids);
        set_entry(&mut self.catalog_revisions, provider_id, revision);
        let refresh = CatalogRefresh {
            provider_id,
            catalog_revision: revision,
            added,
            schema_changed,
            removed,
            unchanged,
        };
        proof {
            assert forall|p: Seq<u8>| #[trigger] self.listing(p)
                == if p == provider_id@ { ids_of(next_view) } else { old(self).listing(p) } by {
            }
            assert(built_from(next_view, imported@, provider_id, imported@.len() as int));
            assert(refresh.catalog_revision@ == blake3_digest(encode_utf8(catalog_text(next_view))));
            assert(refresh.added@ == ids_of_kind(next_view, old(self).tools_spec(), 0));
            assert(refresh.schema_changed@ == ids_of_kind(next_view, old(self).tools_spec(), 1));
            assert(refresh.unchanged@ == ids_of_kind(next_view, old(self).tools_spec(), 2));
            assert(refresh.removed@ == removed_ids(old(self).listing(provider_id@), next_view));
            assert(forall|k: Seq<int>| #[trigger] tool_with_key(self.tools_spec(), k)
                == refreshed(old(self).tools_spec(), old(self).listing(provider_id@), next_view, k));
            assert(forall|p: Seq<u8>| #[trigger] self.revision_spec(p)
                == if p == provider_id@ { Some(refresh.catalog_revision) } else { old(self).revision_spec(p) });
        }
        Ok(refresh)
    }

    /// The tool a reference names, when the provider matches.
    pub fn get(&self, reference: &ToolRef) -> (r: Option<&ToolDescriptor>)
        requires
            self.wf(),
        ensures
            match tool_with_key(self.tools_spec(), byte_ints(reference.tool_id@)) {
                Some(d) => if d.provider_id@ == reference.provider_id@ { r matches Some(x) && *x == d } else { r is None },
                None => r is None,
            },
    {
        match find_tool(&self.tools, &reference.tool_id) {
            Some(i) => {
                if self.tools[i].provider_id.same(&reference.provider_id) {
                    Some(&self.tools[i])
                } else {
                    None
                }
            },
            None => None,
        }
    }

    /// Every tool, in identity order.
    pub(crate) fn tool_list(&self) -> (r: &[ToolDescriptor])
        ensures
            r@ == self.tools_spec(),
    {
        self.tools.as_slice()
    }

    /// The tools that are available, in identity order.
    pub fn active_tools(&self) -> (r: Vec<&ToolDescriptor>)
        ensures
            r@.len() == available_tools(self.tools_spec()).len(),
            forall|i: int| 0 <= i < r@.len() ==> *(#[trigger] r@[i]) == available_tools(self.tools_spec())[i],
    {
        let mut out: Vec<&ToolDescriptor> = Vec::new();
        let mut i: usize = 0;
        while i < self.tools.len()
            invariant
                i <= self.tools@.len(),
                out@.len() == available_tools(self.tools@.take(i as int)).len(),
                forall|j: int| 0 <= j < out@.len() ==> *(#[trigger] out@[j]) == available_tools(self.tools@.take(i as int))[j],
            decreases self.tools@.len() - i,
        {
            proof { assert(self.tools@.take(i + 1).drop_last() =~= self.tools@.take(i as int)); }
            if self.tools[i].availability == ToolAvailability::Available {
                out.push(&self.tools[i]);
            }
            i = i + 1;
        }
        proof { assert(self.tools@.take(self.tools@.len() as int) =~= self.tools@); }
        out
    }

    /// The available tools, in identity order, whose text (name, title,
    /// description and capability identifiers) contains every word of the
    /// query, ASCII case ignored; at most `limit` of them, the limit taken
    /// between 1 and 100.
    pub fn search(&self, query: &str, limit: usize) -> (r: Vec<&ToolDescriptor>)
        ensures
            ({
                let found = matching_tools(available_tools(self.tools_spec()), query_terms(query@));
                let cap = if limit < 1 { 1 } else if limit > 100 { 100 } else { limit as int };
                &&& r@.len() == if found.len() < cap { found.len() as int } else { cap }
                &&& forall|i: int| 0 <= i < r@.len() ==> *(#[trigger] r@[i]) == found[i]
            }),
    {
        let cap: usize = if limit < 1 { 1 } else if limit > 100 { 100 } else { limit };
        let terms = words_of(query);
        let ghost terms_view = query_terms(query@);
        let ghost avail = available_tools(self.tools@);
        let mut out: Vec<&ToolDescriptor> = Vec::new();
        let mut i: usize = 0;
        while i < self.tools.len() && out.len() < cap
            invariant
                i <= self.tools@.len(),
                1 <= cap <= 100,
                terms@.len() == terms_view.len(),
                forall|t: int| 0 <= t < terms@.len() ==> (#[trigger] terms@[t])@ == terms_view[t],
                out@.len() <= cap,
                out@.len() == matching_tools(available_tools(self.tools@.take(i as int)), terms_view).len(),
                forall|j: int| 0 <= j < out@.len() ==> *(#[trigger] out@[j])
                    == matching_tools(available_tools(self.tools@.take(i as int)), terms_view)[j],
            decreases self.tools@.len() - i,
        {
            proof { assert(self.tools@.take(i + 1).drop_last() =~= self.tools@.take(i as int)); }
            let d = &self.tools[i];
            if d.availability == ToolAvailability::Available {
                let hay = lowercase(haystack(d).as_slice());
                let mut all = true;
                let mut t: usize = 0;
                while t < terms.len()
                    invariant
                        t <= terms@.len(),
                        hay@ == lower_seq(haystack_text(*d)),
                        all == forall|u: int| 0 <= u < t ==> contains_sub(hay@, (#[trigger] terms@[u])@),
                    decreases terms@.len() - t,
                {
                    if !contains_chars(hay.as_slice(), terms[t].as_slice()) {
                        all = false;
                    }
                    t = t + 1;
                }
                proof {
                    assert(all == term_match(*d, terms_view)) by {
                        if all {
                            assert forall|u: int| 0 <= u < terms_view.len() implies
                                contains_sub(lower_seq(haystack_text(*d)), #[trigger] terms_view[u]) by {
                                assert(terms@[u]@ == terms_view[u]);
                            }
                        } else {
                            let u = choose|u: int| 0 <= u < terms@.len() && !contains_sub(hay@, (#[trigger] terms@[u])@);
                            assert(terms@[u]@ == terms_view[u]);
                        }
                    }
                    lemma_matching_push(available_tools(self.tools@.take(i as int)), *d, terms_view);
                }
                if all {
                    out.push(d);
                }
            }
            i = i + 1;
        }
        proof {
            let found = matching_tools(avail, terms_view);
            let seen = matching_tools(available_tools(self.tools@.take(i as int)), terms_view);
            lemma_matching_prefix(self.tools@, i as int, terms_view);
            if i == self.tools@.len() {
                assert(self.tools@.take(i as int) =~= self.tools@);
            }
        }
        out
    }

    /// The record of a registered schema.
    pub fn schema(&self, revision: SchemaRevision) -> (r: Option<&SchemaRecord>)
        ensures
            match r {
                Some(x) => exists|i: int| 0 <= i < self.schemas().len() && self.schemas()[i] == *x
                    && x.revision.0@ == revision.0@,
                None => !has_revision(self.schemas(), revision.0@),
            },
    {
        let r = self.schema_registry.get(revision);
        proof {
            if let Some(x) = r {
                let i = choose|i: int| 0 <= i < self.schema_registry.records().len()
                    && self.schema_registry.records()[i] == *x && x.revision.0@ == revision.0@;
                assert(self.schemas()[i] == *x);
            }
        }
        r
    }
}

/// The identity of one operation of the fabric: `op_` and a UUID.
#[derive(Clone, Copy, Debug, Eq, Hash, Ord, PartialEq, PartialOrd)]
pub struct OperationId(pub LatticeId);

pub open spec fn operation_prefix() -> Seq<char> {
    seq!['o', 'p', '_']
}

impl OperationId {
    /// A fresh identity.
    pub fn new() -> (r: OperationId)
        ensures
            is_version7(r.0@),
    {
        OperationId(LatticeId::new())
    }

    pub fn to_text(&self) -> (r: String)
        ensures
            r@ == operation_prefix() + hyphen_text(self.0@),
    {
        let mut out: Vec<char> = Vec::new();
        out.push('o');
        out.push('p');
        out.push('_');
        push_str(&mut out, self.0.to_text().as_str());
        string_from_chars(out.as_slice())
    }

    /// Reads `op_` followed by an identifier the UUID parser accepts.
    pub fn parse(value: &str) -> (r: Result<OperationId, ToolFabricError>)
        ensures
            ({
                let s = value@;
                if is_prefix(operation_prefix(), s) && lattice_id_value(s.skip(3)) is Some {
                    r matches Ok(x) && x.0@ == lattice_id_value(s.skip(3))->0
                } else {
                    r == Err::<OperationId, ToolFabricError>(ToolFabricError::InvalidOperationId)
                }
            }),
    {
        let chars = chars_of(value);
        let mut prefix: Vec<char> = Vec::new();
        prefix.push('o');
        prefix.push('p');
        prefix.push('_');
        proof { assert(prefix@ =~= operation_prefix()); }
        if !starts_with_chars(chars.as_slice(), prefix.as_slice()) {
            return Err(ToolFabricError::InvalidOperationId);
        }
        let mut rest: Vec<char> = Vec::new();
        let mut i: usize = 3;
        while i < chars.len()
            invariant
                3 <= i <= chars@.len(),
                rest@ == chars@.subrange(3, i as int),
            decreases chars@.len() - i,
        {
            rest.push(chars[i]);
            proof { assert(rest@ =~= chars@.subrange(3, i + 1)); }
            i = i + 1;
        }
        proof { assert(rest@ =~= value@.skip(3)); }
        let text = string_from_chars(rest.as_slice());
        match LatticeId::parse(text.as_str()) {
            Some(id) => Ok(OperationId(id)),
            None => Err(ToolFabricError::InvalidOperationId),
        }
    }
}

impl Default for OperationId {
    fn default() -> (r: OperationId) {
        OperationId::new()
    }
}

proof fn lemma_lower_concat(a: Seq<char>, b: Seq<char>)
    ensures
        lower_seq(a + b) == lower_seq(a) + lower_seq(b),
{
    assert(lower_seq(a + b) =~= lower_seq(a) + lower_seq(b));
}

proof fn lemma_contains_inside(a: Seq<char>, m: Seq<char>, b: Seq<char>, w: Seq<char>)
    requires
        contains_sub(m, w),
    ensures
        contains_sub(a + m + b, w),
{
    let k = choose|k: int| 0 <= k && k + w.len() <= m.len() && #[trigger] m.subrange(k, k + w.len()) == w;
    let hay = a + m + b;
    assert(hay.subrange(a.len() + k, a.len() + k + w.len()) =~= m.subrange(k, k + w.len()));
}

/// Each of a tool's name, title and description is part of the text it is
/// searched by: a query whose every word occurs (ignoring ASCII case) in
/// one of them finds the tool.
pub proof fn law_name_title_and_description_are_searched(d: ToolDescriptor, terms: Seq<Seq<char>>)
    ensures
        (forall|u: int| 0 <= u < terms.len() ==> contains_sub(lower_seq(d.native_name@), #[trigger] terms[u])) ==> term_match(d, terms),
        (d.title matches Some(t) && forall|u: int| 0 <= u < terms.len() ==> contains_sub(lower_seq(t@), #[trigger] terms[u]))
            ==> term_match(d, terms),
        (d.provider_description matches Some(t) && forall|u: int| 0 <= u < terms.len() ==> contains_sub(lower_seq(t@), #[trigger] terms[u]))
            ==> term_match(d, terms),
{
    let name = d.native_name@;
    let title = opt_plain(d.title);
    let desc = opt_plain(d.provider_description);
    let caps = capability_words(d.capabilities@, d.capabilities@.len() as int);
    let h = haystack_text(d);
    let empty = Seq::<char>::empty();
    // name first
    assert(h =~= empty + name + (" "@ + title + " "@ + desc + " "@ + caps));
    lemma_lower_concat(empty + name, " "@ + title + " "@ + desc + " "@ + caps);
    lemma_lower_concat(empty, name);
    // title in the middle
    assert(h =~= (name + " "@) + title + (" "@ + desc + " "@ + caps));
    lemma_lower_concat((name + " "@) + title, " "@ + desc + " "@ + caps);
    lemma_lower_concat(name + " "@, title);
    // description in the middle
    assert(h =~= (name + " "@ + title + " "@) + desc + (" "@ + caps));
    lemma_lower_concat((name + " "@ + title + " "@) + desc, " "@ + caps);
    lemma_lower_concat(name + " "@ + title + " "@, desc);
    if forall|u: int| 0 <= u < terms.len() ==> contains_sub(lower_seq(name), #[trigger] terms[u]) {
        assert forall|u: int| 0 <= u < terms.len() implies contains_sub(lower_seq(h), #[trigger] terms[u]) by {
            lemma_contains_inside(lower_seq(empty), lower_seq(name), lower_seq(" "@ + title + " "@ + desc + " "@ + caps), terms[u]);
        }
    }
    if d.title matches Some(t) && forall|u: int| 0 <= u < terms.len() ==> contains_sub(lower_seq(t@), #[trigger] terms[u]) {
        assert forall|u: int| 0 <= u < terms.len() implies contains_sub(lower_seq(h), #[trigger] terms[u]) by {
            lemma_contains_inside(lower_seq(name + " "@), lower_seq(title), lower_seq(" "@ + desc + " "@ + caps), terms[u]);
        }
    }
    if d.provider_description matches Some(t) && forall|u: int| 0 <= u < terms.len() ==> contains_sub(lower_seq(t@), #[trigger] terms[u]) {
        assert forall|u: int| 0 <= u < terms.len() implies contains_sub(lower_seq(h), #[trigger] terms[u]) by {
            lemma_contains_inside(lower_seq(name + " "@ + title + " "@), lower_seq(desc), lower_seq(" "@ + caps), terms[u]);
        }
    }
}

/// The search keeps every available tool whose text matches: a matching
/// tool anywhere in the list is among the matches.
pub proof fn law_matching_tools_keep_every_match(s: Seq<ToolDescriptor>, terms: Seq<Seq<char>>, i: int)
    requires
        0 <= i < s.len(),
        term_match(s[i], terms),
    ensures
        matching_tools(s, terms).contains(s[i]),
    decreases s.len(),
{
    if i == s.len() - 1 {
        assert(matching_tools(s, terms).last() == s[i]);
    } else {
        law_matching_tools_keep_every_match(s.drop_last(), terms, i);
        let m = matching_tools(s.drop_last(), terms);
        let k = choose|k: int| 0 <= k < m.len() && m[k] == s[i];
        if term_match(s.last(), terms) {
            assert(matching_tools(s, terms)[k] == m[k]);
        }
    }
}

/// An available tool is among the available tools searched.
pub proof fn law_available_tools_are_searched(s: Seq<ToolDescriptor>, i: int)
    requires
        0 <= i < s.len(),
        s[i].availability == ToolAvailability::Available,
    ensures
        available_tools(s).contains(s[i]),
    decreases s.len(),
{
    if i == s.len() - 1 {
        assert(available_tools(s).last() == s[i]);
    } else {
        law_available_tools_are_searched(s.drop_last(), i);
        let m = available_tools(s.drop_last());
        let k = choose|k: int| 0 <= k < m.len() && m[k] == s[i];
        if s.last().availability == ToolAvailability::Available {
            assert(available_tools(s)[k] == m[k]);
        }
    }
}

} // verus!

//! JSON values as the tool fabric reads them: their canonical text, the
//! structural checks on tool schemas, and the validation of tool inputs.
use vstd::prelude::*;
use crate::text::{chars_equal, chars_of, push_str, string_from_chars};

verus! {

/// A JSON number as serde_json writes it, and whether it is an integer that
/// fits `i64` or `u64`.
#[derive(Clone, Debug, Eq, PartialEq)]
pub struct JsonNumber {
    pub text: String,
    pub integral: bool,
}

/// A JSON value. An object's members keep the order in which the map they
/// were read from iterates (serde_json's map orders keys).
#[derive(Debug)]
pub enum JsonValue {
    Null,
    Bool(bool),
    Number(JsonNumber),
    String(String),
    Array(Vec<JsonValue>),
    Object(Vec<(String, JsonValue)>),
}

/// Nesting deeper than this is refused in a schema.
pub const MAX_SCHEMA_DEPTH: usize = 64;

/// Some node of `v`, taken to sit at `depth`, lies deeper than the bound.
pub open spec fn too_deep(v: JsonValue, depth: nat) -> bool
    decreases v, 0int,
{
    depth > MAX_SCHEMA_DEPTH || match v {
        JsonValue::Array(items) => items_too_deep(items@, items@.len() as int, depth + 1),
        JsonValue::Object(members) => members_too_deep(members@, members@.len() as int, depth + 1),
        _ => false,
    }
}

/// One of the first `n` values, at `depth`, is too deep.
pub open spec fn items_too_deep(items: Seq<JsonValue>, n: int, depth: nat) -> bool
    decreases items, n,
{
    if n <= 0 || n > items.len() {
        false
    } else {
        items_too_deep(items, n - 1, depth) || too_deep(items[n - 1], depth)
    }
}

/// The value of one of the first `n` members, at `depth`, is too deep.
pub open spec fn members_too_deep(members: Seq<(String, JsonValue)>, n: int, depth: nat) -> bool
    decreases members, n,
{
    if n <= 0 || n > members.len() {
        false
    } else {
        members_too_deep(members, n - 1, depth) || member_too_deep(members[n - 1], depth)
    }
}

pub open spec fn member_too_deep(member: (String, JsonValue), depth: nat) -> bool
    decreases member, 1int,
{
    too_deep(member.1, depth)
}

/// The JSON string literal serde_json writes for a text: quotes and escapes
/// included (`serde_json::to_string` on a `str`).
pub uninterp spec fn json_quoted(s: Seq<char>) -> Seq<char>;

/// Calls `serde_json::to_string` on a string slice. The contract names the
/// literal it writes; writing a string does not fail, and the empty text
/// stands in for the error the signature allows.
#[verifier::external_body]
pub fn quote_json_string(s: &str) -> (r: String)
    ensures
        r@ == json_quoted(s@),
{
    serde_json::to_string(s).unwrap_or_default()
}

/// The compact text serde_json writes for a value.
pub open spec fn json_text(v: JsonValue) -> Seq<char>
    decreases v, 0int,
{
    match v {
        JsonValue::Null => seq!['n', 'u', 'l', 'l'],
        JsonValue::Bool(b) => if b { seq!['t', 'r', 'u', 'e'] } else { seq!['f', 'a', 'l', 's', 'e'] },
        JsonValue::Number(n) => n.text@,
        JsonValue::String(s) => json_quoted(s@),
        JsonValue::Array(items) => seq!['['] + items_text(items@, items@.len() as int) + seq![']'],
        JsonValue::Object(members) => seq!['{'] + members_text(members@, members@.len() as int) + seq!['}'],
    }
}

/// The texts of the first `n` values, separated by commas.
pub open spec fn items_text(items: Seq<JsonValue>, n: int) -> Seq<char>
    decreases items, n,
{
    if n <= 0 || n > items.len() {
        Seq::empty()
    } else if n == 1 {
        json_text(items[0])
    } else {
        items_text(items, n - 1) + seq![','] + json_text(items[n - 1])
    }
}

/// The text `"key":value` of one member.
pub open spec fn member_text(member: (String, JsonValue)) -> Seq<char>
    decreases member, 1int,
{
    json_quoted(member.0@) + seq![':'] + json_text(member.1)
}

/// The texts of the first `n` members, separated by commas.
pub open spec fn members_text(members: Seq<(String, JsonValue)>, n: int) -> Seq<char>
    decreases members, n,
{
    if n <= 0 || n > members.len() {
        Seq::empty()
    } else if n == 1 {
        member_text(members[0])
    } else {
        members_text(members, n - 1) + seq![','] + member_text(members[n - 1])
    }
}

/// Appends the compact text of `v`.
fn push_json(out: &mut Vec<char>, v: &JsonValue)
    ensures
        final(out)@ == old(out)@ + json_text(*v),
    decreases v,
{
    match v {
        JsonValue::Null => {
            out.push('n');
            out.push('u');
            out.push('l');
            out.push('l');
            proof { assert(out@ =~= old(out)@ + json_text(*v)); }
        },
        JsonValue::Bool(b) => {
            if *b {
                out.push('t');
                out.push('r');
                out.push('u');
                out.push('e');
            } else {
                out.push('f');
                out.push('a');
                out.push('l');
                out.push('s');
                out.push('e');
            }
            proof { assert(out@ =~= old(out)@ + json_text(*v)); }
        },
        JsonValue::Number(n) => {
            push_str(out, n.text.as_str());
        },
        JsonValue::String(text) => {
            let quoted = quote_json_string(text.as_str());
            push_str(out, quoted.as_str());
        },
        JsonValue::Array(items) => {
            out.push('[');
            let mut i: usize = 0;
            while i < items.len()
                invariant
                    i <= items@.len(),
                    *v == JsonValue::Array(*items),
                    out@ == old(out)@ + seq!['['] + items_text(items@, i as int),
                decreases items@.len() - i,
            {
                if i > 0 {
                    out.push(',');
                }
                proof {
                    assert(decreases_to!(*v => (*v)->Array_0));
                    assert(decreases_to!((*v)->Array_0 => (*v)->Array_0@));
                    assert(decreases_to!((*v)->Array_0@ => (*v)->Array_0@[i as int]));
                }
                push_json(out, &items[i]);
                proof {
                    if i == 0 {
                        assert(out@ =~= old(out)@ + seq!['['] + items_text(items@, 1));
                    } else {
                        assert(out@ =~= old(out)@ + seq!['['] + items_text(items@, i + 1));
                    }
                }
                i = i + 1;
            }
            out.push(']');
        },
        JsonValue::Object(members) => {
            out.push('{');
            let mut i: usize = 0;
            while i < members.len()
                invariant
                    i <= members@.len(),
                    *v == JsonValue::Object(*members),
                    out@ == old(out)@ + seq!['{'] + members_text(members@, i as int),
                decreases members@.len() - i,
            {
                if i > 0 {
                    out.push(',');
                }
                let quoted = quote_json_string(members[i].0.as_str());
                push_str(out, quoted.as_str());
                out.push(':');
                proof {
                    assert(decreases_to!(*v => (*v)->Object_0));
                    assert(decreases_to!((*v)->Object_0 => (*v)->Object_0@));
                    assert(decreases_to!((*v)->Object_0@ => (*v)->Object_0@[i as int]));
                    assert(decreases_to!((*v)->Object_0@[i as int] => (*v)->Object_0@[i as int].1));
                }
                push_json(out, &members[i].1);
                proof {
                    assert(member_text(members@[i as int])
                        == json_quoted(members@[i as int].0@) + seq![':'] + json_text(members@[i as int].1));
                    if i == 0 {
                        assert(out@ =~= old(out)@ + seq!['{'] + members_text(members@, 1));
                    } else {
                        assert(out@ =~= old(out)@ + seq!['{'] + members_text(members@, i + 1));
                    }
                }
                i = i + 1;
            }
            out.push('}');
        },
    }
}

/// Two texts are equal.
pub fn same_text(a: &str, b: &str) -> (r: bool)
    ensures
        r == (a@ == b@),
{
    chars_equal(chars_of(a).as_slice(), chars_of(b).as_slice())
}

/// The value of the first member named `key`.
pub open spec fn lookup(members: Seq<(String, JsonValue)>, key: Seq<char>) -> Option<JsonValue>
    decreases members.len(),
{
    if members.len() == 0 {
        None
    } else if members[0].0@ == key {
        Some(members[0].1)
    } else {
        lookup(members.drop_first(), key)
    }
}

/// The value of the first member named `key`.
pub fn json_lookup<'a>(members: &'a Vec<(String, JsonValue)>, key: &str) -> (r: Option<&'a JsonValue>)
    ensures
        match lookup(members@, key@) {
            Some(v) => r matches Some(x) && *x == v,
            None => r is None,
        },
{
    let mut i: usize = 0;
    proof { assert(members@.skip(0) =~= members@); }
    while i < members.len()
        invariant
            i <= members@.len(),
            lookup(members@, key@) == lookup(members@.skip(i as int), key@),
        decreases members@.len() - i,
    {
        proof { assert(members@.skip(i as int).drop_first() =~= members@.skip(i + 1)); }
        if same_text(members[i].0.as_str(), key) {
            return Some(&members[i].1);
        }
        i = i + 1;
    }
    None
}

proof fn lemma_items_too_deep_grows(s: Seq<JsonValue>, n: int, m: int, depth: nat)
    requires
        0 <= n <= m <= s.len(),
        items_too_deep(s, n, depth),
    ensures
        items_too_deep(s, m, depth),
    decreases m - n,
{
    if n < m {
        lemma_items_too_deep_grows(s, n, m - 1, depth);
    }
}

proof fn lemma_members_too_deep_grows(s: Seq<(String, JsonValue)>, n: int, m: int, depth: nat)
    requires
        0 <= n <= m <= s.len(),
        members_too_deep(s, n, depth),
    ensures
        members_too_deep(s, m, depth),
    decreases m - n,
{
    if n < m {
        lemma_members_too_deep_grows(s, n, m - 1, depth);
    }
}

/// Whether some node of `v`, placed at `depth`, lies deeper than the bound.
pub fn exceeds_depth(v: &JsonValue, depth: usize) -> (r: bool)
    requires
        depth <= MAX_SCHEMA_DEPTH + 1,
    ensures
        r == too_deep(*v, depth as nat),
    decreases v,
{
    if depth > MAX_SCHEMA_DEPTH {
        return true;
    }
    match v {
        JsonValue::Array(items) => {
            let mut i: usize = 0;
            while i < items.len()
                invariant
                    i <= items@.len(),
                    depth <= MAX_SCHEMA_DEPTH,
                    *v == JsonValue::Array(*items),
                    !items_too_deep(items@, i as int, depth as nat + 1),
                decreases items@.len() - i,
            {
                proof {
                    assert(decreases_to!(*v => (*v)->Array_0));
                    assert(decreases_to!((*v)->Array_0 => (*v)->Array_0@));
                    assert(decreases_to!((*v)->Array_0@ => (*v)->Array_0@[i as int]));
                }
                if exceeds_depth(&items[i], depth + 1) {
                    proof {
                        assert(items_too_deep(items@, i + 1, depth as nat + 1));
                        lemma_items_too_deep_grows(items@, i + 1, items@.len() as int, depth as nat + 1);
                    }
                    return true;
                }
                i = i + 1;
            }
            false
        },
        JsonValue::Object(members) => {
            let mut i: usize = 0;
            while i < members.len()
                invariant
                    i <= members@.len(),
                    depth <= MAX_SCHEMA_DEPTH,
                    *v == JsonValue::Object(*members),
                    !members_too_deep(members@, i as int, depth as nat + 1),
                decreases members@.len() - i,
            {
                proof {
                    assert(decreases_to!(*v => (*v)->Object_0));
                    assert(decreases_to!((*v)->Object_0 => (*v)->Object_0@));
                    assert(decreases_to!((*v)->Object_0@ => (*v)->Object_0@[i as int]));
                    assert(decreases_to!((*v)->Object_0@[i as int] => (*v)->Object_0@[i as int].1));
                }
                if exceeds_depth(&members[i].1, depth + 1) {
                    proof {
                        assert(member_too_deep(members@[i as int], depth as nat + 1));
                        assert(members_too_deep(members@, i + 1, depth as nat + 1));
                        lemma_members_too_deep_grows(members@, i + 1, members@.len() as int, depth as nat + 1);
                    }
                    return true;
                }
                proof { assert(!member_too_deep(members@[i as int], depth as nat + 1)); }
                i = i + 1;
            }
            false
        },
        _ => false,
    }
}

/// A value has the JSON Schema type named `expected`; an unknown name
/// matches nothing.
pub open spec fn type_matches(v: JsonValue, expected: Seq<char>) -> bool {
    if expected == "null"@ {
        v is Null
    } else if expected == "boolean"@ {
        v is Bool
    } else if expected == "object"@ {
        v is Object
    } else if expected == "array"@ {
        v is Array
    } else if expected == "number"@ {
        v is Number
    } else if expected == "integer"@ {
        v matches JsonValue::Number(n) && n.integral
    } else if expected == "string"@ {
        v is String
    } else {
        false
    }
}

pub fn json_type_matches(v: &JsonValue, expected: &str) -> (r: bool)
    ensures
        r == type_matches(*v, expected@),
{
    if same_text(expected, "null") {
        matches!(v, JsonValue::Null)
    } else if same_text(expected, "boolean") {
        matches!(v, JsonValue::Bool(_))
    } else if same_text(expected, "object") {
        matches!(v, JsonValue::Object(_))
    } else if same_text(expected, "array") {
        matches!(v, JsonValue::Array(_))
    } else if same_text(expected, "number") {
        matches!(v, JsonValue::Number(_))
    } else if same_text(expected, "integer") {
        match v {
            JsonValue::Number(n) => n.integral,
            _ => false,
        }
    } else if same_text(expected, "string") {
        matches!(v, JsonValue::String(_))
    } else {
        false
    }
}

/// The compact text serde_json writes for `v`.
pub fn json_to_text(v: &JsonValue) -> (r: String)
    ensures
        r@ == json_text(*v),
{
    let mut out: Vec<char> = Vec::new();
    push_json(&mut out, v);
    proof { assert(out@ =~= json_text(*v)); }
    string_from_chars(out.as_slice())
}

/// Every JSON number, integral or not, has the schema type `number`; an
/// `integer` is also a `number`.
pub proof fn law_numbers_are_numbers(n: JsonNumber, v: JsonValue)
    ensures
        type_matches(JsonValue::Number(n), "number"@),
        type_matches(v, "integer"@) ==> type_matches(v, "number"@),
        type_matches(v, "number"@) <==> v is Number,
        type_matches(v, "integer"@) <==> (v matches JsonValue::Number(m) && m.integral),
        type_matches(v, "string"@) <==> v is String,
        type_matches(v, "object"@) <==> v is Object,
        type_matches(v, "array"@) <==> v is Array,
        type_matches(v, "boolean"@) <==> v is Bool,
        type_matches(v, "null"@) <==> v is Null,
{
    reveal_strlit("string");
    assert("string"@.len() == 6 && "string"@[0] == 's');
    reveal_strlit("null");
    reveal_strlit("boolean");
    reveal_strlit("object");
    reveal_strlit("array");
    reveal_strlit("number");
    reveal_strlit("integer");
    assert("number"@.len() == 6 && "null"@.len() == 4 && "boolean"@.len() == 7 && "object"@.len() == 6 && "array"@.len() == 5);
    assert("number"@[0] == 'n' && "object"@[0] == 'o');
    assert("integer"@.len() == 7 && "integer"@[0] == 'i' && "boolean"@[0] == 'b');
}

} // verus!

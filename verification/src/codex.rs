//! The decisions of the Codex integration: whether the `lattice` MCP server
//! Codex reports is ours, what `codex mcp add` is handed, whether a listing
//! names the server, and what a failed removal means.
use vstd::prelude::*;
use crate::json::{json_lookup, lookup, JsonValue};
use crate::text::{chars_of, contains_chars, contains_sub, push_str, string_from_chars};

verus! {

/// How an existing `lattice` server in Codex compares with this build.
#[derive(Clone, Copy, Debug, Eq, PartialEq, Structural)]
pub enum CodexInstallStatus {
    /// Command, arguments and environment all match.
    AlreadyInstalled,
    /// Command and arguments match but the runtime directory differs; the
    /// entry is replaced.
    Updated,
    /// Another server owns the name.
    Conflict,
}

/// What a `codex mcp remove lattice` run means.
#[derive(Clone, Copy, Debug, Eq, PartialEq, Structural)]
pub enum CodexRemoveOutcome {
    Removed,
    AlreadyRemoved,
    Failed,
}

/// The member `key` of an object; nothing for other values.
pub open spec fn member_of(v: JsonValue, key: Seq<char>) -> Option<JsonValue> {
    match v {
        JsonValue::Object(m) => lookup(m@, key),
        _ => None,
    }
}

/// A present string value equal to `t`.
pub open spec fn is_text(v: Option<JsonValue>, t: Seq<char>) -> bool {
    match v {
        Some(JsonValue::String(s)) => s@ == t,
        _ => false,
    }
}

/// The arguments `["mcp", "stdio"]`.
pub open spec fn stdio_args(v: Option<JsonValue>) -> bool {
    match v {
        Some(JsonValue::Array(items)) => items@.len() == 2 && is_text(Some(items@[0]), "mcp"@)
            && is_text(Some(items@[1]), "stdio"@),
        _ => false,
    }
}

/// The environment this build installs: empty, or only
/// `LATTICE_RUNTIME_DIR` set to the runtime directory. A missing
/// environment counts as empty.
pub open spec fn env_matches(env: Option<JsonValue>, runtime_dir: Option<Seq<char>>) -> bool {
    match env {
        None => runtime_dir is None,
        Some(JsonValue::Object(m)) => match runtime_dir {
            None => m@.len() == 0,
            Some(d) => m@.len() == 1 && m@[0].0@ == "LATTICE_RUNTIME_DIR"@ && is_text(Some(m@[0].1), d),
        },
        Some(_) => false,
    }
}

/// How the server Codex reports (`codex mcp get lattice --json`) compares
/// with `lattice mcp stdio` run by `command` with the runtime directory.
pub open spec fn codex_install_status_spec(configured: JsonValue, command: Seq<char>, runtime_dir: Option<Seq<char>>) -> CodexInstallStatus {
    match member_of(configured, "transport"@) {
        None => CodexInstallStatus::Conflict,
        Some(t) => {
            let command_matches = is_text(member_of(t, "command"@), command) && stdio_args(member_of(t, "args"@));
            if command_matches && env_matches(member_of(t, "env"@), runtime_dir) {
                CodexInstallStatus::AlreadyInstalled
            } else if command_matches && runtime_dir is Some {
                CodexInstallStatus::Updated
            } else {
                CodexInstallStatus::Conflict
            }
        },
    }
}

fn member<'a>(v: &'a JsonValue, key: &str) -> (r: Option<&'a JsonValue>)
    ensures
        match member_of(*v, key@) {
            Some(x) => r matches Some(y) && *y == x,
            None => r is None,
        },
{
    match v {
        JsonValue::Object(m) => json_lookup(m, key),
        _ => None,
    }
}

fn text_is(v: Option<&JsonValue>, t: &str) -> (r: bool)
    ensures
        r == is_text(match v { Some(x) => Some(*x), None => None }, t@),
{
    match v {
        Some(JsonValue::String(s)) => crate::json::same_text(s.as_str(), t),
        _ => false,
    }
}

fn args_are_stdio(v: Option<&JsonValue>) -> (r: bool)
    ensures
        r == stdio_args(match v { Some(x) => Some(*x), None => None }),
{
    match v {
        Some(JsonValue::Array(items)) => items.len() == 2 && text_is(Some(&items[0]), "mcp") && text_is(Some(&items[1]), "stdio"),
        _ => false,
    }
}

fn env_is(env: Option<&JsonValue>, runtime_dir: Option<&str>) -> (r: bool)
    ensures
        r == env_matches(match env { Some(x) => Some(*x), None => None }, match runtime_dir { Some(d) => Some(d@), None => None }),
{
    match env {
        None => runtime_dir.is_none(),
        Some(JsonValue::Object(m)) => match runtime_dir {
            None => m.len() == 0,
            Some(d) => m.len() == 1 && crate::json::same_text(m[0].0.as_str(), "LATTICE_RUNTIME_DIR") && text_is(Some(&m[0].1), d),
        },
        Some(_) => false,
    }
}

/// Compares the server Codex reports with this build's `lattice mcp stdio`.
pub fn codex_install_status(configured: &JsonValue, command: &str, runtime_dir: Option<&str>) -> (r: CodexInstallStatus)
    ensures
        r == codex_install_status_spec(*configured, command@, match runtime_dir { Some(d) => Some(d@), None => None }),
{
    let transport = match member(configured, "transport") {
        Some(t) => t,
        None => { return CodexInstallStatus::Conflict; },
    };
    let command_matches = text_is(member(transport, "command"), command) && args_are_stdio(member(transport, "args"));
    if command_matches && env_is(member(transport, "env"), runtime_dir) {
        CodexInstallStatus::AlreadyInstalled
    } else if command_matches && runtime_dir.is_some() {
        CodexInstallStatus::Updated
    } else {
        CodexInstallStatus::Conflict
    }
}

/// The arguments of `codex mcp add` for this build: the server name, the
/// runtime directory when there is one, then the command after `--`.
pub open spec fn codex_add_arguments_spec(command: Seq<char>, runtime_dir: Option<Seq<char>>) -> Seq<Seq<char>> {
    seq!["mcp"@, "add"@, "lattice"@]
        + match runtime_dir {
            Some(d) => seq!["--env"@, "LATTICE_RUNTIME_DIR="@ + d],
            None => Seq::empty(),
        }
        + seq!["--"@, command, "mcp"@, "stdio"@]
}

fn owned(s: &str) -> (r: String)
    ensures
        r@ == s@,
{
    string_from_chars(chars_of(s).as_slice())
}

/// Builds the arguments of `codex mcp add`.
pub fn codex_add_arguments(command: &str, runtime_dir: Option<&str>) -> (r: Vec<String>)
    ensures
        r@.map_values(|s: String| s@) == codex_add_arguments_spec(command@, match runtime_dir { Some(d) => Some(d@), None => None }),
{
    let mut out: Vec<String> = Vec::new();
    out.push(owned("mcp"));
    out.push(owned("add"));
    out.push(owned("lattice"));
    match runtime_dir {
        Some(d) => {
            out.push(owned("--env"));
            let mut setting: Vec<char> = Vec::new();
            push_str(&mut setting, "LATTICE_RUNTIME_DIR=");
            push_str(&mut setting, d);
            out.push(string_from_chars(setting.as_slice()));
        },
        None => {},
    }
    out.push(owned("--"));
    out.push(owned(command));
    out.push(owned("mcp"));
    out.push(owned("stdio"));
    proof {
        assert(out@.map_values(|s: String| s@) =~= codex_add_arguments_spec(command@, match runtime_dir { Some(d) => Some(d@), None => None }));
    }
    out
}

/// Whether a `codex mcp list --json` listing names a server `lattice`.
pub open spec fn lists_lattice(listing: JsonValue) -> bool {
    match listing {
        JsonValue::Array(servers) => exists|i: int| 0 <= i < servers@.len() && is_text(member_of(#[trigger] servers@[i], "name"@), "lattice"@),
        _ => false,
    }
}

/// Whether the listing names the `lattice` server.
pub fn lattice_configured(listing: &JsonValue) -> (r: bool)
    ensures
        r == lists_lattice(*listing),
{
    match listing {
        JsonValue::Array(servers) => {
            let mut i: usize = 0;
            while i < servers.len()
                invariant
                    i <= servers@.len(),
                    *listing == JsonValue::Array(*servers),
                    forall|k: int| 0 <= k < i ==> !is_text(member_of(#[trigger] servers@[k], "name"@), "lattice"@),
                decreases servers@.len() - i,
            {
                if text_is(member(&servers[i], "name"), "lattice") {
                    return true;
                }
                i = i + 1;
            }
            false
        },
        _ => false,
    }
}

/// A failed removal whose error says the server is missing means it was
/// already removed.
pub open spec fn removal_spec(success: bool, stderr: Seq<char>) -> CodexRemoveOutcome {
    if success {
        CodexRemoveOutcome::Removed
    } else if contains_sub(stderr, "not found"@) || contains_sub(stderr, "does not exist"@) {
        CodexRemoveOutcome::AlreadyRemoved
    } else {
        CodexRemoveOutcome::Failed
    }
}

/// Reads the outcome of `codex mcp remove lattice`.
pub fn removal_outcome(success: bool, stderr: &str) -> (r: CodexRemoveOutcome)
    ensures
        r == removal_spec(success, stderr@),
{
    if success {
        return CodexRemoveOutcome::Removed;
    }
    let text = chars_of(stderr);
    if contains_chars(text.as_slice(), chars_of("not found").as_slice())
        || contains_chars(text.as_slice(), chars_of("does not exist").as_slice()) {
        CodexRemoveOutcome::AlreadyRemoved
    } else {
        CodexRemoveOutcome::Failed
    }
}

/// A listing names the server whenever any entry, at any position, is an
/// object whose `name` is the string `lattice`; and only then.
pub proof fn law_lattice_listed_at_any_position(servers: Vec<JsonValue>, i: int)
    ensures
        (0 <= i < servers@.len() && (servers@[i] matches JsonValue::Object(m)
            && (lookup(m@, "name"@) matches Some(JsonValue::String(s)) && s@ == "lattice"@)))
            ==> lists_lattice(JsonValue::Array(servers)),
        lists_lattice(JsonValue::Array(servers)) ==> exists|k: int| 0 <= k < servers@.len()
            && (#[trigger] servers@[k] matches JsonValue::Object(m) && (lookup(m@, "name"@) matches Some(JsonValue::String(s)) && s@ == "lattice"@)),
{
    if 0 <= i < servers@.len() && (servers@[i] matches JsonValue::Object(m)
        && (lookup(m@, "name"@) matches Some(JsonValue::String(s)) && s@ == "lattice"@)) {
        assert(is_text(member_of(servers@[i], "name"@), "lattice"@));
    }
    if lists_lattice(JsonValue::Array(servers)) {
        let k = choose|k: int| 0 <= k < servers@.len() && is_text(member_of(#[trigger] servers@[k], "name"@), "lattice"@);
        assert(0 <= k < servers@.len());
    }
}

/// The verdict on a listing does not depend on the order of its entries:
/// swapping two entries keeps it.
pub proof fn law_listing_order_irrelevant(servers: Seq<JsonValue>, a: Vec<JsonValue>, b: Vec<JsonValue>, i: int, j: int)
    requires
        0 <= i < servers.len(),
        0 <= j < servers.len(),
        a@ == servers,
        b@ == servers.update(i, servers[j]).update(j, servers[i]),
    ensures
        lists_lattice(JsonValue::Array(a)) == lists_lattice(JsonValue::Array(b)),
{
    if lists_lattice(JsonValue::Array(a)) {
        let k = choose|k: int| 0 <= k < a@.len() && is_text(member_of(#[trigger] a@[k], "name"@), "lattice"@);
        let k2 = if k == i { j } else if k == j { i } else { k };
        assert(b@[k2] == a@[k]);
    }
    if lists_lattice(JsonValue::Array(b)) {
        let k = choose|k: int| 0 <= k < b@.len() && is_text(member_of(#[trigger] b@[k], "name"@), "lattice"@);
        let k2 = if k == i { j } else if k == j { i } else { k };
        assert(a@[k2] == b@[k]);
    }
}

} // verus!

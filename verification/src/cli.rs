//! The command-line interface's documented command contract, shared by the
//! CLI and its documentation.
use vstd::prelude::*;
use crate::text::{push_str, string_from_chars};

verus! {

#[derive(Clone, Debug, Eq, PartialEq)]
pub struct CommandDocumentation {
    pub path: String,
    pub description: String,
    pub usage: String,
    pub arguments: Vec<ArgumentDocumentation>,
    pub examples: Vec<String>,
}

#[derive(Clone, Debug, Eq, PartialEq)]
pub struct ArgumentDocumentation {
    pub name: String,
    pub kind: String,
    pub required: bool,
    pub description: String,
    pub default: Option<String>,
}

/// An argument as text: name, kind, whether required, default, description.
pub open spec fn argument_model(a: ArgumentDocumentation) -> (Seq<char>, Seq<char>, bool, Option<Seq<char>>, Seq<char>) {
    (a.name@, a.kind@, a.required, match a.default { Some(d) => Some(d@), None => None }, a.description@)
}

/// A command as text: path, description, usage, arguments, examples.
pub open spec fn command_model(c: CommandDocumentation) -> (Seq<char>, Seq<char>, Seq<char>, Seq<(Seq<char>, Seq<char>, bool, Option<Seq<char>>, Seq<char>)>, Seq<Seq<char>>) {
    (
        c.path@,
        c.description@,
        c.usage@,
        c.arguments@.map_values(|a: ArgumentDocumentation| argument_model(a)),
        c.examples@.map_values(|e: String| e@),
    )
}

/// The documented commands, in order.
pub open spec fn documented_commands() -> Seq<(Seq<char>, Seq<char>, Seq<char>, Seq<(Seq<char>, Seq<char>, bool, Option<Seq<char>>, Seq<char>)>, Seq<Seq<char>>)> {
    seq![
        (
            "lattice workspace open"@,
            "Open and index a canonical workspace."@,
            "lattice workspace open <WORKSPACE>"@,
            seq![("workspace"@, "path"@, true, None, "Workspace directory"@)],
            seq!["lattice workspace open ./game"@],
        ),
        (
            "lattice workspace status"@,
            "Inspect canonical workspace identity and index status."@,
            "lattice workspace status <WORKSPACE>"@,
            seq![("workspace"@, "path"@, true, None, "Workspace directory"@)],
            seq![],
        ),
        (
            "lattice index"@,
            "Incrementally ingest and index a workspace."@,
            "lattice index <WORKSPACE>"@,
            seq![("workspace"@, "path"@, true, None, "Workspace directory"@)],
            seq!["lattice index ./game"@],
        ),
        (
            "lattice search"@,
            "Search indexed project names, symbols, paths, and source."@,
            "lattice search <WORKSPACE> <QUERY> [--limit <N>]"@,
            seq![("workspace"@, "path"@, true, None, "Workspace directory"@), ("query"@, "string"@, true, None, "Search terms"@), ("limit"@, "option"@, false, Some("10"@), "Maximum results"@)],
            seq!["lattice search ./game inventory --limit 20"@],
        ),
        (
            "lattice studio list"@,
            "List discoverable Studio sessions and platform resolution state."@,
            "lattice studio list"@,
            seq![],
            seq![],
        ),
        (
            "lattice studio environment"@,
            "Inspect native Studio environments and path capabilities."@,
            "lattice studio environment [--verbose]"@,
            seq![("--"@ + "verbose"@, "flag"@, false, Some("false"@), "Include detailed resolver diagnostics"@)],
            seq![],
        ),
        (
            "lattice studio mcp"@,
            "Inspect or run the read-only live Studio MCP proof."@,
            "lattice studio mcp [--connect]"@,
            seq![("--"@ + "connect"@, "flag"@, false, Some("false"@), "Launch the resolved MCP child and execute read-only checks"@)],
            seq![],
        ),
        (
            "lattice studio pull"@,
            "Pull Luau source from the connected Studio into a native place.json workspace."@,
            "lattice studio pull --output <DIR> [--force] [--dry-run]"@,
            seq![("output"@, "path"@, true, None, "Destination workspace"@), ("--"@ + "force"@, "flag"@, false, Some("false"@), "Replace differing existing files"@), ("--"@ + "dry-run"@, "flag"@, false, Some("false"@), "Compare without writing"@)],
            seq!["lattice studio pull --output ./game --dry-run"@],
        ),
        (
            "lattice provider list"@,
            "List registered providers without connecting them."@,
            "lattice provider list"@,
            seq![],
            seq![],
        ),
        (
            "lattice provider inspect"@,
            "Inspect one provider descriptor and health model."@,
            "lattice provider inspect <PROVIDER>"@,
            seq![("provider"@, "string"@, true, None, "Stable provider ID"@)],
            seq![],
        ),
        (
            "lattice tool search"@,
            "Search the unified provider tool catalog."@,
            "lattice tool search <QUERY> [--limit <N>]"@,
            seq![("query"@, "string"@, true, None, "Tool search terms"@), ("limit"@, "option"@, false, Some("10"@), "Maximum matches"@)],
            seq!["lattice tool search execute luau"@],
        ),
        (
            "lattice tool inspect"@,
            "Inspect one exact tool reference and its schemas."@,
            "lattice tool inspect <TOOL>"@,
            seq![("tool"@, "string"@, true, None, "Canonical lattice:// provider tool reference"@)],
            seq![],
        ),
        (
            "lattice capability list"@,
            "List registered semantic capabilities."@,
            "lattice capability list"@,
            seq![],
            seq![],
        ),
        (
            "lattice mcp stdio"@,
            "Forward Codex and other MCP clients to the authoritative daemon."@,
            "lattice mcp stdio"@,
            seq![],
            seq!["codex mcp add lattice -- lattice mcp stdio"@],
        ),
        (
            "lattice mcp status"@,
            "Inspect local daemon and northbound MCP availability."@,
            "lattice mcp status"@,
            seq![],
            seq![],
        ),
        (
            "lattice integration codex install"@,
            "Configure Codex CLI's global Lattice MCP server entry."@,
            "lattice integration codex install"@,
            seq![],
            seq![],
        ),
        (
            "lattice integration codex status"@,
            "Verify Codex installation and daemon reachability."@,
            "lattice integration codex status"@,
            seq![],
            seq![],
        ),
        (
            "lattice integration codex remove"@,
            "Remove only the Lattice MCP entry from Codex."@,
            "lattice integration codex remove"@,
            seq![],
            seq![],
        ),
    ]
}

fn command(path: &str, description: &str, usage: &str, arguments: Vec<ArgumentDocumentation>, examples: Vec<String>) -> (r: CommandDocumentation)
    ensures
        r.path@ == path@,
        r.description@ == description@,
        r.usage@ == usage@,
        r.arguments == arguments,
        r.examples == examples,
{
    CommandDocumentation {
        path: path.to_owned(),
        description: description.to_owned(),
        usage: usage.to_owned(),
        arguments,
        examples,
    }
}

fn argument(name: &str, kind: &str, required: bool, description: &str, default: Option<&str>) -> (r: ArgumentDocumentation)
    ensures
        argument_model(r) == (name@, kind@, required, match default { Some(d) => Some(d@), None => None::<Seq<char>> }, description@),
{
    ArgumentDocumentation {
        name: name.to_owned(),
        kind: kind.to_owned(),
        required,
        description: description.to_owned(),
        default: match default {
            Some(d) => Some(d.to_owned()),
            None => None,
        },
    }
}

fn path(name: &str, description: &str, required: bool) -> (r: ArgumentDocumentation)
    ensures
        argument_model(r) == (name@, "path"@, required, None::<Seq<char>>, description@),
{
    argument(name, "path", required, description, None)
}

fn string(name: &str, description: &str, required: bool) -> (r: ArgumentDocumentation)
    ensures
        argument_model(r) == (name@, "string"@, required, None::<Seq<char>>, description@),
{
    argument(name, "string", required, description, None)
}

fn option(name: &str, description: &str, required: bool, default: Option<&str>) -> (r: ArgumentDocumentation)
    ensures
        argument_model(r) == (name@, "option"@, required, match default { Some(d) => Some(d@), None => None::<Seq<char>> }, description@),
{
    argument(name, "option", required, description, default)
}

fn flag(name: &str, description: &str) -> (r: ArgumentDocumentation)
    ensures
        argument_model(r) == ("--"@ + name@, "flag"@, false, Some("false"@), description@),
{
    let mut text: Vec<char> = Vec::new();
    push_str(&mut text, "--");
    push_str(&mut text, name);
    let flag_name = string_from_chars(text.as_slice());
    ArgumentDocumentation {
        name: flag_name,
        kind: "flag".to_owned(),
        required: false,
        description: description.to_owned(),
        default: Some("false".to_owned()),
    }
}

/// The CLI's stable, user-facing command contract.
pub fn command_documentation() -> (r: Vec<CommandDocumentation>)
    ensures
        r@.map_values(|c: CommandDocumentation| command_model(c)) == documented_commands(),
{
    let mut out: Vec<CommandDocumentation> = Vec::new();
    out.push(command(
        "lattice workspace open",
        "Open and index a canonical workspace.",
        "lattice workspace open <WORKSPACE>",
        vec![path("workspace", "Workspace directory", true)],
        vec!["lattice workspace open ./game".to_owned()],
    ));
    proof { assert(command_model(out@[0]) == documented_commands()[0]); }
    out.push(command(
        "lattice workspace status",
        "Inspect canonical workspace identity and index status.",
        "lattice workspace status <WORKSPACE>",
        vec![path("workspace", "Workspace directory", true)],
        vec![],
    ));
    proof { assert(command_model(out@[1]) == documented_commands()[1]); }
    out.push(command(
        "lattice index",
        "Incrementally ingest and index a workspace.",
        "lattice index <WORKSPACE>",
        vec![path("workspace", "Workspace directory", true)],
        vec!["lattice index ./game".to_owned()],
    ));
    proof { assert(command_model(out@[2]) == documented_commands()[2]); }
    out.push(command(
        "lattice search",
        "Search indexed project names, symbols, paths, and source.",
        "lattice search <WORKSPACE> <QUERY> [--limit <N>]",
        vec![path("workspace", "Workspace directory", true), string("query", "Search terms", true), option("limit", "Maximum results", false, Some("10"))],
        vec!["lattice search ./game inventory --limit 20".to_owned()],
    ));
    proof { assert(command_model(out@[3]) == documented_commands()[3]); }
    out.push(command(
        "lattice studio list",
        "List discoverable Studio sessions and platform resolution state.",
        "lattice studio list",
        vec![],
        vec![],
    ));
    proof { assert(command_model(out@[4]) == documented_commands()[4]); }
    out.push(command(
        "lattice studio environment",
        "Inspect native Studio environments and path capabilities.",
        "lattice studio environment [--verbose]",
        vec![flag("verbose", "Include detailed resolver diagnostics")],
        vec![],
    ));
    proof { assert(command_model(out@[5]) == documented_commands()[5]); }
    out.push(command(
        "lattice studio mcp",
        "Inspect or run the read-only live Studio MCP proof.",
        "lattice studio mcp [--connect]",
        vec![flag("connect", "Launch the resolved MCP child and execute read-only checks")],
        vec![],
    ));
    proof { assert(command_model(out@[6]) == documented_commands()[6]); }
    out.push(command(
        "lattice studio pull",
        "Pull Luau source from the connected Studio into a native place.json workspace.",
        "lattice studio pull --output <DIR> [--force] [--dry-run]",
        vec![path("output", "Destination workspace", true), flag("force", "Replace differing existing files"), flag("dry-run", "Compare without writing")],
        vec!["lattice studio pull --output ./game --dry-run".to_owned()],
    ));
    proof { assert(command_model(out@[7]) == documented_commands()[7]); }
    out.push(command(
        "lattice provider list",
        "List registered providers without connecting them.",
        "lattice provider list",
        vec![],
        vec![],
    ));
    proof { assert(command_model(out@[8]) == documented_commands()[8]); }
    out.push(command(
        "lattice provider inspect",
        "Inspect one provider descriptor and health model.",
        "lattice provider inspect <PROVIDER>",
        vec![string("provider", "Stable provider ID", true)],
        vec![],
    ));
    proof { assert(command_model(out@[9]) == documented_commands()[9]); }
    out.push(command(
        "lattice tool search",
        "Search the unified provider tool catalog.",
        "lattice tool search <QUERY> [--limit <N>]",
        vec![string("query", "Tool search terms", true), option("limit", "Maximum matches", false, Some("10"))],
        vec!["lattice tool search execute luau".to_owned()],
    ));
    proof { assert(command_model(out@[10]) == documented_commands()[10]); }
    out.push(command(
        "lattice tool inspect",
        "Inspect one exact tool reference and its schemas.",
        "lattice tool inspect <TOOL>",
        vec![string("tool", "Canonical lattice:// provider tool reference", true)],
        vec![],
    ));
    proof { assert(command_model(out@[11]) == documented_commands()[11]); }
    out.push(command(
        "lattice capability list",
        "List registered semantic capabilities.",
        "lattice capability list",
        vec![],
        vec![],
    ));
    proof { assert(command_model(out@[12]) == documented_commands()[12]); }
    out.push(command(
        "lattice mcp stdio",
        "Forward Codex and other MCP clients to the authoritative daemon.",
        "lattice mcp stdio",
        vec![],
        vec!["codex mcp add lattice -- lattice mcp stdio".to_owned()],
    ));
    proof { assert(command_model(out@[13]) == documented_commands()[13]); }
    out.push(command(
        "lattice mcp status",
        "Inspect local daemon and northbound MCP availability.",
        "lattice mcp status",
        vec![],
        vec![],
    ));
    proof { assert(command_model(out@[14]) == documented_commands()[14]); }
    out.push(command(
        "lattice integration codex install",
        "Configure Codex CLI's global Lattice MCP server entry.",
        "lattice integration codex install",
        vec![],
        vec![],
    ));
    proof { assert(command_model(out@[15]) == documented_commands()[15]); }
    out.push(command(
        "lattice integration codex status",
        "Verify Codex installation and daemon reachability.",
        "lattice integration codex status",
        vec![],
        vec![],
    ));
    proof { assert(command_model(out@[16]) == documented_commands()[16]); }
    out.push(command(
        "lattice integration codex remove",
        "Remove only the Lattice MCP entry from Codex.",
        "lattice integration codex remove",
        vec![],
        vec![],
    ));
    proof { assert(command_model(out@[17]) == documented_commands()[17]); }
    proof { assert(out@.map_values(|c: CommandDocumentation| command_model(c)) =~= documented_commands()); }
    out
}

} // verus!

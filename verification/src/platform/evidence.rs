//! How the resolver weighs process and file system evidence: pure
//! decisions, each over values that the caller already gathered.
use vstd::prelude::*;
use crate::text::{chars_of, chars_eq_ignore_ascii_case, contains_chars, contains_sub, ends_with_chars, eq_ignore_ascii_case, is_suffix, lower_seq, lowercase, string_from_chars};
use super::host_path::{HostPath, HostPathView, host_starts_with, parse_host_path};
use super::model::{PathAvailability, PathResolution, ResolutionDiagnostic, ResolvedPath};
use super::process::ProcessSnapshot;
use super::wine_path::{WinePath, wine_path_text};

verus! {

/// `s` with every `\` turned into `/`.
pub open spec fn forward_slashes(s: Seq<char>) -> Seq<char> {
    Seq::new(s.len(), |i: int| if s[i] == '\\' { '/' } else { s[i] })
}

fn exec_forward_slashes(s: &[char]) -> (r: Vec<char>)
    ensures
        r@ == forward_slashes(s@),
{
    let mut r: Vec<char> = Vec::new();
    let mut i: usize = 0;
    while i < s.len()
        invariant
            i <= s@.len(),
            r@ =~= forward_slashes(s@).subrange(0, i as int),
        decreases s@.len() - i,
    {
        let c = s[i];
        r.push(if c == '\\' { '/' } else { c });
        i = i + 1;
    }
    proof { assert(forward_slashes(s@).subrange(0, s@.len() as int) =~= forward_slashes(s@)); }
    r
}

/// A Studio executable path, as the first command argument names it.
pub open spec fn studio_executable_argument(arg: Seq<char>) -> bool {
    let e = lower_seq(forward_slashes(arg));
    is_suffix("/robloxstudiobeta.exe"@, e) || is_suffix("/robloxstudio"@, e) || is_suffix("/robloxstudio.app"@, e)
}

/// A process is a Roblox Studio process by its name or its first argument.
pub open spec fn studio_process_spec(p: ProcessSnapshot) -> bool {
    let name = lower_seq(p.name@);
    contains_sub(name, "robloxstudiobeta"@) || name == "robloxstudio"@
        || (p.command@.len() > 0 && studio_executable_argument(p.command@[0]@))
}

/// Whether the process is Roblox Studio: its lower-cased name holds
/// `robloxstudiobeta` or is `robloxstudio`, or its first argument (with `\`
/// read as `/`, lower-cased) ends in a Studio executable name.
pub fn is_studio_process(process: &ProcessSnapshot) -> (r: bool)
    ensures
        r == studio_process_spec(*process),
{
    let name = lowercase(chars_of(process.name.as_str()).as_slice());
    let beta = chars_of("robloxstudiobeta");
    let plain = chars_of("robloxstudio");
    if contains_chars(name.as_slice(), beta.as_slice()) || crate::text::chars_equal(name.as_slice(), plain.as_slice()) {
        return true;
    }
    if process.command.len() == 0 {
        return false;
    }
    let arg = chars_of(process.command[0].as_str());
    let e = lowercase(exec_forward_slashes(arg.as_slice()).as_slice());
    let s1 = chars_of("/robloxstudiobeta.exe");
    let s2 = chars_of("/robloxstudio");
    let s3 = chars_of("/robloxstudio.app");
    ends_with_chars(e.as_slice(), s1.as_slice()) || ends_with_chars(e.as_slice(), s2.as_slice())
        || ends_with_chars(e.as_slice(), s3.as_slice())
}

/// The process runs from, or names in an argument, a path under `path`.
pub open spec fn mentions_path_spec(p: ProcessSnapshot, path: HostPathView) -> bool {
    (p.executable matches Some(e) && host_starts_with(e@, path))
        || exists|i: int| 0 <= i < p.command@.len() && host_starts_with(parse_host_path(#[trigger] p.command@[i]@), path)
}

/// Whether the process's executable or one of its arguments (read as a host
/// path) lies under `path`.
pub fn process_mentions_path(process: &ProcessSnapshot, path: &HostPath) -> (r: bool)
    ensures
        r == mentions_path_spec(*process, path@),
{
    match &process.executable {
        Some(e) => {
            if e.starts_with(path) {
                return true;
            }
        },
        None => {},
    }
    let mut i: usize = 0;
    while i < process.command.len()
        invariant
            i <= process.command@.len(),
            forall|k: int| 0 <= k < i ==> !host_starts_with(parse_host_path(#[trigger] process.command@[k]@), path@),
        decreases process.command@.len() - i,
    {
        let candidate = HostPath::new(process.command[i].as_str());
        if candidate.starts_with(path) {
            return true;
        }
        i = i + 1;
    }
    false
}

/// One argument names the host text or, ignoring ASCII case, the guest text.
pub open spec fn argument_mentions(arg: Seq<char>, host: Seq<char>, guest: Option<Seq<char>>) -> bool {
    contains_sub(arg, host)
        || (guest matches Some(g) && (eq_ignore_ascii_case(arg, g) || contains_sub(lower_seq(arg), lower_seq(g))))
}

pub open spec fn mentions_resolved_spec(command: Seq<String>, host: Seq<char>, guest: Option<Seq<char>>) -> bool {
    exists|i: int| 0 <= i < command.len() && argument_mentions(#[trigger] command[i]@, host, guest)
}

/// Whether an argument of the process holds the host path's text, or the
/// guest path's text in any ASCII case.
pub fn process_mentions_resolved_path(process: &ProcessSnapshot, host: &HostPath, guest: Option<&WinePath>) -> (r: bool)
    ensures
        r == mentions_resolved_spec(process.command@, super::host_path::host_path_text(host@),
            match guest { Some(g) => Some(wine_path_text(g@)), None => None }),
{
    let host_text = host.text_chars();
    let guest_text: Option<Vec<char>> = match guest {
        Some(g) => Some(chars_of(g.to_text().as_str())),
        None => None,
    };
    let guest_lower: Option<Vec<char>> = match &guest_text {
        Some(g) => Some(lowercase(g.as_slice())),
        None => None,
    };
    let ghost gspec = match guest { Some(g) => Some(wine_path_text(g@)), None => None::<Seq<char>> };
    let mut i: usize = 0;
    while i < process.command.len()
        invariant
            i <= process.command@.len(),
            host_text@ == super::host_path::host_path_text(host@),
            gspec == match guest { Some(g) => Some(wine_path_text(g@)), None => None::<Seq<char>> },
            match guest_text { Some(g) => gspec == Some(g@), None => gspec is None },
            match guest_lower { Some(g) => gspec matches Some(x) && g@ == lower_seq(x), None => gspec is None },
            forall|k: int| 0 <= k < i ==> !argument_mentions(#[trigger] process.command@[k]@, host_text@, gspec),
        decreases process.command@.len() - i,
    {
        let arg = chars_of(process.command[i].as_str());
        if contains_chars(arg.as_slice(), host_text.as_slice()) {
            return true;
        }
        match (&guest_text, &guest_lower) {
            (Some(g), Some(gl)) => {
                if chars_eq_ignore_ascii_case(arg.as_slice(), g.as_slice()) {
                    return true;
                }
                let al = lowercase(arg.as_slice());
                if contains_chars(al.as_slice(), gl.as_slice()) {
                    return true;
                }
            },
            _ => {},
        }
        i = i + 1;
    }
    false
}

/// The parent recorded last for `pid` in (pid, parent) pairs.
pub open spec fn parent_lookup(parents: Seq<(u32, Option<u32>)>, pid: u32) -> Option<u32>
    decreases parents.len(),
{
    if parents.len() == 0 {
        None
    } else if parents.last().0 == pid {
        parents.last().1
    } else {
        parent_lookup(parents.drop_last(), pid)
    }
}

/// `candidate` is reached from `current` within `steps` steps up the
/// parent chain.
pub open spec fn ancestor_within(candidate: u32, current: Option<u32>, steps: nat, parents: Seq<(u32, Option<u32>)>) -> bool
    decreases steps,
{
    if steps == 0 {
        false
    } else {
        match current {
            None => false,
            Some(pid) => pid == candidate || ancestor_within(candidate, parent_lookup(parents, pid), (steps - 1) as nat, parents),
        }
    }
}

fn exec_parent_lookup(parents: &[(u32, Option<u32>)], pid: u32) -> (r: Option<u32>)
    ensures
        r == parent_lookup(parents@, pid),
{
    let mut i: usize = parents.len();
    proof { assert(parents@.subrange(0, parents@.len() as int) =~= parents@); }
    while i > 0
        invariant
            i <= parents@.len(),
            parent_lookup(parents@, pid) == parent_lookup(parents@.subrange(0, i as int), pid),
        decreases i,
    {
        let ghost pre = parents@.subrange(0, i as int);
        proof { assert(pre.drop_last() =~= parents@.subrange(0, i - 1)); }
        if parents[i - 1].0 == pid {
            return parents[i - 1].1;
        }
        i = i - 1;
    }
    None
}

/// Whether `candidate` is `process` or one of its ancestors, following at
/// most 64 parent links.
pub fn is_ancestor(candidate: u32, process: u32, parents: &[(u32, Option<u32>)]) -> (r: bool)
    ensures
        r == ancestor_within(candidate, Some(process), 64, parents@),
{
    let mut current: Option<u32> = Some(process);
    let mut steps: u32 = 64;
    while steps > 0
        invariant
            steps <= 64,
            ancestor_within(candidate, Some(process), 64, parents@)
                == ancestor_within(candidate, current, steps as nat, parents@),
        decreases steps,
    {
        match current {
            None => { return false; },
            Some(pid) => {
                if pid == candidate {
                    return true;
                }
                current = exec_parent_lookup(parents, pid);
            },
        }
        steps = steps - 1;
    }
    false
}

/// Wine's shared profile names, which never own a Studio installation.
pub open spec fn shared_user_spec(name: Seq<char>) -> bool {
    eq_ignore_ascii_case(name, "Public"@) || eq_ignore_ascii_case(name, "Default"@)
        || eq_ignore_ascii_case(name, "Default User"@) || eq_ignore_ascii_case(name, "All Users"@)
}

pub fn is_wine_shared_user(name: &str) -> (r: bool)
    ensures
        r == shared_user_spec(name@),
{
    let n = chars_of(name);
    chars_eq_ignore_ascii_case(n.as_slice(), chars_of("Public").as_slice())
        || chars_eq_ignore_ascii_case(n.as_slice(), chars_of("Default").as_slice())
        || chars_eq_ignore_ascii_case(n.as_slice(), chars_of("Default User").as_slice())
        || chars_eq_ignore_ascii_case(n.as_slice(), chars_of("All Users").as_slice())
}

/// The host path of a resolution, when it is available.
pub fn available_host(resolution: &PathResolution) -> (r: Option<HostPath>)
    ensures
        match resolution.value {
            Some(v) if resolution.availability == PathAvailability::Available => match v.host {
                Some(h) => r matches Some(x) && x@ == h@,
                None => r is None,
            },
            _ => r is None,
        },
{
    if resolution.availability != PathAvailability::Available {
        return None;
    }
    match &resolution.value {
        Some(v) => match &v.host {
            Some(h) => Some(h.clone()),
            None => None,
        },
        None => None,
    }
}

/// The resolved value of a resolution, when it is available.
pub fn available_resolved(resolution: &PathResolution) -> (r: Option<ResolvedPath>)
    ensures
        match resolution.value {
            Some(v) if resolution.availability == PathAvailability::Available =>
                r matches Some(x) && same_resolved(x, v),
            _ => r is None,
        },
{
    if resolution.availability != PathAvailability::Available {
        return None;
    }
    match &resolution.value {
        Some(v) => Some(copy_resolved(v)),
        None => None,
    }
}

/// Two resolved paths with the same host and guest values.
pub open spec fn same_resolved(a: ResolvedPath, b: ResolvedPath) -> bool {
    (match (a.host, b.host) {
        (Some(x), Some(y)) => x@ == y@,
        (None, None) => true,
        _ => false,
    }) && (match (a.guest, b.guest) {
        (Some(x), Some(y)) => x@ == y@,
        (None, None) => true,
        _ => false,
    })
}

pub fn copy_resolved(v: &ResolvedPath) -> (r: ResolvedPath)
    ensures
        same_resolved(r, *v),
{
    ResolvedPath {
        host: match &v.host { Some(h) => Some(h.clone()), None => None },
        guest: match &v.guest { Some(g) => Some(g.duplicate()), None => None },
    }
}

/// A diagnostic with the given code and message.
pub fn diagnostic(code: &str, message: &str) -> (r: ResolutionDiagnostic)
    ensures
        r.code@ == code@,
        r.message@ == message@,
{
    ResolutionDiagnostic {
        code: string_from_chars(chars_of(code).as_slice()),
        message: string_from_chars(chars_of(message).as_slice()),
    }
}

} // verus!

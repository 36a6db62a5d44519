//! Pure builders for the parts of a resolved environment.
use vstd::prelude::*;
use vstd::utf8::encode_utf8;
use crate::digest::blake3_digest;
use crate::text::{chars_of, chars_eq_ignore_ascii_case, eq_ignore_ascii_case, push_all, push_str, string_from_chars};
use super::evidence::{ancestor_within, is_ancestor, mentions_path_spec, process_mentions_path};
use super::host_path::{HostPath, HostPathView, dot_dot, host_path_text, join_view, parse_host_path};
use super::model::{StudioDeployment, StudioDeploymentId, StudioProcessInfo, StudioRuntime};
use super::process::{ProcessSnapshot, env_lookup};
use super::resolver::{push_runtime_name, runtime_debug_name};

verus! {

/// The text a deployment identity is derived from: `runtime:path`.
pub open spec fn deployment_fingerprint(runtime: StudioRuntime, path: HostPathView) -> Seq<char> {
    runtime_debug_name(runtime) + ":"@ + host_path_text(path)
}

/// The deployment at `path`: its build is the directory name.
pub fn make_deployment(path: HostPath, runtime: StudioRuntime) -> (r: StudioDeployment)
    ensures
        r.id.0@ == blake3_digest(encode_utf8(deployment_fingerprint(runtime, path@))).subrange(0, 16),
        r.path == path,
        r.runtime == runtime,
        match r.build_identifier {
            Some(b) => path@.parts.len() > 0 && path@.parts.last() != dot_dot() && b@ == path@.parts.last(),
            None => path@.parts.len() == 0 || path@.parts.last() == dot_dot(),
        },
{
    let build_identifier = path.file_name();
    let mut fp: Vec<char> = Vec::new();
    push_runtime_name(&mut fp, runtime);
    push_str(&mut fp, ":");
    let text = path.text_chars();
    push_all(&mut fp, text.as_slice());
    proof { assert(fp@ =~= deployment_fingerprint(runtime, path@)); }
    let fp_text = string_from_chars(fp.as_slice());
    let id = StudioDeploymentId::from_fingerprint(fp_text.as_str().as_bytes());
    StudioDeployment { id, path, build_identifier, runtime }
}

/// What is recorded of a Studio process.
pub fn process_info(process: &ProcessSnapshot, runtime: StudioRuntime, deployment: Option<StudioDeploymentId>) -> (r: StudioProcessInfo)
    ensures
        r.pid == process.pid,
        r.parent_pid == process.parent_pid,
        r.runtime == runtime,
        r.deployment == deployment,
        r.start_time_unix_seconds == process.start_time_unix_seconds,
        match (r.executable, process.executable) {
            (Some(a), Some(b)) => a@ == b@,
            (None, None) => true,
            _ => false,
        },
{
    StudioProcessInfo {
        pid: process.pid,
        executable: match &process.executable { Some(e) => Some(e.clone()), None => None },
        parent_pid: process.parent_pid,
        runtime,
        deployment,
        start_time_unix_seconds: process.start_time_unix_seconds,
    }
}

/// The (pid, parent) pairs of a snapshot.
pub open spec fn parent_pairs(ps: Seq<ProcessSnapshot>) -> Seq<(u32, Option<u32>)> {
    Seq::new(ps.len(), |i: int| (ps[i].pid, ps[i].parent_pid))
}

/// The process runs in the given Wine prefix, by its `WINEPREFIX`.
pub open spec fn in_prefix(p: ProcessSnapshot, prefix: HostPathView) -> bool {
    env_lookup(p.environment@, "WINEPREFIX"@) matches Some(v) && parse_host_path(v) == prefix
}

/// A process other than the main Studio process is related to it when it
/// shares the prefix or is an ancestor or descendant; with a known prefix it
/// must also run in, or mention, the prefix, or be an ancestor.
pub open spec fn related_spec(p: ProcessSnapshot, main: u32, prefix: Option<HostPathView>, parents: Seq<(u32, Option<u32>)>) -> bool {
    let same = prefix matches Some(x) && in_prefix(p, x);
    let up = ancestor_within(p.pid, Some(main), 64, parents);
    let down = ancestor_within(main, Some(p.pid), 64, parents);
    p.pid != main && (same || up || down)
        && (prefix is None || same || (prefix matches Some(x) && mentions_path_spec(p, x)) || up)
}

/// The related processes' (pid, start time), in snapshot order.
pub open spec fn related_procs(ps: Seq<ProcessSnapshot>, upto: int, main: u32, prefix: Option<HostPathView>, parents: Seq<(u32, Option<u32>)>) -> Seq<(u32, u64)>
    decreases upto,
{
    if upto <= 0 || upto > ps.len() {
        Seq::empty()
    } else if related_spec(ps[upto - 1], main, prefix, parents) {
        related_procs(ps, upto - 1, main, prefix, parents).push((ps[upto - 1].pid, ps[upto - 1].start_time_unix_seconds))
    } else {
        related_procs(ps, upto - 1, main, prefix, parents)
    }
}

fn process_in_prefix(p: &ProcessSnapshot, prefix: &HostPath) -> (r: bool)
    ensures
        r == in_prefix(*p, prefix@),
{
    match p.environment_value("WINEPREFIX") {
        Some(v) => HostPath::new(v).same_as(prefix),
        None => false,
    }
}

/// The processes related to the main Studio process, recorded with its
/// runtime and deployment.
pub fn related_processes(
    main_pid: u32,
    runtime: StudioRuntime,
    deployment: Option<StudioDeploymentId>,
    prefix: Option<&HostPath>,
    processes: &Vec<ProcessSnapshot>,
) -> (r: Vec<StudioProcessInfo>)
    ensures
        ({
            let rel = related_procs(processes@, processes@.len() as int, main_pid,
                match prefix { Some(x) => Some(x@), None => None }, parent_pairs(processes@));
            r@.len() == rel.len() && forall|i: int| 0 <= i < r@.len() ==> (#[trigger] r@[i]).pid == rel[i].0
                && r@[i].start_time_unix_seconds == rel[i].1 && r@[i].runtime == runtime && r@[i].deployment == deployment
        }),
{
    let mut parents: Vec<(u32, Option<u32>)> = Vec::new();
    let mut k: usize = 0;
    while k < processes.len()
        invariant
            k <= processes@.len(),
            parents@ =~= parent_pairs(processes@).subrange(0, k as int),
        decreases processes@.len() - k,
    {
        parents.push((processes[k].pid, processes[k].parent_pid));
        k = k + 1;
    }
    proof { assert(parents@ =~= parent_pairs(processes@)); }
    let ghost pv = match prefix { Some(x) => Some(x@), None => None::<HostPathView> };
    let mut out: Vec<StudioProcessInfo> = Vec::new();
    let mut i: usize = 0;
    while i < processes.len()
        invariant
            i <= processes@.len(),
            parents@ == parent_pairs(processes@),
            pv == match prefix { Some(x) => Some(x@), None => None::<HostPathView> },
            out@.len() == related_procs(processes@, i as int, main_pid, pv, parents@).len(),
            forall|j: int| 0 <= j < out@.len() ==> (#[trigger] out@[j]).pid == related_procs(processes@, i as int, main_pid, pv, parents@)[j].0
                && out@[j].start_time_unix_seconds == related_procs(processes@, i as int, main_pid, pv, parents@)[j].1
                && out@[j].runtime == runtime && out@[j].deployment == deployment,
        decreases processes@.len() - i,
    {
        let p = &processes[i];
        let same = match prefix { Some(x) => process_in_prefix(p, x), None => false };
        let up = is_ancestor(p.pid, main_pid, parents.as_slice());
        let down = is_ancestor(main_pid, p.pid, parents.as_slice());
        let mentions = match prefix { Some(x) => process_mentions_path(p, x), None => false };
        let keep = p.pid != main_pid && (same || up || down) && (prefix.is_none() || same || mentions || up);
        proof { assert(keep == related_spec(processes@[i as int], main_pid, pv, parents@)); }
        if keep {
            out.push(process_info(p, runtime, deployment));
        }
        i = i + 1;
    }
    out
}

/// The upper-case drives are kept in increasing order, each once.
pub open spec fn drive_keys_sorted(ms: Seq<(char, HostPath)>) -> bool {
    forall|i: int, j: int| 0 <= i < j < ms.len() ==> ms[i].0 < ms[j].0
}

proof fn lemma_insert_sorted(s: Seq<(char, HostPath)>, pos: int, x: (char, HostPath))
    requires
        drive_keys_sorted(s),
        0 <= pos <= s.len(),
        forall|k: int| 0 <= k < pos ==> s[k].0 < x.0,
        pos < s.len() ==> x.0 < s[pos].0,
    ensures
        drive_keys_sorted(s.insert(pos, x)),
{
    let t = s.insert(pos, x);
    assert forall|a: int, b: int| 0 <= a < b < t.len() implies t[a].0 < t[b].0 by {
        if b < pos {
        } else if b == pos {
        } else if a == pos {
            assert(t[b] == s[b - 1]);
            if b - 1 > pos { assert(s[pos].0 < s[b - 1].0); }
        } else if a < pos {
            assert(t[b] == s[b - 1]);
        } else {
            assert(t[a] == s[a - 1]);
            assert(t[b] == s[b - 1]);
        }
    }
}

proof fn lemma_update_sorted(s: Seq<(char, HostPath)>, pos: int, x: (char, HostPath))
    requires
        drive_keys_sorted(s),
        0 <= pos < s.len(),
        s[pos].0 == x.0,
    ensures
        drive_keys_sorted(s.update(pos, x)),
        forall|j: int| 0 <= j < s.len() && j != pos ==> s.update(pos, x)[j] == #[trigger] s[j],
{
}

/// Maps drive `d` to `root`, replacing an earlier mapping of `d` and
/// keeping the drives in order.
pub fn insert_mapping(ms: &mut Vec<(char, HostPath)>, d: char, root: HostPath)
    requires
        drive_keys_sorted(old(ms)@),
    ensures
        drive_keys_sorted(final(ms)@),
        exists|i: int| 0 <= i < final(ms)@.len() && final(ms)@[i].0 == d && final(ms)@[i].1@ == root@,
        forall|j: int| 0 <= j < old(ms)@.len() && (#[trigger] old(ms)@[j]).0 != d
            ==> exists|i: int| 0 <= i < final(ms)@.len() && final(ms)@[i] == old(ms)@[j],
{
    let ghost before = ms@;
    let mut pos: usize = 0;
    while pos < ms.len() && ms[pos].0 < d
        invariant
            pos <= ms@.len(),
            ms@ == before,
            forall|k: int| 0 <= k < pos ==> ms@[k].0 < d,
        decreases ms@.len() - pos,
    {
        pos = pos + 1;
    }
    let ghost r = root;
    if pos < ms.len() && ms[pos].0 == d {
        proof { lemma_update_sorted(before, pos as int, (d, root)); }
        ms.set(pos, (d, root));
        proof {
            assert(ms@[pos as int].0 == d && ms@[pos as int].1@ == r@);
            assert forall|j: int| 0 <= j < before.len() && (#[trigger] before[j]).0 != d
                implies exists|i: int| 0 <= i < ms@.len() && ms@[i] == before[j] by {
                assert(ms@[j] == before[j]);
            }
        }
    } else {
        proof { lemma_insert_sorted(before, pos as int, (d, root)); }
        ms.insert(pos, (d, root));
        proof {
            assert(ms@[pos as int].0 == d && ms@[pos as int].1@ == r@);
            assert forall|j: int| 0 <= j < before.len() && (#[trigger] before[j]).0 != d
                implies exists|i: int| 0 <= i < ms@.len() && ms@[i] == before[j] by {
                if j < pos { assert(ms@[j] == before[j]); } else { assert(ms@[j + 1] == before[j]); }
            }
        }
    }
}

/// The path made of the first `n` components of `p`.
pub open spec fn prefix_view(p: HostPathView, n: int) -> HostPathView {
    HostPathView { absolute: p.absolute, parts: p.parts.subrange(0, n) }
}

/// The number of components up to and including the last `lib`.
pub open spec fn last_lib(parts: Seq<Seq<char>>) -> Option<int>
    decreases parts.len(),
{
    if parts.len() == 0 {
        None
    } else if parts.last() == "lib"@ {
        Some(parts.len() as int)
    } else {
        last_lib(parts.drop_last())
    }
}

/// Where a Wine process's executable places the Wine installation root and
/// its `wine` launcher: `wine`/`wine64` sit in `root/bin`; `wineserver`
/// sits beside `wine`; `wine-preloader` sits somewhere under `root/lib`.
pub open spec fn wine_layout_spec(exe: HostPathView) -> Option<(HostPathView, HostPathView)> {
    let n = exe.parts.len() as int;
    if n == 0 || exe.parts.last() == dot_dot() {
        None
    } else {
        let name = exe.parts.last();
        if eq_ignore_ascii_case(name, "wine"@) || eq_ignore_ascii_case(name, "wine64"@) {
            if n >= 2 { Some((prefix_view(exe, n - 2), exe)) } else { None }
        } else if eq_ignore_ascii_case(name, "wineserver"@) {
            if n >= 2 { Some((prefix_view(exe, n - 2), join_view(prefix_view(exe, n - 1), "wine"@))) } else { None }
        } else if eq_ignore_ascii_case(name, "wine-preloader"@) {
            match last_lib(exe.parts) {
                Some(k) => Some((prefix_view(exe, k - 1), join_view(prefix_view(exe, k - 1), "bin/wine"@))),
                None => None,
            }
        } else {
            None
        }
    }
}

fn names_equal_ignoring_case(a: &String, b: &str) -> (r: bool)
    ensures
        r == eq_ignore_ascii_case(a@, b@),
{
    chars_eq_ignore_ascii_case(chars_of(a.as_str()).as_slice(), chars_of(b).as_slice())
}

/// The first `n` components of `p`, as a path.
fn prefix_path(p: &HostPath, n: usize) -> (r: HostPath)
    requires
        n <= p@.parts.len(),
    ensures
        r@ == prefix_view(p@, n as int),
    decreases p@.parts.len() - n,
{
    if n == p.component_count() {
        proof { assert(p@.parts.subrange(0, n as int) =~= p@.parts); }
        return p.clone();
    }
    match p.parent() {
        Some(q) => {
            let r = prefix_path(&q, n);
            proof { assert(q@.parts.subrange(0, n as int) =~= p@.parts.subrange(0, n as int)); }
            r
        },
        None => p.clone(),
    }
}

/// The Wine root and launcher for a Wine process's executable.
pub fn wine_runtime_layout(exe: &HostPath) -> (r: Option<(HostPath, HostPath)>)
    ensures
        match wine_layout_spec(exe@) {
            Some((root, launcher)) => r matches Some((a, b)) && a@ == root && b@ == launcher,
            None => r is None,
        },
{
    let name = match exe.file_name() {
        Some(n) => n,
        None => { return None; },
    };
    let n = exe.component_count();
    if names_equal_ignoring_case(&name, "wine") || names_equal_ignoring_case(&name, "wine64") {
        if n >= 2 {
            return Some((prefix_path(exe, n - 2), exe.clone()));
        }
        return None;
    }
    if names_equal_ignoring_case(&name, "wineserver") {
        if n >= 2 {
            let bin = prefix_path(exe, n - 1);
            return Some((prefix_path(exe, n - 2), bin.join("wine")));
        }
        return None;
    }
    if names_equal_ignoring_case(&name, "wine-preloader") {
        let parts = exe.components();
        let mut k: usize = n;
        proof { assert(exe@.parts.subrange(0, n as int) =~= exe@.parts); }
        while k > 0
            invariant
                k <= n,
                n == exe@.parts.len(),
                parts@.map_values(|c: String| c@) == exe@.parts,
                last_lib(exe@.parts) == last_lib(exe@.parts.subrange(0, k as int)),
                wine_layout_spec(exe@) == (match last_lib(exe@.parts) {
                    Some(j) => Some((prefix_view(exe@, j - 1), join_view(prefix_view(exe@, j - 1), "bin/wine"@))),
                    None => None::<(HostPathView, HostPathView)>,
                }),
            decreases k,
        {
            let ghost pre = exe@.parts.subrange(0, k as int);
            proof {
                assert(pre.drop_last() =~= exe@.parts.subrange(0, k - 1));
                assert(pre.last() == parts@[k - 1]@);
            }
            if crate::text::chars_equal(chars_of(parts[k - 1].as_str()).as_slice(), chars_of("lib").as_slice()) {
                let root = prefix_path(exe, k - 1);
                let launcher = root.join("bin/wine");
                return Some((root, launcher));
            }
            k = k - 1;
        }
        return None;
    }
    None
}

} // verus!

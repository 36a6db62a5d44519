//! The resolver's choices among several candidates: which Wine user owns
//! Studio, which deployment runs, which environment is selected.
use vstd::prelude::*;
use crate::text::{ascii_upper, char_ascii_upper, char_is_ascii_alpha, chars_eq_ignore_ascii_case, chars_of, eq_ignore_ascii_case, is_ascii_alpha, push_str, string_from_chars};
use super::filesystem::{FileSystemEntry, FileSystemError, FileSystemErrorKind};
use super::host_path::{HostPath, host_path_text};
use super::model::{InspectionStatus, PathAvailability, PathResolution, PlatformError, ResolutionOrigin, ResolvedPath, StudioEnvironmentId, StudioPathRole};
use super::wine_path::WinePath;

verus! {

/// How a failed file-system answer is reported for a path.
pub open spec fn availability_for(kind: FileSystemErrorKind, sandboxed: bool) -> PathAvailability {
    match kind {
        FileSystemErrorKind::Missing => PathAvailability::Missing,
        FileSystemErrorKind::PermissionDenied => if sandboxed { PathAvailability::SandboxDenied } else { PathAvailability::PermissionDenied },
        FileSystemErrorKind::Other => PathAvailability::Unavailable,
    }
}

/// A denied access inside a sandbox is reported apart from a host denial.
pub fn access_error_availability(kind: FileSystemErrorKind, sandboxed: bool) -> (r: PathAvailability)
    ensures
        r == availability_for(kind, sandboxed),
{
    match kind {
        FileSystemErrorKind::Missing => PathAvailability::Missing,
        FileSystemErrorKind::PermissionDenied => if sandboxed { PathAvailability::SandboxDenied } else { PathAvailability::PermissionDenied },
        FileSystemErrorKind::Other => PathAvailability::Unavailable,
    }
}

/// Whether an inspected entry has the kind the role needs: a file for the
/// MCP server, a directory for every other role.
pub open spec fn entry_fits(role: StudioPathRole, e: FileSystemEntry) -> bool {
    (role == StudioPathRole::McpServer && e.is_file) || (role != StudioPathRole::McpServer && e.is_directory)
}

pub open spec fn wrong_kind_detail(role: StudioPathRole) -> Seq<char> {
    if role == StudioPathRole::McpServer {
        "expected a file but found a different filesystem object"@
    } else {
        "expected a directory but found a different filesystem object"@
    }
}

/// The resolution of a known host path, given what inspecting it returned.
pub fn classify_known_path(
    role: StudioPathRole,
    host: HostPath,
    origin: ResolutionOrigin,
    guest: Option<WinePath>,
    answer: Result<FileSystemEntry, FileSystemError>,
    sandboxed: bool,
) -> (r: PathResolution)
    ensures
        r.role == role,
        r.origin == origin,
        r.value == Some(ResolvedPath { host: Some(host), guest }),
        match answer {
            Ok(e) => if entry_fits(role, e) {
                r.availability == PathAvailability::Available && r.detail is None
            } else {
                r.availability == PathAvailability::Unavailable && (r.detail matches Some(d) && d@ == wrong_kind_detail(role))
            },
            Err(e) => r.availability == availability_for(e.kind, sandboxed) && (r.detail matches Some(d) && d@ == e.message@),
        },
{
    let value = Some(ResolvedPath { host: Some(host), guest });
    match answer {
        Ok(entry) => {
            let fits = (role == StudioPathRole::McpServer && entry.is_file) || (role != StudioPathRole::McpServer && entry.is_directory);
            if fits {
                PathResolution { role, availability: PathAvailability::Available, value, origin, detail: None }
            } else {
                let text = if role == StudioPathRole::McpServer {
                    "expected a file but found a different filesystem object"
                } else {
                    "expected a directory but found a different filesystem object"
                };
                PathResolution {
                    role,
                    availability: PathAvailability::Unavailable,
                    value,
                    origin,
                    detail: Some(string_from_chars(chars_of(text).as_slice())),
                }
            }
        },
        Err(error) => PathResolution {
            role,
            availability: access_error_availability(error.kind, sandboxed),
            value,
            origin,
            detail: Some(error.message),
        },
    }
}

/// The reason written when an override names the wrong kind of object.
pub open spec fn wrong_override_reason(path: Seq<char>, want_file: bool) -> Seq<char> {
    path + if want_file { " is not a file"@ } else { " is not a directory"@ }
}

/// Whether a configured override is acceptable, given what inspecting it
/// returned: it must be a file (`want_file`) or else a directory.
pub fn override_verdict(name: &str, path: &HostPath, answer: &Result<FileSystemEntry, FileSystemError>, want_file: bool) -> (r: Result<(), PlatformError>)
    ensures
        match answer {
            Ok(e) => if (if want_file { e.is_file } else { e.is_directory }) {
                r is Ok
            } else {
                r matches Err(PlatformError::InvalidOverride { name: n, reason: m })
                    && n@ == name@ && m@ == wrong_override_reason(host_path_text(path@), want_file)
            },
            Err(e) => r matches Err(PlatformError::InvalidOverride { name: n, reason: m }) && n@ == name@ && m@ == e.message@,
        },
{
    let n = string_from_chars(chars_of(name).as_slice());
    match answer {
        Ok(entry) => {
            let fits = if want_file { entry.is_file } else { entry.is_directory };
            if fits {
                Ok(())
            } else {
                let mut reason = path.text_chars();
                if want_file {
                    push_str(&mut reason, " is not a file");
                } else {
                    push_str(&mut reason, " is not a directory");
                }
                Err(PlatformError::InvalidOverride { name: n, reason: string_from_chars(reason.as_slice()) })
            }
        },
        Err(error) => Err(PlatformError::InvalidOverride { name: n, reason: error.message.clone() }),
    }
}

pub open spec fn count_true(s: Seq<bool>) -> nat
    decreases s.len(),
{
    if s.len() == 0 { 0 } else { count_true(s.drop_last()) + if s.last() { 1nat } else { 0nat } }
}

pub open spec fn first_true(s: Seq<bool>) -> Option<int>
    decreases s.len(),
{
    if s.len() == 0 {
        None
    } else if s[0] {
        Some(0)
    } else {
        match first_true(s.drop_first()) {
            Some(i) => Some(i + 1),
            None => None,
        }
    }
}

/// The first `true` entry exists exactly when some entry is `true`, and
/// no entry before it is `true`.
pub proof fn lemma_count_first_pub(s: Seq<bool>)
    ensures
        first_true(s) is None <==> count_true(s) == 0,
        first_true(s) matches Some(i) ==> 0 <= i < s.len() && s[i] && forall|j: int| 0 <= j < i ==> !s[j],
{
    lemma_count_first(s);
}

proof fn lemma_count_first(s: Seq<bool>)
    ensures
        first_true(s) is None <==> count_true(s) == 0,
        first_true(s) matches Some(i) ==> 0 <= i < s.len() && s[i] && forall|j: int| 0 <= j < i ==> !s[j],
    decreases s.len(),
{
    if s.len() > 0 {
        let t = s.drop_first();
        lemma_count_first(t);
        lemma_count_split(s);
        if !s[0] {
            match first_true(t) {
                Some(i) => {
                    assert(s[i + 1] == t[i]);
                    assert forall|j: int| 0 <= j < i + 1 implies !s[j] by {
                        if j > 0 { assert(s[j] == t[j - 1]); }
                    }
                },
                None => {},
            }
        }
    }
}

proof fn lemma_count_split(s: Seq<bool>)
    requires
        s.len() > 0,
    ensures
        count_true(s) == (if s[0] { 1nat } else { 0nat }) + count_true(s.drop_first()),
    decreases s.len(),
{
    if s.len() > 1 {
        let d = s.drop_last();
        lemma_count_split(d);
        let t = s.drop_first();
        assert(d.drop_first() =~= t.drop_last());
        assert(t.last() == s.last());
        assert(d[0] == s[0]);
        assert(count_true(s) == count_true(d) + if s.last() { 1nat } else { 0nat });
        assert(count_true(t) == count_true(t.drop_last()) + if t.last() { 1nat } else { 0nat });
    } else {
        assert(s.drop_first().len() == 0);
        assert(s.drop_last().len() == 0);
        assert(count_true(s.drop_last()) == 0);
        assert(count_true(s.drop_first()) == 0);
        assert(s.last() == s[0]);
    }
}

proof fn lemma_count_prefix(s: Seq<bool>, i: int)
    requires
        0 <= i < s.len(),
    ensures
        count_true(s.subrange(0, i + 1)) == count_true(s.subrange(0, i)) + if s[i] { 1nat } else { 0nat },
{
    assert(s.subrange(0, i + 1).drop_last() =~= s.subrange(0, i));
}

/// Counts the `true` entries and finds the first.
pub fn count_and_first(s: &Vec<bool>) -> (r: (usize, Option<usize>))
    ensures
        r.0 == count_true(s@),
        match first_true(s@) { Some(i) => r.1 == Some(i as usize), None => r.1 is None },
{
    let mut n: usize = 0;
    let mut first: Option<usize> = None;
    let mut i: usize = 0;
    proof { lemma_count_first(s@); }
    while i < s.len()
        invariant
            i <= s@.len(),
            n == count_true(s@.subrange(0, i as int)),
            n <= i,
            first_true(s@) is None <==> count_true(s@) == 0,
            first_true(s@) matches Some(k) ==> 0 <= k < s@.len() && s@[k] && forall|j: int| 0 <= j < k ==> !s@[j],
            match first { Some(f) => f < i && s@[f as int] && forall|j: int| 0 <= j < f ==> !s@[j], None => forall|j: int| 0 <= j < i ==> !s@[j] },
        decreases s@.len() - i,
    {
        proof { lemma_count_prefix(s@, i as int); }
        if s[i] {
            n = n + 1;
            if first.is_none() {
                first = Some(i);
            }
        }
        i = i + 1;
    }
    proof {
        assert(s@.subrange(0, s@.len() as int) =~= s@);
        match first_true(s@) {
            Some(k) => {
                match first {
                    Some(f) => {
                        if f < k { assert(!s@[f as int]); }
                        if k < f { assert(!s@[k]); }
                    },
                    None => { assert(!s@[k]); },
                }
            },
            None => {
                if let Some(f) = first {
                    assert(count_true(s@) > 0) by {
                        assert(first_true(s@) is None);
                        lemma_first_of_true(s@, f as int);
                    }
                }
            },
        }
    }
    (n, first)
}

proof fn lemma_first_of_true(s: Seq<bool>, i: int)
    requires
        0 <= i < s.len(),
        s[i],
    ensures
        first_true(s) is Some,
    decreases s.len(),
{
    if !s[0] {
        lemma_first_of_true(s.drop_first(), i - 1);
    }
}

/// The first user whose profile name matches `name` in any ASCII case.
pub open spec fn first_name_match(users: Seq<FileSystemEntry>, name: Seq<char>) -> Option<int>
    decreases users.len(),
{
    if users.len() == 0 {
        None
    } else if eq_ignore_ascii_case(users[0].file_name@, name) {
        Some(0)
    } else {
        match first_name_match(users.drop_first(), name) {
            Some(i) => Some(i + 1),
            None => None,
        }
    }
}

/// Which Wine user owns Studio: the one the Studio process names; else the
/// only one with Roblox AppData; else the only user when none has it.
pub open spec fn wine_user_choice(users: Seq<FileSystemEntry>, with_roblox: Seq<bool>, process_user: Option<Seq<char>>) -> Option<int> {
    match process_user {
        Some(u) => first_name_match(users, u),
        None => if count_true(with_roblox) == 1 {
            first_true(with_roblox)
        } else if count_true(with_roblox) == 0 && users.len() == 1 {
            Some(0)
        } else {
            None
        },
    }
}

proof fn lemma_name_match_in_range(users: Seq<FileSystemEntry>, name: Seq<char>)
    ensures
        first_name_match(users, name) matches Some(i) ==> 0 <= i < users.len(),
    decreases users.len(),
{
    if users.len() > 0 {
        lemma_name_match_in_range(users.drop_first(), name);
    }
}

/// The chosen user is one of the users.
pub proof fn lemma_wine_user_choice_in_range(users: Seq<FileSystemEntry>, with_roblox: Seq<bool>, process_user: Option<Seq<char>>)
    requires
        with_roblox.len() == users.len(),
    ensures
        wine_user_choice(users, with_roblox, process_user) matches Some(i) ==> 0 <= i < users.len(),
{
    lemma_count_first(with_roblox);
    match process_user {
        Some(u) => lemma_name_match_in_range(users, u),
        None => {},
    }
}

/// The index of the Wine user that owns Studio, if the evidence singles
/// one out. `with_roblox[i]` says whether user `i` has Roblox AppData.
pub fn select_wine_user(users: &Vec<FileSystemEntry>, with_roblox: &Vec<bool>, process_user: Option<&str>) -> (r: Option<usize>)
    requires
        with_roblox@.len() == users@.len(),
    ensures
        match wine_user_choice(users@, with_roblox@, match process_user { Some(u) => Some(u@), None => None }) {
            Some(i) => r == Some(i as usize),
            None => r is None,
        },
        r matches Some(i) ==> i < users@.len(),
{
    proof { lemma_count_first(with_roblox@); }
    match process_user {
        Some(u) => {
            let name = chars_of(u);
            let mut i: usize = 0;
            proof { assert(users@.subrange(0, users@.len() as int) =~= users@); }
            while i < users.len()
                invariant
                    i <= users@.len(),
                    name@ == u@,
                    process_user == Some(u),
                    first_name_match(users@, u@) == (match first_name_match(users@.subrange(i as int, users@.len() as int), u@) {
                        Some(k) => Some(k + i),
                        None => None::<int>,
                    }),
                decreases users@.len() - i,
            {
                let ghost rest = users@.subrange(i as int, users@.len() as int);
                proof { assert(rest.drop_first() =~= users@.subrange(i + 1, users@.len() as int)); }
                let candidate = chars_of(users[i].file_name.as_str());
                proof { assert(rest[0] == users@[i as int]); }
                if chars_eq_ignore_ascii_case(candidate.as_slice(), name.as_slice()) {
                    proof {
                        assert(eq_ignore_ascii_case(rest[0].file_name@, u@));
                        assert(first_name_match(rest, u@) == Some(0int));
                        assert(first_name_match(users@, u@) == Some(i as int));
                        assert(wine_user_choice(users@, with_roblox@, Some(u@)) == Some(i as int));
                        assert((match process_user { Some(x) => Some(x@), None => None::<Seq<char>> }) == Some(u@));
                    }
                    return Some(i);
                }
                i = i + 1;
            }
            proof { assert(users@.subrange(i as int, users@.len() as int).len() == 0); }
            None
        },
        None => {
            let (n, first) = count_and_first(with_roblox);
            if n == 1 {
                first
            } else if n == 0 && users.len() == 1 {
                Some(0)
            } else {
                None
            }
        },
    }
}

/// Whether exactly one known modification time is the latest, with at least
/// two known; its index.
pub open spec fn known_count(times: Seq<Option<u64>>) -> nat
    decreases times.len(),
{
    if times.len() == 0 { 0 } else { known_count(times.drop_last()) + if times.last() is Some { 1nat } else { 0nat } }
}

pub open spec fn strictly_latest(times: Seq<Option<u64>>, k: int) -> bool {
    0 <= k < times.len() && times[k] is Some
        && forall|j: int| 0 <= j < times.len() && j != k && #[trigger] times[j] is Some ==> times[j]->0 < times[k]->0
}

pub enum DeploymentSelection {
    Selected(HostPath),
    Ambiguous(usize),
    Missing(Option<HostPath>),
}

/// Picks a deployment: the one the Studio process mentions when exactly one
/// is mentioned; the only one; else the one modified strictly last among at
/// least two with known times; otherwise the choice is ambiguous.
pub fn select_deployment_from(candidates: &Vec<HostPath>, mentioned: Option<&Vec<bool>>, modified: &Vec<Option<u64>>) -> (r: DeploymentSelection)
    requires
        modified@.len() == candidates@.len(),
        mentioned matches Some(m) ==> m@.len() == candidates@.len(),
    ensures
        candidates@.len() == 0 ==> r matches DeploymentSelection::Missing(None),
        candidates@.len() > 0 ==> match mentioned {
            Some(m) if count_true(m@) == 1 =>
                r matches DeploymentSelection::Selected(p) && p@ == candidates@[first_true(m@)->0]@,
            _ => if candidates@.len() == 1 {
                r matches DeploymentSelection::Selected(p) && p@ == candidates@[0]@
            } else if known_count(modified@) >= 2 && exists|k: int| strictly_latest(modified@, k) {
                r matches DeploymentSelection::Selected(p) && exists|k: int| strictly_latest(modified@, k) && p@ == candidates@[k]@
            } else {
                r == DeploymentSelection::Ambiguous(candidates@.len() as usize)
            },
        },
{
    if candidates.len() == 0 {
        return DeploymentSelection::Missing(None);
    }
    match mentioned {
        Some(m) => {
            let (n, first) = count_and_first(m);
            if n == 1 {
                proof { lemma_count_first(m@); }
                match first {
                    Some(i) => { return DeploymentSelection::Selected(candidates[i].clone()); },
                    None => {},
                }
            }
        },
        None => {},
    }
    if candidates.len() == 1 {
        return DeploymentSelection::Selected(candidates[0].clone());
    }
    // find the latest known time and how many entries carry it
    let mut best: Option<usize> = None;
    let mut ties: usize = 0;
    let mut known: usize = 0;
    let mut i: usize = 0;
    while i < modified.len()
        invariant
            i <= modified@.len(),
            known == known_count(modified@.subrange(0, i as int)),
            known <= i,
            ties <= i,
            match best {
                Some(b) => b < i && modified@[b as int] is Some && ties >= 1
                    && (forall|j: int| 0 <= j < i && #[trigger] modified@[j] is Some ==> modified@[j]->0 <= modified@[b as int]->0)
                    && (ties == 1 <==> forall|j: int| 0 <= j < i && j != b && #[trigger] modified@[j] is Some ==> modified@[j]->0 < modified@[b as int]->0),
                None => known == 0 && forall|j: int| 0 <= j < i ==> #[trigger] modified@[j] is None,
            },
        decreases modified@.len() - i,
    {
        proof { assert(modified@.subrange(0, i + 1).drop_last() =~= modified@.subrange(0, i as int)); }
        match modified[i] {
            Some(t) => {
                known = known + 1;
                match best {
                    None => { best = Some(i); ties = 1; },
                    Some(b) => {
                        let bt = match modified[b] { Some(x) => x, None => 0 };
                        if t > bt {
                            best = Some(i);
                            ties = 1;
                        } else if t == bt {
                            ties = if ties < 2 { ties + 1 } else { 2 };
                        }
                    },
                }
            },
            None => {},
        }
        i = i + 1;
    }
    proof { assert(modified@.subrange(0, modified@.len() as int) =~= modified@); }
    match best {
        Some(b) => {
            if known >= 2 && ties == 1 {
                proof { assert(strictly_latest(modified@, b as int)); }
                return DeploymentSelection::Selected(candidates[b].clone());
            }
            proof {
                if known >= 2 {
                    assert forall|k: int| !strictly_latest(modified@, k) by {
                        if strictly_latest(modified@, k) {
                            if k != b as int {
                                assert(modified@[b as int] is Some);
                            } else {
                                assert(ties == 1);
                            }
                        }
                    }
                }
            }
            DeploymentSelection::Ambiguous(candidates.len())
        },
        None => {
            proof { assert(forall|k: int| !strictly_latest(modified@, k)); }
            DeploymentSelection::Ambiguous(candidates.len())
        },
    }
}

/// Status and selection of an inspection: nothing found; the single
/// environment with a Studio process; the single environment when none has
/// a process; otherwise ambiguity.
pub open spec fn inspection_outcome_spec(n: nat, process_ids: Seq<StudioEnvironmentId>, first: Option<StudioEnvironmentId>)
    -> (InspectionStatus, Option<StudioEnvironmentId>)
{
    if n == 0 {
        (InspectionStatus::NotFound, None)
    } else if process_ids.len() == 1 {
        (InspectionStatus::Resolved, Some(process_ids[0]))
    } else if n == 1 && process_ids.len() == 0 {
        (InspectionStatus::Resolved, first)
    } else {
        (InspectionStatus::Ambiguous, None)
    }
}

pub fn inspection_outcome(n: usize, process_ids: &Vec<StudioEnvironmentId>, first: Option<StudioEnvironmentId>)
    -> (r: (InspectionStatus, Option<StudioEnvironmentId>))
    ensures
        r == inspection_outcome_spec(n as nat, process_ids@, first),
{
    if n == 0 {
        (InspectionStatus::NotFound, None)
    } else if process_ids.len() == 1 {
        (InspectionStatus::Resolved, Some(process_ids[0]))
    } else if n == 1 && process_ids.len() == 0 {
        (InspectionStatus::Resolved, first)
    } else {
        (InspectionStatus::Ambiguous, None)
    }
}

/// The drive a `dosdevices` entry name stands for: `x:` for an ASCII
/// letter `x`, upper-cased.
pub open spec fn drive_letter_spec(name: Seq<char>) -> Option<char> {
    if name.len() == 2 && is_ascii_alpha(name[0]) && name[1] == ':' { Some(ascii_upper(name[0])) } else { None }
}

pub fn drive_letter_of(name: &str) -> (r: Option<char>)
    ensures
        r == drive_letter_spec(name@),
{
    let c = chars_of(name);
    if c.len() == 2 && char_is_ascii_alpha(c[0]) && c[1] == ':' {
        Some(char_ascii_upper(c[0]))
    } else {
        None
    }
}

} // verus!

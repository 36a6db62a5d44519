//! The decisions of the Studio MCP connection supervisor: which environment
//! and process a connection binds to, and what each health listing means.
use vstd::prelude::*;
use crate::platform::model::{PlatformInspection, StudioEnvironment, StudioEnvironmentId};

verus! {

/// Why the supervisor cannot bind a connection.
#[derive(Clone, Copy, Debug, Eq, PartialEq, Structural)]
pub enum ConnectionTargetError {
    /// The inspection selected no environment.
    NoSelection,
    /// The selected environment is not among the inspected ones.
    Disappeared,
    /// The selected environment has no running Studio process.
    NoStudioProcess,
}

/// The first environment with the selected identity.
pub open spec fn selected_position(environments: Seq<StudioEnvironment>, id: Seq<u8>) -> Option<int>
    decreases environments.len(),
{
    if environments.len() == 0 {
        None
    } else {
        match selected_position(environments.drop_last(), id) {
            Some(k) => Some(k),
            None => if environments.last().id.0@ == id { Some(environments.len() - 1) } else { None },
        }
    }
}

/// The environment (by position) and Studio process id a connection binds
/// to: the selected environment, which must have a running Studio process.
pub fn connection_target(inspection: &PlatformInspection) -> (r: Result<(usize, u32), ConnectionTargetError>)
    ensures
        match inspection.selected_environment {
            None => r == Err::<(usize, u32), ConnectionTargetError>(ConnectionTargetError::NoSelection),
            Some(id) => match selected_position(inspection.environments@, id.0@) {
                None => r == Err::<(usize, u32), ConnectionTargetError>(ConnectionTargetError::Disappeared),
                Some(k) => match inspection.environments@[k].studio_process {
                    None => r == Err::<(usize, u32), ConnectionTargetError>(ConnectionTargetError::NoStudioProcess),
                    Some(p) => r == Ok::<(usize, u32), ConnectionTargetError>((k as usize, p.pid)),
                },
            },
        },
{
    let selected = match inspection.selected_environment {
        Some(id) => id,
        None => { return Err(ConnectionTargetError::NoSelection); },
    };
    let mut k: usize = 0;
    while k < inspection.environments.len()
        invariant
            k <= inspection.environments@.len(),
            inspection.selected_environment == Some(selected),
            selected_position(inspection.environments@.subrange(0, k as int), selected.0@) is None,
        decreases inspection.environments@.len() - k,
    {
        proof {
            assert(inspection.environments@.subrange(0, k + 1).drop_last() =~= inspection.environments@.subrange(0, k as int));
        }
        if inspection.environments[k].id.same(&selected) {
            proof { lemma_position_found(inspection.environments@, selected.0@, k as int); }
            return match &inspection.environments[k].studio_process {
                Some(p) => Ok((k, p.pid)),
                None => Err(ConnectionTargetError::NoStudioProcess),
            };
        }
        k = k + 1;
    }
    proof { assert(inspection.environments@.subrange(0, inspection.environments@.len() as int) =~= inspection.environments@); }
    Err(ConnectionTargetError::Disappeared)
}

proof fn lemma_position_found(s: Seq<StudioEnvironment>, id: Seq<u8>, k: int)
    requires
        0 <= k < s.len(),
        s[k].id.0@ == id,
        selected_position(s.subrange(0, k), id) is None,
    ensures
        selected_position(s, id) == Some(k),
{
    assert(s.subrange(0, k + 1).drop_last() =~= s.subrange(0, k));
    lemma_position_prefix(s, id, k + 1);
}

proof fn lemma_position_prefix(s: Seq<StudioEnvironment>, id: Seq<u8>, n: int)
    requires
        0 <= n <= s.len(),
        selected_position(s.subrange(0, n), id) is Some,
    ensures
        selected_position(s, id) == selected_position(s.subrange(0, n), id),
    decreases s.len() - n,
{
    if n < s.len() {
        assert(s.subrange(0, n + 1).drop_last() =~= s.subrange(0, n));
        lemma_position_prefix(s, id, n + 1);
    } else {
        assert(s.subrange(0, n) =~= s);
    }
}

/// What one health listing of Studio sessions means for a bound
/// connection.
#[derive(Clone, Debug, Eq, PartialEq)]
pub enum ListingVerdict {
    /// The same Studio, under the same name.
    Unchanged,
    /// The only Studio now has this identity and place name.
    Renamed { id: String, name: String },
    /// Studio MCP no longer reports a running Studio.
    NoStudio,
    /// Several Studios are reported; binding would be ambiguous.
    Ambiguous { count: usize },
}

/// A listing of `(id, name)` pairs: exactly one Studio keeps the
/// connection, renamed when its identity or place name changed; none or
/// several end it.
pub fn listing_verdict(current_id: &str, current_name: &str, listing: &Vec<(String, String)>) -> (r: ListingVerdict)
    ensures
        listing@.len() == 0 ==> r == ListingVerdict::NoStudio,
        listing@.len() > 1 ==> r == (ListingVerdict::Ambiguous { count: listing@.len() as usize }),
        listing@.len() == 1 ==> if listing@[0].0@ == current_id@ && listing@[0].1@ == current_name@ {
            r == ListingVerdict::Unchanged
        } else {
            r matches ListingVerdict::Renamed { id, name } && id@ == listing@[0].0@ && name@ == listing@[0].1@
        },
{
    if listing.len() == 0 {
        return ListingVerdict::NoStudio;
    }
    if listing.len() > 1 {
        return ListingVerdict::Ambiguous { count: listing.len() };
    }
    let (id, name) = (&listing[0].0, &listing[0].1);
    if crate::json::same_text(id.as_str(), current_id) && crate::json::same_text(name.as_str(), current_name) {
        ListingVerdict::Unchanged
    } else {
        ListingVerdict::Renamed {
            id: crate::text::string_from_chars(crate::text::chars_of(id.as_str()).as_slice()),
            name: crate::text::string_from_chars(crate::text::chars_of(name.as_str()).as_slice()),
        }
    }
}

/// Why a resolved Studio MCP launch is refused before anything runs.
#[derive(Clone, Copy, Debug, Eq, PartialEq, Structural)]
pub enum LaunchRefusal {
    /// The binding names another environment.
    EnvironmentMismatch,
    /// The environment has no running Studio process.
    StudioNotRunning,
    /// The binding names another Studio process.
    ProcessMismatch,
    /// No launch command was resolved.
    LaunchUnavailable,
    /// The resolved launcher is no longer a file.
    LauncherMissing,
    /// The resolved StudioMCP executable is no longer a file.
    TargetMissing,
}

/// The checks before a resolved Studio MCP launch, in order: the binding's
/// environment and process, a resolved launcher, then (from the file
/// system's answers) the launcher and, when one is recorded on the host, the
/// target executable still being files.
pub fn launch_check(environment: &StudioEnvironment, bound_environment: StudioEnvironmentId, bound_process: u32,
    launcher_is_file: bool, target_is_file: bool) -> (r: Result<(), LaunchRefusal>)
    ensures
        r == if bound_environment.0@ != environment.id.0@ {
            Err(LaunchRefusal::EnvironmentMismatch)
        } else if environment.studio_process is None {
            Err(LaunchRefusal::StudioNotRunning)
        } else if environment.studio_process->0.pid != bound_process {
            Err(LaunchRefusal::ProcessMismatch)
        } else if environment.mcp_launcher is None {
            Err(LaunchRefusal::LaunchUnavailable)
        } else if !launcher_is_file {
            Err(LaunchRefusal::LauncherMissing)
        } else if (environment.mcp_launcher->0.target_executable matches Some(t) && t.host is Some) && !target_is_file {
            Err(LaunchRefusal::TargetMissing)
        } else {
            Ok::<(), LaunchRefusal>(())
        },
{
    if !bound_environment.same(&environment.id) {
        return Err(LaunchRefusal::EnvironmentMismatch);
    }
    let process = match &environment.studio_process {
        Some(p) => p,
        None => { return Err(LaunchRefusal::StudioNotRunning); },
    };
    if process.pid != bound_process {
        return Err(LaunchRefusal::ProcessMismatch);
    }
    let launcher = match &environment.mcp_launcher {
        Some(l) => l,
        None => { return Err(LaunchRefusal::LaunchUnavailable); },
    };
    if !launcher_is_file {
        return Err(LaunchRefusal::LauncherMissing);
    }
    let has_target = match &launcher.target_executable {
        Some(t) => t.host.is_some(),
        None => false,
    };
    if has_target && !target_is_file {
        return Err(LaunchRefusal::TargetMissing);
    }
    Ok(())
}

} // verus!

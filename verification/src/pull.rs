//! The decision of a Studio pull: what the destination holds decides which
//! files are new, which changed, which would be overwritten, and whether the
//! pull writes.
use vstd::prelude::*;

verus! {

/// What the destination holds at a file's local path.
#[derive(Clone, Copy, Debug, Eq, PartialEq, Structural)]
pub enum DestinationState {
    /// No file there yet.
    Missing,
    /// A file with the same source.
    Same,
    /// A file with other content.
    Different,
    /// The file could not be read.
    Unreadable,
}

/// What the pull does after comparing.
#[derive(Clone, Copy, Debug, Eq, PartialEq, Structural)]
pub enum PullOutcome {
    /// Files would be overwritten: nothing is written and the conflicts are
    /// reported.
    Conflict,
    /// Only a report; nothing is written.
    DryRun,
    /// The files and `place.json` are written.
    Write,
}

#[derive(Clone, Debug, Eq, PartialEq)]
pub struct PullPlan {
    pub new_files: u64,
    pub changed_files: u64,
    /// Positions of the files that would be overwritten.
    pub conflicts: Vec<usize>,
    /// Whether an existing `place.json` would be overwritten.
    pub place_conflict: bool,
    pub outcome: PullOutcome,
}

pub open spec fn count_state(s: Seq<DestinationState>, state: DestinationState) -> nat
    decreases s.len(),
{
    if s.len() == 0 { 0 } else { count_state(s.drop_last(), state) + if s.last() == state { 1nat } else { 0nat } }
}

/// The positions of the files with other content.
pub open spec fn different_positions(s: Seq<DestinationState>) -> Seq<usize>
    decreases s.len(),
{
    if s.len() == 0 {
        Seq::empty()
    } else if s.last() == DestinationState::Different {
        different_positions(s.drop_last()).push((s.len() - 1) as usize)
    } else {
        different_positions(s.drop_last())
    }
}

/// The first position whose file could not be read.
pub open spec fn first_unreadable(s: Seq<DestinationState>) -> Option<int>
    decreases s.len(),
{
    if s.len() == 0 {
        None
    } else {
        match first_unreadable(s.drop_last()) {
            Some(i) => Some(i),
            None => if s.last() == DestinationState::Unreadable { Some(s.len() - 1) } else { None },
        }
    }
}

/// Compares what Studio holds with the destination. A file that cannot be
/// read stops the pull with its position. Otherwise missing files are new,
/// files with other content are changed and, without `force`, conflicts;
/// an existing `place.json` is a conflict without `force`. With conflicts
/// and no dry run nothing is written.
pub fn pull_plan(states: &Vec<DestinationState>, place_json_exists: bool, force: bool, dry_run: bool) -> (r: Result<PullPlan, usize>)
    ensures
        match first_unreadable(states@) {
            Some(i) => r == Err::<PullPlan, usize>(i as usize),
            None => r matches Ok(plan) && {
                &&& plan.new_files == count_state(states@, DestinationState::Missing)
                &&& plan.changed_files == count_state(states@, DestinationState::Different)
                &&& plan.conflicts@ == if force { Seq::empty() } else { different_positions(states@) }
                &&& plan.place_conflict == (place_json_exists && !force)
                &&& plan.outcome == if (plan.conflicts@.len() > 0 || plan.place_conflict) && !dry_run {
                        PullOutcome::Conflict
                    } else if dry_run {
                        PullOutcome::DryRun
                    } else {
                        PullOutcome::Write
                    }
            },
        },
{
    let mut new_files: u64 = 0;
    let mut changed_files: u64 = 0;
    let mut changed: Vec<usize> = Vec::new();
    let mut i: usize = 0;
    while i < states.len()
        invariant
            i <= states@.len(),
            first_unreadable(states@.subrange(0, i as int)) is None,
            new_files == count_state(states@.subrange(0, i as int), DestinationState::Missing),
            changed_files == count_state(states@.subrange(0, i as int), DestinationState::Different),
            changed@ == different_positions(states@.subrange(0, i as int)),
            new_files <= i,
            changed_files <= i,
        decreases states@.len() - i,
    {
        let ghost prefix = states@.subrange(0, i as int);
        proof {
            assert(states@.subrange(0, i + 1).drop_last() =~= prefix);
            assert(states@.subrange(0, i + 1).last() == states@[i as int]);
        }
        match states[i] {
            DestinationState::Unreadable => {
                proof { lemma_first_unreadable_extends(states@, i as int); }
                return Err(i);
            },
            DestinationState::Missing => { new_files = new_files + 1; },
            DestinationState::Different => {
                changed_files = changed_files + 1;
                changed.push(i);
            },
            DestinationState::Same => {},
        }
        i = i + 1;
    }
    proof { assert(states@.subrange(0, states@.len() as int) =~= states@); }
    let conflicts = if force { Vec::new() } else { changed };
    let place_conflict = place_json_exists && !force;
    let outcome = if (conflicts.len() > 0 || place_conflict) && !dry_run {
        PullOutcome::Conflict
    } else if dry_run {
        PullOutcome::DryRun
    } else {
        PullOutcome::Write
    };
    Ok(PullPlan { new_files, changed_files, conflicts, place_conflict, outcome })
}

proof fn lemma_first_unreadable_extends(s: Seq<DestinationState>, i: int)
    requires
        0 <= i < s.len(),
        s[i] == DestinationState::Unreadable,
        first_unreadable(s.subrange(0, i)) is None,
    ensures
        first_unreadable(s) == Some(i),
{
    lemma_first_unreadable_prefix(s, i + 1);
    assert(s.subrange(0, i + 1).drop_last() =~= s.subrange(0, i));
}

/// Once a prefix has an unreadable file, every longer prefix names the same.
proof fn lemma_first_unreadable_prefix(s: Seq<DestinationState>, n: int)
    requires
        0 <= n <= s.len(),
        first_unreadable(s.subrange(0, n)) is Some,
    ensures
        first_unreadable(s) == first_unreadable(s.subrange(0, n)),
    decreases s.len() - n,
{
    if n < s.len() {
        assert(s.subrange(0, n + 1).drop_last() =~= s.subrange(0, n));
        lemma_first_unreadable_prefix(s, n + 1);
    } else {
        assert(s.subrange(0, n) =~= s);
    }
}

} // verus!

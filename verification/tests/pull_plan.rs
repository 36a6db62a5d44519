use lattice::pull::{pull_plan, DestinationState, PullOutcome};

#[test]
fn pull_counts_new_and_changed_files_and_reports_conflicts() {
    let states = vec![DestinationState::Missing, DestinationState::Different, DestinationState::Same, DestinationState::Different];
    let plan = pull_plan(&states, true, false, false).expect("readable");
    assert_eq!(plan.new_files, 1);
    assert_eq!(plan.changed_files, 2);
    assert_eq!(plan.conflicts, vec![1, 3]);
    assert!(plan.place_conflict);
    assert_eq!(plan.outcome, PullOutcome::Conflict);
    let dry = pull_plan(&states, true, false, true).expect("readable");
    assert_eq!(dry.outcome, PullOutcome::DryRun);
    assert_eq!(dry.conflicts, vec![1, 3]);
    let forced = pull_plan(&states, true, true, false).expect("readable");
    assert!(forced.conflicts.is_empty() && !forced.place_conflict);
    assert_eq!(forced.outcome, PullOutcome::Write);
    assert_eq!(forced.changed_files, 2);
}

#[test]
fn unreadable_destination_stops_the_pull() {
    let states = vec![DestinationState::Same, DestinationState::Unreadable, DestinationState::Unreadable];
    assert_eq!(pull_plan(&states, false, true, false), Err(1));
    let clean = pull_plan(&vec![DestinationState::Same], false, false, false).expect("readable");
    assert_eq!(clean.outcome, PullOutcome::Write);
}

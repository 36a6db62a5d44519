use lattice::storage::{next_source_revision, SourceRevision};

#[test]
fn source_revisions_advance_only_on_changed_content() {
    assert_eq!(next_source_revision(None, "b3:aa"), SourceRevision { revision: 1, changed: true });
    assert_eq!(next_source_revision(Some((4, "b3:aa")), "b3:aa"), SourceRevision { revision: 4, changed: false });
    assert_eq!(next_source_revision(Some((4, "b3:aa")), "b3:bb"), SourceRevision { revision: 5, changed: true });
    assert_eq!(next_source_revision(Some((u64::MAX, "b3:aa")), "b3:bb"), SourceRevision { revision: u64::MAX, changed: true });
}

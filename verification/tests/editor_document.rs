use lattice::editor::document::{
    CaretMovement, Document, EditOperation, EditTransaction, Editor, EditorError, EditorSelection,
};

fn transaction(document: &Document, operation: EditOperation) -> EditTransaction {
    EditTransaction {
        base_revision: document.revision(),
        operations: vec![operation],
        before_selection: document.selection(),
        after_selection: EditorSelection::caret(1),
    }
}

#[test]
fn rope_edit_does_not_require_full_document_replacement() {
    let mut document = Document::new(7, "alpha\nbeta\n", false);
    let result =
        document.apply_transaction(transaction(&document, EditOperation::replace(6, 10, "gamma")));
    assert!(result.is_ok());
    assert_eq!(document.text(), "alpha\ngamma\n");
    assert_eq!(document.revision(), 1);
    assert!(document.is_modified());
}

#[test]
fn undo_redo_restore_exact_unicode_content() {
    let mut document = Document::new(1, "🙂 café\n", false);
    let start = "🙂 ".len();
    let end = start + "café".len();
    let result = document.apply_transaction(EditTransaction {
        base_revision: 0,
        operations: vec![EditOperation::replace(start, end, "世界")],
        before_selection: EditorSelection::caret(start),
        after_selection: EditorSelection::caret(start + "世界".len()),
    });
    assert!(result.is_ok());
    assert_eq!(document.text(), "🙂 世界\n");
    assert!(document.undo().is_ok());
    assert_eq!(document.text(), "🙂 café\n");
    assert!(document.redo().is_ok());
    assert_eq!(document.text(), "🙂 世界\n");
}

#[test]
fn viewport_is_bounded_and_serializable() {
    let document = Document::new(5, "one\ntwo\nthree\n", false);
    let snapshot = document.viewport(1, 1);
    assert_eq!(snapshot.lines.len(), 1);
    assert_eq!(snapshot.lines[0].text, "two");
    // The final empty line after a trailing newline counts as a line.
    assert_eq!(snapshot.total_lines, 4);
}

#[test]
fn invalid_utf8_boundary_is_rejected() {
    let mut document = Document::new(1, "🙂", false);
    let result = document.apply_transaction(EditTransaction {
        base_revision: 0,
        operations: vec![EditOperation::replace(1, 1, "x")],
        before_selection: EditorSelection::caret(0),
        after_selection: EditorSelection::caret(1),
    });
    assert!(matches!(result, Err(EditorError::InvalidUtf8Boundary(1))));
}

#[test]
fn read_only_documents_refuse_edits() {
    let mut document = Document::new(2, "fixed", true);
    let result = document.apply_transaction(transaction(&document, EditOperation::replace(0, 1, "F")));
    assert_eq!(result, Err(EditorError::ReadOnly));
    assert_eq!(document.text(), "fixed");
    assert_eq!(document.undo(), Err(EditorError::ReadOnly));
}

#[test]
fn stale_revisions_conflict() {
    let mut document = Document::new(3, "abc", false);
    let mut stale = transaction(&document, EditOperation::replace(0, 1, "x"));
    stale.base_revision = 9;
    assert_eq!(
        document.apply_transaction(stale),
        Err(EditorError::RevisionConflict { expected: 9, actual: 0 })
    );
    assert_eq!(document.revision(), 0);
}

#[test]
fn ranges_outside_the_document_are_rejected() {
    let mut document = Document::new(3, "abc", false);
    let result = document.apply_transaction(transaction(&document, EditOperation::replace(2, 9, "")));
    assert_eq!(result, Err(EditorError::InvalidRange { start_byte: 2, end_byte: 9, length: 3 }));
    let reversed = document.apply_transaction(transaction(&document, EditOperation::replace(2, 1, "")));
    assert!(matches!(reversed, Err(EditorError::InvalidRange { .. })));
    assert_eq!(document.text(), "abc");
}

#[test]
fn several_operations_apply_in_one_revision_and_undo_together() {
    let mut document = Document::new(4, "one two three", false);
    let result = document.apply_transaction(EditTransaction {
        base_revision: 0,
        operations: vec![EditOperation::replace(0, 3, "1"), EditOperation::replace(8, 13, "3")],
        before_selection: EditorSelection::caret(0),
        after_selection: EditorSelection::caret(0),
    });
    assert_eq!(result, Ok(()));
    assert_eq!(document.text(), "1 two 3");
    assert_eq!(document.revision(), 1);
    assert_eq!(document.undo(), Ok(()));
    assert_eq!(document.text(), "one two three");
    assert_eq!(document.undo(), Err(EditorError::NoUndo));
    assert_eq!(document.redo(), Ok(()));
    assert_eq!(document.redo(), Err(EditorError::NoRedo));
}

#[test]
fn a_new_edit_clears_redo_history() {
    let mut document = Document::new(4, "ab", false);
    document.apply_transaction(transaction(&document, EditOperation::replace(0, 1, "x"))).unwrap();
    document.undo().unwrap();
    document.apply_transaction(transaction(&document, EditOperation::replace(1, 2, "y"))).unwrap();
    assert_eq!(document.text(), "ay");
    assert_eq!(document.redo(), Err(EditorError::NoRedo));
}

#[test]
fn mark_clean_tracks_the_saved_revision() {
    let mut document = Document::new(4, "ab", false);
    assert!(!document.is_modified());
    document.apply_transaction(transaction(&document, EditOperation::replace(0, 1, "x"))).unwrap();
    assert!(document.is_modified());
    assert_eq!(document.mark_clean(1), Ok(()));
    assert!(!document.is_modified());
    assert!(document.mark_clean(7).is_err());
}

#[test]
fn caret_moves_by_characters_and_lines() {
    let mut document = Document::new(5, "🙂a\nbc\r\nd", false);
    assert_eq!(document.set_selection(EditorSelection::caret(0)), Ok(()));
    document.move_caret(CaretMovement::Right).unwrap();
    assert_eq!(document.selection(), EditorSelection::caret(4));
    document.move_caret(CaretMovement::Right).unwrap();
    assert_eq!(document.selection(), EditorSelection::caret(5));
    document.move_caret(CaretMovement::Left).unwrap();
    assert_eq!(document.selection(), EditorSelection::caret(4));
    document.move_caret(CaretMovement::Home).unwrap();
    assert_eq!(document.selection(), EditorSelection::caret(0));
    document.set_selection(EditorSelection::caret(7)).unwrap();
    document.move_caret(CaretMovement::End).unwrap();
    assert_eq!(document.selection(), EditorSelection::caret(8));
    document.move_caret(CaretMovement::Home).unwrap();
    assert_eq!(document.selection(), EditorSelection::caret(6));
    document.set_selection(EditorSelection { anchor: 2 + 4, head: 4 }).unwrap();
    document.move_caret(CaretMovement::Left).unwrap();
    assert_eq!(document.selection(), EditorSelection::caret(4));
}

#[test]
fn selections_must_fall_on_boundaries() {
    let mut document = Document::new(5, "🙂", false);
    assert_eq!(document.set_selection(EditorSelection::caret(2)), Err(EditorError::InvalidUtf8Boundary(2)));
    assert!(document.set_selection(EditorSelection::caret(9)).is_err());
}

#[test]
fn typing_and_deleting_follow_the_caret() {
    let mut document = Document::new(6, "héllo", false);
    document.set_selection(EditorSelection::caret(3)).unwrap();
    document.delete_backward().unwrap();
    assert_eq!(document.text(), "hllo");
    assert_eq!(document.selection(), EditorSelection::caret(1));
    document.insert_text("e").unwrap();
    assert_eq!(document.text(), "hello");
    assert_eq!(document.selection(), EditorSelection::caret(2));
    document.delete_forward().unwrap();
    assert_eq!(document.text(), "helo");
    document.set_selection(EditorSelection { anchor: 0, head: 2 }).unwrap();
    assert_eq!(document.selected_text(), "he");
}

#[test]
fn viewport_reports_lines_with_their_offsets() {
    let document = Document::new(5, "one\ntwo\nthree\n", false);
    let snapshot = document.viewport(0, 2);
    let texts: Vec<&str> = snapshot.lines.iter().map(|line| line.text.as_str()).collect();
    assert_eq!(texts, vec!["one", "two", "three"]);
    assert_eq!(snapshot.lines[2].start_byte, 8);
    assert_eq!(snapshot.lines[2].number, 3);
    assert_eq!(snapshot.total_bytes, 14);
}

#[test]
fn content_hash_changes_with_the_text() {
    let mut document = Document::new(8, "abc", false);
    let before = document.content_hash();
    assert_eq!(before, *blake3::hash(b"abc").as_bytes());
    document.apply_transaction(transaction(&document, EditOperation::replace(0, 1, "x"))).unwrap();
    assert_ne!(document.content_hash(), before);
}

#[test]
fn editor_documents_are_unique_by_id() {
    let mut editor = Editor::new();
    assert_eq!(editor.open_document(1, "a", false), Ok(()));
    assert_eq!(editor.open_document(1, "b", false), Err(EditorError::DocumentExists(1)));
    assert_eq!(editor.document(1).map(|document| document.text()), Ok("a".to_owned()));
    editor.document_mut(1).unwrap().insert_text("z").unwrap();
    assert_eq!(editor.document(1).map(|document| document.text()), Ok("za".to_owned()));
    assert_eq!(editor.close_document(1), Ok(()));
    assert_eq!(editor.close_document(1), Err(EditorError::DocumentNotFound(1)));
    assert!(matches!(editor.document(1), Err(EditorError::DocumentNotFound(1))));
}

#[test]
fn editor_errors_read_as_sentences() {
    assert_eq!(EditorError::ReadOnly.to_text(), "document is read-only");
    assert_eq!(
        EditorError::RevisionConflict { expected: 1, actual: 2 }.to_text(),
        "revision conflict: expected 1, actual 2"
    );
    assert_eq!(EditorError::InvalidUtf8Boundary(3).to_text(), "offset 3 is not a UTF-8 boundary");
}

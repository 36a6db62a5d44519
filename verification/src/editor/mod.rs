//! Document-local editor state: text in a rope, selections, transactions
//! with undo and redo, and bounded viewport snapshots.
pub mod rope;
pub mod edits;
pub mod document;

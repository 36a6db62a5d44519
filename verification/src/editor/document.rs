//! Documents: text in a rope, a selection, revisions, transactions of
//! byte-range edits, and undo and redo.
use vstd::prelude::*;
use crate::editor::edits::{between, lemma_run_concat, lemma_run_first_fault, lemma_splice_boundaries, offset_fault, run_operations, run_replacements, splice, with_prefix, EditRun, OffsetFault, Replacement, RunFault};
use vstd::utf8::encode_utf8;
use crate::digest::{blake3_digest, blake3_hash};
use crate::hex::{hex_of, push_hex};
use crate::text::{chars_of, decimal, push_decimal, push_str, string_from_chars};
use crate::editor::rope::{char_at_byte, lemma_char_at_byte, lemma_char_at_byte_monotone, ropey_line_of, ropey_line_start, ropey_len_lines, rope_char_to_line, rope_line_text, rope_line_to_char, rope_len_lines, rope_string, byte_len, char_index, is_boundary, lemma_char_index, lemma_prefix_bytes_increase, rope_byte_to_char, rope_char_to_byte, rope_from_str, rope_insert, rope_len_bytes, rope_remove, rope_slice_text, rope_text};

verus! {

pub type EditorDocumentId = u64;

pub type EditorRevision = u64;

#[derive(Clone, Copy, Debug, PartialEq, Eq, Structural)]
pub struct ByteOffset(pub usize);

#[derive(Clone, Copy, Debug, PartialEq, Eq, Structural)]
pub struct EditorSelection {
    pub anchor: usize,
    pub head: usize,
}

impl EditorSelection {
    pub open spec fn start_spec(self) -> usize {
        if self.anchor < self.head { self.anchor } else { self.head }
    }

    pub open spec fn end_spec(self) -> usize {
        if self.anchor > self.head { self.anchor } else { self.head }
    }

    pub open spec fn caret_spec(offset: usize) -> EditorSelection {
        EditorSelection { anchor: offset, head: offset }
    }

    /// An empty selection at `offset`.
    pub fn caret(offset: usize) -> (r: EditorSelection)
        ensures
            r == (EditorSelection { anchor: offset, head: offset }),
    {
        EditorSelection { anchor: offset, head: offset }
    }

    /// The lower end of the selection.
    pub fn start(self) -> (r: usize)
        ensures
            r == self.start_spec(),
    {
        if self.anchor < self.head { self.anchor } else { self.head }
    }

    /// The upper end of the selection.
    pub fn end(self) -> (r: usize)
        ensures
            r == self.end_spec(),
    {
        if self.anchor > self.head { self.anchor } else { self.head }
    }
}

/// Replace the bytes `start_byte..end_byte` by `inserted`.
#[derive(Clone, Debug, PartialEq, Eq)]
pub struct EditOperation {
    pub start_byte: usize,
    pub end_byte: usize,
    pub inserted: String,
}

impl EditOperation {
    pub fn replace(start_byte: usize, end_byte: usize, inserted: &str) -> (r: EditOperation)
        ensures
            r.start_byte == start_byte,
            r.end_byte == end_byte,
            r.inserted@ == inserted@,
    {
        EditOperation { start_byte, end_byte, inserted: inserted.to_owned() }
    }
}

#[derive(Clone, Debug, PartialEq, Eq)]
pub struct EditTransaction {
    pub base_revision: EditorRevision,
    pub operations: Vec<EditOperation>,
    pub before_selection: EditorSelection,
    pub after_selection: EditorSelection,
}

/// One applied edit as history keeps it.
#[derive(Debug, PartialEq, Eq)]
pub struct AppliedEdit {
    pub start_byte: usize,
    pub deleted: String,
    pub inserted: String,
}

/// One undoable transaction.
#[derive(Debug, PartialEq, Eq)]
pub struct HistoryEntry {
    pub edits: Vec<AppliedEdit>,
    pub before_selection: EditorSelection,
    pub after_selection: EditorSelection,
}

#[derive(Clone, Debug, PartialEq, Eq)]
pub enum EditorError {
    DocumentExists(EditorDocumentId),
    DocumentNotFound(EditorDocumentId),
    ReadOnly,
    RevisionConflict { expected: EditorRevision, actual: EditorRevision },
    InvalidRange { start_byte: usize, end_byte: usize, length: usize },
    InvalidUtf8Boundary(usize),
    InvalidEdit(String),
    NoUndo,
    NoRedo,
}

/// The error a fault of an edit run is reported as.
pub open spec fn fault_error(f: RunFault) -> EditorError {
    match f {
        RunFault::Offset(OffsetFault::OutOfRange { offset, length }) => EditorError::InvalidRange {
            start_byte: offset,
            end_byte: offset,
            length: length as usize,
        },
        RunFault::Offset(OffsetFault::NotBoundary(offset)) => EditorError::InvalidUtf8Boundary(offset),
        RunFault::Range { start_byte, end_byte, length } => EditorError::InvalidRange {
            start_byte,
            end_byte,
            length: length as usize,
        },
    }
}

/// `x` placed after every operation of `s` (ordered by descending start)
/// whose start is at least its own.
pub open spec fn insert_by_start(s: Seq<EditOperation>, x: EditOperation) -> Seq<EditOperation>
    decreases s.len(),
{
    if s.len() == 0 {
        seq![x]
    } else if s.last().start_byte >= x.start_byte {
        s.push(x)
    } else {
        insert_by_start(s.drop_last(), x).push(s.last())
    }
}

/// The operations ordered by descending start, ties in their given order.
pub open spec fn by_descending_start(ops: Seq<EditOperation>) -> Seq<EditOperation>
    decreases ops.len(),
{
    if ops.len() == 0 {
        ops
    } else {
        insert_by_start(by_descending_start(ops.drop_last()), ops.last())
    }
}

proof fn lemma_insert_by_start(s: Seq<EditOperation>, x: EditOperation, p: int)
    requires
        0 <= p <= s.len(),
        forall|i: int| p <= i < s.len() ==> (#[trigger] s[i]).start_byte < x.start_byte,
        p > 0 ==> s[p - 1].start_byte >= x.start_byte,
    ensures
        insert_by_start(s, x) == s.take(p) + seq![x] + s.skip(p),
    decreases s.len(),
{
    if s.len() == 0 {
        assert(s.take(p) + seq![x] + s.skip(p) =~= seq![x]);
    } else if s.last().start_byte >= x.start_byte {
        assert(p == s.len());
        assert(s.take(p) + seq![x] + s.skip(p) =~= s.push(x));
    } else {
        let init = s.drop_last();
        lemma_insert_by_start(init, x, p);
        assert(init.take(p) + seq![x] + init.skip(p) + seq![s.last()] =~= s.take(p) + seq![x] + s.skip(p));
    }
}

/// The operations ordered by descending start, ties in their given order.
fn sort_by_descending_start(ops: Vec<EditOperation>) -> (r: Vec<EditOperation>)
    ensures
        r@ == by_descending_start(ops@),
{
    let ghost orig = ops@;
    let mut rest = ops;
    let mut sorted: Vec<EditOperation> = Vec::new();
    let ghost mut k: int = 0;
    proof { assert(orig.take(0) =~= Seq::<EditOperation>::empty()); }
    while rest.len() > 0
        invariant
            0 <= k <= orig.len(),
            rest@ == orig.skip(k),
            sorted@ == by_descending_start(orig.take(k)),
        decreases rest@.len(),
    {
        let op = rest.remove(0);
        let mut pos = sorted.len();
        while pos > 0 && sorted[pos - 1].start_byte < op.start_byte
            invariant
                pos <= sorted@.len(),
                forall|i: int| pos <= i < sorted@.len() ==> (#[trigger] sorted@[i]).start_byte < op.start_byte,
            decreases pos,
        {
            pos = pos - 1;
        }
        let ghost before = sorted@;
        proof {
            lemma_insert_by_start(before, op, pos as int);
            assert(orig.take(k + 1).drop_last() =~= orig.take(k));
            assert(orig.take(k + 1).last() == op);
        }
        sorted.insert(pos, op);
        proof {
            assert(sorted@ =~= before.take(pos as int) + seq![op] + before.skip(pos as int));
            k = k + 1;
            assert(rest@ =~= orig.skip(k));
        }
    }
    proof { assert(orig.take(k) =~= orig); }
    sorted
}


/// A boundary found by the rope's byte-to-char conversion is the boundary's index.
proof fn lemma_boundary_index(t: Seq<char>, b: int, k: int)
    requires
        is_boundary(t, b),
        0 <= k <= t.len(),
        byte_len(t.take(k)) <= b,
        k < t.len() ==> b < byte_len(t.take(k + 1)),
    ensures
        char_index(t, b) == k,
{
    let j = char_index(t, b);
    if j < k {
        lemma_prefix_bytes_increase(t, j, k);
    } else if j > k {
        if j > k + 1 {
            lemma_prefix_bytes_increase(t, k + 1, j);
        }
    }
}

/// Boundaries in order have char indices in order.
proof fn lemma_boundaries_ordered(t: Seq<char>, b1: int, b2: int)
    requires
        is_boundary(t, b1),
        is_boundary(t, b2),
        b1 <= b2,
    ensures
        0 <= char_index(t, b1) <= char_index(t, b2) <= t.len(),
{
    let c1 = char_index(t, b1);
    let c2 = char_index(t, b2);
    if c1 > c2 {
        lemma_prefix_bytes_increase(t, c2, c1);
    }
}

pub struct Document {
    id: EditorDocumentId,
    rope: ropey::Rope,
    revision: EditorRevision,
    clean_revision: EditorRevision,
    read_only: bool,
    selection: EditorSelection,
    cached_content_hash: Option<[u8; 32]>,
    undo: Vec<HistoryEntry>,
    redo: Vec<HistoryEntry>,
}

/// The history entry recorded for operations `ops` whose run removed `deleted`.
pub open spec fn records(e: HistoryEntry, ops: Seq<EditOperation>, deleted: Seq<Seq<char>>, before: EditorSelection, after: EditorSelection) -> bool {
    &&& e.edits@.len() == ops.len()
    &&& deleted.len() == ops.len()
    &&& forall|i: int| 0 <= i < ops.len() ==> {
        &&& (#[trigger] e.edits@[i]).start_byte == ops[i].start_byte
        &&& e.edits@[i].deleted@ == deleted[i]
        &&& e.edits@[i].inserted == ops[i].inserted
    }
    &&& e.before_selection == before
    &&& e.after_selection == after
}

impl Document {
    pub closed spec fn id_spec(&self) -> EditorDocumentId {
        self.id
    }

    /// The document's text.
    pub closed spec fn content(&self) -> Seq<char> {
        rope_text(self.rope)
    }

    pub closed spec fn revision_spec(&self) -> EditorRevision {
        self.revision
    }

    pub closed spec fn clean_revision_spec(&self) -> EditorRevision {
        self.clean_revision
    }

    pub closed spec fn read_only_spec(&self) -> bool {
        self.read_only
    }

    pub closed spec fn selection_spec(&self) -> EditorSelection {
        self.selection
    }

    /// The digest last computed of the content, if no edit came since.
    pub closed spec fn cached_hash_spec(&self) -> Option<[u8; 32]> {
        self.cached_content_hash
    }

    pub closed spec fn undo_spec(&self) -> Seq<HistoryEntry> {
        self.undo@
    }

    pub closed spec fn redo_spec(&self) -> Seq<HistoryEntry> {
        self.redo@
    }

    /// The same document with another selection.
    pub closed spec fn with_selection(self, selection: EditorSelection) -> Document {
        Document { selection, ..self }
    }

    /// The same document with another clean revision.
    pub closed spec fn with_clean_revision(self, revision: EditorRevision) -> Document {
        Document { clean_revision: revision, ..self }
    }

    /// A document holding `source`, unmodified, with the caret at the start.
    pub fn new(id: EditorDocumentId, source: &str, read_only: bool) -> (r: Document)
        ensures
            r.id_spec() == id,
            r.content() == source@,
            r.revision_spec() == 0,
            r.clean_revision_spec() == 0,
            r.read_only_spec() == read_only,
            r.selection_spec() == EditorSelection::caret_spec(0),
            r.cached_hash_spec() matches Some(h) && h@ == blake3_digest(encode_utf8(source@)),
            r.undo_spec().len() == 0,
            r.redo_spec().len() == 0,
    {
        let rope = rope_from_str(source);
        let hash = blake3_hash(source.as_bytes());
        Document {
            id,
            rope,
            revision: 0,
            clean_revision: 0,
            read_only,
            selection: EditorSelection::caret(0),
            cached_content_hash: Some(hash),
            undo: Vec::new(),
            redo: Vec::new(),
        }
    }

    pub fn id(&self) -> (r: EditorDocumentId)
        ensures
            r == self.id_spec(),
    {
        self.id
    }

    pub fn revision(&self) -> (r: EditorRevision)
        ensures
            r == self.revision_spec(),
    {
        self.revision
    }

    pub fn is_read_only(&self) -> (r: bool)
        ensures
            r == self.read_only_spec(),
    {
        self.read_only
    }

    /// Whether the revision differs from the one last marked clean.
    pub fn is_modified(&self) -> (r: bool)
        ensures
            r == (self.revision_spec() != self.clean_revision_spec()),
    {
        self.revision != self.clean_revision
    }

    pub fn selection(&self) -> (r: EditorSelection)
        ensures
            r == self.selection_spec(),
    {
        self.selection
    }

    /// The char index of a byte offset that is a boundary of the text.
    fn ensure_boundary(&self, offset: usize) -> (r: Result<usize, EditorError>)
        ensures
            match offset_fault(self.content(), offset) {
                Some(f) => r == Err::<usize, EditorError>(fault_error(RunFault::Offset(f))),
                None => r is Ok && r->Ok_0 as int == char_index(self.content(), offset as int)
                    && char_index(self.content(), offset as int) <= self.content().len(),
            },
    {
        let ghost t = self.content();
        let length = rope_len_bytes(&self.rope);
        if offset > length {
            return Err(EditorError::InvalidRange { start_byte: offset, end_byte: offset, length });
        }
        let char_index_found = match rope_byte_to_char(&self.rope, offset) {
            Some(c) => c,
            None => {
                return Err(EditorError::InvalidUtf8Boundary(offset));
            },
        };
        let canonical = match rope_char_to_byte(&self.rope, char_index_found) {
            Some(b) => b,
            None => {
                return Err(EditorError::InvalidUtf8Boundary(offset));
            },
        };
        if canonical != offset {
            proof {
                if is_boundary(t, offset as int) {
                    lemma_boundary_index(t, offset as int, char_index_found as int);
                }
            }
            return Err(EditorError::InvalidUtf8Boundary(offset));
        }
        proof {
            lemma_char_index(t, char_index_found as int);
        }
        Ok(char_index_found)
    }

    /// Selects `anchor..head`; both ends must be boundaries of the text.
    pub fn set_selection(&mut self, selection: EditorSelection) -> (r: Result<(), EditorError>)
        ensures
            ({
                let t = old(self).content();
                let len = byte_len(t);
                if selection.anchor > len || selection.head > len {
                    r == Err::<(), EditorError>(EditorError::InvalidRange {
                        start_byte: selection.start_spec(),
                        end_byte: selection.end_spec(),
                        length: len as usize,
                    }) && *final(self) == *old(self)
                } else if offset_fault(t, selection.anchor) is Some {
                    r == Err::<(), EditorError>(fault_error(RunFault::Offset(offset_fault(t, selection.anchor)->0)))
                        && *final(self) == *old(self)
                } else if offset_fault(t, selection.head) is Some {
                    r == Err::<(), EditorError>(fault_error(RunFault::Offset(offset_fault(t, selection.head)->0)))
                        && *final(self) == *old(self)
                } else {
                    r is Ok && *final(self) == old(self).with_selection(selection)
                }
            }),
    {
        let length = rope_len_bytes(&self.rope);
        if selection.anchor > length || selection.head > length {
            return Err(EditorError::InvalidRange { start_byte: selection.start(), end_byte: selection.end(), length });
        }
        if let Err(e) = self.ensure_boundary(selection.anchor) {
            return Err(e);
        }
        if let Err(e) = self.ensure_boundary(selection.head) {
            return Err(e);
        }
        self.selection = selection;
        Ok(())
    }

    /// Marks the current revision as saved.
    pub fn mark_clean(&mut self, revision: EditorRevision) -> (r: Result<(), EditorError>)
        ensures
            revision != old(self).revision_spec() ==> r == Err::<(), EditorError>(EditorError::RevisionConflict {
                expected: old(self).revision_spec(),
                actual: revision,
            }) && *final(self) == *old(self),
            revision == old(self).revision_spec() ==> r is Ok && *final(self) == old(self).with_clean_revision(revision),
    {
        if revision != self.revision {
            return Err(EditorError::RevisionConflict { expected: self.revision, actual: revision });
        }
        self.clean_revision = revision;
        Ok(())
    }
}

/// What applying a transaction does: a read-only document and a stale base
/// revision refuse it; otherwise the operations run from the highest start
/// down. A fault stops the run where it is met, the edits before it staying
/// in the text; a complete non-empty run becomes one undoable entry.
pub open spec fn apply_outcome(d: Document, tx: EditTransaction, e: Document, r: Result<(), EditorError>) -> bool {
    transaction_outcome(d, tx.base_revision, tx.operations@, tx.before_selection, tx.after_selection, e, r)
}

/// What applying a transaction with these parts does.
pub open spec fn transaction_outcome(
    d: Document,
    base_revision: EditorRevision,
    operations: Seq<EditOperation>,
    before: EditorSelection,
    after: EditorSelection,
    e: Document,
    r: Result<(), EditorError>,
) -> bool {
    if d.read_only_spec() {
        r == Err::<(), EditorError>(EditorError::ReadOnly) && e == d
    } else if base_revision != d.revision_spec() {
        r == Err::<(), EditorError>(EditorError::RevisionConflict { expected: base_revision, actual: d.revision_spec() }) && e == d
    } else {
        let ops = by_descending_start(operations);
        let run = run_operations(d.content(), ops, byte_len(d.content()) as int);
        &&& e.content() == run.text
        &&& e.id_spec() == d.id_spec()
        &&& e.read_only_spec() == d.read_only_spec()
        &&& e.clean_revision_spec() == d.clean_revision_spec()
        &&& if run.fault is Some || ops.len() == 0 {
            &&& r == if run.fault is Some { Err::<(), EditorError>(fault_error(run.fault->0)) } else { Ok::<(), EditorError>(()) }
            &&& e.revision_spec() == d.revision_spec()
            &&& e.selection_spec() == d.selection_spec()
            &&& e.cached_hash_spec() == d.cached_hash_spec()
            &&& e.undo_spec() == d.undo_spec()
            &&& e.redo_spec() == d.redo_spec()
        } else {
            &&& r is Ok
            &&& run.fits
            &&& e.revision_spec() == (if d.revision_spec() == u64::MAX { u64::MAX } else { (d.revision_spec() + 1) as u64 })
            &&& e.selection_spec() == after
            &&& e.cached_hash_spec() is None
            &&& e.undo_spec().len() == d.undo_spec().len() + 1
            &&& e.undo_spec().take(d.undo_spec().len() as int) == d.undo_spec()
            &&& records(e.undo_spec().last(), ops, run.deleted, before, after)
            &&& e.redo_spec().len() == 0
        }
    }
}

impl Document {
    /// Applies a transaction of byte-range edits made against this revision.
    pub fn apply_transaction(&mut self, transaction: EditTransaction) -> (r: Result<(), EditorError>)
        ensures
            apply_outcome(*old(self), transaction, *final(self), r),
    {
        if self.read_only {
            return Err(EditorError::ReadOnly);
        }
        if transaction.base_revision != self.revision {
            return Err(EditorError::RevisionConflict { expected: transaction.base_revision, actual: self.revision });
        }
        let ghost tx = transaction;
        let ghost t0 = self.content();
        let EditTransaction { base_revision, operations, before_selection, after_selection } = transaction;
        let sorted = sort_by_descending_start(operations);
        let ghost ops = sorted@;
        let total = sorted.len();
        let mut rest = sorted;
        let mut applied: Vec<AppliedEdit> = Vec::new();
        let mut bound = rope_len_bytes(&self.rope);
        let ghost mut dels: Seq<Seq<char>> = Seq::empty();
        let ghost mut k: int = 0;
        proof {
            assert(ops.skip(0) =~= ops);
            assert(with_prefix(dels, true, run_operations(t0, ops, bound as int)) =~= run_operations(t0, ops, bound as int));
        }
        while rest.len() > 0
            invariant
                0 <= k <= ops.len(),
                !old(self).read_only,
                tx == transaction,
                tx.base_revision == old(self).revision,
                ops.len() == total,
                rest@ == ops.skip(k),
                ops == by_descending_start(tx.operations@),
                t0 == old(self).content(),
                run_operations(t0, ops, byte_len(t0) as int) == with_prefix(dels, true, run_operations(self.content(), rest@, bound as int)),
                dels.len() == k,
                applied@.len() == k,
                forall|i: int| 0 <= i < k ==> {
                    &&& (#[trigger] applied@[i]).start_byte == ops[i].start_byte
                    &&& applied@[i].deleted@ == dels[i]
                    &&& applied@[i].inserted == ops[i].inserted
                },
                self.id == old(self).id,
                self.read_only == old(self).read_only,
                self.revision == old(self).revision,
                self.clean_revision == old(self).clean_revision,
                self.selection == old(self).selection,
                self.cached_content_hash == old(self).cached_content_hash,
                self.undo == old(self).undo,
                self.redo == old(self).redo,
            decreases rest@.len(),
        {
            let ghost cur = self.content();
            let ghost rest_before = rest@;
            let op = rest.remove(0);
            proof {
                assert(rest_before[0] == op);
                assert(rest_before.drop_first() =~= rest@);
            }
            let length = rope_len_bytes(&self.rope);
            if op.start_byte > op.end_byte || op.end_byte > bound {
                proof {
                    assert(run_operations(cur, rest_before, bound as int) == EditRun {
                        text: cur,
                        fault: Some(RunFault::Range { start_byte: op.start_byte, end_byte: op.end_byte, length: byte_len(cur) }),
                        deleted: Seq::empty(),
                        fits: true,
                    });
                    let run = run_operations(t0, ops, byte_len(t0) as int);
                    assert(run.text == cur);
                    assert(run.fault == Some(RunFault::Range { start_byte: op.start_byte, end_byte: op.end_byte, length: byte_len(cur) }));
                    assert(fault_error(run.fault->0) == EditorError::InvalidRange { start_byte: op.start_byte, end_byte: op.end_byte, length });
                }
                return Err(EditorError::InvalidRange { start_byte: op.start_byte, end_byte: op.end_byte, length });
            }
            let c1 = match self.ensure_boundary(op.start_byte) {
                Ok(c) => c,
                Err(e) => {
                    return Err(e);
                },
            };
            let c2 = match self.ensure_boundary(op.end_byte) {
                Ok(c) => c,
                Err(e) => {
                    return Err(e);
                },
            };
            proof {
                assert(offset_fault(cur, op.start_byte) is None);
                assert(offset_fault(cur, op.end_byte) is None);
                lemma_boundaries_ordered(cur, op.start_byte as int, op.end_byte as int);
            }
            let deleted = rope_slice_text(&self.rope, c1, c2);
            match rope_remove(&mut self.rope, c1, c2) {
                Ok(()) => {},
                Err(message) => {
                    return Err(EditorError::InvalidEdit(message));
                },
            }
            match rope_insert(&mut self.rope, c1, op.inserted.as_str()) {
                Ok(()) => {},
                Err(message) => {
                    return Err(EditorError::InvalidEdit(message));
                },
            }
            let _fits = rope_len_bytes(&self.rope);
            proof {
                let u = splice(cur, op.start_byte as int, op.end_byte as int, op.inserted@);
                assert(cur.take(c1 as int) + op.inserted@ + cur.skip(c2 as int) == u);
                assert(self.content() =~= u);
                assert(deleted@ == between(cur, op.start_byte as int, op.end_byte as int));
                let tail = run_operations(u, rest@, op.start_byte as int);
                assert(run_operations(cur, rest_before, bound as int) == with_prefix(seq![deleted@], byte_len(u) <= usize::MAX, tail));
                assert(dels + (seq![deleted@] + tail.deleted) =~= dels.push(deleted@) + tail.deleted);
                assert(with_prefix(dels, true, with_prefix(seq![deleted@], byte_len(u) <= usize::MAX, tail))
                    == with_prefix(dels.push(deleted@), true, tail));
                dels = dels.push(deleted@);
                k = k + 1;
                assert(rest@ =~= ops.skip(k));
            }
            applied.push(AppliedEdit { start_byte: op.start_byte, deleted, inserted: op.inserted });
            bound = op.start_byte;
        }
        proof {
            assert(ops.skip(k).len() == 0);
            assert(k == ops.len());
        }
        if applied.len() > 0 {
            self.cached_content_hash = None;
            self.revision = self.revision.saturating_add(1);
            let entry = HistoryEntry { edits: applied, before_selection, after_selection };
            proof { assert(records(entry, ops, dels, tx.before_selection, tx.after_selection)); }
            self.undo.push(entry);
            self.redo.clear();
            self.selection = after_selection;
            proof {
                assert(self.undo@.take(old(self).undo@.len() as int) =~= old(self).undo@);
            }
        }
        Ok(())
    }
}

/// The saturating sum of two offsets.
pub open spec fn sat_offset(a: int, b: int) -> usize {
    if a + b > usize::MAX { usize::MAX } else { (a + b) as usize }
}

/// What undo replays: the entry's edits in reverse, each putting back the
/// text it removed in place of the text it inserted.
pub open spec fn undo_steps(edits: Seq<AppliedEdit>) -> Seq<Replacement> {
    Seq::new(edits.len(), |i: int| {
        let e = edits[edits.len() - 1 - i];
        Replacement {
            start_byte: e.start_byte,
            end_byte: sat_offset(e.start_byte as int, byte_len(e.inserted@) as int),
            text: e.deleted@,
        }
    })
}

/// What redo replays: the entry's edits in order, each inserting its text
/// again in place of the text it removed.
pub open spec fn redo_steps(edits: Seq<AppliedEdit>) -> Seq<Replacement> {
    Seq::new(edits.len(), |i: int| {
        let e = edits[i];
        Replacement {
            start_byte: e.start_byte,
            end_byte: sat_offset(e.start_byte as int, byte_len(e.deleted@) as int),
            text: e.inserted@,
        }
    })
}

/// What undo does: the newest transaction is taken off the undo stack and
/// its edits replayed in reverse. A fault stops the replay where it is met
/// (the entry is then dropped); otherwise the entry moves to the redo stack.
pub open spec fn undo_outcome(d: Document, e: Document, r: Result<(), EditorError>) -> bool {
    if d.read_only_spec() {
        r == Err::<(), EditorError>(EditorError::ReadOnly) && e == d
    } else if d.undo_spec().len() == 0 {
        r == Err::<(), EditorError>(EditorError::NoUndo) && e == d
    } else {
        let entry = d.undo_spec().last();
        let run = run_replacements(d.content(), undo_steps(entry.edits@));
        &&& e.content() == run.0
        &&& e.id_spec() == d.id_spec()
        &&& e.read_only_spec() == d.read_only_spec()
        &&& e.clean_revision_spec() == d.clean_revision_spec()
        &&& e.undo_spec() == d.undo_spec().drop_last()
        &&& if run.1 is Some {
            &&& r == Err::<(), EditorError>(fault_error(run.1->0))
            &&& e.revision_spec() == d.revision_spec()
            &&& e.selection_spec() == d.selection_spec()
            &&& e.cached_hash_spec() == d.cached_hash_spec()
            &&& e.redo_spec() == d.redo_spec()
        } else {
            &&& r is Ok
            &&& e.revision_spec() == (if d.revision_spec() == u64::MAX { u64::MAX } else { (d.revision_spec() + 1) as u64 })
            &&& e.selection_spec() == entry.before_selection
            &&& e.cached_hash_spec() is None
            &&& e.redo_spec() == d.redo_spec().push(entry)
        }
    }
}

/// What redo does: the newest undone transaction is taken off the redo stack
/// and its edits replayed in order. A fault stops the replay where it is met
/// (the entry is then dropped); otherwise the entry moves to the undo stack.
pub open spec fn redo_outcome(d: Document, e: Document, r: Result<(), EditorError>) -> bool {
    if d.read_only_spec() {
        r == Err::<(), EditorError>(EditorError::ReadOnly) && e == d
    } else if d.redo_spec().len() == 0 {
        r == Err::<(), EditorError>(EditorError::NoRedo) && e == d
    } else {
        let entry = d.redo_spec().last();
        let run = run_replacements(d.content(), redo_steps(entry.edits@));
        &&& e.content() == run.0
        &&& e.id_spec() == d.id_spec()
        &&& e.read_only_spec() == d.read_only_spec()
        &&& e.clean_revision_spec() == d.clean_revision_spec()
        &&& e.redo_spec() == d.redo_spec().drop_last()
        &&& if run.1 is Some {
            &&& r == Err::<(), EditorError>(fault_error(run.1->0))
            &&& e.revision_spec() == d.revision_spec()
            &&& e.selection_spec() == d.selection_spec()
            &&& e.cached_hash_spec() == d.cached_hash_spec()
            &&& e.undo_spec() == d.undo_spec()
        } else {
            &&& r is Ok
            &&& e.revision_spec() == (if d.revision_spec() == u64::MAX { u64::MAX } else { (d.revision_spec() + 1) as u64 })
            &&& e.selection_spec() == entry.after_selection
            &&& e.cached_hash_spec() is None
            &&& e.undo_spec() == d.undo_spec().push(entry)
        }
    }
}

impl Document {
    /// Replaces the bytes `start_byte..end_byte`, both boundaries, by `replacement`.
    fn replace_bytes(&mut self, start_byte: usize, end_byte: usize, replacement: &str) -> (r: Result<(), EditorError>)
        ensures
            ({
                let step = Replacement { start_byte, end_byte, text: replacement@ };
                let run = run_replacements(old(self).content(), seq![step]);
                &&& final(self).content() == run.0
                &&& r == if run.1 is Some { Err::<(), EditorError>(fault_error(run.1->0)) } else { Ok::<(), EditorError>(()) }
            }),
            final(self).id == old(self).id,
            final(self).read_only == old(self).read_only,
            final(self).revision == old(self).revision,
            final(self).clean_revision == old(self).clean_revision,
            final(self).selection == old(self).selection,
            final(self).cached_content_hash == old(self).cached_content_hash,
            final(self).undo == old(self).undo,
            final(self).redo == old(self).redo,
    {
        let ghost t = self.content();
        let ghost step = Replacement { start_byte, end_byte, text: replacement@ };
        proof {
            assert(seq![step].drop_first() =~= Seq::<Replacement>::empty());
        }
        let start = match self.ensure_boundary(start_byte) {
            Ok(c) => c,
            Err(e) => {
                return Err(e);
            },
        };
        let end = match self.ensure_boundary(end_byte) {
            Ok(c) => c,
            Err(e) => {
                return Err(e);
            },
        };
        if start_byte > end_byte {
            let length = rope_len_bytes(&self.rope);
            return Err(EditorError::InvalidRange { start_byte, end_byte, length });
        }
        proof {
            assert(offset_fault(t, start_byte) is None);
            assert(offset_fault(t, end_byte) is None);
            lemma_boundaries_ordered(t, start_byte as int, end_byte as int);
        }
        match rope_remove(&mut self.rope, start, end) {
            Ok(()) => {},
            Err(message) => {
                return Err(EditorError::InvalidEdit(message));
            },
        }
        match rope_insert(&mut self.rope, start, replacement) {
            Ok(()) => {},
            Err(message) => {
                return Err(EditorError::InvalidEdit(message));
            },
        }
        proof {
            assert(self.content() =~= splice(t, start_byte as int, end_byte as int, replacement@));
            assert(run_replacements(self.content(), Seq::<Replacement>::empty()) == (self.content(), None::<RunFault>));
        }
        Ok(())
    }

    /// Replays a list of replacements, stopping at the first fault.
    fn replay(&mut self, steps: Vec<(usize, usize, String)>) -> (r: Result<(), EditorError>)
        ensures
            ({
                let run = run_replacements(old(self).content(), as_replacements(steps@));
                &&& final(self).content() == run.0
                &&& r == if run.1 is Some { Err::<(), EditorError>(fault_error(run.1->0)) } else { Ok::<(), EditorError>(()) }
            }),
            final(self).id == old(self).id,
            final(self).read_only == old(self).read_only,
            final(self).revision == old(self).revision,
            final(self).clean_revision == old(self).clean_revision,
            final(self).selection == old(self).selection,
            final(self).cached_content_hash == old(self).cached_content_hash,
            final(self).undo == old(self).undo,
            final(self).redo == old(self).redo,
    {
        let ghost plan = steps@.map_values(|x: (usize, usize, String)| Replacement { start_byte: x.0, end_byte: x.1, text: x.2@ });
        let ghost t0 = self.content();
        let mut i: usize = 0;
        proof { assert(plan.take(0) =~= Seq::<Replacement>::empty()); }
        while i < steps.len()
            invariant
                i <= steps@.len(),
                plan == steps@.map_values(|x: (usize, usize, String)| Replacement { start_byte: x.0, end_byte: x.1, text: x.2@ }),
                t0 == old(self).content(),
                run_replacements(t0, plan.take(i as int)) == (self.content(), None::<RunFault>),
                self.id == old(self).id,
                self.read_only == old(self).read_only,
                self.revision == old(self).revision,
                self.clean_revision == old(self).clean_revision,
                self.selection == old(self).selection,
                self.cached_content_hash == old(self).cached_content_hash,
                self.undo == old(self).undo,
                self.redo == old(self).redo,
            decreases steps@.len() - i,
        {
            let ghost cur = self.content();
            let ghost step = plan[i as int];
            proof {
                assert(step == Replacement { start_byte: steps@[i as int].0, end_byte: steps@[i as int].1, text: steps@[i as int].2@ });
                lemma_run_concat(t0, plan.take(i as int), plan.skip(i as int));
                assert(plan.take(i as int) + plan.skip(i as int) =~= plan);
                lemma_run_concat(t0, plan.take(i as int), seq![step]);
                assert(plan.take(i as int) + seq![step] =~= plan.take(i + 1));
                assert(plan.skip(i as int) =~= seq![step] + plan.skip(i + 1));
            }
            let result = self.replace_bytes(steps[i].0, steps[i].1, steps[i].2.as_str());
            if let Err(e) = result {
                proof {
                    assert(seq![step].drop_first() =~= Seq::<Replacement>::empty());
                    lemma_run_first_fault(cur, step, plan.skip(i + 1));
                }
                return Err(e);
            }
            proof {
                lemma_run_concat(cur, seq![step], plan.skip(i + 1));
            }
            i = i + 1;
        }
        proof { assert(plan.take(i as int) =~= plan); }
        Ok(())
    }
}

pub open spec fn as_replacements(steps: Seq<(usize, usize, String)>) -> Seq<Replacement> {
    steps.map_values(|x: (usize, usize, String)| Replacement { start_byte: x.0, end_byte: x.1, text: x.2@ })
}

/// The replacements that undo an entry's edits.
fn undo_plan(edits: &Vec<AppliedEdit>) -> (r: Vec<(usize, usize, String)>)
    ensures
        as_replacements(r@) == undo_steps(edits@),
{
    let n = edits.len();
    let mut out: Vec<(usize, usize, String)> = Vec::new();
    let mut i: usize = n;
    while i > 0
        invariant
            i <= n,
            n == edits@.len(),
            out@.len() == n - i,
            forall|k: int| 0 <= k < n - i ==> {
                let e = edits@[n - 1 - k];
                &&& (#[trigger] out@[k]).0 == e.start_byte
                &&& out@[k].1 == sat_offset(e.start_byte as int, byte_len(e.inserted@) as int)
                &&& out@[k].2@ == e.deleted@
            },
        decreases i,
    {
        i = i - 1;
        let e = &edits[i];
        let end = e.start_byte.saturating_add(e.inserted.as_str().as_bytes().len());
        out.push((e.start_byte, end, e.deleted.clone()));
    }
    proof { assert(as_replacements(out@) =~= undo_steps(edits@)); }
    out
}

/// The replacements that redo an entry's edits.
fn redo_plan(edits: &Vec<AppliedEdit>) -> (r: Vec<(usize, usize, String)>)
    ensures
        as_replacements(r@) == redo_steps(edits@),
{
    let n = edits.len();
    let mut out: Vec<(usize, usize, String)> = Vec::new();
    let mut i: usize = 0;
    while i < n
        invariant
            i <= n,
            n == edits@.len(),
            out@.len() == i,
            forall|k: int| 0 <= k < i ==> {
                let e = edits@[k];
                &&& (#[trigger] out@[k]).0 == e.start_byte
                &&& out@[k].1 == sat_offset(e.start_byte as int, byte_len(e.deleted@) as int)
                &&& out@[k].2@ == e.inserted@
            },
        decreases n - i,
    {
        let e = &edits[i];
        let end = e.start_byte.saturating_add(e.deleted.as_str().as_bytes().len());
        out.push((e.start_byte, end, e.inserted.clone()));
        i = i + 1;
    }
    proof { assert(as_replacements(out@) =~= redo_steps(edits@)); }
    out
}

impl Document {
    /// Reverts the newest transaction.
    pub fn undo(&mut self) -> (r: Result<(), EditorError>)
        ensures
            undo_outcome(*old(self), *final(self), r),
    {
        if self.read_only {
            return Err(EditorError::ReadOnly);
        }
        if self.undo.len() == 0 {
            return Err(EditorError::NoUndo);
        }
        let entry = match self.undo.pop() {
            Some(e) => e,
            None => {
                return Err(EditorError::NoUndo);
            },
        };
        let steps = undo_plan(&entry.edits);
        if let Err(e) = self.replay(steps) {
            return Err(e);
        }
        self.revision = self.revision.saturating_add(1);
        self.cached_content_hash = None;
        self.selection = entry.before_selection;
        self.redo.push(entry);
        Ok(())
    }

    /// Re-applies the newest undone transaction.
    pub fn redo(&mut self) -> (r: Result<(), EditorError>)
        ensures
            redo_outcome(*old(self), *final(self), r),
    {
        if self.read_only {
            return Err(EditorError::ReadOnly);
        }
        if self.redo.len() == 0 {
            return Err(EditorError::NoRedo);
        }
        let entry = match self.redo.pop() {
            Some(e) => e,
            None => {
                return Err(EditorError::NoRedo);
            },
        };
        let steps = redo_plan(&entry.edits);
        if let Err(e) = self.replay(steps) {
            return Err(e);
        }
        self.revision = self.revision.saturating_add(1);
        self.cached_content_hash = None;
        self.selection = entry.after_selection;
        self.undo.push(entry);
        Ok(())
    }
}

/// A prefix is no longer, in bytes, than the whole.
proof fn lemma_prefix_le(t: Seq<char>, k: int)
    requires
        0 <= k <= t.len(),
    ensures
        byte_len(t.take(k)) <= byte_len(t),
{
    assert(t.take(t.len() as int) =~= t);
    if k < t.len() {
        lemma_prefix_bytes_increase(t, k, t.len() as int);
    }
}

proof fn lemma_sort_len(ops: Seq<EditOperation>)
    ensures
        by_descending_start(ops).len() == ops.len(),
    decreases ops.len(),
{
    if ops.len() > 0 {
        lemma_sort_len(ops.drop_last());
        lemma_insert_len(by_descending_start(ops.drop_last()), ops.last());
    }
}

proof fn lemma_insert_len(s: Seq<EditOperation>, x: EditOperation)
    ensures
        insert_by_start(s, x).len() == s.len() + 1,
    decreases s.len(),
{
    if s.len() > 0 && s.last().start_byte < x.start_byte {
        lemma_insert_len(s.drop_last(), x);
    }
}

/// The replacements that undo a run of operations that removed `dels`.
pub open spec fn undo_plan_of(ops: Seq<EditOperation>, dels: Seq<Seq<char>>) -> Seq<Replacement> {
    Seq::new(ops.len(), |i: int| {
        let op = ops[ops.len() - 1 - i];
        Replacement {
            start_byte: op.start_byte,
            end_byte: sat_offset(op.start_byte as int, byte_len(op.inserted@) as int),
            text: dels[ops.len() - 1 - i],
        }
    })
}

/// The replacements that redo a run of operations that removed `dels`.
pub open spec fn redo_plan_of(ops: Seq<EditOperation>, dels: Seq<Seq<char>>) -> Seq<Replacement> {
    Seq::new(ops.len(), |i: int| Replacement {
        start_byte: ops[i].start_byte,
        end_byte: sat_offset(ops[i].start_byte as int, byte_len(dels[i]) as int),
        text: ops[i].inserted@,
    })
}

proof fn lemma_run_deleted_len(t: Seq<char>, ops: Seq<EditOperation>, bound: int)
    requires
        run_operations(t, ops, bound).fault is None,
    ensures
        run_operations(t, ops, bound).deleted.len() == ops.len(),
    decreases ops.len(),
{
    if ops.len() > 0 {
        let op = ops[0];
        let u = splice(t, op.start_byte as int, op.end_byte as int, op.inserted@);
        lemma_run_deleted_len(u, ops.drop_first(), op.start_byte as int);
    }
}

/// Undoing a run of operations, last first, gives back the text it started from.
proof fn lemma_undo_inverts(t: Seq<char>, ops: Seq<EditOperation>, bound: int)
    requires
        run_operations(t, ops, bound).fault is None,
        run_operations(t, ops, bound).fits,
    ensures
        run_replacements(run_operations(t, ops, bound).text, undo_plan_of(ops, run_operations(t, ops, bound).deleted))
            == (t, None::<RunFault>),
    decreases ops.len(),
{
    let run = run_operations(t, ops, bound);
    if ops.len() == 0 {
        assert(undo_plan_of(ops, run.deleted) =~= Seq::<Replacement>::empty());
    } else {
        let op = ops[0];
        let rest = ops.drop_first();
        let s0 = op.start_byte as int;
        let c1 = char_index(t, s0);
        let c2 = char_index(t, op.end_byte as int);
        let u = splice(t, s0, op.end_byte as int, op.inserted@);
        let tail = run_operations(u, rest, s0);
        lemma_boundaries_ordered(t, s0, op.end_byte as int);
        lemma_undo_inverts(u, rest, s0);
        lemma_run_deleted_len(u, rest, s0);
        let d0 = between(t, s0, op.end_byte as int);
        assert(run.deleted == seq![d0] + tail.deleted);
        let x = Replacement {
            start_byte: op.start_byte,
            end_byte: sat_offset(s0, byte_len(op.inserted@) as int),
            text: d0,
        };
        assert(undo_plan_of(ops, run.deleted) =~= undo_plan_of(rest, tail.deleted) + seq![x]);
        lemma_run_concat(tail.text, undo_plan_of(rest, tail.deleted), seq![x]);
        // The last replacement puts the removed text back.
        lemma_splice_boundaries(t, c1, c2, op.inserted@);
        assert(byte_len(t.take(c1)) == s0);
        lemma_prefix_le(u, c1);
        lemma_prefix_le(u, c1 + op.inserted@.len());
        assert(u.take(c1) == t.take(c1));
        assert(x.end_byte == s0 + byte_len(op.inserted@));
        assert(seq![x].drop_first() =~= Seq::<Replacement>::empty());
        assert(splice(u, s0, x.end_byte as int, d0) == t);
        assert(offset_fault(u, x.start_byte) is None);
        assert(offset_fault(u, x.end_byte) is None);
        assert(run_replacements(t, Seq::<Replacement>::empty()) == (t, None::<RunFault>));
        assert(run_replacements(u, seq![x]) == (t, None::<RunFault>));
        assert(run.text == tail.text);
    }
}

/// Redoing a run of operations, first first, gives back the text it reached.
proof fn lemma_redo_replays(t: Seq<char>, ops: Seq<EditOperation>, bound: int)
    requires
        run_operations(t, ops, bound).fault is None,
    ensures
        run_replacements(t, redo_plan_of(ops, run_operations(t, ops, bound).deleted))
            == (run_operations(t, ops, bound).text, None::<RunFault>),
    decreases ops.len(),
{
    let run = run_operations(t, ops, bound);
    if ops.len() == 0 {
        assert(redo_plan_of(ops, run.deleted) =~= Seq::<Replacement>::empty());
    } else {
        let op = ops[0];
        let rest = ops.drop_first();
        let s0 = op.start_byte as int;
        let e0 = op.end_byte as int;
        let c1 = char_index(t, s0);
        let c2 = char_index(t, e0);
        let u = splice(t, s0, e0, op.inserted@);
        let tail = run_operations(u, rest, s0);
        lemma_boundaries_ordered(t, s0, e0);
        lemma_redo_replays(u, rest, s0);
        lemma_run_deleted_len(u, rest, s0);
        let d0 = between(t, s0, e0);
        assert(run.deleted == seq![d0] + tail.deleted);
        // The removed text spans exactly the operation's bytes.
        assert(t.take(c2) =~= t.take(c1) + d0);
        crate::editor::rope::lemma_encode_concat(t.take(c1), d0);
        assert(byte_len(t.take(c1)) == s0);
        assert(byte_len(t.take(c2)) == e0);
        let x = Replacement { start_byte: op.start_byte, end_byte: op.end_byte, text: op.inserted@ };
        assert(redo_plan_of(ops, run.deleted) =~= seq![x] + redo_plan_of(rest, tail.deleted));
        assert((seq![x] + redo_plan_of(rest, tail.deleted))[0] == x);
        assert((seq![x] + redo_plan_of(rest, tail.deleted)).drop_first() =~= redo_plan_of(rest, tail.deleted));
    }
}

/// Undo takes a document back to the text, selection and history it had
/// before the transaction that undo reverts.
pub proof fn law_undo_restores_text(
    d0: Document,
    tx: EditTransaction,
    d1: Document,
    d2: Document,
    r1: Result<(), EditorError>,
    r2: Result<(), EditorError>,
)
    requires
        apply_outcome(d0, tx, d1, r1),
        r1 is Ok,
        tx.operations@.len() > 0,
        undo_outcome(d1, d2, r2),
    ensures
        r2 is Ok,
        d2.content() == d0.content(),
        d2.selection_spec() == tx.before_selection,
        d2.undo_spec() == d0.undo_spec(),
{
    let ops = by_descending_start(tx.operations@);
    lemma_sort_len(tx.operations@);
    let run = run_operations(d0.content(), ops, byte_len(d0.content()) as int);
    let entry = d1.undo_spec().last();
    lemma_run_deleted_len(d0.content(), ops, byte_len(d0.content()) as int);
    assert(undo_steps(entry.edits@) =~= undo_plan_of(ops, run.deleted));
    lemma_undo_inverts(d0.content(), ops, byte_len(d0.content()) as int);
    assert(d1.undo_spec().drop_last() =~= d0.undo_spec());
}

/// Redo right after undo gives back the text and selection the undone
/// transaction produced.
pub proof fn law_redo_restores_text(
    d0: Document,
    tx: EditTransaction,
    d1: Document,
    d2: Document,
    d3: Document,
    r1: Result<(), EditorError>,
    r2: Result<(), EditorError>,
    r3: Result<(), EditorError>,
)
    requires
        apply_outcome(d0, tx, d1, r1),
        r1 is Ok,
        tx.operations@.len() > 0,
        undo_outcome(d1, d2, r2),
        redo_outcome(d2, d3, r3),
    ensures
        r3 is Ok,
        d3.content() == d1.content(),
        d3.selection_spec() == tx.after_selection,
{
    law_undo_restores_text(d0, tx, d1, d2, r1, r2);
    let ops = by_descending_start(tx.operations@);
    lemma_sort_len(tx.operations@);
    let run = run_operations(d0.content(), ops, byte_len(d0.content()) as int);
    let entry = d1.undo_spec().last();
    lemma_run_deleted_len(d0.content(), ops, byte_len(d0.content()) as int);
    assert(d2.redo_spec().last() == entry);
    assert forall|i: int| 0 <= i < ops.len() implies sat_offset(ops[i].start_byte as int, byte_len(run.deleted[i]) as int)
        == sat_offset(entry.edits@[i].start_byte as int, byte_len(entry.edits@[i].deleted@) as int) by {
    }
    assert(redo_steps(entry.edits@) =~= redo_plan_of(ops, run.deleted));
    lemma_redo_replays(d0.content(), ops, byte_len(d0.content()) as int);
}

#[derive(Clone, Copy, Debug, PartialEq, Eq, Structural)]
pub enum CaretMovement {
    Left,
    Right,
    Home,
    End,
}

/// A text is at least as long in bytes as in characters.
pub proof fn lemma_chars_le_bytes(t: Seq<char>, k: int)
    requires
        0 <= k <= t.len(),
    ensures
        k <= byte_len(t.take(k)),
    decreases k,
{
    if k > 0 {
        lemma_chars_le_bytes(t, k - 1);
        lemma_prefix_bytes_increase(t, k - 1, k);
    }
}

/// The boundary before the character `head` falls in (or before the one
/// that ends at `head`).
pub open spec fn step_left(t: Seq<char>, head: int) -> int {
    let k = char_at_byte(t, head);
    byte_len(t.take(if k > 0 { k - 1 } else { 0 })) as int
}

/// The boundary after the character `head` falls in.
pub open spec fn step_right(t: Seq<char>, head: int) -> int {
    byte_len(t.take(char_at_byte(t, head) + 1)) as int
}

/// The chars of a line before its `\n` or `\r\n` ending.
pub open spec fn line_body_len(s: Seq<char>) -> int {
    if s.len() > 0 && s.last() == '\n' {
        if s.len() > 1 && s[s.len() - 2] == '\r' { s.len() - 2 } else { s.len() - 1 }
    } else {
        s.len() as int
    }
}

/// The line of the character `head` falls in.
pub open spec fn line_of_byte(t: Seq<char>, head: int) -> nat {
    ropey_line_of(t, char_at_byte(t, head) as nat)
}

/// Where the caret goes from `sel`, or why it cannot move.
pub open spec fn caret_target(t: Seq<char>, sel: EditorSelection, dir: CaretMovement) -> Result<usize, EditorError> {
    let len = byte_len(t);
    let head = sel.head as int;
    match dir {
        CaretMovement::Left => if sel.start_spec() != sel.end_spec() {
            Ok(sel.start_spec())
        } else if head == 0 {
            Ok(0usize)
        } else if head > len {
            Err(EditorError::InvalidUtf8Boundary(sel.head))
        } else {
            Ok(step_left(t, head) as usize)
        },
        CaretMovement::Right => if sel.start_spec() != sel.end_spec() {
            Ok(sel.end_spec())
        } else if head >= len {
            Ok(len as usize)
        } else {
            Ok(step_right(t, head) as usize)
        },
        CaretMovement::Home => if head > len {
            Err(EditorError::InvalidUtf8Boundary(sel.head))
        } else {
            Ok(byte_len(t.take(ropey_line_start(t, line_of_byte(t, head)) as int)) as usize)
        },
        CaretMovement::End => if head > len {
            Err(EditorError::InvalidUtf8Boundary(sel.head))
        } else {
            let l = line_of_byte(t, head);
            let start = ropey_line_start(t, l) as int;
            let line = t.subrange(start, ropey_line_start(t, l + 1) as int);
            Ok(byte_len(t.take(start + line_body_len(line))) as usize)
        },
    }
}

impl Document {
    /// The char index the byte `b` falls in.
    fn char_of_byte(&self, b: usize) -> (r: Option<usize>)
        ensures
            r is Some <==> b <= byte_len(self.content()),
            r matches Some(k) ==> k == char_at_byte(self.content(), b as int) && k <= self.content().len()
                && byte_len(self.content().take(k as int)) <= b
                && (k < self.content().len() ==> b < byte_len(self.content().take(k + 1))),
    {
        let found = rope_byte_to_char(&self.rope, b);
        proof {
            if let Some(k) = found {
                lemma_char_at_byte(self.content(), b as int, k as int);
            }
        }
        found
    }

    /// The byte offset of a char index within the text.
    fn byte_of_char(&self, c: usize) -> (r: usize)
        requires
            c <= self.content().len(),
        ensures
            r == byte_len(self.content().take(c as int)),
    {
        match rope_char_to_byte(&self.rope, c) {
            Some(b) => b,
            None => 0,
        }
    }

    /// Moves the caret, collapsing the selection.
    pub fn move_caret(&mut self, direction: CaretMovement) -> (r: Result<(), EditorError>)
        ensures
            match caret_target(old(self).content(), old(self).selection_spec(), direction) {
                Ok(o) => r is Ok && *final(self) == old(self).with_selection(EditorSelection::caret_spec(o)),
                Err(e) => r == Err::<(), EditorError>(e) && *final(self) == *old(self),
            },
    {
        let ghost t = self.content();
        let selection = self.selection;
        let length = rope_len_bytes(&self.rope);
        proof {
            lemma_chars_le_bytes(t, t.len() as int);
            assert(t.take(t.len() as int) =~= t);
        }
        let offset = match direction {
            CaretMovement::Left => {
                if selection.start() != selection.end() {
                    selection.start()
                } else if selection.head == 0 {
                    0
                } else {
                    let k = match self.char_of_byte(selection.head) {
                        Some(k) => k,
                        None => {
                            return Err(EditorError::InvalidUtf8Boundary(selection.head));
                        },
                    };
                    self.byte_of_char(if k > 0 { k - 1 } else { 0 })
                }
            },
            CaretMovement::Right => {
                if selection.start() != selection.end() {
                    selection.end()
                } else if selection.head >= length {
                    length
                } else {
                    let k = match self.char_of_byte(selection.head) {
                        Some(k) => k,
                        None => {
                            return Err(EditorError::InvalidUtf8Boundary(selection.head));
                        },
                    };
                    proof {
                        if k == t.len() {
                            assert(t.take(k as int) =~= t);
                        }
                    }
                    self.byte_of_char(k + 1)
                }
            },
            CaretMovement::Home | CaretMovement::End => {
                let k = match self.char_of_byte(selection.head) {
                    Some(k) => k,
                    None => {
                        return Err(EditorError::InvalidUtf8Boundary(selection.head));
                    },
                };
                let line = match rope_char_to_line(&self.rope, k) {
                    Some(l) => l,
                    None => {
                        return Err(EditorError::InvalidUtf8Boundary(selection.head));
                    },
                };
                let line_start = rope_line_to_char(&self.rope, line);
                match direction {
                    CaretMovement::Home => self.byte_of_char(line_start),
                    _ => {
                        let text = rope_line_text(&self.rope, line);
                        let chars = crate::text::chars_of(text.as_str());
                        let mut line_length = chars.len();
                        if line_length > 0 && chars[line_length - 1] == '\n' {
                            line_length = line_length - 1;
                            if line_length > 0 && chars[line_length - 1] == '\r' {
                                line_length = line_length - 1;
                            }
                        }
                        self.byte_of_char(line_start + line_length)
                    },
                }
            },
        };
        self.selection = EditorSelection::caret(offset);
        Ok(())
    }
}

/// The bytes a backward delete removes, when there is anything to remove.
pub open spec fn backward_range(t: Seq<char>, sel: EditorSelection) -> Option<Result<(usize, usize), EditorError>> {
    if sel.start_spec() != sel.end_spec() {
        Some(Ok((sel.start_spec(), sel.end_spec())))
    } else if sel.head == 0 {
        None
    } else if sel.head > byte_len(t) {
        Some(Err(EditorError::InvalidUtf8Boundary(sel.head)))
    } else {
        Some(Ok((step_left(t, sel.head as int) as usize, sel.head)))
    }
}

/// The bytes a forward delete removes, when there is anything to remove.
pub open spec fn forward_range(t: Seq<char>, sel: EditorSelection) -> Option<(usize, usize)> {
    if sel.start_spec() != sel.end_spec() {
        Some((sel.start_spec(), sel.end_spec()))
    } else if sel.head >= byte_len(t) {
        None
    } else {
        Some((sel.head, step_right(t, sel.head as int) as usize))
    }
}

/// Applying one replacement of `start..end` by `text` from the current
/// selection, leaving the caret at `caret`.
#[verifier::opaque]
pub open spec fn single_edit_outcome(d: Document, start: usize, end: usize, text: Seq<char>, caret: usize, e: Document, r: Result<(), EditorError>) -> bool {
    exists|op: EditOperation| op.start_byte == start && op.end_byte == end && op.inserted@ == text
        && #[trigger] transaction_outcome(d, d.revision_spec(), seq![op], d.selection_spec(), EditorSelection::caret_spec(caret), e, r)
}

impl Document {
    fn edit_once(&mut self, start: usize, end: usize, text: &str, caret: usize) -> (r: Result<(), EditorError>)
        ensures
            single_edit_outcome(*old(self), start, end, text@, caret, *final(self), r),
    {
        let op = EditOperation::replace(start, end, text);
        let ghost op_spec = op;
        let transaction = EditTransaction {
            base_revision: self.revision,
            operations: vec![op],
            before_selection: self.selection,
            after_selection: EditorSelection::caret(caret),
        };
        proof { assert(transaction.operations@ =~= seq![op_spec]); }
        let r = self.apply_transaction(transaction);
        proof {
            assert(transaction_outcome(*old(self), old(self).revision_spec(), seq![op_spec], old(self).selection_spec(),
                EditorSelection::caret_spec(caret), *self, r));
            reveal(single_edit_outcome);
        }
        r
    }

    /// Replaces the selection by `text`, leaving the caret after it.
    pub fn insert_text(&mut self, text: &str) -> (r: Result<(), EditorError>)
        requires
            old(self).selection_spec().start_spec() + byte_len(text@) <= usize::MAX,
        ensures
            single_edit_outcome(*old(self), old(self).selection_spec().start_spec(), old(self).selection_spec().end_spec(), text@,
                (old(self).selection_spec().start_spec() + byte_len(text@)) as usize, *final(self), r),
    {
        let selection = self.selection;
        let start = selection.start();
        let end = selection.end();
        let inserted_length = text.as_bytes().len();
        self.edit_once(start, end, text, start + inserted_length)
    }

    /// Deletes the selection, or the character before the caret.
    pub fn delete_backward(&mut self) -> (r: Result<(), EditorError>)
        ensures
            match backward_range(old(self).content(), old(self).selection_spec()) {
                None => r is Ok && *final(self) == *old(self),
                Some(Err(e)) => r == Err::<(), EditorError>(e) && *final(self) == *old(self),
                Some(Ok((start, end))) => single_edit_outcome(*old(self), start, end, Seq::empty(), start, *final(self), r),
            },
    {
        let ghost t = self.content();
        let selection = self.selection;
        let (start, end) = if selection.start() != selection.end() {
            (selection.start(), selection.end())
        } else if selection.head == 0 {
            return Ok(());
        } else {
            let k = match self.char_of_byte(selection.head) {
                Some(k) => k,
                None => {
                    return Err(EditorError::InvalidUtf8Boundary(selection.head));
                },
            };
            (self.byte_of_char(if k > 0 { k - 1 } else { 0 }), selection.head)
        };
        proof {
            reveal_strlit("");
            assert(""@ =~= Seq::<char>::empty());
        }
        self.edit_once(start, end, "", start)
    }

    /// Deletes the selection, or the character after the caret.
    pub fn delete_forward(&mut self) -> (r: Result<(), EditorError>)
        ensures
            match forward_range(old(self).content(), old(self).selection_spec()) {
                None => r is Ok && *final(self) == *old(self),
                Some((start, end)) => single_edit_outcome(*old(self), start, end, Seq::empty(), start, *final(self), r),
            },
    {
        let ghost t = self.content();
        let selection = self.selection;
        let length = rope_len_bytes(&self.rope);
        let (start, end) = if selection.start() != selection.end() {
            (selection.start(), selection.end())
        } else if selection.head >= length {
            return Ok(());
        } else {
            let k = match self.char_of_byte(selection.head) {
                Some(k) => k,
                None => {
                    return Ok(());
                },
            };
            proof {
                lemma_chars_le_bytes(t, t.len() as int);
                assert(t.take(t.len() as int) =~= t);
                if k == t.len() {
                    assert(t.take(k as int) =~= t);
                }
            }
            (selection.head, self.byte_of_char(k + 1))
        };
        proof {
            reveal_strlit("");
            assert(""@ =~= Seq::<char>::empty());
        }
        self.edit_once(start, end, "", start)
    }

    /// The document's text.
    pub fn text(&self) -> (r: String)
        ensures
            r@ == self.content(),
    {
        rope_string(&self.rope)
    }

    /// The BLAKE3 digest of the text's UTF-8 bytes.
    pub fn content_hash(&self) -> (r: [u8; 32])
        ensures
            r@ == blake3_digest(encode_utf8(self.content())),
    {
        let text = rope_string(&self.rope);
        blake3_hash(text.as_str().as_bytes())
    }

    /// The selected text; empty for a caret or a selection past the end.
    pub fn selected_text(&self) -> (r: String)
        ensures
            ({
                let t = self.content();
                let sel = self.selection_spec();
                r@ == if sel.start_spec() == sel.end_spec() || sel.end_spec() > byte_len(t) {
                    Seq::<char>::empty()
                } else {
                    t.subrange(char_at_byte(t, sel.start_spec() as int), char_at_byte(t, sel.end_spec() as int))
                }
            }),
    {
        let ghost t = self.content();
        let start = self.selection.start();
        let end = self.selection.end();
        if start == end {
            proof { reveal_strlit(""); }
            return "".to_owned();
        }
        let char_start = match self.char_of_byte(start) {
            Some(c) => c,
            None => {
                proof { reveal_strlit(""); }
                return "".to_owned();
            },
        };
        let char_end = match self.char_of_byte(end) {
            Some(c) => c,
            None => {
                proof { reveal_strlit(""); }
                return "".to_owned();
            },
        };
        proof {
            lemma_char_at_byte_monotone(t, start as int, end as int, char_start as int, char_end as int);
        }
        rope_slice_text(&self.rope, char_start, char_end)
    }
}

#[derive(Clone, Debug)]
pub struct ViewportLine {
    pub line_index: usize,
    pub number: usize,
    pub start_byte: usize,
    pub text: String,
}

#[derive(Clone, Debug)]
pub struct EditorViewportSnapshot {
    pub document_id: EditorDocumentId,
    pub revision: EditorRevision,
    pub content_hash: Option<String>,
    pub first_line: usize,
    pub last_line: usize,
    pub total_lines: usize,
    pub total_bytes: usize,
    pub selection: EditorSelection,
    pub modified: bool,
    pub read_only: bool,
    pub lines: Vec<ViewportLine>,
}

/// A line without its trailing `\r` and `\n` characters.
pub open spec fn trim_line_breaks(s: Seq<char>) -> Seq<char>
    decreases s.len(),
{
    if s.len() > 0 && (s.last() == '\n' || s.last() == '\r') {
        trim_line_breaks(s.drop_last())
    } else {
        s
    }
}

/// The chars of line `l` of `t`, its line break included.
pub open spec fn line_chars(t: Seq<char>, l: nat) -> Seq<char> {
    t.subrange(ropey_line_start(t, l) as int, ropey_line_start(t, l + 1) as int)
}

/// What a viewport shows of line `l`.
pub open spec fn shows_line(v: ViewportLine, t: Seq<char>, l: nat) -> bool {
    &&& v.line_index == l
    &&& v.number == l + 1
    &&& v.start_byte == byte_len(t.take(ropey_line_start(t, l) as int))
    &&& v.text@ == trim_line_breaks(line_chars(t, l))
}

fn trimmed(s: String) -> (r: String)
    ensures
        r@ == trim_line_breaks(s@),
{
    let mut chars = chars_of(s.as_str());
    while chars.len() > 0 && (chars[chars.len() - 1] == '\n' || chars[chars.len() - 1] == '\r')
        invariant
            trim_line_breaks(chars@) == trim_line_breaks(s@),
        decreases chars@.len(),
    {
        let ghost before = chars@;
        chars.pop();
        proof { assert(chars@ =~= before.drop_last()); }
    }
    string_from_chars(chars.as_slice())
}

impl Document {
    /// The lines `first_line..=last_line`, clamped to the document, with
    /// the document's state; the text of other lines is not copied.
    pub fn viewport(&self, first_line: usize, last_line: usize) -> (r: EditorViewportSnapshot)
        ensures
            ({
                let t = self.content();
                let total = ropey_len_lines(t);
                let first = if first_line < total - 1 { first_line as int } else { total - 1 };
                let last_wide = if last_line > first { last_line as int } else { first };
                let last = if last_wide < total - 1 { last_wide } else { total - 1 };
                &&& r.document_id == self.id_spec()
                &&& r.revision == self.revision_spec()
                &&& r.first_line == first
                &&& r.last_line == last
                &&& r.total_lines == total
                &&& r.total_bytes == byte_len(t)
                &&& r.selection == self.selection_spec()
                &&& r.modified == (self.revision_spec() != self.clean_revision_spec())
                &&& r.read_only == self.read_only_spec()
                &&& (r.content_hash is Some <==> self.cached_hash_spec() is Some)
                &&& (r.content_hash matches Some(h) ==> h@ == hex_of(self.cached_hash_spec()->0@))
                &&& r.lines@.len() == last - first + 1
                &&& forall|i: int| 0 <= i < r.lines@.len() ==> shows_line(#[trigger] r.lines@[i], t, (first + i) as nat)
            }),
    {
        let ghost t = self.content();
        let total_lines = rope_len_lines(&self.rope);
        let top = total_lines - 1;
        let first = if first_line < top { first_line } else { top };
        let last_wide = if last_line > first { last_line } else { first };
        let last = if last_wide < top { last_wide } else { top };
        let mut lines: Vec<ViewportLine> = Vec::new();
        let mut index = first;
        while index <= last
            invariant
                first <= index <= last + 1,
                last < total_lines,
                total_lines == ropey_len_lines(t),
                t == self.content(),
                lines@.len() == index - first,
                forall|i: int| 0 <= i < lines@.len() ==> shows_line(#[trigger] lines@[i], t, (first + i) as nat),
            decreases last + 1 - index,
        {
            let line_start = rope_line_to_char(&self.rope, index);
            let start_byte = self.byte_of_char(line_start);
            let text = trimmed(rope_line_text(&self.rope, index));
            let ghost before = lines@;
            lines.push(ViewportLine { line_index: index, number: index + 1, start_byte, text });
            proof {
                assert forall|i: int| 0 <= i < lines@.len() implies shows_line(#[trigger] lines@[i], t, (first + i) as nat) by {
                    if i < before.len() {
                        assert(lines@[i] == before[i]);
                    }
                }
            }
            index = index + 1;
        }
        let content_hash = match &self.cached_content_hash {
            Some(hash) => {
                let mut out: Vec<char> = Vec::new();
                push_hex(&mut out, hash);
                Some(string_from_chars(out.as_slice()))
            },
            None => None,
        };
        EditorViewportSnapshot {
            document_id: self.id,
            revision: self.revision,
            content_hash,
            first_line: first,
            last_line: last,
            total_lines,
            total_bytes: rope_len_bytes(&self.rope),
            selection: self.selection,
            modified: self.is_modified(),
            read_only: self.read_only,
            lines,
        }
    }
}

/// The text of an editor error.
pub open spec fn editor_error_text(e: EditorError) -> Seq<char> {
    match e {
        EditorError::DocumentExists(id) => "document "@ + decimal(id as nat) + " already exists"@,
        EditorError::DocumentNotFound(id) => "document "@ + decimal(id as nat) + " was not found"@,
        EditorError::ReadOnly => "document is read-only"@,
        EditorError::RevisionConflict { expected, actual } => "revision conflict: expected "@ + decimal(expected as nat)
            + ", actual "@ + decimal(actual as nat),
        EditorError::InvalidRange { start_byte, end_byte, length } => "invalid edit range "@ + decimal(start_byte as nat) + ".."@
            + decimal(end_byte as nat) + " for "@ + decimal(length as nat) + " bytes"@,
        EditorError::InvalidUtf8Boundary(offset) => "offset "@ + decimal(offset as nat) + " is not a UTF-8 boundary"@,
        EditorError::InvalidEdit(message) => message@,
        EditorError::NoUndo => "no undo transaction is available"@,
        EditorError::NoRedo => "no redo transaction is available"@,
    }
}

impl EditorError {
    /// The error's message.
    pub fn to_text(&self) -> (r: String)
        ensures
            r@ == editor_error_text(*self),
    {
        let mut out: Vec<char> = Vec::new();
        match self {
            EditorError::DocumentExists(id) => {
                push_str(&mut out, "document ");
                push_decimal(&mut out, *id);
                push_str(&mut out, " already exists");
            },
            EditorError::DocumentNotFound(id) => {
                push_str(&mut out, "document ");
                push_decimal(&mut out, *id);
                push_str(&mut out, " was not found");
            },
            EditorError::ReadOnly => {
                push_str(&mut out, "document is read-only");
            },
            EditorError::RevisionConflict { expected, actual } => {
                push_str(&mut out, "revision conflict: expected ");
                push_decimal(&mut out, *expected);
                push_str(&mut out, ", actual ");
                push_decimal(&mut out, *actual);
            },
            EditorError::InvalidRange { start_byte, end_byte, length } => {
                push_str(&mut out, "invalid edit range ");
                push_decimal(&mut out, *start_byte as u64);
                push_str(&mut out, "..");
                push_decimal(&mut out, *end_byte as u64);
                push_str(&mut out, " for ");
                push_decimal(&mut out, *length as u64);
                push_str(&mut out, " bytes");
            },
            EditorError::InvalidUtf8Boundary(offset) => {
                push_str(&mut out, "offset ");
                push_decimal(&mut out, *offset as u64);
                push_str(&mut out, " is not a UTF-8 boundary");
            },
            EditorError::InvalidEdit(message) => {
                push_str(&mut out, message.as_str());
            },
            EditorError::NoUndo => {
                push_str(&mut out, "no undo transaction is available");
            },
            EditorError::NoRedo => {
                push_str(&mut out, "no redo transaction is available");
            },
        }
        string_from_chars(out.as_slice())
    }
}

/// The open documents, each under its own identifier.
pub struct Editor {
    documents: Vec<Document>,
}

/// The position of document `id`, or -1.
pub open spec fn document_index(docs: Seq<Document>, id: EditorDocumentId) -> int {
    if exists|i: int| 0 <= i < docs.len() && (#[trigger] docs[i]).id_spec() == id {
        choose|i: int| 0 <= i < docs.len() && (#[trigger] docs[i]).id_spec() == id
    } else {
        -1
    }
}

pub open spec fn ids_unique(docs: Seq<Document>) -> bool {
    forall|a: int, b: int| 0 <= a < b < docs.len() ==> (#[trigger] docs[a]).id_spec() != (#[trigger] docs[b]).id_spec()
}

impl Editor {
    pub closed spec fn documents_spec(&self) -> Seq<Document> {
        self.documents@
    }

    pub open spec fn wf(&self) -> bool {
        ids_unique(self.documents_spec())
    }

    pub fn new() -> (r: Editor)
        ensures
            r.wf(),
            r.documents_spec().len() == 0,
    {
        Editor { documents: Vec::new() }
    }

    fn find(&self, id: EditorDocumentId) -> (r: Option<usize>)
        requires
            self.wf(),
        ensures
            r matches Some(i) ==> i < self.documents_spec().len() && document_index(self.documents_spec(), id) == i,
            r is None ==> document_index(self.documents_spec(), id) == -1,
    {
        let mut i: usize = 0;
        while i < self.documents.len()
            invariant
                i <= self.documents@.len(),
                self.wf(),
                forall|k: int| 0 <= k < i ==> (#[trigger] self.documents@[k]).id_spec() != id,
            decreases self.documents@.len() - i,
        {
            if self.documents[i].id() == id {
                proof {
                    let k = document_index(self.documents@, id);
                    if k != i {
                        if k < i {
                            assert(self.documents@[k].id_spec() != self.documents@[i as int].id_spec());
                        } else {
                            assert(self.documents@[i as int].id_spec() != self.documents@[k].id_spec());
                        }
                    }
                }
                return Some(i);
            }
            i = i + 1;
        }
        None
    }

    /// Opens a document under a new identifier.
    pub fn open_document(&mut self, id: EditorDocumentId, source: &str, read_only: bool) -> (r: Result<(), EditorError>)
        requires
            old(self).wf(),
        ensures
            final(self).wf(),
            document_index(old(self).documents_spec(), id) >= 0 ==> r == Err::<(), EditorError>(EditorError::DocumentExists(id))
                && final(self).documents_spec() == old(self).documents_spec(),
            document_index(old(self).documents_spec(), id) < 0 ==> r is Ok
                && final(self).documents_spec().len() == old(self).documents_spec().len() + 1
                && final(self).documents_spec().drop_last() == old(self).documents_spec()
                && ({
                    let d = final(self).documents_spec().last();
                    &&& d.id_spec() == id
                    &&& d.content() == source@
                    &&& d.read_only_spec() == read_only
                    &&& d.revision_spec() == 0
                    &&& d.undo_spec().len() == 0
                    &&& d.redo_spec().len() == 0
                }),
    {
        if self.find(id).is_some() {
            return Err(EditorError::DocumentExists(id));
        }
        let ghost before = self.documents@;
        self.documents.push(Document::new(id, source, read_only));
        proof {
            assert(self.documents@.drop_last() =~= before);
            assert forall|a: int, b: int| 0 <= a < b < self.documents@.len() implies (#[trigger] self.documents@[a]).id_spec()
                != (#[trigger] self.documents@[b]).id_spec() by {
                if b == before.len() {
                    assert(self.documents@[a] == before[a]);
                } else {
                    assert(self.documents@[a] == before[a] && self.documents@[b] == before[b]);
                }
            }
        }
        Ok(())
    }

    /// Closes a document.
    pub fn close_document(&mut self, id: EditorDocumentId) -> (r: Result<(), EditorError>)
        requires
            old(self).wf(),
        ensures
            final(self).wf(),
            ({
                let i = document_index(old(self).documents_spec(), id);
                if i < 0 {
                    r == Err::<(), EditorError>(EditorError::DocumentNotFound(id)) && final(self).documents_spec() == old(self).documents_spec()
                } else {
                    r is Ok && final(self).documents_spec() == old(self).documents_spec().remove(i)
                }
            }),
    {
        match self.find(id) {
            None => Err(EditorError::DocumentNotFound(id)),
            Some(i) => {
                let ghost before = self.documents@;
                self.documents.remove(i);
                proof {
                    assert forall|a: int, b: int| 0 <= a < b < self.documents@.len() implies (#[trigger] self.documents@[a]).id_spec()
                        != (#[trigger] self.documents@[b]).id_spec() by {
                        let x = if a < i { a } else { a + 1 };
                        let y = if b < i { b } else { b + 1 };
                        assert(self.documents@[a] == before[x] && self.documents@[b] == before[y]);
                        assert(before[x].id_spec() != before[y].id_spec());
                    }
                }
                Ok(())
            },
        }
    }

    /// The document under `id`.
    pub fn document(&self, id: EditorDocumentId) -> (r: Result<&Document, EditorError>)
        requires
            self.wf(),
        ensures
            ({
                let i = document_index(self.documents_spec(), id);
                if i < 0 {
                    r == Err::<&Document, EditorError>(EditorError::DocumentNotFound(id))
                } else {
                    r matches Ok(d) && *d == self.documents_spec()[i]
                }
            }),
    {
        match self.find(id) {
            None => Err(EditorError::DocumentNotFound(id)),
            Some(i) => Ok(&self.documents[i]),
        }
    }
}

impl Editor {
    /// The document under `id`, for editing.
    pub fn document_mut(&mut self, id: EditorDocumentId) -> (r: Result<&mut Document, EditorError>)
        requires
            old(self).wf(),
        ensures
            ({
                let i = document_index(old(self).documents_spec(), id);
                if i < 0 {
                    r == Err::<&mut Document, EditorError>(EditorError::DocumentNotFound(id))
                        && final(self).documents_spec() == old(self).documents_spec()
                } else {
                    &&& r is Ok
                    &&& *r->Ok_0 == old(self).documents_spec()[i]
                    &&& final(self).documents_spec() == old(self).documents_spec().update(i, *final(r->Ok_0))
                }
            }),
    {
        match self.find(id) {
            None => Err(EditorError::DocumentNotFound(id)),
            Some(i) => Ok(&mut self.documents[i]),
        }
    }
}

impl Default for Editor {
    fn default() -> (r: Editor)
        ensures
            r.wf(),
            r.documents_spec().len() == 0,
    {
        Editor::new()
    }
}
/// Moving right from a non-empty selection collapses it to its larger end,
/// and moving left to its smaller end, wherever the ends lie in the text.
pub proof fn law_caret_collapses_selection(t: Seq<char>, sel: EditorSelection)
    requires
        sel.anchor != sel.head,
    ensures
        caret_target(t, sel, CaretMovement::Right) == Ok::<usize, EditorError>(if sel.anchor > sel.head { sel.anchor } else { sel.head }),
        caret_target(t, sel, CaretMovement::Left) == Ok::<usize, EditorError>(if sel.anchor < sel.head { sel.anchor } else { sel.head }),
{
}

} // verus!

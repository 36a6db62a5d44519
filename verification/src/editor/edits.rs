//! What a batch of byte-range edits does to a text, and why applying the
//! recorded inverse edits gives the text back.
use vstd::prelude::*;
use crate::editor::document::EditOperation;
use crate::editor::rope::{byte_len, char_index, is_boundary, lemma_char_index, lemma_encode_concat, lemma_prefix_bytes_increase};

verus! {

/// One replacement of a byte range, as undo and redo perform it.
pub struct Replacement {
    pub start_byte: usize,
    pub end_byte: usize,
    pub text: Seq<char>,
}

/// Why a byte offset cannot be edited at: past the end, or inside a character.
pub enum OffsetFault {
    OutOfRange { offset: usize, length: nat },
    NotBoundary(usize),
}

pub open spec fn offset_fault(t: Seq<char>, offset: usize) -> Option<OffsetFault> {
    if offset > byte_len(t) {
        Some(OffsetFault::OutOfRange { offset, length: byte_len(t) })
    } else if !is_boundary(t, offset as int) {
        Some(OffsetFault::NotBoundary(offset))
    } else {
        None
    }
}

/// `t` with the chars between the boundaries `b1` and `b2` replaced by `n`.
pub open spec fn splice(t: Seq<char>, b1: int, b2: int, n: Seq<char>) -> Seq<char> {
    t.take(char_index(t, b1)) + n + t.skip(char_index(t, b2))
}

/// The chars between the boundaries `b1` and `b2`.
pub open spec fn between(t: Seq<char>, b1: int, b2: int) -> Seq<char> {
    t.subrange(char_index(t, b1), char_index(t, b2))
}

/// Where a run of replacements stops: the text reached, and the fault met.
pub enum RunFault {
    Offset(OffsetFault),
    Range { start_byte: usize, end_byte: usize, length: nat },
}

/// Replacements applied one after another, as undo and redo apply them: each
/// offset must be a boundary of the text at that point.
pub open spec fn run_replacements(t: Seq<char>, steps: Seq<Replacement>) -> (Seq<char>, Option<RunFault>)
    decreases steps.len(),
{
    if steps.len() == 0 {
        (t, None)
    } else {
        let s = steps[0];
        if offset_fault(t, s.start_byte) is Some {
            (t, Some(RunFault::Offset(offset_fault(t, s.start_byte)->0)))
        } else if offset_fault(t, s.end_byte) is Some {
            (t, Some(RunFault::Offset(offset_fault(t, s.end_byte)->0)))
        } else if s.start_byte > s.end_byte {
            (t, Some(RunFault::Range { start_byte: s.start_byte, end_byte: s.end_byte, length: byte_len(t) }))
        } else {
            run_replacements(splice(t, s.start_byte as int, s.end_byte as int, s.text), steps.drop_first())
        }
    }
}

/// Running replacements one list after another is running the joined list.
pub proof fn lemma_run_concat(t: Seq<char>, a: Seq<Replacement>, b: Seq<Replacement>)
    requires
        run_replacements(t, a).1 is None,
    ensures
        run_replacements(t, a + b) == run_replacements(run_replacements(t, a).0, b),
    decreases a.len(),
{
    if a.len() == 0 {
        assert(a + b =~= b);
    } else {
        let s = a[0];
        assert((a + b)[0] == s);
        assert((a + b).drop_first() =~= a.drop_first() + b);
        lemma_run_concat(splice(t, s.start_byte as int, s.end_byte as int, s.text), a.drop_first(), b);
    }
}

/// A run that faults at its first replacement faults there whatever follows.
pub proof fn lemma_run_first_fault(t: Seq<char>, x: Replacement, rest: Seq<Replacement>)
    requires
        run_replacements(t, seq![x]).1 is Some,
    ensures
        run_replacements(t, seq![x] + rest) == run_replacements(t, seq![x]),
{
    let all = seq![x] + rest;
    assert(all[0] == x);
    assert(all.len() > 0);
    assert(seq![x].len() == 1 && seq![x][0] == x);
    if offset_fault(t, x.start_byte) is None && offset_fault(t, x.end_byte) is None && x.start_byte <= x.end_byte {
        let u = splice(t, x.start_byte as int, x.end_byte as int, x.text);
        assert(seq![x].drop_first() =~= Seq::<Replacement>::empty());
        assert(run_replacements(u, Seq::<Replacement>::empty()).1 is None);
    }
}

/// Splicing at char positions: the boundaries of the prefix and of the
/// inserted text are where one expects them.
pub proof fn lemma_splice_boundaries(t: Seq<char>, c1: int, c2: int, n: Seq<char>)
    requires
        0 <= c1 <= c2 <= t.len(),
    ensures
        ({
            let u = t.take(c1) + n + t.skip(c2);
            &&& u.take(c1) == t.take(c1)
            &&& is_boundary(u, byte_len(t.take(c1)) as int)
            &&& char_index(u, byte_len(t.take(c1)) as int) == c1
            &&& byte_len(u.take(c1 + n.len())) == byte_len(t.take(c1)) + byte_len(n)
            &&& is_boundary(u, (byte_len(t.take(c1)) + byte_len(n)) as int)
            &&& char_index(u, (byte_len(t.take(c1)) + byte_len(n)) as int) == c1 + n.len()
            &&& u.subrange(c1, c1 + n.len()) == n
            &&& u.take(c1) + t.subrange(c1, c2) + u.skip(c1 + n.len()) == t
        }),
{
    let u = t.take(c1) + n + t.skip(c2);
    assert(u.take(c1) =~= t.take(c1));
    assert(u.take(c1 + n.len()) =~= t.take(c1) + n);
    lemma_encode_concat(t.take(c1), n);
    lemma_char_index(u, c1);
    lemma_char_index(u, c1 + n.len());
    assert(u.subrange(c1, c1 + n.len()) =~= n);
    assert(u.skip(c1 + n.len()) =~= t.skip(c2));
    assert(u.take(c1) + t.subrange(c1, c2) + u.skip(c1 + n.len()) =~= t);
}


/// Where applying a transaction's operations leads: the text reached, the
/// fault met if any, the text each applied operation removed, and whether
/// every text passed through has a byte length that fits a `usize`.
pub struct EditRun {
    pub text: Seq<char>,
    pub fault: Option<RunFault>,
    pub deleted: Seq<Seq<char>>,
    pub fits: bool,
}

pub open spec fn with_prefix(dels: Seq<Seq<char>>, fits: bool, r: EditRun) -> EditRun {
    EditRun { text: r.text, fault: r.fault, deleted: dels + r.deleted, fits: fits && r.fits }
}

/// Operations applied one after another, from the highest start down: each
/// must be an ordered range of boundaries ending at or before `bound`, the
/// start of the operation applied before it.
pub open spec fn run_operations(t: Seq<char>, ops: Seq<EditOperation>, bound: int) -> EditRun
    decreases ops.len(),
{
    if ops.len() == 0 {
        EditRun { text: t, fault: None, deleted: Seq::empty(), fits: true }
    } else {
        let op = ops[0];
        if op.start_byte > op.end_byte || op.end_byte > bound {
            EditRun {
                text: t,
                fault: Some(RunFault::Range { start_byte: op.start_byte, end_byte: op.end_byte, length: byte_len(t) }),
                deleted: Seq::empty(),
                fits: true,
            }
        } else if offset_fault(t, op.start_byte) is Some {
            EditRun { text: t, fault: Some(RunFault::Offset(offset_fault(t, op.start_byte)->0)), deleted: Seq::empty(), fits: true }
        } else if offset_fault(t, op.end_byte) is Some {
            EditRun { text: t, fault: Some(RunFault::Offset(offset_fault(t, op.end_byte)->0)), deleted: Seq::empty(), fits: true }
        } else {
            let u = splice(t, op.start_byte as int, op.end_byte as int, op.inserted@);
            with_prefix(
                seq![between(t, op.start_byte as int, op.end_byte as int)],
                byte_len(u) <= usize::MAX,
                run_operations(u, ops.drop_first(), op.start_byte as int),
            )
        }
    }
}
} // verus!

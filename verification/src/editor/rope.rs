//! The rope that holds a document's text, and the facts about UTF-8 byte
//! offsets that editing relies on.
use vstd::prelude::*;
use vstd::utf8::{encode_scalar, encode_utf8};

verus! {

#[verifier::external_type_specification]
#[verifier::external_body]
pub struct ExRope(ropey::Rope);

/// The characters a rope holds.
pub uninterp spec fn rope_text(r: ropey::Rope) -> Seq<char>;

/// How many lines ropey counts in a text (one more than its line breaks).
pub uninterp spec fn ropey_len_lines(t: Seq<char>) -> nat;

/// The character index at which ropey starts line `line`.
pub uninterp spec fn ropey_line_start(t: Seq<char>, line: nat) -> nat;

/// The line ropey places the character index `c` on.
pub uninterp spec fn ropey_line_of(t: Seq<char>, c: nat) -> nat;

/// The number of UTF-8 bytes of a text.
pub open spec fn byte_len(t: Seq<char>) -> nat {
    encode_utf8(t).len()
}

/// A byte offset that falls between two characters (or at either end).
pub open spec fn is_boundary(t: Seq<char>, b: int) -> bool {
    exists|k: int| 0 <= k <= t.len() && #[trigger] byte_len(t.take(k)) == b
}

/// The character index of a boundary byte offset.
pub open spec fn char_index(t: Seq<char>, b: int) -> int {
    choose|k: int| 0 <= k <= t.len() && #[trigger] byte_len(t.take(k)) == b
}

pub proof fn lemma_encode_concat(a: Seq<char>, b: Seq<char>)
    ensures
        encode_utf8(a + b) == encode_utf8(a) + encode_utf8(b),
    decreases a.len(),
{
    if a.len() == 0 {
        assert(a + b =~= b);
        assert(encode_utf8(a) =~= Seq::<u8>::empty());
        assert(encode_utf8(a) + encode_utf8(b) =~= encode_utf8(b));
    } else {
        lemma_encode_concat(a.drop_first(), b);
        assert((a + b).drop_first() =~= a.drop_first() + b);
        assert((a + b)[0] == a[0]);
        assert(encode_utf8(a + b) =~= encode_scalar(a[0] as u32) + encode_utf8(a.drop_first() + b));
        assert(encode_utf8(a) =~= encode_scalar(a[0] as u32) + encode_utf8(a.drop_first()));
    }
}

pub proof fn lemma_scalar_len(c: char)
    ensures
        1 <= encode_scalar(c as u32).len() <= 4,
{
}

/// Byte lengths of longer prefixes are strictly larger.
pub proof fn lemma_prefix_bytes_increase(t: Seq<char>, i: int, j: int)
    requires
        0 <= i < j <= t.len(),
    ensures
        byte_len(t.take(i)) < byte_len(t.take(j)),
    decreases j - i,
{
    assert(t.take(i + 1) =~= t.take(i) + seq![t[i]]);
    lemma_encode_concat(t.take(i), seq![t[i]]);
    assert(seq![t[i]].drop_first() =~= Seq::<char>::empty());
    assert(encode_utf8(seq![t[i]]) =~= encode_scalar(t[i] as u32) + encode_utf8(Seq::<char>::empty()));
    lemma_scalar_len(t[i]);
    if i + 1 < j {
        lemma_prefix_bytes_increase(t, i + 1, j);
    }
}

/// A boundary has one character index.
pub proof fn lemma_char_index(t: Seq<char>, k: int)
    requires
        0 <= k <= t.len(),
    ensures
        is_boundary(t, byte_len(t.take(k)) as int),
        char_index(t, byte_len(t.take(k)) as int) == k,
{
    let b = byte_len(t.take(k)) as int;
    assert(byte_len(t.take(k)) == b);
    let j = char_index(t, b);
    if j < k {
        lemma_prefix_bytes_increase(t, j, k);
    } else if j > k {
        lemma_prefix_bytes_increase(t, k, j);
    }
}

/// The char index of the character a byte offset falls in (the end of the
/// text for its byte length).
pub open spec fn char_at_byte(t: Seq<char>, b: int) -> int {
    choose|k: int| 0 <= k <= t.len() && #[trigger] byte_len(t.take(k)) <= b && (k < t.len() ==> b < byte_len(t.take(k + 1)))
}

/// What the rope's byte-to-char conversion returns is the char a byte falls in.
pub proof fn lemma_char_at_byte(t: Seq<char>, b: int, k: int)
    requires
        0 <= k <= t.len(),
        byte_len(t.take(k)) <= b,
        k < t.len() ==> b < byte_len(t.take(k + 1)),
    ensures
        char_at_byte(t, b) == k,
{
    assert(k < t.len() ==> b < byte_len(t.take(k + 1)));
    let j = char_at_byte(t, b);
    if j < k {
        if j + 1 < k {
            lemma_prefix_bytes_increase(t, j + 1, k);
        }
    } else if j > k {
        if k + 1 < j {
            lemma_prefix_bytes_increase(t, k + 1, j);
        }
    }
}

/// Later bytes fall in later (or the same) characters.
pub proof fn lemma_char_at_byte_monotone(t: Seq<char>, b1: int, b2: int, k1: int, k2: int)
    requires
        b1 <= b2,
        0 <= k1 <= t.len(),
        byte_len(t.take(k1)) <= b1,
        k1 < t.len() ==> b1 < byte_len(t.take(k1 + 1)),
        0 <= k2 <= t.len(),
        byte_len(t.take(k2)) <= b2,
        k2 < t.len() ==> b2 < byte_len(t.take(k2 + 1)),
    ensures
        k1 <= k2,
{
    if k1 > k2 {
        if k2 + 1 < k1 {
            lemma_prefix_bytes_increase(t, k2 + 1, k1);
        }
    }
}

/// A rope holding `s`.
#[verifier::external_body]
pub fn rope_from_str(s: &str) -> (r: ropey::Rope)
    ensures
        rope_text(r) == s@,
{
    ropey::Rope::from_str(s)
}

/// The rope's length in bytes.
#[verifier::external_body]
pub fn rope_len_bytes(r: &ropey::Rope) -> (n: usize)
    ensures
        n == byte_len(rope_text(*r)),
{
    r.len_bytes()
}

/// The char index of a byte offset; a byte inside a character belongs to it.
#[verifier::external_body]
pub fn rope_byte_to_char(r: &ropey::Rope, b: usize) -> (k: Option<usize>)
    ensures
        k is Some <==> b <= byte_len(rope_text(*r)),
        k matches Some(k) ==> k <= rope_text(*r).len() && byte_len(rope_text(*r).take(k as int)) <= b
            && (k < rope_text(*r).len() ==> b < byte_len(rope_text(*r).take(k + 1))),
{
    r.try_byte_to_char(b).ok()
}

/// The byte offset of a char index.
#[verifier::external_body]
pub fn rope_char_to_byte(r: &ropey::Rope, c: usize) -> (b: Option<usize>)
    ensures
        b is Some <==> c <= rope_text(*r).len(),
        b matches Some(b) ==> b == byte_len(rope_text(*r).take(c as int)),
{
    r.try_char_to_byte(c).ok()
}

/// The text of the chars `c1..c2`.
#[verifier::external_body]
pub fn rope_slice_text(r: &ropey::Rope, c1: usize, c2: usize) -> (s: String)
    requires
        c1 <= c2 <= rope_text(*r).len(),
    ensures
        s@ == rope_text(*r).subrange(c1 as int, c2 as int),
{
    r.slice(c1..c2).to_string()
}

/// Removes the chars `c1..c2`; a reversed or out-of-bounds range is refused
/// and leaves the rope unchanged.
#[verifier::external_body]
pub fn rope_remove(r: &mut ropey::Rope, c1: usize, c2: usize) -> (res: Result<(), String>)
    ensures
        res is Ok <==> c1 <= c2 <= rope_text(*old(r)).len(),
        rope_text(*final(r)) == if c1 <= c2 <= rope_text(*old(r)).len() {
            rope_text(*old(r)).take(c1 as int) + rope_text(*old(r)).skip(c2 as int)
        } else {
            rope_text(*old(r))
        },
{
    match r.try_remove(c1..c2) {
        Ok(()) => Ok(()),
        Err(e) => Err(e.to_string()),
    }
}

/// Inserts `s` at char index `c`; an index past the end is refused and
/// leaves the rope unchanged.
#[verifier::external_body]
pub fn rope_insert(r: &mut ropey::Rope, c: usize, s: &str) -> (res: Result<(), String>)
    ensures
        res is Ok <==> c <= rope_text(*old(r)).len(),
        rope_text(*final(r)) == if c <= rope_text(*old(r)).len() {
            rope_text(*old(r)).take(c as int) + s@ + rope_text(*old(r)).skip(c as int)
        } else {
            rope_text(*old(r))
        },
{
    match r.try_insert(c, s) {
        Ok(()) => Ok(()),
        Err(e) => Err(e.to_string()),
    }
}

/// The whole text.
#[verifier::external_body]
pub fn rope_string(r: &ropey::Rope) -> (s: String)
    ensures
        s@ == rope_text(*r),
{
    r.to_string()
}

/// The number of lines (one more than the line breaks).
#[verifier::external_body]
pub fn rope_len_lines(r: &ropey::Rope) -> (n: usize)
    ensures
        n == ropey_len_lines(rope_text(*r)) && n >= 1,
{
    r.len_lines()
}

/// The char index where a line starts; one past the last line is the end.
#[verifier::external_body]
pub fn rope_line_to_char(r: &ropey::Rope, line: usize) -> (c: usize)
    requires
        line <= ropey_len_lines(rope_text(*r)),
    ensures
        c == ropey_line_start(rope_text(*r), line as nat) && c <= rope_text(*r).len(),
{
    r.line_to_char(line)
}

/// The line of a char index: the line breaks before it.
#[verifier::external_body]
pub fn rope_char_to_line(r: &ropey::Rope, c: usize) -> (l: Option<usize>)
    ensures
        l is Some <==> c <= rope_text(*r).len(),
        l matches Some(l) ==> l == ropey_line_of(rope_text(*r), c as nat) && l < ropey_len_lines(rope_text(*r)),
{
    r.try_char_to_line(c).ok()
}

/// The text of a line, its line break included: the chars from its start
/// to the start of the next line.
#[verifier::external_body]
pub fn rope_line_text(r: &ropey::Rope, line: usize) -> (s: String)
    requires
        line < ropey_len_lines(rope_text(*r)),
    ensures
        s@.len() == ropey_line_start(rope_text(*r), (line + 1) as nat) - ropey_line_start(rope_text(*r), line as nat),
        ropey_line_start(rope_text(*r), line as nat) + s@.len() <= rope_text(*r).len(),
        s@ == rope_text(*r).subrange(
            ropey_line_start(rope_text(*r), line as nat) as int,
            ropey_line_start(rope_text(*r), (line + 1) as nat) as int,
        ),
{
    r.line(line).to_string()
}

} // verus!

//! Lexicographic order on sequences, as `Ord` orders byte arrays and strings.
use vstd::prelude::*;

verus! {

/// `a` orders strictly before `b`: at the first difference `a` is smaller,
/// or `a` is a proper prefix of `b`.
pub open spec fn lex_less(a: Seq<int>, b: Seq<int>) -> bool {
    exists|k: int| 0 <= k <= a.len() && k <= b.len()
        && (forall|j: int| 0 <= j < k ==> a[j] == b[j])
        && #[trigger] lex_step(a, b, k)
}

/// The sequences first differ at `k`, with `a` smaller there or ended.
pub open spec fn lex_step(a: Seq<int>, b: Seq<int>, k: int) -> bool {
    (k == a.len() && k < b.len()) || (k < a.len() && k < b.len() && a[k] < b[k])
}

pub proof fn lemma_lex_asymmetric(a: Seq<int>, b: Seq<int>)
    requires
        lex_less(a, b),
    ensures
        !lex_less(b, a),
{
    let k = choose|k: int| 0 <= k <= a.len() && k <= b.len() && (forall|j: int| 0 <= j < k ==> a[j] == b[j]) && #[trigger] lex_step(a, b, k);
    if lex_less(b, a) {
        let m = choose|m: int| 0 <= m <= b.len() && m <= a.len() && (forall|j: int| 0 <= j < m ==> b[j] == a[j]) && #[trigger] lex_step(b, a, m);
        if m < k {
            assert(a[m] == b[m]);
        } else if k < m {
            assert(a[k] == b[k]);
        }
    }
}

pub proof fn lemma_lex_transitive(a: Seq<int>, b: Seq<int>, c: Seq<int>)
    requires
        lex_less(a, b),
        lex_less(b, c),
    ensures
        lex_less(a, c),
{
    let k = choose|k: int| 0 <= k <= a.len() && k <= b.len() && (forall|j: int| 0 <= j < k ==> a[j] == b[j]) && #[trigger] lex_step(a, b, k);
    let m = choose|m: int| 0 <= m <= b.len() && m <= c.len() && (forall|j: int| 0 <= j < m ==> b[j] == c[j]) && #[trigger] lex_step(b, c, m);
    let w = if k < m { k } else { m };
    assert(forall|j: int| 0 <= j < w ==> a[j] == c[j]);
    if k < m {
        assert(b[k] == c[k]);
    } else if m < k {
        assert(a[m] == b[m]);
    }
    assert(lex_step(a, c, w));
}

/// Neither orders before the other only when they are equal.
pub proof fn lemma_lex_total(a: Seq<int>, b: Seq<int>)
    requires
        !lex_less(a, b),
        !lex_less(b, a),
    ensures
        a == b,
{
    let n: int = if a.len() < b.len() { a.len() as int } else { b.len() as int };
    assert forall|j: int| 0 <= j < n implies a[j] == b[j] by {
        if exists|i: int| 0 <= i < n && a[i] != b[i] {
            lemma_first_difference(a, b, n);
        }
    }
    if a.len() < b.len() {
        assert(lex_step(a, b, a.len() as int));
    } else if b.len() < a.len() {
        assert(lex_step(b, a, b.len() as int));
    }
    assert(a =~= b);
}

proof fn lemma_first_difference(a: Seq<int>, b: Seq<int>, n: int)
    requires
        0 <= n <= a.len(),
        n <= b.len(),
        exists|i: int| 0 <= i < n && a[i] != b[i],
    ensures
        lex_less(a, b) || lex_less(b, a),
    decreases n,
{
    if forall|i: int| 0 <= i < n - 1 ==> a[i] == b[i] {
        let k = n - 1;
        assert(a[k] != b[k]);
        if a[k] < b[k] {
            assert(lex_step(a, b, k));
        } else {
            assert(lex_step(b, a, k));
        }
    } else {
        lemma_first_difference(a, b, n - 1);
    }
}

pub open spec fn byte_ints(s: Seq<u8>) -> Seq<int> {
    Seq::new(s.len(), |i: int| s[i] as int)
}

pub open spec fn char_ints(s: Seq<char>) -> Seq<int> {
    Seq::new(s.len(), |i: int| s[i] as int)
}

/// Whether `a` orders strictly before `b`, byte by byte.
pub fn bytes_less(a: &[u8], b: &[u8]) -> (r: bool)
    ensures
        r == lex_less(byte_ints(a@), byte_ints(b@)),
{
    let x = Ghost(byte_ints(a@));
    let y = Ghost(byte_ints(b@));
    let mut i: usize = 0;
    while i < a.len() && i < b.len()
        invariant
            i <= a@.len(),
            i <= b@.len(),
            x@ == byte_ints(a@),
            y@ == byte_ints(b@),
            forall|j: int| 0 <= j < i ==> a@[j] == b@[j],
        decreases a@.len() - i,
    {
        if a[i] < b[i] {
            proof { assert(lex_step(x@, y@, i as int)); }
            return true;
        }
        if a[i] > b[i] {
            proof {
                assert(lex_step(y@, x@, i as int));
                lemma_lex_asymmetric(y@, x@);
            }
            return false;
        }
        i = i + 1;
    }
    if i == a.len() && i < b.len() {
        proof { assert(lex_step(x@, y@, i as int)); }
        return true;
    }
    proof {
        if lex_less(x@, y@) {
            let k = choose|k: int| 0 <= k <= x@.len() && k <= y@.len() && (forall|j: int| 0 <= j < k ==> x@[j] == y@[j]) && #[trigger] lex_step(x@, y@, k);
            if k < i { assert(x@[k] == y@[k]); }
        }
    }
    false
}

/// Whether `a` orders strictly before `b`, character by character.
pub fn chars_less(a: &[char], b: &[char]) -> (r: bool)
    ensures
        r == lex_less(char_ints(a@), char_ints(b@)),
{
    let x = Ghost(char_ints(a@));
    let y = Ghost(char_ints(b@));
    let mut i: usize = 0;
    while i < a.len() && i < b.len()
        invariant
            i <= a@.len(),
            i <= b@.len(),
            x@ == char_ints(a@),
            y@ == char_ints(b@),
            forall|j: int| 0 <= j < i ==> a@[j] == b@[j],
        decreases a@.len() - i,
    {
        if a[i] < b[i] {
            proof { assert(lex_step(x@, y@, i as int)); }
            return true;
        }
        if a[i] > b[i] {
            proof {
                assert(lex_step(y@, x@, i as int));
                lemma_lex_asymmetric(y@, x@);
            }
            return false;
        }
        i = i + 1;
    }
    if i == a.len() && i < b.len() {
        proof { assert(lex_step(x@, y@, i as int)); }
        return true;
    }
    proof {
        if lex_less(x@, y@) {
            let k = choose|k: int| 0 <= k <= x@.len() && k <= y@.len() && (forall|j: int| 0 <= j < k ==> x@[j] == y@[j]) && #[trigger] lex_step(x@, y@, k);
            if k < i { assert(x@[k] == y@[k]); }
        }
    }
    false
}

} // verus!

verus! {

/// Keys in strictly increasing order, so each occurs once.
pub open spec fn strictly_sorted(keys: Seq<Seq<int>>) -> bool {
    forall|i: int, j: int| 0 <= i < j < keys.len() ==> lex_less(keys[i], keys[j])
}

pub proof fn lemma_lex_irreflexive(a: Seq<int>)
    ensures
        !lex_less(a, a),
{
    if lex_less(a, a) {
        lemma_lex_asymmetric(a, a);
    }
}

/// Where `x` goes in strictly sorted keys, given the first position whose
/// key does not order before `x`: it is present only there, and inserting it
/// there (when absent) keeps the keys sorted.
pub proof fn lemma_sorted_position(keys: Seq<Seq<int>>, pos: int, x: Seq<int>)
    requires
        strictly_sorted(keys),
        0 <= pos <= keys.len(),
        forall|k: int| 0 <= k < pos ==> lex_less(#[trigger] keys[k], x),
        pos < keys.len() ==> !lex_less(keys[pos], x),
    ensures
        (exists|i: int| 0 <= i < keys.len() && keys[i] == x) <==> (pos < keys.len() && keys[pos] == x),
        !(pos < keys.len() && keys[pos] == x) ==> strictly_sorted(keys.insert(pos, x)),
{
    if pos < keys.len() && keys[pos] != x {
        lemma_lex_total_or(keys[pos], x);
    }
    assert forall|i: int| 0 <= i < keys.len() && keys[i] == x implies i == pos by {
        if i < pos {
            lemma_lex_irreflexive(x);
        } else if i > pos {
            lemma_lex_total_or(keys[pos], x);
            if keys[pos] != x {
                lemma_lex_transitive(x, keys[pos], keys[i]);
                lemma_lex_irreflexive(x);
            }
        }
    }
    if !(pos < keys.len() && keys[pos] == x) {
        let t = keys.insert(pos, x);
        assert forall|a: int, b: int| 0 <= a < b < t.len() implies lex_less(t[a], t[b]) by {
            if b < pos {
            } else if b == pos {
                assert(t[a] == keys[a]);
            } else if a == pos {
                assert(t[b] == keys[b - 1]);
                lemma_lex_total_or(keys[pos], x);
                if b - 1 > pos {
                    lemma_lex_transitive(x, keys[pos], keys[b - 1]);
                }
            } else if a < pos {
                assert(t[a] == keys[a] && t[b] == keys[b - 1]);
            } else {
                assert(t[a] == keys[a - 1] && t[b] == keys[b - 1]);
            }
        }
    }
}

/// Two keys are equal or one orders before the other.
pub proof fn lemma_lex_total_or(a: Seq<int>, b: Seq<int>)
    ensures
        a == b || lex_less(a, b) || lex_less(b, a),
{
    if !lex_less(a, b) && !lex_less(b, a) {
        lemma_lex_total(a, b);
    }
}

/// Inserting an element anywhere adds it once to the multiset of elements.
pub proof fn lemma_insert_to_multiset<A>(s: Seq<A>, p: int, e: A)
    requires
        0 <= p <= s.len(),
    ensures
        s.insert(p, e).to_multiset() == s.to_multiset().insert(e),
{
    broadcast use vstd::seq_lib::group_to_multiset_ensures;
    broadcast use vstd::multiset::group_multiset_axioms;
    let t = s.insert(p, e);
    assert(t.remove(p) =~= s);
    assert(t[p] == e);
    assert(t.contains(e));
    assert(t.to_multiset().remove(e) =~= s.to_multiset());
    assert(t.to_multiset() =~= s.to_multiset().insert(e));
}

} // verus!

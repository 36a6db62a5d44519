//! Character-level helpers shared by the parsers and formatters.
use vstd::prelude::*;

verus! {

/// ASCII lower-casing of one character; every other character is unchanged.
pub open spec fn ascii_lower(c: char) -> char {
    if 'A' <= c && c <= 'Z' {
        ((c as u32) + 32) as char
    } else {
        c
    }
}

/// ASCII upper-casing of one character; every other character is unchanged.
pub open spec fn ascii_upper(c: char) -> char {
    if 'a' <= c && c <= 'z' {
        ((c as u32) - 32) as char
    } else {
        c
    }
}

pub open spec fn lower_seq(s: Seq<char>) -> Seq<char> {
    Seq::new(s.len(), |i: int| ascii_lower(s[i]))
}

/// Two texts are equal when ASCII letters are compared without regard to case.
pub open spec fn eq_ignore_ascii_case(a: Seq<char>, b: Seq<char>) -> bool {
    a.len() == b.len() && forall|i: int| 0 <= i < a.len() ==> ascii_lower(#[trigger] a[i]) == ascii_lower(b[i])
}

pub open spec fn is_ascii_alpha(c: char) -> bool {
    ('A' <= c && c <= 'Z') || ('a' <= c && c <= 'z')
}

pub open spec fn is_ascii_digit(c: char) -> bool {
    '0' <= c && c <= '9'
}

pub open spec fn is_prefix(p: Seq<char>, s: Seq<char>) -> bool {
    p.len() <= s.len() && s.subrange(0, p.len() as int) == p
}

pub open spec fn is_suffix(p: Seq<char>, s: Seq<char>) -> bool {
    p.len() <= s.len() && s.subrange(s.len() - p.len(), s.len() as int) == p
}

/// `needle` occurs somewhere inside `hay`.
pub open spec fn contains_sub(hay: Seq<char>, needle: Seq<char>) -> bool {
    exists|k: int| 0 <= k && k + needle.len() <= hay.len() && #[trigger] hay.subrange(k, k + needle.len()) == needle
}

pub fn char_ascii_lower(c: char) -> (r: char)
    ensures
        r == ascii_lower(c),
{
    if 'A' <= c && c <= 'Z' {
        let w: u32 = c as u32;
        let b: u8 = w as u8;
        proof { assert(b as u32 == w) by (bit_vector) requires w < 256, b == w as u8; }
        (b + 32) as char
    } else {
        c
    }
}

pub fn char_ascii_upper(c: char) -> (r: char)
    ensures
        r == ascii_upper(c),
{
    if 'a' <= c && c <= 'z' {
        let w: u32 = c as u32;
        let b: u8 = w as u8;
        proof { assert(b as u32 == w) by (bit_vector) requires w < 256, b == w as u8; }
        (b - 32) as char
    } else {
        c
    }
}

pub fn char_is_ascii_alpha(c: char) -> (r: bool)
    ensures
        r == is_ascii_alpha(c),
{
    ('A' <= c && c <= 'Z') || ('a' <= c && c <= 'z')
}

/// The characters of a string slice, as a vector.
pub fn chars_of(s: &str) -> (v: Vec<char>)
    ensures
        v@ == s@,
{
    let n = s.unicode_len();
    let mut v: Vec<char> = Vec::new();
    let mut i: usize = 0;
    while i < n
        invariant
            n == s@.len(),
            i <= n,
            v@ == s@.subrange(0, i as int),
        decreases n - i,
    {
        let c = s.get_char(i);
        v.push(c);
        i = i + 1;
        proof { assert(v@ =~= s@.subrange(0, i as int)); }
    }
    proof { assert(v@ =~= s@); }
    v
}

/// Builds a `String` holding exactly the given characters; calls std's
/// `FromIterator<char>` for `String` (collecting the characters in order).
#[verifier::external_body]
pub fn string_from_chars(v: &[char]) -> (s: String)
    ensures
        s@ == v@,
{
    v.iter().collect()
}

pub fn lowercase(s: &[char]) -> (r: Vec<char>)
    ensures
        r@ == lower_seq(s@),
{
    let mut r: Vec<char> = Vec::new();
    let mut i: usize = 0;
    while i < s.len()
        invariant
            i <= s@.len(),
            r@ =~= lower_seq(s@.subrange(0, i as int)),
        decreases s@.len() - i,
    {
        let c = char_ascii_lower(s[i]);
        r.push(c);
        i = i + 1;
    }
    proof { assert(s@.subrange(0, s@.len() as int) =~= s@); }
    r
}

pub fn chars_equal(a: &[char], b: &[char]) -> (r: bool)
    ensures
        r == (a@ == b@),
{
    if a.len() != b.len() {
        return false;
    }
    let mut i: usize = 0;
    while i < a.len()
        invariant
            a@.len() == b@.len(),
            i <= a@.len(),
            forall|j: int| 0 <= j < i ==> a@[j] == b@[j],
        decreases a@.len() - i,
    {
        if a[i] != b[i] {
            return false;
        }
        i = i + 1;
    }
    proof { assert(a@ =~= b@); }
    true
}

pub fn chars_eq_ignore_ascii_case(a: &[char], b: &[char]) -> (r: bool)
    ensures
        r == eq_ignore_ascii_case(a@, b@),
{
    if a.len() != b.len() {
        return false;
    }
    let mut i: usize = 0;
    while i < a.len()
        invariant
            a@.len() == b@.len(),
            i <= a@.len(),
            forall|j: int| 0 <= j < i ==> ascii_lower(#[trigger] a@[j]) == ascii_lower(b@[j]),
        decreases a@.len() - i,
    {
        if char_ascii_lower(a[i]) != char_ascii_lower(b[i]) {
            return false;
        }
        i = i + 1;
    }
    true
}

pub fn starts_with_chars(s: &[char], p: &[char]) -> (r: bool)
    ensures
        r == is_prefix(p@, s@),
{
    if p.len() > s.len() {
        return false;
    }
    let mut i: usize = 0;
    while i < p.len()
        invariant
            p@.len() <= s@.len(),
            i <= p@.len(),
            forall|j: int| 0 <= j < i ==> s@[j] == p@[j],
        decreases p@.len() - i,
    {
        if s[i] != p[i] {
            proof { assert(s@.subrange(0, p@.len() as int)[i as int] != p@[i as int]); }
            return false;
        }
        i = i + 1;
    }
    proof { assert(s@.subrange(0, p@.len() as int) =~= p@); }
    true
}

pub fn ends_with_chars(s: &[char], p: &[char]) -> (r: bool)
    ensures
        r == is_suffix(p@, s@),
{
    if p.len() > s.len() {
        return false;
    }
    let off = s.len() - p.len();
    let mut i: usize = 0;
    while i < p.len()
        invariant
            p@.len() <= s@.len(),
            s@.len() == s.len(),
            off == s@.len() - p@.len(),
            i <= p@.len(),
            forall|j: int| 0 <= j < i ==> s@[off + j] == p@[j],
        decreases p@.len() - i,
    {
        if s[off + i] != p[i] {
            proof { assert(s@.subrange(off as int, s@.len() as int)[i as int] != p@[i as int]); }
            return false;
        }
        i = i + 1;
    }
    proof { assert(s@.subrange(off as int, s@.len() as int) =~= p@); }
    true
}

/// Whether `needle` occurs in `hay`.
pub fn contains_chars(hay: &[char], needle: &[char]) -> (r: bool)
    ensures
        r == contains_sub(hay@, needle@),
{
    if needle.len() > hay.len() {
        return false;
    }
    if needle.len() == 0 {
        proof { assert(hay@.subrange(0int, 0int + needle@.len()) =~= needle@); }
        return true;
    }
    let last = hay.len() - needle.len();
    let mut k: usize = 0;
    while k <= last
        invariant
            0 < needle@.len() <= hay@.len(),
            hay@.len() == hay.len(),
            last == hay@.len() - needle@.len(),
            k <= last + 1,
            forall|q: int| 0 <= q < k ==> #[trigger] hay@.subrange(q, q + needle@.len()) != needle@,
        decreases last + 1 - k,
    {
        let mut i: usize = 0;
        let mut same = true;
        while i < needle.len()
            invariant
                0 < needle@.len() <= hay@.len(),
                hay@.len() == hay.len(),
                k <= last,
                last == hay@.len() - needle@.len(),
                i <= needle@.len(),
                same == (forall|j: int| 0 <= j < i ==> hay@[k + j] == needle@[j]),
            decreases needle@.len() - i,
        {
            if hay[k + i] != needle[i] {
                same = false;
            }
            i = i + 1;
        }
        if same {
            proof { assert(hay@.subrange(k as int, k + needle@.len()) =~= needle@); }
            return true;
        }
        proof {
            let j = choose|j: int| 0 <= j < needle@.len() && hay@[k + j] != needle@[j];
            assert(hay@.subrange(k as int, k + needle@.len())[j] != needle@[j]);
        }
        k = k + 1;
    }
    proof {
        assert forall|q: int| 0 <= q && q + needle@.len() <= hay@.len() implies #[trigger] hay@.subrange(q, q + needle@.len()) != needle@ by {
            assert(q < k);
        }
    }
    false
}

/// Decimal digits of a natural number, most significant first.
pub open spec fn decimal(n: nat) -> Seq<char>
    decreases n,
{
    if n < 10 {
        seq![digit_char(n)]
    } else {
        decimal(n / 10).push(digit_char(n % 10))
    }
}

pub open spec fn digit_char(d: nat) -> char {
    if d == 0 { '0' } else if d == 1 { '1' } else if d == 2 { '2' } else if d == 3 { '3' }
    else if d == 4 { '4' } else if d == 5 { '5' } else if d == 6 { '6' } else if d == 7 { '7' }
    else if d == 8 { '8' } else { '9' }
}

fn exec_digit_char(d: u64) -> (c: char)
    requires
        d < 10,
    ensures
        c == digit_char(d as nat),
{
    if d == 0 { '0' } else if d == 1 { '1' } else if d == 2 { '2' } else if d == 3 { '3' }
    else if d == 4 { '4' } else if d == 5 { '5' } else if d == 6 { '6' } else if d == 7 { '7' }
    else if d == 8 { '8' } else { '9' }
}

/// Appends the decimal form of `n` (as `Display` for integers writes it).
pub fn push_decimal(out: &mut Vec<char>, n: u64)
    ensures
        final(out)@ == old(out)@ + decimal(n as nat),
    decreases n,
{
    if n < 10 {
        out.push(exec_digit_char(n));
        proof { assert(decimal(n as nat) =~= seq![digit_char(n as nat)]); }
    } else {
        push_decimal(out, n / 10);
        out.push(exec_digit_char(n % 10));
        proof {
            assert(decimal(n as nat) == decimal((n / 10) as nat).push(digit_char((n % 10) as nat)));
        }
    }
}

/// Appends all of `s` to `out`.
pub fn push_all(out: &mut Vec<char>, s: &[char])
    ensures
        final(out)@ == old(out)@ + s@,
{
    let mut i: usize = 0;
    while i < s.len()
        invariant
            i <= s@.len(),
            out@ =~= old(out)@ + s@.subrange(0, i as int),
        decreases s@.len() - i,
    {
        out.push(s[i]);
        i = i + 1;
    }
    proof { assert(s@.subrange(0, s@.len() as int) =~= s@); }
}

/// Appends all characters of a string slice to `out`.
pub fn push_str(out: &mut Vec<char>, s: &str)
    ensures
        final(out)@ == old(out)@ + s@,
{
    let v = chars_of(s);
    push_all(out, v.as_slice());
}

} // verus!

verus! {

/// The pieces of `s` between `/` separators (one piece when there is none).
pub open spec fn split_slash(s: Seq<char>) -> Seq<Seq<char>>
    decreases s.len(),
{
    if s.len() == 0 {
        seq![Seq::<char>::empty()]
    } else {
        let rest = split_slash(s.drop_last());
        if s.last() == '/' {
            rest.push(Seq::empty())
        } else {
            rest.update(rest.len() - 1, rest.last().push(s.last()))
        }
    }
}

/// Splitting always yields at least one piece.
pub proof fn lemma_split_nonempty_pub(s: Seq<char>)
    ensures
        split_slash(s).len() >= 1,
{
    lemma_split_nonempty(s);
}

proof fn lemma_split_nonempty(s: Seq<char>)
    ensures
        split_slash(s).len() >= 1,
    decreases s.len(),
{
    if s.len() > 0 {
        lemma_split_nonempty(s.drop_last());
    }
}

/// Splits `s` at every `/`.
pub fn split_at_slash(s: &[char]) -> (r: Vec<Vec<char>>)
    ensures
        r@.len() == split_slash(s@).len(),
        forall|i: int| 0 <= i < r@.len() ==> (#[trigger] r@[i])@ == split_slash(s@)[i],
{
    let mut out: Vec<Vec<char>> = Vec::new();
    let mut cur: Vec<char> = Vec::new();
    let mut i: usize = 0;
    while i < s.len()
        invariant
            i <= s@.len(),
            out@.len() + 1 == split_slash(s@.subrange(0, i as int)).len(),
            forall|k: int| 0 <= k < out@.len() ==> (#[trigger] out@[k])@ == split_slash(s@.subrange(0, i as int))[k],
            cur@ == split_slash(s@.subrange(0, i as int)).last(),
        decreases s@.len() - i,
    {
        let ghost pre = s@.subrange(0, i as int);
        let ghost next = s@.subrange(0, i + 1);
        proof {
            assert(next.drop_last() =~= pre);
            lemma_split_nonempty(pre);
        }
        if s[i] == '/' {
            out.push(cur);
            cur = Vec::new();
            proof {
                assert forall|k: int| 0 <= k < out@.len() implies (#[trigger] out@[k])@ == split_slash(next)[k] by {
                    if k < out@.len() - 1 {
                        assert(split_slash(next)[k] == split_slash(pre)[k]);
                    }
                }
                assert(cur@ =~= split_slash(next).last());
            }
        } else {
            cur.push(s[i]);
            proof {
                assert forall|k: int| 0 <= k < out@.len() implies (#[trigger] out@[k])@ == split_slash(next)[k] by {
                    assert(split_slash(next)[k] == split_slash(pre)[k]);
                }
            }
        }
        i = i + 1;
    }
    proof { assert(s@.subrange(0, s@.len() as int) =~= s@); }
    out.push(cur);
    proof {
        assert forall|k: int| 0 <= k < out@.len() implies (#[trigger] out@[k])@ == split_slash(s@)[k] by {}
    }
    out
}

/// The value of a string of decimal digits.
pub open spec fn digits_value(s: Seq<char>) -> nat
    decreases s.len(),
{
    if s.len() == 0 { 0 } else { digits_value(s.drop_last()) * 10 + ((s.last() as u32) - ('0' as u32)) as nat }
}

pub open spec fn all_digits(s: Seq<char>) -> bool {
    forall|i: int| 0 <= i < s.len() ==> is_ascii_digit(#[trigger] s[i])
}

/// What `u64::from_str` reads: an optional `+`, then at least one digit,
/// with a value that fits.
pub open spec fn u64_text_value(s: Seq<char>) -> Option<u64> {
    let d = if s.len() > 0 && s[0] == '+' { s.drop_first() } else { s };
    if d.len() > 0 && all_digits(d) && digits_value(d) <= u64::MAX { Some(digits_value(d) as u64) } else { None }
}

/// Reads a `u64` as `u64::from_str` does.
pub fn parse_u64(s: &[char]) -> (r: Option<u64>)
    ensures
        r == u64_text_value(s@),
{
    let start: usize = if s.len() > 0 && s[0] == '+' { 1 } else { 0 };
    let ghost d = if s@.len() > 0 && s@[0] == '+' { s@.drop_first() } else { s@ };
    proof { assert(d =~= s@.subrange(start as int, s@.len() as int)); }
    if start >= s.len() {
        return None;
    }
    let mut value: u64 = 0;
    let mut i: usize = start;
    while i < s.len()
        invariant
            start <= i <= s@.len(),
            d == s@.subrange(start as int, s@.len() as int),
            d == (if s@.len() > 0 && s@[0] == '+' { s@.drop_first() } else { s@ }),
            d.len() > 0,
            all_digits(s@.subrange(start as int, i as int)),
            value as nat == digits_value(s@.subrange(start as int, i as int)),
        decreases s@.len() - i,
    {
        let ghost pre = s@.subrange(start as int, i as int);
        let ghost next = s@.subrange(start as int, i + 1);
        proof { assert(next.drop_last() =~= pre); }
        let c = s[i];
        if !('0' <= c && c <= '9') {
            proof {
                assert(d[i - start] == s@[i as int]);
                assert(!is_ascii_digit(d[i - start]));
                assert(!all_digits(d));
            }
            return None;
        }
        let digit: u64 = ((c as u32) - 48) as u64;
        proof {
            assert(next.last() == c);
            assert(all_digits(next)) by {
                assert forall|k: int| 0 <= k < next.len() implies is_ascii_digit(#[trigger] next[k]) by {
                    if k < pre.len() { assert(next[k] == pre[k]); }
                }
            }
            assert(digits_value(next) == digits_value(pre) * 10 + digit);
            assert(next =~= d.subrange(0, i - start + 1));
        }
        match value.checked_mul(10) {
            Some(m) => match m.checked_add(digit) {
                Some(v) => { value = v; },
                None => {
                    proof { lemma_digits_prefix_bound(d, (i - start + 1) as int); }
                    return None;
                },
            },
            None => {
                proof { lemma_digits_prefix_bound(d, (i - start + 1) as int); }
                return None;
            },
        }
        i = i + 1;
    }
    proof { assert(s@.subrange(start as int, i as int) =~= d); }
    Some(value)
}

/// A digit string's value is at least that of any of its prefixes.
proof fn lemma_digits_prefix_bound(d: Seq<char>, n: int)
    requires
        0 <= n <= d.len(),
        all_digits(d.subrange(0, n)),
        all_digits(d) || true,
    ensures
        all_digits(d) ==> digits_value(d.subrange(0, n)) <= digits_value(d),
    decreases d.len() - n,
{
    if n < d.len() && all_digits(d) {
        assert(all_digits(d.subrange(0, n + 1)));
        lemma_digits_prefix_bound(d, n + 1);
        assert(d.subrange(0, n + 1).drop_last() =~= d.subrange(0, n));
    } else if n == d.len() {
        assert(d.subrange(0, n) =~= d);
    }
}

/// The decimal text of a number reads back as the number.
pub proof fn lemma_decimal_value(n: nat)
    ensures
        all_digits(decimal(n)),
        decimal(n).len() > 0,
        digits_value(decimal(n)) == n,
        decimal(n)[0] != '+',
    decreases n,
{
    assert((digit_char(n % 10) as u32) - ('0' as u32) == n % 10);
    if n < 10 {
        let s = decimal(n);
        assert(s =~= seq![digit_char(n)]);
        assert(s.drop_last() =~= Seq::<char>::empty());
        assert(digits_value(s.drop_last()) == 0);
        assert(s.last() == digit_char(n));
        assert(n % 10 == n);
        assert(digits_value(s) == digits_value(s.drop_last()) * 10 + ((s.last() as u32) - ('0' as u32)) as nat);
    }
    if n >= 10 {
        lemma_decimal_value(n / 10);
        let s = decimal(n);
        assert(s.drop_last() =~= decimal(n / 10));
        assert(s.last() == digit_char(n % 10));
        assert(digits_value(s) == digits_value(decimal(n / 10)) * 10 + ((s.last() as u32) - ('0' as u32)) as nat);
        assert(digits_value(s) == (n / 10) * 10 + n % 10);
        assert forall|i: int| 0 <= i < s.len() implies is_ascii_digit(#[trigger] s[i]) by {
            if i < s.len() - 1 { assert(s[i] == decimal(n / 10)[i]); }
        }
    }
}

} // verus!

verus! {

pub proof fn lemma_split_plain(x: Seq<char>)
    requires
        !x.contains('/'),
    ensures
        split_slash(x) == seq![x],
    decreases x.len(),
{
    if x.len() > 0 {
        let p = x.drop_last();
        assert(!p.contains('/')) by {
            if p.contains('/') {
                let k = choose|k: int| 0 <= k < p.len() && p[k] == '/';
                assert(x[k] == '/');
            }
        }
        lemma_split_plain(p);
        assert(x.last() != '/') by { assert(x.contains(x.last())); }
        assert(p.push(x.last()) =~= x);
        assert(seq![p].update(0, p.push(x.last())) =~= seq![x]);
    } else {
        assert(x =~= Seq::<char>::empty());
    }
}

/// Splitting text joined by a `/` splits each side.
pub proof fn lemma_split_concat(x: Seq<char>, y: Seq<char>)
    ensures
        split_slash(x + seq!['/'] + y) == split_slash(x) + split_slash(y),
    decreases y.len(),
{
    lemma_split_nonempty(x);
    if y.len() == 0 {
        let t = x + seq!['/'];
        assert((x + seq!['/'] + y) =~= t);
        assert(t.drop_last() =~= x);
        assert(split_slash(x) + split_slash(y) =~= split_slash(x).push(Seq::empty()));
    } else {
        let y0 = y.drop_last();
        let c = y.last();
        lemma_split_concat(x, y0);
        lemma_split_nonempty(y0);
        let t = x + seq!['/'] + y;
        assert(t.drop_last() =~= x + seq!['/'] + y0);
        assert(t.last() == c);
        assert(y.drop_last() =~= y0);
        if c == '/' {
            assert(split_slash(x) + split_slash(y0).push(Seq::empty()) =~= (split_slash(x) + split_slash(y0)).push(Seq::empty()));
        } else {
            let a = split_slash(x);
            let b = split_slash(y0);
            assert((a + b).update((a + b).len() - 1, (a + b).last().push(c)) =~= a + b.update(b.len() - 1, b.last().push(c)));
        }
    }
}

} // verus!

//! Lower-case hexadecimal encoding of byte strings and its inverse.
use vstd::prelude::*;

verus! {

pub open spec fn nibble_char(n: u8) -> char {
    if n < 10 {
        (('0' as u32) + n as u32) as char
    } else {
        (('a' as u32) + (n as u32 - 10)) as char
    }
}

/// Lower-case hex of `bytes`, two characters per byte, high nibble first.
pub open spec fn hex_of(bytes: Seq<u8>) -> Seq<char> {
    Seq::new(2 * bytes.len(), |i: int| if i % 2 == 0 { nibble_char(bytes[i / 2] / 16) } else { nibble_char(bytes[i / 2] % 16) })
}

/// The value of one lower-case hex digit.
pub open spec fn lower_nibble_value(c: char) -> Option<u8> {
    if '0' <= c && c <= '9' {
        Some((c as u32 - '0' as u32) as u8)
    } else if 'a' <= c && c <= 'f' {
        Some((c as u32 - 'a' as u32 + 10) as u8)
    } else {
        None
    }
}

/// The value of one hex digit of either case.
pub open spec fn any_nibble_value(c: char) -> Option<u8> {
    if 'A' <= c && c <= 'F' {
        Some((c as u32 - 'A' as u32 + 10) as u8)
    } else {
        lower_nibble_value(c)
    }
}

pub open spec fn is_lower_hex(s: Seq<char>) -> bool {
    forall|i: int| 0 <= i < s.len() ==> lower_nibble_value(#[trigger] s[i]) is Some
}

proof fn lemma_nibble_round_trip(n: u8)
    requires
        n < 16,
    ensures
        lower_nibble_value(nibble_char(n)) == Some(n),
        any_nibble_value(nibble_char(n)) == Some(n),
{
}

fn exec_nibble_char(n: u8) -> (c: char)
    requires
        n < 16,
    ensures
        c == nibble_char(n),
{
    if n < 10 {
        (48u8 + n) as char
    } else {
        (97u8 + (n - 10)) as char
    }
}

fn exec_lower_nibble_value(c: char) -> (r: Option<u8>)
    ensures
        r == lower_nibble_value(c),
{
    if '0' <= c && c <= '9' {
        let w: u32 = c as u32;
        Some((w - 48) as u8)
    } else if 'a' <= c && c <= 'f' {
        let w: u32 = c as u32;
        Some((w - 97 + 10) as u8)
    } else {
        None
    }
}

pub fn exec_any_nibble_value(c: char) -> (r: Option<u8>)
    ensures
        r == any_nibble_value(c),
{
    if 'A' <= c && c <= 'F' {
        let w: u32 = c as u32;
        Some((w - 65 + 10) as u8)
    } else {
        exec_lower_nibble_value(c)
    }
}

/// Appends the lower-case hex encoding of `bytes` to `out`.
pub fn push_hex(out: &mut Vec<char>, bytes: &[u8])
    ensures
        final(out)@ == old(out)@ + hex_of(bytes@),
{
    let mut i: usize = 0;
    while i < bytes.len()
        invariant
            i <= bytes@.len(),
            out@ =~= old(out)@ + hex_of(bytes@.subrange(0, i as int)),
        decreases bytes@.len() - i,
    {
        let b = bytes[i];
        out.push(exec_nibble_char(b / 16));
        out.push(exec_nibble_char(b % 16));
        i = i + 1;
        proof {
            let pre = bytes@.subrange(0, (i - 1) as int);
            let cur = bytes@.subrange(0, i as int);
            assert(hex_of(cur) =~= hex_of(pre) + seq![nibble_char(b / 16), nibble_char(b % 16)]) by {
                assert forall|k: int| 0 <= k < hex_of(cur).len() implies hex_of(cur)[k] == (hex_of(pre) + seq![nibble_char(b / 16), nibble_char(b % 16)])[k] by {
                    if k < 2 * pre.len() {
                        assert(cur[k / 2] == pre[k / 2]);
                    }
                }
            }
        }
    }
    proof { assert(bytes@.subrange(0, bytes@.len() as int) =~= bytes@); }
}

/// Appends the lower-case hex of `bytes[lo..hi]` to `out`.
pub fn push_hex_range(out: &mut Vec<char>, bytes: &[u8], lo: usize, hi: usize)
    requires
        lo <= hi <= bytes@.len(),
    ensures
        final(out)@ == old(out)@ + hex_of(bytes@.subrange(lo as int, hi as int)),
{
    let mut part: Vec<u8> = Vec::new();
    let mut i: usize = lo;
    while i < hi
        invariant
            lo <= i <= hi,
            hi <= bytes@.len(),
            part@ =~= bytes@.subrange(lo as int, i as int),
        decreases hi - i,
    {
        part.push(bytes[i]);
        i = i + 1;
    }
    push_hex(out, part.as_slice());
}

/// Lower-case hex text of `bytes`.
pub fn encode_hex(bytes: &[u8]) -> (r: Vec<char>)
    ensures
        r@ == hex_of(bytes@),
{
    let mut r: Vec<char> = Vec::new();
    push_hex(&mut r, bytes);
    proof { assert(r@ =~= hex_of(bytes@)); }
    r
}

/// Decodes exactly 32 lower-case hex digits into 16 bytes.
pub fn decode_lower_hex16(s: &[char]) -> (r: Option<[u8; 16]>)
    ensures
        r is Some <==> (s@.len() == 32 && is_lower_hex(s@)),
        r matches Some(b) ==> s@ == hex_of(b@),
{
    if s.len() != 32 {
        return None;
    }
    let mut out: [u8; 16] = [0u8; 16];
    let mut i: usize = 0;
    while i < 16
        invariant
            s@.len() == 32,
            i <= 16,
            out@.len() == 16,
            forall|k: int| 0 <= k < 2 * i ==> lower_nibble_value(#[trigger] s@[k]) is Some,
            forall|k: int| 0 <= k < 2 * i ==> #[trigger] s@[k] == hex_of(out@)[k],
        decreases 16 - i,
    {
        let hi = exec_lower_nibble_value(s[2 * i]);
        let lo = exec_lower_nibble_value(s[2 * i + 1]);
        match (hi, lo) {
            (Some(h), Some(l)) => {
                let ghost old_out = out@;
                let v: u8 = h * 16 + l;
                out[i] = v;
                proof {
                    assert(v / 16 == h && v % 16 == l);
                    lemma_char_of_value(s@[2 * i as int]);
                    lemma_char_of_value(s@[2 * i as int + 1]);
                    assert forall|k: int| 0 <= k < 2 * i + 2 implies #[trigger] s@[k] == hex_of(out@)[k] by {
                        if k < 2 * i {
                            assert(out@[k / 2] == old_out[k / 2]);
                            assert(s@[k] == hex_of(old_out)[k]);
                        }
                    }
                }
            },
            _ => {
                proof {
                    if hi is None {
                        assert(!is_lower_hex(s@) || lower_nibble_value(s@[2 * i as int]) is Some);
                    } else {
                        assert(!is_lower_hex(s@) || lower_nibble_value(s@[2 * i as int + 1]) is Some);
                    }
                }
                return None;
            },
        }
        i = i + 1;
    }
    proof {
        assert(s@ =~= hex_of(out@));
    }
    Some(out)
}

proof fn lemma_char_of_value(c: char)
    requires
        lower_nibble_value(c) is Some,
    ensures
        nibble_char(lower_nibble_value(c)->0) == c,
{
}

/// The value of a hex digit pair as `u8::from_str_radix(_, 16)` reads it:
/// two digits of either case, or `+` followed by one digit.
pub open spec fn radix_pair_value(a: char, b: char) -> Option<u8> {
    if a == '+' {
        any_nibble_value(b)
    } else {
        match (any_nibble_value(a), any_nibble_value(b)) {
            (Some(h), Some(l)) => Some((h * 16 + l) as u8),
            _ => None,
        }
    }
}

/// Decodes 32 characters as 16 hex pairs read with `u8::from_str_radix`.
pub fn decode_radix_pairs16(s: &[char]) -> (r: Option<[u8; 16]>)
    ensures
        r is Some <==> (s@.len() == 32 && forall|k: int| 0 <= k < 16 ==> #[trigger] radix_pair_value(s@[2 * k], s@[2 * k + 1]) is Some),
        r matches Some(b) ==> forall|k: int| 0 <= k < 16 ==> radix_pair_value(s@[2 * k], s@[2 * k + 1]) == Some(#[trigger] b@[k]),
{
    if s.len() != 32 {
        return None;
    }
    let mut out: [u8; 16] = [0u8; 16];
    let mut i: usize = 0;
    while i < 16
        invariant
            s@.len() == 32,
            i <= 16,
            out@.len() == 16,
            forall|k: int| 0 <= k < i ==> radix_pair_value(s@[2 * k], s@[2 * k + 1]) == Some(#[trigger] out@[k]),
        decreases 16 - i,
    {
        let a = s[2 * i];
        let b = s[2 * i + 1];
        let value: Option<u8> = if a == '+' {
            exec_any_nibble_value(b)
        } else {
            match (exec_any_nibble_value(a), exec_any_nibble_value(b)) {
                (Some(h), Some(l)) => Some(h * 16 + l),
                _ => None,
            }
        };
        match value {
            Some(v) => {
                let ghost old_out = out@;
                out[i] = v;
                proof {
                    assert forall|k: int| 0 <= k < i + 1 implies radix_pair_value(s@[2 * k], s@[2 * k + 1]) == Some(#[trigger] out@[k]) by {
                        if k < i {
                            assert(out@[k] == old_out[k]);
                        }
                    }
                }
            },
            None => {
                proof { assert(radix_pair_value(s@[2 * (i as int)], s@[2 * (i as int) + 1]) is None); }
                return None;
            },
        }
        i = i + 1;
    }
    proof {
        assert forall|k: int| 0 <= k < 16 implies #[trigger] radix_pair_value(s@[2 * k], s@[2 * k + 1]) is Some by {
            assert(radix_pair_value(s@[2 * k], s@[2 * k + 1]) == Some(out@[k]));
        }
    }
    Some(out)
}

/// Hex encoding is one-to-one.
pub proof fn lemma_hex_injective(a: Seq<u8>, b: Seq<u8>)
    requires
        a.len() == b.len(),
        hex_of(a) == hex_of(b),
    ensures
        a == b,
{
    assert forall|k: int| 0 <= k < a.len() implies a[k] == b[k] by {
        let ha = hex_of(a);
        let hb = hex_of(b);
        assert(ha[2 * k] == hb[2 * k]);
        assert(ha[2 * k + 1] == hb[2 * k + 1]);
        assert((2 * k) / 2 == k && (2 * k) % 2 == 0);
        assert((2 * k + 1) / 2 == k && (2 * k + 1) % 2 == 1);
        lemma_nibble_round_trip(a[k] / 16);
        lemma_nibble_round_trip(b[k] / 16);
        lemma_nibble_round_trip(a[k] % 16);
        lemma_nibble_round_trip(b[k] % 16);
        assert(a[k] / 16 == b[k] / 16);
        assert(a[k] % 16 == b[k] % 16);
    }
    assert(a =~= b);
}

/// Hex text consists of lower-case hex digits.
pub proof fn lemma_hex_is_lower(a: Seq<u8>)
    ensures
        is_lower_hex(hex_of(a)),
{
    assert forall|i: int| 0 <= i < hex_of(a).len() implies lower_nibble_value(#[trigger] hex_of(a)[i]) is Some by {
        lemma_nibble_round_trip(a[i / 2] / 16);
        lemma_nibble_round_trip(a[i / 2] % 16);
    }
}

} // verus!

//! Absolute Wine guest paths such as `C:\users\player`.
use vstd::prelude::*;
use crate::text::{ascii_upper, char_ascii_upper, char_is_ascii_alpha, chars_eq_ignore_ascii_case, chars_of, eq_ignore_ascii_case, is_ascii_alpha, push_all, string_from_chars};
use super::model::PathError;
use super::host_path::{dot, dot_dot, parts_eq_ignore_case};

verus! {

pub struct WinePathView {
    pub drive: char,
    pub parts: Seq<Seq<char>>,
}

#[derive(Debug, Eq, Hash, Ord, PartialEq, PartialOrd)]
pub struct WinePath {
    drive: char,
    components: Vec<String>,
}

impl View for WinePath {
    type V = WinePathView;

    closed spec fn view(&self) -> WinePathView {
        WinePathView { drive: self.drive, parts: self.components@.map_values(|c: String| c@) }
    }
}

pub open spec fn is_wine_separator(c: char) -> bool {
    c == '\\' || c == '/'
}

/// Why a text is not an accepted guest path.
#[derive(Clone, Copy, Debug, Eq, PartialEq)]
pub enum WineFault {
    Unc,
    Malformed,
    Traversal,
}

/// The error value that a fault is reported as, for the text `whole`.
pub open spec fn fault_error(f: WineFault, whole: Seq<char>, e: PathError) -> bool {
    match f {
        WineFault::Unc => e == PathError::UnsupportedUnc,
        WineFault::Traversal => e == PathError::Traversal,
        WineFault::Malformed => e matches PathError::MalformedWinePath(t) && t@ == whole,
    }
}

/// Accepts one raw component of a guest path.
pub open spec fn wine_flush(acc: Seq<Seq<char>>, piece: Seq<char>) -> Result<Seq<Seq<char>>, WineFault> {
    if piece.len() == 0 || piece == dot() {
        Ok(acc)
    } else if piece == dot_dot() {
        Err(WineFault::Traversal)
    } else if piece.contains('\0') || piece.contains(':') {
        Err(WineFault::Malformed)
    } else {
        Ok(acc.push(piece))
    }
}

/// Reads the components of `s` (the text after `X:\`), left to right.
pub open spec fn wine_scan(acc: Seq<Seq<char>>, cur: Seq<char>, s: Seq<char>) -> Result<Seq<Seq<char>>, WineFault>
    decreases s.len(),
{
    if s.len() == 0 {
        wine_flush(acc, cur)
    } else if is_wine_separator(s[0]) {
        match wine_flush(acc, cur) {
            Ok(next) => wine_scan(next, Seq::empty(), s.drop_first()),
            Err(e) => Err(e),
        }
    } else {
        wine_scan(acc, cur.push(s[0]), s.drop_first())
    }
}

/// The result of parsing `s` as an absolute Wine path.
pub open spec fn parse_wine_path(s: Seq<char>) -> Result<WinePathView, WineFault> {
    if s.len() >= 2 && ((s[0] == '\\' && s[1] == '\\') || (s[0] == '/' && s[1] == '/')) {
        Err(WineFault::Unc)
    } else if s.len() < 3 || !is_ascii_alpha(s[0]) || s[1] != ':' || !is_wine_separator(s[2]) {
        Err(WineFault::Malformed)
    } else {
        match wine_scan(Seq::empty(), Seq::empty(), s.subrange(3, s.len() as int)) {
            Ok(parts) => Ok(WinePathView { drive: ascii_upper(s[0]), parts }),
            Err(e) => Err(e),
        }
    }
}

/// Components joined by `\`.
pub open spec fn join_backslash(parts: Seq<Seq<char>>) -> Seq<char>
    decreases parts.len(),
{
    if parts.len() == 0 {
        Seq::empty()
    } else if parts.len() == 1 {
        parts[0]
    } else {
        join_backslash(parts.drop_last()).push('\\') + parts.last()
    }
}

/// `X:\a\b` for drive `X` and components `a`, `b`.
pub open spec fn wine_path_text(p: WinePathView) -> Seq<char> {
    seq![p.drive, ':', '\\'] + join_backslash(p.parts)
}

pub open spec fn equivalent_guest_spec(a: WinePathView, b: WinePathView) -> bool {
    a.drive == b.drive && parts_eq_ignore_case(a.parts, b.parts)
}

fn flush_exec(acc: &mut Vec<String>, piece: &Vec<char>, whole: &Vec<char>) -> (r: Result<(), PathError>)
    ensures
        match wine_flush(old(acc)@.map_values(|c: String| c@), piece@) {
            Ok(next) => r is Ok && final(acc)@.map_values(|c: String| c@) == next,
            Err(f) => r matches Err(e) && fault_error(f, whole@, e),
        },
{
    let ghost before = acc@.map_values(|c: String| c@);
    let n = piece.len();
    if n == 0 || (n == 1 && piece[0] == '.') {
        proof { if n == 1 { assert(piece@ =~= dot()); } }
        return Ok(());
    }
    if n == 2 && piece[0] == '.' && piece[1] == '.' {
        proof { assert(piece@ =~= dot_dot()); }
        return Err(PathError::Traversal);
    }
    proof {
        assert(piece@ != dot()) by { if piece@.len() == 1 { assert(piece@[0] != '.' || piece@ =~= dot()); } }
        assert(piece@ != dot_dot()) by { if piece@.len() == 2 { assert(piece@[0] != '.' || piece@[1] != '.' || piece@ =~= dot_dot()); } }
    }
    let mut i: usize = 0;
    while i < n
        invariant
            n == piece@.len(),
            i <= n,
            forall|k: int| 0 <= k < i ==> piece@[k] != '\0' && piece@[k] != ':',
        decreases n - i,
    {
        if piece[i] == '\0' || piece[i] == ':' {
            proof { assert(piece@.contains(piece@[i as int])); }
            let text = string_from_chars(whole.as_slice());
            proof { assert(piece@.contains('\0') || piece@.contains(':')); }
            return Err(PathError::MalformedWinePath(text));
        }
        i = i + 1;
    }
    acc.push(string_from_chars(piece.as_slice()));
    proof { assert(acc@.map_values(|c: String| c@) =~= before.push(piece@)); }
    Ok(())
}

impl Clone for WinePath {
    fn clone(&self) -> (r: Self)
        ensures
            r@ == self@,
    {
        self.duplicate()
    }
}

impl WinePath {
    /// A copy with the same value.
    pub fn duplicate(&self) -> (r: WinePath)
        ensures
            r@ == self@,
    {
        WinePath { drive: self.drive, components: self.components() }
    }

    /// The drive letter, upper case.
    pub fn drive(&self) -> (r: char)
        ensures
            r == self@.drive,
    {
        self.drive
    }

    /// The components after the drive.
    pub fn components(&self) -> (r: Vec<String>)
        ensures
            r@.map_values(|c: String| c@) == self@.parts,
    {
        let mut out: Vec<String> = Vec::new();
        let mut i: usize = 0;
        while i < self.components.len()
            invariant
                i <= self.components@.len(),
                out@.map_values(|c: String| c@) =~= self@.parts.subrange(0, i as int),
            decreases self.components@.len() - i,
        {
            let ghost before = out@.map_values(|c: String| c@);
            let c = self.components[i].clone();
            out.push(c);
            proof { assert(out@.map_values(|c: String| c@) =~= before.push(c@)); }
            i = i + 1;
        }
        proof { assert(self@.parts.subrange(0, self@.parts.len() as int) =~= self@.parts); }
        out
    }

    /// A guest path with the drive letter upper-cased and the given components.
    pub fn from_parts(drive: char, components: Vec<String>) -> (p: WinePath)
        ensures
            p@.drive == ascii_upper(drive),
            p@.parts == components@.map_values(|c: String| c@),
    {
        WinePath { drive: char_ascii_upper(drive), components }
    }

    /// Parses an absolute Wine path: a drive letter, `:`, a separator, then
    /// components split at `\` or `/`. Empty and `.` components are dropped;
    /// `..` is refused as traversal, UNC paths are refused, and a component
    /// holding `:` or NUL makes the path malformed.
    pub fn parse(value: &str) -> (r: Result<WinePath, PathError>)
        ensures
            match parse_wine_path(value@) {
                Ok(v) => r matches Ok(p) && p@ == v,
                Err(f) => r matches Err(e) && fault_error(f, value@, e),
            },
    {
        let s = chars_of(value);
        let n = s.len();
        if n >= 2 && ((s[0] == '\\' && s[1] == '\\') || (s[0] == '/' && s[1] == '/')) {
            return Err(PathError::UnsupportedUnc);
        }
        if n < 3 || !char_is_ascii_alpha(s[0]) || s[1] != ':' || !(s[2] == '\\' || s[2] == '/') {
            return Err(PathError::MalformedWinePath(string_from_chars(s.as_slice())));
        }
        let mut acc: Vec<String> = Vec::new();
        let mut cur: Vec<char> = Vec::new();
        let mut i: usize = 3;
        let ghost whole = s@;
        proof {
            assert(is_wine_separator(s@[2]));
            assert(parse_wine_path(value@) == (match wine_scan(Seq::empty(), Seq::empty(), s@.subrange(3, n as int)) {
                Ok(parts) => Ok(WinePathView { drive: ascii_upper(s@[0]), parts }),
                Err(e) => Err(e),
            }));
            assert(acc@.map_values(|c: String| c@) =~= Seq::<Seq<char>>::empty());
            assert(cur@ =~= Seq::<char>::empty());
        }
        while i < n
            invariant
                n == s@.len(),
                whole == s@,
                s@ == value@,
                parse_wine_path(value@) == (match wine_scan(Seq::empty(), Seq::empty(), s@.subrange(3, n as int)) {
                    Ok(parts) => Ok(WinePathView { drive: ascii_upper(s@[0]), parts }),
                    Err(e) => Err(e),
                }),
                3 <= i <= n,
                wine_scan(acc@.map_values(|c: String| c@), cur@, s@.subrange(i as int, n as int))
                    == wine_scan(Seq::empty(), Seq::empty(), s@.subrange(3, n as int)),
            decreases n - i,
        {
            let ghost rest = s@.subrange(i as int, n as int);
            let ghost acc0 = acc@.map_values(|c: String| c@);
            let ghost cur0 = cur@;
            proof {
                assert(rest.drop_first() =~= s@.subrange(i + 1, n as int));
                assert(rest[0] == s@[i as int]);
            }
            if s[i] == '\\' || s[i] == '/' {
                proof {
                    assert(wine_scan(acc0, cur0, rest) == (match wine_flush(acc0, cur0) {
                        Ok(next) => wine_scan(next, Seq::empty(), rest.drop_first()),
                        Err(e) => Err(e),
                    }));
                }
                let flushed = flush_exec(&mut acc, &cur, &s);
                match flushed {
                    Err(e) => {
                        return Err(e);
                    },
                    Ok(()) => {},
                }
                cur = Vec::new();
                proof { assert(cur@ =~= Seq::<char>::empty()); }
            } else {
                proof {
                    assert(wine_scan(acc0, cur0, rest) == wine_scan(acc0, cur0.push(rest[0]), rest.drop_first()));
                }
                cur.push(s[i]);
            }
            i = i + 1;
        }
        proof { assert(s@.subrange(n as int, n as int) =~= Seq::<char>::empty()); }
        let last = flush_exec(&mut acc, &cur, &s);
        match last {
            Err(e) => Err(e),
            Ok(()) => Ok(WinePath::from_parts(s[0], acc)),
        }
    }

    /// The text form `X:\a\b`.
    pub fn to_text(&self) -> (r: String)
        ensures
            r@ == wine_path_text(self@),
    {
        let mut out: Vec<char> = Vec::new();
        out.push(self.drive);
        out.push(':');
        out.push('\\');
        let ghost start = out@;
        let ghost parts = self@.parts;
        let mut i: usize = 0;
        while i < self.components.len()
            invariant
                i <= self.components@.len(),
                parts == self@.parts,
                parts.len() == self.components@.len(),
                out@ == start + join_backslash(parts.subrange(0, i as int)),
            decreases self.components@.len() - i,
        {
            if i > 0 {
                out.push('\\');
            }
            let c = chars_of(self.components[i].as_str());
            push_all(&mut out, c.as_slice());
            i = i + 1;
            proof {
                let sub = parts.subrange(0, i as int);
                assert(sub.drop_last() =~= parts.subrange(0, i - 1));
                assert(parts[i - 1] == self.components@[i - 1]@);
                if i == 1 {
                    assert(join_backslash(parts.subrange(0, 0)) =~= Seq::<char>::empty());
                }
                assert(out@ =~= start + join_backslash(sub));
            }
        }
        proof {
            assert(parts.subrange(0, parts.len() as int) =~= parts);
            assert(start =~= seq![self@.drive, ':', '\\']);
        }
        string_from_chars(out.as_slice())
    }

    /// Compares guest paths with Windows-style case-insensitive evidence.
    pub fn equivalent_guest(&self, other: &WinePath) -> (r: bool)
        ensures
            r == equivalent_guest_spec(self@, other@),
    {
        if self.drive != other.drive || self.components.len() != other.components.len() {
            proof {
                assert(self@.parts.len() == self.components@.len());
                assert(other@.parts.len() == other.components@.len());
            }
            return false;
        }
        let mut i: usize = 0;
        while i < self.components.len()
            invariant
                self.components@.len() == other.components@.len(),
                i <= self.components@.len(),
                forall|k: int| 0 <= k < i ==> eq_ignore_ascii_case(#[trigger] self@.parts[k], other@.parts[k]),
            decreases self.components@.len() - i,
        {
            let a = chars_of(self.components[i].as_str());
            let b = chars_of(other.components[i].as_str());
            if !chars_eq_ignore_ascii_case(a.as_slice(), b.as_slice()) {
                proof {
                    assert(self@.parts[i as int] == a@);
                    assert(other@.parts[i as int] == b@);
                }
                return false;
            }
            i = i + 1;
        }
        true
    }

    /// Value equality.
    pub fn same_as(&self, other: &WinePath) -> (r: bool)
        ensures
            r == (self@ == other@),
    {
        if self.drive != other.drive || self.components.len() != other.components.len() {
            proof {
                assert(self@.parts.len() == self.components@.len());
                assert(other@.parts.len() == other.components@.len());
            }
            return false;
        }
        let mut i: usize = 0;
        while i < self.components.len()
            invariant
                self.components@.len() == other.components@.len(),
                i <= self.components@.len(),
                forall|k: int| 0 <= k < i ==> self.components@[k]@ == other.components@[k]@,
            decreases self.components@.len() - i,
        {
            if !self.components[i].eq(&other.components[i]) {
                proof { assert(self@.parts[i as int] != other@.parts[i as int]); }
                return false;
            }
            i = i + 1;
        }
        proof { assert(self@.parts =~= other@.parts); }
        true
    }
}

} // verus!

verus! {

/// The scanner's state `(components, partial component)` after reading `s`,
/// before the final component is accepted.
pub open spec fn scan_prefix(acc: Seq<Seq<char>>, cur: Seq<char>, s: Seq<char>) -> Result<(Seq<Seq<char>>, Seq<char>), WineFault>
    decreases s.len(),
{
    if s.len() == 0 {
        Ok((acc, cur))
    } else if is_wine_separator(s[0]) {
        match wine_flush(acc, cur) {
            Ok(next) => scan_prefix(next, Seq::empty(), s.drop_first()),
            Err(e) => Err(e),
        }
    } else {
        scan_prefix(acc, cur.push(s[0]), s.drop_first())
    }
}

proof fn lemma_scan_is_prefix_then_flush(acc: Seq<Seq<char>>, cur: Seq<char>, s: Seq<char>)
    ensures
        wine_scan(acc, cur, s) == (match scan_prefix(acc, cur, s) {
            Ok(st) => wine_flush(st.0, st.1),
            Err(e) => Err(e),
        }),
    decreases s.len(),
{
    if s.len() > 0 {
        if is_wine_separator(s[0]) {
            match wine_flush(acc, cur) {
                Ok(next) => lemma_scan_is_prefix_then_flush(next, Seq::empty(), s.drop_first()),
                Err(e) => {},
            }
        } else {
            lemma_scan_is_prefix_then_flush(acc, cur.push(s[0]), s.drop_first());
        }
    }
}

proof fn lemma_scan_prefix_concat(acc: Seq<Seq<char>>, cur: Seq<char>, x: Seq<char>, y: Seq<char>)
    ensures
        scan_prefix(acc, cur, x + y) == (match scan_prefix(acc, cur, x) {
            Ok(st) => scan_prefix(st.0, st.1, y),
            Err(e) => Err(e),
        }),
    decreases x.len(),
{
    if x.len() > 0 {
        assert((x + y)[0] == x[0]);
        assert((x + y).drop_first() =~= x.drop_first() + y);
        if is_wine_separator(x[0]) {
            match wine_flush(acc, cur) {
                Ok(next) => lemma_scan_prefix_concat(next, Seq::empty(), x.drop_first(), y),
                Err(e) => {},
            }
        } else {
            lemma_scan_prefix_concat(acc, cur.push(x[0]), x.drop_first(), y);
        }
    } else {
        assert(x + y =~= y);
    }
}

/// A component that `to_text` writes and `parse` reads back unchanged.
pub open spec fn wine_component(c: Seq<char>) -> bool {
    c.len() > 0 && c != dot() && c != dot_dot() && !c.contains('\\') && !c.contains('/')
        && !c.contains('\0') && !c.contains(':')
}

proof fn lemma_scan_plain(acc: Seq<Seq<char>>, cur: Seq<char>, c: Seq<char>)
    requires
        !c.contains('\\'),
        !c.contains('/'),
    ensures
        scan_prefix(acc, cur, c) == Ok::<(Seq<Seq<char>>, Seq<char>), WineFault>((acc, cur + c)),
    decreases c.len(),
{
    if c.len() == 0 {
        assert(cur + c =~= cur);
    } else {
        assert(!is_wine_separator(c[0])) by {
            assert(c.contains(c[0]));
        }
        let rest = c.drop_first();
        assert(!rest.contains('\\') && !rest.contains('/')) by {
            if rest.contains('\\') {
                let k = choose|k: int| 0 <= k < rest.len() && rest[k] == '\\';
                assert(c[k + 1] == '\\');
            }
            if rest.contains('/') {
                let k = choose|k: int| 0 <= k < rest.len() && rest[k] == '/';
                assert(c[k + 1] == '/');
            }
        }
        lemma_scan_plain(acc, cur.push(c[0]), rest);
        assert(cur.push(c[0]) + rest =~= cur + c);
    }
}

proof fn lemma_scan_join(parts: Seq<Seq<char>>)
    requires
        parts.len() > 0,
        forall|i: int| 0 <= i < parts.len() ==> wine_component(#[trigger] parts[i]),
    ensures
        scan_prefix(Seq::empty(), Seq::empty(), join_backslash(parts))
            == Ok::<(Seq<Seq<char>>, Seq<char>), WineFault>((parts.drop_last(), parts.last())),
    decreases parts.len(),
{
    let e: Seq<char> = Seq::empty();
    let a: Seq<Seq<char>> = Seq::empty();
    if parts.len() == 1 {
        assert(wine_component(parts[0]));
        lemma_scan_plain(a, e, parts[0]);
        assert(e + parts[0] =~= parts[0]);
        assert(parts.drop_last() =~= a);
    } else {
        let init = parts.drop_last();
        let last = parts.last();
        assert forall|i: int| 0 <= i < init.len() implies wine_component(#[trigger] init[i]) by {
            assert(init[i] == parts[i]);
        }
        lemma_scan_join(init);
        assert(wine_component(parts[parts.len() - 1]));
        let j = join_backslash(init);
        assert(join_backslash(parts) == j.push('\\') + last);
        assert(j.push('\\') =~= j + seq!['\\']);
        lemma_scan_prefix_concat(a, e, j + seq!['\\'], last);
        lemma_scan_prefix_concat(a, e, j, seq!['\\']);
        let il = init.last();
        assert(wine_component(init[init.len() - 1]));
        assert(wine_flush(init.drop_last(), il) == Ok::<Seq<Seq<char>>, WineFault>(init.drop_last().push(il)));
        assert(init.drop_last().push(il) =~= init);
        assert(seq!['\\'].drop_first() =~= e);
        assert(scan_prefix(init, e, e) == Ok::<(Seq<Seq<char>>, Seq<char>), WineFault>((init, e)));
        assert(scan_prefix(init.drop_last(), il, seq!['\\']) == Ok::<(Seq<Seq<char>>, Seq<char>), WineFault>((init, e)));
        lemma_scan_plain(init, e, last);
        assert(e + last =~= last);
    }
}

/// Writing a guest path as text and parsing the text gives the path back,
/// when the drive is an ASCII letter and no component is empty, `.`, `..`,
/// or holds a separator, `:` or NUL.
pub proof fn law_wine_path_text_round_trip(drive: char, parts: Seq<Seq<char>>)
    requires
        is_ascii_alpha(drive),
        forall|i: int| 0 <= i < parts.len() ==> wine_component(#[trigger] parts[i]),
    ensures
        parse_wine_path(wine_path_text(WinePathView { drive: ascii_upper(drive), parts }))
            == Ok::<WinePathView, WineFault>(WinePathView { drive: ascii_upper(drive), parts }),
{
    let d = ascii_upper(drive);
    let text = wine_path_text(WinePathView { drive: d, parts });
    let body = join_backslash(parts);
    assert(text[0] == d && text[1] == ':' && text[2] == '\\');
    assert(is_ascii_alpha(d));
    assert(ascii_upper(d) == d);
    assert(text.subrange(3, text.len() as int) =~= body);
    let e: Seq<char> = Seq::empty();
    let a: Seq<Seq<char>> = Seq::empty();
    lemma_scan_is_prefix_then_flush(a, e, body);
    if parts.len() == 0 {
        assert(body =~= e);
        assert(parts =~= a);
        assert(scan_prefix(a, e, body) == Ok::<(Seq<Seq<char>>, Seq<char>), WineFault>((a, e)));
        assert(wine_flush(a, e) == Ok::<Seq<Seq<char>>, WineFault>(a));
    } else {
        lemma_scan_join(parts);
        assert(wine_component(parts[parts.len() - 1]));
        assert(parts.drop_last().push(parts.last()) =~= parts);
        assert(wine_flush(parts.drop_last(), parts.last()) == Ok::<Seq<Seq<char>>, WineFault>(parts));
    }
    assert(wine_scan(a, e, body) == Ok::<Seq<Seq<char>>, WineFault>(parts));
    assert(text[0] != '\\' && text[0] != '/');
    assert(is_wine_separator(text[2]));
}

/// A `..` component is always refused as traversal, whatever follows it,
/// when the component before it is an ordinary one.
pub proof fn law_parent_component_rejected(drive: char, prefix: Seq<char>, suffix: Seq<char>)
    requires
        is_ascii_alpha(drive),
        wine_component(prefix),
    ensures
        parse_wine_path(seq![drive, ':', '\\'] + prefix + seq!['\\', '.', '.', '\\'] + suffix)
            == Err::<WinePathView, WineFault>(WineFault::Traversal),
{
    let text = seq![drive, ':', '\\'] + prefix + seq!['\\', '.', '.', '\\'] + suffix;
    let body = prefix + seq!['\\', '.', '.', '\\'] + suffix;
    assert(text[0] == drive && text[1] == ':' && text[2] == '\\');
    assert(text.subrange(3, text.len() as int) =~= body);
    let e: Seq<char> = Seq::empty();
    let a: Seq<Seq<char>> = Seq::empty();
    lemma_scan_is_prefix_then_flush(a, e, body);
    let mid = seq!['\\', '.', '.', '\\'];
    assert(body =~= prefix + (mid + suffix));
    lemma_scan_prefix_concat(a, e, prefix, mid + suffix);
    lemma_scan_plain(a, e, prefix);
    assert(e + prefix =~= prefix);
    assert(wine_flush(a, prefix) == Ok::<Seq<Seq<char>>, WineFault>(a.push(prefix)));
    let tail = mid + suffix;
    assert(tail[0] == '\\');
    assert(tail.drop_first() =~= seq!['.', '.'] + (seq!['\\'] + suffix));
    let p1 = a.push(prefix);
    lemma_scan_prefix_concat(p1, e, seq!['.', '.'], seq!['\\'] + suffix);
    lemma_scan_plain(p1, e, seq!['.', '.']);
    assert(e + seq!['.', '.'] =~= dot_dot());
    assert((seq!['\\'] + suffix)[0] == '\\');
    assert(wine_flush(p1, dot_dot()) == Err::<Seq<Seq<char>>, WineFault>(WineFault::Traversal));
}

} // verus!

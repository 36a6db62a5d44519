//! Host filesystem paths, lexically normalized on construction.
//!
//! A host path is modelled on the POSIX path grammar: an optional leading
//! root and the sequence of its components. Normalization drops `.` and
//! empty components and lets `..` remove the component before it.
use vstd::prelude::*;
use crate::text::{ascii_lower, chars_eq_ignore_ascii_case, chars_of, eq_ignore_ascii_case, push_all, string_from_chars};
use super::model::HostPlatform;

verus! {

/// The abstract value of a host path.
pub struct HostPathView {
    pub absolute: bool,
    pub parts: Seq<Seq<char>>,
}

#[derive(Debug, Eq, Hash, Ord, PartialEq, PartialOrd)]
pub struct HostPath {
    absolute: bool,
    components: Vec<String>,
}

impl View for HostPath {
    type V = HostPathView;

    closed spec fn view(&self) -> HostPathView {
        HostPathView { absolute: self.absolute, parts: self.components@.map_values(|c: String| c@) }
    }
}

pub open spec fn dot() -> Seq<char> {
    seq!['.']
}

pub open spec fn dot_dot() -> Seq<char> {
    seq!['.', '.']
}

/// Adds one raw component to a normalized component list.
pub open spec fn norm_step(acc: Seq<Seq<char>>, piece: Seq<char>) -> Seq<Seq<char>> {
    if piece.len() == 0 || piece == dot() {
        acc
    } else if piece == dot_dot() {
        if acc.len() > 0 { acc.drop_last() } else { acc.push(piece) }
    } else {
        acc.push(piece)
    }
}

/// Normalizes the text `s`, given the components `acc` already normalized and
/// the partial component `cur` read so far.
pub open spec fn norm_text(acc: Seq<Seq<char>>, cur: Seq<char>, s: Seq<char>) -> Seq<Seq<char>>
    decreases s.len(),
{
    if s.len() == 0 {
        norm_step(acc, cur)
    } else if s[0] == '/' {
        norm_text(norm_step(acc, cur), Seq::empty(), s.drop_first())
    } else {
        norm_text(acc, cur.push(s[0]), s.drop_first())
    }
}

/// The normalized value of a path written as text.
pub open spec fn parse_host_path(s: Seq<char>) -> HostPathView {
    HostPathView { absolute: s.len() > 0 && s[0] == '/', parts: norm_text(Seq::empty(), Seq::empty(), s) }
}

/// Components joined by `/`.
pub open spec fn join_parts(parts: Seq<Seq<char>>) -> Seq<char>
    decreases parts.len(),
{
    if parts.len() == 0 {
        Seq::empty()
    } else if parts.len() == 1 {
        parts[0]
    } else {
        join_parts(parts.drop_last()).push('/') + parts.last()
    }
}

/// The text form of a host path.
pub open spec fn host_path_text(p: HostPathView) -> Seq<char> {
    if p.absolute { seq!['/'] + join_parts(p.parts) } else { join_parts(p.parts) }
}

/// `root` is a leading part of `p`, component by component.
pub open spec fn host_starts_with(p: HostPathView, root: HostPathView) -> bool {
    p.absolute == root.absolute && root.parts.len() <= p.parts.len()
        && p.parts.subrange(0, root.parts.len() as int) == root.parts
}

pub open spec fn parts_eq_ignore_case(a: Seq<Seq<char>>, b: Seq<Seq<char>>) -> bool {
    a.len() == b.len() && forall|i: int| 0 <= i < a.len() ==> eq_ignore_ascii_case(#[trigger] a[i], b[i])
}

/// Host path comparison as the given platform's file system treats names.
pub open spec fn host_equivalent_on(a: HostPathView, b: HostPathView, platform: HostPlatform) -> bool {
    match platform {
        HostPlatform::Windows => a.absolute == b.absolute && parts_eq_ignore_case(a.parts, b.parts),
        _ => a == b,
    }
}

/// A component as it can occur in a normalized path.
pub open spec fn normal_part(c: Seq<char>) -> bool {
    c.len() > 0 && c != dot() && !c.contains('/')
}

/// Invariant of a normalized component list: `..` can only lead it.
pub open spec fn normalized_parts(parts: Seq<Seq<char>>) -> bool {
    forall|i: int| 0 <= i < parts.len() ==> normal_part(#[trigger] parts[i]) && (parts[i] == dot_dot() ==> i == 0)
}

pub open spec fn well_formed(p: HostPathView) -> bool {
    normalized_parts(p.parts)
}

/// The value of `p` joined with the text `rel`: an absolute `rel` replaces
/// the path, any other is appended component by component and normalized.
pub open spec fn join_view(p: HostPathView, rel: Seq<char>) -> HostPathView {
    if rel.len() > 0 && rel[0] == '/' {
        parse_host_path(rel)
    } else {
        HostPathView { absolute: p.absolute, parts: norm_text(p.parts, Seq::empty(), rel) }
    }
}

proof fn lemma_norm_step_keeps(acc: Seq<Seq<char>>, piece: Seq<char>)
    requires
        normalized_parts(acc),
        !piece.contains('/'),
    ensures
        normalized_parts(norm_step(acc, piece)),
{
    let r = norm_step(acc, piece);
    if piece.len() == 0 || piece == dot() {
    } else if piece == dot_dot() {
        if acc.len() > 0 {
            assert forall|i: int| 0 <= i < r.len() implies normal_part(#[trigger] r[i]) && (r[i] == dot_dot() ==> i == 0) by {
                assert(r[i] == acc[i]);
            }
        } else {
            assert(r =~= seq![piece]);
            assert(piece.len() == 2 && piece[0] == '.');
            assert(piece != dot()) by { assert(piece.len() != dot().len()); }
        }
    } else {
        if acc.len() > 0 && acc[acc.len() - 1] == dot_dot() {
            // a `..` that leads the list stays in front
        }
        assert forall|i: int| 0 <= i < r.len() implies normal_part(#[trigger] r[i]) && (r[i] == dot_dot() ==> i == 0) by {
            if i < acc.len() {
                assert(r[i] == acc[i]);
            }
        }
    }
}

proof fn lemma_norm_text_keeps(acc: Seq<Seq<char>>, cur: Seq<char>, s: Seq<char>)
    requires
        normalized_parts(acc),
        !cur.contains('/'),
    ensures
        normalized_parts(norm_text(acc, cur, s)),
    decreases s.len(),
{
    if s.len() == 0 {
        lemma_norm_step_keeps(acc, cur);
    } else if s[0] == '/' {
        lemma_norm_step_keeps(acc, cur);
        let e: Seq<char> = Seq::empty();
        assert(!e.contains('/'));
        lemma_norm_text_keeps(norm_step(acc, cur), e, s.drop_first());
    } else {
        let c2 = cur.push(s[0]);
        assert(!c2.contains('/')) by {
            if c2.contains('/') {
                let k = choose|k: int| 0 <= k < c2.len() && c2[k] == '/';
                if k < cur.len() {
                    assert(cur[k] == '/');
                }
            }
        }
        lemma_norm_text_keeps(acc, c2, s.drop_first());
    }
}

/// Every parsed path is normalized.
pub proof fn lemma_parse_well_formed(s: Seq<char>)
    ensures
        well_formed(parse_host_path(s)),
{
    let e: Seq<char> = Seq::empty();
    let a: Seq<Seq<char>> = Seq::empty();
    lemma_norm_text_keeps(a, e, s);
}

/// Exec form of `norm_step`.
fn exec_norm_step(acc: &mut Vec<String>, piece: Vec<char>)
    ensures
        final(acc)@.map_values(|c: String| c@) == norm_step(old(acc)@.map_values(|c: String| c@), piece@),
{
    let ghost before = acc@.map_values(|c: String| c@);
    if piece.len() == 0 || (piece.len() == 1 && piece[0] == '.') {
        proof {
            if piece@.len() == 1 { assert(piece@ =~= dot()); }
            else { assert(piece@.len() == 0); }
        }
        return;
    }
    if piece.len() == 2 && piece[0] == '.' && piece[1] == '.' {
        proof { assert(piece@ =~= dot_dot()); }
        if acc.len() > 0 {
            acc.pop();
            proof { assert(acc@.map_values(|c: String| c@) =~= before.drop_last()); }
        } else {
            acc.push(string_from_chars(piece.as_slice()));
            proof { assert(acc@.map_values(|c: String| c@) =~= before.push(piece@)); }
        }
        return;
    }
    proof {
        assert(piece@ != dot()) by { if piece@.len() == 1 { assert(piece@[0] != '.' || piece@ =~= dot()); } }
        assert(piece@ != dot_dot()) by { if piece@.len() == 2 { assert(piece@[0] != '.' || piece@[1] != '.' || piece@ =~= dot_dot()); } }
    }
    acc.push(string_from_chars(piece.as_slice()));
    proof { assert(acc@.map_values(|c: String| c@) =~= before.push(piece@)); }
}

/// Applies the characters of `s` to a component list, as `norm_text` does.
fn exec_norm_text(acc: &mut Vec<String>, s: &[char])
    ensures
        final(acc)@.map_values(|c: String| c@) == norm_text(old(acc)@.map_values(|c: String| c@), Seq::empty(), s@),
{
    let mut cur: Vec<char> = Vec::new();
    let mut i: usize = 0;
    proof {
        assert(s@.subrange(0, s@.len() as int) =~= s@);
        assert(cur@ =~= Seq::<char>::empty());
    }
    while i < s.len()
        invariant
            i <= s@.len(),
            norm_text(acc@.map_values(|c: String| c@), cur@, s@.subrange(i as int, s@.len() as int))
                == norm_text(old(acc)@.map_values(|c: String| c@), Seq::empty(), s@),
        decreases s@.len() - i,
    {
        let ghost rest = s@.subrange(i as int, s@.len() as int);
        let ghost acc0 = acc@.map_values(|c: String| c@);
        let ghost cur0 = cur@;
        proof {
            assert(rest.drop_first() =~= s@.subrange(i + 1, s@.len() as int));
            assert(rest[0] == s@[i as int]);
        }
        if s[i] == '/' {
            proof {
                assert(norm_text(acc0, cur0, rest) == norm_text(norm_step(acc0, cur0), Seq::empty(), rest.drop_first()));
            }
            let piece = cur;
            exec_norm_step(acc, piece);
            cur = Vec::new();
            proof { assert(cur@ =~= Seq::<char>::empty()); }
        } else {
            proof {
                assert(norm_text(acc0, cur0, rest) == norm_text(acc0, cur0.push(rest[0]), rest.drop_first()));
            }
            cur.push(s[i]);
        }
        i = i + 1;
    }
    proof { assert(s@.subrange(i as int, s@.len() as int) =~= Seq::<char>::empty()); }
    exec_norm_step(acc, cur);
}

fn strings_equal(a: &String, b: &String) -> (r: bool)
    ensures
        r == (a@ == b@),
{
    a.eq(b)
}

impl Clone for HostPath {
    fn clone(&self) -> (r: Self)
        ensures
            r@ == self@,
    {
        self.duplicate()
    }
}

impl HostPath {
    /// Every host path is normalized.
    #[verifier::type_invariant]
    spec fn inv(self) -> bool {
        normalized_parts(self.components@.map_values(|c: String| c@))
    }

    /// The path's value is normalized; a helper for callers in other modules.
    pub fn assert_well_formed(&self)
        ensures
            well_formed(self@),
    {
        proof { use_type_invariant(self); }
    }

    /// The lexically normalized path written as `text`.
    pub fn new(text: &str) -> (p: HostPath)
        ensures
            p@ == parse_host_path(text@),
            well_formed(p@),
    {
        let chars = chars_of(text);
        let absolute = chars.len() > 0 && chars[0] == '/';
        let mut components: Vec<String> = Vec::new();
        exec_norm_text(&mut components, chars.as_slice());
        proof {
            assert(Seq::<String>::empty().map_values(|c: String| c@) =~= Seq::<Seq<char>>::empty());
            lemma_parse_well_formed(text@);
        }
        HostPath { absolute, components }
    }

    /// Whether the path starts at the root.
    pub fn is_absolute(&self) -> (r: bool)
        ensures
            r == self@.absolute,
    {
        self.absolute
    }

    /// The number of components.
    pub fn component_count(&self) -> (r: usize)
        ensures
            r == self@.parts.len(),
    {
        self.components.len()
    }

    /// A copy with the same value.
    pub fn duplicate(&self) -> (r: HostPath)
        ensures
            r@ == self@,
    {
        let mut components: Vec<String> = Vec::new();
        let mut i: usize = 0;
        while i < self.components.len()
            invariant
                i <= self.components@.len(),
                components@.map_values(|c: String| c@) =~= self.components@.map_values(|c: String| c@).subrange(0, i as int),
            decreases self.components@.len() - i,
        {
            let ghost before = components@.map_values(|c: String| c@);
            let c = self.components[i].clone();
            components.push(c);
            proof {
                assert(components@.map_values(|c: String| c@) =~= before.push(c@));
            }
            i = i + 1;
        }
        proof {
            use_type_invariant(self);
            assert(components@.map_values(|c: String| c@) =~= self.components@.map_values(|c: String| c@));
        }
        HostPath { absolute: self.absolute, components }
    }

    /// The components, in order.
    pub fn components(&self) -> (r: Vec<String>)
        ensures
            r@.map_values(|c: String| c@) == self@.parts,
    {
        let copy = self.duplicate();
        copy.components
    }

    /// The path as text: components separated by `/`, with a leading `/`
    /// when the path is absolute.
    pub fn to_text(&self) -> (r: String)
        ensures
            r@ == host_path_text(self@),
    {
        let v = self.text_chars();
        string_from_chars(v.as_slice())
    }

    /// The text form, as characters.
    pub fn text_chars(&self) -> (r: Vec<char>)
        ensures
            r@ == host_path_text(self@),
    {
        let mut out: Vec<char> = Vec::new();
        if self.absolute {
            out.push('/');
        }
        let ghost start = out@;
        let ghost parts = self@.parts;
        let mut i: usize = 0;
        while i < self.components.len()
            invariant
                i <= self.components@.len(),
                parts == self@.parts,
                parts.len() == self.components@.len(),
                out@ == start + join_parts(parts.subrange(0, i as int)),
            decreases self.components@.len() - i,
        {
            let ghost before = out@;
            if i > 0 {
                out.push('/');
            }
            let c = chars_of(self.components[i].as_str());
            push_all(&mut out, c.as_slice());
            i = i + 1;
            proof {
                let sub = parts.subrange(0, i as int);
                assert(sub.drop_last() =~= parts.subrange(0, i - 1));
                assert(parts[i - 1] == self.components@[i - 1]@);
                if i == 1 {
                    assert(join_parts(sub) == sub[0]);
                    assert(join_parts(parts.subrange(0, 0)) =~= Seq::<char>::empty());
                    assert(out@ =~= start + join_parts(sub));
                } else {
                    assert(out@ =~= start + join_parts(sub));
                }
            }
        }
        proof {
            assert(parts.subrange(0, parts.len() as int) =~= parts);
            if self.absolute {
                assert(start =~= seq!['/']);
            } else {
                assert(start =~= Seq::<char>::empty());
                assert(out@ =~= join_parts(parts));
            }
        }
        out
    }

    /// Display form; the same as `to_text`.
    pub fn as_path(&self) -> (r: String)
        ensures
            r@ == host_path_text(self@),
    {
        self.to_text()
    }

    /// `relative` appended to this path and normalized; an absolute
    /// `relative` replaces the path.
    pub fn join(&self, relative: &str) -> (p: HostPath)
        ensures
            p@ == join_view(self@, relative@),
            well_formed(p@),
    {
        proof { use_type_invariant(self); }
        let chars = chars_of(relative);
        if chars.len() > 0 && chars[0] == '/' {
            return HostPath::new(relative);
        }
        let copy = self.duplicate();
        let absolute = copy.absolute;
        let mut components = copy.components;
        exec_norm_text(&mut components, chars.as_slice());
        proof {
            let e: Seq<char> = Seq::empty();
            lemma_norm_text_keeps(self@.parts, e, relative@);
        }
        HostPath { absolute, components }
    }

    /// Whether `root`'s components lead this path.
    pub fn starts_with(&self, root: &HostPath) -> (r: bool)
        ensures
            r == host_starts_with(self@, root@),
    {
        if self.absolute != root.absolute || root.components.len() > self.components.len() {
            return false;
        }
        let mut i: usize = 0;
        while i < root.components.len()
            invariant
                root.components@.len() <= self.components@.len(),
                i <= root.components@.len(),
                forall|k: int| 0 <= k < i ==> self.components@[k]@ == root.components@[k]@,
            decreases root.components@.len() - i,
        {
            if !strings_equal(&self.components[i], &root.components[i]) {
                proof {
                    assert(self@.parts.subrange(0, root@.parts.len() as int)[i as int] != root@.parts[i as int]);
                }
                return false;
            }
            i = i + 1;
        }
        proof {
            assert(self@.parts.subrange(0, root@.parts.len() as int) =~= root@.parts);
        }
        true
    }

    /// The relative path left after `root`, when `root` leads this path.
    pub fn strip_prefix(&self, root: &HostPath) -> (r: Option<HostPath>)
        ensures
            r is Some <==> host_starts_with(self@, root@),
            r matches Some(rest) ==> !rest@.absolute
                && rest@.parts == self@.parts.subrange(root@.parts.len() as int, self@.parts.len() as int),
    {
        if !self.starts_with(root) {
            return None;
        }
        let mut components: Vec<String> = Vec::new();
        let mut i: usize = root.components.len();
        let ghost base = root.components@.len();
        while i < self.components.len()
            invariant
                base == root.components@.len(),
                base <= i <= self.components@.len(),
                components@.map_values(|c: String| c@) =~= self@.parts.subrange(base as int, i as int),
            decreases self.components@.len() - i,
        {
            let ghost before = components@.map_values(|c: String| c@);
            let c = self.components[i].clone();
            components.push(c);
            proof {
                assert(components@.map_values(|c: String| c@) =~= before.push(c@));
            }
            i = i + 1;
        }
        proof {
            use_type_invariant(self);
            let parts = components@.map_values(|c: String| c@);
            assert forall|k: int| 0 <= k < parts.len() implies normal_part(#[trigger] parts[k]) && (parts[k] == dot_dot() ==> k == 0) by {
                assert(parts[k] == self@.parts[base + k]);
            }
        }
        Some(HostPath { absolute: false, components })
    }

    /// The last component, unless the path is empty, the root, or ends in `..`.
    pub fn file_name(&self) -> (r: Option<String>)
        ensures
            r is Some <==> (self@.parts.len() > 0 && self@.parts.last() != dot_dot()),
            r matches Some(name) ==> name@ == self@.parts.last(),
    {
        let n = self.components.len();
        if n == 0 {
            return None;
        }
        let last = &self.components[n - 1];
        let c = chars_of(last.as_str());
        if c.len() == 2 && c[0] == '.' && c[1] == '.' {
            proof { assert(c@ =~= dot_dot()); }
            return None;
        }
        proof { assert(c@ != dot_dot()) by { if c@.len() == 2 { assert(c@[0] != '.' || c@[1] != '.' || c@ =~= dot_dot()); } } }
        Some(last.clone())
    }

    /// The path without its last component, if it has one.
    pub fn parent(&self) -> (r: Option<HostPath>)
        ensures
            r is Some <==> self@.parts.len() > 0,
            r matches Some(p) ==> p@.absolute == self@.absolute && p@.parts == self@.parts.drop_last(),
    {
        let n = self.components.len();
        if n == 0 {
            return None;
        }
        proof { use_type_invariant(self); }
        let copy = self.duplicate();
        let absolute = copy.absolute;
        let mut components = copy.components;
        components.pop();
        proof {
            let parts = components@.map_values(|c: String| c@);
            assert(parts =~= self@.parts.drop_last());
            assert forall|i: int| 0 <= i < parts.len() implies normal_part(#[trigger] parts[i]) && (parts[i] == dot_dot() ==> i == 0) by {
                assert(parts[i] == self@.parts[i]);
            }
        }
        Some(HostPath { absolute, components })
    }

    /// Value equality.
    pub fn same_as(&self, other: &HostPath) -> (r: bool)
        ensures
            r == (self@ == other@),
    {
        if self.absolute != other.absolute || self.components.len() != other.components.len() {
            proof {
                if self.components.len() != other.components.len() {
                    assert(self@.parts.len() != other@.parts.len());
                }
            }
            return false;
        }
        let mut i: usize = 0;
        while i < self.components.len()
            invariant
                self.components@.len() == other.components@.len(),
                i <= self.components@.len(),
                forall|k: int| 0 <= k < i ==> self.components@[k]@ == other.components@[k]@,
            decreases self.components@.len() - i,
        {
            if !strings_equal(&self.components[i], &other.components[i]) {
                proof { assert(self@.parts[i as int] != other@.parts[i as int]); }
                return false;
            }
            i = i + 1;
        }
        proof { assert(self@.parts =~= other@.parts); }
        true
    }

    /// Lexical comparison with the given platform's default name semantics:
    /// on Windows component names compare without regard to ASCII case.
    /// This is correlation evidence, never canonical resource identity.
    pub fn equivalent_on(&self, other: &HostPath, platform: HostPlatform) -> (r: bool)
        ensures
            r == host_equivalent_on(self@, other@, platform),
    {
        match platform {
            HostPlatform::Windows => {
                if self.absolute != other.absolute || self.components.len() != other.components.len() {
                    proof {
                        assert(self@.parts.len() == self.components@.len());
                        assert(other@.parts.len() == other.components@.len());
                    }
                    return false;
                }
                let mut i: usize = 0;
                while i < self.components.len()
                    invariant
                        self.components@.len() == other.components@.len(),
                        i <= self.components@.len(),
                        forall|k: int| 0 <= k < i ==> eq_ignore_ascii_case(#[trigger] self@.parts[k], other@.parts[k]),
                    decreases self.components@.len() - i,
                {
                    let a = chars_of(self.components[i].as_str());
                    let b = chars_of(other.components[i].as_str());
                    if !chars_eq_ignore_ascii_case(a.as_slice(), b.as_slice()) {
                        proof {
                            assert(self@.parts[i as int] == a@);
                            assert(other@.parts[i as int] == b@);
                        }
                        return false;
                    }
                    i = i + 1;
                }
                true
            },
            _ => self.same_as(other),
        }
    }
}

} // verus!

//! Translation between Wine guest paths and host paths through a Wine
//! prefix's drive mappings.
use vstd::prelude::*;
use crate::text::ascii_upper;
use super::filesystem::{FileSystemError, FileSystemErrorKind, PlatformFileSystem};
use super::host_path::{HostPath, HostPathView, dot, dot_dot, host_starts_with, join_view, norm_step, norm_text};
use super::model::{PathError, StudioEnvironment};
use super::wine_path::{WinePath, WinePathView};

verus! {

/// `p` joined with each of `comps` in turn.
pub open spec fn join_all(p: HostPathView, comps: Seq<Seq<char>>) -> HostPathView
    decreases comps.len(),
{
    if comps.len() == 0 {
        p
    } else {
        join_all(join_view(p, comps[0]), comps.drop_first())
    }
}

/// The host root of the first mapping for drive `d`.
pub open spec fn drive_root(ms: Seq<(char, HostPath)>, d: char) -> Option<HostPathView>
    decreases ms.len(),
{
    if ms.len() == 0 {
        None
    } else if ms[0].0 == d {
        Some(ms[0].1@)
    } else {
        drive_root(ms.drop_first(), d)
    }
}

/// Guest-to-host translation before the file system is consulted: the
/// drive's root joined with the components, which must stay under the root.
pub open spec fn lexical_guest_to_host(path: WinePathView, ms: Seq<(char, HostPath)>) -> Result<HostPathView, PathError> {
    match drive_root(ms, path.drive) {
        None => Err(PathError::DriveNotMapped(path.drive)),
        Some(root) => {
            let t = join_all(root, path.parts);
            if host_starts_with(t, root) { Ok(t) } else { Err(PathError::PrefixEscape) }
        },
    }
}

/// Index of the mapping whose root is the deepest prefix of `path`, scanning
/// from `i` with `best` found so far; among equally deep roots the later wins.
pub open spec fn deepest_mapping(path: HostPathView, ms: Seq<(char, HostPath)>, i: int, best: Option<int>) -> Option<int>
    decreases ms.len() - i,
{
    if i < 0 || i >= ms.len() {
        best
    } else {
        let take = host_starts_with(path, ms[i].1@) && match best {
            None => true,
            Some(b) => ms[b].1@.parts.len() <= ms[i].1@.parts.len(),
        };
        deepest_mapping(path, ms, i + 1, if take { Some(i) } else { best })
    }
}

/// The guest path of a host path: the deepest mapped root that leads it,
/// with the rest of the host components under that root's drive.
pub open spec fn guest_for_host_spec(path: HostPathView, ms: Seq<(char, HostPath)>) -> Option<WinePathView> {
    match deepest_mapping(path, ms, 0, None) {
        None => None,
        Some(k) => Some(WinePathView {
            drive: ascii_upper(ms[k].0),
            parts: path.parts.subrange(ms[k].1@.parts.len() as int, path.parts.len() as int),
        }),
    }
}

/// The guest path under which `path` is visible, if any mapping covers it.
pub fn guest_for_host(path: &HostPath, mappings: &Vec<(char, HostPath)>) -> (r: Option<WinePath>)
    ensures
        match guest_for_host_spec(path@, mappings@) {
            Some(v) => r matches Some(w) && w@.drive == v.drive && w@.parts == v.parts,
            None => r is None,
        },
{
    let mut best: Option<usize> = None;
    let mut i: usize = 0;
    while i < mappings.len()
        invariant
            i <= mappings@.len(),
            deepest_mapping(path@, mappings@, 0, None) == deepest_mapping(path@, mappings@, i as int, match best { Some(b) => Some(b as int), None => None }),
            match best { Some(b) => b < i && host_starts_with(path@, mappings@[b as int].1@), None => true },
        decreases mappings@.len() - i,
    {
        let root = &mappings[i].1;
        if path.starts_with(root) {
            let take = match best {
                None => true,
                Some(b) => mappings[b].1.component_count() <= root.component_count(),
            };
            if take {
                best = Some(i);
            }
        }
        i = i + 1;
    }
    match best {
        None => None,
        Some(k) => {
            let drive = mappings[k].0;
            match path.strip_prefix(&mappings[k].1) {
                Some(rest) => Some(WinePath::from_parts(drive, rest.components())),
                None => None,
            }
        },
    }
}

/// What the symbolic-link check does after one canonicalization answer.
pub enum SymlinkStep {
    /// The checked path resolves under the root.
    Inside,
    /// The checked path resolves outside the root, or cannot be followed up.
    Escape,
    /// The path does not exist yet: check its parent next.
    Ascend(HostPath),
    /// The file system could not tell; the path is accepted.
    Undecided,
}

/// One step of the symbolic-link check for `existing`, given what
/// canonicalizing it returned.
pub fn symlink_step(
    answer: &Result<HostPath, FileSystemError>,
    existing: &HostPath,
    root: &HostPath,
    canonical_root: &HostPath,
) -> (r: SymlinkStep)
    ensures
        match answer {
            Ok(c) => if host_starts_with(c@, canonical_root@) { r is Inside } else { r is Escape },
            Err(e) => if e.kind == FileSystemErrorKind::Missing {
                if existing@.parts.len() == 0 {
                    r is Escape
                } else {
                    let parent = HostPathView { absolute: existing@.absolute, parts: existing@.parts.drop_last() };
                    if host_starts_with(parent, root@) {
                        r matches SymlinkStep::Ascend(p) && p@ == parent
                    } else {
                        r is Escape
                    }
                }
            } else {
                r is Undecided
            },
        },
{
    match answer {
        Ok(canonical) => {
            if canonical.starts_with(canonical_root) { SymlinkStep::Inside } else { SymlinkStep::Escape }
        },
        Err(error) => {
            if error.kind == FileSystemErrorKind::Missing {
                match existing.parent() {
                    None => SymlinkStep::Escape,
                    Some(parent) => {
                        if parent.same_as(existing) || !parent.starts_with(root) {
                            proof { assert(parent@.parts.len() < existing@.parts.len()); }
                            SymlinkStep::Escape
                        } else {
                            SymlinkStep::Ascend(parent)
                        }
                    },
                }
            } else {
                SymlinkStep::Undecided
            }
        },
    }
}

/// Translates paths between a Wine guest and the host through an
/// environment's drive mappings, consulting the file system for symbolic
/// links.
pub trait PathTranslator {
    fn guest_to_host(&self, path: &WinePath, environment: &StudioEnvironment) -> Result<HostPath, PathError>;

    fn host_to_guest(&self, path: &HostPath, environment: &StudioEnvironment) -> Result<WinePath, PathError>;
}

pub struct WinePathTranslator<'a, F: PlatformFileSystem> {
    filesystem: &'a F,
}

impl<'a, F: PlatformFileSystem> WinePathTranslator<'a, F> {
    pub fn new(filesystem: &'a F) -> (r: Self) {
        WinePathTranslator { filesystem }
    }

    /// Refuses a target that a symbolic link takes out of `root`: the target
    /// (or, while it does not exist, its nearest existing ancestor under
    /// `root`) must canonicalize to a path under the canonical root.
    fn reject_symlink_escape(&self, root: &HostPath, target: &HostPath) -> (r: Result<(), PathError>)
        ensures
            r is Ok || r == Err::<(), PathError>(PathError::PrefixEscape),
    {
        let canonical_root = match self.filesystem.canonicalize(root) {
            Ok(c) => c,
            Err(_) => root.clone(),
        };
        let mut existing = target.clone();
        loop
            decreases existing@.parts.len(),
        {
            let answer = self.filesystem.canonicalize(&existing);
            match symlink_step(&answer, &existing, root, &canonical_root) {
                SymlinkStep::Inside => { return Ok(()); },
                SymlinkStep::Escape => { return Err(PathError::PrefixEscape); },
                SymlinkStep::Undecided => { return Ok(()); },
                SymlinkStep::Ascend(parent) => {
                    existing = parent;
                },
            }
        }
    }
}

/// Each mapping with its root canonicalized where the file system can.
fn canonical_mappings<F: PlatformFileSystem>(filesystem: &F, mappings: &Vec<(char, HostPath)>) -> (r: Vec<(char, HostPath)>)
    ensures
        r@.len() == mappings@.len(),
        forall|i: int| 0 <= i < r@.len() ==> #[trigger] r@[i].0 == mappings@[i].0,
{
    let mut out: Vec<(char, HostPath)> = Vec::new();
    let mut i: usize = 0;
    while i < mappings.len()
        invariant
            i <= mappings@.len(),
            out@.len() == i,
            forall|k: int| 0 <= k < i ==> #[trigger] out@[k].0 == mappings@[k].0,
        decreases mappings@.len() - i,
    {
        let root = match filesystem.canonicalize(&mappings[i].1) {
            Ok(c) => c,
            Err(_) => mappings[i].1.clone(),
        };
        out.push((mappings[i].0, root));
        i = i + 1;
    }
    out
}

/// The lexical part of guest-to-host translation.
pub fn lexical_translate(path: &WinePath, mappings: &Vec<(char, HostPath)>) -> (r: Result<(HostPath, HostPath), PathError>)
    ensures
        match lexical_guest_to_host(path@, mappings@) {
            Ok(t) => r matches Ok((h, root)) && h@ == t && drive_root(mappings@, path@.drive) == Some(root@),
            Err(e) => r == Err::<(HostPath, HostPath), PathError>(e),
        },
{
    let drive = path.drive();
    let mut i: usize = 0;
    proof { assert(mappings@.subrange(0, mappings@.len() as int) =~= mappings@); }
    while i < mappings.len()
        invariant
            i <= mappings@.len(),
            drive == path@.drive,
            drive_root(mappings@, drive) == drive_root(mappings@.subrange(i as int, mappings@.len() as int), drive),
        decreases mappings@.len() - i,
    {
        let ghost rest = mappings@.subrange(i as int, mappings@.len() as int);
        proof { assert(rest.drop_first() =~= mappings@.subrange(i + 1, mappings@.len() as int)); }
        if mappings[i].0 == drive {
            let root = mappings[i].1.clone();
            let components = path.components();
            let ghost parts = path@.parts;
            let mut translated = root.clone();
            let mut k: usize = 0;
            proof { assert(parts.subrange(0, parts.len() as int) =~= parts); }
            while k < components.len()
                invariant
                    k <= components@.len(),
                    parts == components@.map_values(|c: String| c@),
                    join_all(translated@, parts.subrange(k as int, parts.len() as int)) == join_all(root@, parts),
                decreases components@.len() - k,
            {
                let ghost sub = parts.subrange(k as int, parts.len() as int);
                proof {
                    assert(sub[0] == components@[k as int]@);
                    assert(sub.drop_first() =~= parts.subrange(k + 1, parts.len() as int));
                }
                translated = translated.join(components[k].as_str());
                k = k + 1;
            }
            proof { assert(parts.subrange(parts.len() as int, parts.len() as int) =~= Seq::<Seq<char>>::empty()); }
            if !translated.starts_with(&root) {
                return Err(PathError::PrefixEscape);
            }
            return Ok((translated, root));
        }
        i = i + 1;
    }
    Err(PathError::DriveNotMapped(drive))
}

impl<'a, F: PlatformFileSystem> PathTranslator for WinePathTranslator<'a, F> {
    /// The host path of a guest path: refused when the drive is not mapped,
    /// when the components leave the drive's root, or when a symbolic link
    /// takes the result out of the root.
    fn guest_to_host(&self, path: &WinePath, environment: &StudioEnvironment) -> (r: Result<HostPath, PathError>)
        ensures
            match lexical_guest_to_host(path@, environment.wine_drive_mappings@) {
                Ok(t) => (r matches Ok(h) && h@ == t) || r == Err::<HostPath, PathError>(PathError::PrefixEscape),
                Err(e) => r == Err::<HostPath, PathError>(e),
            },
    {
        let (translated, root) = match lexical_translate(path, &environment.wine_drive_mappings) {
            Ok(pair) => pair,
            Err(e) => { return Err(e); },
        };
        match self.reject_symlink_escape(&root, &translated) {
            Ok(()) => Ok(translated),
            Err(e) => Err(e),
        }
    }

    /// The guest path of a host path, after canonicalizing the path and the
    /// mapped roots where the file system can.
    fn host_to_guest(&self, path: &HostPath, environment: &StudioEnvironment) -> (r: Result<WinePath, PathError>)
        ensures
            r is Err ==> r == Err::<WinePath, PathError>(PathError::HostPathNotMapped),
            environment.wine_drive_mappings@.len() == 0 ==> r is Err,
            exists|p: HostPathView, ms: Seq<(char, HostPath)>| same_drives(ms, environment.wine_drive_mappings@)
                && #[trigger] translated_back(guest_for_host_spec(p, ms), r),
    {
        let normalized = match self.filesystem.canonicalize(path) {
            Ok(c) => c,
            Err(_) => path.clone(),
        };
        let mappings = canonical_mappings(self.filesystem, &environment.wine_drive_mappings);
        let r = match guest_for_host(&normalized, &mappings) {
            Some(w) => Ok(w),
            None => Err(PathError::HostPathNotMapped),
        };
        proof {
            assert(same_drives(mappings@, environment.wine_drive_mappings@));
            assert(translated_back(guest_for_host_spec(normalized@, mappings@), r));
        }
        r
    }
}

/// Mappings with the same drives, in the same order, as `env`.
pub open spec fn same_drives(ms: Seq<(char, HostPath)>, env: Seq<(char, HostPath)>) -> bool {
    ms.len() == env.len() && forall|i: int| 0 <= i < ms.len() ==> #[trigger] ms[i].0 == env[i].0
}

/// A guest translation as `host_to_guest` reports it: the guest path, or
/// `HostPathNotMapped` when no mapping covers the host path.
pub open spec fn translated_back(t: Option<WinePathView>, r: Result<WinePath, PathError>) -> bool {
    match t {
        Some(v) => r matches Ok(w) && w@ == v,
        None => r == Err::<WinePath, PathError>(PathError::HostPathNotMapped),
    }
}

/// A component that joins onto a host path as itself.
pub open spec fn plain_component(c: Seq<char>) -> bool {
    c.len() > 0 && c != dot() && c != dot_dot() && !c.contains('/')
}

proof fn lemma_norm_text_without_separator(acc: Seq<Seq<char>>, cur: Seq<char>, s: Seq<char>)
    requires
        !s.contains('/'),
    ensures
        norm_text(acc, cur, s) == norm_step(acc, cur + s),
    decreases s.len(),
{
    if s.len() == 0 {
        assert(cur + s =~= cur);
    } else {
        assert(s[0] != '/') by { assert(s.contains(s[0])); }
        let rest = s.drop_first();
        assert(!rest.contains('/')) by {
            if rest.contains('/') {
                let k = choose|k: int| 0 <= k < rest.len() && rest[k] == '/';
                assert(s[k + 1] == '/');
            }
        }
        lemma_norm_text_without_separator(acc, cur.push(s[0]), rest);
        assert(cur.push(s[0]) + rest =~= cur + s);
    }
}

proof fn lemma_join_plain(p: HostPathView, c: Seq<char>)
    requires
        plain_component(c),
    ensures
        join_view(p, c) == (HostPathView { absolute: p.absolute, parts: p.parts.push(c) }),
{
    assert(c[0] != '/') by { assert(c.contains(c[0])); }
    lemma_norm_text_without_separator(p.parts, Seq::empty(), c);
    assert(Seq::<char>::empty() + c =~= c);
}

proof fn lemma_join_all_plain(p: HostPathView, comps: Seq<Seq<char>>)
    requires
        forall|i: int| 0 <= i < comps.len() ==> plain_component(#[trigger] comps[i]),
    ensures
        join_all(p, comps) == (HostPathView { absolute: p.absolute, parts: p.parts + comps }),
    decreases comps.len(),
{
    if comps.len() == 0 {
        assert(p.parts + comps =~= p.parts);
    } else {
        assert(plain_component(comps[0]));
        lemma_join_plain(p, comps[0]);
        let q = HostPathView { absolute: p.absolute, parts: p.parts.push(comps[0]) };
        let rest = comps.drop_first();
        assert forall|i: int| 0 <= i < rest.len() implies plain_component(#[trigger] rest[i]) by {
            assert(rest[i] == comps[i + 1]);
        }
        lemma_join_all_plain(q, rest);
        assert(q.parts + rest =~= p.parts + comps);
    }
}

/// Joining plain components onto a root and stripping the root again gives
/// back those components: the joined path starts with the root, and what
/// follows the root is exactly the components.
pub proof fn law_strip_prefix_after_join(root: HostPathView, parts: Seq<Seq<char>>)
    requires
        forall|i: int| 0 <= i < parts.len() ==> plain_component(#[trigger] parts[i]),
    ensures
        host_starts_with(join_all(root, parts), root),
        join_all(root, parts).parts.subrange(root.parts.len() as int, join_all(root, parts).parts.len() as int) == parts,
{
    lemma_join_all_plain(root, parts);
    let j = join_all(root, parts);
    assert(j.parts.subrange(0, root.parts.len() as int) =~= root.parts);
    assert(j.parts.subrange(root.parts.len() as int, j.parts.len() as int) =~= parts);
}

/// A guest path translated to the host and back is the same guest path, for
/// a drive mapped to a single root and components that are neither empty,
/// `.`, `..` nor hold a `/`.
pub proof fn law_guest_host_round_trip(drive: char, root: HostPath, parts: Seq<Seq<char>>)
    requires
        drive == ascii_upper(drive),
        forall|i: int| 0 <= i < parts.len() ==> plain_component(#[trigger] parts[i]),
    ensures
        lexical_guest_to_host(WinePathView { drive, parts }, seq![(drive, root)])
            == Ok::<HostPathView, PathError>(HostPathView { absolute: root@.absolute, parts: root@.parts + parts }),
        guest_for_host_spec(HostPathView { absolute: root@.absolute, parts: root@.parts + parts }, seq![(drive, root)])
            == Some(WinePathView { drive, parts }),
{
    let ms = seq![(drive, root)];
    let t = HostPathView { absolute: root@.absolute, parts: root@.parts + parts };
    assert(drive_root(ms, drive) == Some(root@));
    lemma_join_all_plain(root@, parts);
    assert(t.parts.subrange(0, root@.parts.len() as int) =~= root@.parts);
    assert(host_starts_with(t, root@));
    assert(deepest_mapping(t, ms, 1, Some(0)) == Some(0int));
    assert(deepest_mapping(t, ms, 0, None) == Some(0int));
    assert(t.parts.subrange(root@.parts.len() as int, t.parts.len() as int) =~= parts);
}

} // verus!

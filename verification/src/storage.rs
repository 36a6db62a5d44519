//! Where a project's disposable cache lives, and how content-addressed
//! objects are placed and checked.
use vstd::prelude::*;
use crate::digest::blake3_digest;
use crate::hex::hex_of;
use crate::platform::host_path::{join_view, HostPath, HostPathView};
use crate::resource::ContentHash;
use crate::text::{chars_of, string_from_chars};

verus! {

/// The cache directory of a project: `.lattice` under its root.
pub struct CacheLayout {
    root: HostPath,
}

/// The directories a cache needs, relative to its root.
pub open spec fn cache_children() -> Seq<Seq<char>> {
    seq!["objects/b3"@, "indexes"@, "snapshots"@, "logs"@]
}

impl CacheLayout {
    pub closed spec fn root_view(&self) -> HostPathView {
        self.root@
    }

    /// The cache of the project rooted at `project_root`.
    pub fn for_project(project_root: &HostPath) -> (r: CacheLayout)
        ensures
            r.root_view() == join_view(project_root@, ".lattice"@),
    {
        CacheLayout { root: project_root.join(".lattice") }
    }

    /// The directories to create before the cache is used.
    pub fn directories(&self) -> (r: Vec<HostPath>)
        ensures
            r@.len() == cache_children().len(),
            forall|i: int| 0 <= i < r@.len() ==> (#[trigger] r@[i])@ == join_view(self.root_view(), cache_children()[i]),
    {
        let mut out: Vec<HostPath> = Vec::new();
        out.push(self.root.join("objects/b3"));
        out.push(self.root.join("indexes"));
        out.push(self.root.join("snapshots"));
        out.push(self.root.join("logs"));
        out
    }

    pub fn root(&self) -> (r: &HostPath)
        ensures
            r@ == self.root_view(),
    {
        &self.root
    }

    pub fn database_path(&self) -> (r: HostPath)
        ensures
            r@ == join_view(self.root_view(), "database.sqlite"@),
    {
        self.root.join("database.sqlite")
    }

    pub fn index_path(&self) -> (r: HostPath)
        ensures
            r@ == join_view(self.root_view(), "indexes/source"@),
    {
        self.root.join("indexes/source")
    }

    pub fn tool_index_path(&self) -> (r: HostPath)
        ensures
            r@ == join_view(self.root_view(), "indexes/tools"@),
    {
        self.root.join("indexes/tools")
    }

    pub fn object_store(&self) -> (r: ObjectStore)
        ensures
            r.root_view() == join_view(self.root_view(), "objects"@),
    {
        ObjectStore { root: self.root.join("objects") }
    }
}

/// Objects stored under `b3/<first two hex digits>/<the other digits>`.
pub struct ObjectStore {
    root: HostPath,
}

/// Where an object with the given digest is stored.
pub open spec fn object_path(root: HostPathView, digest: Seq<u8>) -> HostPathView {
    let hex = hex_of(digest);
    join_view(join_view(join_view(root, "b3"@), hex.take(2)), hex.skip(2))
}

impl ObjectStore {
    pub closed spec fn root_view(&self) -> HostPathView {
        self.root@
    }

    /// The path of the object with the given hash.
    pub fn path_for(&self, hash: ContentHash) -> (r: HostPath)
        ensures
            r@ == object_path(self.root_view(), hash@),
    {
        let hex = hash.to_hex();
        let chars = chars_of(hex.as_str());
        let mut head: Vec<char> = Vec::new();
        let mut tail: Vec<char> = Vec::new();
        let mut i: usize = 0;
        while i < chars.len()
            invariant
                i <= chars@.len(),
                head@ == chars@.take(if i < 2 { i as int } else { 2 }),
                i >= 2 ==> tail@ == chars@.subrange(2, i as int),
                i < 2 ==> tail@.len() == 0,
            decreases chars@.len() - i,
        {
            if i < 2 {
                head.push(chars[i]);
                proof { assert(head@ =~= chars@.take(i + 1)); }
            } else {
                tail.push(chars[i]);
                proof { assert(tail@ =~= chars@.subrange(2, i + 1)); }
            }
            i = i + 1;
        }
        proof {
            ContentHash::lemma_view_len(hash);
            assert(tail@ =~= chars@.skip(2));
        }
        let head_text = string_from_chars(head.as_slice());
        let tail_text = string_from_chars(tail.as_slice());
        self.root.join("b3").join(head_text.as_str()).join(tail_text.as_str())
    }

    /// Whether `bytes` are the content with the given hash.
    pub fn holds(bytes: &[u8], hash: ContentHash) -> (r: bool)
        ensures
            r == (blake3_digest(bytes@) == hash@),
    {
        let actual = ContentHash::of(bytes);
        let a = actual.as_bytes();
        let b = hash.as_bytes();
        let mut i: usize = 0;
        while i < 32
            invariant
                i <= 32,
                a@ == actual@,
                actual@ == blake3_digest(bytes@),
                b@ == hash@,
                a@.len() == 32,
                b@.len() == 32,
                forall|k: int| 0 <= k < i ==> a@[k] == b@[k],
            decreases 32 - i,
        {
            if a[i] != b[i] {
                return false;
            }
            i = i + 1;
        }
        proof { assert(a@ =~= b@); }
        true
    }
}

/// A stored object: its hash, size and place.
pub struct ObjectMetadata {
    pub hash: ContentHash,
    pub byte_len: u64,
    pub path: HostPath,
}

/// What recording a source does to its revision: a source seen before
/// keeps its revision when its content hash is unchanged and moves to the
/// next one (saturating) when it changed; a new source starts at revision 0
/// against an empty previous hash, so it counts as changed unless its hash
/// text is empty.
#[derive(Clone, Copy, Debug, Eq, PartialEq, Structural)]
pub struct SourceRevision {
    pub revision: u64,
    pub changed: bool,
}

/// The revision a source gets when recorded with `hash_text`, given the
/// revision and hash recorded before, if any.
pub fn next_source_revision(previous: Option<(u64, &str)>, hash_text: &str) -> (r: SourceRevision)
    ensures
        ({
            let (revision, before) = match previous { Some((v, h)) => (v, h@), None => (0u64, Seq::<char>::empty()) };
            &&& r.changed == (before != hash_text@)
            &&& r.revision == if r.changed { if revision == u64::MAX { revision } else { (revision + 1) as u64 } } else { revision }
        }),
{
    let (revision, before): (u64, &str) = match previous {
        Some((v, h)) => (v, h),
        None => (0, ""),
    };
    proof { reveal_strlit(""); assert(""@ =~= Seq::<char>::empty()); }
    let changed = !crate::json::same_text(before, hash_text);
    let revision = if changed { revision.saturating_add(1) } else { revision };
    SourceRevision { revision, changed }
}

} // verus!

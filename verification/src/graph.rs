//! The evidence-bearing structural graph: resources as nodes, relations with
//! their provenance as edges, held in a `petgraph` stable graph.
use vstd::prelude::*;
use vstd::multiset::Multiset;
use petgraph::graph::NodeIndex;
use petgraph::stable_graph::StableGraph;
use petgraph::visit::EdgeRef;
use petgraph::{Directed, Direction};
use crate::model::{Confidence, EvidenceOrigin, SourceSpan};
use crate::resource::{ResourceKind, ResourceRef, ResourceScope};

verus! {

#[derive(Clone, Debug, Eq, PartialEq)]
pub struct GraphNode {
    pub resource_ref: ResourceRef,
    pub name: String,
}

#[derive(Clone, Copy, Debug, Eq, PartialEq, Structural)]
pub enum EdgeKind {
    ParentOf,
    Requires,
    Calls,
    Reads,
    Writes,
    References,
    FiresRemote,
    InvokesRemote,
    HandlesRemote,
}

#[derive(Clone, Debug, Eq, PartialEq)]
pub struct GraphEdge {
    pub kind: EdgeKind,
    pub origin: EvidenceOrigin,
    pub confidence: Confidence,
    pub source_span: Option<SourceSpan>,
    pub revision: u64,
}

#[verifier::external_type_specification]
#[verifier::external_body]
#[verifier::reject_recursive_types(N)]
#[verifier::reject_recursive_types(E)]
#[verifier::reject_recursive_types(Ty)]
#[verifier::reject_recursive_types(Ix)]
pub struct ExStableGraph<N, E, Ty, Ix>(StableGraph<N, E, Ty, Ix>);

#[verifier::external_type_specification]
#[verifier::external_body]
pub struct ExDirected(Directed);

/// The stable directed graph holding the nodes and edges.
pub type GraphStore = StableGraph<GraphNode, GraphEdge, Directed, u32>;

/// The nodes a graph holds, by node index.
pub uninterp spec fn graph_nodes(g: GraphStore) -> Map<nat, GraphNode>;

/// The edges a graph holds: source index, target index and weight.
pub uninterp spec fn graph_edges(g: GraphStore) -> Multiset<(nat, nat, GraphEdge)>;

/// Calls `StableGraph::default`: the empty graph.
#[verifier::external_body]
fn graph_new() -> (r: GraphStore)
    ensures
        graph_nodes(r) =~= Map::empty(),
        graph_edges(r) =~= Multiset::empty(),
{
    StableGraph::default()
}

/// Calls `StableGraph::add_node`: the node is stored under an index that
/// was not in use (a vacant slot, or the next new one) and the edges stay.
/// With fewer than `u32::MAX` nodes this does not panic: a vacant slot is
/// reused, and without one the slots are exactly the nodes.
#[verifier::external_body]
fn graph_add_node(g: &mut GraphStore, node: GraphNode) -> (r: usize)
    requires
        graph_nodes(*old(g)).dom().finite(),
        graph_nodes(*old(g)).dom().len() < 0xffff_ffff,
    ensures
        !graph_nodes(*old(g)).dom().contains(r as nat),
        graph_nodes(*final(g)) == graph_nodes(*old(g)).insert(r as nat, node),
        graph_edges(*final(g)) == graph_edges(*old(g)),
{
    g.add_node(node).index()
}

/// Assigns the weight of an existing node through `IndexMut`.
#[verifier::external_body]
fn graph_set_node(g: &mut GraphStore, i: usize, node: GraphNode)
    requires
        graph_nodes(*old(g)).dom().contains(i as nat),
    ensures
        graph_nodes(*final(g)) == graph_nodes(*old(g)).insert(i as nat, node),
        graph_edges(*final(g)) == graph_edges(*old(g)),
{
    g[NodeIndex::new(i)] = node;
}

/// Calls `StableGraph::add_edge` between two existing nodes: the edge is
/// added (parallel edges are kept). With fewer than `u32::MAX` edges this
/// does not panic: a vacant edge slot is reused, and without one the slots
/// are exactly the edges.
#[verifier::external_body]
fn graph_add_edge(g: &mut GraphStore, a: usize, b: usize, edge: GraphEdge)
    requires
        graph_nodes(*old(g)).dom().contains(a as nat),
        graph_nodes(*old(g)).dom().contains(b as nat),
        graph_edges(*old(g)).len() < 0xffff_ffff,
    ensures
        graph_nodes(*final(g)) == graph_nodes(*old(g)),
        graph_edges(*final(g)) == graph_edges(*old(g)).insert((a as nat, b as nat, edge)),
{
    g.add_edge(NodeIndex::new(a), NodeIndex::new(b), edge);
}

/// The weight of an existing node (`Index`).
#[verifier::external_body]
fn graph_node<'a>(g: &'a GraphStore, i: usize) -> (r: &'a GraphNode)
    requires
        graph_nodes(*g).dom().contains(i as nat),
    ensures
        *r == graph_nodes(*g)[i as nat],
{
    &g[NodeIndex::new(i)]
}

/// The outgoing edges of a node (`edges_directed` with `Outgoing`), each as
/// its target index and weight.
#[verifier::external_body]
fn graph_out_edges<'a>(g: &'a GraphStore, i: usize) -> (r: Vec<(usize, &'a GraphEdge)>)
    requires
        graph_nodes(*g).dom().contains(i as nat),
    ensures
        forall|p: (nat, GraphEdge)| #[trigger] out_pairs(r@).count(p) == graph_edges(*g).count((i as nat, p.0, p.1)),
        forall|k: int| 0 <= k < r@.len() ==> graph_nodes(*g).dom().contains(#[trigger] r@[k].0 as nat),
{
    g.edges_directed(NodeIndex::new(i), Direction::Outgoing).map(|e| (e.target().index(), e.weight())).collect()
}

/// The (target, weight) pairs of a list of outgoing edges.
pub open spec fn out_pairs(v: Seq<(usize, &GraphEdge)>) -> Multiset<(nat, GraphEdge)> {
    v.map_values(|p: (usize, &GraphEdge)| (p.0 as nat, *p.1)).to_multiset()
}

/// `pairs` lists, as (target, weight), exactly the edges leaving node `i`,
/// each as often as it occurs.
pub open spec fn out_edges_are(edges: Multiset<(nat, nat, GraphEdge)>, i: nat, pairs: Seq<(nat, GraphEdge)>) -> bool {
    forall|p: (nat, GraphEdge)| #[trigger] pairs.to_multiset().count(p) == edges.count((i, p.0, p.1))
}

/// The listed (node, edge) pairs are `pairs` with each target replaced by
/// its node.
pub open spec fn listed_as(nodes: Map<nat, GraphNode>, pairs: Seq<(nat, GraphEdge)>, r: Seq<(&GraphNode, &GraphEdge)>) -> bool {
    &&& r.len() == pairs.len()
    &&& forall|k: int| 0 <= k < pairs.len() ==> *(#[trigger] r[k]).0 == nodes[pairs[k].0] && *r[k].1 == pairs[k].1
}

/// The dependencies of node `i`: each edge leaving it, as often as it
/// occurs, with the node it leads to.
pub open spec fn dependencies_are(nodes: Map<nat, GraphNode>, edges: Multiset<(nat, nat, GraphEdge)>, i: nat, r: Seq<(&GraphNode, &GraphEdge)>) -> bool {
    exists|pairs: Seq<(nat, GraphEdge)>| #[trigger] out_edges_are(edges, i, pairs) && listed_as(nodes, pairs, r)
}

/// What identifies a reference: scope, kind and identifier, as plain values.
pub open spec fn ref_key(r: ResourceRef) -> ((u8, Seq<u8>, u64, u64, u64), (u8, Seq<char>), Seq<u8>) {
    (scope_key(r.scope), kind_key(r.kind), r.id@)
}

/// A scope as a plain value: its variant and its identifiers.
pub open spec fn scope_key(sc: ResourceScope) -> (u8, Seq<u8>, u64, u64, u64) {
    match sc {
        ResourceScope::Workspace { workspace_id } => (0, workspace_id@, 0, 0, 0),
        ResourceScope::Studio { session_id } => (1, session_id@, 0, 0, 0),
        ResourceScope::Cloud { universe_id, place_id, version } => (2, Seq::empty(), universe_id, place_id, version),
        ResourceScope::Test { test_run_id } => (3, test_run_id@, 0, 0, 0),
    }
}

/// A kind as a plain value: its variant and, for other kinds, the text.
pub open spec fn kind_key(k: ResourceKind) -> (u8, Seq<char>) {
    match k {
        ResourceKind::Project => (0, Seq::empty()),
        ResourceKind::Place => (1, Seq::empty()),
        ResourceKind::Instance => (2, Seq::empty()),
        ResourceKind::Script => (3, Seq::empty()),
        ResourceKind::Symbol => (4, Seq::empty()),
        ResourceKind::Result => (5, Seq::empty()),
        ResourceKind::Diagnostic => (6, Seq::empty()),
        ResourceKind::ChangeSet => (7, Seq::empty()),
        ResourceKind::TestResult => (8, Seq::empty()),
        ResourceKind::Other(s) => (9, s@),
    }
}

fn kind_code(k: &ResourceKind) -> (r: u8)
    ensures
        r == kind_key(*k).0,
{
    match k {
        ResourceKind::Project => 0,
        ResourceKind::Place => 1,
        ResourceKind::Instance => 2,
        ResourceKind::Script => 3,
        ResourceKind::Symbol => 4,
        ResourceKind::Result => 5,
        ResourceKind::Diagnostic => 6,
        ResourceKind::ChangeSet => 7,
        ResourceKind::TestResult => 8,
        ResourceKind::Other(_) => 9,
    }
}

fn same_scope(a: &ResourceScope, b: &ResourceScope) -> (r: bool)
    ensures
        r == (scope_key(*a) == scope_key(*b)),
{
    match (a, b) {
        (ResourceScope::Workspace { workspace_id: x }, ResourceScope::Workspace { workspace_id: y }) => x.same(y),
        (ResourceScope::Studio { session_id: x }, ResourceScope::Studio { session_id: y }) => x.same(y),
        (ResourceScope::Cloud { universe_id: u1, place_id: p1, version: v1 },
            ResourceScope::Cloud { universe_id: u2, place_id: p2, version: v2 }) => *u1 == *u2 && *p1 == *p2 && *v1 == *v2,
        (ResourceScope::Test { test_run_id: x }, ResourceScope::Test { test_run_id: y }) => x.same(y),
        _ => false,
    }
}

/// A copy of a reference with the same key.
fn copy_ref(r: &ResourceRef) -> (c: ResourceRef)
    ensures
        ref_key(c) == ref_key(*r),
{
    let kind = match &r.kind {
        ResourceKind::Project => ResourceKind::Project,
        ResourceKind::Place => ResourceKind::Place,
        ResourceKind::Instance => ResourceKind::Instance,
        ResourceKind::Script => ResourceKind::Script,
        ResourceKind::Symbol => ResourceKind::Symbol,
        ResourceKind::Result => ResourceKind::Result,
        ResourceKind::Diagnostic => ResourceKind::Diagnostic,
        ResourceKind::ChangeSet => ResourceKind::ChangeSet,
        ResourceKind::TestResult => ResourceKind::TestResult,
        ResourceKind::Other(s) => ResourceKind::Other(crate::text::string_from_chars(crate::text::chars_of(s.as_str()).as_slice())),
    };
    ResourceRef { scope: r.scope, kind, id: r.id }
}

/// Whether two references name the same resource.
pub fn same_ref(a: &ResourceRef, b: &ResourceRef) -> (r: bool)
    ensures
        r == (ref_key(*a) == ref_key(*b)),
{
    if !same_scope(&a.scope, &b.scope) || kind_code(&a.kind) != kind_code(&b.kind) || !a.id.same(&b.id) {
        return false;
    }
    match (&a.kind, &b.kind) {
        (ResourceKind::Other(x), ResourceKind::Other(y)) => crate::json::same_text(x.as_str(), y.as_str()),
        _ => true,
    }
}

/// The structural graph: each resource once, with the relations found.
pub struct ProjectGraph {
    graph: GraphStore,
    nodes: Vec<(ResourceRef, usize)>,
}

/// The index recorded for a key, searching from position `n` on.
pub open spec fn index_from(nodes: Seq<(ResourceRef, usize)>, key: ((u8, Seq<u8>, u64, u64, u64), (u8, Seq<char>), Seq<u8>), n: int) -> Option<nat>
    decreases nodes.len() - n,
{
    if n < 0 || n >= nodes.len() {
        None
    } else if ref_key(nodes[n].0) == key {
        Some(nodes[n].1 as nat)
    } else {
        index_from(nodes, key, n + 1)
    }
}

proof fn lemma_index_none(nodes: Seq<(ResourceRef, usize)>, key: ((u8, Seq<u8>, u64, u64, u64), (u8, Seq<char>), Seq<u8>), n: int)
    requires
        0 <= n,
        index_from(nodes, key, n) is None,
    ensures
        forall|a: int| n <= a < nodes.len() ==> ref_key(#[trigger] nodes[a].0) != key,
    decreases nodes.len() - n,
{
    if n < nodes.len() {
        lemma_index_none(nodes, key, n + 1);
    }
}

proof fn lemma_index_push(nodes: Seq<(ResourceRef, usize)>, x: (ResourceRef, usize), key: ((u8, Seq<u8>, u64, u64, u64), (u8, Seq<char>), Seq<u8>), n: int)
    requires
        0 <= n <= nodes.len(),
    ensures
        index_from(nodes.push(x), key, n) == match index_from(nodes, key, n) {
            Some(i) => Some(i),
            None => if ref_key(x.0) == key { Some(x.1 as nat) } else { None },
        },
    decreases nodes.len() - n,
{
    if n < nodes.len() {
        assert(nodes.push(x)[n] == nodes[n]);
        lemma_index_push(nodes, x, key, n + 1);
    } else {
        assert(nodes.push(x)[n] == x);
        assert(index_from(nodes.push(x), key, n + 1) is None);
    }
}

impl ProjectGraph {
    /// The node index of a resource, if it is in the graph.
    pub closed spec fn index_of(&self, r: ResourceRef) -> Option<nat> {
        index_from(self.nodes@, ref_key(r), 0)
    }

    /// The node stored for a resource.
    pub open spec fn node_of(&self, r: ResourceRef) -> Option<GraphNode> {
        match self.index_of(r) {
            Some(i) => Some(self.nodes_spec()[i]),
            None => None,
        }
    }

    pub closed spec fn nodes_spec(&self) -> Map<nat, GraphNode> {
        graph_nodes(self.graph)
    }

    pub closed spec fn edges_spec(&self) -> Multiset<(nat, nat, GraphEdge)> {
        graph_edges(self.graph)
    }

    /// The number of resources held.
    pub closed spec fn count_spec(&self) -> nat {
        self.nodes@.len()
    }

    /// Every recorded key is distinct, names a stored node, and every stored
    /// node is recorded under its own reference.
    pub closed spec fn wf(&self) -> bool {
        &&& forall|a: int, b: int| 0 <= a < b < self.nodes@.len() ==> ref_key(self.nodes@[a].0) != ref_key(self.nodes@[b].0)
        &&& forall|a: int, b: int| 0 <= a < b < self.nodes@.len() ==> self.nodes@[a].1 != self.nodes@[b].1
        &&& forall|a: int| 0 <= a < self.nodes@.len() ==> graph_nodes(self.graph).dom().contains(#[trigger] self.nodes@[a].1 as nat)
            && ref_key(graph_nodes(self.graph)[self.nodes@[a].1 as nat].resource_ref) == ref_key(self.nodes@[a].0)
        &&& forall|i: nat| #[trigger] graph_nodes(self.graph).dom().contains(i)
            ==> exists|a: int| 0 <= a < self.nodes@.len() && self.nodes@[a].1 == i
        &&& forall|e: (nat, nat, GraphEdge)| #[trigger] graph_edges(self.graph).count(e) > 0
            ==> graph_nodes(self.graph).dom().contains(e.0) && graph_nodes(self.graph).dom().contains(e.1)
        &&& graph_nodes(self.graph).dom().finite()
        &&& graph_nodes(self.graph).dom().len() == self.nodes@.len()
    }

    /// The empty graph.
    pub fn new() -> (r: ProjectGraph)
        ensures
            r.wf(),
            r.count_spec() == 0,
            r.nodes_spec() == Map::<nat, GraphNode>::empty(),
            r.edges_spec() == Multiset::<(nat, nat, GraphEdge)>::empty(),
            forall|x: ResourceRef| #[trigger] r.index_of(x) is None,
    {
        let r = ProjectGraph { graph: graph_new(), nodes: Vec::new() };
        r
    }

    fn position(&self, r: &ResourceRef) -> (p: Option<usize>)
        ensures
            match p {
                Some(k) => k < self.nodes@.len() && ref_key(self.nodes@[k as int].0) == ref_key(*r)
                    && self.index_of(*r) == Some(self.nodes@[k as int].1 as nat),
                None => self.index_of(*r) is None,
            },
    {
        let mut k: usize = 0;
        while k < self.nodes.len()
            invariant
                k <= self.nodes@.len(),
                index_from(self.nodes@, ref_key(*r), 0) == index_from(self.nodes@, ref_key(*r), k as int),
            decreases self.nodes@.len() - k,
        {
            if same_ref(&self.nodes[k].0, r) {
                return Some(k);
            }
            k = k + 1;
        }
        None
    }

    /// Stores a node under its reference, replacing the node stored there
    /// before; edges are kept. The graph holds fewer than `u32::MAX`
    /// resources (its node index type).
    pub fn upsert_node(&mut self, node: GraphNode)
        requires
            old(self).wf(),
            old(self).count_spec() < 0xffff_ffff,
        ensures
            final(self).wf(),
            final(self).edges_spec() == old(self).edges_spec(),
            old(self).index_of(node.resource_ref) matches Some(i) ==> (final(self).index_of(node.resource_ref) == Some(i)
                && final(self).nodes_spec() == old(self).nodes_spec().insert(i, node)
                && final(self).count_spec() == old(self).count_spec()),
            old(self).index_of(node.resource_ref) is None ==> (final(self).index_of(node.resource_ref) matches Some(i)
                && !old(self).nodes_spec().dom().contains(i)
                && final(self).nodes_spec() == old(self).nodes_spec().insert(i, node)
                && final(self).count_spec() == old(self).count_spec() + 1),
            forall|x: ResourceRef| ref_key(x) != ref_key(node.resource_ref)
                ==> #[trigger] final(self).index_of(x) == old(self).index_of(x),
    {
        match self.position(&node.resource_ref) {
            Some(k) => {
                let i = self.nodes[k].1;
                let ghost key = ref_key(node.resource_ref);
                proof { assert(graph_nodes(self.graph).dom().contains(i as nat)); }
                let ghost g_before = graph_nodes(self.graph);
                graph_set_node(&mut self.graph, i, node);
                proof {
                    assert(graph_nodes(self.graph).dom() =~= g_before.dom());
                    assert forall|a: int| 0 <= a < self.nodes@.len() implies graph_nodes(self.graph).dom().contains(#[trigger] self.nodes@[a].1 as nat)
                        && ref_key(graph_nodes(self.graph)[self.nodes@[a].1 as nat].resource_ref) == ref_key(self.nodes@[a].0) by {
                        if a != k { assert(self.nodes@[a].1 != self.nodes@[k as int].1); }
                    }
                }
            },
            None => {
                let reference = copy_ref(&node.resource_ref);
                let ghost before = self.nodes@;
                let ghost g0 = graph_nodes(self.graph);
                let ghost n0 = node;
                proof { lemma_index_none(before, ref_key(node.resource_ref), 0); }
                let i = graph_add_node(&mut self.graph, node);
                self.nodes.push((reference, i));
                proof {
                    assert(graph_nodes(self.graph).dom() =~= g0.dom().insert(i as nat));
                    let after = self.nodes@;
                    assert(after == before.push((reference, i)));
                    assert forall|x: ResourceRef| #[trigger] index_from(after, ref_key(x), 0)
                        == match index_from(before, ref_key(x), 0) {
                            Some(j) => Some(j),
                            None => if ref_key(reference) == ref_key(x) { Some(i as nat) } else { None },
                        } by {
                        lemma_index_push(before, (reference, i), ref_key(x), 0);
                    }
                    assert(index_from(after, ref_key(n0.resource_ref), 0) == Some(i as nat));
                    assert forall|a: int| 0 <= a < after.len() implies graph_nodes(self.graph).dom().contains(#[trigger] after[a].1 as nat)
                        && ref_key(graph_nodes(self.graph)[after[a].1 as nat].resource_ref) == ref_key(after[a].0) by {
                        if a < before.len() {
                            assert(after[a] == before[a]);
                            assert(g0.dom().contains(before[a].1 as nat));
                        }
                    }
                    assert forall|j: nat| #[trigger] graph_nodes(self.graph).dom().contains(j)
                        implies exists|a: int| 0 <= a < after.len() && after[a].1 == j by {
                        if j == i as nat {
                            assert(after[before.len() as int].1 == i);
                        } else {
                            assert(g0.dom().contains(j));
                            let a = choose|a: int| 0 <= a < before.len() && before[a].1 == j;
                            assert(after[a] == before[a]);
                        }
                    }
                    assert forall|a: int, b: int| 0 <= a < b < after.len() implies after[a].1 != after[b].1 by {
                        if b == before.len() {
                            assert(after[a] == before[a]);
                            assert(g0.dom().contains(before[a].1 as nat));
                        } else {
                            assert(after[a] == before[a] && after[b] == before[b]);
                        }
                    }
                    assert forall|a: int, b: int| 0 <= a < b < after.len() implies ref_key(after[a].0) != ref_key(after[b].0) by {
                        if b == before.len() {
                            assert(after[a] == before[a]);
                        } else {
                            assert(after[a] == before[a] && after[b] == before[b]);
                        }
                    }
                }
            },
        }
    }
}

impl ProjectGraph {
    /// Adds an edge between two stored resources (parallel edges are
    /// kept) and answers `true`; answers `false` and changes nothing when
    /// either resource is missing. The graph holds fewer than `u32::MAX`
    /// edges (its edge index type).
    pub fn add_edge(&mut self, source: &ResourceRef, target: &ResourceRef, edge: GraphEdge) -> (r: bool)
        requires
            old(self).wf(),
            old(self).edges_spec().len() < 0xffff_ffff,
        ensures
            final(self).wf(),
            final(self).nodes_spec() == old(self).nodes_spec(),
            final(self).count_spec() == old(self).count_spec(),
            forall|x: ResourceRef| #[trigger] final(self).index_of(x) == old(self).index_of(x),
            r == (old(self).index_of(*source) is Some && old(self).index_of(*target) is Some),
            r ==> (old(self).index_of(*source) matches Some(a) && old(self).index_of(*target) matches Some(b)
                && final(self).edges_spec() == old(self).edges_spec().insert((a, b, edge))),
            !r ==> final(self).edges_spec() == old(self).edges_spec(),
    {
        let a = match self.position(source) {
            Some(k) => self.nodes[k].1,
            None => { return false; },
        };
        let b = match self.position(target) {
            Some(k) => self.nodes[k].1,
            None => { return false; },
        };
        let ghost e0 = graph_edges(self.graph);
        let ghost w = edge;
        graph_add_edge(&mut self.graph, a, b, edge);
        proof {
            assert forall|e: (nat, nat, GraphEdge)| #[trigger] graph_edges(self.graph).count(e) > 0
                implies graph_nodes(self.graph).dom().contains(e.0) && graph_nodes(self.graph).dom().contains(e.1) by {
                if e == (a as nat, b as nat, w) {
                } else {
                    assert(e0.count(e) > 0);
                }
            }
        }
        true
    }

    /// The relations leaving a stored resource, each with the node it leads
    /// to; none for a resource that is not stored.
    pub fn dependencies(&self, source: &ResourceRef) -> (r: Vec<(&GraphNode, &GraphEdge)>)
        requires
            self.wf(),
        ensures
            self.index_of(*source) is None ==> r@.len() == 0,
            self.index_of(*source) matches Some(i) ==> dependencies_are(self.nodes_spec(), self.edges_spec(), i, r@),
    {
        let i = match self.position(source) {
            Some(k) => self.nodes[k].1,
            None => { return Vec::new(); },
        };
        let out = graph_out_edges(&self.graph, i);
        let ghost pairs = out@.map_values(|p: (usize, &GraphEdge)| (p.0 as nat, *p.1));
        let mut r: Vec<(&GraphNode, &GraphEdge)> = Vec::new();
        let mut k: usize = 0;
        while k < out.len()
            invariant
                k <= out@.len(),
                r@.len() == k,
                pairs == out@.map_values(|p: (usize, &GraphEdge)| (p.0 as nat, *p.1)),
                forall|j: int| 0 <= j < out@.len() ==> graph_nodes(self.graph).dom().contains(#[trigger] out@[j].0 as nat),
                forall|j: int| 0 <= j < k ==> *(#[trigger] r@[j]).0 == graph_nodes(self.graph)[pairs[j].0] && *r@[j].1 == pairs[j].1,
            decreases out@.len() - k,
        {
            let (t, w) = out[k];
            proof { assert(graph_nodes(self.graph).dom().contains(out@[k as int].0 as nat)); }
            let n = graph_node(&self.graph, t);
            r.push((n, w));
            k = k + 1;
        }
        proof {
            assert(pairs.to_multiset() == out_pairs(out@));
            assert(out_edges_are(self.edges_spec(), i as nat, pairs));
            assert(self.index_of(*source) == Some(i as nat));
            assert(r@.len() == pairs.len());
            assert(forall|k: int| 0 <= k < pairs.len() ==> *(#[trigger] r@[k]).0 == self.nodes_spec()[pairs[k].0] && *r@[k].1 == pairs[k].1);
            assert(listed_as(self.nodes_spec(), pairs, r@));
            assert(dependencies_are(self.nodes_spec(), self.edges_spec(), i as nat, r@));
        }
        r
    }

    /// The number of stored resources.
    pub fn node_count(&self) -> (r: usize)
        ensures
            r == self.count_spec(),
    {
        self.nodes.len()
    }
}

impl Default for ProjectGraph {
    fn default() -> (r: ProjectGraph)
        ensures
            r.wf(),
            r.count_spec() == 0,
            r.edges_spec() == Multiset::<(nat, nat, GraphEdge)>::empty(),
            forall|x: ResourceRef| #[trigger] r.index_of(x) is None,
    {
        ProjectGraph::new()
    }
}

} // verus!

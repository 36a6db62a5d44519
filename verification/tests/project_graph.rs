use lattice::graph::{EdgeKind, GraphEdge, GraphNode, ProjectGraph};
use lattice::model::{Confidence, EvidenceOrigin};
use lattice::resource::{LatticeId, ResourceKind, ResourceRef};

fn edge(kind: EdgeKind, revision: u64) -> GraphEdge {
    GraphEdge {
        kind,
        origin: EvidenceOrigin::StaticAst,
        confidence: Confidence::Certain,
        source_span: None,
        revision,
    }
}

#[test]
fn graph_edges_always_carry_provenance() {
    let workspace = LatticeId::new();
    let left = ResourceRef::workspace(workspace, ResourceKind::Script, LatticeId::new());
    let right = ResourceRef::workspace(workspace, ResourceKind::Script, LatticeId::new());
    let mut graph = ProjectGraph::default();
    graph.upsert_node(GraphNode { resource_ref: left.clone(), name: "A".into() });
    graph.upsert_node(GraphNode { resource_ref: right.clone(), name: "B".into() });
    assert!(graph.add_edge(&left, &right, edge(EdgeKind::Requires, 1)));
    let dependencies = graph.dependencies(&left);
    assert_eq!(dependencies[0].0.name, "B");
    assert_eq!(dependencies[0].1.origin, EvidenceOrigin::StaticAst);
}

#[test]
fn upsert_replaces_and_missing_endpoints_add_no_edge() {
    let workspace = LatticeId::new();
    let left = ResourceRef::workspace(workspace, ResourceKind::Script, LatticeId::new());
    let right = ResourceRef::workspace(workspace, ResourceKind::Instance, LatticeId::new());
    let stranger = ResourceRef::workspace(workspace, ResourceKind::Script, LatticeId::new());
    let mut graph = ProjectGraph::default();
    graph.upsert_node(GraphNode { resource_ref: left.clone(), name: "A".into() });
    graph.upsert_node(GraphNode { resource_ref: right.clone(), name: "B".into() });
    graph.upsert_node(GraphNode { resource_ref: right.clone(), name: "B2".into() });
    assert_eq!(graph.node_count(), 2);
    assert!(!graph.add_edge(&left, &stranger, edge(EdgeKind::Calls, 1)));
    assert!(graph.dependencies(&stranger).is_empty());
    assert!(graph.add_edge(&left, &right, edge(EdgeKind::Calls, 1)));
    assert!(graph.add_edge(&left, &right, edge(EdgeKind::Reads, 2)));
    let dependencies = graph.dependencies(&left);
    assert_eq!(dependencies.len(), 2);
    assert!(dependencies.iter().all(|(node, _)| node.name == "B2"));
    let mut kinds: Vec<u64> = dependencies.iter().map(|(_, e)| e.revision).collect();
    kinds.sort();
    assert_eq!(kinds, vec![1, 2]);
    assert!(graph.dependencies(&right).is_empty());
}

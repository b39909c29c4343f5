use samplegraph::digraph::Graph;
use samplegraph::kinds::RelationshipKind;

fn sorted_nodes(graph: &Graph) -> Vec<u32> {
    let mut nodes = graph.node_ids();
    nodes.sort();
    nodes
}

fn sorted_edges(graph: &Graph) -> Vec<(u32, u32, u8)> {
    let mut edges: Vec<(u32, u32, u8)> =
        graph.edge_list().into_iter().map(|(a, b, k)| (a, b, k.index())).collect();
    edges.sort();
    edges
}

#[test]
fn new_graph_is_empty() {
    let graph = Graph::new();
    assert!(graph.node_ids().is_empty());
    assert!(graph.edge_list().is_empty());
    assert!(!graph.contains_node(0));
    assert!(!graph.contains_edge(0, 0, RelationshipKind::Unknown));
}

#[test]
fn add_node_makes_a_node() {
    let mut graph = Graph::new();
    graph.add_node(7);
    assert!(graph.contains_node(7));
    assert!(!graph.contains_node(8));
    assert_eq!(sorted_nodes(&graph), vec![7]);
    assert!(graph.edge_list().is_empty());
}

#[test]
fn add_node_twice_keeps_one_node() {
    let mut graph = Graph::new();
    graph.add_node(7);
    graph.add_node(7);
    assert_eq!(graph.node_ids(), vec![7]);
}

#[test]
fn add_edge_adds_both_ends() {
    let mut graph = Graph::new();
    graph.add_edge(1, 2, RelationshipKind::CoverOf);
    assert!(graph.contains_node(1));
    assert!(graph.contains_node(2));
    assert!(graph.contains_edge(1, 2, RelationshipKind::CoverOf));
    assert!(!graph.contains_edge(2, 1, RelationshipKind::CoverOf));
    assert!(!graph.contains_edge(1, 2, RelationshipKind::CoveredBy));
    assert_eq!(sorted_nodes(&graph), vec![1, 2]);
    assert_eq!(sorted_edges(&graph), vec![(1, 2, 4)]);
}

#[test]
fn add_edge_twice_keeps_one_edge() {
    let mut graph = Graph::new();
    graph.add_edge(1, 2, RelationshipKind::Samples);
    graph.add_edge(1, 2, RelationshipKind::Samples);
    assert_eq!(graph.edge_list(), vec![(1, 2, RelationshipKind::Samples)]);
}

#[test]
fn edges_of_two_kinds_between_one_pair() {
    let mut graph = Graph::new();
    graph.add_edge(1, 2, RelationshipKind::Samples);
    graph.add_edge(1, 2, RelationshipKind::RemixOf);
    assert!(graph.contains_edge(1, 2, RelationshipKind::Samples));
    assert!(graph.contains_edge(1, 2, RelationshipKind::RemixOf));
    assert!(!graph.contains_edge(1, 2, RelationshipKind::CoverOf));
    assert_eq!(sorted_edges(&graph), vec![(1, 2, 0), (1, 2, 6)]);
    assert_eq!(sorted_nodes(&graph), vec![1, 2]);
}

#[test]
fn edge_keeps_nodes_added_before() {
    let mut graph = Graph::new();
    graph.add_node(5);
    graph.add_edge(1, 5, RelationshipKind::Unknown);
    graph.add_edge(5, 1, RelationshipKind::Unknown);
    assert_eq!(sorted_nodes(&graph), vec![1, 5]);
    assert_eq!(sorted_edges(&graph), vec![(1, 5, 12), (5, 1, 12)]);
}

#[test]
fn self_loop_is_one_node() {
    let mut graph = Graph::new();
    graph.add_edge(3, 3, RelationshipKind::CoverOf);
    graph.add_edge(3, 3, RelationshipKind::CoveredBy);
    assert_eq!(graph.node_ids(), vec![3]);
    assert_eq!(sorted_edges(&graph), vec![(3, 3, 4), (3, 3, 5)]);
}

#[test]
fn edge_list_has_every_kind_once() {
    let mut graph = Graph::new();
    for index in 0..13u8 {
        let kind = RelationshipKind::at(index).unwrap();
        graph.add_edge(10, 20, kind);
        graph.add_edge(10, 20, kind);
    }
    let edges = sorted_edges(&graph);
    assert_eq!(edges.len(), 13);
    for index in 0..13u8 {
        assert_eq!(edges[index as usize], (10, 20, index));
    }
}

#[test]
fn node_ids_has_every_node_once() {
    let mut graph = Graph::new();
    for id in [4u32, 9, 4, 2, 9, 2, 4] {
        graph.add_node(id);
    }
    assert_eq!(sorted_nodes(&graph), vec![2, 4, 9]);
}

use std::time::{Duration, Instant};

use flow_rt::graphs::in_memory_graph::{GraphError, InMemoryGraph};
use flow_rt::graphs::{
    create_dynamic_chain, GraphEdge, GraphMeasurement, GraphNode, GraphObject, GraphPosition,
    GraphViewport,
};

fn node(id: &str, node_type: &str, x: f32, y: f32, width: f32, height: f32) -> GraphNode {
    GraphNode {
        id: id.to_owned(),
        node_type: node_type.to_owned(),
        position: GraphPosition { x: x.to_bits(), y: y.to_bits() },
        measurement: GraphMeasurement { width: width.to_bits(), height: height.to_bits() },
        data: serde_json::Value::Object(serde_json::Map::new()),
    }
}

fn edge(id: &str, source: &str, target: &str) -> GraphEdge {
    GraphEdge {
        id: id.to_owned(),
        edge_type: "customEdge".to_owned(),
        source: source.to_owned(),
        target: target.to_owned(),
    }
}

fn create_from_json() -> GraphObject {
    GraphObject {
        nodes: vec![
            node("startNode", "startNode", 296.0, 198.0, 102.0, 50.0),
            node(
                "scriptNode-c508eb1b-5b7f-48ce-98ca-5a6a0aafdcc7",
                "scriptNode",
                628.0,
                274.0,
                110.0,
                50.0,
            ),
            node(
                "scriptNode-493fe4ad-c90e-4ebc-ac57-636d6323de8a",
                "scriptNode",
                1001.0,
                245.0,
                110.0,
                50.0,
            ),
        ],
        edges: vec![
            edge(
                "xy-edge__startNode-scriptNode-c508eb1b-5b7f-48ce-98ca-5a6a0aafdcc7",
                "startNode",
                "scriptNode-c508eb1b-5b7f-48ce-98ca-5a6a0aafdcc7",
            ),
            edge(
                "xy-edge__scriptNode-c508eb1b-5b7f-48ce-98ca-5a6a0aafdcc7-scriptNode-493fe4ad-c90e-4ebc-ac57-636d6323de8a",
                "scriptNode-c508eb1b-5b7f-48ce-98ca-5a6a0aafdcc7",
                "scriptNode-493fe4ad-c90e-4ebc-ac57-636d6323de8a",
            ),
        ],
        viewport: GraphViewport { x: 0f32.to_bits(), y: 0f32.to_bits(), zoom: 1f32.to_bits() },
    }
}

#[test]
fn get_connected_nodes_should_have_2() {
    // When
    let graph = create_from_json();

    let nodes = graph.get_connected_nodes("scriptNode-c508eb1b-5b7f-48ce-98ca-5a6a0aafdcc7");

    // Then
    assert_eq!(
        nodes.len(),
        2usize,
        "Should have a connected startNode and a connected scriptNode"
    );
}

#[test]
fn get_connected_source_nodes_should_have_1() {
    // When
    let graph = create_from_json();

    let nodes =
        graph.get_connected_source_nodes("scriptNode-c508eb1b-5b7f-48ce-98ca-5a6a0aafdcc7");

    // Then
    assert_eq!(
        nodes.len(),
        1usize,
        "Should have a connected startNode and a connected scriptNode"
    );
}

#[test]
fn get_connected_target_nodes_should_have_1() {
    // When
    let graph = create_from_json();

    let nodes =
        graph.get_connected_target_nodes("scriptNode-c508eb1b-5b7f-48ce-98ca-5a6a0aafdcc7");

    // Then
    assert_eq!(
        nodes.len(),
        1usize,
        "Should have a connected startNode and a connected scriptNode"
    );
}

#[test]
fn get_connected_target_nodes_should_have_none() {
    // When
    let graph = create_from_json();

    let nodes =
        graph.get_connected_target_nodes("scriptNode-493fe4ad-c90e-4ebc-ac57-636d6323de8a");

    // Then
    assert_eq!(
        nodes.len(),
        0usize,
        "Should not have a connected target node"
    );
}

#[test]
fn get_connected_source_nodes_should_have_none() {
    // When
    let graph = create_from_json();

    let nodes = graph.get_connected_source_nodes("startNode");

    // Then
    assert_eq!(
        nodes.len(),
        0usize,
        "Should not have a connected source node"
    );
}

#[test]
fn create_in_memory_graph_should_have_3_nodes() {
    // When
    let graph = create_from_json();

    let mut memory_graph = InMemoryGraph::from_graph_object(graph).unwrap();

    // Then
    println!("{memory_graph:?}");
    assert_eq!(memory_graph.nodes.len(), 3usize, "Should have 3 nodes");

    memory_graph.dispose();
}

#[test]
fn create_dynamic_chain_test_lookup_time_last_element() {
    let graph = create_dynamic_chain(1_000_000);
    let mut times: Vec<Duration> = Vec::with_capacity(1000);
    let mut last_element_by_name = None;

    for _ in 0..1000 {
        let time_now = Instant::now();
        last_element_by_name = std::hint::black_box(graph.find_node("scriptNode-999999"));
        times.push(time_now.elapsed());
    }

    let sum: Duration = times.iter().sum();
    let avg = sum / times.len() as u32;
    let max = times.iter().max().unwrap();
    let min = times.iter().min().unwrap();

    println!("Results: Avg: {:?}, Min: {:?}, Max: {:?}", avg, min, max);

    assert!(last_element_by_name.is_some());
}

#[test]
fn create_dynamic_chain_test_lookup_time_in_memory_graph_last_element() {
    let json_graph = create_dynamic_chain(1_000_000);
    let img = InMemoryGraph::from_graph_object(json_graph).unwrap();
    let mut times: Vec<Duration> = Vec::with_capacity(100000);
    let mut last_element_by_name = None;

    for _ in 0..100000 {
        let time_now = Instant::now();
        last_element_by_name = std::hint::black_box(img.find_node("scriptNode-999999"));
        times.push(time_now.elapsed());
    }

    let sum: Duration = times.iter().sum();
    let avg = sum / times.len() as u32;
    let max = times.iter().max().unwrap();
    let min = times.iter().min().unwrap();

    println!("Results: Avg: {:?}, Min: {:?}, Max: {:?}", avg, min, max);

    assert!(last_element_by_name.is_some());
}

#[test]
fn duplicate_identity_is_rejected_with_the_repeated_id() {
    let mut graph = create_from_json();
    graph.nodes.push(node("startNode", "other", 0.0, 0.0, 0.0, 0.0));
    match InMemoryGraph::from_graph_object(graph) {
        Err(GraphError::DuplicateIdentity(id)) => assert_eq!(id, "startNode"),
        Ok(_) => panic!("a document with a repeated identity was indexed"),
    }
}

#[test]
fn index_has_one_entry_per_node_and_finds_exactly_those() {
    let graph = InMemoryGraph::from_graph_object(create_from_json()).unwrap();
    assert_eq!(graph.nodes_by_id.len(), 3);
    for id in [
        "startNode",
        "scriptNode-c508eb1b-5b7f-48ce-98ca-5a6a0aafdcc7",
        "scriptNode-493fe4ad-c90e-4ebc-ac57-636d6323de8a",
    ] {
        assert_eq!(graph.find_node(id).unwrap().node_data.id, id);
    }
    assert!(graph.find_node("scriptNode").is_none());
    assert!(graph.find_node("").is_none());
}

#[test]
fn index_lists_cells_by_type_in_document_order() {
    let graph = InMemoryGraph::from_graph_object(create_from_json()).unwrap();
    assert_eq!(graph.find_by_type("startNode"), Some(&vec![0usize]));
    assert_eq!(graph.find_by_type("scriptNode"), Some(&vec![1usize, 2]));
    assert!(graph.find_by_type("customEdge").is_none());
}

#[test]
fn index_records_both_directions_of_every_edge() {
    let graph = InMemoryGraph::from_graph_object(create_from_json()).unwrap();
    let targets: Vec<&Vec<usize>> = graph.nodes.iter().map(|n| &n.target_connections).collect();
    let sources: Vec<&Vec<usize>> = graph.nodes.iter().map(|n| &n.source_connections).collect();
    assert_eq!(targets, vec![&vec![1usize], &vec![2usize], &vec![]]);
    assert_eq!(sources, vec![&vec![], &vec![0usize], &vec![1usize]]);
}

#[test]
fn dangling_edges_are_dropped_without_an_error() {
    let mut document = create_from_json();
    document.edges.insert(1, edge("to-nowhere", "startNode", "ghost"));
    document.edges.push(edge("from-nowhere", "ghost", "startNode"));
    document.edges.push(edge("loop", "startNode", "startNode"));
    let graph = InMemoryGraph::from_graph_object(document).unwrap();
    let start = graph.find_node("startNode").unwrap();
    assert_eq!(start.target_connections, vec![1, 0]);
    assert_eq!(start.source_connections, vec![0]);
    assert!(graph.find_node("ghost").is_none());
}

#[test]
fn dispose_empties_the_index_and_may_be_repeated() {
    let mut graph = InMemoryGraph::from_graph_object(create_from_json()).unwrap();
    graph.dispose();
    assert!(graph.nodes.is_empty());
    assert!(graph.find_node("startNode").is_none());
    assert!(graph.find_by_type("scriptNode").is_none());
    graph.dispose();
    assert!(graph.nodes.is_empty());
    assert!(graph.find_node("startNode").is_none());
    assert!(graph.find_by_type("scriptNode").is_none());
}

#[test]
fn the_first_repeated_identity_is_reported() {
    let document = GraphObject {
        nodes: vec![
            node("a", "t", 0.0, 0.0, 0.0, 0.0),
            node("b", "t", 0.0, 0.0, 0.0, 0.0),
            node("c", "t", 0.0, 0.0, 0.0, 0.0),
            node("b", "t", 0.0, 0.0, 0.0, 0.0),
            node("a", "t", 0.0, 0.0, 0.0, 0.0),
        ],
        edges: vec![],
        viewport: GraphViewport { x: 0, y: 0, zoom: 0 },
    };
    match InMemoryGraph::from_graph_object(document) {
        Err(error) => {
            assert_eq!(error.message(), "Should not have duplicate IDs. Duplicate found: b");
            let GraphError::DuplicateIdentity(id) = error;
            assert_eq!(id, "b");
        }
        Ok(_) => panic!("a document with repeated identities was indexed"),
    }
}

#[test]
fn document_queries_answer_in_document_order() {
    let mut document = create_from_json();
    document.nodes.push(node("startNode", "late", 0.0, 0.0, 0.0, 0.0));
    let scripts: Vec<String> =
        document.find_nodes_of_type("scriptNode").into_iter().map(|n| n.id).collect();
    assert_eq!(
        scripts,
        vec![
            "scriptNode-c508eb1b-5b7f-48ce-98ca-5a6a0aafdcc7",
            "scriptNode-493fe4ad-c90e-4ebc-ac57-636d6323de8a"
        ]
    );
    assert_eq!(document.find_edges_of_type("customEdge").len(), 2);
    assert!(document.find_edges_of_type("mockEdge").is_empty());
    assert_eq!(document.find_node("startNode").unwrap().node_type, "startNode");
    assert!(document.find_node("nowhere").is_none());
    let found = document
        .find_edge("xy-edge__startNode-scriptNode-c508eb1b-5b7f-48ce-98ca-5a6a0aafdcc7")
        .unwrap();
    assert_eq!(found.source, "startNode");
    assert!(document.find_edge("nowhere").is_none());
    let both: Vec<String> = document
        .get_connected_nodes("scriptNode-c508eb1b-5b7f-48ce-98ca-5a6a0aafdcc7")
        .into_iter()
        .map(|n| n.id)
        .collect();
    assert_eq!(both, vec!["startNode", "scriptNode-493fe4ad-c90e-4ebc-ac57-636d6323de8a"]);
}

#[test]
fn a_generated_chain_numbers_its_nodes_and_edges() {
    let chain = create_dynamic_chain(12);
    assert_eq!(chain.nodes.len(), 12);
    assert_eq!(chain.edges.len(), 11);
    assert_eq!(chain.nodes[0].id, "scriptNode-0");
    assert_eq!(chain.nodes[10].id, "scriptNode-10");
    assert_eq!(chain.nodes[11].node_type, "scriptNode");
    assert_eq!(chain.nodes[11].data, serde_json::Value::Object(serde_json::Map::new()));
    assert_eq!(chain.edges[0].id, "scriptNode-mockEdge-1");
    assert_eq!(chain.edges[0].source, "scriptNode-0");
    assert_eq!(chain.edges[0].target, "scriptNode-1");
    assert_eq!(chain.edges[10].id, "scriptNode-mockEdge-11");
    assert_eq!(chain.edges[10].edge_type, "mockEdge");
    assert_eq!(chain.viewport, GraphViewport { x: 0, y: 0, zoom: 0 });
    assert!(create_dynamic_chain(0).nodes.is_empty());
    assert!(create_dynamic_chain(0).edges.is_empty());
    assert!(create_dynamic_chain(1).edges.is_empty());
}

#[test]
fn mock_items_take_their_defaults() {
    let plain = GraphNode::mock_node(None, None);
    assert_eq!(plain.id, "scriptNode");
    assert_eq!(plain.node_type, "scriptNode");
    assert_eq!(plain.position, GraphPosition { x: 0f32.to_bits(), y: 0f32.to_bits() });
    let named = GraphNode::mock_node(Some("n1"), Some("startNode"));
    assert_eq!(named.id, "n1");
    assert_eq!(named.node_type, "startNode");
    let link = GraphEdge::mock_edge("e", "a", "b");
    assert_eq!((link.id.as_str(), link.source.as_str(), link.target.as_str()), ("e", "a", "b"));
    assert_eq!(link.edge_type, "mockEdge");
}

#[test]
fn the_index_answers_what_a_scan_of_the_document_answers() {
    let mut document = create_from_json();
    document.edges.push(edge("back", "scriptNode-493fe4ad-c90e-4ebc-ac57-636d6323de8a", "startNode"));
    document.edges.push(edge("again", "startNode", "scriptNode-c508eb1b-5b7f-48ce-98ca-5a6a0aafdcc7"));
    document.edges.push(edge("dangling", "startNode", "nowhere"));
    let scanned = GraphObject {
        nodes: document.nodes.clone(),
        edges: document.edges.clone(),
        viewport: document.viewport,
    };
    let graph = InMemoryGraph::from_graph_object(document).unwrap();
    let ids = |positions: &Vec<usize>| -> Vec<String> {
        positions.iter().map(|at| graph.nodes[*at].node_data.id.clone()).collect()
    };
    for cell in graph.nodes.iter() {
        let id = cell.node_data.id.as_str();
        let targets: Vec<String> =
            scanned.get_connected_target_nodes(id).into_iter().map(|n| n.id).collect();
        let sources: Vec<String> =
            scanned.get_connected_source_nodes(id).into_iter().map(|n| n.id).collect();
        assert_eq!(ids(&cell.target_connections), targets, "targets of {id}");
        assert_eq!(ids(&cell.source_connections), sources, "sources of {id}");
    }
    for node_type in ["startNode", "scriptNode"] {
        let scanned_ids: Vec<String> =
            scanned.find_nodes_of_type(node_type).into_iter().map(|n| n.id).collect();
        assert_eq!(ids(graph.find_by_type(node_type).unwrap()), scanned_ids);
    }
}

#[test]
fn a_copy_of_the_index_answers_alike_and_outlives_the_first() {
    let mut graph = InMemoryGraph::from_graph_object(create_from_json()).unwrap();
    let copy = graph.clone();
    graph.dispose();
    assert_eq!(copy.nodes.len(), 3);
    assert_eq!(copy.find_node("startNode").unwrap().target_connections, vec![1]);
    assert_eq!(copy.find_by_type("scriptNode"), Some(&vec![1usize, 2]));
    assert!(graph.find_node("startNode").is_none());
}

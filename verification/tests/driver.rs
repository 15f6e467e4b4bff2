use flow_rt::driver::execute_node;
use flow_rt::graphs::in_memory_graph::InMemoryGraph;
use flow_rt::graphs::{GraphNode, GraphObject, GraphViewport};
use flow_rt::pipelines::{DispatchError, NativeFnContext, NativeFnMetaInfo, NativeFnRegistry};
use serde_json::Value;

type Handler = fn(NativeFnContext) -> Result<(), DispatchError>;

fn wants_seven(ctx: NativeFnContext) -> Result<(), DispatchError> {
    if ctx.name == "step" && ctx.context == Value::from(7) {
        Ok(())
    } else {
        Err(DispatchError::InvalidArguments(format!("{} got {}", ctx.name, ctx.context)))
    }
}

fn graph_of(nodes: Vec<GraphNode>) -> InMemoryGraph {
    let document =
        GraphObject { nodes, edges: vec![], viewport: GraphViewport { x: 0, y: 0, zoom: 0 } };
    InMemoryGraph::from_graph_object(document).unwrap()
}

fn node(id: &str, node_type: &str, data: Value) -> GraphNode {
    let mut node = GraphNode::mock_node(Some(id), Some(node_type));
    node.data = data;
    node
}

#[test]
fn a_node_runs_the_function_of_its_type_on_its_data() {
    let mut registry: NativeFnRegistry<Handler> = NativeFnRegistry::new();
    registry.register("step".to_owned(), NativeFnMetaInfo { handler: wants_seven, schema: Value::Null });
    let graph = graph_of(vec![node("a", "step", Value::from(7)), node("b", "step", Value::from(8))]);

    assert!(execute_node(&registry, graph.find_node("a").unwrap()).is_ok());

    let failure = execute_node(&registry, graph.find_node("b").unwrap()).unwrap_err();
    assert_eq!(failure.node_id, "b");
    match failure.error {
        DispatchError::InvalidArguments(detail) => assert_eq!(detail, "step got 8"),
        other => panic!("{other:?}"),
    }
}

#[test]
fn a_node_of_an_unknown_type_fails_with_its_identity() {
    let registry: NativeFnRegistry<Handler> = NativeFnRegistry::new();
    let graph = graph_of(vec![node("lonely", "missing", Value::Null)]);
    let failure = execute_node(&registry, graph.find_node("lonely").unwrap()).unwrap_err();
    assert_eq!(failure.node_id, "lonely");
    match failure.error {
        DispatchError::FunctionNotFound(name) => assert_eq!(name, "missing"),
        other => panic!("{other:?}"),
    }
}

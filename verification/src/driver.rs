//! The execution driver: runs one node of the index through the dispatch
//! registry and tags a failure with the node it came from.

use crate::graphs::in_memory_graph::InMemoryNode;
use crate::graphs::GraphNode;
use crate::json::clone_value;
use crate::pipelines::{fn_named, has_fn, DispatchError, NativeFnContext, NativeFnRegistry};
use vstd::prelude::*;

verus! {

/// A failed execution, tagged with the identity of the node that failed.
#[derive(Debug)]
pub struct NodeFailure {
    pub node_id: String,
    pub error: DispatchError,
}

/// The dispatch payload of a node: its type names the function, its data
/// are the arguments.
pub open spec fn node_payload(node: GraphNode) -> NativeFnContext {
    NativeFnContext { name: node.node_type, context: node.data }
}

/// What the driver reports for the result of a dispatch on behalf of the
/// node named `node_id`.
pub open spec fn tagged(
    outcome: Result<(), DispatchError>,
    node_id: Seq<char>,
    reported: Result<(), NodeFailure>,
) -> bool {
    match outcome {
        Ok(_) => reported.is_ok(),
        Err(error) => reported matches Err(failure) && failure.node_id@ == node_id && failure.error
            == error,
    }
}

/// The dispatch payload of a node.
pub fn payload_of_node(node: &GraphNode) -> (payload: NativeFnContext)
    ensures
        payload == node_payload(*node),
{
    NativeFnContext { name: node.node_type.clone(), context: clone_value(&node.data) }
}

/// Tags the result of a dispatch with the identity of the node that it was
/// made for.
pub fn tag_outcome(node_id: &str, outcome: Result<(), DispatchError>) -> (reported: Result<
    (),
    NodeFailure,
>)
    ensures
        tagged(outcome, node_id@, reported),
{
    match outcome {
        Ok(_) => Ok(()),
        Err(error) => Err(NodeFailure { node_id: node_id.to_owned(), error }),
    }
}

/// Executes one node: calls the function that the node's type names with
/// the node's configuration. Nothing is retried; a failure comes back with
/// the node's identity.
pub fn execute_node<H>(registry: &NativeFnRegistry<H>, node: &InMemoryNode) -> (reported: Result<
    (),
    NodeFailure,
>) where H: Fn(NativeFnContext) -> Result<(), DispatchError>
    ensures
        !has_fn(registry@, node.node_data.node_type@) ==> (reported matches Err(failure)
            && failure.node_id@ == node.node_data.id@ && (failure.error matches DispatchError::FunctionNotFound(
            name,
        ) && name@ == node.node_data.node_type@)),
        has_fn(registry@, node.node_data.node_type@) ==> exists|outcome: Result<(), DispatchError>|
            #![trigger tagged(outcome, node.node_data.id@, reported)]
            call_ensures(
                fn_named(registry@, node.node_data.node_type@).handler,
                (node_payload(node.node_data),),
                outcome,
            ) && tagged(outcome, node.node_data.id@, reported),
{
    let outcome = registry.invoke(payload_of_node(&node.node_data));
    let reported = tag_outcome(node.node_data.id.as_str(), outcome);
    reported
}

} // verus!

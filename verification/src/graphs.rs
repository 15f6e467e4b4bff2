//! The declarative flow-graph document: nodes, directed edges and a
//! viewport, with the linear queries that work on the document itself.

use crate::json::{clone_value, empty_object};
use crate::lookup::{first_index_of, names_of, position_of, Named};
use crate::text::{decimal_text, numbered};
use serde_json::Value;
use vstd::prelude::*;
use vstd::string::*;

pub mod fx_index;
pub mod in_memory_graph;
pub mod instructions;

verus! {

/// Pan and zoom of the editor canvas. Each field is the IEEE-754 bit
/// pattern of a single-precision number: the runtime carries the layout and
/// never computes with it.
#[derive(Debug, Clone, Copy, PartialEq, Eq, Structural)]
pub struct GraphViewport {
    pub x: u32,
    pub y: u32,
    pub zoom: u32,
}

/// Canvas position of a node, as single-precision bit patterns.
#[derive(Debug, Clone, Copy, PartialEq, Eq, Structural)]
pub struct GraphPosition {
    pub x: u32,
    pub y: u32,
}

/// Measured size of a node, as single-precision bit patterns.
#[derive(Debug, Clone, Copy, PartialEq, Eq, Structural)]
pub struct GraphMeasurement {
    pub width: u32,
    pub height: u32,
}

/// One node of a flow graph. `id` is unique within a well-formed document,
/// `node_type` selects the kind of step, `data` is the step's configuration.
#[derive(Debug)]
pub struct GraphNode {
    pub id: String,
    pub node_type: String,
    pub position: GraphPosition,
    pub measurement: GraphMeasurement,
    pub data: Value,
}

/// One directed edge, from the node named `source` to the node named
/// `target`.
#[derive(Debug)]
pub struct GraphEdge {
    pub id: String,
    pub edge_type: String,
    pub source: String,
    pub target: String,
}

/// A flow-graph document.
#[derive(Debug)]
pub struct GraphObject {
    pub nodes: Vec<GraphNode>,
    pub edges: Vec<GraphEdge>,
    pub viewport: GraphViewport,
}

impl Clone for GraphNode {
    fn clone(&self) -> (copy: Self)
        ensures
            copy == *self,
    {
        GraphNode {
            id: self.id.clone(),
            node_type: self.node_type.clone(),
            position: self.position,
            measurement: self.measurement,
            data: clone_value(&self.data),
        }
    }
}

impl Clone for GraphEdge {
    fn clone(&self) -> (copy: Self)
        ensures
            copy == *self,
    {
        GraphEdge {
            id: self.id.clone(),
            edge_type: self.edge_type.clone(),
            source: self.source.clone(),
            target: self.target.clone(),
        }
    }
}

impl Named for GraphNode {
    open spec fn spec_name(&self) -> Seq<char> {
        self.id@
    }

    #[inline]
    fn name(&self) -> (name: &String) {
        &self.id
    }
}

impl Named for GraphEdge {
    open spec fn spec_name(&self) -> Seq<char> {
        self.id@
    }

    #[inline]
    fn name(&self) -> (name: &String) {
        &self.id
    }
}

/// Position of the first node in `nodes` whose identity is `id`, or the
/// length of `nodes` where no node has it.
pub open spec fn first_node_with_id(nodes: Seq<GraphNode>, id: Seq<char>) -> int {
    first_index_of(names_of(nodes), id)
}

/// Position of the first edge in `edges` whose identity is `id`, or the
/// length of `edges` where no edge has it.
pub open spec fn first_edge_with_id(edges: Seq<GraphEdge>, id: Seq<char>) -> int {
    first_index_of(names_of(edges), id)
}

/// The node of `nodes` that a lookup by identity yields.
pub open spec fn node_with_id(nodes: Seq<GraphNode>, id: Seq<char>) -> Option<GraphNode> {
    let at = first_node_with_id(nodes, id);
    if at < nodes.len() {
        Some(nodes[at])
    } else {
        None
    }
}

/// Which ends of an edge a neighbour query follows.
#[derive(Debug, Clone, Copy, PartialEq, Eq, Structural)]
pub enum Follow {
    /// Both directions; an edge that leaves the node counts as leaving it.
    Both,
    /// Against the edge: the nodes that point at the node.
    Sources,
    /// Along the edge: the nodes that the node points at.
    Targets,
}

/// The identity at the far end of `edge`, seen from the node named `id`,
/// where the query follows the edge at all.
pub open spec fn neighbour_id(edge: GraphEdge, id: Seq<char>, follow: Follow) -> Option<Seq<char>> {
    if follow != Follow::Sources && edge.source@ == id {
        Some(edge.target@)
    } else if follow != Follow::Targets && edge.target@ == id {
        Some(edge.source@)
    } else {
        None
    }
}

/// The neighbours of the node named `id`: one entry for each edge that the
/// query follows and whose far end names a node of the document, in edge
/// order.
pub open spec fn neighbours(
    nodes: Seq<GraphNode>,
    edges: Seq<GraphEdge>,
    id: Seq<char>,
    follow: Follow,
) -> Seq<GraphNode>
    decreases edges.len(),
{
    if edges.len() == 0 {
        Seq::empty()
    } else {
        let before = neighbours(nodes, edges.drop_last(), id, follow);
        match neighbour_id(edges.last(), id, follow) {
            Some(far) => match node_with_id(nodes, far) {
                Some(node) => before.push(node),
                None => before,
            },
            None => before,
        }
    }
}

impl GraphObject {
    /// The node that `find_node` answers with: the first one named `id`.
    pub open spec fn spec_find_node(&self, id: Seq<char>) -> Option<GraphNode> {
        node_with_id(self.nodes@, id)
    }

    /// The edge that `find_edge` answers with: the first one named `id`.
    pub open spec fn spec_find_edge(&self, id: Seq<char>) -> Option<GraphEdge> {
        let at = first_edge_with_id(self.edges@, id);
        if at < self.edges@.len() {
            Some(self.edges@[at])
        } else {
            None
        }
    }

    /// The nodes of the given type, in document order.
    pub open spec fn spec_nodes_of_type(&self, node_type: Seq<char>) -> Seq<GraphNode> {
        self.nodes@.filter(|n: GraphNode| n.node_type@ == node_type)
    }

    /// The edges of the given type, in document order.
    pub open spec fn spec_edges_of_type(&self, edge_type: Seq<char>) -> Seq<GraphEdge> {
        self.edges@.filter(|e: GraphEdge| e.edge_type@ == edge_type)
    }

    /// The neighbours of the node named `id` in this document.
    pub open spec fn spec_neighbours(&self, id: Seq<char>, follow: Follow) -> Seq<GraphNode> {
        neighbours(self.nodes@, self.edges@, id, follow)
    }

    /// Copies of all nodes whose type tag is `node_type`, in document order.
    pub fn find_nodes_of_type(&self, node_type: &str) -> (found: Vec<GraphNode>)
        ensures
            found@ == self.spec_nodes_of_type(node_type@),
    {
        let wanted: String = node_type.to_owned();
        let mut found: Vec<GraphNode> = Vec::new();
        let mut i: usize = 0;
        let ghost keep = |n: GraphNode| n.node_type@ == node_type@;
        while i < self.nodes.len()
            invariant
                i <= self.nodes.len(),
                wanted@ == node_type@,
                keep == (|n: GraphNode| n.node_type@ == node_type@),
                found@ == self.nodes@.take(i as int).filter(keep),
            decreases self.nodes.len() - i,
        {
            proof {
                lemma_filter_step(self.nodes@, i as int, keep);
            }
            if self.nodes[i].node_type == wanted {
                found.push(self.nodes[i].clone());
            }
            i += 1;
        }
        assert(self.nodes@.take(i as int) == self.nodes@);
        found
    }

    /// Copies of all edges whose type tag is `edge_type`, in document order.
    pub fn find_edges_of_type(&self, edge_type: &str) -> (found: Vec<GraphEdge>)
        ensures
            found@ == self.spec_edges_of_type(edge_type@),
    {
        let wanted: String = edge_type.to_owned();
        let mut found: Vec<GraphEdge> = Vec::new();
        let mut i: usize = 0;
        let ghost keep = |e: GraphEdge| e.edge_type@ == edge_type@;
        while i < self.edges.len()
            invariant
                i <= self.edges.len(),
                wanted@ == edge_type@,
                keep == (|e: GraphEdge| e.edge_type@ == edge_type@),
                found@ == self.edges@.take(i as int).filter(keep),
            decreases self.edges.len() - i,
        {
            proof {
                lemma_filter_step(self.edges@, i as int, keep);
            }
            if self.edges[i].edge_type == wanted {
                found.push(self.edges[i].clone());
            }
            i += 1;
        }
        assert(self.edges@.take(i as int) == self.edges@);
        found
    }

    /// A copy of the first edge named `edge_id`, if the document has one.
    pub fn find_edge(&self, edge_id: &str) -> (found: Option<GraphEdge>)
        ensures
            found == self.spec_find_edge(edge_id@),
    {
        let wanted: String = edge_id.to_owned();
        let at = position_of(&self.edges, &wanted);
        if at < self.edges.len() {
            Some(self.edges[at].clone())
        } else {
            None
        }
    }

    /// A copy of the first node named `node_id`, if the document has one.
    pub fn find_node(&self, node_id: &str) -> (found: Option<GraphNode>)
        ensures
            found == self.spec_find_node(node_id@),
    {
        let wanted: String = node_id.to_owned();
        let at = position_of(&self.nodes, &wanted);
        if at < self.nodes.len() {
            Some(self.nodes[at].clone())
        } else {
            None
        }
    }

    /// The neighbours of the node named `node_id` over the edges that
    /// `follow` selects.
    fn collect_neighbours(&self, node_id: &str, follow: Follow) -> (found: Vec<GraphNode>)
        ensures
            found@ == self.spec_neighbours(node_id@, follow),
    {
        let wanted: String = node_id.to_owned();
        let mut found: Vec<GraphNode> = Vec::new();
        let mut i: usize = 0;
        while i < self.edges.len()
            invariant
                i <= self.edges.len(),
                wanted@ == node_id@,
                found@ == neighbours(self.nodes@, self.edges@.take(i as int), node_id@, follow),
            decreases self.edges.len() - i,
        {
            let edge = &self.edges[i];
            proof {
                assert(self.edges@.take(i + 1).drop_last() == self.edges@.take(i as int));
                assert(self.edges@.take(i + 1).last() == *edge);
            }
            let along = !matches!(follow, Follow::Sources) && edge.source == wanted;
            let against = !along && !matches!(follow, Follow::Targets) && edge.target == wanted;
            if along || against {
                let far = if along {
                    &edge.target
                } else {
                    &edge.source
                };
                let at = position_of(&self.nodes, far);
                if at < self.nodes.len() {
                    found.push(self.nodes[at].clone());
                }
            }
            i += 1;
        }
        assert(self.edges@.take(i as int) == self.edges@);
        found
    }

    /// Copies of the nodes joined to `node_id` by an edge in either
    /// direction, one per edge, in edge order. An edge whose far end names
    /// no node of the document contributes nothing.
    pub fn get_connected_nodes(&self, node_id: &str) -> (found: Vec<GraphNode>)
        ensures
            found@ == self.spec_neighbours(node_id@, Follow::Both),
    {
        self.collect_neighbours(node_id, Follow::Both)
    }

    /// Copies of the nodes with an edge into `node_id`, one per edge, in
    /// edge order.
    pub fn get_connected_source_nodes(&self, node_id: &str) -> (found: Vec<GraphNode>)
        ensures
            found@ == self.spec_neighbours(node_id@, Follow::Sources),
    {
        self.collect_neighbours(node_id, Follow::Sources)
    }

    /// Copies of the nodes that `node_id` has an edge to, one per edge, in
    /// edge order.
    pub fn get_connected_target_nodes(&self, node_id: &str) -> (found: Vec<GraphNode>)
        ensures
            found@ == self.spec_neighbours(node_id@, Follow::Targets),
    {
        self.collect_neighbours(node_id, Follow::Targets)
    }
}

/// The viewport at the origin, with the zoom field at zero.
pub open spec fn origin_viewport() -> GraphViewport {
    GraphViewport { x: 0, y: 0, zoom: 0 }
}

/// The identity of the `i`-th node of a generated chain.
pub open spec fn chain_node_id(i: nat) -> Seq<char> {
    "scriptNode-"@ + decimal_text(i)
}

/// Whether `node` is a stand-in node with the given identity and type: it
/// sits at the origin and measures nothing.
pub open spec fn is_mock_node(node: GraphNode, id: Seq<char>, node_type: Seq<char>) -> bool {
    &&& node.id@ == id
    &&& node.node_type@ == node_type
    &&& node.position == GraphPosition { x: 0, y: 0 }
    &&& node.measurement == GraphMeasurement { width: 0, height: 0 }
}

/// Whether `edge` is the stand-in edge with the given identity and ends.
pub open spec fn is_mock_edge(
    edge: GraphEdge,
    id: Seq<char>,
    source: Seq<char>,
    target: Seq<char>,
) -> bool {
    &&& edge.id@ == id
    &&& edge.edge_type@ == "mockEdge"@
    &&& edge.source@ == source
    &&& edge.target@ == target
}

impl GraphNode {
    /// A stand-in node with an empty JSON object as configuration. Identity
    /// and type default to `scriptNode`.
    pub fn mock_node(with_id: Option<&str>, with_node_type: Option<&str>) -> (node: GraphNode)
        ensures
            is_mock_node(
                node,
                match with_id {
                    Some(id) => id@,
                    None => "scriptNode"@,
                },
                match with_node_type {
                    Some(node_type) => node_type@,
                    None => "scriptNode"@,
                },
            ),
    {
        let id: String = match with_id {
            Some(id) => id.to_owned(),
            None => "scriptNode".to_owned(),
        };
        let node_type: String = match with_node_type {
            Some(node_type) => node_type.to_owned(),
            None => "scriptNode".to_owned(),
        };
        GraphNode {
            id,
            node_type,
            position: GraphPosition { x: 0, y: 0 },
            measurement: GraphMeasurement { width: 0, height: 0 },
            data: empty_object(),
        }
    }
}

impl GraphEdge {
    /// A stand-in edge of type `mockEdge` between two named nodes.
    pub fn mock_edge(id: &str, source_id: &str, target_id: &str) -> (edge: GraphEdge)
        ensures
            is_mock_edge(edge, id@, source_id@, target_id@),
    {
        GraphEdge {
            id: id.to_owned(),
            edge_type: "mockEdge".to_owned(),
            source: source_id.to_owned(),
            target: target_id.to_owned(),
        }
    }
}

/// A document of `len` script nodes named `scriptNode-0`, `scriptNode-1`,
/// and so on, each joined to the next by one edge.
pub fn create_dynamic_chain(len: usize) -> (graph: GraphObject)
    ensures
        graph.nodes@.len() == len,
        forall|i: int|
            0 <= i < len ==> is_mock_node(
                #[trigger] graph.nodes@[i],
                chain_node_id(i as nat),
                "scriptNode"@,
            ),
        graph.edges@.len() == if len == 0 {
            0
        } else {
            len - 1
        },
        forall|k: int|
            0 <= k < graph.edges@.len() ==> is_mock_edge(
                #[trigger] graph.edges@[k],
                "scriptNode-mockEdge-"@ + decimal_text((k + 1) as nat),
                chain_node_id(k as nat),
                chain_node_id((k + 1) as nat),
            ),
        graph.viewport == origin_viewport(),
{
    let mut nodes: Vec<GraphNode> = Vec::new();
    let mut i: usize = 0;
    while i < len
        invariant
            i <= len,
            nodes@.len() == i,
            forall|j: int|
                0 <= j < i ==> is_mock_node(
                    #[trigger] nodes@[j],
                    chain_node_id(j as nat),
                    "scriptNode"@,
                ),
        decreases len - i,
    {
        let id = numbered("scriptNode-", i);
        nodes.push(GraphNode::mock_node(Some(id.as_str()), None));
        i += 1;
    }
    let mut edges: Vec<GraphEdge> = Vec::new();
    let mut k: usize = 1;
    while k < len
        invariant
            1 <= k,
            k <= len || len == 0,
            nodes@.len() == len,
            forall|j: int|
                0 <= j < len ==> is_mock_node(
                    #[trigger] nodes@[j],
                    chain_node_id(j as nat),
                    "scriptNode"@,
                ),
            edges@.len() == if len == 0 {
                0
            } else {
                k - 1
            },
            forall|j: int|
                0 <= j < edges@.len() ==> is_mock_edge(
                    #[trigger] edges@[j],
                    "scriptNode-mockEdge-"@ + decimal_text((j + 1) as nat),
                    chain_node_id(j as nat),
                    chain_node_id((j + 1) as nat),
                ),
        decreases len - k,
    {
        let edge_id = numbered("scriptNode-mockEdge-", k);
        edges.push(
            GraphEdge::mock_edge(edge_id.as_str(), nodes[k - 1].id.as_str(), nodes[k].id.as_str()),
        );
        k += 1;
    }
    GraphObject { nodes, edges, viewport: GraphViewport { x: 0, y: 0, zoom: 0 } }
}

/// Filtering one element more of a sequence either appends that element or
/// changes nothing.
pub proof fn lemma_filter_step<T>(s: Seq<T>, i: int, keep: spec_fn(T) -> bool)
    requires
        0 <= i < s.len(),
    ensures
        s.take(i + 1).filter(keep) == if keep(s[i]) {
            s.take(i).filter(keep).push(s[i])
        } else {
            s.take(i).filter(keep)
        },
{
    assert(s.take(i + 1).drop_last() == s.take(i));
    reveal(Seq::filter);
}

} // verus!
